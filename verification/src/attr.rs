//! The annotation micro-syntax: `( entry (, entry)* )`, where an entry is a
//! key or `key = "literal"`.

use vstd::prelude::*;
use crate::literal::{decode_str_lit, str_lit_value};
use crate::token::{Delimiter, Ident, IdentView, Span, StrLit, StrLitView, Token, TokenKind, TokenKindView, TokenView};

verus! {

/// What the parser wanted to find where it stopped.
#[derive(Clone, Copy, Debug, PartialEq, Eq, Structural)]
pub enum SyntaxErrorKind {
    /// The list does not open with `(`.
    ExpectedParentheses,
    /// An entry does not begin with a key.
    ExpectedIdentifier,
    /// `=` is not followed by a string literal.
    ExpectedStringLiteral,
    /// An entry is followed neither by `,` nor by `)`.
    ExpectedComma,
    /// Tokens follow the closing `)`.
    UnexpectedToken,
}

/// A fault in the micro-syntax of an annotation, with the span of the
/// offending token, or of the whole annotation where its tokens ran out.
#[derive(Clone, Copy, Debug, PartialEq, Eq, Structural)]
pub struct SyntaxError {
    pub kind: SyntaxErrorKind,
    pub span: Span,
}

/// One entry of an annotation: a key, alone or with a value.
#[derive(Clone, Debug, PartialEq, Eq)]
pub struct AttrsValue {
    pub key: Ident,
    pub value: Option<StrLit>,
}

/// The model of an [`AttrsValue`].
pub struct AttrsValueView {
    pub key: IdentView,
    pub value: Option<StrLitView>,
}

impl View for AttrsValue {
    type V = AttrsValueView;

    open spec fn view(&self) -> AttrsValueView {
        AttrsValueView { key: self.key@, value: self.value.deep_view() }
    }
}

impl DeepView for AttrsValue {
    type V = AttrsValueView;

    open spec fn deep_view(&self) -> AttrsValueView {
        self@
    }
}

/// The entries of one annotation, in source order, duplicates included.
#[derive(Clone, Debug, PartialEq, Eq)]
pub struct AttrsData {
    pub values: Vec<AttrsValue>,
}

impl View for AttrsData {
    type V = Seq<AttrsValueView>;

    open spec fn view(&self) -> Seq<AttrsValueView> {
        self.values.deep_view()
    }
}

/// The span at which a fault at position `pos` is reported: that of the
/// token there, or `end` where the tokens have run out.
pub open spec fn span_at(tokens: Seq<TokenView>, pos: int, end: Span) -> Span {
    if 0 <= pos < tokens.len() {
        tokens[pos].span
    } else {
        end
    }
}

/// Whether the token at `pos` exists and is of kind `kind`.
pub open spec fn is_at(tokens: Seq<TokenView>, pos: int, kind: TokenKindView) -> bool {
    0 <= pos < tokens.len() && tokens[pos].kind == kind
}

/// The entry made of a key and of what came of decoding the literal after
/// its `=`: the literal's value, or `None` where it was no string literal.
pub open spec fn entry_with_literal(
    key: IdentView,
    decoded: Option<Seq<char>>,
    span: Span,
) -> Result<AttrsValueView, SyntaxError> {
    match decoded {
        Some(value) => Ok(AttrsValueView { key, value: Some(StrLitView { value, span }) }),
        None => Err(SyntaxError { kind: SyntaxErrorKind::ExpectedStringLiteral, span }),
    }
}

/// One entry read at `pos`: the entry and the position behind it.
pub open spec fn parse_value(tokens: Seq<TokenView>, pos: int, end: Span) -> Result<
    (AttrsValueView, int),
    SyntaxError,
> {
    if 0 <= pos < tokens.len() && tokens[pos].kind is Ident {
        let key = IdentView { name: tokens[pos].kind->Ident_0, span: tokens[pos].span };
        if is_at(tokens, pos + 1, TokenKindView::Punct('=')) {
            if pos + 2 < tokens.len() && tokens[pos + 2].kind is Literal {
                match entry_with_literal(
                    key,
                    str_lit_value(tokens[pos + 2].kind->Literal_0),
                    tokens[pos + 2].span,
                ) {
                    Ok(entry) => Ok((entry, pos + 3)),
                    Err(e) => Err(e),
                }
            } else {
                Err(
                    SyntaxError {
                        kind: SyntaxErrorKind::ExpectedStringLiteral,
                        span: span_at(tokens, pos + 2, end),
                    },
                )
            }
        } else {
            Ok((AttrsValueView { key, value: None }, pos + 1))
        }
    } else {
        Err(SyntaxError { kind: SyntaxErrorKind::ExpectedIdentifier, span: span_at(tokens, pos, end) })
    }
}

/// The entries read from `pos` up to the closing `)`: the entries and the
/// position behind the `)`.
pub open spec fn parse_values(tokens: Seq<TokenView>, pos: int, end: Span) -> Result<
    (Seq<AttrsValueView>, int),
    SyntaxError,
>
    decreases tokens.len() - pos,
{
    match parse_value(tokens, pos, end) {
        Err(e) => Err(e),
        Ok((entry, next)) => {
            if is_at(tokens, next, TokenKindView::Close(Delimiter::Parenthesis)) {
                Ok((seq![entry], next + 1))
            } else if is_at(tokens, next, TokenKindView::Punct(',')) {
                match parse_values(tokens, next + 1, end) {
                    Err(e) => Err(e),
                    Ok((rest, behind)) => Ok((seq![entry] + rest, behind)),
                }
            } else {
                Err(
                    SyntaxError {
                        kind: SyntaxErrorKind::ExpectedComma,
                        span: span_at(tokens, next, end),
                    },
                )
            }
        },
    }
}

/// The entries that the tokens of one annotation spell, or the first fault.
/// `end` is the span that a fault is given when the tokens run out.
pub open spec fn parse_data(tokens: Seq<TokenView>, end: Span) -> Result<
    Seq<AttrsValueView>,
    SyntaxError,
> {
    if !is_at(tokens, 0, TokenKindView::Open(Delimiter::Parenthesis)) {
        Err(SyntaxError { kind: SyntaxErrorKind::ExpectedParentheses, span: span_at(tokens, 0, end) })
    } else {
        match parse_values(tokens, 1, end) {
            Err(e) => Err(e),
            Ok((values, behind)) => {
                if behind == tokens.len() {
                    Ok(values)
                } else {
                    Err(
                        SyntaxError {
                            kind: SyntaxErrorKind::UnexpectedToken,
                            span: span_at(tokens, behind, end),
                        },
                    )
                }
            },
        }
    }
}

/// `whole` is what reading `tail` gives, put behind the entries `head`.
spec fn extends(
    head: Seq<AttrsValueView>,
    tail: Result<(Seq<AttrsValueView>, int), SyntaxError>,
    whole: Result<(Seq<AttrsValueView>, int), SyntaxError>,
) -> bool {
    match tail {
        Err(e) => whole == Err::<(Seq<AttrsValueView>, int), SyntaxError>(e),
        Ok((rest, behind)) => whole == Ok::<(Seq<AttrsValueView>, int), SyntaxError>(
            (head + rest, behind),
        ),
    }
}

fn is_punct(tokens: &Vec<Token>, pos: usize, c: char) -> (r: bool)
    ensures
        r == is_at(tokens.deep_view(), pos as int, TokenKindView::Punct(c)),
{
    if pos < tokens.len() {
        match &tokens[pos].kind {
            TokenKind::Punct(p) => *p == c,
            _ => false,
        }
    } else {
        false
    }
}

fn is_paren(tokens: &Vec<Token>, pos: usize, open: bool) -> (r: bool)
    ensures
        open ==> r == is_at(
            tokens.deep_view(),
            pos as int,
            TokenKindView::Open(Delimiter::Parenthesis),
        ),
        !open ==> r == is_at(
            tokens.deep_view(),
            pos as int,
            TokenKindView::Close(Delimiter::Parenthesis),
        ),
{
    if pos < tokens.len() {
        match &tokens[pos].kind {
            TokenKind::Open(d) => open && *d == Delimiter::Parenthesis,
            TokenKind::Close(d) => !open && *d == Delimiter::Parenthesis,
            _ => false,
        }
    } else {
        false
    }
}

fn fault(kind: SyntaxErrorKind, tokens: &Vec<Token>, pos: usize, end: Span) -> (e: SyntaxError)
    ensures
        e == (SyntaxError { kind, span: span_at(tokens.deep_view(), pos as int, end) }),
{
    if pos < tokens.len() {
        SyntaxError { kind, span: tokens[pos].span }
    } else {
        SyntaxError { kind, span: end }
    }
}

impl AttrsValue {
    /// Completes an entry whose key is followed by `=` and a literal token:
    /// `decoded` is what decoding that literal as a string literal gave, and
    /// `span` is where the literal stands. Without a decoded value the
    /// literal is no string literal, which is a fault at `span`.
    pub fn with_literal(key: Ident, decoded: Option<String>, span: Span) -> (r: Result<
        AttrsValue,
        SyntaxError,
    >)
        ensures
            match r {
                Ok(entry) => entry_with_literal(key@, decoded.deep_view(), span) == Ok::<
                    AttrsValueView,
                    SyntaxError,
                >(entry@),
                Err(e) => entry_with_literal(key@, decoded.deep_view(), span) == Err::<
                    AttrsValueView,
                    SyntaxError,
                >(e),
            },
    {
        match decoded {
            Some(value) => Ok(AttrsValue { key, value: Some(StrLit { value, span }) }),
            None => Err(SyntaxError { kind: SyntaxErrorKind::ExpectedStringLiteral, span }),
        }
    }

    /// Reads one entry, `key` or `key = "literal"`, at position `pos` of
    /// `tokens`, and gives it with the position behind it. `end` is the
    /// span of a fault found where the tokens have run out.
    pub fn parse(tokens: &Vec<Token>, pos: usize, end: Span) -> (r: Result<
        (AttrsValue, usize),
        SyntaxError,
    >)
        ensures
            match r {
                Ok((entry, next)) => parse_value(tokens.deep_view(), pos as int, end) == Ok::<
                    (AttrsValueView, int),
                    SyntaxError,
                >((entry@, next as int)) && pos < next <= tokens.len(),
                Err(e) => parse_value(tokens.deep_view(), pos as int, end) == Err::<
                    (AttrsValueView, int),
                    SyntaxError,
                >(e),
            },
    {
        if pos >= tokens.len() {
            return Err(fault(SyntaxErrorKind::ExpectedIdentifier, tokens, pos, end));
        }
        let key = match &tokens[pos].kind {
            TokenKind::Ident(name) => Ident { name: name.clone(), span: tokens[pos].span },
            _ => {
                return Err(fault(SyntaxErrorKind::ExpectedIdentifier, tokens, pos, end));
            },
        };
        if !is_punct(tokens, pos + 1, '=') {
            return Ok((AttrsValue { key, value: None }, pos + 1));
        }
        if pos + 2 >= tokens.len() {
            return Err(fault(SyntaxErrorKind::ExpectedStringLiteral, tokens, pos + 2, end));
        }
        match &tokens[pos + 2].kind {
            TokenKind::Literal(text) => {
                let decoded = decode_str_lit(text.as_str());
                match AttrsValue::with_literal(key, decoded, tokens[pos + 2].span) {
                    Ok(entry) => Ok((entry, pos + 3)),
                    Err(e) => Err(e),
                }
            },
            _ => Err(fault(SyntaxErrorKind::ExpectedStringLiteral, tokens, pos + 2, end)),
        }
    }
}

impl AttrsData {
    /// Reads the tokens of one annotation, `( entry (, entry)* )`, into its
    /// entries. `end` is the span of a fault found where the tokens have
    /// run out: the span of the annotation.
    pub fn parse(tokens: &Vec<Token>, end: Span) -> (r: Result<AttrsData, SyntaxError>)
        ensures
            match r {
                Ok(data) => parse_data(tokens.deep_view(), end) == Ok::<
                    Seq<AttrsValueView>,
                    SyntaxError,
                >(data@),
                Err(e) => parse_data(tokens.deep_view(), end) == Err::<
                    Seq<AttrsValueView>,
                    SyntaxError,
                >(e),
            },
    {
        if !is_paren(tokens, 0, true) {
            return Err(fault(SyntaxErrorKind::ExpectedParentheses, tokens, 0, end));
        }
        let ghost model = tokens.deep_view();
        let mut values: Vec<AttrsValue> = Vec::new();
        let mut pos: usize = 1;
        loop
            invariant
                1 <= pos <= tokens.len(),
                model == tokens.deep_view(),
                is_at(model, 0, TokenKindView::Open(Delimiter::Parenthesis)),
                extends(
                    values.deep_view(),
                    parse_values(model, pos as int, end),
                    parse_values(model, 1, end),
                ),
            decreases tokens.len() - pos,
        {
            let ghost head = values.deep_view();
            match AttrsValue::parse(tokens, pos, end) {
                Err(e) => {
                    return Err(e);
                },
                Ok((entry, next)) => {
                    let ghost entry_model = entry@;
                    values.push(entry);
                    assert(values.deep_view() =~= head + seq![entry_model]);
                    if is_paren(tokens, next, false) {
                        if next + 1 == tokens.len() {
                            return Ok(AttrsData { values });
                        } else {
                            return Err(
                                fault(SyntaxErrorKind::UnexpectedToken, tokens, next + 1, end),
                            );
                        }
                    } else if is_punct(tokens, next, ',') {
                        assert forall|rest: Seq<AttrsValueView>|
                            head + (seq![entry_model] + rest) =~= (head + seq![entry_model])
                                + rest by {}
                        pos = next + 1;
                    } else {
                        return Err(fault(SyntaxErrorKind::ExpectedComma, tokens, next, end));
                    }
                },
            }
        }
    }
}

/// An entry as it is written: its key, and the text of the literal behind
/// its `=`, if it has one.
pub struct Written {
    pub key: Seq<char>,
    pub literal: Option<Seq<char>>,
}

/// The kinds of the tokens that spell one entry.
pub open spec fn entry_kinds(entry: Written) -> Seq<TokenKindView> {
    match entry.literal {
        None => seq![TokenKindView::Ident(entry.key)],
        Some(text) => seq![
            TokenKindView::Ident(entry.key),
            TokenKindView::Punct('='),
            TokenKindView::Literal(text),
        ],
    }
}

/// The kinds of the tokens that spell the entries with a comma between
/// each two.
pub open spec fn list_kinds(entries: Seq<Written>) -> Seq<TokenKindView>
    decreases entries.len(),
{
    if entries.len() == 0 {
        Seq::empty()
    } else if entries.len() == 1 {
        entry_kinds(entries[0])
    } else {
        entry_kinds(entries[0]) + seq![TokenKindView::Punct(',')] + list_kinds(
            entries.drop_first(),
        )
    }
}

/// Whether the entry `read` is the entry `written`, with its literal
/// decoded.
pub open spec fn reads_as(read: AttrsValueView, written: Written) -> bool {
    &&& read.key.name == written.key
    &&& match written.literal {
        None => read.value is None,
        Some(text) => read.value matches Some(lit) && str_lit_value(text) == Some(lit.value),
    }
}

/// Whether the tokens from `pos` on spell the entries, one for one and in
/// order, and then the closing `)`.
pub open spec fn spells(tokens: Seq<TokenView>, pos: int, entries: Seq<Written>) -> bool {
    let kinds = list_kinds(entries);
    &&& 0 <= pos
    &&& pos + kinds.len() < tokens.len()
    &&& forall|k: int| 0 <= k < kinds.len() ==> (#[trigger] tokens[pos + k]).kind == kinds[k]
    &&& tokens[pos + kinds.len()].kind == TokenKindView::Close(Delimiter::Parenthesis)
}

/// A list that is spelled out is read as it is written: the tokens of one
/// or more entries, each a key alone or a key, `=` and a string literal,
/// with commas between them and `)` behind them, give just those entries,
/// in that order, duplicates included.
pub proof fn lemma_reads_what_is_spelled(
    tokens: Seq<TokenView>,
    pos: int,
    entries: Seq<Written>,
    end: Span,
)
    requires
        entries.len() >= 1,
        spells(tokens, pos, entries),
        forall|k: int|
            0 <= k < entries.len() ==> ((#[trigger] entries[k]).literal matches Some(text)
                ==> str_lit_value(text) is Some),
    ensures
        parse_values(tokens, pos, end) is Ok,
        ({
            let (values, behind) = parse_values(tokens, pos, end)->Ok_0;
            &&& behind == pos + list_kinds(entries).len() + 1
            &&& values.len() == entries.len()
            &&& forall|k: int| 0 <= k < entries.len() ==> reads_as(#[trigger] values[k], entries[k])
        }),
    decreases entries.len(),
{
    let first = entries[0];
    let head = entry_kinds(first);
    let kinds = list_kinds(entries);
    let width = head.len() as int;
    assert(head =~= kinds.subrange(0, width));
    assert(tokens[pos + 0].kind == kinds[0]);
    if first.literal is Some {
        assert(tokens[pos + 1].kind == kinds[1]);
        assert(tokens[pos + 2].kind == kinds[2]);
    }
    if entries.len() == 1 {
        assert(tokens[pos + width].kind == TokenKindView::Close(Delimiter::Parenthesis));
    } else {
        let rest = entries.drop_first();
        let tail = list_kinds(rest);
        assert(kinds[width] == TokenKindView::Punct(','));
        assert(tokens[pos + width].kind == kinds[width]);
        assert forall|k: int| 0 <= k < tail.len() implies (#[trigger] tokens[pos + width + 1
            + k]).kind == tail[k] by {
            assert(tokens[pos + (width + 1 + k)].kind == kinds[width + 1 + k]);
        }
        assert forall|k: int| 0 <= k < rest.len() implies ((#[trigger] rest[k]).literal matches Some(
            text,
        ) ==> str_lit_value(text) is Some) by {
            assert(rest[k] == entries[k + 1]);
        }
        lemma_reads_what_is_spelled(tokens, pos + width + 1, rest, end);
        let (values, behind) = parse_values(tokens, pos, end)->Ok_0;
        let (others, _) = parse_values(tokens, pos + width + 1, end)->Ok_0;
        assert forall|k: int| 0 <= k < entries.len() implies reads_as(
            #[trigger] values[k],
            entries[k],
        ) by {
            if k > 0 {
                assert(values[k] == others[k - 1]);
                assert(rest[k - 1] == entries[k]);
            }
        }
    }
}

/// An annotation that is spelled out is read as it is written: `(`, the
/// entries as in [`lemma_reads_what_is_spelled`], and `)` as the last
/// token.
pub proof fn lemma_reads_annotation(tokens: Seq<TokenView>, entries: Seq<Written>, end: Span)
    requires
        entries.len() >= 1,
        tokens.len() == list_kinds(entries).len() + 2,
        tokens[0].kind == TokenKindView::Open(Delimiter::Parenthesis),
        spells(tokens, 1, entries),
        forall|k: int|
            0 <= k < entries.len() ==> ((#[trigger] entries[k]).literal matches Some(text)
                ==> str_lit_value(text) is Some),
    ensures
        parse_data(tokens, end) is Ok,
        parse_data(tokens, end)->Ok_0.len() == entries.len(),
        forall|k: int|
            0 <= k < entries.len() ==> reads_as(
                #[trigger] parse_data(tokens, end)->Ok_0[k],
                entries[k],
            ),
{
    lemma_reads_what_is_spelled(tokens, 1, entries, end);
}

/// The entries that the tokens from `pos` on are read as, as they are
/// written.
spec fn written(tokens: Seq<TokenView>, pos: int, end: Span) -> Seq<Written>
    decreases tokens.len() - pos,
{
    match parse_value(tokens, pos, end) {
        Err(_) => Seq::empty(),
        Ok((entry, next)) => {
            let first = Written {
                key: entry.key.name,
                literal: if entry.value is Some {
                    Some(tokens[pos + 2].kind->Literal_0)
                } else {
                    None
                },
            };
            if is_at(tokens, next, TokenKindView::Punct(',')) {
                seq![first] + written(tokens, next + 1, end)
            } else {
                seq![first]
            }
        },
    }
}

/// What is read was spelled: where reading from `pos` succeeds, the tokens
/// from `pos` up to the position behind the list spell one or more
/// entries and the closing `)`, and what is read are those entries.
pub proof fn lemma_spelled_what_is_read(tokens: Seq<TokenView>, pos: int, end: Span)
    requires
        parse_values(tokens, pos, end) is Ok,
    ensures
        exists|entries: Seq<Written>|
            {
                let (values, behind) = parse_values(tokens, pos, end)->Ok_0;
                &&& entries.len() >= 1
                &&& #[trigger] spells(tokens, pos, entries)
                &&& behind == pos + list_kinds(entries).len() + 1
                &&& values.len() == entries.len()
                &&& forall|k: int|
                    0 <= k < entries.len() ==> reads_as(#[trigger] values[k], entries[k])
            },
    decreases tokens.len() - pos,
{
    let entries = written(tokens, pos, end);
    lemma_written(tokens, pos, end);
    assert(spells(tokens, pos, entries));
}

/// The same, with the entries named.
proof fn lemma_written(tokens: Seq<TokenView>, pos: int, end: Span)
    requires
        parse_values(tokens, pos, end) is Ok,
    ensures
        ({
            let entries = written(tokens, pos, end);
            let (values, behind) = parse_values(tokens, pos, end)->Ok_0;
            &&& entries.len() >= 1
            &&& spells(tokens, pos, entries)
            &&& behind == pos + list_kinds(entries).len() + 1
            &&& values.len() == entries.len()
            &&& forall|k: int| 0 <= k < entries.len() ==> reads_as(#[trigger] values[k], entries[k])
        }),
    decreases tokens.len() - pos,
{
    let entries = written(tokens, pos, end);
    let (entry, next) = parse_value(tokens, pos, end)->Ok_0;
    let first = entries[0];
    let head = entry_kinds(first);
    let kinds = list_kinds(entries);
    let (values, behind) = parse_values(tokens, pos, end)->Ok_0;
    assert(next == pos + head.len());
    if is_at(tokens, next, TokenKindView::Punct(',')) {
        lemma_written(tokens, next + 1, end);
        let rest = written(tokens, next + 1, end);
        let (others, _) = parse_values(tokens, next + 1, end)->Ok_0;
        assert(entries.drop_first() =~= rest);
        let tail = list_kinds(rest);
        assert(kinds == head + seq![TokenKindView::Punct(',')] + tail);
        assert forall|k: int| 0 <= k < kinds.len() implies (#[trigger] tokens[pos + k]).kind
            == kinds[k] by {
            if k > head.len() {
                assert(tokens[next + 1 + (k - head.len() - 1)].kind == tail[k - head.len() - 1]);
            }
        }
        assert forall|k: int| 0 <= k < entries.len() implies reads_as(
            #[trigger] values[k],
            entries[k],
        ) by {
            if k > 0 {
                assert(values[k] == others[k - 1]);
                assert(entries[k] == rest[k - 1]);
            }
        }
    } else {
        assert(entries =~= seq![first]);
    }
}

/// The text of the complaint about a fault of the given kind.
pub open spec fn syntax_message(kind: SyntaxErrorKind) -> Seq<char> {
    match kind {
        SyntaxErrorKind::ExpectedParentheses => "expected parentheses"@,
        SyntaxErrorKind::ExpectedIdentifier => "expected identifier"@,
        SyntaxErrorKind::ExpectedStringLiteral => "expected string literal"@,
        SyntaxErrorKind::ExpectedComma => "expected `,`"@,
        SyntaxErrorKind::UnexpectedToken => "unexpected token"@,
    }
}

impl SyntaxError {
    /// The complaint, as the host shows it at the span of the error.
    pub fn message(&self) -> (r: String)
        ensures
            r@ == syntax_message(self.kind),
    {
        match self.kind {
            SyntaxErrorKind::ExpectedParentheses => "expected parentheses".to_owned(),
            SyntaxErrorKind::ExpectedIdentifier => "expected identifier".to_owned(),
            SyntaxErrorKind::ExpectedStringLiteral => "expected string literal".to_owned(),
            SyntaxErrorKind::ExpectedComma => "expected `,`".to_owned(),
            SyntaxErrorKind::UnexpectedToken => "unexpected token".to_owned(),
        }
    }
}

} // verus!
