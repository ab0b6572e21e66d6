//! The recursive-descent parser: tokens in, an expression tree and a
//! list of recovered parse errors out.
//!
//! The parser does not stop at the first malformed top-level expression:
//! each failed attempt is recorded and parsing resumes after the consumed
//! tokens, so one pass surfaces every top-level syntax error.

pub mod parser_error;

use vstd::prelude::*;
use crate::config_error::ConfigError;
use crate::expression::{
    Atom, AtomView, BindingView, Expression, ExpressionDataView, ExpressionView, spec_span_of,
    spec_view_of_list,
};
use crate::lexer::{lex, spec_advance, spec_lex};
use crate::lexer::token::{
    spec_eoi_token, spec_invalid_index, spec_token_wf, Kind as Tk, Token, TokenView,
};
use crate::lexical_span::LexicalSpan;
use crate::parser::parser_error::{
    end_of_input, spec_eoi_span, Kind as Ek, ParserError,
};
use crate::config_error::spec_error_area;

verus! {

/// The abstract content of a parse error: its root kind and the span the
/// diagnostic points at. The context messages wrapped around it are
/// prose; the kind and place are the contract.
pub enum SpecErrorKind {
    UnexpectedToken(TokenView, Seq<Tk>),
    ReachedEoi,
    InvalidIdentifier(TokenView),
}

pub struct SpecParseError {
    pub kind: SpecErrorKind,
    pub span: LexicalSpan,
}

/// The end-of-input error, pointed at the tail of the source.
pub open spec fn spec_eoi_parse_error(text: Seq<char>) -> SpecParseError {
    SpecParseError { kind: SpecErrorKind::ReachedEoi, span: spec_eoi_span(text) }
}

/// Whether an executable error kind carries the abstract kind.
pub open spec fn spec_kind_matches(k: Ek, kv: SpecErrorKind) -> bool {
    match kv {
        SpecErrorKind::UnexpectedToken(tv, ev) => k matches Ek::UnexpectedToken(t, e) && t@ == tv
            && e@ == ev,
        SpecErrorKind::ReachedEoi => k is ReachedEoi,
        SpecErrorKind::InvalidIdentifier(tv) => k matches Ek::InvalidIdentifier(t) && t@ == tv,
    }
}

/// Whether an executable error reports the abstract error: its root
/// cause holds the matching kind and the excerpt for the matching span.
/// The chain of context messages above the root is free prose.
pub open spec fn spec_error_matches(e: ParserError, text: Seq<char>, se: SpecParseError) -> bool {
    &&& e.spec_root() matches ConfigError::FirstLevelError(k, area)
    &&& spec_kind_matches(k, se.kind)
    &&& area@ == spec_error_area(se.span, text)
}

/// A one-character span at an offset (degenerate at the largest offset
/// the machine can express).
pub open spec fn spec_char_span(at: int) -> LexicalSpan {
    LexicalSpan {
        start: at as usize,
        end: if at + 1 <= usize::MAX {
            (at + 1) as usize
        } else {
            at as usize
        },
    }
}

/// The token at a position, or the synthetic end-of-input token past the
/// end.
pub open spec fn spec_tok_at(toks: Seq<TokenView>, i: int) -> TokenView {
    if 0 <= i < toks.len() {
        toks[i]
    } else {
        spec_eoi_token(i)
    }
}

pub open spec fn spec_tokens_wf(toks: Seq<TokenView>) -> bool {
    forall|i: int| 0 <= i < toks.len() ==> spec_token_wf(#[trigger] toks[i])
}

/// What parsing one atom does: consume one token; a text or number token
/// is the atom, the end of input or any other kind is an error.
pub open spec fn spec_parse_atom(toks: Seq<TokenView>, text: Seq<char>, i: int) -> (Result<
    TokenView,
    SpecParseError,
>, int) {
    let t = spec_tok_at(toks, i);
    (
        if t.kind == Tk::Eoi {
            Err(spec_eoi_parse_error(text))
        } else if t.kind == Tk::Text || t.kind == Tk::Number {
            Ok(t)
        } else {
            Err(
                SpecParseError {
                    kind: SpecErrorKind::UnexpectedToken(t, seq![Tk::Text, Tk::Number]),
                    span: t.span,
                },
            )
        },
        i + 1,
    )
}

/// What parsing one expression does, starting at token `i`: a `(` opens
/// a list, a text token followed by `=` opens a binding, and any other
/// text or number token is a presence.
pub open spec fn spec_parse_expression(toks: Seq<TokenView>, text: Seq<char>, i: int) -> (Result<
    ExpressionView,
    SpecParseError,
>, int)
    decreases toks.len() - i, 0int,
{
    if i >= toks.len() {
        (Err(spec_eoi_parse_error(text)), i)
    } else if spec_tok_at(toks, i).kind == Tk::LParen {
        spec_parse_list(toks, text, spec_tok_at(toks, i), i + 1)
    } else {
        let (ar, j) = spec_parse_atom(toks, text, i);
        match ar {
            Err(e) => (Err(e), j),
            Ok(name) => if spec_tok_at(toks, j).kind == Tk::Equals {
                spec_parse_binding(toks, text, name, j)
            } else {
                let atom = if name.kind == Tk::Number {
                    AtomView::Number(name.lexeme)
                } else {
                    AtomView::Text(name.lexeme)
                };
                (
                    Ok(
                        ExpressionView {
                            data: ExpressionDataView::Presence(atom, name.span),
                            comment: None,
                        },
                    ),
                    j,
                )
            },
        }
    }
}

/// What parsing a binding does, with the key token already consumed and
/// `i` at the expected `=`: the key must be a valid identifier, then the
/// bound value is parsed; a parenthesized list right after the value
/// absorbs it as its first element.
pub open spec fn spec_parse_binding(
    toks: Seq<TokenView>,
    text: Seq<char>,
    identifier: TokenView,
    i: int,
) -> (Result<ExpressionView, SpecParseError>, int)
    decreases toks.len() - i, 3int,
{
    if spec_invalid_index(identifier) is Some {
        let idx = spec_invalid_index(identifier)->Some_0;
        (
            Err(
                SpecParseError {
                    kind: SpecErrorKind::InvalidIdentifier(identifier),
                    span: spec_char_span(identifier.span.spec_start() + idx),
                },
            ),
            i,
        )
    } else if spec_tok_at(toks, i).kind == Tk::Equals {
        let (vr, j) = spec_parse_expression(toks, text, spec_advance(i + 1, i, toks.len() as int));
        match vr {
            Err(e) => (Err(e), j),
            Ok(value) => if spec_tok_at(toks, j).kind == Tk::LParen {
                let lp = spec_tok_at(toks, j);
                let (lr, m) = spec_parse_list(
                    toks,
                    text,
                    lp,
                    spec_advance(j + 1, i, toks.len() as int),
                );
                match lr {
                    Err(e) => (Err(e), m),
                    Ok(list) => {
                        let lspan = spec_span_of(list.data);
                        let newlist = ExpressionView {
                            data: ExpressionDataView::List(
                                seq![value] + list.data->List_0,
                                lspan,
                            ),
                            comment: list.comment,
                        };
                        let span = identifier.span.spec_combine(lspan);
                        (
                            Ok(
                                ExpressionView {
                                    data: ExpressionDataView::BindingExpr(
                                        BindingView {
                                            name: identifier.lexeme,
                                            value: Box::new(newlist),
                                            span,
                                        },
                                    ),
                                    comment: None,
                                },
                            ),
                            m,
                        )
                    },
                }
            } else {
                let span = identifier.span.spec_combine(spec_span_of(value.data));
                (
                    Ok(
                        ExpressionView {
                            data: ExpressionDataView::BindingExpr(
                                BindingView {
                                    name: identifier.lexeme,
                                    value: Box::new(value),
                                    span,
                                },
                            ),
                            comment: None,
                        },
                    ),
                    j,
                )
            },
        }
    } else {
        let t = spec_tok_at(toks, i);
        if t.kind == Tk::Eoi {
            (Err(spec_eoi_parse_error(text)), i)
        } else {
            (
                Err(
                    SpecParseError {
                        kind: SpecErrorKind::UnexpectedToken(t, seq![Tk::Equals]),
                        span: t.span,
                    },
                ),
                i,
            )
        }
    }
}

/// What parsing a list does, with the opening parenthesis consumed:
/// elements are parsed until the matching `)`.
pub open spec fn spec_parse_list(
    toks: Seq<TokenView>,
    text: Seq<char>,
    l_paren: TokenView,
    i: int,
) -> (Result<ExpressionView, SpecParseError>, int)
    decreases toks.len() - i, 2int,
{
    let (er, k) = spec_parse_list_elems(toks, text, i);
    match er {
        Err(e) => (Err(e), k),
        Ok(pair) => (
            Ok(
                ExpressionView {
                    data: ExpressionDataView::List(
                        pair.0,
                        l_paren.span.spec_combine(pair.1.span),
                    ),
                    comment: None,
                },
            ),
            k,
        ),
    }
}

/// The elements of a list up to (and including) the closing parenthesis.
pub open spec fn spec_parse_list_elems(toks: Seq<TokenView>, text: Seq<char>, i: int) -> (Result<
    (Seq<ExpressionView>, TokenView),
    SpecParseError,
>, int)
    decreases toks.len() - i, 1int,
{
    if i >= toks.len() {
        (Err(spec_eoi_parse_error(text)), i)
    } else if spec_tok_at(toks, i).kind == Tk::RParen {
        (Ok((Seq::<ExpressionView>::empty(), spec_tok_at(toks, i))), i + 1)
    } else {
        let (er, j) = spec_parse_expression(toks, text, i);
        match er {
            Err(e) => (Err(e), j),
            Ok(v) => {
                let (rr, m) = spec_parse_list_elems(
                    toks,
                    text,
                    spec_advance(j, i, toks.len() as int),
                );
                match rr {
                    Err(e) => (Err(e), m),
                    Ok(pair) => (Ok((seq![v] + pair.0, pair.1)), m),
                }
            },
        }
    }
}

/// What parsing a whole document does: expressions are collected in
/// order; each failed attempt contributes one error and parsing resumes
/// past the tokens the attempt consumed.
pub open spec fn spec_parse_doc(toks: Seq<TokenView>, text: Seq<char>, i: int) -> (Seq<
    ExpressionView,
>, Seq<SpecParseError>)
    decreases toks.len() - i,
{
    if !(0 <= i < toks.len()) {
        (Seq::<ExpressionView>::empty(), Seq::<SpecParseError>::empty())
    } else {
        let (r, k) = spec_parse_expression(toks, text, i);
        let rest = spec_parse_doc(toks, text, spec_advance(k, i, toks.len() as int));
        match r {
            Ok(v) => (seq![v] + rest.0, rest.1),
            Err(e) => (rest.0, seq![e] + rest.1),
        }
    }
}

/// Parsing always moves forward: every attempt at a real position
/// consumes at least one token, and never runs past the end.
pub proof fn lemma_parse_expression_progress(toks: Seq<TokenView>, text: Seq<char>, i: int)
    requires
        0 <= i <= toks.len(),
    ensures
        ({
            let (_, k) = spec_parse_expression(toks, text, i);
            i <= k <= toks.len() && (i < toks.len() ==> i + 1 <= k)
        }),
    decreases toks.len() - i, 0int,
{
    if i >= toks.len() {
    } else if spec_tok_at(toks, i).kind == Tk::LParen {
        lemma_parse_list_elems_progress(toks, text, i + 1);
    } else {
        let (ar, j) = spec_parse_atom(toks, text, i);
        if ar is Ok && spec_tok_at(toks, j).kind == Tk::Equals {
            lemma_parse_binding_progress(toks, text, ar->Ok_0, j);
        }
    }
}

pub proof fn lemma_parse_binding_progress(
    toks: Seq<TokenView>,
    text: Seq<char>,
    identifier: TokenView,
    i: int,
)
    requires
        0 <= i <= toks.len(),
    ensures
        ({
            let (_, k) = spec_parse_binding(toks, text, identifier, i);
            i <= k <= toks.len()
        }),
    decreases toks.len() - i, 3int,
{
    if spec_invalid_index(identifier) is Some {
    } else if spec_tok_at(toks, i).kind == Tk::Equals {
        let nxt = spec_advance(i + 1, i, toks.len() as int);
        lemma_parse_expression_progress(toks, text, nxt);
        let (vr, j) = spec_parse_expression(toks, text, nxt);
        if vr is Ok && spec_tok_at(toks, j).kind == Tk::LParen {
            lemma_parse_list_elems_progress(toks, text, spec_advance(j + 1, i, toks.len() as int));
        }
    }
}

pub proof fn lemma_parse_list_elems_progress(toks: Seq<TokenView>, text: Seq<char>, i: int)
    requires
        0 <= i <= toks.len(),
    ensures
        ({
            let (_, k) = spec_parse_list_elems(toks, text, i);
            i <= k <= toks.len()
        }),
    decreases toks.len() - i, 1int,
{
    if i >= toks.len() {
    } else if spec_tok_at(toks, i).kind == Tk::RParen {
    } else {
        lemma_parse_expression_progress(toks, text, i);
        let (er, j) = spec_parse_expression(toks, text, i);
        if er is Ok {
            lemma_parse_list_elems_progress(toks, text, spec_advance(j, i, toks.len() as int));
        }
    }
}

/// The result of a finished parse: the collected top-level expressions,
/// wrapped in one list, and every error that was recovered from along
/// the way.
pub struct FinishedParser {
    expression: Expression,
    errors: Vec<ParserError>,
}

impl FinishedParser {
    pub closed spec fn spec_expression(&self) -> Expression {
        self.expression
    }

    pub closed spec fn spec_errors(&self) -> Seq<ParserError> {
        self.errors@
    }

    /// The parse errors that were recovered from.
    pub fn errors(&self) -> (r: &Vec<ParserError>)
        ensures
            r@ == self.spec_errors(),
    {
        &self.errors
    }

    /// Take the collected parse errors out of the finished parse.
    pub fn into_errors(self) -> (r: Vec<ParserError>)
        ensures
            r@ == self.spec_errors(),
    {
        self.errors
    }

    /// The parsed document. It is only meaningful when no errors were
    /// collected, so a caller must check `errors` first.
    pub fn unwrap(self) -> (r: Expression)
        requires
            self.spec_errors().len() == 0,
        ensures
            r == self.spec_expression(),
    {
        self.expression
    }
}

/// The document list the parser wraps its top-level expressions in: the
/// span runs from the first expression's start to the last one's end.
pub open spec fn spec_wrap_document(es: Seq<ExpressionView>) -> ExpressionView {
    ExpressionView {
        data: ExpressionDataView::List(
            es,
            if es.len() == 0 {
                LexicalSpan { start: 0, end: 0 }
            } else {
                LexicalSpan {
                    start: spec_span_of(es[0].data).spec_start(),
                    end: spec_span_of(es.last().data).spec_end(),
                }
            },
        ),
        comment: None,
    }
}

pub struct Parser {
    tokens: Vec<Token>,
    current_index: usize,
    expressions: Vec<Expression>,
    errors: Vec<ParserError>,
    source: String,
}

impl Parser {
    pub closed spec fn spec_toks(&self) -> Seq<TokenView> {
        self.tokens@.map_values(|t: Token| t@)
    }

    pub closed spec fn spec_text(&self) -> Seq<char> {
        self.source@
    }

    pub closed spec fn spec_i(&self) -> int {
        self.current_index as int
    }

    pub closed spec fn spec_exprs(&self) -> Seq<Expression> {
        self.expressions@
    }

    pub closed spec fn spec_errs(&self) -> Seq<ParserError> {
        self.errors@
    }

    /// The parser's cursor stays inside its token stream, and every token
    /// covers exactly its lexeme.
    pub open spec fn wf(&self) -> bool {
        &&& 0 <= self.spec_i() <= self.spec_toks().len()
        &&& spec_tokens_wf(self.spec_toks())
    }

    spec fn same_base(&self, other: &Parser) -> bool {
        &&& self.tokens == other.tokens
        &&& self.source == other.source
        &&& self.expressions == other.expressions
        &&& self.errors == other.errors
    }

    /// A parser over the token stream of the given text.
    pub fn new(text: &str) -> (r: Parser)
        ensures
            r.wf(),
            r.spec_toks() == spec_lex(text@),
            r.spec_text() == text@,
            r.spec_i() == 0,
            r.spec_exprs().len() == 0,
            r.spec_errs().len() == 0,
    {
        let n = text.unicode_len();
        proof {
            crate::lexer::lemma_tokens_from_wf(text@, 0);
        }
        Parser {
            tokens: lex(text),
            current_index: 0,
            expressions: Vec::new(),
            errors: Vec::new(),
            source: String::from_str(text),
        }
    }

    fn finished(&self) -> (r: bool)
        ensures
            r == (self.spec_i() == self.spec_toks().len()),
    {
        self.current_index == self.tokens.len()
    }

    fn get(&self, at: usize) -> (r: Token)
        ensures
            r@ == spec_tok_at(self.spec_toks(), at as int),
    {
        if at < self.tokens.len() {
            let t = self.tokens[at].clone();
            proof {
                assert(self.spec_toks()[at as int] == self.tokens@[at as int]@);
            }
            t
        } else {
            Token::new_eoi(at)
        }
    }

    fn current(&self) -> (r: Token)
        ensures
            r@ == spec_tok_at(self.spec_toks(), self.spec_i()),
    {
        self.get(self.current_index)
    }

    fn next(&mut self) -> (r: Token)
        requires
            old(self).wf(),
            old(self).spec_i() < old(self).spec_toks().len(),
        ensures
            final(self).wf(),
            final(self).same_base(old(self)),
            final(self).spec_i() == old(self).spec_i() + 1,
            r@ == spec_tok_at(old(self).spec_toks(), old(self).spec_i()),
    {
        let n = self.tokens.len();
        proof {
            assert(self.spec_toks().len() == self.tokens@.len());
            assert(self.current_index < n);
        }
        let t = self.get(self.current_index);
        self.current_index = self.current_index + 1;
        t
    }

    fn expect(&self, kind: Tk) -> (r: Result<Token, Token>)
        requires
            self.wf(),
            kind != Tk::Eoi,
        ensures
            match r {
                Ok(t) => t@ == spec_tok_at(self.spec_toks(), self.spec_i()) && t@.kind == kind
                    && self.spec_i() < self.spec_toks().len(),
                Err(t) => t@ == spec_tok_at(self.spec_toks(), self.spec_i()) && spec_tok_at(
                    self.spec_toks(),
                    self.spec_i(),
                ).kind != kind,
            },
    {
        let current = self.current();
        if current.kind() == kind {
            proof {
                if self.spec_i() >= self.spec_toks().len() {
                    assert(spec_tok_at(self.spec_toks(), self.spec_i()).kind == Tk::Eoi);
                }
            }
            Ok(current)
        } else {
            Err(current)
        }
    }

    fn eat(&mut self, kind: Tk) -> (r: Result<Token, Token>)
        requires
            old(self).wf(),
            kind != Tk::Eoi,
        ensures
            final(self).wf(),
            final(self).same_base(old(self)),
            match r {
                Ok(t) => t@ == spec_tok_at(old(self).spec_toks(), old(self).spec_i()) && t@.kind
                    == kind && old(self).spec_i() < old(self).spec_toks().len()
                    && final(self).spec_i() == old(self).spec_i() + 1,
                Err(t) => t@ == spec_tok_at(old(self).spec_toks(), old(self).spec_i())
                    && spec_tok_at(old(self).spec_toks(), old(self).spec_i()).kind != kind
                    && final(self).spec_i() == old(self).spec_i(),
            },
    {
        match self.expect(kind) {
            Ok(t) => {
                let n = self.tokens.len();
                proof {
                    assert(self.spec_toks().len() == self.tokens@.len());
                    assert(self.current_index < n);
                }
                self.current_index = self.current_index + 1;
                Ok(t)
            },
            Err(t) => Err(t),
        }
    }

    fn unexpected_token_error(&self, offender: Token, expected: Vec<Tk>) -> (r: ParserError)
        ensures
            spec_error_matches(
                r,
                self.spec_text(),
                SpecParseError {
                    kind: SpecErrorKind::UnexpectedToken(offender@, expected@),
                    span: offender@.span,
                },
            ),
    {
        let span = offender.span();
        ParserError::on_span(Ek::UnexpectedToken(offender, expected), span, self.source.as_str())
    }

    fn parse_atom(&mut self) -> (r: Result<Token, ParserError>)
        requires
            old(self).wf(),
            old(self).spec_i() < old(self).spec_toks().len(),
        ensures
            final(self).wf(),
            final(self).same_base(old(self)),
            final(self).spec_i() == old(self).spec_i() + 1,
            ({
                let (res, ni) = spec_parse_atom(
                    old(self).spec_toks(),
                    old(self).spec_text(),
                    old(self).spec_i(),
                );
                &&& final(self).spec_i() == ni
                &&& match r {
                    Ok(t) => res matches Ok(tv) && t@ == tv,
                    Err(e) => res matches Err(se) && spec_error_matches(
                        e,
                        old(self).spec_text(),
                        se,
                    ),
                }
            }),
    {
        let token = self.next();
        let token = match token.eoi_check(self.source.as_str()) {
            Ok(t) => t,
            Err(e) => {
                return Err(e);
            },
        };
        if token.kind() == Tk::Text {
            return Ok(token);
        }
        if token.kind() == Tk::Number {
            return Ok(token);
        }
        let expected = vec![Tk::Text, Tk::Number];
        proof {
            assert(expected@ =~= seq![Tk::Text, Tk::Number]);
        }
        Err(self.unexpected_token_error(token, expected))
    }

    fn parse_binding(&mut self, identifier: Token) -> (r: Result<Expression, ParserError>)
        requires
            old(self).wf(),
            spec_token_wf(identifier@),
        ensures
            final(self).wf(),
            final(self).same_base(old(self)),
            old(self).spec_i() <= final(self).spec_i(),
            ({
                let (res, ni) = spec_parse_binding(
                    old(self).spec_toks(),
                    old(self).spec_text(),
                    identifier@,
                    old(self).spec_i(),
                );
                &&& final(self).spec_i() == ni
                &&& match r {
                    Ok(e) => res matches Ok(v) && e@ == v,
                    Err(err) => res matches Err(se) && spec_error_matches(
                        err,
                        old(self).spec_text(),
                        se,
                    ),
                }
            }),
        decreases self.tokens@.len() - self.current_index, 0int,
    {
        let ghost toks = self.spec_toks();
        let ghost text = self.spec_text();
        let ghost i0 = self.spec_i();
        proof {
            lemma_parse_binding_progress(toks, text, identifier@, i0);
        }
        if let Some(errant_index) = identifier.invalid_identifier_char_index() {
            let start = identifier.span().start();
            let lexeme_len = identifier.lexeme().unicode_len();
            assert(start + lexeme_len == identifier@.span.spec_end());
            let at = start + errant_index;
            let end = if at < usize::MAX {
                at + 1
            } else {
                at
            };
            let err = ParserError::on_span(
                Ek::InvalidIdentifier(identifier),
                LexicalSpan::new(at, end),
                self.source.as_str(),
            );
            proof {
                assert(LexicalSpan { start: at, end } == spec_char_span(
                    identifier@.span.spec_start() + errant_index,
                ));
            }
            return Err(err);
        }
        if let Err(token) = self.eat(Tk::Equals) {
            let token = match token.eoi_check(self.source.as_str()) {
                Ok(t) => t,
                Err(e) => {
                    return Err(e);
                },
            };
            let expected = vec![Tk::Equals];
            proof {
                assert(expected@ =~= seq![Tk::Equals]);
            }
            return Err(self.unexpected_token_error(token, expected));
        }
        proof {
            assert(spec_advance(i0 + 1, i0, toks.len() as int) == i0 + 1);
            lemma_parse_expression_progress(toks, text, i0 + 1);
        }
        let value = match self.parse_expression() {
            Ok(v) => v,
            Err(e) => {
                let mut msg = String::from_str("Failed to parse the value of the binding '");
                msg.append(identifier.lexeme());
                msg.append("'.");
                let e2 = e.contextualize(msg.as_str());
                proof {
                    assert(e2.spec_root() == e.spec_root());
                }
                return Err(e2);
            },
        };
        if let Ok(l_paren) = self.eat(Tk::LParen) {
            let ghost j = self.spec_i() - 1;
            proof {
                assert(spec_advance(j + 1, i0, toks.len() as int) == j + 1);
            }
            let mut list = match self.parse_list(l_paren) {
                Ok(l) => l,
                Err(e) => {
                    return Err(e);
                },
            };
            list.prepend_into_list(value);
            let span = identifier.span().combine(list.span());
            let r = Expression::binding(identifier.lexeme(), list).with_span(span);
            proof {
                let (res, ni) = spec_parse_binding(toks, text, identifier@, i0);
                assert(r@ =~= res->Ok_0);
            }
            return Ok(r);
        }
        let span = identifier.span().combine(value.span());
        let r = Expression::binding(identifier.lexeme(), value).with_span(span);
        proof {
            let (res, ni) = spec_parse_binding(toks, text, identifier@, i0);
            assert(r@ =~= res->Ok_0);
        }
        Ok(r)
    }

    fn parse_list(&mut self, l_paren: Token) -> (r: Result<Expression, ParserError>)
        requires
            old(self).wf(),
        ensures
            final(self).wf(),
            final(self).same_base(old(self)),
            old(self).spec_i() <= final(self).spec_i(),
            ({
                let (res, ni) = spec_parse_list(
                    old(self).spec_toks(),
                    old(self).spec_text(),
                    l_paren@,
                    old(self).spec_i(),
                );
                &&& final(self).spec_i() == ni
                &&& match r {
                    Ok(e) => res matches Ok(v) && e@ == v,
                    Err(err) => res matches Err(se) && spec_error_matches(
                        err,
                        old(self).spec_text(),
                        se,
                    ),
                }
            }),
        decreases self.tokens@.len() - self.current_index, 2int,
    {
        let ghost toks = self.spec_toks();
        let ghost text = self.spec_text();
        let ghost i0 = self.spec_i();
        let mut elements: Vec<Expression> = Vec::new();
        loop
            invariant
                self.wf(),
                self.same_base(old(self)),
                toks == self.spec_toks(),
                text == self.spec_text(),
                toks == old(self).spec_toks(),
                text == old(self).spec_text(),
                i0 == old(self).spec_i(),
                i0 <= self.spec_i() <= toks.len(),
                ({
                    let whole = spec_parse_list_elems(toks, text, i0);
                    let fut = spec_parse_list_elems(toks, text, self.spec_i());
                    match fut.0 {
                        Ok(p) => whole == (
                            Ok::<_, SpecParseError>(
                                (spec_view_of_list(elements@) + p.0, p.1),
                            ),
                            fut.1,
                        ),
                        Err(e) => whole == (
                            Err::<(Seq<ExpressionView>, TokenView), _>(e),
                            fut.1,
                        ),
                    }
                }),
            decreases toks.len() - self.spec_i(),
        {
            let ghost cur = self.spec_i();
            proof {
                lemma_parse_list_elems_progress(toks, text, cur);
                assert(self.tokens@.len() == toks.len());
                assert(self.current_index as int == cur);
                assert(i0 <= cur);
            }
            match self.eat(Tk::RParen) {
                Ok(r_paren) => {
                    let span = l_paren.span().combine(r_paren.span());
                    let r = Expression::list(elements).with_span(span);
                    proof {
                        let fut = spec_parse_list_elems(toks, text, cur);
                        assert(fut == (
                            Ok::<_, SpecParseError>(
                                (Seq::<ExpressionView>::empty(), r_paren@),
                            ),
                            cur + 1,
                        ));
                        assert(spec_view_of_list(elements@) + Seq::<ExpressionView>::empty()
                            =~= spec_view_of_list(elements@));
                        let (res, ni) = spec_parse_list(toks, text, l_paren@, i0);
                        assert(r@ =~= res->Ok_0);
                    }
                    return Ok(r);
                },
                Err(_) => {},
            }
            proof {
                lemma_parse_expression_progress(toks, text, cur);
            }
            match self.parse_expression() {
                Ok(o) => {
                    proof {
                        assert(cur < toks.len());
                        assert(spec_advance(self.spec_i(), cur, toks.len() as int)
                            == self.spec_i());
                    }
                    let ghost prev = elements@;
                    elements.push(o);
                    proof {
                        assert(spec_view_of_list(elements@) =~= spec_view_of_list(prev) + seq![
                            o@,
                        ]);
                        let whole = spec_parse_list_elems(toks, text, i0);
                        let fut = spec_parse_list_elems(toks, text, self.spec_i());
                        match fut.0 {
                            Ok(p) => {
                                assert(spec_view_of_list(prev) + (seq![o@] + p.0)
                                    =~= spec_view_of_list(elements@) + p.0);
                            },
                            Err(e) => {},
                        }
                    }
                },
                Err(e) => {
                    proof {
                        let (res, ni) = spec_parse_list(toks, text, l_paren@, i0);
                        assert(res is Err);
                    }
                    return Err(e);
                },
            }
        }
    }

    fn parse_expression(&mut self) -> (r: Result<Expression, ParserError>)
        requires
            old(self).wf(),
        ensures
            final(self).wf(),
            final(self).same_base(old(self)),
            old(self).spec_i() <= final(self).spec_i(),
            ({
                let (res, ni) = spec_parse_expression(
                    old(self).spec_toks(),
                    old(self).spec_text(),
                    old(self).spec_i(),
                );
                &&& final(self).spec_i() == ni
                &&& match r {
                    Ok(e) => res matches Ok(v) && e@ == v,
                    Err(err) => res matches Err(se) && spec_error_matches(
                        err,
                        old(self).spec_text(),
                        se,
                    ),
                }
            }),
        decreases self.tokens@.len() - self.current_index, 1int,
    {
        let ghost toks = self.spec_toks();
        let ghost text = self.spec_text();
        let ghost i0 = self.spec_i();
        proof {
            lemma_parse_expression_progress(toks, text, i0);
        }
        if self.finished() {
            let e = end_of_input(self.source.as_str()).contextualize(
                "Tried to parse an expression at the end of the input.",
            );
            proof {
                assert(e.spec_root() matches ConfigError::FirstLevelError(k, area));
            }
            return Err(e);
        }
        if let Ok(l_paren) = self.eat(Tk::LParen) {
            return match self.parse_list(l_paren) {
                Ok(v) => Ok(v),
                Err(e) => {
                    let e2 = e.contextualize("Tried to parse a list as an expression.");
                    proof {
                        assert(e2.spec_root() == e.spec_root());
                    }
                    Err(e2)
                },
            };
        }
        let name = match self.parse_atom() {
            Ok(t) => t,
            Err(e) => {
                let e2 = e.contextualize(
                    "Expected an atom that was either a presence or a binding.",
                );
                proof {
                    assert(e2.spec_root() == e.spec_root());
                }
                return Err(e2);
            },
        };
        proof {
            assert(spec_token_wf(name@));
        }
        if self.expect(Tk::Equals).is_ok() {
            return self.parse_binding(name);
        }
        let atom = if name.kind() == Tk::Number {
            Atom::Number(String::from_str(name.lexeme()))
        } else {
            Atom::Text(String::from_str(name.lexeme()))
        };
        let span = name.span();
        let r = Expression::presence(atom).with_span(span);
        proof {
            let (res, ni) = spec_parse_expression(toks, text, i0);
            assert(r@ =~= res->Ok_0);
        }
        Ok(r)
    }

    /// Parse the whole document, collecting every top-level expression
    /// and recovering from every failed attempt with an error.
    pub fn parse(self) -> (r: FinishedParser)
        requires
            self.wf(),
        ensures
            ({
                let doc = spec_parse_doc(self.spec_toks(), self.spec_text(), self.spec_i());
                &&& r.spec_expression()@ == spec_wrap_document(
                    spec_view_of_list(self.spec_exprs()) + doc.0,
                )
                &&& r.spec_errors().len() == self.spec_errs().len() + doc.1.len()
                &&& forall|j: int|
                    self.spec_errs().len() <= j < r.spec_errors().len()
                        ==> spec_error_matches(
                        #[trigger] r.spec_errors()[j],
                        self.spec_text(),
                        doc.1[j - self.spec_errs().len()],
                    )
                &&& forall|j: int|
                    0 <= j < self.spec_errs().len() ==> #[trigger] r.spec_errors()[j]
                        == self.spec_errs()[j]
            }),
    {
        let ghost toks = self.spec_toks();
        let ghost text = self.spec_text();
        let ghost i0 = self.spec_i();
        let ghost exprs0 = self.spec_exprs();
        let ghost errs0 = self.spec_errs();
        let ghost whole = spec_parse_doc(toks, text, i0);
        let mut p = self;
        loop
            invariant_except_break
                p.wf(),
                p.tokens == self.tokens,
                p.source == self.source,
                toks == p.spec_toks(),
                text == p.spec_text(),
                exprs0.len() <= p.spec_exprs().len(),
                errs0.len() <= p.spec_errs().len(),
                spec_view_of_list(exprs0) + whole.0 =~= spec_view_of_list(p.spec_exprs())
                    + spec_parse_doc(toks, text, p.spec_i()).0,
                whole.1.len() == (p.spec_errs().len() - errs0.len()) + spec_parse_doc(
                    toks,
                    text,
                    p.spec_i(),
                ).1.len(),
                spec_parse_doc(toks, text, p.spec_i()).1 =~= whole.1.skip(
                    p.spec_errs().len() - errs0.len(),
                ),
                forall|j: int|
                    0 <= j < errs0.len() ==> #[trigger] p.spec_errs()[j] == errs0[j],
                forall|j: int|
                    errs0.len() <= j < p.spec_errs().len() ==> spec_error_matches(
                        #[trigger] p.spec_errs()[j],
                        text,
                        whole.1[j - errs0.len()],
                    ),
            ensures
                p.tokens == self.tokens,
                p.source == self.source,
                spec_view_of_list(exprs0) + whole.0 =~= spec_view_of_list(p.spec_exprs()),
                p.spec_errs().len() == errs0.len() + whole.1.len(),
                forall|j: int|
                    0 <= j < errs0.len() ==> #[trigger] p.spec_errs()[j] == errs0[j],
                forall|j: int|
                    errs0.len() <= j < p.spec_errs().len() ==> spec_error_matches(
                        #[trigger] p.spec_errs()[j],
                        text,
                        whole.1[j - errs0.len()],
                    ),
            decreases toks.len() - p.spec_i(),
        {
            if p.finished() {
                proof {
                    assert(spec_parse_doc(toks, text, p.spec_i()).0
                        =~= Seq::<ExpressionView>::empty());
                    assert(spec_view_of_list(exprs0) + whole.0 =~= spec_view_of_list(
                        p.spec_exprs(),
                    ));
                    assert(spec_parse_doc(toks, text, p.spec_i()).1.len() == 0);
                }
                break ;
            }
            let ghost cur = p.spec_i();
            proof {
                lemma_parse_expression_progress(toks, text, cur);
            }
            match p.parse_expression() {
                Ok(o) => {
                    proof {
                        assert(spec_advance(p.spec_i(), cur, toks.len() as int) == p.spec_i());
                    }
                    let ghost prev = p.spec_exprs();
                    p.expressions.push(o);
                    proof {
                        assert(spec_view_of_list(p.spec_exprs()) =~= spec_view_of_list(prev)
                            + seq![o@]);
                        assert(spec_view_of_list(prev) + (seq![o@] + spec_parse_doc(
                            toks,
                            text,
                            p.spec_i(),
                        ).0) =~= spec_view_of_list(p.spec_exprs()) + spec_parse_doc(
                            toks,
                            text,
                            p.spec_i(),
                        ).0);
                    }
                },
                Err(e) => {
                    proof {
                        assert(spec_advance(p.spec_i(), cur, toks.len() as int) == p.spec_i());
                    }
                    let ghost prevn = p.spec_errs().len() as int;
                    let ghost off = prevn - errs0.len();
                    let ghost se = spec_parse_expression(toks, text, cur).0->Err_0;
                    p.errors.push(e);
                    proof {
                        let after = spec_parse_doc(toks, text, p.spec_i());
                        assert(spec_parse_doc(toks, text, cur) == (
                            after.0,
                            seq![se] + after.1,
                        ));
                        assert(whole.1.skip(off)[0] == se);
                        assert(whole.1[off] == se);
                        assert(whole.1.skip(off + 1) =~= whole.1.skip(off).drop_first());
                        assert((seq![se] + after.1).drop_first() =~= after.1);
                        assert(after.1 =~= whole.1.skip(off + 1));
                        assert(p.spec_errs()[prevn] == e);
                        assert(spec_error_matches(e, text, se));
                    }
                },
            }
        }
        let span = if p.expressions.len() == 0 {
            LexicalSpan::zeros()
        } else {
            let first = p.expressions[0].span();
            let last = p.expressions[p.expressions.len() - 1].span();
            LexicalSpan::new(first.start(), last.end())
        };
        let ghost final_exprs = p.spec_exprs();
        let Parser { tokens: _, current_index: _, expressions, errors, source: _ } = p;
        let expression = Expression::list(expressions).with_span(span);
        proof {
            assert(spec_view_of_list(final_exprs).len() == final_exprs.len());
            if final_exprs.len() > 0 {
                assert(spec_view_of_list(final_exprs)[0] == final_exprs[0]@);
                assert(spec_view_of_list(final_exprs).last()
                    == final_exprs[final_exprs.len() - 1]@);
            }
            assert(expression@ =~= spec_wrap_document(spec_view_of_list(exprs0) + whole.0));
        }
        FinishedParser { expression, errors }
    }
}

/// A document of one bare text or number token parses to exactly one
/// presence carrying that token's text, with no errors.
pub proof fn lemma_parse_single_atom(t: TokenView, text: Seq<char>)
    requires
        t.kind == Tk::Text || t.kind == Tk::Number,
    ensures
        spec_parse_doc(seq![t], text, 0) == (
            seq![
                ExpressionView {
                    data: ExpressionDataView::Presence(
                        if t.kind == Tk::Number {
                            AtomView::Number(t.lexeme)
                        } else {
                            AtomView::Text(t.lexeme)
                        },
                        t.span,
                    ),
                    comment: None,
                },
            ],
            Seq::<SpecParseError>::empty(),
        ),
{
    let toks = seq![t];
    assert(spec_tok_at(toks, 0) == t);
    assert(spec_tok_at(toks, 1).kind == Tk::Eoi);
    let (ar, j) = spec_parse_atom(toks, text, 0);
    assert(ar == Ok::<TokenView, SpecParseError>(t) && j == 1);
    let (r, k) = spec_parse_expression(toks, text, 0);
    assert(k == 1);
    assert(spec_advance(1, 0, 1) == 1);
    assert(spec_parse_doc(toks, text, 1) == (
        Seq::<ExpressionView>::empty(),
        Seq::<SpecParseError>::empty(),
    ));
    assert(spec_parse_doc(toks, text, 0).0 =~= seq![r->Ok_0]);
    assert(spec_parse_doc(toks, text, 0).1 =~= Seq::<SpecParseError>::empty());
    assert(spec_parse_doc(toks, text, 0) == (seq![r->Ok_0], Seq::<SpecParseError>::empty()));
}

} // verus!
