//! The parse-time error kinds, and their rendering.

use vstd::prelude::*;
use crate::config_error::{spec_error_area, spec_error_at_msg, ConfigError, Describe};
use crate::lexical_span::LexicalSpan;
use crate::lexer::token::{spec_kind_name, Token};
use crate::strutil::{join_strings, spec_join};

verus! {

/// The closed set of parse-time failures.
#[derive(Debug)]
pub enum Kind {
    UnexpectedToken(Token, Vec<crate::lexer::token::Kind>),
    ReachedEoi,
    InvalidIdentifier(Token),
}

pub type ParserError = ConfigError<Kind>;

/// The `Expected ...` clause of an unexpected-token message: the single
/// acceptable kind, or the bracketed list of them.
pub open spec fn spec_expected_text(expected: Seq<crate::lexer::token::Kind>) -> Seq<char> {
    if expected.len() == 1 {
        "Expected a "@ + spec_kind_name(expected[0])
    } else {
        "Expected one of ["@ + spec_join(
            expected.map_values(|k: crate::lexer::token::Kind| spec_kind_name(k)),
            ", "@,
        ) + "]"@
    }
}

/// The whole unexpected-token message.
pub open spec fn spec_unexpected_text(
    got: Seq<char>,
    expected: Seq<crate::lexer::token::Kind>,
) -> Seq<char> {
    "Unexpected token '"@ + got + "'. "@ + spec_expected_text(expected) + seq!['.']
}

fn expected_text(expected: &Vec<crate::lexer::token::Kind>) -> (r: String)
    ensures
        r@ == spec_expected_text(expected@),
{
    if expected.len() == 1 {
        let mut out = String::from_str("Expected a ");
        let name = expected[0].name();
        out.append(name.as_str());
        assert(out@ =~= spec_expected_text(expected@));
        out
    } else {
        let mut names: Vec<String> = Vec::new();
        let mut i: usize = 0;
        while i < expected.len()
            invariant
                i <= expected@.len(),
                names@.len() == i,
                forall|j: int| 0 <= j < i ==> names@[j]@ == spec_kind_name(#[trigger] expected@[j]),
            decreases expected@.len() - i,
        {
            names.push(expected[i].name());
            i = i + 1;
        }
        let mut out = String::from_str("Expected one of [");
        let joined = join_strings(&names, ", ");
        assert(names@.map_values(|s: String| s@) =~= expected@.map_values(
            |k: crate::lexer::token::Kind| spec_kind_name(k),
        ));
        out.append(joined.as_str());
        out.append("]");
        assert(out@ =~= spec_expected_text(expected@));
        out
    }
}

impl Describe for Kind {
    open spec fn spec_describe(&self) -> Seq<char> {
        match self {
            Kind::UnexpectedToken(token, expected) => spec_unexpected_text(
                token@.lexeme,
                expected@,
            ),
            Kind::ReachedEoi => "Reached end of input while parsing!"@,
            Kind::InvalidIdentifier(token) => "Invalid identifier '"@ + token@.lexeme + "'."@,
        }
    }

    fn describe(&self) -> (r: String) {
        match self {
            Kind::UnexpectedToken(token, expected) => {
                let mut out = String::from_str("Unexpected token '");
                out.append(token.lexeme());
                out.append("'. ");
                let exp = expected_text(expected);
                out.append(exp.as_str());
                out.push('.');
                assert(out@ =~= self.spec_describe());
                out
            },
            Kind::ReachedEoi => String::from_str("Reached end of input while parsing!"),
            Kind::InvalidIdentifier(token) => {
                let mut out = String::from_str("Invalid identifier '");
                out.append(token.lexeme());
                out.append("'.");
                assert(out@ =~= self.spec_describe());
                out
            },
        }
    }
}

/// The span an end-of-input error points at: the last character of the
/// source, or the empty span when the source itself is empty.
pub open spec fn spec_eoi_span(text: Seq<char>) -> LexicalSpan {
    if text.len() == 0 {
        LexicalSpan { start: 0, end: 0 }
    } else {
        LexicalSpan { start: (text.len() - 1) as usize, end: text.len() as usize }
    }
}

/// The exact shape of the end-of-input parse error for a source text.
pub open spec fn spec_eoi_error(e: ParserError, text: Seq<char>) -> bool {
    &&& e matches ConfigError::ContextualizedError(msg, inner)
    &&& msg@ == spec_error_at_msg(spec_eoi_span(text), text)
    &&& *inner matches ConfigError::FirstLevelError(k, area)
    &&& k is ReachedEoi
    &&& area@ == spec_error_area(spec_eoi_span(text), text)
    &&& e.spec_root() matches ConfigError::FirstLevelError(k2, area2)
    &&& k2 is ReachedEoi
    &&& area2@ == spec_error_area(spec_eoi_span(text), text)
}

/// The error reported when the parser needs a token but the source is
/// exhausted.
pub fn end_of_input(source_text: &str) -> (r: ParserError)
    ensures
        spec_eoi_error(r, source_text@),
{
    let len = source_text.unicode_len();
    let span = if len == 0 {
        LexicalSpan::new(0, 0)
    } else {
        LexicalSpan::new(len - 1, len)
    };
    assert(span == spec_eoi_span(source_text@));
    ParserError::on_span(Kind::ReachedEoi, span, source_text)
}

} // verus!
