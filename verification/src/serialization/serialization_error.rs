//! The decode-time error kinds, their rendering, and the abstract
//! failure model that decode contracts are stated over.

use vstd::prelude::*;
use crate::config_error::{ConfigError, Describe};
use crate::expression::{spec_name_of_kind, Expression};
use crate::lexical_span::LexicalSpan;
use crate::parser::parser_error::ParserError;
use crate::strutil::{join_strings, spec_join};

verus! {

/// The closed set of decode-time failures.
#[derive(Debug)]
pub enum Kind {
    ParserErrors(Vec<ParserError>),
    UnableToLocateBindingName(String),
    WrongCardinality { got: usize, want: usize },
    ParseIntError(String),
    ParseCharError(String),
    ParseBoolError(String),
    ExpectedNumber(String),
    ExpectedText(String),
    ExpectedPresence(Expression),
    ExpectedBinding(Expression),
    ExpectedList(Expression),
    ExpectedDiscriminant(String, Vec<String>),
    MissingField(String),
    ExpectedFieldGotEoi(String),
    ReachedEoi,
}

pub type SerializationError = ConfigError<Kind>;

/// The abstract failure a decode contract names: the error kind without
/// its diagnostic payload.
pub enum DecodeFailure {
    ParserErrors,
    UnableToLocateBindingName,
    WrongCardinality,
    ParseIntError,
    ParseCharError,
    ParseBoolError,
    ExpectedNumber,
    ExpectedText,
    ExpectedPresence,
    ExpectedBinding,
    ExpectedList,
    ExpectedDiscriminant,
    MissingField,
    ExpectedFieldGotEoi,
    ReachedEoi,
}

/// The abstract failure an executable error kind carries.
pub open spec fn spec_failure_of(k: Kind) -> DecodeFailure {
    match k {
        Kind::ParserErrors(_) => DecodeFailure::ParserErrors,
        Kind::UnableToLocateBindingName(_) => DecodeFailure::UnableToLocateBindingName,
        Kind::WrongCardinality { .. } => DecodeFailure::WrongCardinality,
        Kind::ParseIntError(_) => DecodeFailure::ParseIntError,
        Kind::ParseCharError(_) => DecodeFailure::ParseCharError,
        Kind::ParseBoolError(_) => DecodeFailure::ParseBoolError,
        Kind::ExpectedNumber(_) => DecodeFailure::ExpectedNumber,
        Kind::ExpectedText(_) => DecodeFailure::ExpectedText,
        Kind::ExpectedPresence(_) => DecodeFailure::ExpectedPresence,
        Kind::ExpectedBinding(_) => DecodeFailure::ExpectedBinding,
        Kind::ExpectedList(_) => DecodeFailure::ExpectedList,
        Kind::ExpectedDiscriminant(_, _) => DecodeFailure::ExpectedDiscriminant,
        Kind::MissingField(_) => DecodeFailure::MissingField,
        Kind::ExpectedFieldGotEoi(_) => DecodeFailure::ExpectedFieldGotEoi,
        Kind::ReachedEoi => DecodeFailure::ReachedEoi,
    }
}

/// Whether an executable error reports the abstract failure: its root
/// cause must be a first-level error of the corresponding kind. The
/// excerpt and the context chain above it are free prose.
pub open spec fn spec_failure_matches(e: SerializationError, f: DecodeFailure) -> bool {
    &&& e.spec_root() matches ConfigError::FirstLevelError(k, _)
    &&& spec_failure_of(k) == f
}

impl Describe for Kind {
    open spec fn spec_describe(&self) -> Seq<char> {
        match self {
            Kind::ParserErrors(errors) => "Unable to parse expression.\n"@ + spec_join(
                errors@.map_values(|e: ParserError| e.spec_render()),
                seq!['\n'],
            ),
            Kind::UnableToLocateBindingName(n) => "The binding "@ + n@
                + " is mandatory, but not present."@,
            Kind::WrongCardinality { got, want } => "Wrong cardinality. Expected to have "@
                + crate::numfmt::spec_fmt_nat(*want as nat) + " elements, but got "@
                + crate::numfmt::spec_fmt_nat(*got as nat) + " elements"@,
            Kind::ParseIntError(s) => "Unable to parse '"@ + s@ + "' as an integer."@,
            Kind::ParseCharError(s) => "Unable to parse '"@ + s@ + "' as a character."@,
            Kind::ParseBoolError(s) => "Unable to parse '"@ + s@ + "' as a boolean."@,
            Kind::ExpectedNumber(s) => "Expected number, but got "@ + s@ + seq!['.'],
            Kind::ExpectedText(s) => "Expected text, but got "@ + s@ + seq!['.'],
            Kind::ExpectedPresence(g) => "Expected Presence, but got "@ + spec_name_of_kind(
                g@.data,
            ) + seq!['.'],
            Kind::ExpectedBinding(g) => "Expected Binding, but got "@ + spec_name_of_kind(
                g@.data,
            ) + seq!['.'],
            Kind::ExpectedList(g) => "Expected List, but got "@ + spec_name_of_kind(g@.data)
                + seq!['.'],
            Kind::ExpectedDiscriminant(got, options) => "Expected a enum discriminant (specifically "@
                + spec_options_text(options@) + "), but got "@ + got@ + seq!['.'],
            Kind::MissingField(f) => "Expected to find the field: "@ + f@ + seq!['.'],
            Kind::ExpectedFieldGotEoi(f) => "Expected to find a field called "@ + f@
                + " but got to the end of the input."@,
            Kind::ReachedEoi => "Reached the end of the file unexpectedly."@,
        }
    }

    fn describe(&self) -> (r: String) {
        match self {
            Kind::ParserErrors(errors) => {
                let mut out = String::from_str("Unable to parse expression.\n");
                let mut rendered: Vec<String> = Vec::new();
                let mut i: usize = 0;
                while i < errors.len()
                    invariant
                        i <= errors@.len(),
                        rendered@.len() == i,
                        forall|j: int|
                            0 <= j < i ==> rendered@[j]@ == #[trigger] errors@[j].spec_render(),
                    decreases errors@.len() - i,
                {
                    rendered.push(errors[i].to_text());
                    i = i + 1;
                }
                let joined = join_strings(&rendered, "\n");
                proof {
                    assert(rendered@.map_values(|s: String| s@) =~= errors@.map_values(
                        |e: ParserError| e.spec_render(),
                    ));
                    reveal_strlit("\n");
                    assert("\n"@ =~= seq!['\n']);
                }
                out.append(joined.as_str());
                assert(out@ =~= self.spec_describe());
                out
            },
            Kind::UnableToLocateBindingName(n) => {
                let mut out = String::from_str("The binding ");
                out.append(n.as_str());
                out.append(" is mandatory, but not present.");
                assert(out@ =~= self.spec_describe());
                out
            },
            Kind::WrongCardinality { got, want } => {
                let mut out = String::from_str("Wrong cardinality. Expected to have ");
                let w = crate::numfmt::fmt_u128(*want as u128);
                out.append(w.as_str());
                out.append(" elements, but got ");
                let g = crate::numfmt::fmt_u128(*got as u128);
                out.append(g.as_str());
                out.append(" elements");
                assert(out@ =~= self.spec_describe());
                out
            },
            Kind::ParseIntError(s) => {
                let mut out = String::from_str("Unable to parse '");
                out.append(s.as_str());
                out.append("' as an integer.");
                assert(out@ =~= self.spec_describe());
                out
            },
            Kind::ParseCharError(s) => {
                let mut out = String::from_str("Unable to parse '");
                out.append(s.as_str());
                out.append("' as a character.");
                assert(out@ =~= self.spec_describe());
                out
            },
            Kind::ParseBoolError(s) => {
                let mut out = String::from_str("Unable to parse '");
                out.append(s.as_str());
                out.append("' as a boolean.");
                assert(out@ =~= self.spec_describe());
                out
            },
            Kind::ExpectedNumber(s) => {
                let mut out = String::from_str("Expected number, but got ");
                out.append(s.as_str());
                out.push('.');
                assert(out@ =~= self.spec_describe());
                out
            },
            Kind::ExpectedText(s) => {
                let mut out = String::from_str("Expected text, but got ");
                out.append(s.as_str());
                out.push('.');
                assert(out@ =~= self.spec_describe());
                out
            },
            Kind::ExpectedPresence(g) => {
                let mut out = String::from_str("Expected Presence, but got ");
                let n = g.data.name_of_kind();
                out.append(n.as_str());
                out.push('.');
                assert(out@ =~= self.spec_describe());
                out
            },
            Kind::ExpectedBinding(g) => {
                let mut out = String::from_str("Expected Binding, but got ");
                let n = g.data.name_of_kind();
                out.append(n.as_str());
                out.push('.');
                assert(out@ =~= self.spec_describe());
                out
            },
            Kind::ExpectedList(g) => {
                let mut out = String::from_str("Expected List, but got ");
                let n = g.data.name_of_kind();
                out.append(n.as_str());
                out.push('.');
                assert(out@ =~= self.spec_describe());
                out
            },
            Kind::ExpectedDiscriminant(got, options) => {
                let mut out = String::from_str("Expected a enum discriminant (specifically ");
                let opts = options_text(options);
                out.append(opts.as_str());
                out.append("), but got ");
                out.append(got.as_str());
                out.push('.');
                assert(out@ =~= self.spec_describe());
                out
            },
            Kind::MissingField(f) => {
                let mut out = String::from_str("Expected to find the field: ");
                out.append(f.as_str());
                out.push('.');
                assert(out@ =~= self.spec_describe());
                out
            },
            Kind::ExpectedFieldGotEoi(f) => {
                let mut out = String::from_str("Expected to find a field called ");
                out.append(f.as_str());
                out.append(" but got to the end of the input.");
                assert(out@ =~= self.spec_describe());
                out
            },
            Kind::ReachedEoi => String::from_str("Reached the end of the file unexpectedly."),
        }
    }
}

/// The rendering of an option set: the single option, or the bracketed
/// comma-separated list of them.
pub open spec fn spec_options_text(options: Seq<String>) -> Seq<char> {
    if options.len() == 1 {
        options[0]@
    } else {
        "one of ["@ + spec_join(options.map_values(|s: String| s@), ", "@) + "]"@
    }
}

fn options_text(options: &Vec<String>) -> (r: String)
    ensures
        r@ == spec_options_text(options@),
{
    if options.len() == 1 {
        let mut out = String::new();
        out.append(options[0].as_str());
        assert(out@ =~= spec_options_text(options@));
        out
    } else {
        let mut out = String::from_str("one of [");
        let joined = join_strings(options, ", ");
        out.append(joined.as_str());
        out.append("]");
        assert(out@ =~= spec_options_text(options@));
        out
    }
}

/// The span a decode end-of-input error points at: the last character of
/// the source, or the empty span when the source itself is empty.
pub open spec fn spec_ser_eoi_span(text: Seq<char>) -> LexicalSpan {
    if text.len() == 0 {
        LexicalSpan { start: 0, end: 0 }
    } else {
        LexicalSpan { start: (text.len() - 1) as usize, end: text.len() as usize }
    }
}

/// The exact shape of a decode end-of-input error: the root kind and the
/// excerpt at the tail of the source.
pub open spec fn spec_ser_eoi_error(e: SerializationError, text: Seq<char>) -> bool {
    &&& e.spec_root() matches ConfigError::FirstLevelError(k, area)
    &&& k is ReachedEoi
    &&& area@ == crate::config_error::spec_error_area(spec_ser_eoi_span(text), text)
}

impl SerializationError {
    /// The error reported when a decode needs an expression but the
    /// cursor is exhausted.
    pub fn end_of_input(source_text: &str) -> (r: SerializationError)
        ensures
            spec_failure_matches(r, DecodeFailure::ReachedEoi),
            spec_ser_eoi_error(r, source_text@),
    {
        let len = source_text.unicode_len();
        let span = if len == 0 {
            LexicalSpan::new(0, 0)
        } else {
            LexicalSpan::new(len - 1, len)
        };
        assert(span == spec_ser_eoi_span(source_text@));
        SerializationError::on_span(Kind::ReachedEoi, span, source_text)
    }
}

} // verus!
