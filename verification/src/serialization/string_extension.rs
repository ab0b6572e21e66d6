//! Decoding a typed value straight out of configuration text.

use vstd::prelude::*;
use crate::expression_iterator::ExpressionIterator;
use crate::lexer::spec_lex;
use crate::parser::{spec_parse_doc, Parser};
use crate::serialization::serialization_error::{
    spec_failure_matches, DecodeFailure, Kind, SerializationError,
};
use crate::serialization::EasyConfig;

verus! {

/// Parse a whole text and decode a value of `T` from the resulting
/// document; a document with parse errors is rejected whole, carrying
/// every collected parse error.
pub fn decode_text<T: EasyConfig>(text: &str) -> (r: Result<T, SerializationError>)
    ensures
        ({
            let doc = spec_parse_doc(spec_lex(text@), text@, 0);
            &&& (doc.1.len() > 0 ==> ({
                &&& r matches Err(e)
                &&& spec_failure_matches(e, DecodeFailure::ParserErrors)
            }))
            &&& (doc.1.len() == 0 ==> match r {
                Ok(v) => ({
                    &&& T::spec_decoded(doc.0, 0, text@) matches Ok(p)
                    &&& v.spec_value_matches(p.0)
                }),
                Err(e) => ({
                    &&& T::spec_decoded(doc.0, 0, text@) matches Err(f)
                    &&& spec_failure_matches(e, f)
                }),
            })
        }),
{
    let finished = Parser::new(text).parse();
    if finished.errors().len() > 0 {
        let errs = finished.into_errors();
        let e = SerializationError::FirstLevelError(Kind::ParserErrors(errs), String::new());
        proof {
            assert(e.spec_root() == e);
        }
        return Err(e);
    }
    let expr = finished.unwrap();
    let mut it = ExpressionIterator::new(expr);
    T::deserialize(&mut it, text)
}

/// Decoding a typed value straight out of configuration text.
pub trait StringExtension {
    /// Parse this text and decode a value of `T` from it.
    fn deserialize<T: EasyConfig>(&self) -> Result<T, SerializationError>;
}

impl StringExtension for str {
    fn deserialize<T: EasyConfig>(&self) -> Result<T, SerializationError> {
        decode_text::<T>(self)
    }
}

} // verus!
