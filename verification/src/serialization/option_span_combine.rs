//! Folding spans into an optional accumulator.

use vstd::prelude::*;
use crate::lexical_span::LexicalSpan;

verus! {

/// Fold another span into an optional running union.
pub trait OptionSpanCombine: Sized {
    /// What the accumulator holds after folding in a span.
    spec fn spec_combined(&self, other: LexicalSpan) -> Self;

    fn combine(&mut self, other: LexicalSpan)
        ensures
            *final(self) == old(self).spec_combined(other),
    ;
}

impl OptionSpanCombine for Option<LexicalSpan> {
    open spec fn spec_combined(&self, other: LexicalSpan) -> Option<LexicalSpan> {
        match self {
            Some(acc) => Some(acc.spec_combine(other)),
            None => Some(other),
        }
    }

    fn combine(&mut self, other: LexicalSpan) {
        match self {
            Some(acc) => {
                *acc = acc.combine(other);
            },
            None => {
                *self = Some(other);
            },
        }
    }
}

} // verus!
