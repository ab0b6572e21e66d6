//! The serialization engine: the encode/decode contract every
//! configurable type satisfies, and the built-in encodings.

pub mod collections;
pub mod deserialize_enum;
pub mod option;
pub mod option_span_combine;
pub mod primitives;
pub mod serialization_error;
pub mod string_extension;
pub mod tuples;

use vstd::prelude::*;
use crate::config_error::ConfigError;
use crate::expression::{spec_span_of, Expression, ExpressionData, ExpressionView};
use crate::expression_iterator::{
    spec_iter_items, spec_span_union, spec_span_union_from, ExpressionIterator,
};
use crate::lexical_span::LexicalSpan;
use crate::serialization::serialization_error::{
    spec_failure_matches, spec_ser_eoi_error, DecodeFailure, SerializationError,
};

verus! {

/// Where a loaded configuration came from: read from an existing file,
/// or freshly generated from the default value.
#[derive(Debug, Copy, Clone, Ord, PartialOrd, Eq, PartialEq, Hash, Structural)]
pub enum LoadMode {
    Loaded,
    Default,
}

/// The contract every encodable/decodable type satisfies.
///
/// Encoding is described by `spec_enc`, the set of expressions that
/// stand for a value; for most types that set is a single canonical
/// expression. Decoding is the function `spec_decoded` from a cursor
/// state to the decoded abstract content and the cursor state after it,
/// or to the failure that must be reported. `lemma_roundtrip` is the
/// obligation that decoding an encoded value gives the value back.
pub trait EasyConfig: DeepView + Sized {
    /// Whether deserialization consumes from the parent's cursor rather
    /// than requiring a freshly nested list.
    spec fn spec_passthrough() -> bool;

    fn passthrough() -> (b: bool)
        ensures
            b == Self::spec_passthrough(),
    ;

    /// Which expressions encode this value.
    spec fn spec_enc(&self, e: ExpressionView) -> bool;

    /// What decoding from a cursor over `items` at `index` yields: the
    /// decoded abstract content together with the cursor's items and
    /// position afterwards, or the failure.
    spec fn spec_decoded(items: Seq<ExpressionView>, index: int, src: Seq<char>) -> Result<
        (Self::V, Seq<ExpressionView>, int),
        DecodeFailure,
    >;

    /// How a decoded executable value realizes the abstract content.
    spec fn spec_value_matches(&self, m: Self::V) -> bool;

    /// The values for which the round-trip law is stated.
    spec fn spec_roundtrip_condition(&self) -> bool;

    fn serialize(&self) -> (r: Expression)
        ensures
            self.spec_enc(r@),
    ;

    fn deserialize(exprs: &mut ExpressionIterator, source_text: &str) -> (r: Result<
        Self,
        SerializationError,
    >)
        requires
            old(exprs).wf(),
        ensures
            final(exprs).wf(),
            match r {
                Ok(v) => ({
                    &&& Self::spec_decoded(
                        old(exprs).spec_items(),
                        old(exprs).spec_index(),
                        source_text@,
                    ) matches Ok(p)
                    &&& v.spec_value_matches(p.0)
                    &&& final(exprs).spec_items() == p.1
                    &&& final(exprs).spec_index() == p.2
                    &&& (old(exprs).spec_remaining() > 0 ==> final(exprs).spec_remaining() < old(
                        exprs,
                    ).spec_remaining())
                }),
                Err(e) => ({
                    &&& Self::spec_decoded(
                        old(exprs).spec_items(),
                        old(exprs).spec_index(),
                        source_text@,
                    ) matches Err(f)
                    &&& spec_failure_matches(e, f)
                }),
            },
    ;

    /// Round trip: decoding any encoding of a value yields the value's
    /// content back.
    proof fn lemma_roundtrip(&self, e: ExpressionView, src: Seq<char>)
        requires
            self.spec_enc(e),
            self.spec_roundtrip_condition(),
        ensures
            ({
                let d = Self::spec_decoded(spec_iter_items(e), 0, src);
                &&& d matches Ok(p)
                &&& self.spec_value_matches(p.0)
            }),
    ;
}


/// The position of the first remaining expression that is not a
/// binding, if any.
pub open spec fn spec_first_non_binding(items: Seq<ExpressionView>, index: int) -> Option<int>
    decreases items.len() - index,
{
    if !(0 <= index < items.len()) {
        None
    } else if !(items[index].data is BindingExpr) {
        Some(index)
    } else {
        spec_first_non_binding(items, index + 1)
    }
}

impl ExpressionIterator {
    /// Drain the cursor into a name-to-value table, requiring every
    /// remaining expression to be a binding, and report the span the
    /// bindings covered. Success comes exactly on a nonempty all-binding
    /// stream; the first non-binding is reported in place. What the
    /// executable table holds is checked by the running tests: relating
    /// it to its abstract content would rest on the standard hasher's
    /// unverified key model.
    pub fn convert_binding_list_to_hashmap_of_values(
        &mut self,
        source_text: &str,
    ) -> (r: Result<
        (std::collections::HashMap<String, Expression>, LexicalSpan),
        SerializationError,
    >)
        requires
            old(self).wf(),
        ensures
            final(self).wf(),
            final(self).spec_items() == old(self).spec_items(),
            match r {
                Ok(p) => ({
                    &&& old(self).spec_remaining() > 0
                    &&& spec_first_non_binding(old(self).spec_items(), old(self).spec_index())
                        is None
                    &&& final(self).spec_index() == old(self).spec_items().len()
                    &&& Some(p.1) == spec_span_union(
                        old(self).spec_items(),
                        old(self).spec_index(),
                    )
                }),
                Err(e) => ({
                    ||| (old(self).spec_remaining() == 0 && *final(self) == *old(self)
                        && spec_ser_eoi_error(e, source_text@))
                    ||| ({
                        &&& spec_first_non_binding(
                            old(self).spec_items(),
                            old(self).spec_index(),
                        ) matches Some(bad)
                        &&& e.spec_root() matches ConfigError::FirstLevelError(k, area)
                        &&& k matches crate::serialization::serialization_error::Kind::ExpectedBinding(
                            b,
                        )
                        &&& b@.data == old(self).spec_items()[bad].data
                        &&& b@.comment is None
                        &&& area@ == crate::config_error::spec_error_area(
                            spec_span_of(old(self).spec_items()[bad].data),
                            source_text@,
                        )
                    })
                }),
            },
    {
        let ghost items0 = old(self).spec_items();
        let ghost i0 = old(self).spec_index();
        let mut acc: std::collections::HashMap<String, Expression> =
            std::collections::HashMap::new();
        let mut outer_span: Option<LexicalSpan> = None;
        if self.finished() {
            return Err(SerializationError::end_of_input(source_text));
        }
        while !self.finished()
            invariant
                self.wf(),
                items0 == old(self).spec_items(),
                i0 == old(self).spec_index(),
                self.spec_items() == items0,
                0 <= i0 <= self.spec_index(),
                i0 < items0.len(),
                spec_first_non_binding(items0, i0) == spec_first_non_binding(
                    items0,
                    self.spec_index(),
                ),
                match outer_span {
                    None => self.spec_index() == i0,
                    Some(sp) => self.spec_index() > i0 && spec_span_union_from(
                        items0,
                        self.spec_index(),
                        sp,
                    ) == spec_span_union_from(items0, i0 + 1, spec_span_of(items0[i0].data)),
                },
            decreases self.spec_remaining(),
        {
            let ghost idx_b = self.spec_index();
            let item = match self.next() {
                Some(x) => x,
                None => vstd::pervasive::unreached(),
            };
            let span = item.span();
            match item.data {
                ExpressionData::BindingExpr(binding) => {
                    outer_span = match outer_span {
                        Some(acc_span) => Some(acc_span.combine(span)),
                        None => Some(span),
                    };
                    let _ = acc.insert(binding.name, *binding.value);
                },
                other => {
                    proof {
                        assert(spec_first_non_binding(items0, idx_b) == Some(idx_b));
                    }
                    let bad = Expression::new(other, None);
                    let e = SerializationError::on_span(
                        crate::serialization::serialization_error::Kind::ExpectedBinding(bad),
                        span,
                        source_text,
                    ).contextualize(
                        "Expected a binding list to be comprised of exclusively bindings.",
                    );
                    return Err(e);
                },
            }
        }
        proof {
            assert(spec_first_non_binding(items0, self.spec_index()) is None);
        }
        match outer_span {
            Some(span) => {
                proof {
                    assert(spec_span_union_from(items0, self.spec_index(), span) == span);
                }
                Ok((acc, span))
            },
            None => vstd::pervasive::unreached(),
        }
    }
}

/// The assumptions under which vstd's model of a string-keyed hash
/// table speaks for the real one: std's hasher obeys the key model, the
/// default hasher builder is valid, and distinct `String` values never
/// share a content view. Nothing verifies std's hashing, so contracts
/// that need the table's content are stated under this guard.
pub open spec fn spec_string_keys_reliable() -> bool {
    &&& vstd::std_specs::hash::obeys_key_model::<String>()
    &&& vstd::std_specs::hash::builds_valid_hashers::<std::hash::RandomState>()
    &&& vstd::relations::injective(|k: String| k@)
}

/// Take the named field out of the table and decode it. The field is
/// missing - reported on the given span, the table untouched - exactly
/// when no key reads `field`; otherwise that entry, and no other, is
/// removed and decoded.
pub fn deserialize_field_from_map_or_error<T: EasyConfig>(
    field: &str,
    mapping: &mut std::collections::HashMap<String, Expression>,
    span: LexicalSpan,
    source_text: &str,
) -> (r: Result<T, SerializationError>)
    ensures
        match r {
            Ok(v) => exists|k: String, value: Expression|
                #![trigger T::spec_decoded(spec_iter_items(value@), 0, source_text@), k.view()]
                ({
                    &&& k@ == field@
                    &&& T::spec_decoded(
                        spec_iter_items(value@),
                        0,
                        source_text@,
                    ) matches Ok(p)
                    &&& v.spec_value_matches(p.0)
                    &&& (spec_string_keys_reliable() ==> old(mapping)@.contains_key(k) && old(
                        mapping,
                    )@[k] == value && final(mapping)@ == old(mapping)@.remove(k))
                }),
            Err(e) => ({
                ||| ({
                    &&& e.spec_root() matches ConfigError::FirstLevelError(k2, area)
                    &&& k2 matches crate::serialization::serialization_error::Kind::MissingField(
                        n,
                    )
                    &&& n@ == field@
                    &&& area@ == crate::config_error::spec_error_area(span, source_text@)
                    &&& (spec_string_keys_reliable() ==> final(mapping)@ == old(mapping)@ && (
                    forall|k: String| k@ == field@ ==> !old(mapping)@.contains_key(k)))
                })
                ||| (exists|k: String, value: Expression|
                    #![trigger T::spec_decoded(spec_iter_items(value@), 0, source_text@), k.view()]
                    ({
                        &&& k@ == field@
                        &&& T::spec_decoded(
                            spec_iter_items(value@),
                            0,
                            source_text@,
                        ) matches Err(f)
                        &&& spec_failure_matches(e, f)
                        &&& (spec_string_keys_reliable() ==> old(mapping)@.contains_key(k)
                            && old(mapping)@[k] == value && final(mapping)@ == old(
                            mapping,
                        )@.remove(k))
                    }))
            }),
        },
{
    broadcast use vstd::std_specs::hash::group_hash_axioms;

    let key = String::from_str(field);
    let ghost key_spec = key;
    let removed = mapping.remove(&key);
    let value = match removed {
        Some(v) => v,
        None => {
            let e = SerializationError::on_span(
                crate::serialization::serialization_error::Kind::MissingField(
                    String::from_str(field),
                ),
                span,
                source_text,
            );
            proof {
                if spec_string_keys_reliable() {
                    assert(!old(mapping)@.contains_key(key_spec));
                    assert(final(mapping)@ == old(mapping)@.remove(key_spec));
                    assert(final(mapping)@ =~= old(mapping)@);
                    assert forall|k: String| k@ == field@ implies !old(
                        mapping,
                    )@.contains_key(k) by {
                        let view_of = |k: String| k@;
                        assert(view_of(k) == view_of(key_spec));
                        assert(k == key_spec);
                    }
                }
            }
            return Err(e);
        },
    };
    let ghost gvalue = value;
    let ghost xv = value@;
    let mut it = ExpressionIterator::new(value);
    match T::deserialize(&mut it, source_text) {
        Ok(v) => {
            proof {
                assert(T::spec_decoded(spec_iter_items(gvalue@), 0, source_text@) matches Ok(
                    p,
                ) && v.spec_value_matches(p.0));
                if spec_string_keys_reliable() {
                    assert(old(mapping)@.contains_key(key_spec));
                    assert(old(mapping)@[key_spec] == gvalue);
                    assert(final(mapping)@ == old(mapping)@.remove(key_spec));
                }
                assert(key_spec.view() == field@);
            }
            Ok(v)
        },
        Err(e) => {
            proof {
                assert(T::spec_decoded(spec_iter_items(gvalue@), 0, source_text@) is Err);
                if spec_string_keys_reliable() {
                    assert(old(mapping)@.contains_key(key_spec));
                    assert(old(mapping)@[key_spec] == gvalue);
                    assert(final(mapping)@ == old(mapping)@.remove(key_spec));
                }
                assert(key_spec.view() == field@);
            }
            Err(e)
        },
    }
}

} // verus!
