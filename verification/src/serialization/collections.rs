//! Built-in encodings for collections: vectors, fixed-size arrays and
//! string-keyed maps.

use vstd::prelude::*;
use std::collections::HashMap;
use crate::expression::{Expression, ExpressionData, ExpressionDataView, ExpressionView};
use crate::expression_iterator::{spec_iter_items, ExpressionIterator};
use crate::lexical_span::LexicalSpan;
use crate::serialization::serialization_error::{DecodeFailure, Kind, SerializationError};
use crate::serialization::EasyConfig;

verus! {

/// Whether the elements of a sequence are encoded elementwise in a run
/// of expressions.
pub open spec fn spec_enc_elems<T: EasyConfig>(v: Seq<T>, c: Seq<ExpressionView>) -> bool {
    &&& c.len() == v.len()
    &&& forall|i: int| 0 <= i < v.len() ==> v[i].spec_enc(#[trigger] c[i])
}

/// The linear encoding of a sequence of elements: a list with one child
/// per element, in order.
pub open spec fn spec_enc_linear<T: EasyConfig>(v: Seq<T>, e: ExpressionView) -> bool {
    &&& e.comment is None
    &&& e.data matches ExpressionDataView::List(c, span)
    &&& span == (LexicalSpan { start: 0, end: 0 })
    &&& spec_enc_elems(v, c)
}

/// What decoding a run of elements does when each element decodes from
/// its own nested cursor: every remaining expression is one element.
pub open spec fn spec_dec_vec_elems<T: EasyConfig>(
    items: Seq<ExpressionView>,
    index: int,
    src: Seq<char>,
) -> Result<(Seq<T::V>, Seq<ExpressionView>, int), DecodeFailure>
    decreases items.len() - index,
{
    if !(0 <= index < items.len()) {
        Ok((Seq::<T::V>::empty(), items, index))
    } else {
        match T::spec_decoded(spec_iter_items(items[index]), 0, src) {
            Err(f) => Err(f),
            Ok(p) => match spec_dec_vec_elems::<T>(items, index + 1, src) {
                Err(f) => Err(f),
                Ok(q) => Ok((seq![p.0] + q.0, q.1, q.2)),
            },
        }
    }
}

/// What decoding a run of elements does when the element type consumes
/// from the shared cursor itself; the fuel bounds the recursion and is
/// in reality never exhausted, since every decode consumes something.
pub open spec fn spec_dec_vec_pass<T: EasyConfig>(
    items: Seq<ExpressionView>,
    index: int,
    src: Seq<char>,
    fuel: nat,
) -> Result<(Seq<T::V>, Seq<ExpressionView>, int), DecodeFailure>
    decreases fuel,
{
    if !(0 <= index < items.len()) {
        Ok((Seq::<T::V>::empty(), items, index))
    } else if fuel == 0 {
        Err(DecodeFailure::ReachedEoi)
    } else {
        match T::spec_decoded(items, index, src) {
            Err(f) => Err(f),
            Ok(p) => match spec_dec_vec_pass::<T>(p.1, p.2, src, (fuel - 1) as nat) {
                Err(f) => Err(f),
                Ok(q) => Ok((seq![p.0] + q.0, q.1, q.2)),
            },
        }
    }
}

/// What decoding a vector does: all remaining expressions become
/// elements, by the protocol the element type asks for.
pub open spec fn spec_dec_vec<T: EasyConfig>(
    items: Seq<ExpressionView>,
    index: int,
    src: Seq<char>,
) -> Result<(Seq<T::V>, Seq<ExpressionView>, int), DecodeFailure> {
    if T::spec_passthrough() {
        spec_dec_vec_pass::<T>(
            items,
            index,
            src,
            if items.len() - index >= 0 {
                (items.len() - index) as nat
            } else {
                0
            },
        )
    } else {
        spec_dec_vec_elems::<T>(items, index, src)
    }
}

/// Decoding the elementwise encoding of a sequence yields the sequence's
/// content back.
proof fn lemma_vec_elems_roundtrip<T: EasyConfig>(
    v: Seq<T>,
    c: Seq<ExpressionView>,
    i: int,
    src: Seq<char>,
)
    requires
        0 <= i <= v.len(),
        c.len() == v.len(),
        forall|j: int| 0 <= j < v.len() ==> v[j].spec_enc(#[trigger] c[j]),
        forall|j: int| 0 <= j < v.len() ==> v[j].spec_roundtrip_condition(),
    ensures
        ({
            let d = spec_dec_vec_elems::<T>(c, i, src);
            &&& d matches Ok(p)
            &&& p.0.len() == v.len() - i
            &&& forall|j: int| 0 <= j < p.0.len() ==> v[i + j].spec_value_matches(#[trigger] p.0[j])
        }),
    decreases v.len() - i,
{
    if i < v.len() {
        v[i].lemma_roundtrip(c[i], src);
        lemma_vec_elems_roundtrip::<T>(v, c, i + 1, src);
        let p = T::spec_decoded(spec_iter_items(c[i]), 0, src)->Ok_0;
        let q = spec_dec_vec_elems::<T>(c, i + 1, src)->Ok_0;
        assert forall|j: int| 0 <= j < (seq![p.0] + q.0).len() implies v[i + j].spec_value_matches(
            #[trigger] (seq![p.0] + q.0)[j],
        ) by {
            if j > 0 {
                assert((seq![p.0] + q.0)[j] == q.0[j - 1]);
            }
        }
    }
}

impl<T: EasyConfig> EasyConfig for Vec<T> {
    open spec fn spec_passthrough() -> bool {
        false
    }

    fn passthrough() -> bool {
        false
    }

    open spec fn spec_enc(&self, e: ExpressionView) -> bool {
        spec_enc_linear(self@, e)
    }

    open spec fn spec_decoded(items: Seq<ExpressionView>, index: int, src: Seq<char>) -> Result<
        (Seq<T::V>, Seq<ExpressionView>, int),
        DecodeFailure,
    > {
        spec_dec_vec::<T>(items, index, src)
    }

    open spec fn spec_value_matches(&self, m: Seq<T::V>) -> bool {
        &&& self@.len() == m.len()
        &&& forall|i: int| 0 <= i < m.len() ==> self@[i].spec_value_matches(#[trigger] m[i])
    }

    /// The round trip is stated for elements decoding from their own
    /// nested cursors; an element type that consumes from the shared
    /// stream is exercised by tests instead.
    open spec fn spec_roundtrip_condition(&self) -> bool {
        &&& !T::spec_passthrough()
        &&& forall|i: int|
            0 <= i < self@.len() ==> (#[trigger] self@[i]).spec_roundtrip_condition()
    }

    fn serialize(&self) -> (r: Expression) {
        let mut exprs: Vec<Expression> = Vec::new();
        let mut i: usize = 0;
        while i < self.len()
            invariant
                i <= self@.len(),
                exprs@.len() == i,
                forall|j: int|
                    0 <= j < i ==> self@[j].spec_enc(
                        #[trigger] crate::expression::spec_view_of_list(exprs@)[j],
                    ),
            decreases self@.len() - i,
        {
            let ghost prev = exprs@;
            let item = self[i].serialize();
            exprs.push(item);
            proof {
                assert(crate::expression::spec_view_of_list(exprs@)
                    =~= crate::expression::spec_view_of_list(prev) + seq![exprs@.last()@]);
            }
            i = i + 1;
        }
        let r = Expression::list(exprs);
        r
    }

    fn deserialize(exprs: &mut ExpressionIterator, source_text: &str) -> (r: Result<
        Vec<T>,
        SerializationError,
    >) {
        let ghost items0 = old(exprs).spec_items();
        let ghost i0 = old(exprs).spec_index();
        let ghost src = source_text@;
        let mut out: Vec<T> = Vec::new();
        let ghost mut vals: Seq<T::V> = Seq::empty();
        if T::passthrough() {
            let ghost fuel0: nat = if items0.len() - i0 >= 0 {
                (items0.len() - i0) as nat
            } else {
                0
            };
            let ghost mut fuel: nat = fuel0;
            while !exprs.finished()
                invariant
                    exprs.wf(),
                    T::spec_passthrough(),
                    items0 == old(exprs).spec_items(),
                    i0 == old(exprs).spec_index(),
                    src == source_text@,
                    fuel0 == (if items0.len() - i0 >= 0 {
                        ((items0.len() - i0) as nat)
                    } else {
                        0
                    }),
                    out@.len() == vals.len(),
                    forall|j: int|
                        0 <= j < vals.len() ==> out@[j].spec_value_matches(#[trigger] vals[j]),
                    fuel >= exprs.spec_remaining(),
                    ({
                        let whole = spec_dec_vec_pass::<T>(items0, i0, src, fuel0);
                        let fut = spec_dec_vec_pass::<T>(
                            exprs.spec_items(),
                            exprs.spec_index(),
                            src,
                            fuel,
                        );
                        match fut {
                            Ok(q) => whole == Ok::<(Seq<T::V>, Seq<ExpressionView>, int),
                                DecodeFailure,
                            >((vals + q.0, q.1, q.2)),
                            Err(f) => whole == Err::<(Seq<T::V>, Seq<ExpressionView>, int),
                                DecodeFailure,
                            >(f),
                        }
                    }),
                decreases exprs.spec_remaining(),
            {
                let ghost items_b = exprs.spec_items();
                let ghost idx_b = exprs.spec_index();
                let ghost fuel_b = fuel;
                match T::deserialize(exprs, source_text) {
                    Ok(v) => {
                        let ghost prev_out = out@;
                        let ghost prev_vals = vals;
                        out.push(v);
                        proof {
                            let p = T::spec_decoded(items_b, idx_b, src)->Ok_0;
                            assert(p.1 == exprs.spec_items() && p.2 == exprs.spec_index());
                            assert(0 <= idx_b < items_b.len());
                            assert(fuel_b > 0);
                            let q0 = spec_dec_vec_pass::<T>(
                                p.1,
                                p.2,
                                src,
                                (fuel_b - 1) as nat,
                            );
                            assert(spec_dec_vec_pass::<T>(items_b, idx_b, src, fuel_b) == (
                                match q0 {
                                    Err(f) => Err::<(Seq<T::V>, Seq<ExpressionView>, int),
                                        DecodeFailure,
                                    >(f),
                                    Ok(q) => Ok::<(Seq<T::V>, Seq<ExpressionView>, int),
                                        DecodeFailure,
                                    >((seq![p.0] + q.0, q.1, q.2)),
                                }));
                            vals = vals.push(p.0);
                            fuel = (fuel_b - 1) as nat;
                            match q0 {
                                Ok(q) => {
                                    assert(prev_vals + (seq![p.0] + q.0) =~= vals + q.0);
                                },
                                Err(_) => {},
                            }
                            assert(out@ == prev_out.push(v));
                            assert forall|j: int| 0 <= j < vals.len() implies
                                out@[j].spec_value_matches(#[trigger] vals[j]) by {
                                if j < vals.len() - 1 {
                                    assert(out@[j] == prev_out[j]);
                                    assert(vals[j] == prev_vals[j]);
                                    assert(prev_out[j].spec_value_matches(prev_vals[j]));
                                } else {
                                    assert(out@[j] == v);
                                    assert(vals[j] == p.0);
                                }
                            }
                        }
                    },
                    Err(e) => {
                        proof {
                            let f = T::spec_decoded(items_b, idx_b, src)->Err_0;
                            assert(spec_dec_vec_pass::<T>(items_b, idx_b, src, fuel) == Err::<
                                (Seq<T::V>, Seq<ExpressionView>, int),
                                DecodeFailure,
                            >(f));
                        }
                        let e = e.contextualize("Error while deserializing a Vec");
                        return Err(e);
                    },
                }
            }
            proof {
                assert(spec_dec_vec_pass::<T>(
                    exprs.spec_items(),
                    exprs.spec_index(),
                    src,
                    fuel,
                ) == Ok::<(Seq<T::V>, Seq<ExpressionView>, int), DecodeFailure>(
                    (Seq::<T::V>::empty(), exprs.spec_items(), exprs.spec_index()),
                ));
                assert(vals + Seq::<T::V>::empty() =~= vals);
            }
            Ok(out)
        } else {
            while !exprs.finished()
                invariant
                    exprs.wf(),
                    !T::spec_passthrough(),
                    items0 == old(exprs).spec_items(),
                    i0 == old(exprs).spec_index(),
                    src == source_text@,
                    exprs.spec_items() == items0,
                    0 <= i0 <= exprs.spec_index(),
                    out@.len() == vals.len(),
                    forall|j: int|
                        0 <= j < vals.len() ==> out@[j].spec_value_matches(#[trigger] vals[j]),
                    ({
                        let whole = spec_dec_vec_elems::<T>(items0, i0, src);
                        let fut = spec_dec_vec_elems::<T>(items0, exprs.spec_index(), src);
                        match fut {
                            Ok(q) => whole == Ok::<(Seq<T::V>, Seq<ExpressionView>, int),
                                DecodeFailure,
                            >((vals + q.0, q.1, q.2)),
                            Err(f) => whole == Err::<(Seq<T::V>, Seq<ExpressionView>, int),
                                DecodeFailure,
                            >(f),
                        }
                    }),
                decreases exprs.spec_remaining(),
            {
                let ghost idx_b = exprs.spec_index();
                let x = match exprs.next() {
                    Some(x) => x,
                    None => vstd::pervasive::unreached(),
                };
                let mut it = ExpressionIterator::new(x);
                match T::deserialize(&mut it, source_text) {
                    Ok(v) => {
                        let ghost prev_out = out@;
                        let ghost prev_vals = vals;
                        out.push(v);
                        proof {
                            let p = T::spec_decoded(spec_iter_items(items0[idx_b]), 0, src)
                                ->Ok_0;
                            assert(0 <= idx_b < items0.len());
                            let q0 = spec_dec_vec_elems::<T>(items0, idx_b + 1, src);
                            assert(spec_dec_vec_elems::<T>(items0, idx_b, src) == (
                                match q0 {
                                    Err(f) => Err::<(Seq<T::V>, Seq<ExpressionView>, int),
                                        DecodeFailure,
                                    >(f),
                                    Ok(q) => Ok::<(Seq<T::V>, Seq<ExpressionView>, int),
                                        DecodeFailure,
                                    >((seq![p.0] + q.0, q.1, q.2)),
                                }));
                            vals = vals.push(p.0);
                            match q0 {
                                Ok(q) => {
                                    assert(prev_vals + (seq![p.0] + q.0) =~= vals + q.0);
                                },
                                Err(_) => {},
                            }
                            assert(out@ == prev_out.push(v));
                            assert forall|j: int| 0 <= j < vals.len() implies
                                out@[j].spec_value_matches(#[trigger] vals[j]) by {
                                if j < vals.len() - 1 {
                                    assert(out@[j] == prev_out[j]);
                                    assert(vals[j] == prev_vals[j]);
                                    assert(prev_out[j].spec_value_matches(prev_vals[j]));
                                } else {
                                    assert(out@[j] == v);
                                    assert(vals[j] == p.0);
                                }
                            }
                        }
                    },
                    Err(e) => {
                        proof {
                            let f = T::spec_decoded(spec_iter_items(items0[idx_b]), 0, src)
                                ->Err_0;
                            assert(spec_dec_vec_elems::<T>(items0, idx_b, src) == Err::<
                                (Seq<T::V>, Seq<ExpressionView>, int),
                                DecodeFailure,
                            >(f));
                        }
                        let e = e.contextualize("Error while deserializing a Vec");
                        return Err(e);
                    },
                }
            }
            proof {
                assert(spec_dec_vec_elems::<T>(items0, exprs.spec_index(), src) == Ok::<
                    (Seq<T::V>, Seq<ExpressionView>, int),
                    DecodeFailure,
                >((Seq::<T::V>::empty(), items0, exprs.spec_index())));
                assert(vals + Seq::<T::V>::empty() =~= vals);
            }
            Ok(out)
        }
    }

    proof fn lemma_roundtrip(&self, e: ExpressionView, src: Seq<char>) {
        let c = e.data->List_0;
        assert(spec_iter_items(e) == c);
        lemma_vec_elems_roundtrip::<T>(self@, c, 0, src);
    }
}

/// Relies on `TryFrom<Vec<T>> for [T; N]`: the conversion succeeds
/// exactly when the vector's length is the array's, and keeps the
/// elements in order.
#[verifier::external_body]
fn vec_to_array<T, const N: usize>(v: Vec<T>) -> (r: [T; N])
    requires
        v@.len() == N,
    ensures
        r@ == v@,
{
    let converted: core::result::Result<[T; N], Vec<T>> = v.try_into();
    converted.ok().unwrap()
}

impl<T: EasyConfig, const N: usize> EasyConfig for [T; N] {
    open spec fn spec_passthrough() -> bool {
        false
    }

    fn passthrough() -> bool {
        false
    }

    open spec fn spec_enc(&self, e: ExpressionView) -> bool {
        spec_enc_linear(self@, e)
    }

    open spec fn spec_decoded(items: Seq<ExpressionView>, index: int, src: Seq<char>) -> Result<
        (Seq<T::V>, Seq<ExpressionView>, int),
        DecodeFailure,
    > {
        match spec_dec_vec::<T>(items, index, src) {
            Ok(p) => if p.0.len() == N {
                Ok(p)
            } else {
                Err(DecodeFailure::WrongCardinality)
            },
            Err(f) => Err(f),
        }
    }

    open spec fn spec_value_matches(&self, m: Seq<T::V>) -> bool {
        &&& self@.len() == m.len()
        &&& forall|i: int| 0 <= i < m.len() ==> self@[i].spec_value_matches(#[trigger] m[i])
    }

    open spec fn spec_roundtrip_condition(&self) -> bool {
        &&& !T::spec_passthrough()
        &&& forall|i: int|
            0 <= i < self@.len() ==> (#[trigger] self@[i]).spec_roundtrip_condition()
    }

    fn serialize(&self) -> (r: Expression) {
        let mut exprs: Vec<Expression> = Vec::new();
        let mut i: usize = 0;
        while i < N
            invariant
                i <= self@.len(),
                N == self@.len(),
                exprs@.len() == i,
                forall|j: int|
                    0 <= j < i ==> self@[j].spec_enc(
                        #[trigger] crate::expression::spec_view_of_list(exprs@)[j],
                    ),
            decreases self@.len() - i,
        {
            let ghost prev = exprs@;
            let item = self[i].serialize();
            exprs.push(item);
            proof {
                assert(crate::expression::spec_view_of_list(exprs@)
                    =~= crate::expression::spec_view_of_list(prev) + seq![exprs@.last()@]);
            }
            i = i + 1;
        }
        Expression::list(exprs)
    }

    fn deserialize(exprs: &mut ExpressionIterator, source_text: &str) -> (r: Result<
        [T; N],
        SerializationError,
    >)
        ensures
            match r {
                Ok(_) => true,
                Err(e) => (<Vec<T> as EasyConfig>::spec_decoded(
                    old(exprs).spec_items(),
                    old(exprs).spec_index(),
                    source_text@,
                ) matches Ok(p) ==> ({
                    // the wrong-cardinality path still drains the cursor
                    &&& final(exprs).spec_items() == p.1
                    &&& final(exprs).spec_index() == p.2
                    &&& p.0.len() != N
                    &&& e.spec_root() matches
                        crate::config_error::ConfigError::FirstLevelError(k, _)
                    &&& k matches Kind::WrongCardinality { got, want }
                    &&& got == p.0.len()
                    &&& want == N
                })),
            },
    {
        let got = match Vec::<T>::deserialize(exprs, source_text) {
            Ok(v) => v,
            Err(e) => {
                return Err(e.contextualize("Error while deserializing an array"));
            },
        };
        if got.len() == N {
            Ok(vec_to_array(got))
        } else {
            let span = match exprs.span() {
                Some(s) => s,
                None => LexicalSpan::zeros(),
            };
            let e = SerializationError::on_span(
                Kind::WrongCardinality { got: got.len(), want: N },
                span,
                source_text,
            );
            Err(e.contextualize("Error while deserializing an array"))
        }
    }

    proof fn lemma_roundtrip(&self, e: ExpressionView, src: Seq<char>) {
        let c = e.data->List_0;
        assert(spec_iter_items(e) == c);
        lemma_vec_elems_roundtrip::<T>(self@, c, 0, src);
    }
}


/// What decoding a run of bindings does: every remaining expression must
/// be a binding, and each binding's value decodes as one entry.
pub open spec fn spec_dec_binding_pairs<T: EasyConfig>(
    items: Seq<ExpressionView>,
    index: int,
    src: Seq<char>,
) -> Result<(Seq<(Seq<char>, T::V)>, Seq<ExpressionView>, int), DecodeFailure>
    decreases items.len() - index,
{
    if !(0 <= index < items.len()) {
        Ok((Seq::<(Seq<char>, T::V)>::empty(), items, index))
    } else {
        match items[index].data {
            ExpressionDataView::BindingExpr(b) => match T::spec_decoded(
                spec_iter_items(*b.value),
                0,
                src,
            ) {
                Err(f) => Err(f),
                Ok(p) => match spec_dec_binding_pairs::<T>(items, index + 1, src) {
                    Err(f) => Err(f),
                    Ok(q) => Ok((seq![(b.name, p.0)] + q.0, q.1, q.2)),
                },
            },
            _ => Err(DecodeFailure::ExpectedBinding),
        }
    }
}

/// The map the decoded pairs build up, later entries overriding earlier
/// ones with the same key.
pub open spec fn spec_pairs_to_map<V>(pairs: Seq<(Seq<char>, V)>) -> Map<Seq<char>, V>
    decreases pairs.len(),
{
    if pairs.len() == 0 {
        Map::<Seq<char>, V>::empty()
    } else {
        spec_pairs_to_map(pairs.drop_last()).insert(pairs.last().0, pairs.last().1)
    }
}

/// A successful binding-pairs decode always consumes everything and
/// leaves the items as they were.
proof fn lemma_pairs_tail<T: EasyConfig>(items: Seq<ExpressionView>, i: int, src: Seq<char>)
    requires
        0 <= i <= items.len(),
    ensures
        match spec_dec_binding_pairs::<T>(items, i, src) {
            Ok(p) => p.1 == items && p.2 == items.len(),
            Err(_) => true,
        },
    decreases items.len() - i,
{
    if i < items.len() {
        lemma_pairs_tail::<T>(items, i + 1, src);
    }
}

/// Relies on `HashMap::iter`: it visits every entry of the map exactly
/// once, in an unspecified order; distinct entries of a string-keyed
/// table have keys of distinct content.
#[verifier::external_body]
fn hash_map_entries<'a, T>(m: &'a HashMap<String, T>) -> (r: Vec<(&'a String, &'a T)>)
    ensures
        (vstd::std_specs::hash::obeys_key_model::<String>()
            && vstd::std_specs::hash::builds_valid_hashers::<std::hash::RandomState>()) ==> ({
            &&& r@.len() == m@.len()
            &&& forall|i: int|
                0 <= i < r@.len() ==> m@.contains_key(*#[trigger] r@[i].0) && m@[*r@[i].0]
                    == *r@[i].1
            &&& forall|i: int, j: int|
                0 <= i < j < r@.len() ==> (#[trigger] r@[i].0)@ != (#[trigger] r@[j].0)@
        }),
{
    m.iter().collect()
}

impl<T: EasyConfig> EasyConfig for HashMap<String, T> {
    open spec fn spec_passthrough() -> bool {
        false
    }

    fn passthrough() -> bool {
        false
    }

    /// A map encodes as a list of bindings, one per entry, in whatever
    /// order the map's own iteration yields; an empty map (as its length
    /// observer reports it) encodes as the empty list. Under the guarded
    /// key model the bindings are exactly the map's entries, each value
    /// encoded by its own type.
    open spec fn spec_enc(&self, e: ExpressionView) -> bool {
        &&& e.comment is None
        &&& e.data matches ExpressionDataView::List(c, span)
        &&& span == (LexicalSpan { start: 0, end: 0 })
        &&& forall|i: int| 0 <= i < c.len() ==> (#[trigger] c[i].data) is BindingExpr
        &&& (vstd::std_specs::hash::spec_hash_map_len(self) == 0 ==> c.len() == 0)
        &&& (crate::serialization::spec_string_keys_reliable() ==> ({
            &&& c.len() == self@.len()
            &&& forall|i: int, j: int|
                0 <= i < j < c.len() ==> (#[trigger] c[i].data)->BindingExpr_0.name != (
                #[trigger] c[j].data)->BindingExpr_0.name
            &&& forall|i: int|
                0 <= i < c.len() ==> exists|k: String|
                    #![trigger k.view()]
                    ({
                        &&& self@.contains_key(k)
                        &&& k@ == (#[trigger] c[i].data)->BindingExpr_0.name
                        &&& self@[k].spec_enc(*c[i].data->BindingExpr_0.value)
                    })
        }))
    }

    open spec fn spec_decoded(items: Seq<ExpressionView>, index: int, src: Seq<char>) -> Result<
        (Map<Seq<char>, T::V>, Seq<ExpressionView>, int),
        DecodeFailure,
    > {
        match spec_dec_binding_pairs::<T>(items, index, src) {
            Ok(p) => Ok((spec_pairs_to_map(p.0), p.1, p.2)),
            Err(f) => Err(f),
        }
    }

    /// Under the guarded key model the decoded table holds exactly the
    /// decoded entries; outside it, nothing verifies std's hashing and
    /// the running tests check the content instead.
    open spec fn spec_value_matches(&self, m: Map<Seq<char>, T::V>) -> bool {
        crate::serialization::spec_string_keys_reliable() ==> ({
            &&& forall|k: String| #[trigger]
                self@.contains_key(k) ==> m.contains_key(k@) && self@[k].spec_value_matches(
                    m[k@],
                )
            &&& forall|dk: Seq<char>| #[trigger]
                m.contains_key(dk) ==> exists|k: String|
                    #![trigger k.view()]
                    (k@ == dk && self@.contains_key(k))
        })
    }

    /// The round trip is stated for the map whose length observer
    /// reports it empty; a populated map encodes in an iteration order
    /// that nothing specifies.
    open spec fn spec_roundtrip_condition(&self) -> bool {
        vstd::std_specs::hash::spec_hash_map_len(self) == 0
    }

    fn serialize(&self) -> (r: Expression) {
        proof {
            broadcast use vstd::std_specs::hash::group_hash_axioms;

        }
        if self.len() == 0 {
            let exprs: Vec<Expression> = Vec::new();
            let r = Expression::list(exprs);
            proof {
                assert(crate::expression::spec_view_of_list(Seq::<Expression>::empty())
                    =~= Seq::<ExpressionView>::empty());
                if crate::serialization::spec_string_keys_reliable() {
                    assert(self@.len() == 0);
                }
            }
            return r;
        }
        let entries = hash_map_entries(self);
        let mut exprs: Vec<Expression> = Vec::new();
        let mut i: usize = 0;
        while i < entries.len()
            invariant
                i <= entries@.len(),
                exprs@.len() == i,
                forall|j: int|
                    0 <= j < i ==> ((#[trigger] crate::expression::spec_view_of_list(
                        exprs@,
                    )[j]).data is BindingExpr
                        && crate::expression::spec_view_of_list(exprs@)[j].comment is None),
                forall|j: int|
                    0 <= j < i ==> (#[trigger] crate::expression::spec_view_of_list(
                        exprs@,
                    )[j].data)->BindingExpr_0.name == entries@[j].0@,
                crate::serialization::spec_string_keys_reliable() ==> ({
                    &&& entries@.len() == self@.len()
                    &&& forall|j: int|
                        0 <= j < entries@.len() ==> self@.contains_key(
                            *#[trigger] entries@[j].0,
                        ) && self@[*entries@[j].0] == *entries@[j].1
                    &&& forall|j: int, l: int|
                        0 <= j < l < entries@.len() ==> (#[trigger] entries@[j].0)@ != (
                        #[trigger] entries@[l].0)@
                    &&& forall|j: int|
                        0 <= j < i ==> exists|k: String|
                            #![trigger k.view()]
                            ({
                                &&& self@.contains_key(k)
                                &&& k@ == (#[trigger] crate::expression::spec_view_of_list(
                                    exprs@,
                                )[j].data)->BindingExpr_0.name
                                &&& self@[k].spec_enc(
                                    *crate::expression::spec_view_of_list(
                                        exprs@,
                                    )[j].data->BindingExpr_0.value,
                                )
                            })
                }),
            decreases entries@.len() - i,
        {
            let ghost prev = exprs@;
            let (k, v) = (entries[i].0, entries[i].1);
            let ghost gkey = *k;
            let encoded = v.serialize();
            let binding = Expression::binding(k.as_str(), encoded);
            exprs.push(binding);
            proof {
                assert(crate::expression::spec_view_of_list(exprs@)
                    =~= crate::expression::spec_view_of_list(prev) + seq![exprs@.last()@]);
                if crate::serialization::spec_string_keys_reliable() {
                    assert(gkey == *entries@[i as int].0);
                    assert(self@.contains_key(gkey));
                    assert(self@[gkey] == *entries@[i as int].1);
                    assert(gkey.view() == crate::expression::spec_view_of_list(
                        exprs@,
                    )[i as int].data->BindingExpr_0.name);
                }
            }
            i = i + 1;
        }
        let r = Expression::list(exprs);
        proof {
            if crate::serialization::spec_string_keys_reliable() {
                assert(r@.data->List_0.len() == self@.len());
                assert(vstd::std_specs::hash::spec_hash_map_len(self) == self@.len());
            }
        }
        r
    }

    fn deserialize(exprs: &mut ExpressionIterator, source_text: &str) -> (r: Result<
        HashMap<String, T>,
        SerializationError,
    >) {
        let ghost items0 = old(exprs).spec_items();
        let ghost i0 = old(exprs).spec_index();
        let ghost src = source_text@;
        let mut out: HashMap<String, T> = HashMap::new();
        let ghost mut vals: Seq<(Seq<char>, T::V)> = Seq::empty();
        proof {
            broadcast use vstd::std_specs::hash::group_hash_axioms;

        }
        while !exprs.finished()
            invariant
                exprs.wf(),
                items0 == old(exprs).spec_items(),
                i0 == old(exprs).spec_index(),
                src == source_text@,
                exprs.spec_items() == items0,
                0 <= i0 <= exprs.spec_index(),
                ({
                    let whole = spec_dec_binding_pairs::<T>(items0, i0, src);
                    let fut = spec_dec_binding_pairs::<T>(items0, exprs.spec_index(), src);
                    match fut {
                        Ok(q) => whole == Ok::<
                            (Seq<(Seq<char>, T::V)>, Seq<ExpressionView>, int),
                            DecodeFailure,
                        >((vals + q.0, q.1, q.2)),
                        Err(f) => whole == Err::<
                            (Seq<(Seq<char>, T::V)>, Seq<ExpressionView>, int),
                            DecodeFailure,
                        >(f),
                    }
                }),
                crate::serialization::spec_string_keys_reliable() ==> ({
                    &&& forall|k: String| #[trigger]
                        out@.contains_key(k) ==> spec_pairs_to_map(vals).contains_key(k@)
                            && out@[k].spec_value_matches(spec_pairs_to_map(vals)[k@])
                    &&& forall|dk: Seq<char>| #[trigger]
                        spec_pairs_to_map(vals).contains_key(dk) ==> exists|k: String|
                            #![trigger k.view()]
                            (k@ == dk && out@.contains_key(k))
                }),
            decreases exprs.spec_remaining(),
        {
            proof {
                broadcast use vstd::std_specs::hash::group_hash_axioms;

            }
            let ghost idx_b = exprs.spec_index();
            let x = match exprs.next() {
                Some(x) => x,
                None => vstd::pervasive::unreached(),
            };
            let ghost xv = x@;
            let span = x.span();
            match x.data {
                ExpressionData::BindingExpr(b) => {
                    let ghost bv = b@;
                    proof {
                        assert(xv.data == ExpressionDataView::BindingExpr(bv));
                        assert(items0[idx_b].data == ExpressionDataView::BindingExpr(bv));
                    }
                    let name = b.name;
                    let ghost gname = name;
                    let mut it = ExpressionIterator::new(*b.value);
                    proof {
                        assert(it.spec_items() == spec_iter_items(*bv.value));
                    }
                    match T::deserialize(&mut it, source_text) {
                        Ok(v) => {
                            let ghost gv = v;
                            let ghost prev_out = out@;
                            let ghost prev_vals = vals;
                            let _ = out.insert(name, v);
                            proof {
                                let p = T::spec_decoded(spec_iter_items(*bv.value), 0, src)
                                    ->Ok_0;
                                let q0 = spec_dec_binding_pairs::<T>(items0, idx_b + 1, src);
                                assert(spec_dec_binding_pairs::<T>(items0, idx_b, src) == (
                                    match q0 {
                                        Err(f) => Err::<
                                            (Seq<(Seq<char>, T::V)>, Seq<ExpressionView>, int),
                                            DecodeFailure,
                                        >(f),
                                        Ok(q) => Ok::<
                                            (Seq<(Seq<char>, T::V)>, Seq<ExpressionView>, int),
                                            DecodeFailure,
                                        >((seq![(bv.name, p.0)] + q.0, q.1, q.2)),
                                    }));
                                vals = vals.push((bv.name, p.0));
                                match q0 {
                                    Ok(q) => {
                                        assert(prev_vals + (seq![(bv.name, p.0)] + q.0)
                                            =~= vals + q.0);
                                    },
                                    Err(_) => {},
                                }
                                if crate::serialization::spec_string_keys_reliable() {
                                    assert(out@ == prev_out.insert(gname, gv));
                                    assert(vals.drop_last() =~= prev_vals);
                                    assert(spec_pairs_to_map(vals) == spec_pairs_to_map(
                                        prev_vals,
                                    ).insert(bv.name, p.0));
                                    assert(gname@ == bv.name);
                                    let view_of = |k: String| k@;
                                    assert forall|k: String| #[trigger]
                                        out@.contains_key(k) implies spec_pairs_to_map(
                                        vals,
                                    ).contains_key(k@) && out@[k].spec_value_matches(
                                        spec_pairs_to_map(vals)[k@],
                                    ) by {
                                        if k == gname {
                                            assert(out@[k] == gv);
                                            assert(spec_pairs_to_map(vals)[k@] == p.0);
                                        } else {
                                            assert(view_of(k) != view_of(gname)) by {
                                                if view_of(k) == view_of(gname) {
                                                    assert(k == gname);
                                                }
                                            }
                                            assert(out@[k] == prev_out[k]);
                                            assert(spec_pairs_to_map(vals)[k@]
                                                == spec_pairs_to_map(prev_vals)[k@]);
                                        }
                                    }
                                    assert forall|dk: Seq<char>| #[trigger]
                                        spec_pairs_to_map(vals).contains_key(
                                        dk,
                                    ) implies exists|k: String|
                                        #![trigger k.view()]
                                        (k@ == dk && out@.contains_key(k)) by {
                                        if dk == bv.name {
                                            assert(gname.view() == dk
                                                && out@.contains_key(gname));
                                        } else {
                                            assert(spec_pairs_to_map(prev_vals).contains_key(
                                                dk,
                                            ));
                                        }
                                    }
                                }
                            }
                        },
                        Err(e) => {
                            proof {
                                let f = T::spec_decoded(spec_iter_items(*bv.value), 0, src)
                                    ->Err_0;
                                assert(spec_dec_binding_pairs::<T>(items0, idx_b, src)
                                    == Err::<
                                    (Seq<(Seq<char>, T::V)>, Seq<ExpressionView>, int),
                                    DecodeFailure,
                                >(f));
                            }
                            let e = e.contextualize("Error while deserializing a map entry");
                            return Err(e);
                        },
                    }
                },
                other => {
                    let bad = Expression::new(other, None);
                    proof {
                        assert(spec_dec_binding_pairs::<T>(items0, idx_b, src) matches Err(f)
                            && f is ExpectedBinding);
                    }
                    let e = SerializationError::on_span(
                        Kind::ExpectedBinding(bad),
                        span,
                        source_text,
                    ).contextualize(
                        "Expected a binding list to be comprised of exclusively bindings.",
                    );
                    return Err(e);
                },
            }
        }
        proof {
            assert(spec_dec_binding_pairs::<T>(items0, exprs.spec_index(), src) == Ok::<
                (Seq<(Seq<char>, T::V)>, Seq<ExpressionView>, int),
                DecodeFailure,
            >((Seq::<(Seq<char>, T::V)>::empty(), items0, exprs.spec_index())));
            assert(vals + Seq::<(Seq<char>, T::V)>::empty() =~= vals);
            lemma_pairs_tail::<T>(items0, i0, src);
        }
        Ok(out)
    }

    proof fn lemma_roundtrip(&self, e: ExpressionView, src: Seq<char>) {
        let c = e.data->List_0;
        assert(c.len() == 0);
        assert(spec_iter_items(e) == c);
        assert(spec_dec_binding_pairs::<T>(c, 0, src) == Ok::<
            (Seq<(Seq<char>, T::V)>, Seq<ExpressionView>, int),
            DecodeFailure,
        >((Seq::<(Seq<char>, T::V)>::empty(), c, 0)));
    }
}

} // verus!
