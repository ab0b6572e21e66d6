//! The cursor every decode drives: a peekable, rewindable,
//! span-accumulating iterator over a flattened list of sibling
//! expressions.

use vstd::prelude::*;
use crate::expression::{
    spec_view_of_list, Atom, Binding, Expression, ExpressionData, ExpressionDataView,
    ExpressionView, spec_span_of,
};
use crate::lexical_span::LexicalSpan;
use crate::serialization::serialization_error::{
    spec_failure_matches, DecodeFailure, Kind, SerializationError,
};
use crate::strutil::str_eq;

verus! {

/// The sibling expressions a cursor over an expression walks: a list is
/// flattened to its children, anything else is a one-element stream.
pub open spec fn spec_iter_items(e: ExpressionView) -> Seq<ExpressionView> {
    match e.data {
        ExpressionDataView::List(c, _) => c,
        _ => seq![e],
    }
}

/// The running-span stack after one more consumed span: the first span
/// starts the accumulation, every later one is folded in by union.
pub open spec fn spec_push_span(spans: Seq<LexicalSpan>, span: LexicalSpan) -> Seq<LexicalSpan> {
    if spans.len() == 0 {
        seq![span]
    } else {
        spans.push(spans.last().spec_combine(span))
    }
}

pub struct ExpressionIterator {
    items: Vec<Expression>,
    index: usize,
    spans: Vec<LexicalSpan>,
}

impl ExpressionIterator {
    /// The whole stream, as abstract expressions.
    pub closed spec fn spec_items(&self) -> Seq<ExpressionView> {
        spec_view_of_list(self.items@)
    }

    /// The position of the next expression to hand out.
    pub closed spec fn spec_index(&self) -> int {
        self.index as int
    }

    /// The running-span stack.
    pub closed spec fn spec_spans(&self) -> Seq<LexicalSpan> {
        self.spans@
    }

    /// How many expressions are still ahead of the cursor.
    pub open spec fn spec_remaining(&self) -> int {
        self.spec_items().len() - self.spec_index()
    }

    pub open spec fn wf(&self) -> bool {
        0 <= self.spec_index() <= self.spec_items().len()
    }

    /// A cursor over the given expression's sibling stream.
    pub fn new(expr: Expression) -> (r: ExpressionIterator)
        ensures
            r.wf(),
            r.spec_items() == spec_iter_items(expr@),
            r.spec_index() == 0,
            r.spec_spans().len() == 0,
    {
        let ghost ev = expr@;
        if expr.is_list() {
            match expr.data {
                ExpressionData::List(c, _) => {
                    let r = ExpressionIterator { items: c, index: 0, spans: Vec::new() };
                    proof {
                        assert(r.spec_items() =~= spec_iter_items(ev));
                    }
                    r
                },
                _ => vstd::pervasive::unreached(),
            }
        } else {
            let mut items: Vec<Expression> = Vec::new();
            items.push(expr);
            let r = ExpressionIterator { items, index: 0, spans: Vec::new() };
            proof {
                assert(r.spec_items() =~= spec_iter_items(ev));
            }
            r
        }
    }

    /// Whether the stream is exhausted.
    pub fn finished(&self) -> (r: bool)
        requires
            self.wf(),
        ensures
            r == (self.spec_remaining() == 0),
    {
        self.index == self.items.len()
    }

    /// Fold one more consumed span into the running accumulation.
    pub fn update_span(&mut self, span: LexicalSpan)
        requires
            old(self).wf(),
        ensures
            final(self).wf(),
            final(self).spec_items() == old(self).spec_items(),
            final(self).spec_index() == old(self).spec_index(),
            final(self).spec_spans() == spec_push_span(old(self).spec_spans(), span),
    {
        if self.spans.len() == 0 {
            self.spans.push(span);
            return ;
        }
        let last = self.spans[self.spans.len() - 1];
        self.spans.push(last.combine(span));
        assert(self.spans@ =~= spec_push_span(old(self).spans@, span));
    }

    /// The accumulated span, covering everything consumed so far.
    pub fn span(&self) -> (r: Option<LexicalSpan>)
        ensures
            match r {
                Some(s) => self.spec_spans().len() > 0 && s == self.spec_spans().last(),
                None => self.spec_spans().len() == 0,
            },
    {
        if self.spans.len() == 0 {
            None
        } else {
            Some(self.spans[self.spans.len() - 1])
        }
    }

    /// Hand out the next expression, if one remains, extending the
    /// running span.
    pub fn next(&mut self) -> (r: Option<Expression>)
        requires
            old(self).wf(),
        ensures
            final(self).wf(),
            final(self).spec_items() == old(self).spec_items(),
            match r {
                Some(e) => old(self).spec_remaining() > 0 && e@ == old(self).spec_items()[old(
                    self,
                ).spec_index()] && final(self).spec_index() == old(self).spec_index() + 1
                    && final(self).spec_spans() == spec_push_span(
                    old(self).spec_spans(),
                    spec_span_of(e@.data),
                ),
                None => old(self).spec_remaining() == 0 && *final(self) == *old(self),
            },
    {
        if self.index < self.items.len() {
            let e = self.items[self.index].deep_clone();
            proof {
                assert(self.spec_items()[self.index as int] == self.items@[self.index as int]@);
            }
            self.index = self.index + 1;
            let span = e.span();
            self.update_span(span);
            Some(e)
        } else {
            None
        }
    }

    /// Push the cursor back over up to `by` already-consumed
    /// expressions, dropping their spans from the accumulation.
    pub fn rewind(&mut self, by: usize)
        requires
            old(self).wf(),
        ensures
            final(self).wf(),
            final(self).spec_items() == old(self).spec_items(),
            final(self).spec_index() == if by <= old(self).spec_index() {
                old(self).spec_index() - by
            } else {
                0
            },
            final(self).spec_spans() == if by <= old(self).spec_spans().len() {
                old(self).spec_spans().take(old(self).spec_spans().len() - by)
            } else {
                Seq::<LexicalSpan>::empty()
            },
    {
        if by == 0 {
            assert(final(self).spec_spans() =~= old(self).spec_spans());
            return ;
        }
        let mut k: usize = 0;
        while k < by
            invariant
                old(self).wf(),
                k <= by,
                self.items == old(self).items,
                self.spec_index() == if k <= old(self).spec_index() {
                    old(self).spec_index() - k
                } else {
                    0
                },
                self.spec_spans() =~= if k <= old(self).spec_spans().len() {
                    old(self).spec_spans().take(old(self).spec_spans().len() - k)
                } else {
                    Seq::<LexicalSpan>::empty()
                },
            decreases by - k,
        {
            if self.index > 0 {
                self.index = self.index - 1;
            }
            if self.spans.len() > 0 {
                let _ = self.spans.pop();
            }
            k = k + 1;
            proof {
                if k <= old(self).spec_spans().len() {
                    assert(self.spec_spans() =~= old(self).spec_spans().take(
                        old(self).spec_spans().len() - k,
                    ));
                } else {
                    assert(self.spec_spans() =~= Seq::<LexicalSpan>::empty());
                }
            }
        }
    }

    /// Peek at the next expression without consuming it.
    pub fn peek(&self) -> (r: Option<&Expression>)
        requires
            self.wf(),
        ensures
            match r {
                Some(e) => self.spec_remaining() > 0 && e@ == self.spec_items()[self.spec_index()],
                None => self.spec_remaining() == 0,
            },
    {
        if self.index < self.items.len() {
            proof {
                assert(self.spec_items()[self.index as int] == self.items@[self.index as int]@);
            }
            Some(&self.items[self.index])
        } else {
            None
        }
    }

    /// The next expression, or the end-of-input error when none remains.
    pub fn next_or_err(&mut self, source_text: &str) -> (r: Result<Expression, SerializationError>)
        requires
            old(self).wf(),
        ensures
            final(self).wf(),
            final(self).spec_items() == old(self).spec_items(),
            match r {
                Ok(e) => old(self).spec_remaining() > 0 && e@ == old(self).spec_items()[old(
                    self,
                ).spec_index()] && final(self).spec_index() == old(self).spec_index() + 1
                    && final(self).spec_spans() == spec_push_span(
                    old(self).spec_spans(),
                    spec_span_of(e@.data),
                ),
                Err(err) => old(self).spec_remaining() == 0 && *final(self) == *old(self)
                    && spec_failure_matches(err, DecodeFailure::ReachedEoi)
                    && crate::serialization::serialization_error::spec_ser_eoi_error(
                    err,
                    source_text@,
                ),
            },
    {
        match self.next() {
            Some(e) => Ok(e),
            None => Err(SerializationError::end_of_input(source_text)),
        }
    }

    /// The next expression, minimized, or the end-of-input error.
    pub fn minimized_next_or_err(&mut self, source_text: &str) -> (r: Result<
        Expression,
        SerializationError,
    >)
        requires
            old(self).wf(),
        ensures
            final(self).wf(),
            final(self).spec_items() == old(self).spec_items(),
            match r {
                Ok(e) => old(self).spec_remaining() > 0 && e@ == crate::expression::spec_minimized(
                    old(self).spec_items()[old(self).spec_index()],
                ) && final(self).spec_index() == old(self).spec_index() + 1,
                Err(err) => old(self).spec_remaining() == 0 && *final(self) == *old(self)
                    && spec_failure_matches(err, DecodeFailure::ReachedEoi)
                    && crate::serialization::serialization_error::spec_ser_eoi_error(
                    err,
                    source_text@,
                ),
            },
    {
        match self.next_or_err(source_text) {
            Ok(e) => Ok(e.minimized()),
            Err(err) => Err(err),
        }
    }

    /// The next expression, which must be a list.
    pub fn next_list_or_err(&mut self, source_text: &str) -> (r: Result<
        Expression,
        SerializationError,
    >)
        requires
            old(self).wf(),
        ensures
            final(self).wf(),
            final(self).spec_items() == old(self).spec_items(),
            match r {
                Ok(e) => old(self).spec_remaining() > 0 && e@ == old(self).spec_items()[old(
                    self,
                ).spec_index()] && e@.data is List && final(self).spec_index() == old(
                    self,
                ).spec_index() + 1,
                Err(err) => ({
                    ||| (old(self).spec_remaining() == 0
                        && crate::serialization::serialization_error::spec_ser_eoi_error(
                        err,
                        source_text@,
                    ))
                    ||| ({
                        let bad = old(self).spec_items()[old(self).spec_index()];
                        &&& old(self).spec_remaining() > 0
                        &&& !(bad.data is List)
                        &&& err.spec_root() matches
                            crate::config_error::ConfigError::FirstLevelError(k, area)
                        &&& k matches Kind::ExpectedList(b)
                        &&& b@ == bad
                        &&& area@ == crate::config_error::spec_error_area(
                            spec_span_of(bad.data),
                            source_text@,
                        )
                    })
                }),
            },
    {
        let expr = match self.next_or_err(source_text) {
            Ok(e) => e,
            Err(err) => {
                return Err(err);
            },
        };
        let span = expr.span();
        if !expr.is_list() {
            return Err(
                SerializationError::on_span(Kind::ExpectedList(expr), span, source_text),
            );
        }
        Ok(expr)
    }

    /// Consume the next expression when it is a presence holding exactly
    /// this atom.
    pub fn eat_presence_if_present(&mut self, value: &Atom) -> (r: bool)
        requires
            old(self).wf(),
        ensures
            final(self).wf(),
            final(self).spec_items() == old(self).spec_items(),
            r == (old(self).spec_remaining() > 0 && (old(self).spec_items()[old(
                self,
            ).spec_index()].data matches ExpressionDataView::Presence(a, _) && a == value@)),
            r ==> final(self).spec_index() == old(self).spec_index() + 1,
            !r ==> *final(self) == *old(self),
    {
        let matches_value = match self.peek() {
            Some(peeked) => match &peeked.data {
                ExpressionData::Presence(a, _) => a == value,
                _ => false,
            },
            None => false,
        };
        if matches_value {
            let _ = self.next();
        }
        matches_value
    }

    /// Consume the next expression when it is a presence whose text is
    /// exactly `value`, as the leading type name of an encoded product is.
    pub fn eat_presence_if_present_and_matching(&mut self, value: &str) -> (r: bool)
        requires
            old(self).wf(),
        ensures
            final(self).wf(),
            final(self).spec_items() == old(self).spec_items(),
            r == (old(self).spec_remaining() > 0 && (old(self).spec_items()[old(
                self,
            ).spec_index()].data matches ExpressionDataView::Presence(a, _)
                && crate::expression::spec_atom_text(a) == value@)),
            r ==> final(self).spec_index() == old(self).spec_index() + 1,
            !r ==> *final(self) == *old(self),
    {
        let matches_value = match self.peek() {
            Some(peeked) => match &peeked.data {
                ExpressionData::Presence(a, _) => str_eq(a.text(), value),
                _ => false,
            },
            None => false,
        };
        if matches_value {
            let _ = self.next();
        }
        matches_value
    }
}

/// The union of the spans of `items[index..]`, folded left from an
/// accumulator.
pub open spec fn spec_span_union_from(
    items: Seq<ExpressionView>,
    index: int,
    acc: LexicalSpan,
) -> LexicalSpan
    decreases items.len() - index,
{
    if !(0 <= index < items.len()) {
        acc
    } else {
        spec_span_union_from(items, index + 1, acc.spec_combine(spec_span_of(items[index].data)))
    }
}

/// The union of the spans of `items[index..]`, or nothing when the run
/// is empty.
pub open spec fn spec_span_union(items: Seq<ExpressionView>, index: int) -> Option<LexicalSpan> {
    if 0 <= index < items.len() {
        Some(spec_span_union_from(items, index + 1, spec_span_of(items[index].data)))
    } else {
        None
    }
}

/// Where the first binding with the given name stands in the stream, at
/// or after `index`.
pub open spec fn spec_find_binding(items: Seq<ExpressionView>, index: int, name: Seq<char>) -> Option<
    int,
>
    decreases items.len() - index,
{
    if index < 0 || index >= items.len() {
        None
    } else if items[index].data matches ExpressionDataView::BindingExpr(b) && b.name == name {
        Some(index)
    } else {
        spec_find_binding(items, index + 1, name)
    }
}

/// Order-independence of binding lookup: in a stream of bindings with
/// pairwise distinct names, any reordering of the items leaves the
/// binding that a name finds unchanged.
pub proof fn lemma_find_binding_order_independent(
    items1: Seq<ExpressionView>,
    items2: Seq<ExpressionView>,
    name: Seq<char>,
    perm: Seq<int>,
)
    requires
        items1.len() == items2.len(),
        perm.len() == items1.len(),
        forall|i: int| 0 <= i < perm.len() ==> 0 <= #[trigger] perm[i] < items1.len(),
        forall|i: int, j: int| 0 <= i < j < perm.len() ==> perm[i] != perm[j],
        forall|i: int|
            0 <= i < items2.len() ==> #[trigger] items2[i] == items1[perm[i]],
        forall|i: int|
            0 <= i < items1.len() ==> #[trigger] items1[i].data is BindingExpr,
        forall|i: int, j: int|
            0 <= i < j < items1.len() ==> (#[trigger] items1[i].data)->BindingExpr_0.name != (
            #[trigger] items1[j].data)->BindingExpr_0.name,
    ensures
        ({
            let r1 = spec_find_binding(items1, 0, name);
            let r2 = spec_find_binding(items2, 0, name);
            match (r1, r2) {
                (Some(i), Some(j)) => items1[i] == items2[j],
                (None, None) => true,
                _ => false,
            }
        }),
{
    let r1 = spec_find_binding(items1, 0, name);
    let r2 = spec_find_binding(items2, 0, name);
    lemma_find_binding_finds(items1, 0, name);
    lemma_find_binding_finds(items2, 0, name);
    match (r1, r2) {
        (Some(i), Some(j)) => {
            let b1 = items1[i].data->BindingExpr_0;
            let b2 = items2[j].data->BindingExpr_0;
            assert(items2[j] == items1[perm[j]]);
            if perm[j] != i {
                assert(items1[perm[j]].data->BindingExpr_0.name == name);
                assert(items1[i].data->BindingExpr_0.name == name);
                if perm[j] < i {
                    assert(false);
                } else {
                    assert(false);
                }
            }
        },
        (Some(i), None) => {
            // the same binding must occur somewhere in items2
            let j = choose|j: int| 0 <= j < perm.len() && perm[j] == i;
            assert(exists|j: int| 0 <= j < perm.len() && perm[j] == i) by {
                lemma_permutation_onto(perm, items1.len() as int, i);
            }
            assert(items2[j].data->BindingExpr_0.name == name);
            assert(false);
        },
        (None, Some(j)) => {
            assert(items1[perm[j]].data->BindingExpr_0.name == name);
            assert(false);
        },
        (None, None) => {},
    }
}

/// What a search finds: a binding with the name, earlier positions
/// holding none.
proof fn lemma_find_binding_finds(items: Seq<ExpressionView>, index: int, name: Seq<char>)
    requires
        0 <= index <= items.len(),
    ensures
        match spec_find_binding(items, index, name) {
            Some(i) => ({
                &&& index <= i < items.len()
                &&& items[i].data matches ExpressionDataView::BindingExpr(b)
                &&& b.name == name
            }),
            None => forall|k: int|
                index <= k < items.len() ==> !((#[trigger] items[k].data) matches
                    ExpressionDataView::BindingExpr(b) && b.name == name),
        },
    decreases items.len() - index,
{
    if index < items.len() {
        if !(items[index].data matches ExpressionDataView::BindingExpr(b) && b.name == name) {
            lemma_find_binding_finds(items, index + 1, name);
        }
    }
}

/// An injective map from a finite range onto itself reaches every value.
proof fn lemma_permutation_onto(perm: Seq<int>, n: int, target: int)
    requires
        perm.len() == n,
        0 <= target < n,
        forall|i: int| 0 <= i < n ==> 0 <= #[trigger] perm[i] < n,
        forall|i: int, j: int| 0 <= i < j < n ==> perm[i] != perm[j],
    ensures
        exists|j: int| 0 <= j < n && perm[j] == target,
{
    let s = Set::new(|v: int| 0 <= v < n && exists|j: int| 0 <= j < n && perm[j] == v);
    let full = Set::new(|v: int| 0 <= v < n);
    if !s.contains(target) {
        // perm maps n indices injectively into the n-1 other values
        vstd::set_lib::lemma_int_range(0, n);
        assert(full =~= vstd::set_lib::set_int_range(0, n));
        assert(full.finite() && full.len() == n);
        lemma_injective_image_size(perm, n, s);
        assert(s.subset_of(full));
        assert(!full.subset_of(s));
        vstd::set_lib::lemma_len_subset(s, full);
        assert(s.len() <= full.len());
        assert(s.insert(target).subset_of(full));
        vstd::set_lib::lemma_len_subset(s.insert(target), full);
        assert(s.len() + 1 <= n);
        assert(false);
    }
}

/// An injective sequence of n in-range values covers n distinct values.
proof fn lemma_injective_image_size(perm: Seq<int>, n: int, s: Set<int>)
    requires
        perm.len() == n,
        0 <= n,
        forall|i: int| 0 <= i < n ==> 0 <= #[trigger] perm[i] < n,
        forall|i: int, j: int| 0 <= i < j < n ==> perm[i] != perm[j],
        s == Set::new(|v: int| 0 <= v < n && exists|j: int| 0 <= j < n && perm[j] == v),
    ensures
        s.finite(),
        s.len() >= n,
    decreases n,
{
    if n == 0 {
        assert(s =~= Set::<int>::empty());
    } else {
        let prev = Set::new(
            |v: int| 0 <= v < n && exists|j: int| 0 <= j < n - 1 && perm[j] == v,
        );
        lemma_injective_image_size_partial(perm, n, n - 1, prev);
        assert(s =~= prev.insert(perm[n - 1]));
        assert(!prev.contains(perm[n - 1]));
        assert(s.len() == prev.len() + 1);
    }
}

/// The first `k` entries of an injective in-range sequence cover `k`
/// distinct values.
proof fn lemma_injective_image_size_partial(perm: Seq<int>, n: int, k: int, s: Set<int>)
    requires
        perm.len() == n,
        0 <= k <= n,
        forall|i: int| 0 <= i < n ==> 0 <= #[trigger] perm[i] < n,
        forall|i: int, j: int| 0 <= i < j < n ==> perm[i] != perm[j],
        s == Set::new(|v: int| 0 <= v < n && exists|j: int| 0 <= j < k && perm[j] == v),
    ensures
        s.finite(),
        s.len() == k,
    decreases k,
{
    if k == 0 {
        assert(s =~= Set::<int>::empty());
    } else {
        let prev = Set::new(
            |v: int| 0 <= v < n && exists|j: int| 0 <= j < k - 1 && perm[j] == v,
        );
        lemma_injective_image_size_partial(perm, n, k - 1, prev);
        assert(s =~= prev.insert(perm[k - 1]));
        assert(!prev.contains(perm[k - 1]));
        assert(s.len() == prev.len() + 1);
    }
}

impl ExpressionIterator {
    /// Scan the remaining stream for the first binding with the given
    /// name and take it out, wherever it stands: field order in the
    /// source never matters for lookup.
    pub fn find_binding(&mut self, name: &str, source_text: &str) -> (r: Result<
        Binding,
        SerializationError,
    >)
        requires
            old(self).wf(),
        ensures
            final(self).wf(),
            final(self).spec_index() == old(self).spec_index(),
            match r {
                Ok(b) => ({
                    &&& spec_find_binding(
                        old(self).spec_items(),
                        old(self).spec_index(),
                        name@,
                    ) matches Some(i)
                    &&& old(self).spec_items()[i].data matches ExpressionDataView::BindingExpr(bv)
                    &&& b@ == bv
                    &&& final(self).spec_items() == old(self).spec_items().remove(i)
                }),
                Err(e) => ({
                    &&& spec_find_binding(
                        old(self).spec_items(),
                        old(self).spec_index(),
                        name@,
                    ) is None
                    &&& final(self).spec_items() == old(self).spec_items()
                    &&& spec_failure_matches(e, DecodeFailure::MissingField)
                    &&& e.spec_root() matches
                        crate::config_error::ConfigError::FirstLevelError(k, area)
                    &&& k matches Kind::MissingField(n)
                    &&& n@ == name@
                    &&& area@ == crate::config_error::spec_error_area(
                        match spec_span_union(old(self).spec_items(), old(self).spec_index()) {
                            Some(sp) => sp,
                            None => LexicalSpan { start: 0, end: 0 },
                        },
                        source_text@,
                    )
                }),
            },
    {
        let ghost items0 = self.spec_items();
        let ghost i0 = self.spec_index();
        let mut pos: usize = self.index;
        let mut scanned_span: Option<LexicalSpan> = None;
        while pos < self.items.len()
            invariant
                self.wf(),
                *self == *old(self),
                i0 <= pos as int <= items0.len(),
                items0 == self.spec_items(),
                i0 == self.spec_index(),
                spec_find_binding(items0, i0, name@) == spec_find_binding(
                    items0,
                    pos as int,
                    name@,
                ),
                match scanned_span {
                    None => pos as int == i0,
                    Some(acc) => pos as int > i0 && spec_span_union_from(items0, pos as int, acc)
                        == spec_span_union_from(
                        items0,
                        i0 + 1,
                        spec_span_of(items0[i0].data),
                    ),
                },
            decreases self.items@.len() - pos,
        {
            proof {
                assert(items0[pos as int] == self.items@[pos as int]@);
            }
            let found = match &self.items[pos].data {
                ExpressionData::BindingExpr(b) => str_eq(b.name.as_str(), name),
                _ => false,
            };
            let span = self.items[pos].span();
            scanned_span = match scanned_span {
                Some(acc) => Some(acc.combine(span)),
                None => Some(span),
            };
            if found {
                let e = self.items.remove(pos);
                proof {
                    assert(spec_find_binding(items0, pos as int, name@) == Some(pos as int));
                    assert(self.spec_items() =~= items0.remove(pos as int));
                }
                match e.data {
                    ExpressionData::BindingExpr(b) => {
                        return Ok(b);
                    },
                    _ => {
                        return vstd::pervasive::unreached();
                    },
                }
            }
            pos = pos + 1;
        }
        let span = match scanned_span {
            Some(s) => s,
            None => LexicalSpan::zeros(),
        };
        proof {
            match spec_span_union(items0, i0) {
                Some(sp) => {
                    assert(span == sp);
                },
                None => {
                    assert(span == (LexicalSpan { start: 0, end: 0 }));
                },
            }
        }
        Err(
            SerializationError::on_span(
                Kind::MissingField(String::from_str(name)),
                span,
                source_text,
            ),
        )
    }
}

} // verus!
