//! The enum discriminant/argument protocol: reading a discriminant out
//! of a cursor, and splitting an encoded variant into its name and its
//! payload.

use vstd::prelude::*;
use crate::expression::{AtomView, Expression, ExpressionData, ExpressionDataView, ExpressionView};
use crate::expression_iterator::{spec_iter_items, ExpressionIterator};
use crate::lexical_span::LexicalSpan;
use crate::serialization::serialization_error::{
    spec_failure_matches, DecodeFailure, Kind, SerializationError,
};
use crate::serialization::EasyConfig;
use crate::strutil::{lowercased, spec_lower, str_eq};

verus! {

/// What reading a discriminant does: one expression is consumed; it must
/// be a presence holding a text atom.
pub open spec fn spec_dec_discriminant(items: Seq<ExpressionView>, index: int) -> Result<
    (Seq<char>, int),
    DecodeFailure,
> {
    if !(0 <= index < items.len()) {
        Err(DecodeFailure::ReachedEoi)
    } else {
        match items[index].data {
            ExpressionDataView::Presence(a, _) => match a {
                AtomView::Text(t) => Ok((t, index + 1)),
                AtomView::Number(_) => Err(DecodeFailure::ExpectedText),
            },
            _ => Err(DecodeFailure::ExpectedPresence),
        }
    }
}

/// Whether one of the option strings reads exactly `t`.
pub open spec fn spec_contains_text(options: Seq<String>, t: Seq<char>) -> bool {
    exists|j: int| 0 <= j < options.len() && (#[trigger] options[j])@ == t
}

fn contains_text(options: &Vec<String>, t: &str) -> (r: bool)
    ensures
        r == spec_contains_text(options@, t@),
{
    let mut j: usize = 0;
    while j < options.len()
        invariant
            j <= options@.len(),
            forall|k: int| 0 <= k < j ==> (#[trigger] options@[k])@ != t@,
        decreases options@.len() - j,
    {
        if str_eq(options[j].as_str(), t) {
            return true;
        }
        j = j + 1;
    }
    false
}

/// Read an enum discriminant: the next expression must be a bare text
/// atom whose text is one of the given options, exactly as written.
pub fn get_discriminant(
    expression_iterator: &mut ExpressionIterator,
    options: Vec<String>,
    source_text: &str,
) -> (r: Result<String, SerializationError>)
    requires
        old(expression_iterator).wf(),
    ensures
        final(expression_iterator).wf(),
        final(expression_iterator).spec_items() == old(expression_iterator).spec_items(),
        match r {
            Ok(d) => ({
                &&& spec_dec_discriminant(
                    old(expression_iterator).spec_items(),
                    old(expression_iterator).spec_index(),
                ) matches Ok(p)
                &&& d@ == p.0
                &&& spec_contains_text(options@, d@)
                &&& final(expression_iterator).spec_index() == p.1
            }),
            Err(e) => match spec_dec_discriminant(
                old(expression_iterator).spec_items(),
                old(expression_iterator).spec_index(),
            ) {
                Err(f) => spec_failure_matches(e, f),
                Ok(p) => ({
                    &&& !spec_contains_text(options@, p.0)
                    &&& e.spec_root() matches
                        crate::config_error::ConfigError::FirstLevelError(k, area)
                    &&& k matches Kind::ExpectedDiscriminant(got, opts)
                    &&& got@ == p.0
                    &&& opts == options
                    &&& area@ == crate::config_error::spec_error_area(
                        crate::expression::spec_span_of(
                            old(expression_iterator).spec_items()[old(
                                expression_iterator,
                            ).spec_index()].data,
                        ),
                        source_text@,
                    )
                }),
            },
        },
{
    let discriminant = match expression_iterator.next_or_err(source_text) {
        Ok(d) => d,
        Err(e) => {
            return Err(
                e.contextualize(
                    "Expected an enum discriminant, but ran into the end of the input.",
                ),
            );
        },
    };
    let discriminant_span = discriminant.span();
    if !discriminant.is_presence() {
        let e = SerializationError::on_span(
            Kind::ExpectedPresence(discriminant),
            discriminant_span,
            source_text,
        );
        return Err(e.contextualize("Error while deserializing discriminant."));
    }
    match &discriminant.data {
        ExpressionData::Presence(a, _) => {
            if !a.is_text() {
                let text = String::from_str(a.text());
                let e = SerializationError::on_span(
                    Kind::ExpectedText(text),
                    discriminant_span,
                    source_text,
                );
                return Err(e.contextualize("Error while deserializing discriminant."));
            }
            let text = String::from_str(a.text());
            if contains_text(&options, text.as_str()) {
                Ok(text)
            } else {
                let e = SerializationError::on_span(
                    Kind::ExpectedDiscriminant(text, options),
                    discriminant_span,
                    source_text,
                );
                Err(e)
            }
        },
        _ => vstd::pervasive::unreached(),
    }
}

/// Read an enum discriminant and fold it to lower case before matching
/// it against the (lower-case) options.
pub fn get_discriminant_lowercased(
    expression_iterator: &mut ExpressionIterator,
    options: Vec<String>,
    source_text: &str,
) -> (r: Result<String, SerializationError>)
    requires
        old(expression_iterator).wf(),
    ensures
        final(expression_iterator).wf(),
        final(expression_iterator).spec_items() == old(expression_iterator).spec_items(),
        match r {
            Ok(d) => ({
                &&& spec_dec_discriminant(
                    old(expression_iterator).spec_items(),
                    old(expression_iterator).spec_index(),
                ) matches Ok(p)
                &&& d@ == spec_lower(p.0)
                &&& spec_contains_text(options@, d@)
                &&& final(expression_iterator).spec_index() == p.1
            }),
            Err(e) => match spec_dec_discriminant(
                old(expression_iterator).spec_items(),
                old(expression_iterator).spec_index(),
            ) {
                Err(f) => spec_failure_matches(e, f),
                Ok(p) => ({
                    &&& !spec_contains_text(options@, spec_lower(p.0))
                    &&& e.spec_root() matches
                        crate::config_error::ConfigError::FirstLevelError(k, area)
                    &&& k matches Kind::ExpectedDiscriminant(got, opts)
                    &&& got@ == spec_lower(p.0)
                    &&& opts == options
                    &&& area@ == crate::config_error::spec_error_area(
                        crate::expression::spec_span_of(
                            old(expression_iterator).spec_items()[old(
                                expression_iterator,
                            ).spec_index()].data,
                        ),
                        source_text@,
                    )
                }),
            },
        },
{
    let discriminant = match expression_iterator.next_or_err(source_text) {
        Ok(d) => d,
        Err(e) => {
            return Err(
                e.contextualize(
                    "Expected an enum discriminant, but ran into the end of the input.",
                ),
            );
        },
    };
    let discriminant_span = discriminant.span();
    if !discriminant.is_presence() {
        let e = SerializationError::on_span(
            Kind::ExpectedPresence(discriminant),
            discriminant_span,
            source_text,
        );
        return Err(e.contextualize("Error while deserializing discriminant."));
    }
    match &discriminant.data {
        ExpressionData::Presence(a, _) => {
            if !a.is_text() {
                let text = String::from_str(a.text());
                let e = SerializationError::on_span(
                    Kind::ExpectedText(text),
                    discriminant_span,
                    source_text,
                );
                return Err(e.contextualize("Error while deserializing discriminant."));
            }
            let text = lowercased(a.text());
            if contains_text(&options, text.as_str()) {
                Ok(text)
            } else {
                let e = SerializationError::on_span(
                    Kind::ExpectedDiscriminant(text, options),
                    discriminant_span,
                    source_text,
                );
                Err(e)
            }
        },
        _ => vstd::pervasive::unreached(),
    }
}

/// The payload an extracted enum hands on when the variant carries no
/// arguments: an empty list.
pub open spec fn spec_empty_payload() -> ExpressionView {
    ExpressionView {
        data: ExpressionDataView::List(
            Seq::<ExpressionView>::empty(),
            LexicalSpan { start: 0, end: 0 },
        ),
        comment: None,
    }
}

/// What splitting an encoded enum does. A list under the cursor is the
/// wrapped form: its first element must be a bare text discriminant and
/// its second, if any, is the payload. A bare text atom is the inline
/// form: the discriminant alone, with an empty payload.
pub open spec fn spec_extract_enum(items: Seq<ExpressionView>, index: int) -> Result<
    ((Seq<char>, ExpressionView), int),
    DecodeFailure,
> {
    if !(0 <= index < items.len()) {
        Err(DecodeFailure::ReachedEoi)
    } else if items[index].data is List {
        let c = items[index].data->List_0;
        if c.len() == 0 {
            Err(DecodeFailure::ReachedEoi)
        } else {
            match c[0].data {
                ExpressionDataView::Presence(a, _) => match a {
                    AtomView::Text(t) => Ok(
                        ((t, if c.len() >= 2 {
                            c[1]
                        } else {
                            spec_empty_payload()
                        }), index + 1),
                    ),
                    AtomView::Number(_) => Err(DecodeFailure::ExpectedText),
                },
                _ => Err(DecodeFailure::ExpectedPresence),
            }
        }
    } else {
        match items[index].data {
            ExpressionDataView::Presence(a, _) => match a {
                AtomView::Text(t) => Ok(((t, spec_empty_payload()), index + 1)),
                AtomView::Number(_) => Err(DecodeFailure::ExpectedText),
            },
            _ => Err(DecodeFailure::ExpectedPresence),
        }
    }
}

impl ExpressionIterator {
    /// Split the next expression into an enum discriminant and its
    /// payload: a list is the wrapped `(Name payload)` form, a bare word
    /// is a unit variant standing inline in the parent's stream.
    pub fn extract_enum(&mut self, source_text: &str) -> (r: Result<
        (String, Expression),
        SerializationError,
    >)
        requires
            old(self).wf(),
        ensures
            final(self).wf(),
            final(self).spec_items() == old(self).spec_items(),
            match r {
                Ok(p) => ({
                    &&& spec_extract_enum(
                        old(self).spec_items(),
                        old(self).spec_index(),
                    ) matches Ok(q)
                    &&& p.0@ == q.0.0
                    &&& p.1@ == q.0.1
                    &&& final(self).spec_index() == q.1
                }),
                Err(e) => ({
                    &&& spec_extract_enum(
                        old(self).spec_items(),
                        old(self).spec_index(),
                    ) matches Err(f)
                    &&& spec_failure_matches(e, f)
                }),
            },
    {
        let is_list = match self.peek() {
            Some(e) => e.is_list(),
            None => false,
        };
        if is_list {
            let outer = match self.next() {
                Some(e) => e,
                None => vstd::pervasive::unreached(),
            };
            let ghost ov = outer@;
            let mut it = ExpressionIterator::new(outer);
            proof {
                assert(it.spec_items() == ov.data->List_0);
            }
            let d_expr = match it.next_or_err(source_text) {
                Ok(d) => d,
                Err(e) => {
                    return Err(
                        e.contextualize(
                            "Expected an enum discriminant, but the variant list is empty.",
                        ),
                    );
                },
            };
            let d_span = d_expr.span();
            if !d_expr.is_presence() {
                let e = SerializationError::on_span(
                    Kind::ExpectedPresence(d_expr),
                    d_span,
                    source_text,
                );
                return Err(e.contextualize("Error while deserializing discriminant."));
            }
            match &d_expr.data {
                ExpressionData::Presence(a, _) => {
                    if !a.is_text() {
                        let text = String::from_str(a.text());
                        let e = SerializationError::on_span(
                            Kind::ExpectedText(text),
                            d_span,
                            source_text,
                        );
                        return Err(e.contextualize("Error while deserializing discriminant."));
                    }
                    let name = String::from_str(a.text());
                    let fields = match it.next() {
                        Some(f) => f,
                        None => Expression::list(Vec::new()),
                    };
                    proof {
                        assert(crate::expression::spec_view_of_list(Seq::<Expression>::empty())
                            =~= Seq::<ExpressionView>::empty());
                    }
                    Ok((name, fields))
                },
                _ => vstd::pervasive::unreached(),
            }
        } else {
            let d_expr = match self.next_or_err(source_text) {
                Ok(d) => d,
                Err(e) => {
                    return Err(
                        e.contextualize(
                            "Expected an enum discriminant, but ran into the end of the input.",
                        ),
                    );
                },
            };
            let d_span = d_expr.span();
            if !d_expr.is_presence() {
                let e = SerializationError::on_span(
                    Kind::ExpectedPresence(d_expr),
                    d_span,
                    source_text,
                );
                return Err(e.contextualize("Error while deserializing discriminant."));
            }
            match &d_expr.data {
                ExpressionData::Presence(a, _) => {
                    if !a.is_text() {
                        let text = String::from_str(a.text());
                        let e = SerializationError::on_span(
                            Kind::ExpectedText(text),
                            d_span,
                            source_text,
                        );
                        return Err(e.contextualize("Error while deserializing discriminant."));
                    }
                    let name = String::from_str(a.text());
                    let fields = Expression::list(Vec::new());
                    proof {
                        assert(crate::expression::spec_view_of_list(Seq::<Expression>::empty())
                            =~= Seq::<ExpressionView>::empty());
                    }
                    Ok((name, fields))
                },
                _ => vstd::pervasive::unreached(),
            }
        }
    }

    /// Decode the next value of `T`: from the shared stream when `T`
    /// asks for passthrough, else from a cursor nested over the next
    /// expression.
    pub fn deserialize_next<T: EasyConfig>(&mut self, source_text: &str) -> (r: Result<
        T,
        SerializationError,
    >)
        requires
            old(self).wf(),
        ensures
            final(self).wf(),
            match r {
                Ok(v) => ({
                    &&& spec_deserialize_next::<T>(
                        old(self).spec_items(),
                        old(self).spec_index(),
                        source_text@,
                    ) matches Ok(p)
                    &&& v.spec_value_matches(p.0)
                    &&& final(self).spec_items() == p.1
                    &&& final(self).spec_index() == p.2
                }),
                Err(e) => ({
                    &&& spec_deserialize_next::<T>(
                        old(self).spec_items(),
                        old(self).spec_index(),
                        source_text@,
                    ) matches Err(f)
                    &&& spec_failure_matches(e, f)
                }),
            },
    {
        if T::passthrough() {
            T::deserialize(self, source_text)
        } else {
            let x = match self.next_or_err(source_text) {
                Ok(x) => x,
                Err(e) => {
                    return Err(e);
                },
            };
            let ghost xv = x@;
            let mut it = ExpressionIterator::new(x);
            proof {
                assert(it.spec_items() == spec_iter_items(xv));
            }
            match T::deserialize(&mut it, source_text) {
                Ok(v) => Ok(v),
                Err(e) => Err(e),
            }
        }
    }
}

/// What `deserialize_next` yields: the element type's own decode, from
/// the shared stream or from the next expression's nested cursor.
pub open spec fn spec_deserialize_next<T: EasyConfig>(
    items: Seq<ExpressionView>,
    index: int,
    src: Seq<char>,
) -> Result<(T::V, Seq<ExpressionView>, int), DecodeFailure> {
    if T::spec_passthrough() {
        T::spec_decoded(items, index, src)
    } else {
        if !(0 <= index < items.len()) {
            Err(DecodeFailure::ReachedEoi)
        } else {
            match T::spec_decoded(spec_iter_items(items[index]), 0, src) {
                Ok(p) => Ok((p.0, items, index + 1)),
                Err(f) => Err(f),
            }
        }
    }
}

} // verus!
