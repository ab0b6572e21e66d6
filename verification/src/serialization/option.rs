//! The built-in encoding for optional values.

use vstd::prelude::*;
use crate::expression::{
    spec_minimized, Atom, AtomView, Expression, ExpressionData, ExpressionDataView,
    ExpressionView,
};
use crate::expression_iterator::{spec_iter_items, ExpressionIterator};
use crate::lexical_span::LexicalSpan;
use crate::serialization::serialization_error::{DecodeFailure, Kind, SerializationError};
use crate::serialization::EasyConfig;
use crate::strutil::{lowercased, spec_lower, str_eq};

verus! {

/// The encoding of `None`: the bare word itself.
pub open spec fn spec_encoded_none() -> ExpressionView {
    ExpressionView {
        data: ExpressionDataView::Presence(
            AtomView::Text("None"@),
            LexicalSpan { start: 0, end: 0 },
        ),
        comment: None,
    }
}

/// What decoding an option does: a presence reading `none` (case
/// folded) is `None`; one reading `some` must be followed by a list
/// holding the payload; any other discriminant is rejected.
pub open spec fn spec_dec_option<T: EasyConfig>(
    items: Seq<ExpressionView>,
    index: int,
    src: Seq<char>,
) -> Result<(Option<T::V>, Seq<ExpressionView>, int), DecodeFailure> {
    if !(0 <= index < items.len()) {
        Err(DecodeFailure::ReachedEoi)
    } else {
        match items[index].data {
            ExpressionDataView::Presence(a, _) => match a {
                AtomView::Text(t) => if spec_lower(t) == "none"@ {
                    Ok((Option::<T::V>::None, items, index + 1))
                } else if spec_lower(t) == "some"@ {
                    if !(index + 1 < items.len()) {
                        Err(DecodeFailure::ReachedEoi)
                    } else {
                        match items[index + 1].data {
                            ExpressionDataView::List(c, _) => match T::spec_decoded(c, 0, src) {
                                Ok(p) => Ok((Option::<T::V>::Some(p.0), items, index + 2)),
                                Err(f) => Err(f),
                            },
                            _ => Err(DecodeFailure::ExpectedList),
                        }
                    }
                } else {
                    Err(DecodeFailure::ExpectedDiscriminant)
                },
                AtomView::Number(_) => Err(DecodeFailure::ExpectedText),
            },
            _ => Err(DecodeFailure::ExpectedPresence),
        }
    }
}

impl<T: EasyConfig> EasyConfig for Option<T> {
    open spec fn spec_passthrough() -> bool {
        false
    }

    fn passthrough() -> bool {
        false
    }

    open spec fn spec_enc(&self, e: ExpressionView) -> bool {
        match self {
            None => e == spec_encoded_none(),
            Some(t) => ({
                &&& e.comment is None
                &&& e.data matches ExpressionDataView::List(c, span)
                &&& span == (LexicalSpan { start: 0, end: 0 })
                &&& c.len() == 2
                &&& c[0] == (ExpressionView {
                    data: ExpressionDataView::Presence(
                        AtomView::Text("Some"@),
                        LexicalSpan { start: 0, end: 0 },
                    ),
                    comment: None,
                })
                &&& c[1].comment is None
                &&& c[1].data matches ExpressionDataView::List(inner, span2)
                &&& span2 == (LexicalSpan { start: 0, end: 0 })
                &&& inner.len() == 1
                &&& exists|x: ExpressionView|
                    t.spec_enc(x) && inner[0] == #[trigger] spec_minimized(x)
            }),
        }
    }

    open spec fn spec_decoded(items: Seq<ExpressionView>, index: int, src: Seq<char>) -> Result<
        (Option<T::V>, Seq<ExpressionView>, int),
        DecodeFailure,
    > {
        spec_dec_option::<T>(items, index, src)
    }

    open spec fn spec_value_matches(&self, m: Option<T::V>) -> bool {
        match (self, m) {
            (None, None) => true,
            (Some(t), Some(mv)) => t.spec_value_matches(mv),
            _ => false,
        }
    }

    /// The round trip is stated for payloads whose encodings survive the
    /// minimization the encoder applies inside the payload list: they
    /// must decode from the minimized expression alone.
    open spec fn spec_roundtrip_condition(&self) -> bool {
        match self {
            None => true,
            Some(t) => t.spec_roundtrip_condition() && (forall|x: ExpressionView, s: Seq<char>|
                t.spec_enc(x) ==> ({
                    &&& #[trigger] T::spec_decoded(seq![spec_minimized(x)], 0, s) matches Ok(p)
                    &&& t.spec_value_matches(p.0)
                })),
        }
    }

    fn serialize(&self) -> (r: Expression) {
        match self {
            None => {
                let r = Expression::presence(Atom::Text(String::from_str("None")));
                proof {
                    assert(r@ =~= spec_encoded_none());
                }
                r
            },
            Some(t) => {
                let payload = t.serialize().minimized();
                let mut inner: Vec<Expression> = Vec::new();
                inner.push(payload);
                let mut outer: Vec<Expression> = Vec::new();
                outer.push(Expression::presence(Atom::Text(String::from_str("Some"))));
                outer.push(Expression::list(inner));
                let r = Expression::list(outer);
                proof {
                    let c = r@.data->List_0;
                    assert(c.len() == 2);
                    assert(c[0] =~= (ExpressionView {
                        data: ExpressionDataView::Presence(
                            AtomView::Text("Some"@),
                            LexicalSpan { start: 0, end: 0 },
                        ),
                        comment: None,
                    }));
                    assert(c[1].data->List_0.len() == 1);
                }
                r
            },
        }
    }

    fn deserialize(exprs: &mut ExpressionIterator, source_text: &str) -> (r: Result<
        Option<T>,
        SerializationError,
    >)
        ensures
            match r {
                Ok(_) => true,
                Err(e) => ({
                    let items = old(exprs).spec_items();
                    let index = old(exprs).spec_index();
                    // the discriminant the first presence carries, when
                    // there is one
                    let a0 = items[index].data->Presence_0;
                    let own_mismatch = 0 <= index < items.len() && items[index].data is Presence
                        && a0 is Text && spec_lower(crate::expression::spec_atom_text(a0))
                        != "none"@ && spec_lower(crate::expression::spec_atom_text(a0))
                        != "some"@;
                    let own_bad_payload = 0 <= index < items.len() && items[index].data
                        is Presence && a0 is Text && spec_lower(
                        crate::expression::spec_atom_text(a0),
                    ) == "some"@ && index + 1 < items.len() && !(items[index + 1].data is List);
                    &&& (own_mismatch ==> ({
                        &&& e.spec_root() matches
                            crate::config_error::ConfigError::FirstLevelError(k, area)
                        &&& k matches Kind::ExpectedDiscriminant(got, opts)
                        &&& got@ == crate::expression::spec_atom_text(a0)
                        &&& opts@.len() == 2
                        &&& opts@[0]@ == "Some"@
                        &&& opts@[1]@ == "None"@
                        &&& area@ == crate::config_error::spec_error_area(
                            crate::expression::spec_span_of(items[index].data),
                            source_text@,
                        )
                    }))
                    &&& (own_bad_payload ==> ({
                        &&& e.spec_root() matches
                            crate::config_error::ConfigError::FirstLevelError(k2, area2)
                        &&& k2 matches Kind::ExpectedList(b)
                        &&& b@ == items[index + 1]
                        &&& area2@ == crate::config_error::spec_error_area(
                            crate::expression::spec_span_of(items[index + 1].data),
                            source_text@,
                        )
                    }))
                }),
            },
    {
        let name_expr = match exprs.next_or_err(source_text) {
            Ok(e) => e,
            Err(e) => {
                return Err(
                    e.contextualize(
                        "Expected the start of an Option, but ran into the end of input instead.",
                    ),
                );
            },
        };
        let name_span = name_expr.span();
        if !name_expr.is_presence() {
            let e = SerializationError::on_span(
                Kind::ExpectedPresence(name_expr),
                name_span,
                source_text,
            );
            return Err(e);
        }
        match &name_expr.data {
            ExpressionData::Presence(a, _) => {
                if !a.is_text() {
                    let text = String::from_str(a.text());
                    let e = SerializationError::on_span(
                        Kind::ExpectedText(text),
                        name_span,
                        source_text,
                    );
                    return Err(e);
                }
                let low = lowercased(a.text());
                if str_eq(low.as_str(), "none") {
                    return Ok(None);
                }
                if !str_eq(low.as_str(), "some") {
                    let mut options: Vec<String> = Vec::new();
                    options.push(String::from_str("Some"));
                    options.push(String::from_str("None"));
                    proof {
                        assert(options@.len() == 2);
                        assert(options@[0]@ == "Some"@);
                        assert(options@[1]@ == "None"@);
                    }
                    let text = String::from_str(a.text());
                    let e = SerializationError::on_span(
                        Kind::ExpectedDiscriminant(text, options),
                        name_span,
                        source_text,
                    );
                    return Err(e);
                }
                let args = match exprs.next_or_err(source_text) {
                    Ok(e) => e,
                    Err(e) => {
                        return Err(
                            e.contextualize(
                                "Expected an enum value, but ran into the end of input instead.",
                            ),
                        );
                    },
                };
                let args_span = args.span();
                if !args.is_list() {
                    proof {
                        assert(args@ == old(exprs).spec_items()[old(exprs).spec_index() + 1]);
                    }
                    let e = SerializationError::on_span(
                        Kind::ExpectedList(args),
                        args_span,
                        source_text,
                    );
                    return Err(e);
                }
                let ghost av = args@;
                let mut it = ExpressionIterator::new(args);
                proof {
                    assert(it.spec_items() == av.data->List_0);
                }
                match T::deserialize(&mut it, source_text) {
                    Ok(v) => Ok(Some(v)),
                    Err(e) => Err(e),
                }
            },
            _ => vstd::pervasive::unreached(),
        }
    }

    proof fn lemma_roundtrip(&self, e: ExpressionView, src: Seq<char>) {
        reveal_strlit("None");
        reveal_strlit("none");
        reveal_strlit("Some");
        reveal_strlit("some");
        assert(spec_lower("None"@) =~= "none"@) by {
            reveal_strlit("None");
            reveal_strlit("none");
            assert(spec_lower("None"@).len() == 4);
            assert(spec_lower("None"@)[0] == 'n' && spec_lower("None"@)[1] == 'o'
                && spec_lower("None"@)[2] == 'n' && spec_lower("None"@)[3] == 'e');
        }
        assert(spec_lower("Some"@) =~= "some"@) by {
            reveal_strlit("Some");
            reveal_strlit("some");
            assert(spec_lower("Some"@).len() == 4);
            assert(spec_lower("Some"@)[0] == 's' && spec_lower("Some"@)[1] == 'o'
                && spec_lower("Some"@)[2] == 'm' && spec_lower("Some"@)[3] == 'e');
        }
        assert("some"@ != "none"@) by {
            reveal_strlit("some");
            reveal_strlit("none");
            assert("some"@[0] == 's' && "none"@[0] == 'n');
        }
        match self {
            None => {
                assert(spec_iter_items(e) =~= seq![e]);
            },
            Some(t) => {
                let c = e.data->List_0;
                assert(spec_iter_items(e) == c);
                let inner = c[1].data->List_0;
                let x = choose|x: ExpressionView|
                    t.spec_enc(x) && inner[0] == #[trigger] spec_minimized(x);
                assert(T::spec_decoded(seq![spec_minimized(x)], 0, src) matches Ok(p)
                    && t.spec_value_matches(p.0));
                assert(inner =~= seq![spec_minimized(x)]);
            },
        }
    }
}

} // verus!
