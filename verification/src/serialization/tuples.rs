//! Built-in encodings for tuples: a fixed-order list, one child per
//! position.

use vstd::prelude::*;
use crate::expression::{Expression, ExpressionDataView, ExpressionView};
use crate::expression_iterator::{spec_iter_items, ExpressionIterator};
use crate::lexical_span::LexicalSpan;
use crate::serialization::serialization_error::{
    spec_failure_matches, DecodeFailure, Kind, SerializationError,
};
use crate::serialization::EasyConfig;

verus! {

/// Decode one tuple position from its own nested cursor; a missing
/// expression is the wrong cardinality, not a plain end of input.
pub open spec fn spec_dec_pos<T: EasyConfig>(
    items: Seq<ExpressionView>,
    index: int,
    src: Seq<char>,
) -> Result<T::V, DecodeFailure> {
    if !(0 <= index < items.len()) {
        Err(DecodeFailure::WrongCardinality)
    } else {
        match T::spec_decoded(spec_iter_items(items[index]), 0, src) {
            Ok(p) => Ok(p.0),
            Err(f) => Err(f),
        }
    }
}

/// Decode one tuple position from the cursor.
fn decode_pos<T: EasyConfig>(
    exprs: &mut ExpressionIterator,
    source_text: &str,
    want: usize,
    got: usize,
) -> (r: Result<T, SerializationError>)
    requires
        old(exprs).wf(),
    ensures
        final(exprs).wf(),
        final(exprs).spec_items() == old(exprs).spec_items(),
        match r {
            Ok(v) => ({
                &&& spec_dec_pos::<T>(
                    old(exprs).spec_items(),
                    old(exprs).spec_index(),
                    source_text@,
                ) matches Ok(m)
                &&& v.spec_value_matches(m)
                &&& final(exprs).spec_index() == old(exprs).spec_index() + 1
            }),
            Err(e) => ({
                &&& spec_dec_pos::<T>(
                    old(exprs).spec_items(),
                    old(exprs).spec_index(),
                    source_text@,
                ) matches Err(f)
                &&& spec_failure_matches(e, f)
            }),
        },
{
    let x = match exprs.next() {
        Some(x) => x,
        None => {
            let span = match exprs.span() {
                Some(s) => s,
                None => LexicalSpan::zeros(),
            };
            let e = SerializationError::on_span(
                Kind::WrongCardinality { got, want },
                span,
                source_text,
            );
            return Err(e);
        },
    };
    let mut it = ExpressionIterator::new(x);
    match T::deserialize(&mut it, source_text) {
        Ok(v) => Ok(v),
        Err(e) => Err(e),
    }
}

impl<T1: EasyConfig, T2: EasyConfig> EasyConfig for (T1, T2) {
    open spec fn spec_passthrough() -> bool {
        false
    }

    fn passthrough() -> bool {
        false
    }

    open spec fn spec_enc(&self, e: ExpressionView) -> bool {
        &&& e.comment is None
        &&& e.data matches ExpressionDataView::List(c, span)
        &&& span == (LexicalSpan { start: 0, end: 0 })
        &&& c.len() == 2
        &&& self.0.spec_enc(c[0])
        &&& self.1.spec_enc(c[1])
    }

    open spec fn spec_decoded(items: Seq<ExpressionView>, index: int, src: Seq<char>) -> Result<
        ((T1::V, T2::V), Seq<ExpressionView>, int),
        DecodeFailure,
    > {
        match spec_dec_pos::<T1>(items, index, src) {
            Err(f) => Err(f),
            Ok(m1) => match spec_dec_pos::<T2>(items, index + 1, src) {
                Err(f) => Err(f),
                Ok(m2) => Ok(((m1, m2), items, index + 2)),
            },
        }
    }

    open spec fn spec_value_matches(&self, m: (T1::V, T2::V)) -> bool {
        self.0.spec_value_matches(m.0) && self.1.spec_value_matches(m.1)
    }

    open spec fn spec_roundtrip_condition(&self) -> bool {
        self.0.spec_roundtrip_condition() && self.1.spec_roundtrip_condition()
    }

    fn serialize(&self) -> (r: Expression) {
        let mut exprs: Vec<Expression> = Vec::new();
        exprs.push(self.0.serialize());
        exprs.push(self.1.serialize());
        let r = Expression::list(exprs);
        proof {
            let c = r@.data->List_0;
            assert(c.len() == 2);
        }
        r
    }

    fn deserialize(exprs: &mut ExpressionIterator, source_text: &str) -> (r: Result<
        (T1, T2),
        SerializationError,
    >) {
        let v1 = match decode_pos::<T1>(exprs, source_text, 2, 0) {
            Ok(v) => v,
            Err(e) => {
                return Err(e);
            },
        };
        let v2 = match decode_pos::<T2>(exprs, source_text, 2, 1) {
            Ok(v) => v,
            Err(e) => {
                return Err(e);
            },
        };
        Ok((v1, v2))
    }

    proof fn lemma_roundtrip(&self, e: ExpressionView, src: Seq<char>) {
        let c = e.data->List_0;
        assert(spec_iter_items(e) == c);
        self.0.lemma_roundtrip(c[0], src);
        self.1.lemma_roundtrip(c[1], src);
    }
}

impl<T1: EasyConfig, T2: EasyConfig, T3: EasyConfig> EasyConfig for (T1, T2, T3) {
    open spec fn spec_passthrough() -> bool {
        false
    }

    fn passthrough() -> bool {
        false
    }

    open spec fn spec_enc(&self, e: ExpressionView) -> bool {
        &&& e.comment is None
        &&& e.data matches ExpressionDataView::List(c, span)
        &&& span == (LexicalSpan { start: 0, end: 0 })
        &&& c.len() == 3
        &&& self.0.spec_enc(c[0])
        &&& self.1.spec_enc(c[1])
        &&& self.2.spec_enc(c[2])
    }

    open spec fn spec_decoded(items: Seq<ExpressionView>, index: int, src: Seq<char>) -> Result<
        ((T1::V, T2::V, T3::V), Seq<ExpressionView>, int),
        DecodeFailure,
    > {
        match spec_dec_pos::<T1>(items, index, src) {
            Err(f) => Err(f),
            Ok(m1) => match spec_dec_pos::<T2>(items, index + 1, src) {
                Err(f) => Err(f),
                Ok(m2) => match spec_dec_pos::<T3>(items, index + 2, src) {
                    Err(f) => Err(f),
                    Ok(m3) => Ok(((m1, m2, m3), items, index + 3)),
                },
            },
        }
    }

    open spec fn spec_value_matches(&self, m: (T1::V, T2::V, T3::V)) -> bool {
        &&& self.0.spec_value_matches(m.0)
        &&& self.1.spec_value_matches(m.1)
        &&& self.2.spec_value_matches(m.2)
    }

    open spec fn spec_roundtrip_condition(&self) -> bool {
        &&& self.0.spec_roundtrip_condition()
        &&& self.1.spec_roundtrip_condition()
        &&& self.2.spec_roundtrip_condition()
    }

    fn serialize(&self) -> (r: Expression) {
        let mut exprs: Vec<Expression> = Vec::new();
        exprs.push(self.0.serialize());
        exprs.push(self.1.serialize());
        exprs.push(self.2.serialize());
        let r = Expression::list(exprs);
        proof {
            let c = r@.data->List_0;
            assert(c.len() == 3);
        }
        r
    }

    fn deserialize(exprs: &mut ExpressionIterator, source_text: &str) -> (r: Result<
        (T1, T2, T3),
        SerializationError,
    >) {
        let v1 = match decode_pos::<T1>(exprs, source_text, 3, 0) {
            Ok(v) => v,
            Err(e) => {
                return Err(e);
            },
        };
        let v2 = match decode_pos::<T2>(exprs, source_text, 3, 1) {
            Ok(v) => v,
            Err(e) => {
                return Err(e);
            },
        };
        let v3 = match decode_pos::<T3>(exprs, source_text, 3, 2) {
            Ok(v) => v,
            Err(e) => {
                return Err(e);
            },
        };
        Ok((v1, v2, v3))
    }

    proof fn lemma_roundtrip(&self, e: ExpressionView, src: Seq<char>) {
        let c = e.data->List_0;
        assert(spec_iter_items(e) == c);
        self.0.lemma_roundtrip(c[0], src);
        self.1.lemma_roundtrip(c[1], src);
        self.2.lemma_roundtrip(c[2], src);
    }
}


impl<T1: EasyConfig, T2: EasyConfig, T3: EasyConfig, T4: EasyConfig> EasyConfig for (T1, T2, T3, T4) {
    open spec fn spec_passthrough() -> bool {
        false
    }

    fn passthrough() -> bool {
        false
    }

    open spec fn spec_enc(&self, e: ExpressionView) -> bool {
        &&& e.comment is None
        &&& e.data matches ExpressionDataView::List(c, span)
        &&& span == (LexicalSpan { start: 0, end: 0 })
        &&& c.len() == 4
        &&& self.0.spec_enc(c[0])
        &&& self.1.spec_enc(c[1])
        &&& self.2.spec_enc(c[2])
        &&& self.3.spec_enc(c[3])
    }

    open spec fn spec_decoded(items: Seq<ExpressionView>, index: int, src: Seq<char>) -> Result<
        ((T1::V, T2::V, T3::V, T4::V), Seq<ExpressionView>, int),
        DecodeFailure,
    > {
        match spec_dec_pos::<T1>(items, index + 0, src) {
            Err(f) => Err(f),
            Ok(m1) => {
                match spec_dec_pos::<T2>(items, index + 1, src) {
                    Err(f) => Err(f),
                    Ok(m2) => {
                        match spec_dec_pos::<T3>(items, index + 2, src) {
                            Err(f) => Err(f),
                            Ok(m3) => {
                                match spec_dec_pos::<T4>(items, index + 3, src) {
                                    Err(f) => Err(f),
                                    Ok(m4) => Ok(((m1, m2, m3, m4), items, index + 4)),
                                }
                            },
                        }
                    },
                }
            },
        }
    }

    open spec fn spec_value_matches(&self, m: (T1::V, T2::V, T3::V, T4::V)) -> bool {
        &&& self.0.spec_value_matches(m.0)
        &&& self.1.spec_value_matches(m.1)
        &&& self.2.spec_value_matches(m.2)
        &&& self.3.spec_value_matches(m.3)
    }

    open spec fn spec_roundtrip_condition(&self) -> bool {
        &&& self.0.spec_roundtrip_condition()
        &&& self.1.spec_roundtrip_condition()
        &&& self.2.spec_roundtrip_condition()
        &&& self.3.spec_roundtrip_condition()
    }

    fn serialize(&self) -> (r: Expression) {
        let mut exprs: Vec<Expression> = Vec::new();
        exprs.push(self.0.serialize());
        exprs.push(self.1.serialize());
        exprs.push(self.2.serialize());
        exprs.push(self.3.serialize());
        let r = Expression::list(exprs);
        proof {
            let c = r@.data->List_0;
            assert(c.len() == 4);
        }
        r
    }

    fn deserialize(exprs: &mut ExpressionIterator, source_text: &str) -> (r: Result<
        (T1, T2, T3, T4),
        SerializationError,
    >) {
        let v1 = match decode_pos::<T1>(exprs, source_text, 4, 0) {
            Ok(v) => v,
            Err(e) => {
                return Err(e);
            },
        };
        let v2 = match decode_pos::<T2>(exprs, source_text, 4, 1) {
            Ok(v) => v,
            Err(e) => {
                return Err(e);
            },
        };
        let v3 = match decode_pos::<T3>(exprs, source_text, 4, 2) {
            Ok(v) => v,
            Err(e) => {
                return Err(e);
            },
        };
        let v4 = match decode_pos::<T4>(exprs, source_text, 4, 3) {
            Ok(v) => v,
            Err(e) => {
                return Err(e);
            },
        };
        Ok((v1, v2, v3, v4))
    }

    proof fn lemma_roundtrip(&self, e: ExpressionView, src: Seq<char>) {
        let c = e.data->List_0;
        assert(spec_iter_items(e) == c);
        self.0.lemma_roundtrip(c[0], src);
        self.1.lemma_roundtrip(c[1], src);
        self.2.lemma_roundtrip(c[2], src);
        self.3.lemma_roundtrip(c[3], src);
    }
}

impl<T1: EasyConfig, T2: EasyConfig, T3: EasyConfig, T4: EasyConfig, T5: EasyConfig> EasyConfig for (T1, T2, T3, T4, T5) {
    open spec fn spec_passthrough() -> bool {
        false
    }

    fn passthrough() -> bool {
        false
    }

    open spec fn spec_enc(&self, e: ExpressionView) -> bool {
        &&& e.comment is None
        &&& e.data matches ExpressionDataView::List(c, span)
        &&& span == (LexicalSpan { start: 0, end: 0 })
        &&& c.len() == 5
        &&& self.0.spec_enc(c[0])
        &&& self.1.spec_enc(c[1])
        &&& self.2.spec_enc(c[2])
        &&& self.3.spec_enc(c[3])
        &&& self.4.spec_enc(c[4])
    }

    open spec fn spec_decoded(items: Seq<ExpressionView>, index: int, src: Seq<char>) -> Result<
        ((T1::V, T2::V, T3::V, T4::V, T5::V), Seq<ExpressionView>, int),
        DecodeFailure,
    > {
        match spec_dec_pos::<T1>(items, index + 0, src) {
            Err(f) => Err(f),
            Ok(m1) => {
                match spec_dec_pos::<T2>(items, index + 1, src) {
                    Err(f) => Err(f),
                    Ok(m2) => {
                        match spec_dec_pos::<T3>(items, index + 2, src) {
                            Err(f) => Err(f),
                            Ok(m3) => {
                                match spec_dec_pos::<T4>(items, index + 3, src) {
                                    Err(f) => Err(f),
                                    Ok(m4) => {
                                        match spec_dec_pos::<T5>(items, index + 4, src) {
                                            Err(f) => Err(f),
                                            Ok(m5) => Ok(((m1, m2, m3, m4, m5), items, index + 5)),
                                        }
                                    },
                                }
                            },
                        }
                    },
                }
            },
        }
    }

    open spec fn spec_value_matches(&self, m: (T1::V, T2::V, T3::V, T4::V, T5::V)) -> bool {
        &&& self.0.spec_value_matches(m.0)
        &&& self.1.spec_value_matches(m.1)
        &&& self.2.spec_value_matches(m.2)
        &&& self.3.spec_value_matches(m.3)
        &&& self.4.spec_value_matches(m.4)
    }

    open spec fn spec_roundtrip_condition(&self) -> bool {
        &&& self.0.spec_roundtrip_condition()
        &&& self.1.spec_roundtrip_condition()
        &&& self.2.spec_roundtrip_condition()
        &&& self.3.spec_roundtrip_condition()
        &&& self.4.spec_roundtrip_condition()
    }

    fn serialize(&self) -> (r: Expression) {
        let mut exprs: Vec<Expression> = Vec::new();
        exprs.push(self.0.serialize());
        exprs.push(self.1.serialize());
        exprs.push(self.2.serialize());
        exprs.push(self.3.serialize());
        exprs.push(self.4.serialize());
        let r = Expression::list(exprs);
        proof {
            let c = r@.data->List_0;
            assert(c.len() == 5);
        }
        r
    }

    fn deserialize(exprs: &mut ExpressionIterator, source_text: &str) -> (r: Result<
        (T1, T2, T3, T4, T5),
        SerializationError,
    >) {
        let v1 = match decode_pos::<T1>(exprs, source_text, 5, 0) {
            Ok(v) => v,
            Err(e) => {
                return Err(e);
            },
        };
        let v2 = match decode_pos::<T2>(exprs, source_text, 5, 1) {
            Ok(v) => v,
            Err(e) => {
                return Err(e);
            },
        };
        let v3 = match decode_pos::<T3>(exprs, source_text, 5, 2) {
            Ok(v) => v,
            Err(e) => {
                return Err(e);
            },
        };
        let v4 = match decode_pos::<T4>(exprs, source_text, 5, 3) {
            Ok(v) => v,
            Err(e) => {
                return Err(e);
            },
        };
        let v5 = match decode_pos::<T5>(exprs, source_text, 5, 4) {
            Ok(v) => v,
            Err(e) => {
                return Err(e);
            },
        };
        Ok((v1, v2, v3, v4, v5))
    }

    proof fn lemma_roundtrip(&self, e: ExpressionView, src: Seq<char>) {
        let c = e.data->List_0;
        assert(spec_iter_items(e) == c);
        self.0.lemma_roundtrip(c[0], src);
        self.1.lemma_roundtrip(c[1], src);
        self.2.lemma_roundtrip(c[2], src);
        self.3.lemma_roundtrip(c[3], src);
        self.4.lemma_roundtrip(c[4], src);
    }
}

impl<T1: EasyConfig, T2: EasyConfig, T3: EasyConfig, T4: EasyConfig, T5: EasyConfig, T6: EasyConfig> EasyConfig for (T1, T2, T3, T4, T5, T6) {
    open spec fn spec_passthrough() -> bool {
        false
    }

    fn passthrough() -> bool {
        false
    }

    open spec fn spec_enc(&self, e: ExpressionView) -> bool {
        &&& e.comment is None
        &&& e.data matches ExpressionDataView::List(c, span)
        &&& span == (LexicalSpan { start: 0, end: 0 })
        &&& c.len() == 6
        &&& self.0.spec_enc(c[0])
        &&& self.1.spec_enc(c[1])
        &&& self.2.spec_enc(c[2])
        &&& self.3.spec_enc(c[3])
        &&& self.4.spec_enc(c[4])
        &&& self.5.spec_enc(c[5])
    }

    open spec fn spec_decoded(items: Seq<ExpressionView>, index: int, src: Seq<char>) -> Result<
        ((T1::V, T2::V, T3::V, T4::V, T5::V, T6::V), Seq<ExpressionView>, int),
        DecodeFailure,
    > {
        match spec_dec_pos::<T1>(items, index + 0, src) {
            Err(f) => Err(f),
            Ok(m1) => {
                match spec_dec_pos::<T2>(items, index + 1, src) {
                    Err(f) => Err(f),
                    Ok(m2) => {
                        match spec_dec_pos::<T3>(items, index + 2, src) {
                            Err(f) => Err(f),
                            Ok(m3) => {
                                match spec_dec_pos::<T4>(items, index + 3, src) {
                                    Err(f) => Err(f),
                                    Ok(m4) => {
                                        match spec_dec_pos::<T5>(items, index + 4, src) {
                                            Err(f) => Err(f),
                                            Ok(m5) => {
                                                match spec_dec_pos::<T6>(items, index + 5, src) {
                                                    Err(f) => Err(f),
                                                    Ok(m6) => Ok(((m1, m2, m3, m4, m5, m6), items, index + 6)),
                                                }
                                            },
                                        }
                                    },
                                }
                            },
                        }
                    },
                }
            },
        }
    }

    open spec fn spec_value_matches(&self, m: (T1::V, T2::V, T3::V, T4::V, T5::V, T6::V)) -> bool {
        &&& self.0.spec_value_matches(m.0)
        &&& self.1.spec_value_matches(m.1)
        &&& self.2.spec_value_matches(m.2)
        &&& self.3.spec_value_matches(m.3)
        &&& self.4.spec_value_matches(m.4)
        &&& self.5.spec_value_matches(m.5)
    }

    open spec fn spec_roundtrip_condition(&self) -> bool {
        &&& self.0.spec_roundtrip_condition()
        &&& self.1.spec_roundtrip_condition()
        &&& self.2.spec_roundtrip_condition()
        &&& self.3.spec_roundtrip_condition()
        &&& self.4.spec_roundtrip_condition()
        &&& self.5.spec_roundtrip_condition()
    }

    fn serialize(&self) -> (r: Expression) {
        let mut exprs: Vec<Expression> = Vec::new();
        exprs.push(self.0.serialize());
        exprs.push(self.1.serialize());
        exprs.push(self.2.serialize());
        exprs.push(self.3.serialize());
        exprs.push(self.4.serialize());
        exprs.push(self.5.serialize());
        let r = Expression::list(exprs);
        proof {
            let c = r@.data->List_0;
            assert(c.len() == 6);
        }
        r
    }

    fn deserialize(exprs: &mut ExpressionIterator, source_text: &str) -> (r: Result<
        (T1, T2, T3, T4, T5, T6),
        SerializationError,
    >) {
        let v1 = match decode_pos::<T1>(exprs, source_text, 6, 0) {
            Ok(v) => v,
            Err(e) => {
                return Err(e);
            },
        };
        let v2 = match decode_pos::<T2>(exprs, source_text, 6, 1) {
            Ok(v) => v,
            Err(e) => {
                return Err(e);
            },
        };
        let v3 = match decode_pos::<T3>(exprs, source_text, 6, 2) {
            Ok(v) => v,
            Err(e) => {
                return Err(e);
            },
        };
        let v4 = match decode_pos::<T4>(exprs, source_text, 6, 3) {
            Ok(v) => v,
            Err(e) => {
                return Err(e);
            },
        };
        let v5 = match decode_pos::<T5>(exprs, source_text, 6, 4) {
            Ok(v) => v,
            Err(e) => {
                return Err(e);
            },
        };
        let v6 = match decode_pos::<T6>(exprs, source_text, 6, 5) {
            Ok(v) => v,
            Err(e) => {
                return Err(e);
            },
        };
        Ok((v1, v2, v3, v4, v5, v6))
    }

    proof fn lemma_roundtrip(&self, e: ExpressionView, src: Seq<char>) {
        let c = e.data->List_0;
        assert(spec_iter_items(e) == c);
        self.0.lemma_roundtrip(c[0], src);
        self.1.lemma_roundtrip(c[1], src);
        self.2.lemma_roundtrip(c[2], src);
        self.3.lemma_roundtrip(c[3], src);
        self.4.lemma_roundtrip(c[4], src);
        self.5.lemma_roundtrip(c[5], src);
    }
}

impl<T1: EasyConfig, T2: EasyConfig, T3: EasyConfig, T4: EasyConfig, T5: EasyConfig, T6: EasyConfig, T7: EasyConfig> EasyConfig for (T1, T2, T3, T4, T5, T6, T7) {
    open spec fn spec_passthrough() -> bool {
        false
    }

    fn passthrough() -> bool {
        false
    }

    open spec fn spec_enc(&self, e: ExpressionView) -> bool {
        &&& e.comment is None
        &&& e.data matches ExpressionDataView::List(c, span)
        &&& span == (LexicalSpan { start: 0, end: 0 })
        &&& c.len() == 7
        &&& self.0.spec_enc(c[0])
        &&& self.1.spec_enc(c[1])
        &&& self.2.spec_enc(c[2])
        &&& self.3.spec_enc(c[3])
        &&& self.4.spec_enc(c[4])
        &&& self.5.spec_enc(c[5])
        &&& self.6.spec_enc(c[6])
    }

    open spec fn spec_decoded(items: Seq<ExpressionView>, index: int, src: Seq<char>) -> Result<
        ((T1::V, T2::V, T3::V, T4::V, T5::V, T6::V, T7::V), Seq<ExpressionView>, int),
        DecodeFailure,
    > {
        match spec_dec_pos::<T1>(items, index + 0, src) {
            Err(f) => Err(f),
            Ok(m1) => {
                match spec_dec_pos::<T2>(items, index + 1, src) {
                    Err(f) => Err(f),
                    Ok(m2) => {
                        match spec_dec_pos::<T3>(items, index + 2, src) {
                            Err(f) => Err(f),
                            Ok(m3) => {
                                match spec_dec_pos::<T4>(items, index + 3, src) {
                                    Err(f) => Err(f),
                                    Ok(m4) => {
                                        match spec_dec_pos::<T5>(items, index + 4, src) {
                                            Err(f) => Err(f),
                                            Ok(m5) => {
                                                match spec_dec_pos::<T6>(items, index + 5, src) {
                                                    Err(f) => Err(f),
                                                    Ok(m6) => {
                                                        match spec_dec_pos::<T7>(items, index + 6, src) {
                                                            Err(f) => Err(f),
                                                            Ok(m7) => Ok(((m1, m2, m3, m4, m5, m6, m7), items, index + 7)),
                                                        }
                                                    },
                                                }
                                            },
                                        }
                                    },
                                }
                            },
                        }
                    },
                }
            },
        }
    }

    open spec fn spec_value_matches(&self, m: (T1::V, T2::V, T3::V, T4::V, T5::V, T6::V, T7::V)) -> bool {
        &&& self.0.spec_value_matches(m.0)
        &&& self.1.spec_value_matches(m.1)
        &&& self.2.spec_value_matches(m.2)
        &&& self.3.spec_value_matches(m.3)
        &&& self.4.spec_value_matches(m.4)
        &&& self.5.spec_value_matches(m.5)
        &&& self.6.spec_value_matches(m.6)
    }

    open spec fn spec_roundtrip_condition(&self) -> bool {
        &&& self.0.spec_roundtrip_condition()
        &&& self.1.spec_roundtrip_condition()
        &&& self.2.spec_roundtrip_condition()
        &&& self.3.spec_roundtrip_condition()
        &&& self.4.spec_roundtrip_condition()
        &&& self.5.spec_roundtrip_condition()
        &&& self.6.spec_roundtrip_condition()
    }

    fn serialize(&self) -> (r: Expression) {
        let mut exprs: Vec<Expression> = Vec::new();
        exprs.push(self.0.serialize());
        exprs.push(self.1.serialize());
        exprs.push(self.2.serialize());
        exprs.push(self.3.serialize());
        exprs.push(self.4.serialize());
        exprs.push(self.5.serialize());
        exprs.push(self.6.serialize());
        let r = Expression::list(exprs);
        proof {
            let c = r@.data->List_0;
            assert(c.len() == 7);
        }
        r
    }

    fn deserialize(exprs: &mut ExpressionIterator, source_text: &str) -> (r: Result<
        (T1, T2, T3, T4, T5, T6, T7),
        SerializationError,
    >) {
        let v1 = match decode_pos::<T1>(exprs, source_text, 7, 0) {
            Ok(v) => v,
            Err(e) => {
                return Err(e);
            },
        };
        let v2 = match decode_pos::<T2>(exprs, source_text, 7, 1) {
            Ok(v) => v,
            Err(e) => {
                return Err(e);
            },
        };
        let v3 = match decode_pos::<T3>(exprs, source_text, 7, 2) {
            Ok(v) => v,
            Err(e) => {
                return Err(e);
            },
        };
        let v4 = match decode_pos::<T4>(exprs, source_text, 7, 3) {
            Ok(v) => v,
            Err(e) => {
                return Err(e);
            },
        };
        let v5 = match decode_pos::<T5>(exprs, source_text, 7, 4) {
            Ok(v) => v,
            Err(e) => {
                return Err(e);
            },
        };
        let v6 = match decode_pos::<T6>(exprs, source_text, 7, 5) {
            Ok(v) => v,
            Err(e) => {
                return Err(e);
            },
        };
        let v7 = match decode_pos::<T7>(exprs, source_text, 7, 6) {
            Ok(v) => v,
            Err(e) => {
                return Err(e);
            },
        };
        Ok((v1, v2, v3, v4, v5, v6, v7))
    }

    proof fn lemma_roundtrip(&self, e: ExpressionView, src: Seq<char>) {
        let c = e.data->List_0;
        assert(spec_iter_items(e) == c);
        self.0.lemma_roundtrip(c[0], src);
        self.1.lemma_roundtrip(c[1], src);
        self.2.lemma_roundtrip(c[2], src);
        self.3.lemma_roundtrip(c[3], src);
        self.4.lemma_roundtrip(c[4], src);
        self.5.lemma_roundtrip(c[5], src);
        self.6.lemma_roundtrip(c[6], src);
    }
}

impl<T1: EasyConfig, T2: EasyConfig, T3: EasyConfig, T4: EasyConfig, T5: EasyConfig, T6: EasyConfig, T7: EasyConfig, T8: EasyConfig> EasyConfig for (T1, T2, T3, T4, T5, T6, T7, T8) {
    open spec fn spec_passthrough() -> bool {
        false
    }

    fn passthrough() -> bool {
        false
    }

    open spec fn spec_enc(&self, e: ExpressionView) -> bool {
        &&& e.comment is None
        &&& e.data matches ExpressionDataView::List(c, span)
        &&& span == (LexicalSpan { start: 0, end: 0 })
        &&& c.len() == 8
        &&& self.0.spec_enc(c[0])
        &&& self.1.spec_enc(c[1])
        &&& self.2.spec_enc(c[2])
        &&& self.3.spec_enc(c[3])
        &&& self.4.spec_enc(c[4])
        &&& self.5.spec_enc(c[5])
        &&& self.6.spec_enc(c[6])
        &&& self.7.spec_enc(c[7])
    }

    open spec fn spec_decoded(items: Seq<ExpressionView>, index: int, src: Seq<char>) -> Result<
        ((T1::V, T2::V, T3::V, T4::V, T5::V, T6::V, T7::V, T8::V), Seq<ExpressionView>, int),
        DecodeFailure,
    > {
        match spec_dec_pos::<T1>(items, index + 0, src) {
            Err(f) => Err(f),
            Ok(m1) => {
                match spec_dec_pos::<T2>(items, index + 1, src) {
                    Err(f) => Err(f),
                    Ok(m2) => {
                        match spec_dec_pos::<T3>(items, index + 2, src) {
                            Err(f) => Err(f),
                            Ok(m3) => {
                                match spec_dec_pos::<T4>(items, index + 3, src) {
                                    Err(f) => Err(f),
                                    Ok(m4) => {
                                        match spec_dec_pos::<T5>(items, index + 4, src) {
                                            Err(f) => Err(f),
                                            Ok(m5) => {
                                                match spec_dec_pos::<T6>(items, index + 5, src) {
                                                    Err(f) => Err(f),
                                                    Ok(m6) => {
                                                        match spec_dec_pos::<T7>(items, index + 6, src) {
                                                            Err(f) => Err(f),
                                                            Ok(m7) => {
                                                                match spec_dec_pos::<T8>(items, index + 7, src) {
                                                                    Err(f) => Err(f),
                                                                    Ok(m8) => Ok(((m1, m2, m3, m4, m5, m6, m7, m8), items, index + 8)),
                                                                }
                                                            },
                                                        }
                                                    },
                                                }
                                            },
                                        }
                                    },
                                }
                            },
                        }
                    },
                }
            },
        }
    }

    open spec fn spec_value_matches(&self, m: (T1::V, T2::V, T3::V, T4::V, T5::V, T6::V, T7::V, T8::V)) -> bool {
        &&& self.0.spec_value_matches(m.0)
        &&& self.1.spec_value_matches(m.1)
        &&& self.2.spec_value_matches(m.2)
        &&& self.3.spec_value_matches(m.3)
        &&& self.4.spec_value_matches(m.4)
        &&& self.5.spec_value_matches(m.5)
        &&& self.6.spec_value_matches(m.6)
        &&& self.7.spec_value_matches(m.7)
    }

    open spec fn spec_roundtrip_condition(&self) -> bool {
        &&& self.0.spec_roundtrip_condition()
        &&& self.1.spec_roundtrip_condition()
        &&& self.2.spec_roundtrip_condition()
        &&& self.3.spec_roundtrip_condition()
        &&& self.4.spec_roundtrip_condition()
        &&& self.5.spec_roundtrip_condition()
        &&& self.6.spec_roundtrip_condition()
        &&& self.7.spec_roundtrip_condition()
    }

    fn serialize(&self) -> (r: Expression) {
        let mut exprs: Vec<Expression> = Vec::new();
        exprs.push(self.0.serialize());
        exprs.push(self.1.serialize());
        exprs.push(self.2.serialize());
        exprs.push(self.3.serialize());
        exprs.push(self.4.serialize());
        exprs.push(self.5.serialize());
        exprs.push(self.6.serialize());
        exprs.push(self.7.serialize());
        let r = Expression::list(exprs);
        proof {
            let c = r@.data->List_0;
            assert(c.len() == 8);
        }
        r
    }

    fn deserialize(exprs: &mut ExpressionIterator, source_text: &str) -> (r: Result<
        (T1, T2, T3, T4, T5, T6, T7, T8),
        SerializationError,
    >) {
        let v1 = match decode_pos::<T1>(exprs, source_text, 8, 0) {
            Ok(v) => v,
            Err(e) => {
                return Err(e);
            },
        };
        let v2 = match decode_pos::<T2>(exprs, source_text, 8, 1) {
            Ok(v) => v,
            Err(e) => {
                return Err(e);
            },
        };
        let v3 = match decode_pos::<T3>(exprs, source_text, 8, 2) {
            Ok(v) => v,
            Err(e) => {
                return Err(e);
            },
        };
        let v4 = match decode_pos::<T4>(exprs, source_text, 8, 3) {
            Ok(v) => v,
            Err(e) => {
                return Err(e);
            },
        };
        let v5 = match decode_pos::<T5>(exprs, source_text, 8, 4) {
            Ok(v) => v,
            Err(e) => {
                return Err(e);
            },
        };
        let v6 = match decode_pos::<T6>(exprs, source_text, 8, 5) {
            Ok(v) => v,
            Err(e) => {
                return Err(e);
            },
        };
        let v7 = match decode_pos::<T7>(exprs, source_text, 8, 6) {
            Ok(v) => v,
            Err(e) => {
                return Err(e);
            },
        };
        let v8 = match decode_pos::<T8>(exprs, source_text, 8, 7) {
            Ok(v) => v,
            Err(e) => {
                return Err(e);
            },
        };
        Ok((v1, v2, v3, v4, v5, v6, v7, v8))
    }

    proof fn lemma_roundtrip(&self, e: ExpressionView, src: Seq<char>) {
        let c = e.data->List_0;
        assert(spec_iter_items(e) == c);
        self.0.lemma_roundtrip(c[0], src);
        self.1.lemma_roundtrip(c[1], src);
        self.2.lemma_roundtrip(c[2], src);
        self.3.lemma_roundtrip(c[3], src);
        self.4.lemma_roundtrip(c[4], src);
        self.5.lemma_roundtrip(c[5], src);
        self.6.lemma_roundtrip(c[6], src);
        self.7.lemma_roundtrip(c[7], src);
    }
}



impl<T1: EasyConfig, T2: EasyConfig, T3: EasyConfig, T4: EasyConfig, T5: EasyConfig, T6: EasyConfig, T7: EasyConfig, T8: EasyConfig, T9: EasyConfig> EasyConfig for (T1, T2, T3, T4, T5, T6, T7, T8, T9) {
    open spec fn spec_passthrough() -> bool {
        false
    }

    fn passthrough() -> bool {
        false
    }

    open spec fn spec_enc(&self, e: ExpressionView) -> bool {
        &&& e.comment is None
        &&& e.data matches ExpressionDataView::List(c, span)
        &&& span == (LexicalSpan { start: 0, end: 0 })
        &&& c.len() == 9
        &&& self.0.spec_enc(c[0])
        &&& self.1.spec_enc(c[1])
        &&& self.2.spec_enc(c[2])
        &&& self.3.spec_enc(c[3])
        &&& self.4.spec_enc(c[4])
        &&& self.5.spec_enc(c[5])
        &&& self.6.spec_enc(c[6])
        &&& self.7.spec_enc(c[7])
        &&& self.8.spec_enc(c[8])
    }

    open spec fn spec_decoded(items: Seq<ExpressionView>, index: int, src: Seq<char>) -> Result<
        ((T1::V, T2::V, T3::V, T4::V, T5::V, T6::V, T7::V, T8::V, T9::V), Seq<ExpressionView>, int),
        DecodeFailure,
    > {
        match spec_dec_pos::<T1>(items, index + 0, src) {
            Err(f) => Err(f),
            Ok(m1) => {
                match spec_dec_pos::<T2>(items, index + 1, src) {
                    Err(f) => Err(f),
                    Ok(m2) => {
                        match spec_dec_pos::<T3>(items, index + 2, src) {
                            Err(f) => Err(f),
                            Ok(m3) => {
                                match spec_dec_pos::<T4>(items, index + 3, src) {
                                    Err(f) => Err(f),
                                    Ok(m4) => {
                                        match spec_dec_pos::<T5>(items, index + 4, src) {
                                            Err(f) => Err(f),
                                            Ok(m5) => {
                                                match spec_dec_pos::<T6>(items, index + 5, src) {
                                                    Err(f) => Err(f),
                                                    Ok(m6) => {
                                                        match spec_dec_pos::<T7>(items, index + 6, src) {
                                                            Err(f) => Err(f),
                                                            Ok(m7) => {
                                                                match spec_dec_pos::<T8>(items, index + 7, src) {
                                                                    Err(f) => Err(f),
                                                                    Ok(m8) => {
                                                                        match spec_dec_pos::<T9>(items, index + 8, src) {
                                                                            Err(f) => Err(f),
                                                                            Ok(m9) => Ok(((m1, m2, m3, m4, m5, m6, m7, m8, m9), items, index + 9)),
                                                                        }
                                                                    },
                                                                }
                                                            },
                                                        }
                                                    },
                                                }
                                            },
                                        }
                                    },
                                }
                            },
                        }
                    },
                }
            },
        }
    }

    open spec fn spec_value_matches(&self, m: (T1::V, T2::V, T3::V, T4::V, T5::V, T6::V, T7::V, T8::V, T9::V)) -> bool {
        &&& self.0.spec_value_matches(m.0)
        &&& self.1.spec_value_matches(m.1)
        &&& self.2.spec_value_matches(m.2)
        &&& self.3.spec_value_matches(m.3)
        &&& self.4.spec_value_matches(m.4)
        &&& self.5.spec_value_matches(m.5)
        &&& self.6.spec_value_matches(m.6)
        &&& self.7.spec_value_matches(m.7)
        &&& self.8.spec_value_matches(m.8)
    }

    open spec fn spec_roundtrip_condition(&self) -> bool {
        &&& self.0.spec_roundtrip_condition()
        &&& self.1.spec_roundtrip_condition()
        &&& self.2.spec_roundtrip_condition()
        &&& self.3.spec_roundtrip_condition()
        &&& self.4.spec_roundtrip_condition()
        &&& self.5.spec_roundtrip_condition()
        &&& self.6.spec_roundtrip_condition()
        &&& self.7.spec_roundtrip_condition()
        &&& self.8.spec_roundtrip_condition()
    }

    fn serialize(&self) -> (r: Expression) {
        let mut exprs: Vec<Expression> = Vec::new();
        exprs.push(self.0.serialize());
        exprs.push(self.1.serialize());
        exprs.push(self.2.serialize());
        exprs.push(self.3.serialize());
        exprs.push(self.4.serialize());
        exprs.push(self.5.serialize());
        exprs.push(self.6.serialize());
        exprs.push(self.7.serialize());
        exprs.push(self.8.serialize());
        let r = Expression::list(exprs);
        proof {
            let c = r@.data->List_0;
            assert(c.len() == 9);
        }
        r
    }

    fn deserialize(exprs: &mut ExpressionIterator, source_text: &str) -> (r: Result<
        (T1, T2, T3, T4, T5, T6, T7, T8, T9),
        SerializationError,
    >) {
        let v1 = match decode_pos::<T1>(exprs, source_text, 9, 0) {
            Ok(v) => v,
            Err(e) => {
                return Err(e);
            },
        };
        let v2 = match decode_pos::<T2>(exprs, source_text, 9, 1) {
            Ok(v) => v,
            Err(e) => {
                return Err(e);
            },
        };
        let v3 = match decode_pos::<T3>(exprs, source_text, 9, 2) {
            Ok(v) => v,
            Err(e) => {
                return Err(e);
            },
        };
        let v4 = match decode_pos::<T4>(exprs, source_text, 9, 3) {
            Ok(v) => v,
            Err(e) => {
                return Err(e);
            },
        };
        let v5 = match decode_pos::<T5>(exprs, source_text, 9, 4) {
            Ok(v) => v,
            Err(e) => {
                return Err(e);
            },
        };
        let v6 = match decode_pos::<T6>(exprs, source_text, 9, 5) {
            Ok(v) => v,
            Err(e) => {
                return Err(e);
            },
        };
        let v7 = match decode_pos::<T7>(exprs, source_text, 9, 6) {
            Ok(v) => v,
            Err(e) => {
                return Err(e);
            },
        };
        let v8 = match decode_pos::<T8>(exprs, source_text, 9, 7) {
            Ok(v) => v,
            Err(e) => {
                return Err(e);
            },
        };
        let v9 = match decode_pos::<T9>(exprs, source_text, 9, 8) {
            Ok(v) => v,
            Err(e) => {
                return Err(e);
            },
        };
        Ok((v1, v2, v3, v4, v5, v6, v7, v8, v9))
    }

    proof fn lemma_roundtrip(&self, e: ExpressionView, src: Seq<char>) {
        let c = e.data->List_0;
        assert(spec_iter_items(e) == c);
        self.0.lemma_roundtrip(c[0], src);
        self.1.lemma_roundtrip(c[1], src);
        self.2.lemma_roundtrip(c[2], src);
        self.3.lemma_roundtrip(c[3], src);
        self.4.lemma_roundtrip(c[4], src);
        self.5.lemma_roundtrip(c[5], src);
        self.6.lemma_roundtrip(c[6], src);
        self.7.lemma_roundtrip(c[7], src);
        self.8.lemma_roundtrip(c[8], src);
    }
}

impl<T1: EasyConfig, T2: EasyConfig, T3: EasyConfig, T4: EasyConfig, T5: EasyConfig, T6: EasyConfig, T7: EasyConfig, T8: EasyConfig, T9: EasyConfig, T10: EasyConfig> EasyConfig for (T1, T2, T3, T4, T5, T6, T7, T8, T9, T10) {
    open spec fn spec_passthrough() -> bool {
        false
    }

    fn passthrough() -> bool {
        false
    }

    open spec fn spec_enc(&self, e: ExpressionView) -> bool {
        &&& e.comment is None
        &&& e.data matches ExpressionDataView::List(c, span)
        &&& span == (LexicalSpan { start: 0, end: 0 })
        &&& c.len() == 10
        &&& self.0.spec_enc(c[0])
        &&& self.1.spec_enc(c[1])
        &&& self.2.spec_enc(c[2])
        &&& self.3.spec_enc(c[3])
        &&& self.4.spec_enc(c[4])
        &&& self.5.spec_enc(c[5])
        &&& self.6.spec_enc(c[6])
        &&& self.7.spec_enc(c[7])
        &&& self.8.spec_enc(c[8])
        &&& self.9.spec_enc(c[9])
    }

    open spec fn spec_decoded(items: Seq<ExpressionView>, index: int, src: Seq<char>) -> Result<
        ((T1::V, T2::V, T3::V, T4::V, T5::V, T6::V, T7::V, T8::V, T9::V, T10::V), Seq<ExpressionView>, int),
        DecodeFailure,
    > {
        match spec_dec_pos::<T1>(items, index + 0, src) {
            Err(f) => Err(f),
            Ok(m1) => {
                match spec_dec_pos::<T2>(items, index + 1, src) {
                    Err(f) => Err(f),
                    Ok(m2) => {
                        match spec_dec_pos::<T3>(items, index + 2, src) {
                            Err(f) => Err(f),
                            Ok(m3) => {
                                match spec_dec_pos::<T4>(items, index + 3, src) {
                                    Err(f) => Err(f),
                                    Ok(m4) => {
                                        match spec_dec_pos::<T5>(items, index + 4, src) {
                                            Err(f) => Err(f),
                                            Ok(m5) => {
                                                match spec_dec_pos::<T6>(items, index + 5, src) {
                                                    Err(f) => Err(f),
                                                    Ok(m6) => {
                                                        match spec_dec_pos::<T7>(items, index + 6, src) {
                                                            Err(f) => Err(f),
                                                            Ok(m7) => {
                                                                match spec_dec_pos::<T8>(items, index + 7, src) {
                                                                    Err(f) => Err(f),
                                                                    Ok(m8) => {
                                                                        match spec_dec_pos::<T9>(items, index + 8, src) {
                                                                            Err(f) => Err(f),
                                                                            Ok(m9) => {
                                                                                match spec_dec_pos::<T10>(items, index + 9, src) {
                                                                                    Err(f) => Err(f),
                                                                                    Ok(m10) => Ok(((m1, m2, m3, m4, m5, m6, m7, m8, m9, m10), items, index + 10)),
                                                                                }
                                                                            },
                                                                        }
                                                                    },
                                                                }
                                                            },
                                                        }
                                                    },
                                                }
                                            },
                                        }
                                    },
                                }
                            },
                        }
                    },
                }
            },
        }
    }

    open spec fn spec_value_matches(&self, m: (T1::V, T2::V, T3::V, T4::V, T5::V, T6::V, T7::V, T8::V, T9::V, T10::V)) -> bool {
        &&& self.0.spec_value_matches(m.0)
        &&& self.1.spec_value_matches(m.1)
        &&& self.2.spec_value_matches(m.2)
        &&& self.3.spec_value_matches(m.3)
        &&& self.4.spec_value_matches(m.4)
        &&& self.5.spec_value_matches(m.5)
        &&& self.6.spec_value_matches(m.6)
        &&& self.7.spec_value_matches(m.7)
        &&& self.8.spec_value_matches(m.8)
        &&& self.9.spec_value_matches(m.9)
    }

    open spec fn spec_roundtrip_condition(&self) -> bool {
        &&& self.0.spec_roundtrip_condition()
        &&& self.1.spec_roundtrip_condition()
        &&& self.2.spec_roundtrip_condition()
        &&& self.3.spec_roundtrip_condition()
        &&& self.4.spec_roundtrip_condition()
        &&& self.5.spec_roundtrip_condition()
        &&& self.6.spec_roundtrip_condition()
        &&& self.7.spec_roundtrip_condition()
        &&& self.8.spec_roundtrip_condition()
        &&& self.9.spec_roundtrip_condition()
    }

    fn serialize(&self) -> (r: Expression) {
        let mut exprs: Vec<Expression> = Vec::new();
        exprs.push(self.0.serialize());
        exprs.push(self.1.serialize());
        exprs.push(self.2.serialize());
        exprs.push(self.3.serialize());
        exprs.push(self.4.serialize());
        exprs.push(self.5.serialize());
        exprs.push(self.6.serialize());
        exprs.push(self.7.serialize());
        exprs.push(self.8.serialize());
        exprs.push(self.9.serialize());
        let r = Expression::list(exprs);
        proof {
            let c = r@.data->List_0;
            assert(c.len() == 10);
        }
        r
    }

    fn deserialize(exprs: &mut ExpressionIterator, source_text: &str) -> (r: Result<
        (T1, T2, T3, T4, T5, T6, T7, T8, T9, T10),
        SerializationError,
    >) {
        let v1 = match decode_pos::<T1>(exprs, source_text, 10, 0) {
            Ok(v) => v,
            Err(e) => {
                return Err(e);
            },
        };
        let v2 = match decode_pos::<T2>(exprs, source_text, 10, 1) {
            Ok(v) => v,
            Err(e) => {
                return Err(e);
            },
        };
        let v3 = match decode_pos::<T3>(exprs, source_text, 10, 2) {
            Ok(v) => v,
            Err(e) => {
                return Err(e);
            },
        };
        let v4 = match decode_pos::<T4>(exprs, source_text, 10, 3) {
            Ok(v) => v,
            Err(e) => {
                return Err(e);
            },
        };
        let v5 = match decode_pos::<T5>(exprs, source_text, 10, 4) {
            Ok(v) => v,
            Err(e) => {
                return Err(e);
            },
        };
        let v6 = match decode_pos::<T6>(exprs, source_text, 10, 5) {
            Ok(v) => v,
            Err(e) => {
                return Err(e);
            },
        };
        let v7 = match decode_pos::<T7>(exprs, source_text, 10, 6) {
            Ok(v) => v,
            Err(e) => {
                return Err(e);
            },
        };
        let v8 = match decode_pos::<T8>(exprs, source_text, 10, 7) {
            Ok(v) => v,
            Err(e) => {
                return Err(e);
            },
        };
        let v9 = match decode_pos::<T9>(exprs, source_text, 10, 8) {
            Ok(v) => v,
            Err(e) => {
                return Err(e);
            },
        };
        let v10 = match decode_pos::<T10>(exprs, source_text, 10, 9) {
            Ok(v) => v,
            Err(e) => {
                return Err(e);
            },
        };
        Ok((v1, v2, v3, v4, v5, v6, v7, v8, v9, v10))
    }

    proof fn lemma_roundtrip(&self, e: ExpressionView, src: Seq<char>) {
        let c = e.data->List_0;
        assert(spec_iter_items(e) == c);
        self.0.lemma_roundtrip(c[0], src);
        self.1.lemma_roundtrip(c[1], src);
        self.2.lemma_roundtrip(c[2], src);
        self.3.lemma_roundtrip(c[3], src);
        self.4.lemma_roundtrip(c[4], src);
        self.5.lemma_roundtrip(c[5], src);
        self.6.lemma_roundtrip(c[6], src);
        self.7.lemma_roundtrip(c[7], src);
        self.8.lemma_roundtrip(c[8], src);
        self.9.lemma_roundtrip(c[9], src);
    }
}

impl<T1: EasyConfig, T2: EasyConfig, T3: EasyConfig, T4: EasyConfig, T5: EasyConfig, T6: EasyConfig, T7: EasyConfig, T8: EasyConfig, T9: EasyConfig, T10: EasyConfig, T11: EasyConfig> EasyConfig for (T1, T2, T3, T4, T5, T6, T7, T8, T9, T10, T11) {
    open spec fn spec_passthrough() -> bool {
        false
    }

    fn passthrough() -> bool {
        false
    }

    open spec fn spec_enc(&self, e: ExpressionView) -> bool {
        &&& e.comment is None
        &&& e.data matches ExpressionDataView::List(c, span)
        &&& span == (LexicalSpan { start: 0, end: 0 })
        &&& c.len() == 11
        &&& self.0.spec_enc(c[0])
        &&& self.1.spec_enc(c[1])
        &&& self.2.spec_enc(c[2])
        &&& self.3.spec_enc(c[3])
        &&& self.4.spec_enc(c[4])
        &&& self.5.spec_enc(c[5])
        &&& self.6.spec_enc(c[6])
        &&& self.7.spec_enc(c[7])
        &&& self.8.spec_enc(c[8])
        &&& self.9.spec_enc(c[9])
        &&& self.10.spec_enc(c[10])
    }

    open spec fn spec_decoded(items: Seq<ExpressionView>, index: int, src: Seq<char>) -> Result<
        ((T1::V, T2::V, T3::V, T4::V, T5::V, T6::V, T7::V, T8::V, T9::V, T10::V, T11::V), Seq<ExpressionView>, int),
        DecodeFailure,
    > {
        match spec_dec_pos::<T1>(items, index + 0, src) {
            Err(f) => Err(f),
            Ok(m1) => {
                match spec_dec_pos::<T2>(items, index + 1, src) {
                    Err(f) => Err(f),
                    Ok(m2) => {
                        match spec_dec_pos::<T3>(items, index + 2, src) {
                            Err(f) => Err(f),
                            Ok(m3) => {
                                match spec_dec_pos::<T4>(items, index + 3, src) {
                                    Err(f) => Err(f),
                                    Ok(m4) => {
                                        match spec_dec_pos::<T5>(items, index + 4, src) {
                                            Err(f) => Err(f),
                                            Ok(m5) => {
                                                match spec_dec_pos::<T6>(items, index + 5, src) {
                                                    Err(f) => Err(f),
                                                    Ok(m6) => {
                                                        match spec_dec_pos::<T7>(items, index + 6, src) {
                                                            Err(f) => Err(f),
                                                            Ok(m7) => {
                                                                match spec_dec_pos::<T8>(items, index + 7, src) {
                                                                    Err(f) => Err(f),
                                                                    Ok(m8) => {
                                                                        match spec_dec_pos::<T9>(items, index + 8, src) {
                                                                            Err(f) => Err(f),
                                                                            Ok(m9) => {
                                                                                match spec_dec_pos::<T10>(items, index + 9, src) {
                                                                                    Err(f) => Err(f),
                                                                                    Ok(m10) => {
                                                                                        match spec_dec_pos::<T11>(items, index + 10, src) {
                                                                                            Err(f) => Err(f),
                                                                                            Ok(m11) => Ok(((m1, m2, m3, m4, m5, m6, m7, m8, m9, m10, m11), items, index + 11)),
                                                                                        }
                                                                                    },
                                                                                }
                                                                            },
                                                                        }
                                                                    },
                                                                }
                                                            },
                                                        }
                                                    },
                                                }
                                            },
                                        }
                                    },
                                }
                            },
                        }
                    },
                }
            },
        }
    }

    open spec fn spec_value_matches(&self, m: (T1::V, T2::V, T3::V, T4::V, T5::V, T6::V, T7::V, T8::V, T9::V, T10::V, T11::V)) -> bool {
        &&& self.0.spec_value_matches(m.0)
        &&& self.1.spec_value_matches(m.1)
        &&& self.2.spec_value_matches(m.2)
        &&& self.3.spec_value_matches(m.3)
        &&& self.4.spec_value_matches(m.4)
        &&& self.5.spec_value_matches(m.5)
        &&& self.6.spec_value_matches(m.6)
        &&& self.7.spec_value_matches(m.7)
        &&& self.8.spec_value_matches(m.8)
        &&& self.9.spec_value_matches(m.9)
        &&& self.10.spec_value_matches(m.10)
    }

    open spec fn spec_roundtrip_condition(&self) -> bool {
        &&& self.0.spec_roundtrip_condition()
        &&& self.1.spec_roundtrip_condition()
        &&& self.2.spec_roundtrip_condition()
        &&& self.3.spec_roundtrip_condition()
        &&& self.4.spec_roundtrip_condition()
        &&& self.5.spec_roundtrip_condition()
        &&& self.6.spec_roundtrip_condition()
        &&& self.7.spec_roundtrip_condition()
        &&& self.8.spec_roundtrip_condition()
        &&& self.9.spec_roundtrip_condition()
        &&& self.10.spec_roundtrip_condition()
    }

    fn serialize(&self) -> (r: Expression) {
        let mut exprs: Vec<Expression> = Vec::new();
        exprs.push(self.0.serialize());
        exprs.push(self.1.serialize());
        exprs.push(self.2.serialize());
        exprs.push(self.3.serialize());
        exprs.push(self.4.serialize());
        exprs.push(self.5.serialize());
        exprs.push(self.6.serialize());
        exprs.push(self.7.serialize());
        exprs.push(self.8.serialize());
        exprs.push(self.9.serialize());
        exprs.push(self.10.serialize());
        let r = Expression::list(exprs);
        proof {
            let c = r@.data->List_0;
            assert(c.len() == 11);
        }
        r
    }

    fn deserialize(exprs: &mut ExpressionIterator, source_text: &str) -> (r: Result<
        (T1, T2, T3, T4, T5, T6, T7, T8, T9, T10, T11),
        SerializationError,
    >) {
        let v1 = match decode_pos::<T1>(exprs, source_text, 11, 0) {
            Ok(v) => v,
            Err(e) => {
                return Err(e);
            },
        };
        let v2 = match decode_pos::<T2>(exprs, source_text, 11, 1) {
            Ok(v) => v,
            Err(e) => {
                return Err(e);
            },
        };
        let v3 = match decode_pos::<T3>(exprs, source_text, 11, 2) {
            Ok(v) => v,
            Err(e) => {
                return Err(e);
            },
        };
        let v4 = match decode_pos::<T4>(exprs, source_text, 11, 3) {
            Ok(v) => v,
            Err(e) => {
                return Err(e);
            },
        };
        let v5 = match decode_pos::<T5>(exprs, source_text, 11, 4) {
            Ok(v) => v,
            Err(e) => {
                return Err(e);
            },
        };
        let v6 = match decode_pos::<T6>(exprs, source_text, 11, 5) {
            Ok(v) => v,
            Err(e) => {
                return Err(e);
            },
        };
        let v7 = match decode_pos::<T7>(exprs, source_text, 11, 6) {
            Ok(v) => v,
            Err(e) => {
                return Err(e);
            },
        };
        let v8 = match decode_pos::<T8>(exprs, source_text, 11, 7) {
            Ok(v) => v,
            Err(e) => {
                return Err(e);
            },
        };
        let v9 = match decode_pos::<T9>(exprs, source_text, 11, 8) {
            Ok(v) => v,
            Err(e) => {
                return Err(e);
            },
        };
        let v10 = match decode_pos::<T10>(exprs, source_text, 11, 9) {
            Ok(v) => v,
            Err(e) => {
                return Err(e);
            },
        };
        let v11 = match decode_pos::<T11>(exprs, source_text, 11, 10) {
            Ok(v) => v,
            Err(e) => {
                return Err(e);
            },
        };
        Ok((v1, v2, v3, v4, v5, v6, v7, v8, v9, v10, v11))
    }

    proof fn lemma_roundtrip(&self, e: ExpressionView, src: Seq<char>) {
        let c = e.data->List_0;
        assert(spec_iter_items(e) == c);
        self.0.lemma_roundtrip(c[0], src);
        self.1.lemma_roundtrip(c[1], src);
        self.2.lemma_roundtrip(c[2], src);
        self.3.lemma_roundtrip(c[3], src);
        self.4.lemma_roundtrip(c[4], src);
        self.5.lemma_roundtrip(c[5], src);
        self.6.lemma_roundtrip(c[6], src);
        self.7.lemma_roundtrip(c[7], src);
        self.8.lemma_roundtrip(c[8], src);
        self.9.lemma_roundtrip(c[9], src);
        self.10.lemma_roundtrip(c[10], src);
    }
}

impl<T1: EasyConfig, T2: EasyConfig, T3: EasyConfig, T4: EasyConfig, T5: EasyConfig, T6: EasyConfig, T7: EasyConfig, T8: EasyConfig, T9: EasyConfig, T10: EasyConfig, T11: EasyConfig, T12: EasyConfig> EasyConfig for (T1, T2, T3, T4, T5, T6, T7, T8, T9, T10, T11, T12) {
    open spec fn spec_passthrough() -> bool {
        false
    }

    fn passthrough() -> bool {
        false
    }

    open spec fn spec_enc(&self, e: ExpressionView) -> bool {
        &&& e.comment is None
        &&& e.data matches ExpressionDataView::List(c, span)
        &&& span == (LexicalSpan { start: 0, end: 0 })
        &&& c.len() == 12
        &&& self.0.spec_enc(c[0])
        &&& self.1.spec_enc(c[1])
        &&& self.2.spec_enc(c[2])
        &&& self.3.spec_enc(c[3])
        &&& self.4.spec_enc(c[4])
        &&& self.5.spec_enc(c[5])
        &&& self.6.spec_enc(c[6])
        &&& self.7.spec_enc(c[7])
        &&& self.8.spec_enc(c[8])
        &&& self.9.spec_enc(c[9])
        &&& self.10.spec_enc(c[10])
        &&& self.11.spec_enc(c[11])
    }

    open spec fn spec_decoded(items: Seq<ExpressionView>, index: int, src: Seq<char>) -> Result<
        ((T1::V, T2::V, T3::V, T4::V, T5::V, T6::V, T7::V, T8::V, T9::V, T10::V, T11::V, T12::V), Seq<ExpressionView>, int),
        DecodeFailure,
    > {
        match spec_dec_pos::<T1>(items, index + 0, src) {
            Err(f) => Err(f),
            Ok(m1) => {
                match spec_dec_pos::<T2>(items, index + 1, src) {
                    Err(f) => Err(f),
                    Ok(m2) => {
                        match spec_dec_pos::<T3>(items, index + 2, src) {
                            Err(f) => Err(f),
                            Ok(m3) => {
                                match spec_dec_pos::<T4>(items, index + 3, src) {
                                    Err(f) => Err(f),
                                    Ok(m4) => {
                                        match spec_dec_pos::<T5>(items, index + 4, src) {
                                            Err(f) => Err(f),
                                            Ok(m5) => {
                                                match spec_dec_pos::<T6>(items, index + 5, src) {
                                                    Err(f) => Err(f),
                                                    Ok(m6) => {
                                                        match spec_dec_pos::<T7>(items, index + 6, src) {
                                                            Err(f) => Err(f),
                                                            Ok(m7) => {
                                                                match spec_dec_pos::<T8>(items, index + 7, src) {
                                                                    Err(f) => Err(f),
                                                                    Ok(m8) => {
                                                                        match spec_dec_pos::<T9>(items, index + 8, src) {
                                                                            Err(f) => Err(f),
                                                                            Ok(m9) => {
                                                                                match spec_dec_pos::<T10>(items, index + 9, src) {
                                                                                    Err(f) => Err(f),
                                                                                    Ok(m10) => {
                                                                                        match spec_dec_pos::<T11>(items, index + 10, src) {
                                                                                            Err(f) => Err(f),
                                                                                            Ok(m11) => {
                                                                                                match spec_dec_pos::<T12>(items, index + 11, src) {
                                                                                                    Err(f) => Err(f),
                                                                                                    Ok(m12) => Ok(((m1, m2, m3, m4, m5, m6, m7, m8, m9, m10, m11, m12), items, index + 12)),
                                                                                                }
                                                                                            },
                                                                                        }
                                                                                    },
                                                                                }
                                                                            },
                                                                        }
                                                                    },
                                                                }
                                                            },
                                                        }
                                                    },
                                                }
                                            },
                                        }
                                    },
                                }
                            },
                        }
                    },
                }
            },
        }
    }

    open spec fn spec_value_matches(&self, m: (T1::V, T2::V, T3::V, T4::V, T5::V, T6::V, T7::V, T8::V, T9::V, T10::V, T11::V, T12::V)) -> bool {
        &&& self.0.spec_value_matches(m.0)
        &&& self.1.spec_value_matches(m.1)
        &&& self.2.spec_value_matches(m.2)
        &&& self.3.spec_value_matches(m.3)
        &&& self.4.spec_value_matches(m.4)
        &&& self.5.spec_value_matches(m.5)
        &&& self.6.spec_value_matches(m.6)
        &&& self.7.spec_value_matches(m.7)
        &&& self.8.spec_value_matches(m.8)
        &&& self.9.spec_value_matches(m.9)
        &&& self.10.spec_value_matches(m.10)
        &&& self.11.spec_value_matches(m.11)
    }

    open spec fn spec_roundtrip_condition(&self) -> bool {
        &&& self.0.spec_roundtrip_condition()
        &&& self.1.spec_roundtrip_condition()
        &&& self.2.spec_roundtrip_condition()
        &&& self.3.spec_roundtrip_condition()
        &&& self.4.spec_roundtrip_condition()
        &&& self.5.spec_roundtrip_condition()
        &&& self.6.spec_roundtrip_condition()
        &&& self.7.spec_roundtrip_condition()
        &&& self.8.spec_roundtrip_condition()
        &&& self.9.spec_roundtrip_condition()
        &&& self.10.spec_roundtrip_condition()
        &&& self.11.spec_roundtrip_condition()
    }

    fn serialize(&self) -> (r: Expression) {
        let mut exprs: Vec<Expression> = Vec::new();
        exprs.push(self.0.serialize());
        exprs.push(self.1.serialize());
        exprs.push(self.2.serialize());
        exprs.push(self.3.serialize());
        exprs.push(self.4.serialize());
        exprs.push(self.5.serialize());
        exprs.push(self.6.serialize());
        exprs.push(self.7.serialize());
        exprs.push(self.8.serialize());
        exprs.push(self.9.serialize());
        exprs.push(self.10.serialize());
        exprs.push(self.11.serialize());
        let r = Expression::list(exprs);
        proof {
            let c = r@.data->List_0;
            assert(c.len() == 12);
        }
        r
    }

    fn deserialize(exprs: &mut ExpressionIterator, source_text: &str) -> (r: Result<
        (T1, T2, T3, T4, T5, T6, T7, T8, T9, T10, T11, T12),
        SerializationError,
    >) {
        let v1 = match decode_pos::<T1>(exprs, source_text, 12, 0) {
            Ok(v) => v,
            Err(e) => {
                return Err(e);
            },
        };
        let v2 = match decode_pos::<T2>(exprs, source_text, 12, 1) {
            Ok(v) => v,
            Err(e) => {
                return Err(e);
            },
        };
        let v3 = match decode_pos::<T3>(exprs, source_text, 12, 2) {
            Ok(v) => v,
            Err(e) => {
                return Err(e);
            },
        };
        let v4 = match decode_pos::<T4>(exprs, source_text, 12, 3) {
            Ok(v) => v,
            Err(e) => {
                return Err(e);
            },
        };
        let v5 = match decode_pos::<T5>(exprs, source_text, 12, 4) {
            Ok(v) => v,
            Err(e) => {
                return Err(e);
            },
        };
        let v6 = match decode_pos::<T6>(exprs, source_text, 12, 5) {
            Ok(v) => v,
            Err(e) => {
                return Err(e);
            },
        };
        let v7 = match decode_pos::<T7>(exprs, source_text, 12, 6) {
            Ok(v) => v,
            Err(e) => {
                return Err(e);
            },
        };
        let v8 = match decode_pos::<T8>(exprs, source_text, 12, 7) {
            Ok(v) => v,
            Err(e) => {
                return Err(e);
            },
        };
        let v9 = match decode_pos::<T9>(exprs, source_text, 12, 8) {
            Ok(v) => v,
            Err(e) => {
                return Err(e);
            },
        };
        let v10 = match decode_pos::<T10>(exprs, source_text, 12, 9) {
            Ok(v) => v,
            Err(e) => {
                return Err(e);
            },
        };
        let v11 = match decode_pos::<T11>(exprs, source_text, 12, 10) {
            Ok(v) => v,
            Err(e) => {
                return Err(e);
            },
        };
        let v12 = match decode_pos::<T12>(exprs, source_text, 12, 11) {
            Ok(v) => v,
            Err(e) => {
                return Err(e);
            },
        };
        Ok((v1, v2, v3, v4, v5, v6, v7, v8, v9, v10, v11, v12))
    }

    proof fn lemma_roundtrip(&self, e: ExpressionView, src: Seq<char>) {
        let c = e.data->List_0;
        assert(spec_iter_items(e) == c);
        self.0.lemma_roundtrip(c[0], src);
        self.1.lemma_roundtrip(c[1], src);
        self.2.lemma_roundtrip(c[2], src);
        self.3.lemma_roundtrip(c[3], src);
        self.4.lemma_roundtrip(c[4], src);
        self.5.lemma_roundtrip(c[5], src);
        self.6.lemma_roundtrip(c[6], src);
        self.7.lemma_roundtrip(c[7], src);
        self.8.lemma_roundtrip(c[8], src);
        self.9.lemma_roundtrip(c[9], src);
        self.10.lemma_roundtrip(c[10], src);
        self.11.lemma_roundtrip(c[11], src);
    }
}

} // verus!
