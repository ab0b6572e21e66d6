//! Built-in encodings for the scalar types: integers, booleans,
//! characters and strings.

use vstd::prelude::*;
use crate::expression::{
    escape, spec_atom_text, spec_escape, spec_minimized, spec_unescape, unescape, Atom,
    AtomView, Expression, ExpressionData, ExpressionDataView, ExpressionView,
};
use crate::expression_iterator::{spec_iter_items, ExpressionIterator};
use crate::lexical_span::LexicalSpan;
use crate::expression::spec_dump;
use crate::lexer::spec_lex;
use crate::numfmt::{
    fmt_i128, fmt_u128, lemma_fmt_nat_digits, lemma_parse_fmt_int, lemma_parse_fmt_nat,
    parse_i128_in, parse_u128_in, spec_fmt_int, spec_fmt_nat, spec_is_digit, spec_parse_int_in,
    spec_parse_nat_in,
};
use crate::parser::spec_parse_doc;
use crate::serialization::serialization_error::{
    spec_failure_matches, DecodeFailure, Kind, SerializationError,
};
use crate::serialization::EasyConfig;
use crate::strutil::{spec_join, str_eq};

verus! {

/// The canonical encoding of a signed integer: a bare number atom in
/// decimal.
pub open spec fn spec_encoded_int(v: int) -> ExpressionView {
    ExpressionView {
        data: ExpressionDataView::Presence(
            AtomView::Number(spec_fmt_int(v)),
            LexicalSpan { start: 0, end: 0 },
        ),
        comment: None,
    }
}

/// The canonical encoding of an unsigned integer.
pub open spec fn spec_encoded_nat(v: nat) -> ExpressionView {
    ExpressionView {
        data: ExpressionDataView::Presence(
            AtomView::Number(spec_fmt_nat(v)),
            LexicalSpan { start: 0, end: 0 },
        ),
        comment: None,
    }
}

/// What decoding a signed integer bounded by a machine type does: one
/// expression is consumed and minimized; it must be a presence whose
/// text is a decimal literal within bounds. A number atom that does not
/// parse is a literal error, a text atom that does not parse was never a
/// number at all.
pub open spec fn spec_dec_int(items: Seq<ExpressionView>, index: int, min: int, max: int) -> Result<
    (int, Seq<ExpressionView>, int),
    DecodeFailure,
> {
    if !(0 <= index < items.len()) {
        Err(DecodeFailure::ReachedEoi)
    } else {
        let e = spec_minimized(items[index]);
        match e.data {
            ExpressionDataView::Presence(a, _) => {
                let t = spec_atom_text(a);
                match spec_parse_int_in(t, min, max) {
                    Some(v) => Ok((v, items, index + 1)),
                    None => Err(
                        match a {
                            AtomView::Number(_) => DecodeFailure::ParseIntError,
                            AtomView::Text(_) => DecodeFailure::ExpectedNumber,
                        },
                    ),
                }
            },
            _ => Err(DecodeFailure::ExpectedPresence),
        }
    }
}

/// What decoding an unsigned integer does; a sign is rejected outright.
pub open spec fn spec_dec_nat(items: Seq<ExpressionView>, index: int, max: int) -> Result<
    (int, Seq<ExpressionView>, int),
    DecodeFailure,
> {
    if !(0 <= index < items.len()) {
        Err(DecodeFailure::ReachedEoi)
    } else {
        let e = spec_minimized(items[index]);
        match e.data {
            ExpressionDataView::Presence(a, _) => {
                let t = spec_atom_text(a);
                match spec_parse_nat_in(t, max) {
                    Some(v) => Ok((v, items, index + 1)),
                    None => Err(
                        match a {
                            AtomView::Number(_) => DecodeFailure::ParseIntError,
                            AtomView::Text(_) => DecodeFailure::ExpectedNumber,
                        },
                    ),
                }
            },
            _ => Err(DecodeFailure::ExpectedPresence),
        }
    }
}

/// Decode one bounded signed integer from the cursor.
fn decode_int_in(
    exprs: &mut ExpressionIterator,
    source_text: &str,
    min: i128,
    max: i128,
    context_msg: &str,
) -> (r: Result<i128, SerializationError>)
    requires
        old(exprs).wf(),
        min <= 0 <= max,
    ensures
        final(exprs).wf(),
        match r {
            Ok(v) => ({
                &&& spec_dec_int(
                    old(exprs).spec_items(),
                    old(exprs).spec_index(),
                    min as int,
                    max as int,
                ) == Ok::<(int, Seq<ExpressionView>, int), DecodeFailure>(
                    (v as int, final(exprs).spec_items(), final(exprs).spec_index()),
                )
                &&& final(exprs).spec_items() == old(exprs).spec_items()
                &&& final(exprs).spec_index() == old(exprs).spec_index() + 1
            }),
            Err(e) => ({
                &&& spec_dec_int(
                    old(exprs).spec_items(),
                    old(exprs).spec_index(),
                    min as int,
                    max as int,
                ) matches Err(f)
                &&& spec_failure_matches(e, f)
            }),
        },
{
    let expr = match exprs.minimized_next_or_err(source_text) {
        Ok(e) => e,
        Err(err) => {
            return Err(err);
        },
    };
    let span = expr.span();
    if !expr.is_presence() {
        let e = SerializationError::on_span(Kind::ExpectedPresence(expr), span, source_text);
        let e = e.contextualize(context_msg);
        return Err(e);
    }
    match &expr.data {
        ExpressionData::Presence(p, _) => {
            match parse_i128_in(p.text(), min, max) {
                Some(v) => Ok(v),
                None => {
                    let is_number = p.is_number();
                    let text = String::from_str(p.text());
                    let kind = if is_number {
                        Kind::ParseIntError(text)
                    } else {
                        Kind::ExpectedNumber(text)
                    };
                    let e = SerializationError::on_span(kind, span, source_text).contextualize(
                        context_msg,
                    );
                    Err(e)
                },
            }
        },
        _ => vstd::pervasive::unreached(),
    }
}

/// Decode one bounded unsigned integer from the cursor.
fn decode_nat_in(
    exprs: &mut ExpressionIterator,
    source_text: &str,
    max: u128,
    context_msg: &str,
) -> (r: Result<u128, SerializationError>)
    requires
        old(exprs).wf(),
    ensures
        final(exprs).wf(),
        match r {
            Ok(v) => ({
                &&& spec_dec_nat(old(exprs).spec_items(), old(exprs).spec_index(), max as int)
                    == Ok::<(int, Seq<ExpressionView>, int), DecodeFailure>(
                    (v as int, final(exprs).spec_items(), final(exprs).spec_index()),
                )
                &&& final(exprs).spec_items() == old(exprs).spec_items()
                &&& final(exprs).spec_index() == old(exprs).spec_index() + 1
            }),
            Err(e) => ({
                &&& spec_dec_nat(
                    old(exprs).spec_items(),
                    old(exprs).spec_index(),
                    max as int,
                ) matches Err(f)
                &&& spec_failure_matches(e, f)
            }),
        },
{
    let expr = match exprs.minimized_next_or_err(source_text) {
        Ok(e) => e,
        Err(err) => {
            return Err(err);
        },
    };
    let span = expr.span();
    if !expr.is_presence() {
        let e = SerializationError::on_span(Kind::ExpectedPresence(expr), span, source_text);
        let e = e.contextualize(context_msg);
        return Err(e);
    }
    match &expr.data {
        ExpressionData::Presence(p, _) => {
            match parse_u128_in(p.text(), max) {
                Some(v) => Ok(v),
                None => {
                    let is_number = p.is_number();
                    let text = String::from_str(p.text());
                    let kind = if is_number {
                        Kind::ParseIntError(text)
                    } else {
                        Kind::ExpectedNumber(text)
                    };
                    let e = SerializationError::on_span(kind, span, source_text).contextualize(
                        context_msg,
                    );
                    Err(e)
                },
            }
        },
        _ => vstd::pervasive::unreached(),
    }
}

/// An encoded signed integer decodes back to itself.
proof fn lemma_int_roundtrip(v: int, min: int, max: int, e: ExpressionView)
    requires
        min <= v <= max,
        e == spec_encoded_int(v),
    ensures
        ({
            let d = spec_dec_int(spec_iter_items(e), 0, min, max);
            &&& d matches Ok(p)
            &&& p.0 == v
        }),
{
    lemma_parse_fmt_int(v);
    assert(spec_iter_items(e) =~= seq![e]);
    assert(spec_minimized(e) == e);
}

/// An encoded unsigned integer decodes back to itself.
proof fn lemma_nat_roundtrip(v: nat, max: int, e: ExpressionView)
    requires
        v <= max,
        e == spec_encoded_nat(v),
    ensures
        ({
            let d = spec_dec_nat(spec_iter_items(e), 0, max);
            &&& d matches Ok(p)
            &&& p.0 == v
        }),
{
    lemma_parse_fmt_nat(v);
    assert(spec_iter_items(e) =~= seq![e]);
    assert(spec_minimized(e) == e);
}

impl EasyConfig for i64 {
    open spec fn spec_passthrough() -> bool {
        false
    }

    fn passthrough() -> bool {
        false
    }

    open spec fn spec_enc(&self, e: ExpressionView) -> bool {
        e == spec_encoded_int(*self as int)
    }

    open spec fn spec_decoded(items: Seq<ExpressionView>, index: int, src: Seq<char>) -> Result<
        (i64, Seq<ExpressionView>, int),
        DecodeFailure,
    > {
        match spec_dec_int(items, index, i64::MIN as int, i64::MAX as int) {
            Ok(p) => Ok(((p.0 as i64), p.1, p.2)),
            Err(f) => Err(f),
        }
    }

    open spec fn spec_value_matches(&self, m: i64) -> bool {
        *self == m
    }

    open spec fn spec_roundtrip_condition(&self) -> bool {
        true
    }

    fn serialize(&self) -> (r: Expression) {
        let r = Expression::presence(Atom::Number(fmt_i128(*self as i128)));
        proof {
            assert(r@ =~= spec_encoded_int(*self as int));
        }
        r
    }

    fn deserialize(exprs: &mut ExpressionIterator, source_text: &str) -> (r: Result<
        i64,
        SerializationError,
    >) {
        match decode_int_in(exprs, source_text, i64::MIN as i128, i64::MAX as i128,
            "Error while deserializing a i64") {
            Ok(v) => Ok(v as i64),
            Err(e) => Err(e),
        }
    }

    proof fn lemma_roundtrip(&self, e: ExpressionView, src: Seq<char>) {
        lemma_int_roundtrip(*self as int, i64::MIN as int, i64::MAX as int, e);
    }
}


impl EasyConfig for i8 {
    open spec fn spec_passthrough() -> bool {
        false
    }

    fn passthrough() -> bool {
        false
    }

    open spec fn spec_enc(&self, e: ExpressionView) -> bool {
        e == spec_encoded_int(*self as int)
    }

    open spec fn spec_decoded(items: Seq<ExpressionView>, index: int, src: Seq<char>) -> Result<
        (i8, Seq<ExpressionView>, int),
        DecodeFailure,
    > {
        match spec_dec_int(items, index, i8::MIN as int, i8::MAX as int) {
            Ok(p) => Ok(((p.0 as i8), p.1, p.2)),
            Err(f) => Err(f),
        }
    }

    open spec fn spec_value_matches(&self, m: i8) -> bool {
        *self == m
    }

    open spec fn spec_roundtrip_condition(&self) -> bool {
        true
    }

    fn serialize(&self) -> (r: Expression) {
        let r = Expression::presence(Atom::Number(fmt_i128(*self as i128)));
        proof {
            assert(r@ =~= spec_encoded_int(*self as int));
        }
        r
    }

    fn deserialize(exprs: &mut ExpressionIterator, source_text: &str) -> (r: Result<
        i8,
        SerializationError,
    >) {
        match decode_int_in(exprs, source_text, i8::MIN as i128, i8::MAX as i128,
            "Error while deserializing a i8") {
            Ok(v) => Ok(v as i8),
            Err(e) => Err(e),
        }
    }

    proof fn lemma_roundtrip(&self, e: ExpressionView, src: Seq<char>) {
        lemma_int_roundtrip(*self as int, i8::MIN as int, i8::MAX as int, e);
    }
}

impl EasyConfig for i16 {
    open spec fn spec_passthrough() -> bool {
        false
    }

    fn passthrough() -> bool {
        false
    }

    open spec fn spec_enc(&self, e: ExpressionView) -> bool {
        e == spec_encoded_int(*self as int)
    }

    open spec fn spec_decoded(items: Seq<ExpressionView>, index: int, src: Seq<char>) -> Result<
        (i16, Seq<ExpressionView>, int),
        DecodeFailure,
    > {
        match spec_dec_int(items, index, i16::MIN as int, i16::MAX as int) {
            Ok(p) => Ok(((p.0 as i16), p.1, p.2)),
            Err(f) => Err(f),
        }
    }

    open spec fn spec_value_matches(&self, m: i16) -> bool {
        *self == m
    }

    open spec fn spec_roundtrip_condition(&self) -> bool {
        true
    }

    fn serialize(&self) -> (r: Expression) {
        let r = Expression::presence(Atom::Number(fmt_i128(*self as i128)));
        proof {
            assert(r@ =~= spec_encoded_int(*self as int));
        }
        r
    }

    fn deserialize(exprs: &mut ExpressionIterator, source_text: &str) -> (r: Result<
        i16,
        SerializationError,
    >) {
        match decode_int_in(exprs, source_text, i16::MIN as i128, i16::MAX as i128,
            "Error while deserializing a i16") {
            Ok(v) => Ok(v as i16),
            Err(e) => Err(e),
        }
    }

    proof fn lemma_roundtrip(&self, e: ExpressionView, src: Seq<char>) {
        lemma_int_roundtrip(*self as int, i16::MIN as int, i16::MAX as int, e);
    }
}

impl EasyConfig for i32 {
    open spec fn spec_passthrough() -> bool {
        false
    }

    fn passthrough() -> bool {
        false
    }

    open spec fn spec_enc(&self, e: ExpressionView) -> bool {
        e == spec_encoded_int(*self as int)
    }

    open spec fn spec_decoded(items: Seq<ExpressionView>, index: int, src: Seq<char>) -> Result<
        (i32, Seq<ExpressionView>, int),
        DecodeFailure,
    > {
        match spec_dec_int(items, index, i32::MIN as int, i32::MAX as int) {
            Ok(p) => Ok(((p.0 as i32), p.1, p.2)),
            Err(f) => Err(f),
        }
    }

    open spec fn spec_value_matches(&self, m: i32) -> bool {
        *self == m
    }

    open spec fn spec_roundtrip_condition(&self) -> bool {
        true
    }

    fn serialize(&self) -> (r: Expression) {
        let r = Expression::presence(Atom::Number(fmt_i128(*self as i128)));
        proof {
            assert(r@ =~= spec_encoded_int(*self as int));
        }
        r
    }

    fn deserialize(exprs: &mut ExpressionIterator, source_text: &str) -> (r: Result<
        i32,
        SerializationError,
    >) {
        match decode_int_in(exprs, source_text, i32::MIN as i128, i32::MAX as i128,
            "Error while deserializing a i32") {
            Ok(v) => Ok(v as i32),
            Err(e) => Err(e),
        }
    }

    proof fn lemma_roundtrip(&self, e: ExpressionView, src: Seq<char>) {
        lemma_int_roundtrip(*self as int, i32::MIN as int, i32::MAX as int, e);
    }
}

impl EasyConfig for i128 {
    open spec fn spec_passthrough() -> bool {
        false
    }

    fn passthrough() -> bool {
        false
    }

    open spec fn spec_enc(&self, e: ExpressionView) -> bool {
        e == spec_encoded_int(*self as int)
    }

    open spec fn spec_decoded(items: Seq<ExpressionView>, index: int, src: Seq<char>) -> Result<
        (i128, Seq<ExpressionView>, int),
        DecodeFailure,
    > {
        match spec_dec_int(items, index, i128::MIN as int, i128::MAX as int) {
            Ok(p) => Ok(((p.0 as i128), p.1, p.2)),
            Err(f) => Err(f),
        }
    }

    open spec fn spec_value_matches(&self, m: i128) -> bool {
        *self == m
    }

    open spec fn spec_roundtrip_condition(&self) -> bool {
        true
    }

    fn serialize(&self) -> (r: Expression) {
        let r = Expression::presence(Atom::Number(fmt_i128(*self as i128)));
        proof {
            assert(r@ =~= spec_encoded_int(*self as int));
        }
        r
    }

    fn deserialize(exprs: &mut ExpressionIterator, source_text: &str) -> (r: Result<
        i128,
        SerializationError,
    >) {
        match decode_int_in(exprs, source_text, i128::MIN as i128, i128::MAX as i128,
            "Error while deserializing a i128") {
            Ok(v) => Ok(v as i128),
            Err(e) => Err(e),
        }
    }

    proof fn lemma_roundtrip(&self, e: ExpressionView, src: Seq<char>) {
        lemma_int_roundtrip(*self as int, i128::MIN as int, i128::MAX as int, e);
    }
}

impl EasyConfig for isize {
    open spec fn spec_passthrough() -> bool {
        false
    }

    fn passthrough() -> bool {
        false
    }

    open spec fn spec_enc(&self, e: ExpressionView) -> bool {
        e == spec_encoded_int(*self as int)
    }

    open spec fn spec_decoded(items: Seq<ExpressionView>, index: int, src: Seq<char>) -> Result<
        (isize, Seq<ExpressionView>, int),
        DecodeFailure,
    > {
        match spec_dec_int(items, index, isize::MIN as int, isize::MAX as int) {
            Ok(p) => Ok(((p.0 as isize), p.1, p.2)),
            Err(f) => Err(f),
        }
    }

    open spec fn spec_value_matches(&self, m: isize) -> bool {
        *self == m
    }

    open spec fn spec_roundtrip_condition(&self) -> bool {
        true
    }

    fn serialize(&self) -> (r: Expression) {
        let r = Expression::presence(Atom::Number(fmt_i128(*self as i128)));
        proof {
            assert(r@ =~= spec_encoded_int(*self as int));
        }
        r
    }

    fn deserialize(exprs: &mut ExpressionIterator, source_text: &str) -> (r: Result<
        isize,
        SerializationError,
    >) {
        match decode_int_in(exprs, source_text, isize::MIN as i128, isize::MAX as i128,
            "Error while deserializing a isize") {
            Ok(v) => Ok(v as isize),
            Err(e) => Err(e),
        }
    }

    proof fn lemma_roundtrip(&self, e: ExpressionView, src: Seq<char>) {
        lemma_int_roundtrip(*self as int, isize::MIN as int, isize::MAX as int, e);
    }
}

impl EasyConfig for u8 {
    open spec fn spec_passthrough() -> bool {
        false
    }

    fn passthrough() -> bool {
        false
    }

    open spec fn spec_enc(&self, e: ExpressionView) -> bool {
        e == spec_encoded_nat(*self as nat)
    }

    open spec fn spec_decoded(items: Seq<ExpressionView>, index: int, src: Seq<char>) -> Result<
        (u8, Seq<ExpressionView>, int),
        DecodeFailure,
    > {
        match spec_dec_nat(items, index, u8::MAX as int) {
            Ok(p) => Ok(((p.0 as u8), p.1, p.2)),
            Err(f) => Err(f),
        }
    }

    open spec fn spec_value_matches(&self, m: u8) -> bool {
        *self == m
    }

    open spec fn spec_roundtrip_condition(&self) -> bool {
        true
    }

    fn serialize(&self) -> (r: Expression) {
        let r = Expression::presence(Atom::Number(fmt_u128(*self as u128)));
        proof {
            assert(r@ =~= spec_encoded_nat(*self as nat));
        }
        r
    }

    fn deserialize(exprs: &mut ExpressionIterator, source_text: &str) -> (r: Result<
        u8,
        SerializationError,
    >) {
        match decode_nat_in(exprs, source_text, u8::MAX as u128,
            "Error while deserializing a u8") {
            Ok(v) => Ok(v as u8),
            Err(e) => Err(e),
        }
    }

    proof fn lemma_roundtrip(&self, e: ExpressionView, src: Seq<char>) {
        lemma_nat_roundtrip(*self as nat, u8::MAX as int, e);
    }
}

impl EasyConfig for u16 {
    open spec fn spec_passthrough() -> bool {
        false
    }

    fn passthrough() -> bool {
        false
    }

    open spec fn spec_enc(&self, e: ExpressionView) -> bool {
        e == spec_encoded_nat(*self as nat)
    }

    open spec fn spec_decoded(items: Seq<ExpressionView>, index: int, src: Seq<char>) -> Result<
        (u16, Seq<ExpressionView>, int),
        DecodeFailure,
    > {
        match spec_dec_nat(items, index, u16::MAX as int) {
            Ok(p) => Ok(((p.0 as u16), p.1, p.2)),
            Err(f) => Err(f),
        }
    }

    open spec fn spec_value_matches(&self, m: u16) -> bool {
        *self == m
    }

    open spec fn spec_roundtrip_condition(&self) -> bool {
        true
    }

    fn serialize(&self) -> (r: Expression) {
        let r = Expression::presence(Atom::Number(fmt_u128(*self as u128)));
        proof {
            assert(r@ =~= spec_encoded_nat(*self as nat));
        }
        r
    }

    fn deserialize(exprs: &mut ExpressionIterator, source_text: &str) -> (r: Result<
        u16,
        SerializationError,
    >) {
        match decode_nat_in(exprs, source_text, u16::MAX as u128,
            "Error while deserializing a u16") {
            Ok(v) => Ok(v as u16),
            Err(e) => Err(e),
        }
    }

    proof fn lemma_roundtrip(&self, e: ExpressionView, src: Seq<char>) {
        lemma_nat_roundtrip(*self as nat, u16::MAX as int, e);
    }
}

impl EasyConfig for u32 {
    open spec fn spec_passthrough() -> bool {
        false
    }

    fn passthrough() -> bool {
        false
    }

    open spec fn spec_enc(&self, e: ExpressionView) -> bool {
        e == spec_encoded_nat(*self as nat)
    }

    open spec fn spec_decoded(items: Seq<ExpressionView>, index: int, src: Seq<char>) -> Result<
        (u32, Seq<ExpressionView>, int),
        DecodeFailure,
    > {
        match spec_dec_nat(items, index, u32::MAX as int) {
            Ok(p) => Ok(((p.0 as u32), p.1, p.2)),
            Err(f) => Err(f),
        }
    }

    open spec fn spec_value_matches(&self, m: u32) -> bool {
        *self == m
    }

    open spec fn spec_roundtrip_condition(&self) -> bool {
        true
    }

    fn serialize(&self) -> (r: Expression) {
        let r = Expression::presence(Atom::Number(fmt_u128(*self as u128)));
        proof {
            assert(r@ =~= spec_encoded_nat(*self as nat));
        }
        r
    }

    fn deserialize(exprs: &mut ExpressionIterator, source_text: &str) -> (r: Result<
        u32,
        SerializationError,
    >) {
        match decode_nat_in(exprs, source_text, u32::MAX as u128,
            "Error while deserializing a u32") {
            Ok(v) => Ok(v as u32),
            Err(e) => Err(e),
        }
    }

    proof fn lemma_roundtrip(&self, e: ExpressionView, src: Seq<char>) {
        lemma_nat_roundtrip(*self as nat, u32::MAX as int, e);
    }
}

impl EasyConfig for u64 {
    open spec fn spec_passthrough() -> bool {
        false
    }

    fn passthrough() -> bool {
        false
    }

    open spec fn spec_enc(&self, e: ExpressionView) -> bool {
        e == spec_encoded_nat(*self as nat)
    }

    open spec fn spec_decoded(items: Seq<ExpressionView>, index: int, src: Seq<char>) -> Result<
        (u64, Seq<ExpressionView>, int),
        DecodeFailure,
    > {
        match spec_dec_nat(items, index, u64::MAX as int) {
            Ok(p) => Ok(((p.0 as u64), p.1, p.2)),
            Err(f) => Err(f),
        }
    }

    open spec fn spec_value_matches(&self, m: u64) -> bool {
        *self == m
    }

    open spec fn spec_roundtrip_condition(&self) -> bool {
        true
    }

    fn serialize(&self) -> (r: Expression) {
        let r = Expression::presence(Atom::Number(fmt_u128(*self as u128)));
        proof {
            assert(r@ =~= spec_encoded_nat(*self as nat));
        }
        r
    }

    fn deserialize(exprs: &mut ExpressionIterator, source_text: &str) -> (r: Result<
        u64,
        SerializationError,
    >) {
        match decode_nat_in(exprs, source_text, u64::MAX as u128,
            "Error while deserializing a u64") {
            Ok(v) => Ok(v as u64),
            Err(e) => Err(e),
        }
    }

    proof fn lemma_roundtrip(&self, e: ExpressionView, src: Seq<char>) {
        lemma_nat_roundtrip(*self as nat, u64::MAX as int, e);
    }
}

impl EasyConfig for u128 {
    open spec fn spec_passthrough() -> bool {
        false
    }

    fn passthrough() -> bool {
        false
    }

    open spec fn spec_enc(&self, e: ExpressionView) -> bool {
        e == spec_encoded_nat(*self as nat)
    }

    open spec fn spec_decoded(items: Seq<ExpressionView>, index: int, src: Seq<char>) -> Result<
        (u128, Seq<ExpressionView>, int),
        DecodeFailure,
    > {
        match spec_dec_nat(items, index, u128::MAX as int) {
            Ok(p) => Ok(((p.0 as u128), p.1, p.2)),
            Err(f) => Err(f),
        }
    }

    open spec fn spec_value_matches(&self, m: u128) -> bool {
        *self == m
    }

    open spec fn spec_roundtrip_condition(&self) -> bool {
        true
    }

    fn serialize(&self) -> (r: Expression) {
        let r = Expression::presence(Atom::Number(fmt_u128(*self as u128)));
        proof {
            assert(r@ =~= spec_encoded_nat(*self as nat));
        }
        r
    }

    fn deserialize(exprs: &mut ExpressionIterator, source_text: &str) -> (r: Result<
        u128,
        SerializationError,
    >) {
        match decode_nat_in(exprs, source_text, u128::MAX as u128,
            "Error while deserializing a u128") {
            Ok(v) => Ok(v as u128),
            Err(e) => Err(e),
        }
    }

    proof fn lemma_roundtrip(&self, e: ExpressionView, src: Seq<char>) {
        lemma_nat_roundtrip(*self as nat, u128::MAX as int, e);
    }
}

impl EasyConfig for usize {
    open spec fn spec_passthrough() -> bool {
        false
    }

    fn passthrough() -> bool {
        false
    }

    open spec fn spec_enc(&self, e: ExpressionView) -> bool {
        e == spec_encoded_nat(*self as nat)
    }

    open spec fn spec_decoded(items: Seq<ExpressionView>, index: int, src: Seq<char>) -> Result<
        (usize, Seq<ExpressionView>, int),
        DecodeFailure,
    > {
        match spec_dec_nat(items, index, usize::MAX as int) {
            Ok(p) => Ok(((p.0 as usize), p.1, p.2)),
            Err(f) => Err(f),
        }
    }

    open spec fn spec_value_matches(&self, m: usize) -> bool {
        *self == m
    }

    open spec fn spec_roundtrip_condition(&self) -> bool {
        true
    }

    fn serialize(&self) -> (r: Expression) {
        let r = Expression::presence(Atom::Number(fmt_u128(*self as u128)));
        proof {
            assert(r@ =~= spec_encoded_nat(*self as nat));
        }
        r
    }

    fn deserialize(exprs: &mut ExpressionIterator, source_text: &str) -> (r: Result<
        usize,
        SerializationError,
    >) {
        match decode_nat_in(exprs, source_text, usize::MAX as u128,
            "Error while deserializing a usize") {
            Ok(v) => Ok(v as usize),
            Err(e) => Err(e),
        }
    }

    proof fn lemma_roundtrip(&self, e: ExpressionView, src: Seq<char>) {
        lemma_nat_roundtrip(*self as nat, usize::MAX as int, e);
    }
}

/// The canonical encoding of a boolean: a bare text atom `true` or
/// `false`.
pub open spec fn spec_encoded_bool(v: bool) -> ExpressionView {
    ExpressionView {
        data: ExpressionDataView::Presence(
            AtomView::Text(if v { "true"@ } else { "false"@ }),
            LexicalSpan { start: 0, end: 0 },
        ),
        comment: None,
    }
}

/// What decoding a boolean does: one minimized presence holding a text
/// atom that reads exactly `true` or `false`.
pub open spec fn spec_dec_bool(items: Seq<ExpressionView>, index: int) -> Result<
    (bool, Seq<ExpressionView>, int),
    DecodeFailure,
> {
    if !(0 <= index < items.len()) {
        Err(DecodeFailure::ReachedEoi)
    } else {
        let e = spec_minimized(items[index]);
        match e.data {
            ExpressionDataView::Presence(a, _) => match a {
                AtomView::Text(t) => if t == "true"@ {
                    Ok((true, items, index + 1))
                } else if t == "false"@ {
                    Ok((false, items, index + 1))
                } else {
                    Err(DecodeFailure::ParseBoolError)
                },
                AtomView::Number(_) => Err(DecodeFailure::ExpectedText),
            },
            _ => Err(DecodeFailure::ExpectedPresence),
        }
    }
}

impl EasyConfig for bool {
    open spec fn spec_passthrough() -> bool {
        false
    }

    fn passthrough() -> bool {
        false
    }

    open spec fn spec_enc(&self, e: ExpressionView) -> bool {
        e == spec_encoded_bool(*self)
    }

    open spec fn spec_decoded(items: Seq<ExpressionView>, index: int, src: Seq<char>) -> Result<
        (bool, Seq<ExpressionView>, int),
        DecodeFailure,
    > {
        spec_dec_bool(items, index)
    }

    open spec fn spec_value_matches(&self, m: bool) -> bool {
        *self == m
    }

    open spec fn spec_roundtrip_condition(&self) -> bool {
        true
    }

    fn serialize(&self) -> (r: Expression) {
        let text = if *self {
            String::from_str("true")
        } else {
            String::from_str("false")
        };
        let r = Expression::presence(Atom::Text(text));
        proof {
            assert(r@ =~= spec_encoded_bool(*self));
        }
        r
    }

    fn deserialize(exprs: &mut ExpressionIterator, source_text: &str) -> (r: Result<
        bool,
        SerializationError,
    >) {
        let expr = match exprs.minimized_next_or_err(source_text) {
            Ok(e) => e,
            Err(err) => {
                return Err(err);
            },
        };
        let span = expr.span();
        if !expr.is_presence() {
            let e = SerializationError::on_span(Kind::ExpectedPresence(expr), span, source_text);
            return Err(e.contextualize("Error while deserializing a bool"));
        }
        match &expr.data {
            ExpressionData::Presence(p, _) => {
                if !p.is_text() {
                    let text = String::from_str(p.text());
                    let e = SerializationError::on_span(
                        Kind::ExpectedText(text),
                        span,
                        source_text,
                    );
                    return Err(e.contextualize("Error while deserializing a bool"));
                }
                if str_eq(p.text(), "true") {
                    return Ok(true);
                }
                if str_eq(p.text(), "false") {
                    return Ok(false);
                }
                let text = String::from_str(p.text());
                let e = SerializationError::on_span(
                    Kind::ParseBoolError(text),
                    span,
                    source_text,
                );
                Err(e.contextualize("Error while deserializing a bool"))
            },
            _ => vstd::pervasive::unreached(),
        }
    }

    proof fn lemma_roundtrip(&self, e: ExpressionView, src: Seq<char>) {
        reveal_strlit("true");
        reveal_strlit("false");
        assert("true"@.len() == 4 && "false"@.len() == 5);
        assert("true"@ != "false"@);
        assert(spec_iter_items(e) =~= seq![e]);
        assert(spec_minimized(e) == e);
    }
}

/// The canonical encoding of a character: a bare text atom of exactly
/// that character.
pub open spec fn spec_encoded_char(v: char) -> ExpressionView {
    ExpressionView {
        data: ExpressionDataView::Presence(
            AtomView::Text(seq![v]),
            LexicalSpan { start: 0, end: 0 },
        ),
        comment: None,
    }
}

/// What decoding a character does: one minimized presence whose text is
/// exactly one character long.
pub open spec fn spec_dec_char(items: Seq<ExpressionView>, index: int) -> Result<
    (char, Seq<ExpressionView>, int),
    DecodeFailure,
> {
    if !(0 <= index < items.len()) {
        Err(DecodeFailure::ReachedEoi)
    } else {
        let e = spec_minimized(items[index]);
        match e.data {
            ExpressionDataView::Presence(a, _) => {
                let t = spec_atom_text(a);
                if t.len() == 1 {
                    Ok((t[0], items, index + 1))
                } else {
                    Err(
                        match a {
                            AtomView::Text(_) => DecodeFailure::ParseCharError,
                            AtomView::Number(_) => DecodeFailure::ExpectedText,
                        },
                    )
                }
            },
            _ => Err(DecodeFailure::ExpectedPresence),
        }
    }
}

impl EasyConfig for char {
    open spec fn spec_passthrough() -> bool {
        false
    }

    fn passthrough() -> bool {
        false
    }

    open spec fn spec_enc(&self, e: ExpressionView) -> bool {
        e == spec_encoded_char(*self)
    }

    open spec fn spec_decoded(items: Seq<ExpressionView>, index: int, src: Seq<char>) -> Result<
        (char, Seq<ExpressionView>, int),
        DecodeFailure,
    > {
        spec_dec_char(items, index)
    }

    open spec fn spec_value_matches(&self, m: char) -> bool {
        *self == m
    }

    open spec fn spec_roundtrip_condition(&self) -> bool {
        true
    }

    fn serialize(&self) -> (r: Expression) {
        let mut text = String::new();
        text.push(*self);
        let r = Expression::presence(Atom::Text(text));
        proof {
            assert(r@ =~= spec_encoded_char(*self));
        }
        r
    }

    fn deserialize(exprs: &mut ExpressionIterator, source_text: &str) -> (r: Result<
        char,
        SerializationError,
    >) {
        let expr = match exprs.minimized_next_or_err(source_text) {
            Ok(e) => e,
            Err(err) => {
                return Err(err);
            },
        };
        let span = expr.span();
        if !expr.is_presence() {
            let e = SerializationError::on_span(Kind::ExpectedPresence(expr), span, source_text);
            return Err(e.contextualize("Error while deserializing a char"));
        }
        match &expr.data {
            ExpressionData::Presence(p, _) => {
                let t = p.text();
                if t.unicode_len() == 1 {
                    return Ok(t.get_char(0));
                }
                let is_text = p.is_text();
                let text = String::from_str(t);
                let kind = if is_text {
                    Kind::ParseCharError(text)
                } else {
                    Kind::ExpectedText(text)
                };
                let e = SerializationError::on_span(kind, span, source_text);
                Err(e.contextualize("Error while deserializing a char"))
            },
            _ => vstd::pervasive::unreached(),
        }
    }

    proof fn lemma_roundtrip(&self, e: ExpressionView, src: Seq<char>) {
        assert(spec_iter_items(e) =~= seq![e]);
        assert(spec_minimized(e) == e);
        assert(spec_atom_text(AtomView::Text(seq![*self])) == seq![*self]);
        assert(seq![*self].len() == 1);
        assert(seq![*self][0] == *self);
    }
}


/// The whitespace-separated words of a string, empty runs dropped,
/// accumulated left to right.
pub open spec fn spec_words_acc(s: Seq<char>, cur: Seq<char>) -> Seq<Seq<char>>
    decreases s.len(),
{
    if s.len() == 0 {
        if cur.len() == 0 {
            Seq::<Seq<char>>::empty()
        } else {
            seq![cur]
        }
    } else if crate::lexer::spec_is_space(s[0]) {
        (if cur.len() == 0 {
            Seq::<Seq<char>>::empty()
        } else {
            seq![cur]
        }) + spec_words_acc(s.drop_first(), Seq::<char>::empty())
    } else {
        spec_words_acc(s.drop_first(), cur.push(s[0]))
    }
}

/// The whitespace-separated words of a string.
pub open spec fn spec_words(s: Seq<char>) -> Seq<Seq<char>> {
    spec_words_acc(s, Seq::<char>::empty())
}

/// One bare presence per word, each escaped.
pub open spec fn spec_word_presences(ws: Seq<Seq<char>>) -> Seq<ExpressionView> {
    ws.map_values(
        |w: Seq<char>|
            ExpressionView {
                data: ExpressionDataView::Presence(
                    AtomView::Text(spec_escape(w)),
                    LexicalSpan { start: 0, end: 0 },
                ),
                comment: None,
            },
    )
}

/// The canonical encoding of a string: its words, escaped, one presence
/// each; a single word stands bare, anything else is wrapped in a list.
pub open spec fn spec_encoded_string(s: Seq<char>) -> ExpressionView {
    let ws = spec_words(s);
    if ws.len() == 1 {
        ExpressionView {
            data: ExpressionDataView::Presence(
                AtomView::Text(spec_escape(ws[0])),
                LexicalSpan { start: 0, end: 0 },
            ),
            comment: None,
        }
    } else {
        ExpressionView {
            data: ExpressionDataView::List(
                spec_word_presences(ws),
                LexicalSpan { start: 0, end: 0 },
            ),
            comment: None,
        }
    }
}

/// The atom texts of a run of expressions, provided every one of them is
/// a presence.
pub open spec fn spec_atoms_texts(items: Seq<ExpressionView>, i: int) -> Option<Seq<Seq<char>>>
    decreases items.len() - i,
{
    if i < 0 || i >= items.len() {
        Some(Seq::<Seq<char>>::empty())
    } else {
        match items[i].data {
            ExpressionDataView::Presence(a, _) => match spec_atoms_texts(items, i + 1) {
                Some(ts) => Some(seq![spec_atom_text(a)] + ts),
                None => None,
            },
            _ => None,
        }
    }
}

/// What decoding a string does: a list right under the cursor provides
/// the atoms; otherwise every remaining expression is consumed. The atom
/// texts are joined with single spaces and unescaped.
pub open spec fn spec_dec_string(items: Seq<ExpressionView>, index: int) -> Result<
    (Seq<char>, Seq<ExpressionView>, int),
    DecodeFailure,
> {
    if !(0 <= index < items.len()) {
        Err(DecodeFailure::ReachedEoi)
    } else if items[index].data is List {
        match spec_atoms_texts(items[index].data->List_0, 0) {
            Some(ts) => Ok((spec_unescape(spec_join(ts, seq![' '])), items, index + 1)),
            None => Err(DecodeFailure::ExpectedPresence),
        }
    } else {
        match spec_atoms_texts(items, index) {
            Some(ts) => Ok(
                (spec_unescape(spec_join(ts, seq![' '])), items, items.len() as int),
            ),
            None => Err(DecodeFailure::ExpectedPresence),
        }
    }
}

/// Unescaping a space-joined run of escaped words gives the words back,
/// space-joined.
proof fn lemma_unescape_join(ws: Seq<Seq<char>>)
    ensures
        spec_unescape(spec_join(ws.map_values(|w: Seq<char>| spec_escape(w)), seq![' ']))
            == spec_join(ws, seq![' ']),
    decreases ws.len(),
{
    let m = ws.map_values(|w: Seq<char>| spec_escape(w));
    if ws.len() == 0 {
        assert(spec_join(m, seq![' ']) =~= Seq::<char>::empty());
        assert(spec_unescape(Seq::<char>::empty()) =~= Seq::<char>::empty());
        assert(spec_join(ws, seq![' ']) =~= Seq::<char>::empty());
    } else if ws.len() == 1 {
        assert(spec_join(m, seq![' ']) == m[0]);
        assert(m[0] == spec_escape(ws[0]));
        crate::expression::lemma_unescape_escape_prefix(ws[0], Seq::<char>::empty());
        assert(spec_escape(ws[0]) + Seq::<char>::empty() =~= spec_escape(ws[0]));
        assert(spec_unescape(Seq::<char>::empty()) =~= Seq::<char>::empty());
        assert(ws[0] + spec_unescape(Seq::<char>::empty()) =~= ws[0]);
        assert(spec_join(ws, seq![' ']) == ws[0]);
    } else {
        lemma_unescape_join(ws.drop_first());
        assert(m.drop_first() =~= ws.drop_first().map_values(|w: Seq<char>| spec_escape(w)));
        let tail_join = spec_join(m.drop_first(), seq![' ']);
        assert(spec_join(m, seq![' ']) == m[0] + seq![' '] + tail_join);
        let after = seq![' '] + tail_join;
        assert(m[0] + seq![' '] + tail_join =~= spec_escape(ws[0]) + after);
        crate::expression::lemma_unescape_escape_prefix(ws[0], after);
        assert(after[0] == ' ');
        assert(!crate::expression::spec_needs_escape(' '));
        assert(' ' != '\\');
        assert(after.drop_first() =~= tail_join);
        assert(spec_unescape(after) == seq![' '] + spec_unescape(tail_join));
        assert(spec_join(ws, seq![' ']) =~= ws[0] + seq![' '] + spec_join(
            ws.drop_first(),
            seq![' '],
        ));
        assert(spec_unescape(spec_join(m, seq![' '])) =~= spec_join(ws, seq![' ']));
    }
}

/// The atom texts of a run of word presences are exactly the escaped
/// words.
proof fn lemma_atoms_texts_of_words(ws: Seq<Seq<char>>, i: int)
    requires
        0 <= i <= ws.len(),
    ensures
        spec_atoms_texts(spec_word_presences(ws), i) == Some(
            ws.skip(i).map_values(|w: Seq<char>| spec_escape(w)),
        ),
    decreases ws.len() - i,
{
    let items = spec_word_presences(ws);
    if i >= ws.len() {
        assert(ws.skip(i).map_values(|w: Seq<char>| spec_escape(w))
            =~= Seq::<Seq<char>>::empty());
    } else {
        lemma_atoms_texts_of_words(ws, i + 1);
        assert(items[i].data == ExpressionDataView::Presence(
            AtomView::Text(spec_escape(ws[i])),
            LexicalSpan { start: 0, end: 0 },
        ));
        assert(ws.skip(i).map_values(|w: Seq<char>| spec_escape(w)) =~= seq![spec_escape(ws[i])]
            + ws.skip(i + 1).map_values(|w: Seq<char>| spec_escape(w)));
    }
}

/// Split a string into its whitespace-separated words.
fn words_of(s: &str) -> (r: Vec<String>)
    ensures
        r@.map_values(|w: String| w@) == spec_words(s@),
{
    let n = s.unicode_len();
    let mut out: Vec<String> = Vec::new();
    let mut cur = String::new();
    let mut i: usize = 0;
    assert(s@.skip(0) =~= s@);
    while i < n
        invariant
            i <= n,
            n == s@.len(),
            spec_words(s@) =~= out@.map_values(|w: String| w@) + spec_words_acc(
                s@.skip(i as int),
                cur@,
            ),
        decreases n - i,
    {
        let c = s.get_char(i);
        assert(s@.skip(i as int)[0] == c);
        assert(s@.skip(i as int).drop_first() =~= s@.skip(i + 1));
        if crate::lexer::is_space_char(c) {
            if cur.as_str().unicode_len() > 0 {
                let ghost prev = out@;
                out.push(cur);
                cur = String::new();
                proof {
                    assert(out@.map_values(|w: String| w@) =~= prev.map_values(|w: String| w@)
                        + seq![out@.last()@]);
                    assert(spec_words(s@) =~= out@.map_values(|w: String| w@) + spec_words_acc(
                        s@.skip(i + 1),
                        cur@,
                    ));
                }
            } else {
                assert(cur@ =~= Seq::<char>::empty());
                assert(spec_words(s@) =~= out@.map_values(|w: String| w@) + spec_words_acc(
                    s@.skip(i + 1),
                    cur@,
                ));
            }
        } else {
            cur.push(c);
            assert(spec_words(s@) =~= out@.map_values(|w: String| w@) + spec_words_acc(
                s@.skip(i + 1),
                cur@,
            ));
        }
        i = i + 1;
    }
    assert(s@.skip(n as int) =~= Seq::<char>::empty());
    if cur.as_str().unicode_len() > 0 {
        let ghost prev = out@;
        out.push(cur);
        proof {
            assert(out@.map_values(|w: String| w@) =~= prev.map_values(|w: String| w@) + seq![
                out@.last()@,
            ]);
        }
    } else {
        assert(cur@ =~= Seq::<char>::empty());
        assert(spec_words_acc(Seq::<char>::empty(), cur@) =~= Seq::<Seq<char>>::empty());
        assert(out@.map_values(|w: String| w@) + Seq::<Seq<char>>::empty() =~= out@.map_values(
            |w: String| w@,
        ));
    }
    out
}

/// Scanning atoms from a position is scanning the suffix from its
/// start.
proof fn lemma_atoms_texts_suffix(items: Seq<ExpressionView>, base: int, off: int)
    requires
        0 <= base <= items.len(),
        0 <= off,
    ensures
        spec_atoms_texts(items, base + off) == spec_atoms_texts(items.skip(base), off),
    decreases items.len() - base - off,
{
    assert(items.skip(base).len() == items.len() - base);
    if base + off < items.len() {
        assert(items.skip(base)[off] == items[base + off]);
        lemma_atoms_texts_suffix(items, base, off + 1);
    }
}

/// Collect the atom text of every expression in a vector, failing on the
/// first one that is not a presence.
fn texts_of_presences(items: &Vec<Expression>, source_text: &str) -> (r: Result<
    Vec<String>,
    SerializationError,
>)
    ensures
        match r {
            Ok(ts) => ({
                &&& spec_atoms_texts(crate::expression::spec_view_of_list(items@), 0) == Some(
                    ts@.map_values(|t: String| t@),
                )
            }),
            Err(e) => spec_atoms_texts(crate::expression::spec_view_of_list(items@), 0) is None
                && spec_failure_matches(e, DecodeFailure::ExpectedPresence),
        },
{
    let ghost iv = crate::expression::spec_view_of_list(items@);
    let mut out: Vec<String> = Vec::new();
    let mut i: usize = 0;
    while i < items.len()
        invariant
            i <= items@.len(),
            iv == crate::expression::spec_view_of_list(items@),
            out@.len() == i,
            ({
                match spec_atoms_texts(iv, i as int) {
                    Some(ts) => spec_atoms_texts(iv, 0) == Some(
                        out@.map_values(|t: String| t@) + ts,
                    ),
                    None => spec_atoms_texts(iv, 0) is None,
                }
            }),
            forall|j: int| 0 <= j < i ==> (#[trigger] iv[j]).data is Presence,
        decreases items@.len() - i,
    {
        proof {
            assert(iv[i as int] == items@[i as int]@);
        }
        match &items[i].data {
            ExpressionData::Presence(a, _) => {
                let ghost prev = out@;
                out.push(String::from_str(a.text()));
                proof {
                    assert(out@.map_values(|t: String| t@) =~= prev.map_values(|t: String| t@)
                        + seq![out@.last()@]);
                    match spec_atoms_texts(iv, i + 1) {
                        Some(ts) => {
                            assert(prev.map_values(|t: String| t@) + (seq![
                                crate::expression::spec_atom_text(a@),
                            ] + ts) =~= out@.map_values(|t: String| t@) + ts);
                        },
                        None => {},
                    }
                }
            },
            _ => {
                let bad = items[i].deep_clone();
                let span = bad.span();
                let e = SerializationError::on_span(
                    Kind::ExpectedPresence(bad),
                    span,
                    source_text,
                ).contextualize("Error while deserializing a String");
                return Err(e);
            },
        }
        i = i + 1;
    }
    proof {
        assert(spec_atoms_texts(iv, items@.len() as int) == Some(Seq::<Seq<char>>::empty()));
        assert(out@.map_values(|t: String| t@) + Seq::<Seq<char>>::empty() =~= out@.map_values(
            |t: String| t@,
        ));
    }
    Ok(out)
}

impl EasyConfig for String {
    open spec fn spec_passthrough() -> bool {
        false
    }

    fn passthrough() -> bool {
        false
    }

    open spec fn spec_enc(&self, e: ExpressionView) -> bool {
        e == spec_encoded_string(self@)
    }

    open spec fn spec_decoded(items: Seq<ExpressionView>, index: int, src: Seq<char>) -> Result<
        (Seq<char>, Seq<ExpressionView>, int),
        DecodeFailure,
    > {
        spec_dec_string(items, index)
    }

    open spec fn spec_value_matches(&self, m: Seq<char>) -> bool {
        self@ == m
    }

    /// The round trip is stated for texts in canonical spacing: words
    /// separated by single spaces, no leading or trailing whitespace,
    /// and at least one word.
    open spec fn spec_roundtrip_condition(&self) -> bool {
        spec_join(spec_words(self@), seq![' ']) == self@ && self@.len() > 0
    }

    fn serialize(&self) -> (r: Expression) {
        let words = words_of(self.as_str());
        if words.len() == 1 {
            let escaped = escape(words[0].as_str());
            let r = Expression::presence(Atom::Text(escaped));
            proof {
                assert(words@.map_values(|x: String| x@)[0] == words@[0]@);
                assert(r@ =~= spec_encoded_string(self@));
            }
            r
        } else {
            let mut exprs: Vec<Expression> = Vec::new();
            let mut i: usize = 0;
            while i < words.len()
                invariant
                    i <= words@.len(),
                    exprs@.len() == i,
                    forall|j: int|
                        0 <= j < i ==> crate::expression::spec_view_of_list(exprs@)[j]
                            == spec_word_presences(
                            words@.map_values(|w: String| w@),
                        )[j],
                decreases words@.len() - i,
            {
                let ghost prev = exprs@;
                let escaped = escape(words[i].as_str());
                exprs.push(Expression::presence(Atom::Text(escaped)));
                proof {
                    assert(crate::expression::spec_view_of_list(exprs@) =~= crate::expression::spec_view_of_list(prev) + seq![exprs@.last()@]);
                    assert(crate::expression::spec_view_of_list(exprs@)[i as int]
                        == exprs@[i as int]@);
                    assert(words@.map_values(|w: String| w@)[i as int] == words@[i as int]@);
                    assert(spec_word_presences(words@.map_values(|w: String| w@))[i as int]
                        == ExpressionView {
                        data: ExpressionDataView::Presence(
                            AtomView::Text(spec_escape(words@[i as int]@)),
                            LexicalSpan { start: 0, end: 0 },
                        ),
                        comment: None,
                    });
                }
                i = i + 1;
            }
            let r = Expression::list(exprs);
            proof {
                assert(crate::expression::spec_view_of_list(exprs@) =~= spec_word_presences(
                    words@.map_values(|w: String| w@),
                ));
                assert(r@ =~= spec_encoded_string(self@));
            }
            r
        }
    }

    fn deserialize(exprs: &mut ExpressionIterator, source_text: &str) -> (r: Result<
        String,
        SerializationError,
    >) {
        if exprs.finished() {
            return Err(SerializationError::end_of_input(source_text));
        }
        let is_list = match exprs.peek() {
            Some(e) => e.is_list(),
            None => vstd::pervasive::unreached(),
        };
        let ghost all0 = old(exprs).spec_items();
        let ghost ix0 = old(exprs).spec_index();
        let texts = if is_list {
            let outer = match exprs.next() {
                Some(e) => e,
                None => vstd::pervasive::unreached(),
            };
            let ghost ov = outer@;
            match outer.data {
                ExpressionData::List(c, _) => {
                    proof {
                        assert(ov.data->List_0 == crate::expression::spec_view_of_list(c@));
                    }
                    match texts_of_presences(&c, source_text) {
                        Ok(ts) => ts,
                        Err(e) => {
                            return Err(e);
                        },
                    }
                },
                _ => vstd::pervasive::unreached(),
            }
        } else {
            let ghost items0 = old(exprs).spec_items();
            let ghost i0 = old(exprs).spec_index();
            let mut collected: Vec<Expression> = Vec::new();
            while !exprs.finished()
                invariant
                    exprs.wf(),
                    exprs.spec_items() == items0,
                    0 <= i0 <= exprs.spec_index(),
                    crate::expression::spec_view_of_list(collected@) =~= items0.subrange(
                        i0,
                        exprs.spec_index(),
                    ),
                decreases exprs.spec_remaining(),
            {
                let ghost idx_b = exprs.spec_index();
                match exprs.next() {
                    Some(e) => {
                        let ghost prev = collected@;
                        collected.push(e);
                        proof {
                            assert(crate::expression::spec_view_of_list(collected@)
                                =~= crate::expression::spec_view_of_list(prev) + seq![e@]);
                            assert(items0.subrange(i0, idx_b + 1) =~= items0.subrange(i0, idx_b)
                                + seq![items0[idx_b]]);
                            assert(crate::expression::spec_view_of_list(collected@)
                                =~= items0.subrange(i0, exprs.spec_index()));
                        }
                    },
                    None => vstd::pervasive::unreached(),
                }
            }
            proof {
                assert(items0.subrange(i0, items0.len() as int) =~= items0.skip(i0));
                lemma_atoms_texts_suffix(items0, i0, 0);
            }
            match texts_of_presences(&collected, source_text) {
                Ok(ts) => ts,
                Err(e) => {
                    return Err(e);
                },
            }
        };
        let joined = crate::strutil::join_strings(&texts, " ");
        let result = unescape(joined.as_str());
        proof {
            reveal_strlit(" ");
            assert(" "@ =~= seq![' ']);
        }
        Ok(result)
    }

    proof fn lemma_roundtrip(&self, e: ExpressionView, src: Seq<char>) {
        let ws = spec_words(self@);
        if ws.len() == 0 {
            assert(spec_join(ws, seq![' ']) =~= Seq::<char>::empty());
            assert(false);
        }
        lemma_unescape_join(ws);
        if ws.len() == 1 {
            assert(spec_iter_items(e) =~= seq![e]);
            assert(spec_atoms_texts(seq![e], 1) == Some(Seq::<Seq<char>>::empty()));
            assert(seq![e][0] == e);
            assert(e.data matches ExpressionDataView::Presence(a, _) && spec_atom_text(a)
                == spec_escape(ws[0]));
            assert(spec_atoms_texts(seq![e], 0) == Some(seq![spec_escape(ws[0])] + Seq::<
                Seq<char>,
            >::empty()));
            assert(seq![spec_escape(ws[0])] + Seq::<Seq<char>>::empty() =~= seq![
                spec_escape(ws[0]),
            ]);
            assert(seq![spec_escape(ws[0])] =~= ws.map_values(|w: Seq<char>| spec_escape(w)));
        } else {
            let items = spec_word_presences(ws);
            assert(spec_iter_items(e) =~= items);
            assert(items.len() >= 2);
            assert(items[0].data is Presence);
            lemma_atoms_texts_of_words(ws, 0);
            assert(ws.skip(0) =~= ws);
        }
    }
}


/// Powers of ten, for bounding the length of a decimal rendering.
pub open spec fn spec_pow10(k: nat) -> nat
    decreases k,
{
    if k == 0 {
        1nat
    } else {
        10 * spec_pow10((k - 1) as nat)
    }
}

proof fn lemma_pow10_39_covers_u128()
    ensures
        spec_pow10(39) > u128::MAX,
{
    assert(spec_pow10(1) == 10 * spec_pow10(0));
    assert(spec_pow10(2) == 10 * spec_pow10(1));
    assert(spec_pow10(3) == 10 * spec_pow10(2));
    assert(spec_pow10(4) == 10 * spec_pow10(3));
    assert(spec_pow10(5) == 10 * spec_pow10(4));
    assert(spec_pow10(6) == 10 * spec_pow10(5));
    assert(spec_pow10(7) == 10 * spec_pow10(6));
    assert(spec_pow10(8) == 10 * spec_pow10(7));
    assert(spec_pow10(9) == 10 * spec_pow10(8));
    assert(spec_pow10(10) == 10 * spec_pow10(9));
    assert(spec_pow10(11) == 10 * spec_pow10(10));
    assert(spec_pow10(12) == 10 * spec_pow10(11));
    assert(spec_pow10(13) == 10 * spec_pow10(12));
    assert(spec_pow10(14) == 10 * spec_pow10(13));
    assert(spec_pow10(15) == 10 * spec_pow10(14));
    assert(spec_pow10(16) == 10 * spec_pow10(15));
    assert(spec_pow10(17) == 10 * spec_pow10(16));
    assert(spec_pow10(18) == 10 * spec_pow10(17));
    assert(spec_pow10(19) == 10 * spec_pow10(18));
    assert(spec_pow10(20) == 10 * spec_pow10(19));
    assert(spec_pow10(21) == 10 * spec_pow10(20));
    assert(spec_pow10(22) == 10 * spec_pow10(21));
    assert(spec_pow10(23) == 10 * spec_pow10(22));
    assert(spec_pow10(24) == 10 * spec_pow10(23));
    assert(spec_pow10(25) == 10 * spec_pow10(24));
    assert(spec_pow10(26) == 10 * spec_pow10(25));
    assert(spec_pow10(27) == 10 * spec_pow10(26));
    assert(spec_pow10(28) == 10 * spec_pow10(27));
    assert(spec_pow10(29) == 10 * spec_pow10(28));
    assert(spec_pow10(30) == 10 * spec_pow10(29));
    assert(spec_pow10(31) == 10 * spec_pow10(30));
    assert(spec_pow10(32) == 10 * spec_pow10(31));
    assert(spec_pow10(33) == 10 * spec_pow10(32));
    assert(spec_pow10(34) == 10 * spec_pow10(33));
    assert(spec_pow10(35) == 10 * spec_pow10(34));
    assert(spec_pow10(36) == 10 * spec_pow10(35));
    assert(spec_pow10(37) == 10 * spec_pow10(36));
    assert(spec_pow10(38) == 10 * spec_pow10(37));
    assert(spec_pow10(39) == 10 * spec_pow10(38));
}

/// A number below the `k`-th power of ten renders in at most `k` digits.
proof fn lemma_fmt_nat_len(n: nat, k: nat)
    requires
        k >= 1,
        n < spec_pow10(k),
    ensures
        spec_fmt_nat(n).len() <= k,
    decreases n,
{
    if n >= 10 {
        assert(spec_pow10(k) == 10 * spec_pow10((k - 1) as nat));
        assert(n / 10 < spec_pow10((k - 1) as nat)) by (nonlinear_arith)
            requires
                n < 10 * spec_pow10((k - 1) as nat),
        ;
        assert((k - 1) as nat >= 1) by {
            if k == 1 {
                assert(spec_pow10(1nat) == 10);
            }
        }
        lemma_fmt_nat_len(n / 10, (k - 1) as nat);
    }
}

/// Digits and the minus sign are no token boundaries: a rendered number
/// is one single word to the lexer.
proof fn lemma_digit_not_boundary(c: char)
    requires
        spec_is_digit(c) || c == '-',
    ensures
        !crate::lexer::spec_is_boundary(c),
{
    assert(('-' as u32) == 45);
    if crate::lexer::spec_is_space(c) || crate::lexer::spec_is_stopping(c) {
        assert((c as u32) == 32 || (c as u32) == 9 || (c as u32) == 10 || (c as u32) == 13
            || (c as u32) == 11 || (c as u32) == 12 || (c as u32) == 40 || (c as u32) == 61
            || (c as u32) == 41 || (c as u32) == 35);
    }
}

/// The round trip through the whole pipeline, for integers: render the
/// canonical encoding of a value, lex and parse the text back, and
/// decode the parsed document; the value comes back exactly, with no
/// parse errors on the way.
pub proof fn lemma_int_pipeline_roundtrip(v: int, min: int, max: int)
    requires
        i128::MIN <= min <= v <= max <= i128::MAX,
        min <= 0 <= max,
    ensures
        ({
            let text = spec_dump(spec_encoded_int(v));
            let doc = spec_parse_doc(spec_lex(text), text, 0);
            &&& text == spec_fmt_int(v)
            &&& doc.1.len() == 0
            &&& spec_dec_int(doc.0, 0, min, max) matches Ok(p)
            &&& p.0 == v
        }),
{
    let text = spec_fmt_int(v);
    assert(spec_dump(spec_encoded_int(v)) == text);
    let mag: nat = if v < 0 {
        (-v) as nat
    } else {
        v as nat
    };
    lemma_fmt_nat_digits(mag);
    lemma_pow10_39_covers_u128();
    lemma_fmt_nat_len(mag, 39);
    crate::numfmt::lemma_parse_fmt_int(v);
    if v >= 0 {
        assert(text == spec_fmt_nat(mag));
        assert forall|j: int| 0 <= j < text.len() implies !crate::lexer::spec_is_boundary(
            #[trigger] text[j],
        ) by {
            lemma_digit_not_boundary(text[j]);
        }
        assert(spec_is_digit(text[0]));
        assert forall|j: int| 1 <= j < text.len() implies crate::lexer::spec_potentially_numeric(
            #[trigger] text[j],
        ) by {
            assert(spec_is_digit(text[j]));
        }
        crate::lexer::lemma_lex_single_word(text);
        let t = spec_lex(text)[0];
        assert(spec_lex(text) =~= seq![t]);
        crate::parser::lemma_parse_single_atom(t, text);
        let doc = spec_parse_doc(spec_lex(text), text, 0);
        let e = doc.0[0];
        assert(doc.0 =~= seq![e]);
        assert(e.data matches ExpressionDataView::Presence(a, _) && a == AtomView::Number(text));
        assert(spec_minimized(e) == e);
    } else {
        assert(text == seq!['-'] + spec_fmt_nat(mag));
        assert(text[0] == '-');
        assert(('-' as u32) == 45);
        assert(!spec_is_digit(text[0]));
        assert forall|j: int| 0 <= j < text.len() implies !crate::lexer::spec_is_boundary(
            #[trigger] text[j],
        ) by {
            if j >= 1 {
                assert(text[j] == spec_fmt_nat(mag)[j - 1]);
                assert(spec_is_digit(text[j]));
            }
            lemma_digit_not_boundary(text[j]);
        }
        crate::lexer::lemma_lex_single_word(text);
        let t = spec_lex(text)[0];
        assert(spec_lex(text) =~= seq![t]);
        crate::parser::lemma_parse_single_atom(t, text);
        let doc = spec_parse_doc(spec_lex(text), text, 0);
        let e = doc.0[0];
        assert(doc.0 =~= seq![e]);
        assert(e.data matches ExpressionDataView::Presence(a, _) && a == AtomView::Text(text));
        assert(spec_minimized(e) == e);
    }
}


/// The pipeline round trip for unsigned integers.
pub proof fn lemma_nat_pipeline_roundtrip(v: nat, max: int)
    requires
        v <= max <= u128::MAX,
    ensures
        ({
            let text = spec_dump(spec_encoded_nat(v));
            let doc = spec_parse_doc(spec_lex(text), text, 0);
            &&& text == spec_fmt_nat(v)
            &&& doc.1.len() == 0
            &&& spec_dec_nat(doc.0, 0, max) matches Ok(p)
            &&& p.0 == v
        }),
{
    let text = spec_fmt_nat(v);
    assert(spec_dump(spec_encoded_nat(v)) == text);
    lemma_fmt_nat_digits(v);
    lemma_pow10_39_covers_u128();
    lemma_fmt_nat_len(v, 39);
    crate::numfmt::lemma_parse_fmt_nat(v);
    assert forall|j: int| 0 <= j < text.len() implies !crate::lexer::spec_is_boundary(
        #[trigger] text[j],
    ) by {
        lemma_digit_not_boundary(text[j]);
    }
    assert(spec_is_digit(text[0]));
    assert forall|j: int| 1 <= j < text.len() implies crate::lexer::spec_potentially_numeric(
        #[trigger] text[j],
    ) by {
        assert(spec_is_digit(text[j]));
    }
    crate::lexer::lemma_lex_single_word(text);
    let t = spec_lex(text)[0];
    assert(spec_lex(text) =~= seq![t]);
    crate::parser::lemma_parse_single_atom(t, text);
    let doc = spec_parse_doc(spec_lex(text), text, 0);
    let e = doc.0[0];
    assert(doc.0 =~= seq![e]);
    assert(e.data matches ExpressionDataView::Presence(a, _) && a == AtomView::Number(text));
    assert(spec_minimized(e) == e);
}

/// The pipeline round trip for booleans: rendering `true` or `false`,
/// lexing and parsing it back, and decoding yields the value again.
pub proof fn lemma_bool_pipeline_roundtrip(v: bool)
    ensures
        ({
            let text = spec_dump(spec_encoded_bool(v));
            let doc = spec_parse_doc(spec_lex(text), text, 0);
            &&& doc.1.len() == 0
            &&& spec_dec_bool(doc.0, 0) matches Ok(p)
            &&& p.0 == v
        }),
{
    reveal_strlit("true");
    reveal_strlit("false");
    let text = if v {
        "true"@
    } else {
        "false"@
    };
    assert(spec_dump(spec_encoded_bool(v)) == text);
    assert forall|j: int| 0 <= j < text.len() implies !crate::lexer::spec_is_boundary(
        #[trigger] text[j],
    ) by {
        assert((text[j] as u32) == 116 || (text[j] as u32) == 114 || (text[j] as u32) == 117
            || (text[j] as u32) == 101 || (text[j] as u32) == 102 || (text[j] as u32) == 97
            || (text[j] as u32) == 108 || (text[j] as u32) == 115);
    }
    assert(!spec_is_digit(text[0]));
    crate::lexer::lemma_lex_single_word(text);
    let t = spec_lex(text)[0];
    assert(spec_lex(text) =~= seq![t]);
    crate::parser::lemma_parse_single_atom(t, text);
    let doc = spec_parse_doc(spec_lex(text), text, 0);
    let e = doc.0[0];
    assert(doc.0 =~= seq![e]);
    assert(e.data matches ExpressionDataView::Presence(a, _) && a == AtomView::Text(text));
    assert(spec_minimized(e) == e);
    assert("true"@.len() == 4 && "false"@.len() == 5);
    assert("true"@ != "false"@);
}

} // verus!
