//! Numbers as the transformations read them: the zero test that
//! `as_f64() == Some(0.0)` makes, and the double that `as_f64` gives a number.
use vstd::prelude::*;
use crate::json::{JsonNumber, JsonV};

verus! {

/// Bit pattern of the double `1.0`.
pub const ONE_BITS: u64 = 0x3ff0_0000_0000_0000u64;

/// Bit pattern of the double `0.0`.
pub const ZERO_BITS: u64 = 0u64;

/// The bit pattern of the double that `serde_json::Number::as_f64` gives for
/// the number made from `u`.
pub uninterp spec fn u64_as_f64_bits(u: u64) -> u64;

/// The bit pattern of the double that `serde_json::Number::as_f64` gives for
/// the number made from `i`.
pub uninterp spec fn i64_as_f64_bits(i: i64) -> u64;

/// `serde_json::Number::from(u).as_f64()`, by its bit pattern. The source of
/// `as_f64` answers `Some(u as f64)` for such a number: a finite double (no
/// integer of 64 bits is out of a double's range). The contract names that
/// double and states of it only that it is finite; which double the
/// conversion rounds to is left unsaid.
#[verifier::external_body]
fn u64_to_f64_bits(u: u64) -> (r: u64)
    ensures
        r == u64_as_f64_bits(u),
        finite_bits(r),
{
    serde_json::Number::from(u).as_f64().unwrap_or_default().to_bits()
}

/// `serde_json::Number::from(i).as_f64()`, by its bit pattern. The source of
/// `as_f64` answers `Some(i as f64)` for such a number: a finite double. The
/// contract names that double and states of it only that it is finite; which
/// double the conversion rounds to is left unsaid.
#[verifier::external_body]
fn i64_to_f64_bits(i: i64) -> (r: u64)
    ensures
        r == i64_as_f64_bits(i),
        finite_bits(r),
{
    serde_json::Number::from(i).as_f64().unwrap_or_default().to_bits()
}

/// A bit pattern of a finite double (its exponent is not all ones).
pub open spec fn finite_bits(b: u64) -> bool {
    (b >> 52u64) & 0x7ffu64 != 0x7ffu64
}

/// `v.as_f64() == Some(0.0)`: the value is a number equal to zero
/// (`-0.0` included).
pub open spec fn is_zero_number(v: JsonV) -> bool {
    match v {
        JsonV::Number(JsonNumber::PosInt(u)) => u == 0,
        JsonV::Number(JsonNumber::NegInt(i)) => i == 0,
        JsonV::Number(JsonNumber::Float(b)) => b == 0 || b == 0x8000_0000_0000_0000u64,
        _ => false,
    }
}

/// The double that `as_f64` gives a member, as a bit pattern, or `default`
/// where the member is missing or not a number.
pub open spec fn f64_bits_or(o: Option<JsonV>, default: u64) -> u64 {
    match o {
        Some(JsonV::Number(JsonNumber::PosInt(u))) => u64_as_f64_bits(u),
        Some(JsonV::Number(JsonNumber::NegInt(i))) => i64_as_f64_bits(i),
        Some(JsonV::Number(JsonNumber::Float(b))) => b,
        _ => default,
    }
}

/// `Value::from(f)` for the double with bit pattern `b`: a number when it is
/// finite, `null` otherwise.
pub open spec fn float_value(b: u64) -> JsonV {
    if finite_bits(b) {
        JsonV::Number(JsonNumber::Float(b))
    } else {
        JsonV::Null
    }
}

pub fn is_zero(v: &crate::json::Json) -> (r: bool)
    ensures
        r == is_zero_number(v@),
{
    match v {
        crate::json::Json::Number(JsonNumber::PosInt(u)) => *u == 0,
        crate::json::Json::Number(JsonNumber::NegInt(i)) => *i == 0,
        crate::json::Json::Number(JsonNumber::Float(b)) => *b == 0 || *b == 0x8000_0000_0000_0000u64,
        _ => false,
    }
}

/// The bit pattern of what `as_f64` gives `o`, or `default`.
pub fn as_f64_bits_or(o: Option<&crate::json::Json>, default: u64) -> (r: u64)
    ensures
        r == f64_bits_or(crate::json::opt_view(o), default),
{
    match o {
        Some(crate::json::Json::Number(JsonNumber::PosInt(u))) => u64_to_f64_bits(*u),
        Some(crate::json::Json::Number(JsonNumber::NegInt(i))) => i64_to_f64_bits(*i),
        Some(crate::json::Json::Number(JsonNumber::Float(b))) => *b,
        _ => default,
    }
}

/// `Value::from` of the double with bit pattern `b`.
pub fn float_json(b: u64) -> (r: crate::json::Json)
    ensures
        r@ == float_value(b),
{
    if (b >> 52u64) & 0x7ffu64 != 0x7ffu64 {
        crate::json::Json::Number(JsonNumber::Float(b))
    } else {
        crate::json::Json::Null
    }
}

/// `Value::from(as_f64().unwrap_or(default))` for a member `o`: an integer
/// member becomes the number of its double, a double stays, and anything
/// else gives the default; a double that is not finite gives `null`.
pub open spec fn double_value(o: Option<JsonV>, default: u64) -> JsonV {
    match o {
        Some(JsonV::Number(JsonNumber::PosInt(u))) => JsonV::Number(JsonNumber::Float(u64_as_f64_bits(u))),
        Some(JsonV::Number(JsonNumber::NegInt(i))) => JsonV::Number(JsonNumber::Float(i64_as_f64_bits(i))),
        _ => float_value(f64_bits_or(o, default)),
    }
}

/// The member `o` as a double, or `default`, as a JSON value.
pub fn double_json(o: Option<&crate::json::Json>, default: u64) -> (r: crate::json::Json)
    ensures
        r@ == double_value(crate::json::opt_view(o), default),
{
    match o {
        Some(crate::json::Json::Number(JsonNumber::PosInt(u))) => {
            crate::json::Json::Number(JsonNumber::Float(u64_to_f64_bits(*u)))
        },
        Some(crate::json::Json::Number(JsonNumber::NegInt(i))) => {
            crate::json::Json::Number(JsonNumber::Float(i64_to_f64_bits(*i)))
        },
        _ => float_json(as_f64_bits_or(o, default)),
    }
}

/// The six members of a transform matrix as the bit patterns of their
/// doubles: `m00` and `m11` default to 1, the others to 0, and anything but
/// an object is the identity.
pub open spec fn matrix_bits_of(t: JsonV) -> (u64, u64, u64, u64, u64, u64) {
    match t {
        JsonV::Object(_) => (
            f64_bits_or(crate::json::jget(t, "m00"@), ONE_BITS),
            f64_bits_or(crate::json::jget(t, "m01"@), ZERO_BITS),
            f64_bits_or(crate::json::jget(t, "m02"@), ZERO_BITS),
            f64_bits_or(crate::json::jget(t, "m10"@), ZERO_BITS),
            f64_bits_or(crate::json::jget(t, "m11"@), ONE_BITS),
            f64_bits_or(crate::json::jget(t, "m12"@), ZERO_BITS),
        ),
        _ => (ONE_BITS, ZERO_BITS, ZERO_BITS, ZERO_BITS, ONE_BITS, ZERO_BITS),
    }
}

/// The members `a, c, tx, b, d, ty` of the affine matrix that a `transform`
/// member describes, as bit patterns of doubles.
pub fn matrix_bits(t: &crate::json::Json) -> (r: (u64, u64, u64, u64, u64, u64))
    ensures
        r == matrix_bits_of(t@),
{
    match t {
        crate::json::Json::Object(_) => (
            as_f64_bits_or(t.get("m00"), ONE_BITS),
            as_f64_bits_or(t.get("m01"), ZERO_BITS),
            as_f64_bits_or(t.get("m02"), ZERO_BITS),
            as_f64_bits_or(t.get("m10"), ZERO_BITS),
            as_f64_bits_or(t.get("m11"), ONE_BITS),
            as_f64_bits_or(t.get("m12"), ZERO_BITS),
        ),
        _ => (ONE_BITS, ZERO_BITS, ZERO_BITS, ZERO_BITS, ONE_BITS, ZERO_BITS),
    }
}

} // verus!
