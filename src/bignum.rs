use vstd::prelude::*;
use num_bigint::BigInt;
use num_traits::ToPrimitive;

verus! {

/// Value of little-endian base-256 digits, read as an unsigned number.
pub open spec fn bytes_unsigned(b: Seq<u8>) -> int
    decreases b.len(),
{
    if b.len() == 0 {
        0
    } else {
        b[0] as int + 256 * bytes_unsigned(b.subrange(1, b.len() as int))
    }
}

pub open spec fn pow256(n: nat) -> int
    decreases n,
{
    if n == 0 {
        1
    } else {
        256 * pow256((n - 1) as nat)
    }
}

/// Value of little-endian base-256 digits read in two's complement.
pub open spec fn twos_value(b: Seq<u8>) -> int {
    if b.len() == 0 {
        0
    } else if b[b.len() - 1] >= 128 {
        bytes_unsigned(b) - pow256(b.len())
    } else {
        bytes_unsigned(b)
    }
}

pub open spec fn fits_i32(v: int) -> bool {
    i32::MIN <= v <= i32::MAX
}

/// Quotient of division rounded toward zero.
pub open spec fn trunc_div(a: int, b: int) -> int {
    if b == 0 {
        0
    } else {
        let q = abs(a) / abs(b);
        if (a < 0) == (b < 0) {
            q
        } else {
            -q
        }
    }
}

pub open spec fn abs(a: int) -> int {
    if a < 0 {
        -a
    } else {
        a
    }
}

/// An integer of any size, held as two's-complement little-endian bytes.
pub struct BigNum {
    pub bytes: Vec<u8>,
}

impl BigNum {
    pub open spec fn value(&self) -> int {
        twos_value(self.bytes@)
    }

    pub fn copy(&self) -> (r: BigNum)
        ensures
            r.bytes@ == self.bytes@,
    {
        let mut bytes: Vec<u8> = Vec::new();
        let mut i: usize = 0;
        while i < self.bytes.len()
            invariant
                i <= self.bytes.len(),
                bytes@ == self.bytes@.subrange(0, i as int),
            decreases self.bytes.len() - i,
        {
            bytes.push(self.bytes[i]);
            i = i + 1;
        }
        BigNum { bytes }
    }
}

/// Relies on `BigInt::from(i32)` and `BigInt::to_signed_bytes_le`: the
/// bytes of the same integer.
#[verifier::external_body]
pub(crate) fn big_from_i32(n: i32) -> (r: BigNum)
    ensures
        r.value() == n as int,
{
    BigNum { bytes: BigInt::from(n).to_signed_bytes_le() }
}

/// Relies on `BigInt::from(u128)`: the bytes of the same integer.
#[verifier::external_body]
pub(crate) fn big_from_u128(n: u128) -> (r: BigNum)
    ensures
        r.value() == n as int,
{
    BigNum { bytes: BigInt::from(n).to_signed_bytes_le() }
}

/// Relies on `ToPrimitive::to_i32` of `BigInt`: the value when it fits.
#[verifier::external_body]
pub(crate) fn big_to_i32(a: &BigNum) -> (r: Option<i32>)
    ensures
        fits_i32(a.value()) ==> r == Some(a.value() as i32),
        !fits_i32(a.value()) ==> r.is_none(),
{
    BigInt::from_signed_bytes_le(&a.bytes).to_i32()
}

/// Relies on `ToPrimitive::to_u128` of `BigInt`: the value when it fits.
#[verifier::external_body]
pub(crate) fn big_to_u128(a: &BigNum) -> (r: Option<u128>)
    ensures
        0 <= a.value() <= u128::MAX ==> r == Some(a.value() as u128),
        !(0 <= a.value() <= u128::MAX) ==> r.is_none(),
{
    BigInt::from_signed_bytes_le(&a.bytes).to_u128()
}

/// Relies on `BigInt + BigInt`.
#[verifier::external_body]
pub(crate) fn big_add(a: &BigNum, b: &BigNum) -> (r: BigNum)
    ensures
        r.value() == a.value() + b.value(),
{
    let x = BigInt::from_signed_bytes_le(&a.bytes) + BigInt::from_signed_bytes_le(&b.bytes);
    BigNum { bytes: x.to_signed_bytes_le() }
}

/// Relies on `BigInt - BigInt`.
#[verifier::external_body]
pub(crate) fn big_sub(a: &BigNum, b: &BigNum) -> (r: BigNum)
    ensures
        r.value() == a.value() - b.value(),
{
    let x = BigInt::from_signed_bytes_le(&a.bytes) - BigInt::from_signed_bytes_le(&b.bytes);
    BigNum { bytes: x.to_signed_bytes_le() }
}

/// Relies on `BigInt * BigInt`.
#[verifier::external_body]
pub(crate) fn big_mul(a: &BigNum, b: &BigNum) -> (r: BigNum)
    ensures
        r.value() == a.value() * b.value(),
{
    let x = BigInt::from_signed_bytes_le(&a.bytes) * BigInt::from_signed_bytes_le(&b.bytes);
    BigNum { bytes: x.to_signed_bytes_le() }
}

/// Relies on `BigInt / BigInt`, which rounds toward zero and panics on a
/// zero divisor.
#[verifier::external_body]
pub(crate) fn big_div(a: &BigNum, b: &BigNum) -> (r: BigNum)
    requires
        b.value() != 0,
    ensures
        r.value() == trunc_div(a.value(), b.value()),
{
    let x = BigInt::from_signed_bytes_le(&a.bytes) / BigInt::from_signed_bytes_le(&b.bytes);
    BigNum { bytes: x.to_signed_bytes_le() }
}

/// Relies on `Ord::cmp` of `BigInt`: -1, 0 or 1 as `a` is below, equal
/// to or above `b`.
#[verifier::external_body]
pub(crate) fn big_cmp(a: &BigNum, b: &BigNum) -> (r: i8)
    ensures
        r == (if a.value() < b.value() { -1i8 } else if a.value() == b.value() { 0i8 } else { 1i8 }),
{
    let x = BigInt::from_signed_bytes_le(&a.bytes);
    let y = BigInt::from_signed_bytes_le(&b.bytes);
    x.cmp(&y) as i8
}

/// Relies on `BigInt: Display`: decimal digits, with a minus sign for a
/// negative number.
#[verifier::external_body]
pub(crate) fn big_text(a: &BigNum) -> (r: String)
    ensures
        r@ == crate::text::decimal_text(a.value()),
{
    BigInt::from_signed_bytes_le(&a.bytes).to_string()
}

} // verus!
