//! Integer arithmetic on 128-bit amounts and on the 256-bit intermediates of
//! the contract environment.

use soroban_fixed_point_math::FixedPoint;
use soroban_sdk::{Env, I256};
use vstd::prelude::*;

verus! {

/// Declares `Env` of `soroban_sdk`, the contract environment. It is only handed on
/// to the calls that need it. It meters what a transaction uses and aborts the whole
/// transaction beyond its budget; nothing is stated of that.
#[verifier::external_type_specification]
#[verifier::external_body]
pub struct ExEnv(Env);

/// Whether `x` is representable as an `i128`.
pub open spec fn fits_i128(x: int) -> bool {
    i128::MIN <= x <= i128::MAX
}

/// The greatest integer that is not above `n / d`.
pub open spec fn floor_div(n: int, d: int) -> int {
    if d > 0 {
        n / d
    } else {
        (-n) / (-d)
    }
}

/// The least integer that is not below `n / d`.
pub open spec fn ceil_div(n: int, d: int) -> int {
    -floor_div(-n, d)
}

/// Whether `q` is the greatest integer whose multiple by `d` does not exceed `n`.
pub open spec fn is_floor_of(q: int, n: int, d: int) -> bool {
    q * d <= n < q * d + d
}

/// Whether `q` is the least integer whose multiple by `d` reaches `n`.
pub open spec fn is_ceil_of(q: int, n: int, d: int) -> bool {
    q * d - d < n <= q * d
}

/// The sum of a list.
pub open spec fn sum_of(values: Seq<int>) -> int
    decreases values.len(),
{
    if values.len() == 0 {
        0
    } else {
        sum_of(values.drop_last()) + values.last()
    }
}

/// The quotient is the greatest integer whose multiple does not exceed the dividend.
pub proof fn lemma_floor(n: int, d: int)
    requires
        d > 0,
    ensures
        is_floor_of(n / d, n, d),
        n >= 0 ==> n / d >= 0,
{
    vstd::arithmetic::div_mod::lemma_fundamental_div_mod(n, d);
    vstd::arithmetic::div_mod::lemma_mod_bound(n, d);
    vstd::arithmetic::mul::lemma_mul_is_commutative(d, n / d);
    if n >= 0 {
        lemma_quotient_bounds(n, d);
    }
}

/// The quotient rounded up is the least integer whose multiple reaches the dividend.
pub proof fn lemma_ceil(n: int, d: int)
    requires
        d > 0,
    ensures
        is_ceil_of(ceil_div(n, d), n, d),
{
    lemma_ceil_by_floor(n, d);
    let q = ceil_div(n, d);
    assert((q - 1) * d == q * d - d) by (nonlinear_arith);
}

/// There is one such greatest integer.
pub proof fn lemma_floor_is_unique(q: int, n: int, d: int)
    requires
        d > 0,
        is_floor_of(q, n, d),
    ensures
        q == n / d,
{
    lemma_floor(n, d);
    let p = n / d;
    assert(q == p) by (nonlinear_arith)
        requires
            d > 0,
            q * d <= n < q * d + d,
            p * d <= n < p * d + d,
    ;
}

/// There is one such least integer.
pub proof fn lemma_ceil_is_unique(q: int, n: int, d: int)
    requires
        d > 0,
        is_ceil_of(q, n, d),
    ensures
        q == ceil_div(n, d),
{
    lemma_ceil(n, d);
    let p = ceil_div(n, d);
    assert(q == p) by (nonlinear_arith)
        requires
            d > 0,
            q * d - d < n <= q * d,
            p * d - d < n <= p * d,
    ;
}

/// The quotient `n / d` with its fraction cut off.
pub open spec fn trunc_div(n: int, d: int) -> int {
    if n >= 0 {
        n / d
    } else {
        -((-n) / d)
    }
}

/// `x` as a checked `i128`: `None` where it is not representable.
pub open spec fn checked_int(x: int) -> Option<i128> {
    if fits_i128(x) {
        Some(x as i128)
    } else {
        None
    }
}

/// What the fixed-point operations return for the product `p`, the divisor `d`
/// and the rounded quotient `q`: nothing where `p` overflows, where `d` is zero
/// or where `q` overflows.
pub open spec fn fixed_result(p: int, d: int, q: int) -> Option<i128> {
    if fits_i128(p) && d != 0 {
        checked_int(q)
    } else {
        None
    }
}

/// Calls `FixedPoint::fixed_mul_floor` of `soroban_fixed_point_math` for `i128`.
///
/// Trusted: the result is `floor(x * y / denominator)`, and `None` where the
/// product or the quotient overflows or the denominator is zero.
#[verifier::external_body]
pub(crate) fn fixed_mul_floor(x: i128, y: i128, denominator: i128) -> (r: Option<i128>)
    ensures
        r == fixed_result(x * y, denominator as int, floor_div(x * y, denominator as int)),
{
    FixedPoint::fixed_mul_floor(x, y, denominator)
}

/// Calls `FixedPoint::fixed_mul_ceil` of `soroban_fixed_point_math` for `i128`.
///
/// Trusted: the result is `ceil(x * y / denominator)`, and `None` where the
/// product or the quotient overflows or the denominator is zero.
#[verifier::external_body]
pub(crate) fn fixed_mul_ceil(x: i128, y: i128, denominator: i128) -> (r: Option<i128>)
    ensures
        r == fixed_result(x * y, denominator as int, ceil_div(x * y, denominator as int)),
{
    FixedPoint::fixed_mul_ceil(x, y, denominator)
}

/// A signed 256-bit integer in two's complement as four 64-bit words, the most
/// significant first: the words that `I256::from_parts` takes.
#[derive(Clone, Copy, Debug, PartialEq, Eq, Structural)]
pub struct Wide {
    pub hi_hi: i64,
    pub hi_lo: u64,
    pub lo_hi: u64,
    pub lo_lo: u64,
}

impl Wide {
    /// The integer that the words stand for.
    pub open spec fn value(self) -> int {
        self.hi_hi * 0x1_0000_0000_0000_0000_0000_0000_0000_0000_0000_0000_0000_0000int
            + self.hi_lo * 0x1_0000_0000_0000_0000_0000_0000_0000_0000int
            + self.lo_hi * 0x1_0000_0000_0000_0000int + self.lo_lo
    }
}

/// Whether `x` is representable in 256 bits.
pub open spec fn fits_wide(x: int) -> bool {
    -0x8000_0000_0000_0000_0000_0000_0000_0000_0000_0000_0000_0000_0000_0000_0000_0000int <= x
        < 0x8000_0000_0000_0000_0000_0000_0000_0000_0000_0000_0000_0000_0000_0000_0000_0000int
}

/// Calls `I256::from_i128` of `soroban_sdk`.
///
/// Trusted: the result stands for the same integer.
#[verifier::external_body]
pub(crate) fn wide_from_i128(e: &Env, x: i128) -> (r: Wide)
    ensures
        r.value() == x,
{
    let mut b = [0u8; 32];
    I256::from_i128(e, x).to_be_bytes().copy_into_slice(&mut b);
    Wide {
        hi_hi: i64::from_be_bytes(b[0..8].try_into().unwrap()),
        hi_lo: u64::from_be_bytes(b[8..16].try_into().unwrap()),
        lo_hi: u64::from_be_bytes(b[16..24].try_into().unwrap()),
        lo_lo: u64::from_be_bytes(b[24..32].try_into().unwrap()),
    }
}

/// Calls `I256::to_i128` of `soroban_sdk`.
///
/// Trusted: the result is the same integer, and `None` where an `i128` cannot
/// hold it.
#[verifier::external_body]
pub(crate) fn wide_to_i128(e: &Env, x: Wide) -> (r: Option<i128>)
    ensures
        r == checked_int(x.value()),
{
    I256::from_parts(e, x.hi_hi, x.hi_lo, x.lo_hi, x.lo_lo).to_i128()
}

/// Calls `I256::add` of `soroban_sdk`, which aborts where the result does not
/// fit in 256 bits.
///
/// Trusted: the result stands for the sum.
#[verifier::external_body]
pub(crate) fn wide_add(e: &Env, x: Wide, y: Wide) -> (r: Wide)
    requires
        fits_wide(x.value() + y.value()),
    ensures
        r.value() == x.value() + y.value(),
{
    let mut b = [0u8; 32];
    I256::from_parts(e, x.hi_hi, x.hi_lo, x.lo_hi, x.lo_lo)
        .add(&I256::from_parts(e, y.hi_hi, y.hi_lo, y.lo_hi, y.lo_lo))
        .to_be_bytes()
        .copy_into_slice(&mut b);
    Wide {
        hi_hi: i64::from_be_bytes(b[0..8].try_into().unwrap()),
        hi_lo: u64::from_be_bytes(b[8..16].try_into().unwrap()),
        lo_hi: u64::from_be_bytes(b[16..24].try_into().unwrap()),
        lo_lo: u64::from_be_bytes(b[24..32].try_into().unwrap()),
    }
}

/// Calls `I256::sub` of `soroban_sdk`, which aborts where the result does not
/// fit in 256 bits.
///
/// Trusted: the result stands for the difference.
#[verifier::external_body]
pub(crate) fn wide_sub(e: &Env, x: Wide, y: Wide) -> (r: Wide)
    requires
        fits_wide(x.value() - y.value()),
    ensures
        r.value() == x.value() - y.value(),
{
    let mut b = [0u8; 32];
    I256::from_parts(e, x.hi_hi, x.hi_lo, x.lo_hi, x.lo_lo)
        .sub(&I256::from_parts(e, y.hi_hi, y.hi_lo, y.lo_hi, y.lo_lo))
        .to_be_bytes()
        .copy_into_slice(&mut b);
    Wide {
        hi_hi: i64::from_be_bytes(b[0..8].try_into().unwrap()),
        hi_lo: u64::from_be_bytes(b[8..16].try_into().unwrap()),
        lo_hi: u64::from_be_bytes(b[16..24].try_into().unwrap()),
        lo_lo: u64::from_be_bytes(b[24..32].try_into().unwrap()),
    }
}

/// Calls `I256::mul` of `soroban_sdk`, which aborts where the result does not
/// fit in 256 bits.
///
/// Trusted: the result stands for the product.
#[verifier::external_body]
pub(crate) fn wide_mul(e: &Env, x: Wide, y: Wide) -> (r: Wide)
    requires
        fits_wide(x.value() * y.value()),
    ensures
        r.value() == x.value() * y.value(),
{
    let mut b = [0u8; 32];
    I256::from_parts(e, x.hi_hi, x.hi_lo, x.lo_hi, x.lo_lo)
        .mul(&I256::from_parts(e, y.hi_hi, y.hi_lo, y.lo_hi, y.lo_lo))
        .to_be_bytes()
        .copy_into_slice(&mut b);
    Wide {
        hi_hi: i64::from_be_bytes(b[0..8].try_into().unwrap()),
        hi_lo: u64::from_be_bytes(b[8..16].try_into().unwrap()),
        lo_hi: u64::from_be_bytes(b[16..24].try_into().unwrap()),
        lo_lo: u64::from_be_bytes(b[24..32].try_into().unwrap()),
    }
}

/// Calls `I256::div` of `soroban_sdk`, which aborts where the result does not
/// fit in 256 bits or the divisor is zero.
///
/// Trusted: the result stands for the quotient, with its fraction cut off.
#[verifier::external_body]
pub(crate) fn wide_div(e: &Env, x: Wide, y: Wide) -> (r: Wide)
    requires
        y.value() != 0,
        fits_wide(trunc_div(x.value(), y.value())),
    ensures
        r.value() == trunc_div(x.value(), y.value()),
{
    let mut b = [0u8; 32];
    I256::from_parts(e, x.hi_hi, x.hi_lo, x.lo_hi, x.lo_lo)
        .div(&I256::from_parts(e, y.hi_hi, y.hi_lo, y.lo_hi, y.lo_lo))
        .to_be_bytes()
        .copy_into_slice(&mut b);
    Wide {
        hi_hi: i64::from_be_bytes(b[0..8].try_into().unwrap()),
        hi_lo: u64::from_be_bytes(b[8..16].try_into().unwrap()),
        lo_hi: u64::from_be_bytes(b[16..24].try_into().unwrap()),
        lo_lo: u64::from_be_bytes(b[24..32].try_into().unwrap()),
    }
}

/// A product of two `i128` numbers fits in 256 bits, with room for a third
/// addend of that size.
pub proof fn lemma_product_fits(a: int, b: int)
    requires
        fits_i128(a),
        fits_i128(b),
    ensures
        -0x4000_0000_0000_0000_0000_0000_0000_0000_0000_0000_0000_0000_0000_0000_0000_0000int <= a
            * b
            <= 0x4000_0000_0000_0000_0000_0000_0000_0000_0000_0000_0000_0000_0000_0000_0000_0000int,
        fits_wide(a * b),
{
    assert(-0x4000_0000_0000_0000_0000_0000_0000_0000_0000_0000_0000_0000_0000_0000_0000_0000int
        <= a * b
        <= 0x4000_0000_0000_0000_0000_0000_0000_0000_0000_0000_0000_0000_0000_0000_0000_0000int)
        by (nonlinear_arith)
        requires
            -0x8000_0000_0000_0000_0000_0000_0000_0000int <= a
                <= 0x7fff_ffff_ffff_ffff_ffff_ffff_ffff_ffffint,
            -0x8000_0000_0000_0000_0000_0000_0000_0000int <= b
                <= 0x7fff_ffff_ffff_ffff_ffff_ffff_ffff_ffffint,
    ;
}

/// `floor(value * numerator / denominator)` through 256 bits: `None` only where
/// the quotient itself overflows.
pub fn mul_div_floor(e: &Env, value: i128, numerator: i128, denominator: i128) -> (r: Option<i128>)
    requires
        value >= 0,
        numerator >= 0,
        denominator > 0,
    ensures
        r == checked_int(value * numerator / denominator as int),
{
    proof {
        lemma_product_fits(value as int, numerator as int);
        lemma_quotient_bounds(value * numerator, denominator as int);
    }
    let product: Wide = wide_mul(e, wide_from_i128(e, value), wide_from_i128(e, numerator));
    let quotient: Wide = wide_div(e, product, wide_from_i128(e, denominator));
    wide_to_i128(e, quotient)
}

/// `ceil(value * numerator / denominator)` through 256 bits: `None` only where
/// the quotient itself overflows.
pub fn mul_div_ceil(e: &Env, value: i128, numerator: i128, denominator: i128) -> (r: Option<i128>)
    requires
        value >= 0,
        numerator >= 0,
        denominator > 0,
    ensures
        r == checked_int(ceil_div(value * numerator, denominator as int)),
{
    let divisor: Wide = wide_from_i128(e, denominator);
    proof {
        lemma_product_fits(value as int, numerator as int);
        lemma_ceil_by_floor(value * numerator, denominator as int);
        lemma_quotient_bounds(value * numerator + denominator - 1, denominator as int);
    }
    let product: Wide = wide_mul(e, wide_from_i128(e, value), wide_from_i128(e, numerator));
    let raised: Wide = wide_sub(e, wide_add(e, product, divisor), wide_from_i128(e, 1));
    let quotient: Wide = wide_div(e, raised, divisor);
    wide_to_i128(e, quotient)
}

/// The quotient of a nonnegative number by a positive one lies between zero and
/// the number.
pub proof fn lemma_quotient_bounds(n: int, d: int)
    requires
        n >= 0,
        d > 0,
    ensures
        0 <= n / d <= n,
        (n / d) * d <= n < (n / d) * d + d,
        n - (n / d) * d == n % d,
        0 <= n % d < d,
{
    vstd::arithmetic::div_mod::lemma_fundamental_div_mod(n, d);
    vstd::arithmetic::mul::lemma_mul_is_commutative(d, n / d);
    assert(0 <= n / d <= n) by (nonlinear_arith)
        requires
            n >= 0,
            d > 0,
    ;
    vstd::arithmetic::div_mod::lemma_mod_bound(n, d);
}

/// Rounding up equals rounding down after adding one less than the divisor.
pub proof fn lemma_ceil_by_floor(n: int, d: int)
    requires
        d > 0,
    ensures
        ceil_div(n, d) == (n + d - 1) / d,
        ceil_div(n, d) * d >= n,
        (ceil_div(n, d) - 1) * d < n,
{
    let q = (n + d - 1) / d;
    let f = (-n) / d;
    vstd::arithmetic::div_mod::lemma_fundamental_div_mod(n + d - 1, d);
    vstd::arithmetic::div_mod::lemma_mod_bound(n + d - 1, d);
    vstd::arithmetic::div_mod::lemma_fundamental_div_mod(-n, d);
    vstd::arithmetic::div_mod::lemma_mod_bound(-n, d);
    assert(q == -f) by (nonlinear_arith)
        requires
            n + d - 1 == d * q + (n + d - 1) % d,
            0 <= (n + d - 1) % d < d,
            -n == d * f + (-n) % d,
            0 <= (-n) % d < d,
            d > 0,
    ;
    assert(q * d >= n && (q - 1) * d < n) by (nonlinear_arith)
        requires
            n + d - 1 == d * q + (n + d - 1) % d,
            0 <= (n + d - 1) % d < d,
            d > 0,
    ;
}

} // verus!
