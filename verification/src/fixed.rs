//! Fixed-point arithmetic in millionths.

use vstd::prelude::*;

verus! {

/// The fixed-point representation of one whole: a stored value `v` stands for
/// the quantity `v / UNIT`.
pub const UNIT: u64 = 1_000_000;

/// The product of two fixed-point quantities, rounded down.
pub open spec fn product(a: int, b: int) -> int {
    a * b / (UNIT as int)
}

/// `value * num / den`, rounded down.
pub open spec fn ratio(value: int, num: int, den: int) -> int {
    value * num / den
}

/// The smaller of two integers.
pub open spec fn least(a: int, b: int) -> int {
    if a <= b {
        a
    } else {
        b
    }
}

/// `a - b`, or zero where `b` exceeds `a`.
pub open spec fn monus(a: int, b: int) -> int {
    if a >= b {
        a - b
    } else {
        0
    }
}

/// `x`, or the largest `u64` where `x` exceeds it.
pub open spec fn saturated(x: int) -> int {
    least(x, u64::MAX as int)
}

/// The product of two `u64` values fits in a `u128`.
pub proof fn lemma_product_fits(a: u64, b: u64)
    ensures
        0 <= a * b <= u128::MAX,
{
    assert(0 <= a * b <= 0xffff_ffff_ffff_ffff * 0xffff_ffff_ffff_ffff) by (nonlinear_arith)
        requires
            0 <= a <= 0xffff_ffff_ffff_ffff,
            0 <= b <= 0xffff_ffff_ffff_ffff,
    ;
}

/// Multiplies two fixed-point quantities. The result is wide enough never to
/// overflow.
pub fn mul_fixed(a: u64, b: u64) -> (r: u128)
    ensures
        r == product(a as int, b as int),
{
    proof {
        lemma_product_fits(a, b);
    }
    let wide: u128 = (a as u128) * (b as u128);
    wide / (UNIT as u128)
}

/// Multiplies two fixed-point quantities and caps the result at `cap`.
pub fn mul_capped(a: u64, b: u64, cap: u64) -> (r: u64)
    ensures
        r == least(product(a as int, b as int), cap as int),
{
    let wide: u128 = mul_fixed(a, b);
    if wide > cap as u128 {
        cap
    } else {
        wide as u64
    }
}

/// Takes the fraction `num / den` of `value`, rounded down.
pub fn fraction(value: u64, num: u64, den: u64) -> (r: u64)
    requires
        0 < den,
        num <= den,
    ensures
        r == ratio(value as int, num as int, den as int),
        r <= value,
{
    proof {
        lemma_product_fits(value, num);
        assert(value * num <= value * den) by (nonlinear_arith)
            requires
                num <= den,
                0 <= value,
        ;
        vstd::arithmetic::div_mod::lemma_div_is_ordered(
            value * num,
            value * den,
            den as int,
        );
        vstd::arithmetic::div_mod::lemma_div_multiples_vanish(value as int, den as int);
        assert(value * den == den * value) by (nonlinear_arith);
        vstd::arithmetic::div_mod::lemma_div_pos_is_pos(value * num, den as int);
    }
    let wide: u128 = (value as u128) * (num as u128);
    (wide / (den as u128)) as u64
}

/// `r` is the integer square root of `n`: the largest integer whose square
/// does not exceed `n`.
pub open spec fn is_root(n: int, r: int) -> bool {
    0 <= r && r * r <= n < (r + 1) * (r + 1)
}

/// The integer square root of `n`.
pub open spec fn root(n: int) -> int {
    choose|r: int| is_root(n, r)
}

/// A number has one integer square root at most.
pub proof fn lemma_root_is_unique(n: int, a: int, b: int)
    requires
        is_root(n, a),
        is_root(n, b),
    ensures
        a == b,
{
    if a < b {
        assert((a + 1) * (a + 1) <= b * b) by (nonlinear_arith)
            requires
                0 <= a,
                a + 1 <= b,
        ;
    }
    if b < a {
        assert((b + 1) * (b + 1) <= a * a) by (nonlinear_arith)
            requires
                0 <= b,
                b + 1 <= a,
        ;
    }
}

/// The length of the vector `(dx, dy)`, rounded down and cut off at the
/// largest `u64`. With fixed-point components the length is fixed-point too.
pub open spec fn span(dx: int, dy: int) -> int {
    if dx * dx + dy * dy > u128::MAX {
        u64::MAX as int
    } else {
        root(dx * dx + dy * dy)
    }
}

/// Computes the integer square root.
pub fn sqrt_floor(n: u128) -> (r: u64)
    ensures
        is_root(n as int, r as int),
        r == root(n as int),
{
    let mut lo: u128 = 0;
    let mut hi: u128 = 0x1_0000_0000_0000_0000;
    assert(n < hi * hi) by (nonlinear_arith)
        requires
            hi == 0x1_0000_0000_0000_0000,
            n <= 0xffff_ffff_ffff_ffff_ffff_ffff_ffff_ffff,
    ;
    while hi - lo > 1
        invariant
            lo < hi <= 0x1_0000_0000_0000_0000,
            lo * lo <= n < hi * hi,
        decreases hi - lo,
    {
        let mid: u128 = lo + (hi - lo) / 2;
        assert(mid * mid <= 0xffff_ffff_ffff_ffff * 0xffff_ffff_ffff_ffff) by (nonlinear_arith)
            requires
                0 <= mid <= 0xffff_ffff_ffff_ffff,
        ;
        if mid * mid <= n {
            lo = mid;
        } else {
            hi = mid;
        }
    }
    proof {
        assert(hi == lo + 1);
        lemma_root_is_unique(n as int, lo as int, root(n as int));
    }
    lo as u64
}

/// Computes the length of a vector from the magnitudes of its components.
pub fn distance(dx: u64, dy: u64) -> (d: u64)
    ensures
        d == span(dx as int, dy as int),
{
    proof {
        lemma_product_fits(dx, dx);
        lemma_product_fits(dy, dy);
    }
    let across: u128 = (dx as u128) * (dx as u128);
    let down: u128 = (dy as u128) * (dy as u128);
    if across > u128::MAX - down {
        u64::MAX
    } else {
        sqrt_floor(across + down)
    }
}

/// Adds two quantities and caps the sum at `cap`.
pub fn add_capped(a: u64, b: u64, cap: u64) -> (r: u64)
    ensures
        r == least(a + b, cap as int),
{
    if a >= cap || b >= cap - a {
        cap
    } else {
        a + b
    }
}

/// Subtracts `b` from `a`, stopping at zero.
pub fn sub_floor(a: u64, b: u64) -> (r: u64)
    ensures
        r == monus(a as int, b as int),
{
    if a >= b {
        a - b
    } else {
        0
    }
}

} // verus!
