use vstd::prelude::*;
use vstd::arithmetic::div_mod::{
    lemma_div_is_ordered, lemma_div_pos_is_pos, lemma_div_by_multiple,
};

verus! {

/// Scale factor of the fixed-point representation: a raw value `r`
/// stands for the real number `r / SCALE`, so `SCALE` itself is 1.0.
pub const SCALE: i64 = 65536;

/// Half of `SCALE`, the fixed-point value 0.5.
pub const HALF: i64 = 32768;

/// Largest component magnitude the binary geometric operations accept;
/// keeps every intermediate product inside `i128` and every fixed-point
/// result inside `i64`.
pub const COMP_MAX: i64 = 0x20_0000_0000;

/// Truncating division (round toward zero), the rounding used by every
/// fixed-point operation in this crate. The spec-level `/` is Euclidean,
/// which differs on negative numerators.
pub open spec fn trunc_div(n: int, d: int) -> int {
    if n >= 0 {
        n / d
    } else {
        -((-n) / d)
    }
}

/// Fixed-point product: the wide product rescaled by `SCALE`,
/// rounded toward zero.
pub open spec fn mulf(a: int, b: int) -> int {
    trunc_div(a * b, SCALE as int)
}

/// `r` is the integer square root of `n`, rounded down.
pub open spec fn is_sqrt_floor(n: int, r: int) -> bool {
    &&& 0 <= r
    &&& r * r <= n
    &&& n < (r + 1) * (r + 1)
}

/// The integer square root, rounded down.
pub closed spec fn sqrt_floor(n: int) -> int {
    choose|r: int| is_sqrt_floor(n, r)
}

/// The integer square root is unique, so any witness equals `sqrt_floor`.
pub proof fn lemma_sqrt_floor_unique(n: int, r: int)
    requires
        is_sqrt_floor(n, r),
    ensures
        sqrt_floor(n) == r,
{
    let s = choose|s: int| is_sqrt_floor(n, s);
    assert(is_sqrt_floor(n, s));
    assert(s == r) by (nonlinear_arith)
        requires
            is_sqrt_floor(n, s),
            is_sqrt_floor(n, r),
    ;
}

/// Every nonnegative integer has an integer square root, so
/// `sqrt_floor` is meaningful on nonnegative arguments.
pub proof fn lemma_sqrt_floor_exists(n: int)
    requires
        0 <= n,
    ensures
        is_sqrt_floor(n, sqrt_floor(n)),
        0 <= sqrt_floor(n),
    decreases n,
{
    if n == 0 {
        assert(is_sqrt_floor(0, 0));
    } else {
        lemma_sqrt_floor_exists(n - 1);
        let r = sqrt_floor(n - 1);
        if n < (r + 1) * (r + 1) {
            assert(is_sqrt_floor(n, r));
        } else {
            assert(n == (r + 1) * (r + 1));
            assert((r + 1) * (r + 1) < (r + 2) * (r + 2)) by (nonlinear_arith)
                requires
                    0 <= r,
            ;
            assert(is_sqrt_floor(n, r + 1));
        }
    }
    assert(exists|r: int| is_sqrt_floor(n, r));
}

/// Truncating division by a positive divisor keeps the numerator's sign.
pub proof fn lemma_trunc_div_sign(n: int, d: int)
    requires
        0 < d,
    ensures
        n >= 0 ==> trunc_div(n, d) >= 0,
        n <= 0 ==> trunc_div(n, d) <= 0,
{
    if n > 0 {
        lemma_div_pos_is_pos(n, d);
    } else if n < 0 {
        lemma_div_pos_is_pos(-n, d);
    } else {
        lemma_div_pos_is_pos(0, d);
    }
}

/// Truncating division stays within the scaled bound of its numerator
/// and keeps its sign.
pub proof fn lemma_trunc_div_bounds(n: int, d: int, b: int)
    requires
        0 < d,
        0 <= b,
        -b <= n <= b,
    ensures
        -(b / d) <= trunc_div(n, d) <= b / d,
        n >= 0 ==> trunc_div(n, d) >= 0,
        n <= 0 ==> trunc_div(n, d) <= 0,
{
    lemma_div_pos_is_pos(b, d);
    if n >= 0 {
        lemma_div_pos_is_pos(n, d);
        lemma_div_is_ordered(n, b, d);
    } else {
        lemma_div_pos_is_pos(-n, d);
        lemma_div_is_ordered(-n, b, d);
    }
}

/// The wide product of two machine words, exact in `i128`.
pub fn wide_mul(a: i64, b: i64) -> (r: i128)
    ensures
        r == a as int * b as int,
        -0x4000_0000_0000_0000_0000_0000_0000_0000 <= r
            <= 0x4000_0000_0000_0000_0000_0000_0000_0000,
{
    proof {
        assert(a as int * b as int <= 0x4000_0000_0000_0000_0000_0000_0000_0000
            && a as int * b as int >= -0x4000_0000_0000_0000_0000_0000_0000_0000)
            by (nonlinear_arith)
            requires
                -0x8000_0000_0000_0000 <= a as int <= 0x8000_0000_0000_0000,
                -0x8000_0000_0000_0000 <= b as int <= 0x8000_0000_0000_0000,
        ;
    }
    (a as i128) * (b as i128)
}

/// Truncating division of a wide intermediate by a positive divisor.
pub fn tdiv(n: i128, d: i128) -> (r: i128)
    requires
        0 < d,
        -0x4000_0000_0000_0000_0000_0000_0000_0000 <= n,
    ensures
        r == trunc_div(n as int, d as int),
{
    if n >= 0 {
        let q: u128 = (n as u128) / (d as u128);
        proof {
            lemma_div_pos_is_pos(n as int, d as int);
            lemma_div_is_ordered(q as int, n as int, 1);
            lemma_div_is_ordered(n as int, i128::MAX as int, d as int);
        }
        q as i128
    } else {
        let m: u128 = (-n) as u128;
        let q: u128 = m / (d as u128);
        proof {
            lemma_div_pos_is_pos(m as int, d as int);
            lemma_div_is_ordered(m as int, -(i128::MIN as int + 1), d as int);
        }
        -(q as i128)
    }
}

/// Fixed-point multiplication, exact up to the truncating rescale.
pub fn mul_fx(a: i64, b: i64) -> (r: i64)
    requires
        i64::MIN <= mulf(a as int, b as int) <= i64::MAX,
    ensures
        r == mulf(a as int, b as int),
{
    let p = wide_mul(a, b);
    let q = tdiv(p, SCALE as i128);
    q as i64
}

/// Integer square root, rounded down.
pub fn isqrt(n: u128) -> (r: u64)
    ensures
        is_sqrt_floor(n as int, r as int),
        r as int == sqrt_floor(n as int),
{
    let mut lo: u128 = 0;
    let mut hi: u128 = 0x1_0000_0000_0000_0000;
    proof {
        assert(n < 0x1_0000_0000_0000_0000 * 0x1_0000_0000_0000_0000);
    }
    while lo + 1 < hi
        invariant
            0 <= lo < hi <= 0x1_0000_0000_0000_0000,
            lo * lo <= n,
            n < hi * hi,
        decreases hi - lo,
    {
        let mid: u128 = lo + (hi - lo) / 2;
        proof {
            lemma_div_pos_is_pos((hi - lo) as int, 2);
            assert(lo < mid < hi) by {
                assert(1 <= (hi - lo) / 2 < hi - lo) by (nonlinear_arith)
                    requires
                        hi - lo >= 2,
                ;
            }
            assert(mid * mid < 0x1_0000_0000_0000_0000_0000_0000_0000_0000)
                by (nonlinear_arith)
                requires
                    0 <= mid < 0x1_0000_0000_0000_0000,
            ;
        }
        if mid * mid <= n {
            lo = mid;
        } else {
            hi = mid;
        }
    }
    proof {
        assert(is_sqrt_floor(n as int, lo as int));
        lemma_sqrt_floor_unique(n as int, lo as int);
    }
    lo as u64
}

/// A fixed-point product with a factor in `[0, 1]` shrinks a
/// nonnegative value.
pub proof fn lemma_mulf_unit(a: int, b: int)
    requires
        0 <= a,
        0 <= b <= SCALE,
    ensures
        0 <= mulf(a, b) <= a,
{
    assert(0 <= a * b <= a * SCALE as int) by (nonlinear_arith)
        requires
            0 <= a,
            0 <= b <= SCALE as int,
    ;
    lemma_div_pos_is_pos(a * b, SCALE as int);
    lemma_div_is_ordered(a * b, a * SCALE as int, SCALE as int);
    lemma_div_by_multiple(a, SCALE as int);
}

/// A fixed-point product by exactly one changes nothing on
/// nonnegative values.
pub proof fn lemma_mulf_one(a: int)
    requires
        0 <= a,
    ensures
        mulf(a, SCALE as int) == a,
{
    lemma_div_by_multiple(a, SCALE as int);
}

/// Clamp a value into `[lo, hi]`.
pub open spec fn clamp(x: int, lo: int, hi: int) -> int {
    if x < lo {
        lo
    } else if x > hi {
        hi
    } else {
        x
    }
}

} // verus!
