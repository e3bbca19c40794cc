//! Integer rounding primitives shared by every fixed-point computation:
//! division to the nearest integer and the integer square root.
use vstd::arithmetic::div_mod::*;
use vstd::arithmetic::mul::*;
use vstd::prelude::*;

verus! {

/// The quotient `num / den` rounded to the nearest integer. A quotient that
/// lies exactly half way between two integers goes to the even one.
///
/// The solver works a quotient out only where both numbers are written out
/// in full. A proof that needs the rounded quotient of two given numbers
/// asserts it first, as in `assert(div_round(110_000_000, 210) == 523_810)`.
pub open spec fn div_round(num: int, den: int) -> int
    recommends
        den > 0,
{
    let q = num / den;
    let r = num % den;
    if 2 * r > den || (2 * r == den && q % 2 != 0) {
        q + 1
    } else {
        q
    }
}

/// `root` is the largest integer whose square does not exceed `x`.
pub open spec fn is_floor_sqrt(root: int, x: int) -> bool {
    0 <= root && root * root <= x && x < (root + 1) * (root + 1)
}

/// The integer square root of `x`, rounded down. `lemma_floor_sqrt_is`
/// gives its value from a root that is known to fit.
pub open spec fn floor_sqrt(x: int) -> int {
    choose|root: int| is_floor_sqrt(root, x)
}

/// An exact multiple divides without rounding.
pub proof fn lemma_div_round_exact(k: int, den: int)
    requires
        den > 0,
    ensures
        div_round(k * den, den) == k,
{
    lemma_fundamental_div_mod_converse(k * den, den, k, 0);
}

/// Rounded division never reorders its numerators.
pub proof fn lemma_div_round_monotone(a: int, b: int, den: int)
    requires
        den > 0,
        a <= b,
    ensures
        div_round(a, den) <= div_round(b, den),
{
    lemma_fundamental_div_mod(a, den);
    lemma_fundamental_div_mod(b, den);
    lemma_mod_bound(a, den);
    lemma_mod_bound(b, den);
    lemma_div_is_ordered(a, b, den);
    let qa = a / den;
    let qb = b / den;
    if qa == qb {
        assert(den * qa == den * qb);
        assert(a % den <= b % den);
    }
}

/// A numerator between `lo * den` and `hi * den` rounds into `[lo, hi]`.
pub proof fn lemma_div_round_between(num: int, den: int, lo: int, hi: int)
    requires
        den > 0,
        lo * den <= num <= hi * den,
    ensures
        lo <= div_round(num, den) <= hi,
{
    lemma_div_round_exact(lo, den);
    lemma_div_round_exact(hi, den);
    lemma_div_round_monotone(lo * den, num, den);
    lemma_div_round_monotone(num, hi * den, den);
}

/// Rounding to the even neighbour is symmetric about zero.
pub proof fn lemma_div_round_negate(num: int, den: int)
    requires
        den > 0,
    ensures
        div_round(-num, den) == -div_round(num, den),
{
    lemma_fundamental_div_mod(num, den);
    lemma_mod_bound(num, den);
    let q = num / den;
    let r = num % den;
    if r == 0 {
        assert(-num == den * (-q)) by (nonlinear_arith)
            requires
                num == den * q,
        ;
        lemma_fundamental_div_mod_converse(-num, den, -q, 0);
    } else {
        assert(-num == den * (-q - 1) + (den - r)) by (nonlinear_arith)
            requires
                num == den * q + r,
        ;
        lemma_fundamental_div_mod_converse(-num, den, -q - 1, den - r);
    }
}

/// Two numerators that add up to an even multiple of the denominator round
/// to quotients that add up to that multiple.
pub proof fn lemma_div_round_complement(a: int, b: int, den: int, k: int)
    requires
        den > 0,
        a + b == k * den,
        k % 2 == 0,
    ensures
        div_round(a, den) + div_round(b, den) == k,
{
    lemma_fundamental_div_mod(a, den);
    lemma_fundamental_div_mod(b, den);
    lemma_mod_bound(a, den);
    lemma_mod_bound(b, den);
    let qa = a / den;
    let qb = b / den;
    let ra = a % den;
    let rb = b % den;
    assert(ra + rb == den * (k - qa - qb)) by (nonlinear_arith)
        requires
            a == den * qa + ra,
            b == den * qb + rb,
            a + b == k * den,
    ;
    let m = k - qa - qb;
    assert(m == 0 || m == 1) by (nonlinear_arith)
        requires
            ra + rb == den * m,
            0 <= ra < den,
            0 <= rb < den,
            den > 0,
    ;
    if m == 0 {
        assert(ra + rb == 0) by (nonlinear_arith)
            requires
                ra + rb == den * m,
                m == 0,
        ;
    } else {
        assert(ra + rb == den) by (nonlinear_arith)
            requires
                ra + rb == den * m,
                m == 1,
        ;
    }
}

/// At most one integer is the rounded-down square root of `x`.
pub proof fn lemma_floor_sqrt_unique(r1: int, r2: int, x: int)
    requires
        is_floor_sqrt(r1, x),
        is_floor_sqrt(r2, x),
    ensures
        r1 == r2,
{
    if r1 < r2 {
        assert((r1 + 1) * (r1 + 1) <= r2 * r2) by (nonlinear_arith)
            requires
                0 <= r1,
                r1 + 1 <= r2,
        ;
    } else if r2 < r1 {
        assert((r2 + 1) * (r2 + 1) <= r1 * r1) by (nonlinear_arith)
            requires
                0 <= r2,
                r2 + 1 <= r1,
        ;
    }
}

/// Whatever satisfies `is_floor_sqrt` is the value of `floor_sqrt`.
pub proof fn lemma_floor_sqrt_is(root: int, x: int)
    requires
        is_floor_sqrt(root, x),
    ensures
        floor_sqrt(x) == root,
{
    lemma_floor_sqrt_unique(root, floor_sqrt(x), x);
}

/// Divides `num` by `den`, rounding to the nearest integer with ties to even.
pub fn div_round_i128(num: i128, den: i128) -> (quot: i128)
    requires
        den > 0,
        num > i128::MIN,
    ensures
        quot == div_round(num as int, den as int),
{
    let negative = num < 0;
    let mag: i128 = if negative { -num } else { num };
    let q: i128 = mag / den;
    let r: i128 = mag % den;
    proof {
        lemma_fundamental_div_mod(mag as int, den as int);
        lemma_mod_bound(mag as int, den as int);
        lemma_div_pos_is_pos(mag as int, den as int);
        if r > 0 {
            // a non-zero remainder needs a denominator of at least two
            assert(q as int <= mag as int / 2) by {
                lemma_div_is_ordered_by_denominator(mag as int, 2, den as int);
            }
        }
    }
    let up = r > den - r || (r == den - r && q % 2 != 0);
    let rounded: i128 = if up { q + 1 } else { q };
    proof {
        if negative {
            lemma_div_round_negate(mag as int, den as int);
        }
    }
    if negative { -rounded } else { rounded }
}

/// The integer square root of `x`, rounded down.
pub fn floor_sqrt_u128(x: u128) -> (root: u64)
    ensures
        is_floor_sqrt(root as int, x as int),
        root == floor_sqrt(x as int),
{
    let mut lo: u128 = 0;
    let mut hi: u128 = 0x1_0000_0000_0000_0000;
    assert(x < hi * hi) by (nonlinear_arith)
        requires
            hi == 0x1_0000_0000_0000_0000u128,
            x <= u128::MAX,
    ;
    while hi - lo > 1
        invariant
            lo < hi <= 0x1_0000_0000_0000_0000,
            lo * lo <= x,
            x < hi * hi,
        decreases hi - lo,
    {
        let mid: u128 = lo + (hi - lo) / 2;
        assert(mid * mid <= u128::MAX) by (nonlinear_arith)
            requires
                mid <= 0xffff_ffff_ffff_ffffu128,
        ;
        if mid * mid <= x {
            lo = mid;
        } else {
            hi = mid;
        }
    }
    proof {
        lemma_floor_sqrt_is(lo as int, x as int);
    }
    lo as u64
}

} // verus!
