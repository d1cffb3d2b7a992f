//! Fixed-point scalars.
//!
//! A real number `x` is carried as the integer `x * FX_ONE`, truncated toward
//! zero, in an `i64`. `FX_ONE` is `255 * 256`, so that the conversion between
//! a colour channel in `[0, 1]` and a byte in `[0, 255]` is exact in both
//! directions, and so that tenths (the ambient lighting term, the near plane)
//! are exact.

use vstd::prelude::*;
use vstd::arithmetic::div_mod::lemma_div_nonincreasing;
use vstd::arithmetic::div_mod::lemma_div_pos_is_pos;
use vstd::arithmetic::power::pow;
use vstd::arithmetic::power::lemma_pow1;

verus! {

/// The fixed-point representation of the real number one: `255 * 256`.
pub const FX_ONE: i64 = 65280;

/// The fixed-point representation of one half.
pub const FX_HALF: i64 = 32640;

/// Magnitude bound kept by every coordinate, matrix entry and colour value
/// that flows through the pipeline; products and quotients of bounded values
/// then fit comfortably in the machine integers.
pub const FX_BOUND: i64 = 0x4000_0000;

/// Truncating (round-toward-zero) integer division: the quotient Rust's `/`
/// computes on machine integers. The magnitudes are divided (Euclidean `/`
/// on non-negative operands) and the quotient carries the sign of the
/// operands' product.
pub open spec fn trunc_div(a: int, b: int) -> int
    recommends
        b != 0,
{
    let na = if a >= 0 { a } else { -a };
    let nb = if b >= 0 { b } else { -b };
    if (a >= 0) == (b >= 0) {
        na / nb
    } else {
        -(na / nb)
    }
}

/// The value of `x` clamped into the closed interval `[lo, hi]`.
pub open spec fn clamp_spec(x: int, lo: int, hi: int) -> int {
    if x < lo {
        lo
    } else if x > hi {
        hi
    } else {
        x
    }
}

/// Clamps `x` into the closed interval `[lo, hi]`.
pub fn fx_clamp(x: i64, lo: i64, hi: i64) -> (r: i64)
    requires
        lo <= hi,
    ensures
        r == clamp_spec(x as int, lo as int, hi as int),
{
    if x < lo {
        lo
    } else if x > hi {
        hi
    } else {
        x
    }
}

/// Truncating division of `i128` values, computed on unsigned magnitudes.
/// The quotient's magnitude never exceeds the dividend's.
pub fn trunc_div_i128(a: i128, b: i128) -> (r: i128)
    requires
        b != 0,
        a != i128::MIN,
        b != i128::MIN,
    ensures
        r == trunc_div(a as int, b as int),
        a >= 0 ==> -a <= r <= a,
        a < 0 ==> a <= r <= -a,
{
    let na: u128 = if a < 0 {
        (-a) as u128
    } else {
        a as u128
    };
    let nb: u128 = if b < 0 {
        (-b) as u128
    } else {
        b as u128
    };
    let q: u128 = na / nb;
    proof {
        lemma_div_nonincreasing(na as int, nb as int);
        lemma_div_pos_is_pos(na as int, nb as int);
    }
    if (a < 0) == (b < 0) {
        q as i128
    } else {
        -(q as i128)
    }
}

/// The fixed-point product: `a * b` rescaled by `FX_ONE`, truncated.
pub open spec fn fx_mul_spec(a: int, b: int) -> int {
    trunc_div(a * b, FX_ONE as int)
}

/// Fixed-point multiplication.
pub fn fx_mul(a: i64, b: i64) -> (r: i64)
    requires
        -0x4000_0000_0000_0000 <= a * b <= 0x4000_0000_0000_0000,
    ensures
        r == fx_mul_spec(a as int, b as int),
{
    let p: i128 = (a as i128) * (b as i128);
    let q = trunc_div_i128(p, FX_ONE as i128);
    q as i64
}

/// The fixed-point quotient: `a / b` rescaled by `FX_ONE`, truncated.
pub open spec fn fx_div_spec(a: int, b: int) -> int {
    trunc_div(a * FX_ONE, b)
}

/// Fixed-point division.
pub fn fx_div(a: i64, b: i64) -> (r: i64)
    requires
        b != 0,
        -0x4000_0000_0000 <= a <= 0x4000_0000_0000,
    ensures
        r == fx_div_spec(a as int, b as int),
{
    proof {
        assert(-0x4000_0000_0000_0000 <= a * FX_ONE <= 0x4000_0000_0000_0000) by (nonlinear_arith)
            requires
                -0x4000_0000_0000 <= a <= 0x4000_0000_0000,
                FX_ONE == 65280,
        ;
    }
    let p: i128 = (a as i128) * (FX_ONE as i128);
    let q = trunc_div_i128(p, b as i128);
    q as i64
}

/// The product of two values bounded in magnitude by `m` is bounded by `m * m`.
pub proof fn lemma_mul_bound(a: int, b: int, m: int)
    requires
        -m <= a <= m,
        -m <= b <= m,
        0 <= m,
    ensures
        -(m * m) <= a * b <= m * m,
{
    assert(-(m * m) <= a * b <= m * m) by (nonlinear_arith)
        requires
            -m <= a <= m,
            -m <= b <= m,
            0 <= m,
    ;
}

/// The product of values bounded by `ma` and `mb` is bounded by `ma * mb`.
pub proof fn lemma_mul_bounds(a: int, b: int, ma: int, mb: int)
    requires
        -ma <= a <= ma,
        -mb <= b <= mb,
        0 <= ma,
        0 <= mb,
    ensures
        -(ma * mb) <= a * b <= ma * mb,
{
    assert(-(ma * mb) <= a * b <= ma * mb) by (nonlinear_arith)
        requires
            -ma <= a <= ma,
            -mb <= b <= mb,
            0 <= ma,
            0 <= mb,
    ;
}

/// Raising a larger base to the same power gives a result at least as large.
pub proof fn lemma_pow_base_increases(a: nat, b: nat, e: nat)
    requires
        a <= b,
    ensures
        pow(a as int, e) <= pow(b as int, e),
    decreases e,
{
    reveal(pow);
    if e > 0 {
        if a == 0 {
            vstd::arithmetic::power::lemma0_pow(e);
            if b > 0 {
                vstd::arithmetic::power::lemma_pow_positive(b as int, e);
            }
        } else {
            lemma_pow_base_increases(a, b, (e - 1) as nat);
            vstd::arithmetic::power::lemma_pow_positive(a as int, (e - 1) as nat);
            assert(pow(a as int, e) == a * pow(a as int, (e - 1) as nat));
            assert(pow(b as int, e) == b * pow(b as int, (e - 1) as nat));
            assert(a * pow(a as int, (e - 1) as nat) <= b * pow(b as int, (e - 1) as nat))
                by (nonlinear_arith)
                requires
                    0 <= a <= b,
                    0 < pow(a as int, (e - 1) as nat) <= pow(b as int, (e - 1) as nat),
            ;
        }
    }
}

/// Raising a strictly larger base to a positive power strictly increases it.
pub proof fn lemma_pow_base_strictly_increases(a: nat, b: nat, e: nat)
    requires
        a < b,
        e > 0,
    ensures
        pow(a as int, e) < pow(b as int, e),
{
    reveal(pow);
    lemma_pow_base_increases(a, b, (e - 1) as nat);
    vstd::arithmetic::power::lemma_pow_positive(b as int, (e - 1) as nat);
    if a == 0 {
        vstd::arithmetic::power::lemma0_pow(e);
        vstd::arithmetic::power::lemma_pow_positive(b as int, e);
    } else {
        vstd::arithmetic::power::lemma_pow_positive(a as int, (e - 1) as nat);
        assert(pow(a as int, e) == a * pow(a as int, (e - 1) as nat));
        assert(pow(b as int, e) == b * pow(b as int, (e - 1) as nat));
        assert(a * pow(a as int, (e - 1) as nat) < b * pow(b as int, (e - 1) as nat))
            by (nonlinear_arith)
            requires
                0 < a < b,
                0 < pow(b as int, (e - 1) as nat),
                0 < pow(a as int, (e - 1) as nat) <= pow(b as int, (e - 1) as nat),
        ;
    }
}

/// The first powers of `0x10000`, so that bounds on small powers are
/// available by number.
proof fn lemma_pow_65536_table()
    ensures
        pow(0x10000, 0) == 1,
        pow(0x10000, 1) == 0x10000,
        pow(0x10000, 2) == 0x1_0000_0000,
        pow(0x10000, 3) == 0x1_0000_0000_0000,
        pow(0x10000, 4) == 0x1_0000_0000_0000_0000,
        pow(0x10000, 5) == 0x1_0000_0000_0000_0000_0000,
        pow(0x10000, 6) == 0x1_0000_0000_0000_0000_0000_0000,
{
    reveal_with_fuel(pow, 7);
}

/// `b^e` for small bases and exponents, so the power of a colour channel
/// never overflows.
fn pow_u128(b: u64, e: u32) -> (r: u128)
    requires
        b <= 0x10000,
        e <= 6,
    ensures
        r == pow(b as int, e as nat),
        r <= pow(0x10000, e as nat),
{
    let mut acc: u128 = 1;
    let mut i: u32 = 0;
    proof {
        reveal(pow);
    }
    while i < e
        invariant
            i <= e <= 6,
            b <= 0x10000,
            acc == pow(b as int, i as nat),
            acc <= pow(0x10000, i as nat),
        decreases e - i,
    {
        proof {
            reveal(pow);
            lemma_pow_65536_table();
            vstd::arithmetic::power::lemma_pow_increases(0x10000, i as nat, 5);
            assert(acc * b <= 0x1_0000_0000_0000_0000_0000_0000) by (nonlinear_arith)
                requires
                    0 <= acc <= 0x1_0000_0000_0000_0000_0000,
                    0 <= b <= 0x10000,
            ;
            assert(pow(b as int, (i + 1) as nat) == b * pow(b as int, i as nat));
            assert(pow(0x10000, (i + 1) as nat) == 0x10000 * pow(0x10000, i as nat));
            lemma_pow_base_increases(b as nat, 0x10000, i as nat);
            assert(b * pow(b as int, i as nat) <= 0x10000 * pow(0x10000, i as nat))
                by (nonlinear_arith)
                requires
                    0 <= b <= 0x10000,
                    0 <= pow(b as int, i as nat) <= pow(0x10000, i as nat),
            ;
            vstd::arithmetic::power::lemma_pow_positive(0x10000, i as nat);
        }
        acc = acc * (b as u128);
        i = i + 1;
    }
    proof {
        vstd::arithmetic::power::lemma_pow_increases(0x10000, e as nat, 6);
        lemma_pow_65536_table();
    }
    acc
}

/// `r` is the integer `g`-th root of `x` in fixed-point: the largest value
/// whose `g`-th power does not exceed `x * FX_ONE^(g-1)`.
pub open spec fn root_ok(x: int, g: nat, r: int) -> bool {
    &&& 0 <= r
    &&& pow(r, g) <= x * pow(FX_ONE as int, (g - 1) as nat)
    &&& x * pow(FX_ONE as int, (g - 1) as nat) < pow(r + 1, g)
}

/// The fixed-point `g`-th root of `x`; for `x` in `[0, 1]` this is
/// `x^(1/g)` truncated to the fixed-point grid.
pub open spec fn fx_root_spec(x: int, g: nat) -> int {
    choose|r: int| root_ok(x, g, r)
}

/// Two values both satisfying the root characterisation are equal.
pub proof fn lemma_root_unique(x: int, g: nat, r1: int, r2: int)
    requires
        g > 0,
        root_ok(x, g, r1),
        root_ok(x, g, r2),
    ensures
        r1 == r2,
{
    if r1 < r2 {
        lemma_pow_base_increases((r1 + 1) as nat, r2 as nat, g);
    }
    if r2 < r1 {
        lemma_pow_base_increases((r2 + 1) as nat, r1 as nat, g);
    }
}

/// The fixed-point `g`-th root of `x`, by binary search on the result.
///
/// With `g == 1` this is the identity on `[0, FX_ONE]`; with `g > 1` the
/// result is at least `x`, since the `g`-th root of a number in `[0, 1]`
/// lies above it.
pub fn fx_root(x: i64, g: u32) -> (r: i64)
    requires
        0 <= x <= FX_ONE,
        1 <= g <= 6,
    ensures
        0 <= r <= FX_ONE,
        root_ok(x as int, g as nat, r as int),
        r == fx_root_spec(x as int, g as nat),
        g == 1 ==> r == x,
        g > 1 ==> r >= x,
{
    let pw: u128 = pow_u128(FX_ONE as u64, g - 1);
    proof {
        lemma_pow_65536_table();
        vstd::arithmetic::power::lemma_pow_increases(0x10000, (g - 1) as nat, 5);
        assert(x * pw <= 0x1_0000_0000_0000_0000_0000_0000) by (nonlinear_arith)
            requires
                0 <= x <= 0x10000,
                0 <= pw <= 0x1_0000_0000_0000_0000_0000,
        ;
        vstd::arithmetic::power::lemma_pow_positive(FX_ONE as int, (g - 1) as nat);
        // target <= FX_ONE^g < (FX_ONE + 1)^g, so hi = FX_ONE + 1 is a strict bound
        lemma_pow_base_strictly_increases(FX_ONE as nat, (FX_ONE + 1) as nat, g as nat);
        assert(x * pow(FX_ONE as int, (g - 1) as nat) <= FX_ONE * pow(
            FX_ONE as int,
            (g - 1) as nat,
        )) by (nonlinear_arith)
            requires
                0 <= x <= FX_ONE,
                0 < pow(FX_ONE as int, (g - 1) as nat),
        ;
        assert(FX_ONE * pow(FX_ONE as int, (g - 1) as nat) == pow(FX_ONE as int, g as nat)) by {
            reveal(pow);
        }
        vstd::arithmetic::power::lemma0_pow(g as nat);
    }
    let target: u128 = (x as u128) * pw;
    let mut lo: i64 = 0;
    let mut hi: i64 = FX_ONE + 1;
    while lo + 1 < hi
        invariant
            0 <= lo < hi <= FX_ONE + 1,
            1 <= g <= 6,
            0 <= x <= FX_ONE,
            target == x * pow(FX_ONE as int, (g - 1) as nat),
            pow(lo as int, g as nat) <= target as int,
            (target as int) < pow(hi as int, g as nat),
        decreases hi - lo,
    {
        let mid: i64 = lo + (hi - lo) / 2;
        let p = pow_u128(mid as u64, g);
        if p <= target {
            lo = mid;
        } else {
            hi = mid;
        }
    }
    proof {
        assert(root_ok(x as int, g as nat, lo as int));
        assert(root_ok(x as int, g as nat, fx_root_spec(x as int, g as nat))) by {
            assert(exists|r: int| root_ok(x as int, g as nat, r)) by {
                assert(root_ok(x as int, g as nat, lo as int));
            }
        }
        lemma_root_unique(x as int, g as nat, lo as int, fx_root_spec(x as int, g as nat));
        // lo <= FX_ONE: the root of a value bounded by FX_ONE^g is bounded by FX_ONE
        if lo > FX_ONE {
            lemma_pow_base_increases((FX_ONE + 1) as nat, lo as nat, g as nat);
            lemma_pow_base_strictly_increases(FX_ONE as nat, (FX_ONE + 1) as nat, g as nat);
            assert(x * pow(FX_ONE as int, (g - 1) as nat) <= FX_ONE * pow(
                FX_ONE as int,
                (g - 1) as nat,
            )) by (nonlinear_arith)
                requires
                    0 <= x <= FX_ONE,
                    0 < pow(FX_ONE as int, (g - 1) as nat),
            ;
            assert(FX_ONE * pow(FX_ONE as int, (g - 1) as nat) == pow(FX_ONE as int, g as nat));
        }
        // g == 1: r <= x < r + 1 forces r == x
        if g == 1 {
            lemma_pow1(lo as int);
            lemma_pow1(lo as int + 1);
            assert(pow(FX_ONE as int, 0) == 1) by {
                reveal(pow);
            }
        }
        // g > 1: pow(x, g) <= x * FX_ONE^(g-1), so maximality gives r >= x
        if g > 1 && lo < x {
            lemma_pow_base_increases(x as nat, FX_ONE as nat, (g - 1) as nat);
            vstd::arithmetic::power::lemma_pow_positive(FX_ONE as int, (g - 1) as nat);
            assert(pow(x as int, g as nat) == x * pow(x as int, (g - 1) as nat)) by {
                reveal(pow);
            }
            assert(x * pow(x as int, (g - 1) as nat) <= x * pow(FX_ONE as int, (g - 1) as nat))
                by (nonlinear_arith)
                requires
                    0 <= x,
                    pow(x as int, (g - 1) as nat) <= pow(FX_ONE as int, (g - 1) as nat),
            ;
            lemma_pow_base_increases((lo + 1) as nat, x as nat, g as nat);
        }
    }
    lo
}

} // verus!
