//! Saturating fixed-point arithmetic on milli-unit quantities.
//!
//! Every stored simulation quantity (position, velocity, size, rotation
//! speed) is an `i64` number of milli-units kept within
//! `[-COORD_LIMIT, COORD_LIMIT]`; operations that could leave that range
//! saturate at its ends. Dimensionless coefficients are per-mille `i64`
//! values within `[-COEFF_LIMIT, COEFF_LIMIT]`. With these bounds every
//! intermediate product fits in `i128`, so no operation here can overflow
//! or panic.

use vstd::prelude::*;

verus! {

/// Largest magnitude of a stored simulation quantity, in milli-units.
pub const COORD_LIMIT: i64 = 1_000_000_000_000_000;

/// Per-mille scale: this many milli-units make one world unit, and a
/// coefficient of this value means 1.0.
pub const MILLI: i64 = 1000;

/// Largest magnitude of a per-mille coefficient (one thousand times 1.0).
pub const COEFF_LIMIT: i64 = 1_000_000;

/// Truncating division (rounding toward zero), as Rust's `/` computes it
/// on signed integers. Defined for positive divisors.
pub open spec fn tdiv(a: int, b: int) -> int {
    if a >= 0 {
        a / b
    } else {
        -((-a) / b)
    }
}

/// Clamp an unbounded result back into the stored range.
pub open spec fn sat(a: int) -> int {
    if a > COORD_LIMIT as int {
        COORD_LIMIT as int
    } else if a < -(COORD_LIMIT as int) {
        -(COORD_LIMIT as int)
    } else {
        a
    }
}

/// Magnitude of an unbounded value.
pub open spec fn abs_i(a: int) -> int {
    if a >= 0 {
        a
    } else {
        -a
    }
}

/// The value is a valid stored quantity.
pub open spec fn in_range(a: int) -> bool {
    -(COORD_LIMIT as int) <= a <= COORD_LIMIT as int
}

/// Saturating addition of two stored quantities.
pub fn sat_add(a: i64, b: i64) -> (r: i64)
    requires
        in_range(a as int),
        in_range(b as int),
    ensures
        r as int == sat(a + b),
        in_range(r as int),
{
    let s: i64 = a + b;
    if s > COORD_LIMIT {
        COORD_LIMIT
    } else if s < -COORD_LIMIT {
        -COORD_LIMIT
    } else {
        s
    }
}

/// Saturating subtraction of two stored quantities.
pub fn sat_sub(a: i64, b: i64) -> (r: i64)
    requires
        in_range(a as int),
        in_range(b as int),
    ensures
        r as int == sat(a - b),
        in_range(r as int),
{
    let s: i64 = a - b;
    if s > COORD_LIMIT {
        COORD_LIMIT
    } else if s < -COORD_LIMIT {
        -COORD_LIMIT
    } else {
        s
    }
}

/// Scale a stored quantity by a per-mille coefficient, saturating.
pub fn scale_milli(a: i64, m: i64) -> (r: i64)
    requires
        in_range(a as int),
        -COEFF_LIMIT <= m <= COEFF_LIMIT,
    ensures
        r as int == sat(tdiv(a * m, MILLI as int)),
        in_range(r as int),
{
    proof {
        assert(-0x7fff_ffff_ffff_ffff_ffff_ffff_ffff_ffff < (a as int) * (m as int)
            < 0x7fff_ffff_ffff_ffff_ffff_ffff_ffff_ffff) by (nonlinear_arith)
            requires
                in_range(a as int) && -COEFF_LIMIT <= m <= COEFF_LIMIT,
        ;
    }
    let p: i128 = (a as i128) * (m as i128);
    let q: i128 = p / (MILLI as i128);
    clamp_i128(q)
}

/// Multiply two stored quantities and divide by a positive stored quantity,
/// saturating: `r == sat(tdiv(a * b, d))`.
pub fn muldiv(a: i64, b: i64, d: i64) -> (r: i64)
    requires
        in_range(a as int),
        in_range(b as int),
        1 <= d,
    ensures
        r as int == sat(tdiv(a * b, d as int)),
        in_range(r as int),
{
    proof {
        assert(-0x7fff_ffff_ffff_ffff_ffff_ffff_ffff_ffff < (a as int) * (b as int)
            < 0x7fff_ffff_ffff_ffff_ffff_ffff_ffff_ffff) by (nonlinear_arith)
            requires
                in_range(a as int) && in_range(b as int),
        ;
    }
    let p: i128 = (a as i128) * (b as i128);
    let q: i128 = p / (d as i128);
    clamp_i128(q)
}

/// Clamp an intermediate `i128` result into the stored range.
pub fn clamp_i128(q: i128) -> (r: i64)
    ensures
        r as int == sat(q as int),
        in_range(r as int),
{
    if q > COORD_LIMIT as i128 {
        COORD_LIMIT
    } else if q < -(COORD_LIMIT as i128) {
        -COORD_LIMIT
    } else {
        q as i64
    }
}

/// Magnitude of a stored quantity.
pub fn abs64(a: i64) -> (r: i64)
    requires
        in_range(a as int),
    ensures
        r as int == if a >= 0 { a as int } else { -(a as int) },
        in_range(r as int),
        r >= 0,
{
    if a >= 0 {
        a
    } else {
        -a
    }
}

/// The integer square root, as a specification: the greatest `r` with
/// `r * r <= x`.
pub open spec fn isqrt_spec(x: nat) -> nat
    decreases x,
{
    if x == 0 {
        0
    } else {
        let r = isqrt_spec((x - 1) as nat);
        if (r + 1) * (r + 1) <= x {
            r + 1
        } else {
            r
        }
    }
}

/// `isqrt_spec(x)` is bracketed by the two neighbouring squares.
pub proof fn lemma_isqrt_bracket(x: nat)
    ensures
        isqrt_spec(x) * isqrt_spec(x) <= x,
        x < (isqrt_spec(x) + 1) * (isqrt_spec(x) + 1),
    decreases x,
{
    if x == 0 {
        assert(isqrt_spec(0) == 0);
        assert(x < (isqrt_spec(x) + 1) * (isqrt_spec(x) + 1)) by (nonlinear_arith)
            requires
                x == 0 && isqrt_spec(x) == 0,
        ;
    } else {
        lemma_isqrt_bracket((x - 1) as nat);
        let r = isqrt_spec((x - 1) as nat);
        assert(isqrt_spec(x) == if (r + 1) * (r + 1) <= x {
            r + 1
        } else {
            r
        });
        if (r + 1) * (r + 1) <= x {
            assert(x - 1 < (r + 1) * (r + 1));
            assert(x <= (r + 1) * (r + 1));
            assert(x < (r + 2) * (r + 2)) by (nonlinear_arith)
                requires
                    x <= (r + 1) * (r + 1),
            ;
            assert(isqrt_spec(x) == r + 1);
            assert(x < (isqrt_spec(x) + 1) * (isqrt_spec(x) + 1));
        } else {
            assert(isqrt_spec(x) == r);
            assert(isqrt_spec(x) * isqrt_spec(x) <= x);
            assert(x < (isqrt_spec(x) + 1) * (isqrt_spec(x) + 1));
        }
    }
}

/// Any `r` bracketed by the neighbouring squares is `isqrt_spec(x)`.
pub proof fn lemma_isqrt_unique(x: nat, r: nat)
    requires
        r * r <= x,
        x < (r + 1) * (r + 1),
    ensures
        r == isqrt_spec(x),
{
    lemma_isqrt_bracket(x);
    let q = isqrt_spec(x);
    if r < q {
        assert((r + 1) * (r + 1) <= q * q) by (nonlinear_arith)
            requires
                r + 1 <= q,
        ;
    }
    if q < r {
        assert((q + 1) * (q + 1) <= r * r) by (nonlinear_arith)
            requires
                q + 1 <= r,
        ;
    }
}

/// Integer square root: the greatest `r` with `r * r <= x`, for `x` up to
/// the largest sum of two squared stored differences.
pub fn isqrt(x: u128) -> (r: u64)
    requires
        x <= 8_000_000_000_000_000_000_000_000_000_000,
    ensures
        (r as int) * (r as int) <= x as int,
        (x as int) < (r as int + 1) * (r as int + 1),
        r as nat == isqrt_spec(x as nat),
        r <= 4_000_000_000_000_000,
{
    let mut lo: u64 = 0;
    let mut hi: u64 = 4_000_000_000_000_000u64;
    if x < hi as u128 {
        hi = x as u64;
        proof {
            assert((hi as int + 1) * (hi as int + 1) > x as int) by (nonlinear_arith)
                requires
                    hi as int == x as int,
            ;
        }
    } else {
        proof {
            assert((hi as int + 1) * (hi as int + 1) > x as int) by (nonlinear_arith)
                requires
                    hi as int == 4_000_000_000_000_000 && x as int
                        <= 8_000_000_000_000_000_000_000_000_000_000,
            ;
        }
    }
    while lo < hi
        invariant
            lo <= hi <= 4_000_000_000_000_000u64,
            (lo as int) * (lo as int) <= x as int,
            (x as int) < (hi as int + 1) * (hi as int + 1),
        decreases hi - lo,
    {
        let mid: u64 = lo + (hi - lo + 1) / 2;
        proof {
            assert((mid as int) * (mid as int) < 0x7fff_ffff_ffff_ffff_ffff_ffff_ffff_ffff)
                by (nonlinear_arith)
                requires
                    mid as int <= 4_000_000_000_000_000,
            ;
        }
        let sq: u128 = (mid as u128) * (mid as u128);
        if sq <= x {
            lo = mid;
        } else {
            hi = mid - 1;
        }
    }
    proof {
        lemma_isqrt_unique(x as nat, lo as nat);
    }
    lo
}

} // verus!
