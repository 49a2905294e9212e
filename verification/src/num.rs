//! Fixed-point scalar arithmetic for lengths and coordinates.
//!
//! Every length, coordinate and resolved size in this crate is an `i64`
//! counting thousandths of a pixel.  Percentages are carried as thousandths
//! of a percent, so that a parameter `p` stands for the fraction
//! `p / PCT_DEN`.  All arithmetic on coordinates saturates at
//! `COORD_LIMIT`, which keeps every operation total and free of overflow.

use vstd::prelude::*;

verus! {

/// Number of fixed-point units in one pixel.
pub const MILLI: i64 = 1000;

/// Every stored coordinate and resolved length lies in
/// `[-COORD_LIMIT, COORD_LIMIT]`.
pub const COORD_LIMIT: i64 = 4_000_000_000_000;

/// Bound on a parsed absolute length (one million pixels).
pub const NUM_LIMIT: i64 = 1_000_000_000;

/// Bound on a percentage parameter (one thousand percent).
pub const PCT_LIMIT: i64 = 1_000_000;

/// A percentage parameter `p` stands for the fraction `p / PCT_DEN`,
/// so `100%` is carried as `100_000`.
pub const PCT_DEN: i64 = 100_000;

/// Whether `v` is a representable coordinate.
pub open spec fn in_coord(v: int) -> bool {
    -COORD_LIMIT <= v <= COORD_LIMIT
}

/// Whether `v` is a representable percentage parameter.
pub open spec fn in_pct(v: int) -> bool {
    -PCT_LIMIT <= v <= PCT_LIMIT
}

/// `v` clamped into `[-lim, lim]`.
pub open spec fn clamp_spec(v: int, lim: int) -> int {
    if v > lim {
        lim
    } else if v < -lim {
        -lim
    } else {
        v
    }
}

/// The smaller of two integers.
pub open spec fn min_spec(a: int, b: int) -> int {
    if a <= b {
        a
    } else {
        b
    }
}

/// Saturating addition of two coordinates.
pub open spec fn cadd_spec(a: int, b: int) -> int {
    clamp_spec(a + b, COORD_LIMIT as int)
}

/// Saturating subtraction of two coordinates.
pub open spec fn csub_spec(a: int, b: int) -> int {
    clamp_spec(a - b, COORD_LIMIT as int)
}

/// `r * p / PCT_DEN` with the division truncating toward zero, which is the
/// value of the fraction `p / PCT_DEN` applied to the length `r`.
pub open spec fn mul_frac_spec(r: int, p: int) -> int {
    if r * p >= 0 {
        (r * p) / (PCT_DEN as int)
    } else {
        -((-(r * p)) / (PCT_DEN as int))
    }
}

/// Clamp `v` into `[-lim, lim]`.
pub fn clamp_i64(v: i64, lim: i64) -> (r: i64)
    requires
        0 <= lim,
    ensures
        r == clamp_spec(v as int, lim as int),
{
    if v > lim {
        lim
    } else if v < -lim {
        -lim
    } else {
        v
    }
}

/// Saturating addition of two coordinates.
pub fn cadd(a: i64, b: i64) -> (r: i64)
    requires
        in_coord(a as int),
        in_coord(b as int),
    ensures
        r == cadd_spec(a as int, b as int),
        in_coord(r as int),
{
    clamp_i64(a + b, COORD_LIMIT)
}

/// Saturating subtraction of two coordinates.
pub fn csub(a: i64, b: i64) -> (r: i64)
    requires
        in_coord(a as int),
        in_coord(b as int),
    ensures
        r == csub_spec(a as int, b as int),
        in_coord(r as int),
{
    clamp_i64(a - b, COORD_LIMIT)
}

/// The larger of two integers.
pub open spec fn max_spec(a: int, b: int) -> int {
    if a >= b {
        a
    } else {
        b
    }
}

/// The larger of two values.
pub fn max_i64(a: i64, b: i64) -> (r: i64)
    ensures
        r == max_spec(a as int, b as int),
{
    if a >= b {
        a
    } else {
        b
    }
}

/// The smaller of two values.
pub fn min_i64(a: i64, b: i64) -> (r: i64)
    ensures
        r == min_spec(a as int, b as int),
{
    if a <= b {
        a
    } else {
        b
    }
}

/// Apply the fraction `p / PCT_DEN` to the length `r`, truncating toward
/// zero.
pub fn mul_frac(r: i64, p: i64) -> (q: i64)
    requires
        in_coord(r as int),
        in_pct(p as int),
    ensures
        q == mul_frac_spec(r as int, p as int),
        -40_000_000_000_000 <= q <= 40_000_000_000_000,
{
    let ra: u64 = if r < 0 {
        (-r) as u64
    } else {
        r as u64
    };
    let pa: u64 = if p < 0 {
        (-p) as u64
    } else {
        p as u64
    };
    let neg: bool = (r < 0) != (p < 0);
    proof {
        assert(ra * pa <= 4_000_000_000_000 * 1_000_000) by (nonlinear_arith)
            requires
                ra <= 4_000_000_000_000,
                pa <= 1_000_000,
        ;
    }
    let prod: u64 = ra * pa;
    let q_abs: u64 = prod / (PCT_DEN as u64);
    proof {
        lemma_mul_frac_abs(r as int, p as int, ra as int, pa as int);
    }
    if neg {
        -(q_abs as i64)
    } else {
        q_abs as i64
    }
}

/// The magnitude form of `mul_frac_spec`: dividing the product of the
/// magnitudes and re-applying the sign gives the truncating quotient.
proof fn lemma_mul_frac_abs(r: int, p: int, ra: int, pa: int)
    requires
        ra == if r < 0 {
            -r
        } else {
            r
        },
        pa == if p < 0 {
            -p
        } else {
            p
        },
        in_coord(r),
        in_pct(p),
    ensures
        ra * pa == if r * p >= 0 {
            r * p
        } else {
            -(r * p)
        },
        mul_frac_spec(r, p) == if (r < 0) != (p < 0) {
            -(ra * pa / (PCT_DEN as int))
        } else {
            ra * pa / (PCT_DEN as int)
        },
        ra * pa / (PCT_DEN as int) <= 40_000_000_000_000,
{
    assert(ra * pa == if r * p >= 0 {
        r * p
    } else {
        -(r * p)
    }) by (nonlinear_arith)
        requires
            ra == if r < 0 {
                -r
            } else {
                r
            },
            pa == if p < 0 {
                -p
            } else {
                p
            },
    ;
    assert(ra * pa <= 4_000_000_000_000 * 1_000_000) by (nonlinear_arith)
        requires
            0 <= ra <= 4_000_000_000_000,
            0 <= pa <= 1_000_000,
    ;
    assert(ra * pa / (PCT_DEN as int) <= 40_000_000_000_000) by (nonlinear_arith)
        requires
            0 <= ra * pa <= 4_000_000_000_000_000_000,
            PCT_DEN == 100_000,
    ;
    if r * p >= 0 {
        if (r < 0) != (p < 0) {
            assert(r * p <= 0) by (nonlinear_arith)
                requires
                    (r < 0) != (p < 0),
            ;
            assert(ra * pa == 0);
        }
    } else {
        assert((r < 0) != (p < 0)) by (nonlinear_arith)
            requires
                r * p < 0,
        ;
    }
}

} // verus!
