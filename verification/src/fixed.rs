use vstd::prelude::*;

verus! {

/// One map cell in fixed-point units. Positions, directions and camera-plane
/// vectors are all carried as integer multiples of `1 / FP_ONE` of a cell.
pub const FP_ONE: i64 = 65536;

/// Largest map side length the engine accepts.
pub const MAX_DIM: usize = 1024;

/// Largest screen side length the engine accepts.
pub const MAX_SCREEN: usize = 4096;

/// Truncation toward zero of `p / FP_ONE`: the rounding applied when an exact
/// fixed-point product is scaled back to fixed-point.
pub open spec fn fp_trunc(p: int) -> int {
    if p >= 0 {
        p / (FP_ONE as int)
    } else {
        -((-p) / (FP_ONE as int))
    }
}

/// Scaling an exact product back down never grows its magnitude beyond the
/// exact quotient: `fp_trunc(p) * FP_ONE` lies between 0 and `p`.
pub proof fn lemma_fp_trunc_mag(p: int)
    ensures
        p >= 0 ==> 0 <= fp_trunc(p) * (FP_ONE as int) <= p,
        p < 0 ==> p <= fp_trunc(p) * (FP_ONE as int) <= 0,
{
    if p >= 0 {
        vstd::arithmetic::div_mod::lemma_fundamental_div_mod(p, FP_ONE as int);
        vstd::arithmetic::div_mod::lemma_div_pos_is_pos(p, FP_ONE as int);
    } else {
        vstd::arithmetic::div_mod::lemma_fundamental_div_mod(-p, FP_ONE as int);
        vstd::arithmetic::div_mod::lemma_div_pos_is_pos(-p, FP_ONE as int);
    }
}

/// The square of a scaled-down product is at most the square of the exact
/// quotient: `fp_trunc(p)^2 * FP_ONE^2 <= p^2`.
pub proof fn lemma_fp_trunc_sq(p: int)
    ensures
        fp_trunc(p) * fp_trunc(p) * ((FP_ONE as int) * (FP_ONE as int)) <= p * p,
{
    lemma_fp_trunc_mag(p);
    let t = fp_trunc(p);
    let f = FP_ONE as int;
    assert(t * t * (f * f) <= p * p) by (nonlinear_arith)
        requires
            (p >= 0 && 0 <= t * f <= p) || (p < 0 && p <= t * f <= 0),
    ;
}

/// The square of a scaled-down product loses at most `2 * FP_ONE * |p|`
/// against the square of the exact quotient.
pub proof fn lemma_fp_trunc_sq_lower(p: int)
    ensures
        fp_trunc(p) * fp_trunc(p) * ((FP_ONE as int) * (FP_ONE as int)) >= p * p - 2 * (
        FP_ONE as int) * (if p >= 0 {
            p
        } else {
            -p
        }),
{
    let f = FP_ONE as int;
    let m = if p >= 0 {
        p
    } else {
        -p
    };
    let t = m / f;
    vstd::arithmetic::div_mod::lemma_fundamental_div_mod(m, f);
    vstd::arithmetic::div_mod::lemma_mod_pos_bound(m, f);
    vstd::arithmetic::div_mod::lemma_div_pos_is_pos(m, f);
    if m >= f {
        assert(t * f >= m - f && t * f >= 0) by (nonlinear_arith)
            requires
                m == f * t + m % f,
                0 <= m % f < f,
                0 <= t,
                f == 65536,
                m >= f,
        ;
        assert((t * f) * (t * f) >= (m - f) * (m - f)) by (nonlinear_arith)
            requires
                t * f >= m - f >= 0,
        ;
        assert(t * t * (f * f) >= m * m - 2 * f * m) by (nonlinear_arith)
            requires
                (t * f) * (t * f) >= (m - f) * (m - f),
        ;
    } else {
        assert(t == 0) by {
            vstd::arithmetic::div_mod::lemma_basic_div(m, f);
        }
        assert(0 >= m * m - 2 * f * m) by (nonlinear_arith)
            requires
                0 <= m < f,
                f == 65536,
        ;
    }
    assert(fp_trunc(p) * fp_trunc(p) == t * t && p * p == m * m) by (nonlinear_arith)
        requires
            m == (if p >= 0 {
                p
            } else {
                -p
            }),
            t == m / f,
            f == 65536,
            fp_trunc(p) == (if p >= 0 {
                p / f
            } else {
                -((-p) / f)
            }),
    ;
}

/// Truncating fixed-point scale: `p` is an exact product of two fixed-point
/// quantities; the result is `p / FP_ONE` rounded toward zero.
pub fn fp_scale(p: i64) -> (r: i64)
    requires
        -0x4000_0000_0000_0000 <= p <= 0x4000_0000_0000_0000,
    ensures
        r == fp_trunc(p as int),
{
    if p >= 0 {
        let m: u64 = (p as u64) / (FP_ONE as u64);
        proof {
            vstd::arithmetic::div_mod::lemma_div_nonincreasing(p as int, FP_ONE as int);
        }
        m as i64
    } else {
        let m: u64 = ((-p) as u64) / (FP_ONE as u64);
        proof {
            vstd::arithmetic::div_mod::lemma_div_nonincreasing(-p as int, FP_ONE as int);
        }
        -(m as i64)
    }
}

/// Fixed-point product of two signed coordinates: the exact integer product,
/// scaled back down by `FP_ONE` with truncation toward zero.
pub fn fp_mul(a: i64, b: i64) -> (r: i64)
    requires
        -0x2000_0000 <= a <= 0x2000_0000,
        -0x2000_0000 <= b <= 0x2000_0000,
    ensures
        r == fp_trunc(a * b),
{
    proof {
        assert(-0x4000_0000_0000_0000 <= a * b <= 0x4000_0000_0000_0000) by (nonlinear_arith)
            requires
                -0x2000_0000 <= a <= 0x2000_0000,
                -0x2000_0000 <= b <= 0x2000_0000,
        ;
    }
    fp_scale(a * b)
}

/// The map cell a nonnegative fixed-point coordinate falls in.
pub fn fp_cell(p: i64) -> (c: usize)
    requires
        0 <= p,
        p < FP_ONE * (MAX_DIM as i64),
    ensures
        c == p as int / FP_ONE as int,
        c < MAX_DIM,
{
    let c: u64 = (p as u64) / (FP_ONE as u64);
    c as usize
}

} // verus!
