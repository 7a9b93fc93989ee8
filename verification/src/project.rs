use vstd::prelude::*;
use vstd::math::abs;
use crate::fixed::{FP_ONE, MAX_DIM, MAX_SCREEN};
use crate::ray::RAY_MAX;
use crate::camera::Camera;
use crate::ray::RayHit;

verus! {

/// Largest texture side length the engine accepts.
pub const MAX_TEX: usize = 4096;

/// The on-screen height saturates at the largest signed 32-bit row count: a
/// wall closer than one pixel-row's worth of distance would otherwise ask for
/// more rows than fit in one.
pub const LINE_HEIGHT_CAP: i64 = 0x7fff_ffff;

/// The on-screen height of a wall column: the screen height divided by the
/// perpendicular wall distance `dist * w / rabs`, rounded to the nearest
/// integer (halves up), saturating at `LINE_HEIGHT_CAP` (a hit at distance
/// zero fills the whole column).
pub open spec fn line_height_spec(h: int, w: int, rabs: int, dist: int) -> int {
    if dist * w == 0 {
        LINE_HEIGHT_CAP as int
    } else {
        vstd::math::min((2 * (h * rabs) + dist * w) / (2 * (dist * w)), LINE_HEIGHT_CAP as int)
    }
}

/// First screen row of the wall span: the unclamped span is centered on the
/// screen, and both ends are clamped to the screen.
pub open spec fn span_start(h: int, lh: int) -> int {
    vstd::math::max(h / 2 - lh / 2, 0)
}

/// One past the last screen row of the wall span.
pub open spec fn span_end(h: int, lh: int) -> int {
    vstd::math::min(h / 2 + lh / 2, h)
}

/// The exact on-screen height `h / perp_dist` strictly decreases as the
/// perpendicular distance grows, and the rounded, capped integer line height
/// decreases weakly: perspective makes nearer walls taller. Distances and
/// heights are exact fractions, compared by cross-multiplication over their
/// positive denominators: `dist1 * w / rabs1 < dist2 * w / rabs2` is
/// `dist1 * rabs2 < dist2 * rabs1`, and the exact heights `h * rabs / (dist * w)`
/// compare as the first `ensures` states.
pub proof fn lemma_perspective_antitone(
    h: int,
    w: int,
    rabs1: int,
    dist1: int,
    rabs2: int,
    dist2: int,
)
    requires
        0 < h,
        0 < w,
        0 < rabs1,
        0 < rabs2,
        0 < dist1,
        0 < dist2,
        dist1 * rabs2 < dist2 * rabs1,
    ensures
        (h * rabs1) * (dist2 * w) > (h * rabs2) * (dist1 * w),
        line_height_spec(h, w, rabs1, dist1) >= line_height_spec(h, w, rabs2, dist2),
{
    assert((h * rabs1) * (dist2 * w) > (h * rabs2) * (dist1 * w) && (h * rabs2) * (dist1 * w) >= 0
        && dist1 * w > 0 && dist2 * w > 0) by (nonlinear_arith)
        requires
            0 < h,
            0 < w,
            0 < rabs1,
            0 < rabs2,
            0 < dist1,
            0 < dist2,
            dist1 * rabs2 < dist2 * rabs1,
    ;
    let n1 = h * rabs1;
    let d1 = dist1 * w;
    let n2 = h * rabs2;
    let d2 = dist2 * w;
    assert((2 * n2 + d2) * (2 * d1) <= (2 * n1 + d1) * (2 * d2) && 0 <= 2 * n2 + d2)
        by (nonlinear_arith)
        requires
            n1 * d2 > n2 * d1,
            0 < d1,
            0 < d2,
            0 <= n1,
            0 <= n2,
    ;
    lemma_frac_floor_mono(2 * n2 + d2, 2 * d2, 2 * n1 + d1, 2 * d1);
}

/// Floor division is monotone across fractions: if `a / b <= c / d` as exact
/// fractions (cross-multiplied over positive denominators), the floored
/// quotients compare the same way.
proof fn lemma_frac_floor_mono(a: int, b: int, c: int, d: int)
    requires
        0 <= a,
        0 < b,
        0 < d,
        a * d <= c * b,
    ensures
        a / b <= c / d,
{
    let q = a / b;
    vstd::arithmetic::div_mod::lemma_fundamental_div_mod(a, b);
    vstd::arithmetic::div_mod::lemma_mod_pos_bound(a, b);
    vstd::arithmetic::div_mod::lemma_div_pos_is_pos(a, b);
    assert(q * d <= c) by (nonlinear_arith)
        requires
            a == b * q + a % b,
            0 <= a % b,
            0 < b,
            0 < d,
            0 <= q,
            a * d <= c * b,
    ;
    vstd::arithmetic::div_mod::lemma_div_multiples_vanish(q, d);
    vstd::arithmetic::div_mod::lemma_div_is_ordered(q * d, c, d);
}

/// Euclidean remainder of a negated nonnegative value: it is zero where `x`
/// divides evenly, and the complement of `x`'s remainder otherwise.
proof fn lemma_mod_negate(x: int, d: int)
    requires
        0 <= x,
        0 < d,
    ensures
        (-x) % d == (if x % d == 0 {
            0int
        } else {
            d - (x % d)
        }),
{
    let q = x / d;
    let r = x % d;
    vstd::arithmetic::div_mod::lemma_fundamental_div_mod(x, d);
    vstd::arithmetic::div_mod::lemma_mod_pos_bound(x, d);
    if r == 0 {
        assert(-x == (-q) * d + 0) by (nonlinear_arith)
            requires
                x == d * q + 0,
        ;
        vstd::arithmetic::div_mod::lemma_fundamental_div_mod_converse(-x, d, -q, 0);
    } else {
        assert(-x == (-q - 1) * d + (d - r)) by (nonlinear_arith)
            requires
                x == d * q + r,
        ;
        vstd::arithmetic::div_mod::lemma_fundamental_div_mod_converse(-x, d, -q - 1, d - r);
    }
}

/// The horizontal texture coordinate of a wall hit. The exact fractional
/// position of the hit along the crossed wall is the other axis's coordinate
/// of the hit point, `(pos_o * rabs + dist * r_o) / (FP_ONE * rabs)`; its
/// fractional part picks the texture column, mirrored when the view looks
/// against the wall's texture direction so both faces read the same way.
pub open spec fn wall_tex_x(cam: Camera, rx: int, ry: int, ns_side: bool, dist: int, t: int)
    -> int {
    let rabs = if ns_side {
        abs(ry) as int
    } else {
        abs(rx) as int
    };
    let pos_o = if ns_side {
        cam.pos.x as int
    } else {
        cam.pos.y as int
    };
    let r_o = if ns_side {
        rx
    } else {
        ry
    };
    let d = (FP_ONE as int) * rabs;
    let m = (pos_o * rabs + dist * r_o) % d;
    let raw = (m * t) / d;
    if (ns_side && ry < 0) || (!ns_side && rx > 0) {
        t - 1 - raw
    } else {
        raw
    }
}

/// Computes the horizontal texture coordinate of a hit on a texture with side
/// length `t`; the result is always within the texture.
pub fn tex_x(cam: &Camera, hit: RayHit, rx: i64, ry: i64, t: usize) -> (tx: usize)
    requires
        0 <= cam.pos.x < FP_ONE * (MAX_DIM as i64),
        0 <= cam.pos.y < FP_ONE * (MAX_DIM as i64),
        -RAY_MAX <= rx <= RAY_MAX,
        -RAY_MAX <= ry <= RAY_MAX,
        hit.ns_side ==> ry != 0,
        !hit.ns_side ==> rx != 0,
        0 <= hit.dist <= FP_ONE * (MAX_DIM as i64),
        1 <= t <= MAX_TEX,
    ensures
        tx == wall_tex_x(*cam, rx as int, ry as int, hit.ns_side, hit.dist as int, t as int),
        tx < t,
{
    let pos_o: i64 = if hit.ns_side {
        cam.pos.x
    } else {
        cam.pos.y
    };
    let r_o: i64 = if hit.ns_side {
        rx
    } else {
        ry
    };
    let r_h: i64 = if hit.ns_side {
        ry
    } else {
        rx
    };
    let rabs: i64 = if r_h < 0 {
        -r_h
    } else {
        r_h
    };
    let d: i64 = FP_ONE * rabs;
    proof {
        assert(0 <= pos_o * rabs <= 0x100_0000_0000_0000 && -0x100_0000_0000_0000 <= hit.dist * r_o
            <= 0x100_0000_0000_0000) by (nonlinear_arith)
            requires
                0 <= pos_o <= 0x400_0000,
                0 < rabs <= 0x4000_0000,
                -0x4000_0000 <= r_o <= 0x4000_0000,
                0 <= hit.dist <= 0x400_0000,
        ;
    }
    let a: i64 = pos_o * rabs;
    let b: i64 = hit.dist * r_o;
    let n: i64 = a + b;
    let m: i64 = if n >= 0 {
        ((n as u64) % (d as u64)) as i64
    } else {
        proof {
            lemma_mod_negate(-n as int, d as int);
        }
        let k: i64 = (((-n) as u64) % (d as u64)) as i64;
        if k == 0 {
            0
        } else {
            d - k
        }
    };
    proof {
        assert(m == (pos_o * rabs + hit.dist * r_o) % (d as int));
        assert(0 <= m < d);
        assert(0 <= m * t < d * t <= 0x1000_0000_0000_0000) by (nonlinear_arith)
            requires
                0 <= m < d,
                0 < t <= 4096,
                0 < d <= 0x4000_0000_0000,
        ;
    }
    let raw64: u64 = ((m as u64) * (t as u64)) / (d as u64);
    proof {
        vstd::arithmetic::div_mod::lemma_multiply_divide_lt(m * t, d as int, t as int);
        vstd::arithmetic::div_mod::lemma_div_pos_is_pos(m * t, d as int);
    }
    let raw: usize = raw64 as usize;
    if (hit.ns_side && ry < 0) || (!hit.ns_side && rx > 0) {
        t - 1 - raw
    } else {
        raw
    }
}

/// The vertical texture coordinate for screen row `y` of a wall span of
/// height `lh`: the row's offset from the top of the unclamped span, scaled
/// by `t / lh` and floored, wrapped into the texture.
pub open spec fn tex_y_spec(y: int, h: int, lh: int, t: int) -> int {
    let ofs = y - (h / 2 - lh / 2);
    ((ofs * t) / lh) % t
}

/// Computes the vertical texture coordinate of one painted row; the result is
/// always within the texture.
pub fn tex_y(y: usize, h: usize, lh: i64, t: usize) -> (ty: usize)
    requires
        1 <= h <= MAX_SCREEN,
        1 <= lh <= LINE_HEIGHT_CAP,
        1 <= t <= MAX_TEX,
        span_start(h as int, lh as int) <= y < span_end(h as int, lh as int),
    ensures
        ty == tex_y_spec(y as int, h as int, lh as int, t as int),
        ty < t,
{
    let half_h: usize = h / 2;
    let half_lh: u64 = (lh as u64) / 2;
    let ofs: u64 = (y as u64) + half_lh - (half_h as u64);
    proof {
        assert(0 <= ofs * t <= 0x4000_0000_0000_0000) by (nonlinear_arith)
            requires
                0 <= ofs <= 0x8000_0000,
                0 < t <= 4096,
        ;
    }
    let num: u64 = ofs * (t as u64);
    let ty64: u64 = (num / (lh as u64)) % (t as u64);
    proof {
        vstd::arithmetic::div_mod::lemma_mod_pos_bound((ofs * t) / (lh as int), t as int);
    }
    ty64 as usize
}
pub fn line_height(h: usize, w: usize, rabs: i64, dist: i64) -> (lh: i64)
    requires
        1 <= h <= MAX_SCREEN,
        1 <= w <= MAX_SCREEN,
        0 <= rabs <= RAY_MAX,
        0 <= dist <= FP_ONE * (MAX_DIM as i64),
    ensures
        lh == line_height_spec(h as int, w as int, rabs as int, dist as int),
        0 <= lh <= LINE_HEIGHT_CAP,
{
    proof {
        assert(0 <= dist * w <= 0x4000_0000_0000 && 0 <= h * rabs <= 0x4_0000_0000_0000)
            by (nonlinear_arith)
            requires
                0 <= dist <= 0x400_0000,
                0 < w <= 4096,
                0 < h <= 4096,
                0 <= rabs <= 0x4000_0000,
        ;
    }
    let den: i64 = dist * (w as i64);
    if den == 0 {
        return LINE_HEIGHT_CAP;
    }
    let num: i64 = 2 * ((h as i64) * rabs) + den;
    let q: u64 = (num as u64) / ((2 * den) as u64);
    proof {
        vstd::arithmetic::div_mod::lemma_div_nonincreasing(num as int, 2 * den as int);
        vstd::arithmetic::div_mod::lemma_div_pos_is_pos(num as int, 2 * den as int);
    }
    if q > (LINE_HEIGHT_CAP as u64) {
        LINE_HEIGHT_CAP
    } else {
        q as i64
    }
}

/// Clamps the centered wall span to the screen: returns the first row and the
/// one-past-last row to paint with the wall texture.
pub fn draw_span(h: usize, lh: i64) -> (span: (usize, usize))
    requires
        1 <= h <= MAX_SCREEN,
        0 <= lh <= LINE_HEIGHT_CAP,
    ensures
        span.0 == span_start(h as int, lh as int),
        span.1 == span_end(h as int, lh as int),
        span.0 <= span.1 <= h,
{
    let half_h: usize = h / 2;
    let half_lh: u64 = (lh as u64) / 2;
    let start: usize = if (half_lh as u64) >= (half_h as u64) {
        0
    } else {
        half_h - (half_lh as usize)
    };
    let end: usize = if half_lh >= (h as u64) || half_h + (half_lh as usize) >= h {
        h
    } else {
        half_h + (half_lh as usize)
    };
    (start, end)
}

} // verus!
