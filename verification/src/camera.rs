use vstd::prelude::*;
use crate::fixed::{FP_ONE, fp_trunc, fp_mul, fp_cell, fp_scale, lemma_fp_trunc_sq};
use crate::map::GridMap;
use crate::vec2::FpVec2;

verus! {

/// A reason a camera configuration was rejected at scene load.
#[derive(Clone, Copy, Debug, PartialEq, Eq, Structural)]
pub enum CameraError {
    /// The starting position lies outside the map or inside a wall cell.
    BadStart,
    /// The facing direction is the zero vector.
    ZeroDirection,
    /// The camera-plane vector is the zero vector.
    ZeroPlane,
    /// The facing direction is longer than two map cells.
    DirectionTooLong,
    /// The camera-plane vector is longer than two map cells.
    PlaneTooLong,
}

/// A direction or camera-plane vector is kept no longer than two map cells,
/// so every per-column ray component fits comfortably in 64 bits.
pub open spec fn vec_len_ok(v: FpVec2) -> bool {
    v.norm_sq() <= 4 * (FP_ONE as int) * (FP_ONE as int)
}

/// The x component of `(x, y)` rotated by the angle whose cosine and sine are
/// `c / FP_ONE` and `s / FP_ONE`, before scaling back down by `FP_ONE`.
pub open spec fn rot_x(x: int, y: int, c: int, s: int) -> int {
    x * c - y * s
}

/// The y component of the same rotation, before scaling back down.
pub open spec fn rot_y(x: int, y: int, c: int, s: int) -> int {
    x * s + y * c
}

/// Rotation is volume-preserving: the squared length of the exact rotated
/// vector is the squared length of the input, scaled by the squared length of
/// the (cosine, sine) pair. When `c^2 + s^2 == FP_ONE^2`, the rotation scales
/// every length by exactly `FP_ONE`, which the subsequent `fp_trunc` undoes
/// up to its rounding.
pub proof fn lemma_rotation_preserves_norm(x: int, y: int, c: int, s: int)
    ensures
        rot_x(x, y, c, s) * rot_x(x, y, c, s) + rot_y(x, y, c, s) * rot_y(x, y, c, s) == (x * x + y
            * y) * (c * c + s * s),
{
    let a = x * c;
    let b = y * s;
    let d = x * s;
    let e = y * c;
    assert((a - b) * (a - b) == a * a - 2 * (a * b) + b * b) by (nonlinear_arith);
    assert((d + e) * (d + e) == d * d + 2 * (d * e) + e * e) by (nonlinear_arith);
    assert(a * b == d * e) by (nonlinear_arith)
        requires
            a == x * c,
            b == y * s,
            d == x * s,
            e == y * c,
    ;
    assert(a * a == (x * x) * (c * c)) by (nonlinear_arith)
        requires
            a == x * c,
    ;
    assert(b * b == (y * y) * (s * s)) by (nonlinear_arith)
        requires
            b == y * s,
    ;
    assert(d * d == (x * x) * (s * s)) by (nonlinear_arith)
        requires
            d == x * s,
    ;
    assert(e * e == (y * y) * (c * c)) by (nonlinear_arith)
        requires
            e == y * c,
    ;
    let p = x * x;
    let q = y * y;
    let r = c * c;
    let t = s * s;
    assert((p + q) * (r + t) == p * r + p * t + q * r + q * t) by (nonlinear_arith);
}

/// Rotating by an angle and then by its negation restores the vector, scaled
/// by the squared length of the (cosine, sine) pair: the exact composition
/// of the two rotation matrices is `(c^2 + s^2)` times the identity.
pub proof fn lemma_rotation_roundtrip(x: int, y: int, c: int, s: int)
    ensures
        rot_x(rot_x(x, y, c, s), rot_y(x, y, c, s), c, -s) == x * (c * c + s * s),
        rot_y(rot_x(x, y, c, s), rot_y(x, y, c, s), c, -s) == y * (c * c + s * s),
{
    let a = x * c;
    let b = y * s;
    let d = x * s;
    let e = y * c;
    assert((a - b) * c == a * c - b * c) by (nonlinear_arith);
    assert((d + e) * s == d * s + e * s) by (nonlinear_arith);
    assert((a - b) * (-s) == -(a * s) + b * s) by (nonlinear_arith);
    assert((d + e) * (-s) == -(d * s) - e * s) by (nonlinear_arith);
    assert((d + e) * c == d * c + e * c) by (nonlinear_arith);
    assert(a * c == x * (c * c)) by (nonlinear_arith)
        requires
            a == x * c,
    ;
    assert(b * c == y * (s * c) && b * s == y * (s * s)) by (nonlinear_arith)
        requires
            b == y * s,
    ;
    assert(d * s == x * (s * s) && d * c == x * (s * c)) by (nonlinear_arith)
        requires
            d == x * s,
    ;
    assert(e * s == y * (s * c) && e * c == y * (c * c)) by (nonlinear_arith)
        requires
            e == y * c,
    ;
    assert(a * s == x * (s * c)) by (nonlinear_arith)
        requires
            a == x * c,
    ;
    assert(x * (c * c) + x * (s * s) == x * (c * c + s * s)) by (nonlinear_arith);
    assert(y * (s * s) + y * (c * c) == y * (c * c + s * s)) by (nonlinear_arith);
}

/// What `rotate` actually stores stays volume-preserving up to its rounding:
/// for an exactly unit (cosine, sine) pair and a vector no longer than two
/// cells, the squared length after the truncating scale never grows and loses
/// less than `8 * FP_ONE` — a relative error below one part in eight
/// thousand of the squared length of a unit vector.
pub proof fn lemma_rotation_norm_drift(x: int, y: int, c: int, s: int)
    requires
        c * c + s * s == (FP_ONE as int) * (FP_ONE as int),
        x * x + y * y <= 4 * (FP_ONE as int) * (FP_ONE as int),
    ensures
        ({
            let tx = fp_trunc(rot_x(x, y, c, s));
            let ty = fp_trunc(rot_y(x, y, c, s));
            x * x + y * y - 8 * (FP_ONE as int) <= tx * tx + ty * ty <= x * x + y * y
        }),
{
    let f = FP_ONE as int;
    let p = rot_x(x, y, c, s);
    let q = rot_y(x, y, c, s);
    let tx = fp_trunc(p);
    let ty = fp_trunc(q);
    let pm = if p >= 0 {
        p
    } else {
        -p
    };
    let qm = if q >= 0 {
        q
    } else {
        -q
    };
    lemma_rotation_preserves_norm(x, y, c, s);
    lemma_fp_trunc_sq(p);
    lemma_fp_trunc_sq(q);
    assert(tx * tx + ty * ty <= x * x + y * y) by (nonlinear_arith)
        requires
            tx * tx * (f * f) <= p * p,
            ty * ty * (f * f) <= q * q,
            p * p + q * q == (x * x + y * y) * (f * f),
            f == 65536,
    ;
    crate::fixed::lemma_fp_trunc_sq_lower(p);
    crate::fixed::lemma_fp_trunc_sq_lower(q);
    assert(pm <= 2 * (f * f) && qm <= 2 * (f * f)) by (nonlinear_arith)
        requires
            p * p + q * q == (x * x + y * y) * (f * f),
            x * x + y * y <= 4 * f * f,
            pm == (if p >= 0 {
                p
            } else {
                -p
            }),
            qm == (if q >= 0 {
                q
            } else {
                -q
            }),
            f == 65536,
    ;
    assert(tx * tx + ty * ty >= x * x + y * y - 8 * f) by (nonlinear_arith)
        requires
            tx * tx * (f * f) >= p * p - 2 * f * pm,
            ty * ty * (f * f) >= q * q - 2 * f * qm,
            pm <= 2 * (f * f),
            qm <= 2 * (f * f),
            p * p + q * q == (x * x + y * y) * (f * f),
            f == 65536,
    ;
}

/// A vector no longer than two cells has both components within two cells.
pub proof fn lemma_vec_components(v: FpVec2)
    requires
        vec_len_ok(v),
    ensures
        -2 * (FP_ONE as int) <= v.x <= 2 * (FP_ONE as int),
        -2 * (FP_ONE as int) <= v.y <= 2 * (FP_ONE as int),
{
    assert(-131072 <= v.x <= 131072 && -131072 <= v.y <= 131072) by (nonlinear_arith)
        requires
            v.x * v.x + v.y * v.y <= 4 * (FP_ONE as int) * (FP_ONE as int),
    ;
}

/// Rotating a vector of acceptable length by a (cosine, sine) pair of length
/// at most one keeps the length acceptable, even after the truncating scale.
proof fn lemma_rotated_len_ok(v: FpVec2, c: int, s: int)
    requires
        vec_len_ok(v),
        c * c + s * s <= (FP_ONE as int) * (FP_ONE as int),
    ensures
        ({
            let tx = fp_trunc(rot_x(v.x as int, v.y as int, c, s));
            let ty = fp_trunc(rot_y(v.x as int, v.y as int, c, s));
            tx * tx + ty * ty <= 4 * (FP_ONE as int) * (FP_ONE as int)
        }),
{
    let f = FP_ONE as int;
    let a = v.x as int;
    let b = v.y as int;
    let p = rot_x(a, b, c, s);
    let q = rot_y(a, b, c, s);
    lemma_rotation_preserves_norm(a, b, c, s);
    assert((a * a + b * b) * (c * c + s * s) <= (4 * f * f) * (f * f)) by (nonlinear_arith)
        requires
            a * a + b * b <= 4 * f * f,
            c * c + s * s <= f * f,
            f == 65536,
    ;
    lemma_fp_trunc_sq(p);
    lemma_fp_trunc_sq(q);
    let tx = fp_trunc(p);
    let ty = fp_trunc(q);
    assert(tx * tx + ty * ty <= 4 * f * f) by (nonlinear_arith)
        requires
            tx * tx * (f * f) <= p * p,
            ty * ty * (f * f) <= q * q,
            p * p + q * q <= (4 * f * f) * (f * f),
            f == 65536,
    ;
}

/// The four independent movement intents sampled once per frame; how they
/// were produced (keyboard, script) is outside the engine.
#[derive(Clone, Copy, Debug, PartialEq, Eq, Structural)]
pub struct Intents {
    pub forward: bool,
    pub backward: bool,
    pub turn_left: bool,
    pub turn_right: bool,
}

/// The viewer state: a position inside an empty map cell, a facing direction,
/// and the camera-plane vector whose length sets the field of view.
#[derive(Clone, Copy, Debug, PartialEq, Eq, Structural)]
pub struct Camera {
    pub pos: FpVec2,
    pub dir: FpVec2,
    pub plane: FpVec2,
}

impl Camera {
    /// The map column the camera stands in.
    pub open spec fn cell_x(self) -> int {
        self.pos.x as int / (FP_ONE as int)
    }

    /// The map row the camera stands in.
    pub open spec fn cell_y(self) -> int {
        self.pos.y as int / (FP_ONE as int)
    }

    /// The position lies in an empty cell of the map.
    pub open spec fn pos_ok(self, map: GridMap) -> bool {
        &&& 0 <= self.pos.x
        &&& 0 <= self.pos.y
        &&& map.in_bounds(self.cell_x(), self.cell_y())
        &&& map.cell(self.cell_x(), self.cell_y()) == 0
    }

    pub open spec fn vectors_ok(self) -> bool {
        vec_len_ok(self.dir) && vec_len_ok(self.plane)
    }

    pub open spec fn wf(self, map: GridMap) -> bool {
        self.pos_ok(map) && self.vectors_ok()
    }

    /// The axis displacements of one movement step: the facing direction
    /// scaled by `speed / FP_ONE`, truncated toward zero.
    pub open spec fn move_dx(self, speed: i64) -> int {
        fp_trunc(self.dir.x * speed)
    }

    pub open spec fn move_dy(self, speed: i64) -> int {
        fp_trunc(self.dir.y * speed)
    }

    /// The x coordinate after one movement step: the candidate is accepted
    /// only if the cell at (candidate x, current y) is empty.
    pub open spec fn moved_x(self, map: GridMap, speed: i64) -> int {
        let cand = self.pos.x + self.move_dx(speed);
        if map.cell(cand / (FP_ONE as int), self.cell_y()) == 0 {
            cand
        } else {
            self.pos.x as int
        }
    }

    /// The y coordinate after one movement step: the candidate is tested at
    /// the already-updated x coordinate, which makes a diagonal step into a
    /// corner slide along the free axis instead of stopping.
    pub open spec fn moved_y(self, map: GridMap, speed: i64) -> int {
        let cand = self.pos.y + self.move_dy(speed);
        if map.cell(self.moved_x(map, speed) / (FP_ONE as int), cand / (FP_ONE as int)) == 0 {
            cand
        } else {
            self.pos.y as int
        }
    }

    /// Rotates the facing direction and the camera plane in place by the same
    /// angle, whose cosine and sine are given as the fixed-point pair
    /// `(c / FP_ONE, s / FP_ONE)`; each vector goes through the exact 2D
    /// rotation matrix and is scaled back with truncation toward zero. The
    /// position is untouched, so well-formedness against any map is kept.
    pub fn rotate(&mut self, c: i64, s: i64)
        requires
            old(self).vectors_ok(),
            c * c + s * s <= FP_ONE * FP_ONE,
        ensures
            final(self).pos == old(self).pos,
            final(self).dir.x == fp_trunc(
                rot_x(old(self).dir.x as int, old(self).dir.y as int, c as int, s as int),
            ),
            final(self).dir.y == fp_trunc(
                rot_y(old(self).dir.x as int, old(self).dir.y as int, c as int, s as int),
            ),
            final(self).plane.x == fp_trunc(
                rot_x(old(self).plane.x as int, old(self).plane.y as int, c as int, s as int),
            ),
            final(self).plane.y == fp_trunc(
                rot_y(old(self).plane.x as int, old(self).plane.y as int, c as int, s as int),
            ),
            final(self).vectors_ok(),
    {
        proof {
            assert(-65536 <= c <= 65536 && -65536 <= s <= 65536) by (nonlinear_arith)
                requires
                    c * c + s * s <= 65536 * 65536,
            ;
            lemma_vec_components(self.dir);
            lemma_vec_components(self.plane);
            assert(-0x2_0000_0000 <= self.dir.x * c <= 0x2_0000_0000 && -0x2_0000_0000 <= self.dir.y
                * s <= 0x2_0000_0000 && -0x2_0000_0000 <= self.dir.x * s <= 0x2_0000_0000
                && -0x2_0000_0000 <= self.dir.y * c <= 0x2_0000_0000) by (nonlinear_arith)
                requires
                    -131072 <= self.dir.x <= 131072,
                    -131072 <= self.dir.y <= 131072,
                    -65536 <= c <= 65536,
                    -65536 <= s <= 65536,
            ;
            assert(-0x2_0000_0000 <= self.plane.x * c <= 0x2_0000_0000 && -0x2_0000_0000
                <= self.plane.y * s <= 0x2_0000_0000 && -0x2_0000_0000 <= self.plane.x * s
                <= 0x2_0000_0000 && -0x2_0000_0000 <= self.plane.y * c <= 0x2_0000_0000)
                by (nonlinear_arith)
                requires
                    -131072 <= self.plane.x <= 131072,
                    -131072 <= self.plane.y <= 131072,
                    -65536 <= c <= 65536,
                    -65536 <= s <= 65536,
            ;
        }
        let ndx = fp_scale(self.dir.x * c - self.dir.y * s);
        let ndy = fp_scale(self.dir.x * s + self.dir.y * c);
        let npx = fp_scale(self.plane.x * c - self.plane.y * s);
        let npy = fp_scale(self.plane.x * s + self.plane.y * c);
        proof {
            lemma_rotated_len_ok(self.dir, c as int, s as int);
            lemma_rotated_len_ok(self.plane, c as int, s as int);
        }
        self.dir = FpVec2 { x: ndx, y: ndy };
        self.plane = FpVec2 { x: npx, y: npy };
    }

    /// Advances the camera along its facing direction by `speed / FP_ONE`
    /// cells (a negative speed walks backward), testing each axis
    /// independently against the map so the camera slides along walls: an
    /// axis keeps its old coordinate when its candidate cell is a wall, and
    /// the y test reuses the already-updated x coordinate. The per-axis
    /// displacement must stay below one cell, the thickness of a wall. After
    /// the step the camera still stands in an empty cell.
    pub fn move_player(&mut self, map: &GridMap, speed: i64)
        requires
            map.wf(),
            old(self).wf(*map),
            -0x2000_0000 <= speed <= 0x2000_0000,
            -(FP_ONE * FP_ONE) < old(self).dir.x * speed < FP_ONE * FP_ONE,
            -(FP_ONE * FP_ONE) < old(self).dir.y * speed < FP_ONE * FP_ONE,
        ensures
            final(self).dir == old(self).dir,
            final(self).plane == old(self).plane,
            final(self).pos.x == old(self).moved_x(*map, speed),
            final(self).pos.y == old(self).moved_y(*map, speed),
            final(self).wf(*map),
    {
        let ghost f = FP_ONE as int;
        let ghost w = map.width as int;
        let ghost h = map.height as int;
        proof {
            lemma_vec_components(self.dir);
            map.lemma_empty_cell_is_interior(self.cell_x(), self.cell_y());
            vstd::arithmetic::div_mod::lemma_fundamental_div_mod(self.pos.x as int, f);
            vstd::arithmetic::div_mod::lemma_mod_pos_bound(self.pos.x as int, f);
            vstd::arithmetic::div_mod::lemma_fundamental_div_mod(self.pos.y as int, f);
            vstd::arithmetic::div_mod::lemma_mod_pos_bound(self.pos.y as int, f);
            crate::fixed::lemma_fp_trunc_mag(self.dir.x * speed);
            crate::fixed::lemma_fp_trunc_mag(self.dir.y * speed);
        }
        let dx = fp_mul(self.dir.x, speed);
        let cand_x = self.pos.x + dx;
        let cx = fp_cell(cand_x);
        let cy = fp_cell(self.pos.y);
        proof {
            vstd::arithmetic::div_mod::lemma_multiply_divide_lt(cand_x as int, f, w);
            vstd::arithmetic::div_mod::lemma_multiply_divide_lt(self.pos.y as int, f, h);
        }
        if map.cell_at(cx, cy) == 0 {
            self.pos.x = cand_x;
        }
        proof {
            assert(self.pos.x as int == old(self).moved_x(*map, speed));
        }
        let dy = fp_mul(self.dir.y, speed);
        let cand_y = self.pos.y + dy;
        let nx = fp_cell(self.pos.x);
        let ncy = fp_cell(cand_y);
        proof {
            vstd::arithmetic::div_mod::lemma_multiply_divide_lt(self.pos.x as int, f, w);
            vstd::arithmetic::div_mod::lemma_multiply_divide_lt(cand_y as int, f, h);
        }
        if map.cell_at(nx, ncy) == 0 {
            self.pos.y = cand_y;
        }
        proof {
            assert(self.pos.y as int == old(self).moved_y(*map, speed));
            vstd::arithmetic::div_mod::lemma_div_pos_is_pos(self.pos.x as int, f);
            vstd::arithmetic::div_mod::lemma_div_pos_is_pos(self.pos.y as int, f);
        }
    }

    /// The camera after one movement step, as a value.
    pub open spec fn moved(self, map: GridMap, speed: i64) -> Camera {
        Camera {
            pos: FpVec2 {
                x: self.moved_x(map, speed) as i64,
                y: self.moved_y(map, speed) as i64,
            },
            ..self
        }
    }

    /// The camera after one rotation step, as a value.
    pub open spec fn rotated(self, c: int, s: int) -> Camera {
        Camera {
            dir: FpVec2 {
                x: fp_trunc(rot_x(self.dir.x as int, self.dir.y as int, c, s)) as i64,
                y: fp_trunc(rot_y(self.dir.x as int, self.dir.y as int, c, s)) as i64,
            },
            plane: FpVec2 {
                x: fp_trunc(rot_x(self.plane.x as int, self.plane.y as int, c, s)) as i64,
                y: fp_trunc(rot_y(self.plane.x as int, self.plane.y as int, c, s)) as i64,
            },
            ..self
        }
    }

    /// The camera after one whole frame step: forward, backward, turn left,
    /// turn right, applied in that order for the intents that are set.
    pub open spec fn stepped(self, map: GridMap, intents: Intents, speed: i64, c: int, s: int)
        -> Camera {
        let c1 = if intents.forward {
            self.moved(map, speed)
        } else {
            self
        };
        let c2 = if intents.backward {
            c1.moved(map, (-speed) as i64)
        } else {
            c1
        };
        let c3 = if intents.turn_left {
            c2.rotated(c, s)
        } else {
            c2
        };
        if intents.turn_right {
            c3.rotated(c, -s)
        } else {
            c3
        }
    }

    /// Applies one frame's intents to the camera: a forward and a backward
    /// step of `speed / FP_ONE` cells, then a left and a right turn by the
    /// angle whose fixed-point cosine and sine are `c` and `s`, each taken
    /// only when its intent flag is set.
    pub fn apply_intents(&mut self, map: &GridMap, intents: Intents, speed: i64, c: i64, s: i64)
        requires
            map.wf(),
            old(self).wf(*map),
            0 <= speed <= 0x2000_0000,
            -(FP_ONE * FP_ONE) < old(self).dir.x * speed < FP_ONE * FP_ONE,
            -(FP_ONE * FP_ONE) < old(self).dir.y * speed < FP_ONE * FP_ONE,
            c * c + s * s <= FP_ONE * FP_ONE,
        ensures
            *final(self) == old(self).stepped(*map, intents, speed, c as int, s as int),
            final(self).wf(*map),
    {
        proof {
            assert(-65536 <= s <= 65536) by (nonlinear_arith)
                requires
                    c * c + s * s <= 65536 * 65536,
            ;
        }
        if intents.forward {
            self.move_player(map, speed);
        }
        if intents.backward {
            proof {
                assert(self.dir.x * (-speed) == -(self.dir.x * speed) && self.dir.y * (-speed)
                    == -(self.dir.y * speed)) by (nonlinear_arith);
            }
            self.move_player(map, -speed);
        }
        if intents.turn_left {
            self.rotate(c, s);
        }
        if intents.turn_right {
            proof {
                assert(c * c + (-s) * (-s) == c * c + s * s) by (nonlinear_arith);
            }
            self.rotate(c, -s);
        }
    }

    /// Validates a camera at scene load: the starting cell must be empty, and
    /// direction and plane must be nonzero (a degenerate camera is refused)
    /// and no longer than two cells.
    pub fn new(map: &GridMap, pos: FpVec2, dir: FpVec2, plane: FpVec2) -> (r: Result<
        Camera,
        CameraError,
    >)
        requires
            map.wf(),
        ensures
            match r {
                Ok(cam) => {
                    &&& cam.pos == pos
                    &&& cam.dir == dir
                    &&& cam.plane == plane
                    &&& cam.wf(*map)
                    &&& !(dir.x == 0 && dir.y == 0)
                    &&& !(plane.x == 0 && plane.y == 0)
                },
                Err(CameraError::BadStart) => !(Camera { pos, dir, plane }).pos_ok(*map),
                Err(CameraError::ZeroDirection) => {
                    &&& (Camera { pos, dir, plane }).pos_ok(*map)
                    &&& dir.x == 0 && dir.y == 0
                },
                Err(CameraError::ZeroPlane) => {
                    &&& (Camera { pos, dir, plane }).pos_ok(*map)
                    &&& !(dir.x == 0 && dir.y == 0)
                    &&& plane.x == 0 && plane.y == 0
                },
                Err(CameraError::DirectionTooLong) => {
                    &&& (Camera { pos, dir, plane }).pos_ok(*map)
                    &&& !(dir.x == 0 && dir.y == 0)
                    &&& !(plane.x == 0 && plane.y == 0)
                    &&& !vec_len_ok(dir)
                },
                Err(CameraError::PlaneTooLong) => {
                    &&& (Camera { pos, dir, plane }).pos_ok(*map)
                    &&& !(dir.x == 0 && dir.y == 0)
                    &&& !(plane.x == 0 && plane.y == 0)
                    &&& vec_len_ok(dir)
                    &&& !vec_len_ok(plane)
                },
            },
    {
        let w_fp: i64 = (map.width as i64) * FP_ONE;
        let h_fp: i64 = (map.height as i64) * FP_ONE;
        if !(0 <= pos.x && pos.x < w_fp && 0 <= pos.y && pos.y < h_fp) {
            proof {
                if 0 <= pos.x && 0 <= pos.y {
                    let f = FP_ONE as int;
                    if pos.x >= map.width * f {
                        vstd::arithmetic::div_mod::lemma_div_multiples_vanish(
                            map.width as int,
                            f,
                        );
                        vstd::arithmetic::div_mod::lemma_div_is_ordered(
                            map.width * f,
                            pos.x as int,
                            f,
                        );
                    }
                    if pos.y >= map.height * f {
                        vstd::arithmetic::div_mod::lemma_div_multiples_vanish(
                            map.height as int,
                            f,
                        );
                        vstd::arithmetic::div_mod::lemma_div_is_ordered(
                            map.height * f,
                            pos.y as int,
                            f,
                        );
                    }
                }
            }
            return Err(CameraError::BadStart);
        }
        let cx = fp_cell(pos.x);
        let cy = fp_cell(pos.y);
        proof {
            let f = FP_ONE as int;
            vstd::arithmetic::div_mod::lemma_multiply_divide_lt(pos.x as int, map.width as int, f);
            vstd::arithmetic::div_mod::lemma_multiply_divide_lt(pos.y as int, map.height as int, f);
            vstd::arithmetic::div_mod::lemma_div_pos_is_pos(pos.x as int, f);
            vstd::arithmetic::div_mod::lemma_div_pos_is_pos(pos.y as int, f);
        }
        if map.cell_at(cx, cy) != 0 {
            return Err(CameraError::BadStart);
        }
        if dir.x == 0 && dir.y == 0 {
            return Err(CameraError::ZeroDirection);
        }
        if plane.x == 0 && plane.y == 0 {
            return Err(CameraError::ZeroPlane);
        }
        if !vec_within(dir) {
            return Err(CameraError::DirectionTooLong);
        }
        if !vec_within(plane) {
            return Err(CameraError::PlaneTooLong);
        }
        Ok(Camera { pos, dir, plane })
    }
}

/// Runtime check of `vec_len_ok`, guarding the squaring against overflow by
/// testing the components first.
fn vec_within(v: FpVec2) -> (r: bool)
    ensures
        r == vec_len_ok(v),
{
    if v.x > 2 * FP_ONE || v.x < -(2 * FP_ONE) || v.y > 2 * FP_ONE || v.y < -(2 * FP_ONE) {
        proof {
            assert(v.x * v.x + v.y * v.y > 4 * (FP_ONE as int) * (FP_ONE as int))
                by (nonlinear_arith)
                requires
                    v.x > 131072 || v.x < -131072 || v.y > 131072 || v.y < -131072,
            ;
        }
        return false;
    }
    proof {
        assert(0 <= v.x * v.x <= 0x4_0000_0000 && 0 <= v.y * v.y <= 0x4_0000_0000)
            by (nonlinear_arith)
            requires
                -131072 <= v.x <= 131072,
                -131072 <= v.y <= 131072,
        ;
    }
    let xx: i64 = v.x * v.x;
    let yy: i64 = v.y * v.y;
    xx + yy <= 4 * FP_ONE * FP_ONE
}

} // verus!
