use vstd::prelude::*;
use vstd::math::abs;
use crate::fixed::{FP_ONE, MAX_DIM, fp_cell};
use crate::map::GridMap;
use crate::camera::Camera;
use crate::vec2::CellPos;

verus! {

/// Largest magnitude the engine ever feeds into a ray component; per-column
/// rays built from well-formed cameras stay far below it.
pub const RAY_MAX: i64 = 0x4000_0000;

/// The crossing the walk services next is on a vertical grid line: x steps
/// while it still has a finite crossing (a nonzero x component) and that
/// crossing comes strictly before the next horizontal one. Distances to the
/// crossings are compared as exact fractions `sx / rxa` and `sy / rya` by
/// cross-multiplication; a zero component puts its crossing at infinity.
pub open spec fn dda_step_x(sx: int, sy: int, rxa: int, rya: int) -> bool {
    rxa != 0 && (rya == 0 || sx * rya < sy * rxa)
}

/// Fixed-point distance, along one axis, from position `p` to the first grid
/// line the ray crosses in its direction of travel along that axis.
pub open spec fn init_side(p: int, positive: bool) -> int {
    if positive {
        (p / (FP_ONE as int) + 1) * (FP_ONE as int) - p
    } else {
        p - (p / (FP_ONE as int)) * (FP_ONE as int)
    }
}

/// The walk of the digital differential analyzer, one cell-boundary crossing
/// per recursion step. `(cx, cy)` is the cell the walk stands in, `sx` and
/// `sy` are the fixed-point numerators of the distances to the next vertical
/// and horizontal crossing (denominators `rxa` and `rya`, the ray component
/// magnitudes), and `xpos`/`ypos` give the travel direction per axis. It ends
/// with the first wall cell entered, the side of entry, and the distance
/// numerator of the entering crossing; it is `None` only when the walk runs
/// off the grid, which a closed border ring rules out.
pub open spec fn dda_spec(
    map: GridMap,
    cx: int,
    cy: int,
    sx: int,
    sy: int,
    rxa: int,
    rya: int,
    xpos: bool,
    ypos: bool,
) -> Option<(int, int, bool, int)>
    decreases
            (if xpos {
                map.width - cx
            } else {
                cx + 1
            }) + (if ypos {
                map.height - cy
            } else {
                cy + 1
            }),
{
    if !map.in_bounds(cx, cy) {
        None
    } else if dda_step_x(sx, sy, rxa, rya) {
        let nx = if xpos {
            cx + 1
        } else {
            cx - 1
        };
        if !map.in_bounds(nx, cy) {
            None
        } else if map.cell(nx, cy) > 0 {
            Some((nx, cy, false, sx))
        } else {
            dda_spec(map, nx, cy, sx + FP_ONE, sy, rxa, rya, xpos, ypos)
        }
    } else {
        let ny = if ypos {
            cy + 1
        } else {
            cy - 1
        };
        if !map.in_bounds(cx, ny) {
            None
        } else if map.cell(cx, ny) > 0 {
            Some((cx, ny, true, sy))
        } else {
            dda_spec(map, cx, ny, sx, sy + FP_ONE, rxa, rya, xpos, ypos)
        }
    }
}

/// The whole traversal of a ray with fixed-point components `(rx, ry)` cast
/// from the camera's position.
pub open spec fn ray_walk(map: GridMap, cam: Camera, rx: int, ry: int) -> Option<
    (int, int, bool, int),
> {
    dda_spec(
        map,
        cam.cell_x(),
        cam.cell_y(),
        init_side(cam.pos.x as int, rx >= 0),
        init_side(cam.pos.y as int, ry >= 0),
        abs(rx) as int,
        abs(ry) as int,
        rx >= 0,
        ry >= 0,
    )
}

/// The wall cell a ray hit: the cell index, whether a horizontal grid line
/// was crossed to enter it (`ns_side`), and the fixed-point numerator `dist`
/// of the perpendicular wall distance. The distance itself is the exact
/// fraction `dist / |r|`, where `|r|` is the magnitude of the hit axis's ray
/// component, in whatever scale the caller's ray components carry.
#[derive(Clone, Copy, Debug, PartialEq, Eq, Structural)]
pub struct RayHit {
    pub cell: CellPos,
    pub ns_side: bool,
    pub dist: i64,
}

/// Walks the ray `(rx, ry)` from the camera's position across the grid until
/// it enters a wall cell, advancing one cell-boundary crossing at a time
/// along whichever axis has the nearer pending crossing. Termination is
/// guaranteed by the map's closed border ring: each crossing moves one cell
/// closer to a border along its axis, and the walk stops at a wall no later
/// than there.
pub fn cast_ray(map: &GridMap, cam: &Camera, rx: i64, ry: i64) -> (hit: RayHit)
    requires
        map.wf(),
        cam.pos_ok(*map),
        -RAY_MAX <= rx <= RAY_MAX,
        -RAY_MAX <= ry <= RAY_MAX,
        !(rx == 0 && ry == 0),
    ensures
        ray_walk(*map, *cam, rx as int, ry as int) == Some(
            (hit.cell.x as int, hit.cell.y as int, hit.ns_side, hit.dist as int),
        ),
        map.in_bounds(hit.cell.x as int, hit.cell.y as int),
        map.cell(hit.cell.x as int, hit.cell.y as int) > 0,
        0 <= hit.dist <= FP_ONE * (MAX_DIM as i64),
        hit.ns_side ==> ry != 0,
        !hit.ns_side ==> rx != 0,
{
    let ghost f = FP_ONE as int;
    let mut cx: usize = fp_cell(cam.pos.x);
    let mut cy: usize = fp_cell(cam.pos.y);
    let xpos: bool = rx >= 0;
    let ypos: bool = ry >= 0;
    let rxa: i64 = if rx < 0 {
        -rx
    } else {
        rx
    };
    let rya: i64 = if ry < 0 {
        -ry
    } else {
        ry
    };
    proof {
        vstd::arithmetic::div_mod::lemma_fundamental_div_mod(cam.pos.x as int, f);
        vstd::arithmetic::div_mod::lemma_mod_pos_bound(cam.pos.x as int, f);
        vstd::arithmetic::div_mod::lemma_fundamental_div_mod(cam.pos.y as int, f);
        vstd::arithmetic::div_mod::lemma_mod_pos_bound(cam.pos.y as int, f);
    }
    let mut sx: i64 = if xpos {
        (cx as i64 + 1) * FP_ONE - cam.pos.x
    } else {
        cam.pos.x - (cx as i64) * FP_ONE
    };
    let mut sy: i64 = if ypos {
        (cy as i64 + 1) * FP_ONE - cam.pos.y
    } else {
        cam.pos.y - (cy as i64) * FP_ONE
    };
    proof {
        assert(sx == init_side(cam.pos.x as int, xpos));
        assert(sy == init_side(cam.pos.y as int, ypos));
    }
    loop
        invariant
            map.wf(),
            rxa == abs(rx as int),
            rya == abs(ry as int),
            0 <= rxa <= RAY_MAX,
            0 <= rya <= RAY_MAX,
            !(rxa == 0 && rya == 0),
            xpos == (rx >= 0),
            ypos == (ry >= 0),
            0 <= cx < map.width,
            0 <= cy < map.height,
            map.cell(cx as int, cy as int) == 0,
            0 <= sx,
            0 <= sy,
            xpos ==> sx <= FP_ONE * (cx as i64 + 1),
            !xpos ==> sx <= FP_ONE * (map.width as i64 - cx as i64),
            ypos ==> sy <= FP_ONE * (cy as i64 + 1),
            !ypos ==> sy <= FP_ONE * (map.height as i64 - cy as i64),
            dda_spec(
                *map,
                cx as int,
                cy as int,
                sx as int,
                sy as int,
                rxa as int,
                rya as int,
                xpos,
                ypos,
            ) == ray_walk(*map, *cam, rx as int, ry as int),
        decreases
                (if xpos {
                    map.width - cx
                } else {
                    cx + 1
                }) + (if ypos {
                    map.height - cy
                } else {
                    cy + 1
                }),
    {
        proof {
            map.lemma_empty_cell_is_interior(cx as int, cy as int);
            assert(sx * rya <= 0x400_0000 * 0x4000_0000 && sy * rxa <= 0x400_0000 * 0x4000_0000
                && 0 <= sx * rya && 0 <= sy * rxa) by (nonlinear_arith)
                requires
                    0 <= sx <= 0x400_0000,
                    0 <= sy <= 0x400_0000,
                    0 <= rxa <= 0x4000_0000,
                    0 <= rya <= 0x4000_0000,
            ;
        }
        let ghost ocx = cx as int;
        let ghost ocy = cy as int;
        let ghost osx = sx as int;
        let ghost osy = sy as int;
        let step_x_now: bool = rxa != 0 && (rya == 0 || sx * rya < sy * rxa);
        if step_x_now {
            let hit_s = sx;
            cx = if xpos {
                cx + 1
            } else {
                cx - 1
            };
            sx = sx + FP_ONE;
            if map.cell_at(cx, cy) > 0 {
                proof {
                    assert(dda_spec(
                        *map,
                        ocx,
                        ocy,
                        osx,
                        osy,
                        rxa as int,
                        rya as int,
                        xpos,
                        ypos,
                    ) == Some((cx as int, cy as int, false, hit_s as int)));
                }
                return RayHit { cell: CellPos { x: cx, y: cy }, ns_side: false, dist: hit_s };
            }
            proof {
                assert(dda_spec(*map, ocx, ocy, osx, osy, rxa as int, rya as int, xpos, ypos)
                    == dda_spec(
                    *map,
                    cx as int,
                    cy as int,
                    sx as int,
                    sy as int,
                    rxa as int,
                    rya as int,
                    xpos,
                    ypos,
                ));
            }
        } else {
            let hit_s = sy;
            cy = if ypos {
                cy + 1
            } else {
                cy - 1
            };
            sy = sy + FP_ONE;
            if map.cell_at(cx, cy) > 0 {
                proof {
                    assert(dda_spec(
                        *map,
                        ocx,
                        ocy,
                        osx,
                        osy,
                        rxa as int,
                        rya as int,
                        xpos,
                        ypos,
                    ) == Some((cx as int, cy as int, true, hit_s as int)));
                }
                return RayHit { cell: CellPos { x: cx, y: cy }, ns_side: true, dist: hit_s };
            }
            proof {
                assert(dda_spec(*map, ocx, ocy, osx, osy, rxa as int, rya as int, xpos, ypos)
                    == dda_spec(
                    *map,
                    cx as int,
                    cy as int,
                    sx as int,
                    sy as int,
                    rxa as int,
                    rya as int,
                    xpos,
                    ypos,
                ));
            }
        }
    }
}

} // verus!
