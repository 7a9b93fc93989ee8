use vstd::prelude::*;
use vstd::math::abs;
use crate::fixed::{FP_ONE, MAX_SCREEN};
use crate::map::GridMap;
use crate::camera::{Camera, lemma_vec_components};
use crate::ray::{RAY_MAX, ray_walk, cast_ray};
use crate::project::{
    MAX_TEX,
    LINE_HEIGHT_CAP,
    line_height,
    line_height_spec,
    span_start,
    span_end,
    draw_span,
    wall_tex_x,
    tex_x,
    tex_y_spec,
    tex_y,
};

verus! {

/// One output pixel: three 8-bit color channels.
#[derive(Clone, Copy, Debug, PartialEq, Eq, Structural)]
pub struct Rgb {
    pub r: u8,
    pub g: u8,
    pub b: u8,
}

/// Orientation-based shading, the whole lighting model: a wall entered
/// through a horizontal grid line is darkened by halving each channel.
pub open spec fn shade_spec(c: Rgb, darken: bool) -> Rgb {
    if darken {
        Rgb { r: (c.r / 2) as u8, g: (c.g / 2) as u8, b: (c.b / 2) as u8 }
    } else {
        c
    }
}

/// Applies the side shading to one sampled texel.
pub fn shade(c: Rgb, darken: bool) -> (r: Rgb)
    ensures
        r == shade_spec(c, darken),
{
    if darken {
        Rgb { r: c.r / 2, g: c.g / 2, b: c.b / 2 }
    } else {
        c
    }
}

/// A reason a texture was rejected at scene load.
#[derive(Clone, Copy, Debug, PartialEq, Eq, Structural)]
pub enum TextureError {
    /// The side length is zero or larger than `MAX_TEX`.
    BadSide,
    /// The pixel vector does not hold exactly `side * side` texels.
    BadPixelCount,
}

/// A square read-only texture, rows stored consecutively.
pub struct Texture {
    pub side: usize,
    pub pixels: Vec<Rgb>,
}

impl Texture {
    pub open spec fn texel(self, x: int, y: int) -> Rgb {
        self.pixels@[y * self.side + x]
    }

    pub open spec fn wf(self) -> bool {
        1 <= self.side <= MAX_TEX && self.pixels@.len() == self.side * self.side
    }

    /// Validates a texture at scene load: a side length in `1..=MAX_TEX` and
    /// exactly `side * side` texels.
    pub fn new(side: usize, pixels: Vec<Rgb>) -> (r: Result<Texture, TextureError>)
        ensures
            match r {
                Ok(t) => {
                    &&& t.side == side
                    &&& t.pixels@ == pixels@
                    &&& t.wf()
                },
                Err(TextureError::BadSide) => !(1 <= side <= MAX_TEX),
                Err(TextureError::BadPixelCount) => {
                    &&& 1 <= side <= MAX_TEX
                    &&& pixels@.len() != side * side
                },
            },
    {
        if side < 1 || side > MAX_TEX {
            return Err(TextureError::BadSide);
        }
        proof {
            assert(side * side <= 0x100_0000) by (nonlinear_arith)
                requires
                    side <= 4096,
            ;
        }
        if pixels.len() != side * side {
            return Err(TextureError::BadPixelCount);
        }
        Ok(Texture { side, pixels })
    }

    /// The texel at column `x`, row `y`.
    pub fn at(&self, x: usize, y: usize) -> (c: Rgb)
        requires
            self.wf(),
            x < self.side,
            y < self.side,
        ensures
            c == self.texel(x as int, y as int),
    {
        proof {
            assert(y * self.side + x < self.side * self.side && self.side * self.side
                <= 0x100_0000) by (nonlinear_arith)
                requires
                    x < self.side,
                    y < self.side,
                    self.side <= 4096,
            ;
        }
        self.pixels[y * self.side + x]
    }
}

/// A frame of output pixels, rows stored consecutively, row 0 at the top.
pub struct Frame {
    pub width: usize,
    pub height: usize,
    pub pixels: Vec<Rgb>,
}

impl Frame {
    pub open spec fn wf(self) -> bool {
        &&& 1 <= self.width <= MAX_SCREEN
        &&& 1 <= self.height <= MAX_SCREEN
        &&& self.pixels@.len() == self.width * self.height
    }

    pub open spec fn pixel(self, x: int, y: int) -> Rgb {
        self.pixels@[y * self.width + x]
    }

    /// A frame filled with one color.
    pub fn new(width: usize, height: usize, fill: Rgb) -> (frame: Frame)
        requires
            1 <= width <= MAX_SCREEN,
            1 <= height <= MAX_SCREEN,
        ensures
            frame.wf(),
            frame.width == width,
            frame.height == height,
            forall|i: int, j: int|
                0 <= i < width && 0 <= j < height ==> frame.pixel(i, j) == fill,
    {
        proof {
            assert(width * height <= 0x100_0000) by (nonlinear_arith)
                requires
                    width <= 4096,
                    height <= 4096,
            ;
        }
        let n: usize = width * height;
        let mut pixels: Vec<Rgb> = Vec::new();
        let mut k: usize = 0;
        while k < n
            invariant
                k <= n,
                pixels@.len() == k,
                forall|q: int| 0 <= q < k ==> pixels@[q] == fill,
            decreases n - k,
        {
            pixels.push(fill);
            k = k + 1;
        }
        let frame = Frame { width, height, pixels };
        proof {
            assert forall|i: int, j: int|
                0 <= i < width && 0 <= j < height implies frame.pixel(i, j) == fill by {
                assert(0 <= j * width + i < width * height) by (nonlinear_arith)
                    requires
                        0 <= i < width,
                        0 <= j < height,
                ;
            }
        }
        frame
    }

    /// Writes one pixel.
    pub fn set(&mut self, x: usize, y: usize, c: Rgb)
        requires
            old(self).wf(),
            x < old(self).width,
            y < old(self).height,
        ensures
            final(self).wf(),
            final(self).width == old(self).width,
            final(self).height == old(self).height,
            forall|i: int, j: int|
                0 <= i < old(self).width && 0 <= j < old(self).height ==> final(self).pixel(i, j)
                    == (if i == x && j == y {
                    c
                } else {
                    old(self).pixel(i, j)
                }),
    {
        proof {
            assert(y * self.width + x < self.width * self.height && self.width * self.height
                <= 0x100_0000) by (nonlinear_arith)
                requires
                    x < self.width,
                    y < self.height,
                    self.width <= 4096,
                    self.height <= 4096,
            ;
        }
        let idx: usize = y * self.width + x;
        self.pixels.set(idx, c);
        proof {
            assert forall|i: int, j: int|
                0 <= i < old(self).width && 0 <= j < old(self).height implies self.pixel(i, j) == (
            if i == x && j == y {
                c
            } else {
                old(self).pixel(i, j)
            }) by {
                lemma_row_major_injective(
                    i,
                    j,
                    x as int,
                    y as int,
                    self.width as int,
                    self.height as int,
                );
            }
        }
    }
}

/// Distinct (column, row) pairs of a row-major grid have distinct indices.
proof fn lemma_row_major_injective(i: int, j: int, x: int, y: int, w: int, h: int)
    requires
        0 <= i < w,
        0 <= j < h,
        0 <= x < w,
        0 <= y < h,
    ensures
        (j * w + i == y * w + x) <==> (i == x && j == y),
        0 <= j * w + i < w * h,
        0 <= y * w + x < w * h,
{
    assert(((j * w + i == y * w + x) <==> (i == x && j == y)) && 0 <= j * w + i < w * h && 0 <= y
        * w + x < w * h) by (nonlinear_arith)
        requires
            0 <= i < w,
            0 <= j < h,
            0 <= x < w,
            0 <= y < h,
    ;
}

/// The x component of the per-column ray: `dir + plane * camera_x`, where
/// `camera_x = (2 * x - w) / w` sweeps from -1 at the left edge to 1 at the
/// right. The components carry the common positive scale `FP_ONE * w`, which
/// the traversal never needs and the projection cancels.
pub open spec fn ray_x_spec(cam: Camera, x: int, w: int) -> int {
    cam.dir.x * w + cam.plane.x * (2 * x - w)
}

/// The y component of the per-column ray.
pub open spec fn ray_y_spec(cam: Camera, x: int, w: int) -> int {
    cam.dir.y * w + cam.plane.y * (2 * x - w)
}

/// Computes the fixed-point ray components for screen column `x` of `w`.
pub fn ray_dir(cam: &Camera, x: usize, w: usize) -> (r: (i64, i64))
    requires
        cam.vectors_ok(),
        1 <= w <= MAX_SCREEN,
        x < w,
    ensures
        r.0 == ray_x_spec(*cam, x as int, w as int),
        r.1 == ray_y_spec(*cam, x as int, w as int),
        -RAY_MAX <= r.0 <= RAY_MAX,
        -RAY_MAX <= r.1 <= RAY_MAX,
{
    proof {
        lemma_vec_components(cam.dir);
        lemma_vec_components(cam.plane);
    }
    let cx_num: i64 = 2 * (x as i64) - (w as i64);
    proof {
        assert(-0x2000_0000 <= cam.dir.x * w <= 0x2000_0000 && -0x2000_0000 <= cam.dir.y * w
            <= 0x2000_0000 && -0x2000_0000 <= cam.plane.x * cx_num <= 0x2000_0000 && -0x2000_0000
            <= cam.plane.y * cx_num <= 0x2000_0000) by (nonlinear_arith)
            requires
                -131072 <= cam.dir.x <= 131072,
                -131072 <= cam.dir.y <= 131072,
                -131072 <= cam.plane.x <= 131072,
                -131072 <= cam.plane.y <= 131072,
                0 < w <= 4096,
                -4096 <= cx_num <= 4096,
        ;
    }
    let rx: i64 = cam.dir.x * (w as i64) + cam.plane.x * cx_num;
    let ry: i64 = cam.dir.y * (w as i64) + cam.plane.y * cx_num;
    (rx, ry)
}

/// Every wall code of the map has a texture, and every texture is
/// well-formed.
pub open spec fn textures_ok(map: GridMap, textures: Seq<Texture>) -> bool {
    &&& forall|i: int, j: int|
        map.in_bounds(i, j) ==> #[trigger] map.cell(i, j) as int <= textures.len()
    &&& forall|k: int| 0 <= k < textures.len() ==> (#[trigger] textures[k]).wf()
}

/// The background color of a row: the upper half of the screen is sky, the
/// lower half is floor.
pub open spec fn background_pixel(h: int, sky: Rgb, floor_color: Rgb, y: int) -> Rgb {
    if y < h / 2 {
        sky
    } else {
        floor_color
    }
}

/// The color the engine paints at screen position `(x, y)`: the ray of
/// column `x` is walked across the map; inside the clamped wall span the
/// pixel samples the hit wall's texture with side shading, outside it shows
/// the background. A ray with both components zero (impossible for a loaded
/// camera) and a walk off the grid (impossible over a closed border ring)
/// fall back to the background.
pub open spec fn column_pixel(
    map: GridMap,
    cam: Camera,
    textures: Seq<Texture>,
    w: int,
    h: int,
    sky: Rgb,
    floor_color: Rgb,
    x: int,
    y: int,
) -> Rgb {
    let rx = ray_x_spec(cam, x, w);
    let ry = ray_y_spec(cam, x, w);
    if rx == 0 && ry == 0 {
        background_pixel(h, sky, floor_color, y)
    } else {
        match ray_walk(map, cam, rx, ry) {
            Option::None => background_pixel(h, sky, floor_color, y),
            Option::Some(hit) => {
                let rabs = if hit.2 {
                    abs(ry) as int
                } else {
                    abs(rx) as int
                };
                let lh = line_height_spec(h, w, rabs, hit.3);
                if span_start(h, lh) <= y < span_end(h, lh) {
                    let tex = textures[map.cell(hit.0, hit.1) - 1];
                    shade_spec(
                        tex.texel(
                            wall_tex_x(cam, rx, ry, hit.2, hit.3, tex.side as int),
                            tex_y_spec(y, h, lh, tex.side as int),
                        ),
                        hit.2,
                    )
                } else {
                    background_pixel(h, sky, floor_color, y)
                }
            },
        }
    }
}

/// Paints screen column `x` of the frame: every row inside the clamped wall
/// span of the column's ray samples the hit wall's texture with side shading,
/// and every row outside it shows the sky or floor band. No other column is
/// touched.
pub fn render_column(
    frame: &mut Frame,
    map: &GridMap,
    cam: &Camera,
    textures: &Vec<Texture>,
    x: usize,
    sky: Rgb,
    floor_color: Rgb,
)
    requires
        old(frame).wf(),
        map.wf(),
        cam.wf(*map),
        textures_ok(*map, textures@),
        x < old(frame).width,
    ensures
        final(frame).wf(),
        final(frame).width == old(frame).width,
        final(frame).height == old(frame).height,
        forall|i: int, j: int|
            0 <= i < old(frame).width && 0 <= j < old(frame).height ==> final(frame).pixel(i, j)
                == (if i == x {
                column_pixel(
                    *map,
                    *cam,
                    textures@,
                    old(frame).width as int,
                    old(frame).height as int,
                    sky,
                    floor_color,
                    x as int,
                    j,
                )
            } else {
                old(frame).pixel(i, j)
            }),
{
    let w: usize = frame.width;
    let h: usize = frame.height;
    let (rx, ry) = ray_dir(cam, x, w);
    if rx == 0 && ry == 0 {
        let mut y: usize = 0;
        while y < h
            invariant
                frame.wf(),
                frame.width == old(frame).width,
                frame.height == old(frame).height,
                w == frame.width,
                h == frame.height,
                x < w,
                y <= h,
                ray_x_spec(*cam, x as int, w as int) == 0,
                ray_y_spec(*cam, x as int, w as int) == 0,
                forall|i: int, j: int|
                    0 <= i < w && 0 <= j < h ==> frame.pixel(i, j) == (if i == x && j < y {
                        column_pixel(
                            *map,
                            *cam,
                            textures@,
                            w as int,
                            h as int,
                            sky,
                            floor_color,
                            x as int,
                            j,
                        )
                    } else {
                        old(frame).pixel(i, j)
                    }),
            decreases h - y,
        {
            let c = if y < h / 2 {
                sky
            } else {
                floor_color
            };
            frame.set(x, y, c);
            y = y + 1;
        }
        return ;
    }
    let hit = cast_ray(map, cam, rx, ry);
    let rabs: i64 = if hit.ns_side {
        if ry < 0 {
            -ry
        } else {
            ry
        }
    } else {
        if rx < 0 {
            -rx
        } else {
            rx
        }
    };
    let lh = line_height(h, w, rabs, hit.dist);
    let span = draw_span(h, lh);
    let start = span.0;
    let end = span.1;
    let code = map.cell_at(hit.cell.x, hit.cell.y);
    proof {
        assert(map.cell(hit.cell.x as int, hit.cell.y as int) as int <= textures@.len());
        let f = FP_ONE as int;
        vstd::arithmetic::div_mod::lemma_fundamental_div_mod(cam.pos.x as int, f);
        vstd::arithmetic::div_mod::lemma_mod_pos_bound(cam.pos.x as int, f);
        vstd::arithmetic::div_mod::lemma_fundamental_div_mod(cam.pos.y as int, f);
        vstd::arithmetic::div_mod::lemma_mod_pos_bound(cam.pos.y as int, f);
    }
    let idx: usize = (code as usize) - 1;
    let tex = &textures[idx];
    let txc = tex_x(cam, hit, rx, ry, tex.side);
    let mut y: usize = 0;
    while y < h
        invariant
            frame.wf(),
            frame.width == old(frame).width,
            frame.height == old(frame).height,
            w == frame.width,
            h == frame.height,
            x < w,
            y <= h,
            map.wf(),
            cam.wf(*map),
            rx == ray_x_spec(*cam, x as int, w as int),
            ry == ray_y_spec(*cam, x as int, w as int),
            !(rx == 0 && ry == 0),
            ray_walk(*map, *cam, rx as int, ry as int) == Some(
                (hit.cell.x as int, hit.cell.y as int, hit.ns_side, hit.dist as int),
            ),
            rabs as int == (if hit.ns_side {
                abs(ry as int) as int
            } else {
                abs(rx as int) as int
            }),
            lh == line_height_spec(h as int, w as int, rabs as int, hit.dist as int),
            0 <= lh <= LINE_HEIGHT_CAP,
            start == span_start(h as int, lh as int),
            end == span_end(h as int, lh as int),
            start <= end <= h,
            code == map.cell(hit.cell.x as int, hit.cell.y as int),
            code >= 1,
            idx == code - 1,
            textures@.len() > idx,
            *tex == textures@[idx as int],
            tex.wf(),
            txc == wall_tex_x(
                *cam,
                rx as int,
                ry as int,
                hit.ns_side,
                hit.dist as int,
                tex.side as int,
            ),
            txc < tex.side,
            forall|i: int, j: int|
                0 <= i < w && 0 <= j < h ==> frame.pixel(i, j) == (if i == x && j < y {
                    column_pixel(
                        *map,
                        *cam,
                        textures@,
                        w as int,
                        h as int,
                        sky,
                        floor_color,
                        x as int,
                        j,
                    )
                } else {
                    old(frame).pixel(i, j)
                }),
        decreases h - y,
    {
        if start <= y && y < end {
            proof {
                assert(lh >= 1);
            }
            let tyc = tex_y(y, h, lh, tex.side);
            let c = shade(tex.at(txc, tyc), hit.ns_side);
            frame.set(x, y, c);
            proof {
                assert(c == column_pixel(
                    *map,
                    *cam,
                    textures@,
                    w as int,
                    h as int,
                    sky,
                    floor_color,
                    x as int,
                    y as int,
                ));
            }
        } else {
            let c = if y < h / 2 {
                sky
            } else {
                floor_color
            };
            frame.set(x, y, c);
            proof {
                assert(c == column_pixel(
                    *map,
                    *cam,
                    textures@,
                    w as int,
                    h as int,
                    sky,
                    floor_color,
                    x as int,
                    y as int,
                ));
            }
        }
        y = y + 1;
    }
}

/// Renders one whole frame: every column is painted as `render_column` paints
/// it, left to right. Columns are independent; the order is immaterial to the
/// result.
pub fn render_frame(
    map: &GridMap,
    cam: &Camera,
    textures: &Vec<Texture>,
    width: usize,
    height: usize,
    sky: Rgb,
    floor_color: Rgb,
) -> (frame: Frame)
    requires
        map.wf(),
        cam.wf(*map),
        textures_ok(*map, textures@),
        1 <= width <= MAX_SCREEN,
        1 <= height <= MAX_SCREEN,
    ensures
        frame.wf(),
        frame.width == width,
        frame.height == height,
        forall|i: int, j: int|
            0 <= i < width && 0 <= j < height ==> frame.pixel(i, j) == column_pixel(
                *map,
                *cam,
                textures@,
                width as int,
                height as int,
                sky,
                floor_color,
                i,
                j,
            ),
{
    let mut frame = Frame::new(width, height, sky);
    let mut x: usize = 0;
    while x < width
        invariant
            frame.wf(),
            frame.width == width,
            frame.height == height,
            x <= width,
            map.wf(),
            cam.wf(*map),
            textures_ok(*map, textures@),
            forall|i: int, j: int|
                0 <= i < x && 0 <= j < height ==> frame.pixel(i, j) == column_pixel(
                    *map,
                    *cam,
                    textures@,
                    width as int,
                    height as int,
                    sky,
                    floor_color,
                    i,
                    j,
                ),
        decreases width - x,
    {
        render_column(&mut frame, map, cam, textures, x, sky, floor_color);
        x = x + 1;
    }
    frame
}

} // verus!
