use raycaster::camera::{Camera, CameraError, Intents};
use raycaster::fixed::{fp_cell, fp_mul, FP_ONE};
use raycaster::map::{GridMap, MapError};
use raycaster::project::{draw_span, line_height, tex_x, tex_y, LINE_HEIGHT_CAP};
use raycaster::ray::cast_ray;
use raycaster::render::{ray_dir, render_frame, shade, Frame, Rgb, Texture, TextureError};
use raycaster::vec2::FpVec2;

const F: i64 = 65536;

fn demo_rows() -> [[u8; 24]; 24] {
    [
        [4, 4, 4, 4, 4, 4, 4, 4, 4, 4, 4, 4, 4, 4, 4, 4, 7, 7, 7, 7, 7, 7, 7, 7],
        [4, 0, 0, 0, 0, 0, 0, 0, 0, 0, 0, 0, 0, 0, 0, 0, 7, 0, 0, 0, 0, 0, 0, 7],
        [4, 0, 1, 0, 0, 0, 0, 0, 0, 0, 0, 0, 0, 0, 0, 0, 0, 0, 0, 0, 0, 0, 0, 7],
        [4, 0, 2, 0, 0, 0, 0, 0, 0, 0, 0, 0, 0, 0, 0, 0, 0, 0, 0, 0, 0, 0, 0, 7],
        [4, 0, 3, 0, 0, 0, 0, 0, 0, 0, 0, 0, 0, 0, 0, 0, 7, 0, 0, 0, 0, 0, 0, 7],
        [4, 0, 4, 0, 0, 0, 0, 5, 5, 5, 5, 5, 5, 5, 5, 5, 7, 7, 0, 7, 7, 7, 7, 7],
        [4, 0, 5, 0, 0, 0, 0, 5, 0, 5, 0, 5, 0, 5, 0, 5, 7, 0, 0, 0, 7, 7, 7, 1],
        [4, 0, 6, 0, 0, 0, 0, 5, 0, 0, 0, 0, 0, 0, 0, 5, 7, 0, 0, 0, 0, 0, 0, 8],
        [4, 0, 7, 0, 0, 0, 0, 0, 0, 0, 0, 0, 0, 0, 0, 0, 0, 0, 0, 0, 7, 7, 7, 1],
        [4, 0, 8, 0, 0, 0, 0, 5, 0, 0, 0, 0, 0, 0, 0, 5, 7, 0, 0, 0, 0, 0, 0, 8],
        [4, 0, 0, 0, 0, 0, 0, 5, 0, 0, 0, 0, 0, 0, 0, 5, 7, 0, 0, 0, 7, 7, 7, 1],
        [4, 0, 0, 0, 0, 0, 0, 5, 5, 5, 5, 0, 5, 5, 5, 5, 7, 7, 7, 7, 7, 7, 7, 1],
        [6, 6, 6, 6, 6, 6, 6, 6, 6, 6, 6, 0, 6, 6, 6, 6, 6, 6, 6, 6, 6, 6, 6, 6],
        [8, 0, 0, 0, 0, 0, 0, 0, 0, 0, 0, 0, 0, 0, 0, 0, 0, 0, 0, 0, 0, 0, 0, 4],
        [6, 6, 6, 6, 6, 6, 0, 6, 6, 6, 6, 0, 6, 6, 6, 6, 6, 6, 6, 6, 6, 6, 6, 6],
        [4, 4, 4, 4, 4, 4, 0, 4, 4, 4, 6, 0, 6, 2, 2, 2, 2, 2, 2, 2, 3, 3, 3, 3],
        [4, 0, 0, 0, 0, 0, 0, 0, 0, 4, 6, 0, 6, 2, 0, 0, 0, 0, 0, 2, 0, 0, 0, 2],
        [4, 0, 0, 0, 0, 0, 0, 0, 0, 0, 0, 0, 6, 2, 0, 0, 5, 0, 0, 2, 0, 0, 0, 2],
        [4, 0, 0, 0, 0, 0, 0, 0, 0, 4, 6, 0, 6, 2, 0, 0, 0, 0, 0, 2, 2, 0, 2, 2],
        [4, 0, 6, 0, 6, 0, 0, 0, 0, 4, 6, 0, 0, 0, 0, 0, 5, 0, 0, 0, 0, 0, 0, 2],
        [4, 0, 0, 5, 0, 0, 0, 0, 0, 4, 6, 0, 6, 2, 0, 0, 0, 0, 0, 2, 2, 0, 2, 2],
        [4, 0, 6, 0, 6, 0, 0, 0, 0, 4, 6, 0, 6, 2, 0, 0, 5, 0, 0, 2, 0, 0, 0, 2],
        [4, 0, 0, 0, 0, 0, 0, 0, 0, 4, 6, 0, 6, 2, 0, 0, 0, 0, 0, 2, 0, 0, 0, 2],
        [4, 4, 4, 4, 4, 4, 4, 4, 4, 4, 1, 1, 1, 2, 2, 2, 2, 2, 2, 3, 3, 3, 3, 3],
    ]
}

fn demo_map() -> GridMap {
    let rows = demo_rows();
    let mut cells: Vec<u8> = Vec::new();
    for row in rows.iter() {
        for &c in row.iter() {
            cells.push(c);
        }
    }
    GridMap::new(24, 24, cells).expect("demo map is well-formed")
}

fn demo_camera(map: &GridMap) -> Camera {
    Camera::new(
        map,
        FpVec2 { x: 9 * F / 2, y: 5 * F },
        FpVec2 { x: -F, y: 0 },
        FpVec2 { x: 0, y: 43253 },
    )
    .expect("demo camera is valid")
}

fn norm_sq(v: FpVec2) -> i128 {
    (v.x as i128) * (v.x as i128) + (v.y as i128) * (v.y as i128)
}

#[test]
fn fp_mul_truncates_toward_zero() {
    assert_eq!(fp_mul(F, F), F);
    assert_eq!(fp_mul(-F, F), -F);
    assert_eq!(fp_mul(3, 3), 0);
    assert_eq!(fp_mul(-3, 3), 0);
    assert_eq!(fp_mul(-F, 98304), -98304);
    assert_eq!(fp_mul(F / 2, F / 2), F / 4);
}

#[test]
fn fp_cell_floors_to_grid() {
    assert_eq!(fp_cell(0), 0);
    assert_eq!(fp_cell(F - 1), 0);
    assert_eq!(fp_cell(F), 1);
    assert_eq!(fp_cell(9 * F / 2), 4);
}

#[test]
fn vec_negation() {
    let v = FpVec2 { x: -F, y: 42 };
    let n = v.neg();
    assert_eq!(n.x, F);
    assert_eq!(n.y, -42);
    let nn = n.neg();
    assert_eq!(nn, v);
}

#[test]
fn map_rejects_bad_dimensions() {
    assert_eq!(GridMap::new(2, 5, vec![1; 10]).err(), Some(MapError::BadDimensions));
    assert_eq!(GridMap::new(5, 2, vec![1; 10]).err(), Some(MapError::BadDimensions));
    assert_eq!(GridMap::new(2048, 5, vec![1; 10240]).err(), Some(MapError::BadDimensions));
}

#[test]
fn map_rejects_bad_cell_count() {
    assert_eq!(GridMap::new(4, 4, vec![1; 15]).err(), Some(MapError::BadCellCount));
}

#[test]
fn map_rejects_open_border() {
    let mut cells = vec![1u8; 16];
    cells[5] = 0;
    cells[6] = 0;
    cells[1] = 0; // hole in the top border row
    assert_eq!(GridMap::new(4, 4, cells).err(), Some(MapError::OpenBorder));
}

#[test]
fn map_accepts_demo_scene() {
    let map = demo_map();
    assert_eq!(map.width, 24);
    assert_eq!(map.height, 24);
    assert_eq!(map.cell_at(2, 5), 4);
    assert_eq!(map.cell_at(3, 5), 0);
    assert_eq!(map.cell_at(0, 0), 4);
    assert_eq!(map.cell_at(23, 0), 7);
}

#[test]
fn camera_rejects_bad_configurations() {
    let map = demo_map();
    let dir = FpVec2 { x: -F, y: 0 };
    let plane = FpVec2 { x: 0, y: 43253 };
    let zero = FpVec2 { x: 0, y: 0 };
    let inside_wall = FpVec2 { x: F / 2, y: F / 2 };
    let outside = FpVec2 { x: -F, y: 5 * F };
    let long = FpVec2 { x: 3 * F, y: 0 };
    let start = FpVec2 { x: 9 * F / 2, y: 5 * F };
    assert_eq!(Camera::new(&map, inside_wall, dir, plane).err(), Some(CameraError::BadStart));
    assert_eq!(Camera::new(&map, outside, dir, plane).err(), Some(CameraError::BadStart));
    assert_eq!(Camera::new(&map, start, zero, plane).err(), Some(CameraError::ZeroDirection));
    assert_eq!(Camera::new(&map, start, dir, zero).err(), Some(CameraError::ZeroPlane));
    assert_eq!(Camera::new(&map, start, long, plane).err(), Some(CameraError::DirectionTooLong));
    assert_eq!(Camera::new(&map, start, dir, long).err(), Some(CameraError::PlaneTooLong));
    assert!(Camera::new(&map, start, dir, plane).is_ok());
}

#[test]
fn rotation_preserves_length_within_tolerance() {
    let map = demo_map();
    let mut cam = demo_camera(&map);
    let dir_before = norm_sq(cam.dir);
    let plane_before = norm_sq(cam.plane);
    // cosine and sine of 0.03 radians in fixed point
    cam.rotate(65506, 1966);
    let dir_after = norm_sq(cam.dir);
    let plane_after = norm_sq(cam.plane);
    assert!((dir_before - dir_after).abs() < 200_000);
    assert!((plane_before - plane_after).abs() < 200_000);
}

#[test]
fn rotation_quarter_turns_are_exact() {
    let map = demo_map();
    let mut cam = demo_camera(&map);
    let dir0 = cam.dir;
    let plane0 = cam.plane;
    cam.rotate(0, F);
    assert_eq!(cam.dir, FpVec2 { x: 0, y: -F });
    for _ in 0..3 {
        cam.rotate(0, F);
    }
    // four exact quarter turns compose to the identity
    assert_eq!(cam.dir, dir0);
    assert_eq!(cam.plane, plane0);
}

#[test]
fn rotation_roundtrip_restores_state_within_tolerance() {
    let map = demo_map();
    let mut cam = demo_camera(&map);
    let dir0 = cam.dir;
    let plane0 = cam.plane;
    cam.rotate(65506, 1966);
    cam.rotate(65506, -1966);
    assert!((cam.dir.x - dir0.x).abs() <= 4);
    assert!((cam.dir.y - dir0.y).abs() <= 4);
    assert!((cam.plane.x - plane0.x).abs() <= 4);
    assert!((cam.plane.y - plane0.y).abs() <= 4);
}

#[test]
fn movement_stops_at_wall_and_never_enters_it() {
    let map = demo_map();
    let mut cam = demo_camera(&map);
    for _ in 0..40 {
        cam.move_player(&map, 3277);
        let cx = (cam.pos.x / F) as usize;
        let cy = (cam.pos.y / F) as usize;
        assert_eq!(map.cell_at(cx, cy), 0);
    }
    // wedged against the wall cell at column 2 of row 5, still in column 3
    assert_eq!(cam.pos.x, 199_879);
    assert_eq!(cam.pos.y, 5 * F);
}

#[test]
fn movement_slides_along_walls() {
    let map = demo_map();
    let cam0 = Camera::new(
        &map,
        FpVec2 { x: 3 * F / 2, y: 11 * F / 2 },
        FpVec2 { x: -46341, y: -46341 },
        FpVec2 { x: -30601, y: 30601 },
    )
    .expect("corner camera is valid");
    let mut cam = cam0;
    for _ in 0..200 {
        cam.move_player(&map, 3277);
        let cx = (cam.pos.x / F) as usize;
        let cy = (cam.pos.y / F) as usize;
        assert_eq!(map.cell_at(cx, cy), 0);
    }
    // x wedges against the western border early; y keeps sliding north
    assert_eq!(cam.pos.x, 65_866);
    assert_eq!(cam.pos.y, 66_189);
}

#[test]
fn backward_movement_mirrors_forward() {
    let map = demo_map();
    let mut cam = demo_camera(&map);
    let x0 = cam.pos.x;
    cam.apply_intents(
        &map,
        Intents { forward: false, backward: true, turn_left: false, turn_right: false },
        3277,
        F,
        0,
    );
    assert_eq!(cam.pos.x, x0 + 3277);
    assert_eq!(cam.pos.y, 5 * F);
}

#[test]
fn idle_intents_leave_camera_unchanged() {
    let map = demo_map();
    let mut cam = demo_camera(&map);
    let before = cam;
    cam.apply_intents(
        &map,
        Intents { forward: false, backward: false, turn_left: false, turn_right: false },
        3277,
        65506,
        1966,
    );
    assert_eq!(cam, before);
}

#[test]
fn center_ray_hits_expected_wall() {
    let map = demo_map();
    let cam = demo_camera(&map);
    let (rx, ry) = ray_dir(&cam, 320, 640);
    assert_eq!(rx, -F * 640);
    assert_eq!(ry, 0);
    let hit = cast_ray(&map, &cam, rx, ry);
    // walking due west from (4.5, 5.0): first wall is MAP row 5, column 2
    assert_eq!(hit.cell.x, 2);
    assert_eq!(hit.cell.y, 5);
    assert!(!hit.ns_side);
    // perpendicular distance 1.5 cells: numerator over the ray magnitude
    assert_eq!(hit.dist, 98_304);
    assert_eq!(map.cell_at(hit.cell.x, hit.cell.y), 4);
}

#[test]
fn eastward_ray_hits_inner_pillar() {
    let map = demo_map();
    let cam = Camera::new(
        &map,
        FpVec2 { x: 9 * F / 2, y: 5 * F },
        FpVec2 { x: F, y: 0 },
        FpVec2 { x: 0, y: 43253 },
    )
    .expect("camera");
    let hit = cast_ray(&map, &cam, F, 0);
    assert_eq!(hit.cell.x, 7);
    assert_eq!(hit.cell.y, 5);
    assert!(!hit.ns_side);
    assert_eq!(hit.dist, 163_840); // 2.5 cells
}

#[test]
fn north_ray_hits_y_side_and_is_shaded() {
    let map = demo_map();
    let cam = Camera::new(
        &map,
        FpVec2 { x: 9 * F / 2, y: 5 * F },
        FpVec2 { x: 0, y: -F },
        FpVec2 { x: -43253, y: 0 },
    )
    .expect("camera");
    let (rx, ry) = ray_dir(&cam, 32, 64);
    assert_eq!(rx, 0);
    assert_eq!(ry, -F * 64);
    let hit = cast_ray(&map, &cam, rx, ry);
    // walking due north from (4.5, 5.0): first wall is the top border row
    assert_eq!(hit.cell.x, 4);
    assert_eq!(hit.cell.y, 0);
    assert!(hit.ns_side);
    assert_eq!(hit.dist, 4 * F);
    // the full pipeline darkens the y-side wall by halving each channel
    let sky = Rgb { r: 0, g: 0, b: 255 };
    let floor_color = Rgb { r: 0, g: 255, b: 0 };
    let textures = flat_textures();
    let frame = render_frame(&map, &cam, &textures, 64, 48, sky, floor_color);
    // wall code 4 at perpendicular distance 4: span height 12, rows 18..30
    assert_eq!(frame.pixels[24 * 64 + 32], Rgb { r: 20, g: 0, b: 0 });
    assert_eq!(frame.pixels[17 * 64 + 32], sky);
    assert_eq!(frame.pixels[30 * 64 + 32], floor_color);
}

#[test]
fn line_height_matches_projection_formula() {
    // perpendicular distance 1.5 at screen 640 x 480: 480 / 1.5 == 320
    assert_eq!(line_height(480, 640, F * 640, 98_304), 320);
    // a hit at distance zero saturates
    assert_eq!(line_height(480, 640, F * 640, 0), LINE_HEIGHT_CAP);
}

#[test]
fn line_height_decreases_with_distance() {
    let mut last = line_height(480, 640, F * 640, 65_536);
    for k in 2..20i64 {
        let lh = line_height(480, 640, F * 640, 65_536 * k / 2);
        assert!(lh <= last);
        last = lh;
    }
    assert!(line_height(480, 640, F * 640, 131_072) < line_height(480, 640, F * 640, 98_304));
}

#[test]
fn draw_span_clamps_to_screen() {
    assert_eq!(draw_span(480, 320), (80, 400));
    assert_eq!(draw_span(480, 480), (0, 480));
    assert_eq!(draw_span(480, 10_000), (0, 480));
    assert_eq!(draw_span(480, 0), (240, 240));
}

#[test]
fn texture_rejects_bad_configurations() {
    assert_eq!(
        Texture::new(0, Vec::new()).err(),
        Some(TextureError::BadSide)
    );
    assert_eq!(
        Texture::new(8192, Vec::new()).err(),
        Some(TextureError::BadSide)
    );
    let px = Rgb { r: 1, g: 2, b: 3 };
    assert_eq!(
        Texture::new(2, vec![px; 3]).err(),
        Some(TextureError::BadPixelCount)
    );
    let t = Texture::new(2, vec![px; 4]).expect("texture");
    assert_eq!(t.at(1, 1), px);
}

#[test]
fn tex_x_is_in_range_and_mirrors() {
    let map = demo_map();
    let cam = demo_camera(&map);
    let (rx, ry) = ray_dir(&cam, 320, 640);
    let hit = cast_ray(&map, &cam, rx, ry);
    // hit point y coordinate is exactly 5.0: fractional part 0, no mirror
    let tx = tex_x(&cam, hit, rx, ry, 64);
    assert_eq!(tx, 0);

    let east = Camera::new(
        &map,
        FpVec2 { x: 9 * F / 2, y: 5 * F },
        FpVec2 { x: F, y: 0 },
        FpVec2 { x: 0, y: 43253 },
    )
    .expect("camera");
    let hit_e = cast_ray(&map, &east, F, 0);
    // looking east mirrors the x-side texture column: 64 - 1 - 0
    let tx_e = tex_x(&east, hit_e, F, 0, 64);
    assert_eq!(tx_e, 63);
    for t in [1usize, 3, 64, 128] {
        assert!(tex_x(&cam, hit, rx, ry, t) < t);
    }
}

#[test]
fn tex_y_is_in_range_and_walks_the_texture() {
    // span of height 32 on a 48-row screen: rows 8..40, texture side 4
    for (row, expect) in [(8usize, 0usize), (15, 0), (16, 1), (24, 2), (39, 3)] {
        let ty = tex_y(row, 48, 32, 4);
        assert_eq!(ty, expect);
    }
    for row in 8..40usize {
        assert!(tex_y(row, 48, 32, 4) < 4);
    }
}

#[test]
fn shade_halves_channels_on_ns_sides() {
    let c = Rgb { r: 200, g: 101, b: 7 };
    assert_eq!(shade(c, false), c);
    assert_eq!(shade(c, true), Rgb { r: 100, g: 50, b: 3 });
}

fn flat_textures() -> Vec<Texture> {
    let mut ts = Vec::new();
    for k in 0..8u8 {
        let px = Rgb { r: 10 * (k + 1), g: 0, b: 0 };
        ts.push(Texture::new(1, vec![px]).expect("texture"));
    }
    ts
}

#[test]
fn zero_ray_column_shows_background_only() {
    // a camera plane parallel to the direction makes the ray of one column
    // vanish; that column falls back to the two background bands
    let map = demo_map();
    let cam = Camera::new(
        &map,
        FpVec2 { x: 9 * F / 2, y: 5 * F },
        FpVec2 { x: F, y: 0 },
        FpVec2 { x: -2 * F, y: 0 },
    )
    .expect("camera");
    let sky = Rgb { r: 1, g: 2, b: 3 };
    let floor_color = Rgb { r: 4, g: 5, b: 6 };
    let textures = flat_textures();
    let frame = render_frame(&map, &cam, &textures, 4, 4, sky, floor_color);
    // column 3: camera_x = 1/2, so ray = (1, 0) + (-2, 0) / 2 == (0, 0)
    assert_eq!(frame.pixels[0 * 4 + 3], sky);
    assert_eq!(frame.pixels[1 * 4 + 3], sky);
    assert_eq!(frame.pixels[2 * 4 + 3], floor_color);
    assert_eq!(frame.pixels[3 * 4 + 3], floor_color);
}

#[test]
fn render_frame_paints_walls_and_background() {
    let map = demo_map();
    let cam = demo_camera(&map);
    let sky = Rgb { r: 0, g: 0, b: 255 };
    let floor_color = Rgb { r: 0, g: 255, b: 0 };
    let textures = flat_textures();
    let frame: Frame = render_frame(&map, &cam, &textures, 64, 48, sky, floor_color);
    assert_eq!(frame.width, 64);
    assert_eq!(frame.height, 48);
    assert_eq!(frame.pixels.len(), 64 * 48);
    let px = |x: usize, y: usize| frame.pixels[y * 64 + x];
    // center column: wall code 4 at distance 1.5, span rows 8..40, x-side
    assert_eq!(px(32, 0), sky);
    assert_eq!(px(32, 7), sky);
    assert_eq!(px(32, 8), Rgb { r: 40, g: 0, b: 0 });
    assert_eq!(px(32, 24), Rgb { r: 40, g: 0, b: 0 });
    assert_eq!(px(32, 39), Rgb { r: 40, g: 0, b: 0 });
    assert_eq!(px(32, 40), floor_color);
    assert_eq!(px(32, 47), floor_color);
}
