use wireframe::buffer::{PixelBuffer, FULL};
use wireframe::color::{pack_color, Color};
use wireframe::geometry::{transform_point, Mat4, Vec3, LIMIT, ONE};
use wireframe::line::Point;
use wireframe::scene::{
    draw_frame, faces_camera, project_triangle, projection, rotation_x, rotation_z, unit_cube, Camera,
    Triangle,
};

const W: u32 = 500;
const H: u32 = 500;

fn fx(v: f32) -> i64 {
    (v * ONE as f32).round() as i64
}

fn identity() -> Mat4 {
    let mut m = Mat4::new();
    for i in 0..4 {
        m.set(i, i, ONE);
    }
    m
}

fn camera(theta: f32) -> Camera {
    let fov_scale = 1.0 / (90.0f32 * 0.5 / 180.0 * std::f32::consts::PI).tan();
    Camera {
        rot_z: rotation_z(fx(theta.cos()), fx(theta.sin())),
        rot_x: rotation_x(fx((theta * 0.5).cos()), fx((theta * 0.5).sin())),
        proj: projection(fx(0.1), fx(1000.0), fx(fov_scale), fx(H as f32 / W as f32)).unwrap(),
        depth: 3 * ONE,
        width: W,
        scale: 1,
    }
}

fn gray(c: u32) -> u32 {
    (c << 16) | (c << 8) | c
}

#[test]
fn pack_color_puts_blue_before_green() {
    assert_eq!(pack_color(0x12, 0x34, 0x56), 0x125634);
    assert_eq!(pack_color(0, 0, 0), 0);
    assert_eq!(pack_color(255, 255, 255), 0xffffff);
}

#[test]
fn color_to_pixel_packs_its_channels() {
    assert_eq!(Color::new(1, 2, 3).to_pixel(), 0x010302);
}

#[test]
fn new_buffer_is_black() {
    let b = PixelBuffer::new(4, 3);
    assert_eq!(b.pixels.len(), 12);
    assert!(b.pixels.iter().all(|&p| p == 0));
}

#[test]
fn plot_counts_coordinates_from_one() {
    let mut b = PixelBuffer::new(4, 3);
    b.plot(1, 1, FULL);
    assert_eq!(b.pixels[0], 0xffffff);
    b.plot(3, 2, FULL);
    assert_eq!(b.pixels[4 + 2], 0xffffff);
    assert_eq!(b.pixels.iter().filter(|&&p| p != 0).count(), 2);
}

#[test]
fn plot_rounds_brightness_to_gray() {
    let mut b = PixelBuffer::new(4, 3);
    b.plot(1, 1, 128);
    assert_eq!(b.pixels[0], gray(128));
    b.plot(2, 1, 1);
    assert_eq!(b.pixels[1], gray(1));
    b.plot(3, 1, 0);
    assert_eq!(b.pixels[2], 0);
}

#[test]
fn plot_far_out_of_range_writes_nothing() {
    let mut b = PixelBuffer::new(4, 3);
    for &(x, y) in &[
        (i64::MAX, i64::MAX),
        (i64::MIN, i64::MIN),
        (i64::MAX, i64::MIN),
        (i64::MIN, i64::MAX),
        (0, 0),
        (1, 0),
        (0, 1),
        (5, 3),
        (1, 4),
        (-1_000_000, 2),
    ] {
        b.plot(x, y, FULL);
    }
    assert_eq!(b.pixels.len(), 12);
    assert!(b.pixels.iter().all(|&p| p == 0));
}

#[test]
fn plot_checks_the_linear_index_only() {
    let mut b = PixelBuffer::new(4, 3);
    b.plot(5, 1, FULL);
    assert_eq!(b.pixels[4], 0xffffff);
}

#[test]
fn horizontal_line_on_the_top_edge_stays_in_bounds() {
    let mut b = PixelBuffer::new(20, 20);
    b.draw_line(Point::new(0, 0), Point::new(10 * 256, 0));
    assert_eq!(b.pixels.len(), 400);
    assert!(b.pixels.iter().all(|&p| p == 0));
}

fn expected_row() -> Vec<u32> {
    let mut row = vec![gray(128)];
    row.extend(std::iter::repeat(0xffffff).take(9));
    row.push(gray(128));
    row
}

#[test]
fn horizontal_line_lights_one_row() {
    let mut b = PixelBuffer::new(20, 20);
    b.draw_line(Point::new(256, 256), Point::new(11 * 256, 256));
    assert_eq!(&b.pixels[0..11], &expected_row()[..]);
    assert!(b.pixels[11..].iter().all(|&p| p == 0));
}

#[test]
fn reversed_line_gives_the_same_pixels() {
    let mut a = PixelBuffer::new(20, 20);
    let mut b = PixelBuffer::new(20, 20);
    a.draw_line(Point::new(256, 256), Point::new(11 * 256, 256));
    b.draw_line(Point::new(11 * 256, 256), Point::new(256, 256));
    assert_eq!(a.pixels, b.pixels);
}

#[test]
fn vertical_line_lights_one_column() {
    let mut b = PixelBuffer::new(20, 20);
    b.draw_line(Point::new(256, 256), Point::new(256, 11 * 256));
    let column: Vec<u32> = (0..11).map(|r| b.pixels[r * 20]).collect();
    assert_eq!(column, expected_row());
    let lit = b.pixels.iter().filter(|&&p| p != 0).count();
    assert_eq!(lit, 11);
}

#[test]
fn diagonal_line_splits_brightness() {
    let mut b = PixelBuffer::new(20, 20);
    b.draw_line(Point::new(256, 256), Point::new(5 * 256 + 128, 3 * 256 + 128));
    assert!(b.pixels.iter().any(|&p| p != 0 && p != 0xffffff));
    for &p in &b.pixels {
        assert_eq!(p >> 16, p & 0xff);
        assert_eq!((p >> 8) & 0xff, p & 0xff);
    }
}

#[test]
fn triangle_draws_three_edges() {
    let mut b = PixelBuffer::new(20, 20);
    b.draw_triangle(Point::new(256, 256), Point::new(11 * 256, 256), Point::new(256, 11 * 256));
    assert_eq!(b.pixels[1], 0);
    assert_eq!(&b.pixels[2..10], &[0xffffff; 8][..]);
    assert_eq!(b.pixels[5 * 20], 0xffffff);
    assert_ne!(b.pixels[5 * 20 + 5], 0);
}

#[test]
fn identity_transform_keeps_points() {
    let m = identity();
    for v in [Vec3::new(0, 0, 0), Vec3::new(ONE, -2 * ONE, 3 * ONE + 7), Vec3::new(-LIMIT, LIMIT, 12345)] {
        assert_eq!(transform_point(&v, &m), Some(v));
    }
}

#[test]
fn zero_w_leaves_coordinates_undivided() {
    let mut m = Mat4::new();
    m.set(0, 0, 2 * ONE);
    m.set(1, 1, ONE);
    m.set(3, 2, 5);
    let r = transform_point(&Vec3::new(ONE, 3, 4), &m).unwrap();
    assert_eq!(r, Vec3::new(2 * ONE, 3, 5));
}

#[test]
fn perspective_divide_by_depth() {
    let mut m = identity();
    m.set(2, 3, ONE);
    m.set(3, 3, 0);
    let r = transform_point(&Vec3::new(ONE, -ONE, 2 * ONE), &m).unwrap();
    assert_eq!(r, Vec3::new(ONE / 2, -ONE / 2, ONE));
}

#[test]
fn transform_out_of_range_is_none() {
    let mut m = identity();
    m.set(0, 0, LIMIT);
    assert_eq!(transform_point(&Vec3::new(LIMIT, 0, 0), &m), None);
}

#[test]
fn full_turn_matches_no_turn() {
    let v = Vec3::new(ONE, ONE / 2, ONE / 3);
    let turn = 2.0 * std::f32::consts::PI;
    let a = transform_point(&v, &rotation_z(fx(0.0f32.cos()), fx(0.0f32.sin()))).unwrap();
    let b = transform_point(&v, &rotation_z(fx(turn.cos()), fx(turn.sin()))).unwrap();
    assert!((a.x - b.x).abs() <= 4 && (a.y - b.y).abs() <= 4 && a.z == b.z);
    let a = transform_point(&v, &rotation_x(fx(0.0f32.cos()), fx(0.0f32.sin()))).unwrap();
    let b = transform_point(&v, &rotation_x(fx(turn.cos()), fx(turn.sin()))).unwrap();
    assert!(a.x == b.x && (a.y - b.y).abs() <= 4 && (a.z - b.z).abs() <= 4);
}

#[test]
fn rotation_by_quarter_turn() {
    let m = rotation_z(0, ONE);
    assert_eq!(transform_point(&Vec3::new(ONE, 0, 7), &m), Some(Vec3::new(0, ONE, 7)));
}

#[test]
fn projection_entries() {
    let m = projection(fx(0.1), fx(1000.0), ONE, ONE).unwrap();
    assert_eq!(m.m[0][0], ONE);
    assert_eq!(m.m[1][1], ONE);
    assert_eq!(m.m[2][2], 65542);
    assert_eq!(m.m[3][2], -6554);
    assert_eq!(m.m[2][3], ONE);
    assert_eq!(m.m[3][3], 0);
    assert_eq!(m.m[0][1], 0);
}

#[test]
fn projection_out_of_range_is_none() {
    assert!(projection(LIMIT - 1, LIMIT, ONE, ONE).is_none());
}

fn at_depth(t: [(i64, i64, i64); 3]) -> Triangle {
    let v = |p: (i64, i64, i64)| Vec3::new(p.0 * ONE, p.1 * ONE, p.2 * ONE);
    Triangle::new(v(t[0]), v(t[1]), v(t[2]))
}

#[test]
fn back_face_test() {
    assert!(faces_camera(&at_depth([(0, 0, 3), (0, 1, 3), (1, 1, 3)])));
    assert!(!faces_camera(&at_depth([(0, 0, 3), (1, 1, 3), (0, 1, 3)])));
    assert!(!faces_camera(&at_depth([(0, 0, 3), (1, 1, 3), (2, 2, 3)])));
}

#[test]
fn back_face_is_never_drawn() {
    let mut cam = camera(0.0);
    cam.rot_z = identity();
    cam.rot_x = identity();
    let back = at_depth([(0, 0, 0), (1, 1, 0), (0, 1, 0)]);
    let front = at_depth([(0, 0, 0), (0, 1, 0), (1, 1, 0)]);
    assert!(project_triangle(&back, &cam).is_none());
    assert!(project_triangle(&front, &cam).is_some());
    let mut b = PixelBuffer::new(W, H);
    b.render_triangle(&back, &cam);
    assert!(b.pixels.iter().all(|&p| p == 0));
    b.render_triangle(&front, &cam);
    assert!(b.pixels.iter().any(|&p| p != 0));
}

#[test]
fn unit_cube_has_twelve_triangles() {
    let m = unit_cube();
    assert_eq!(m.tris.len(), 12);
    assert_eq!(m.tris[0], at_depth([(0, 0, 0), (0, 1, 0), (1, 1, 0)]));
}

#[test]
fn first_frame_draws_six_faces() {
    let cube = unit_cube();
    let cam = camera(0.05);
    let shown: Vec<usize> = (0..12).filter(|&i| project_triangle(&cube.tris[i], &cam).is_some()).collect();
    assert_eq!(shown, vec![0, 1, 6, 7, 10, 11]);
    let frame = draw_frame(&cube, &cam, H);
    assert_eq!(frame.pixels.len(), (W * H) as usize);
    let lit = frame.pixels.iter().filter(|&&p| p != 0).count();
    assert!(lit > 100 && lit < 20_000);
    for &p in &frame.pixels {
        assert_eq!(p >> 16, p & 0xff);
        assert_eq!((p >> 8) & 0xff, p & 0xff);
    }
}

#[test]
fn same_angle_gives_identical_frames() {
    let cube = unit_cube();
    let cam = camera(0.7);
    let a = draw_frame(&cube, &cam, H);
    let b = draw_frame(&cube, &cam, H);
    assert_eq!(a.pixels, b.pixels);
}

#[test]
fn frame_matches_triangle_by_triangle() {
    let cube = unit_cube();
    let cam = camera(1.3);
    let frame = draw_frame(&cube, &cam, H);
    let mut b = PixelBuffer::new(W, H);
    for t in &cube.tris {
        b.render_triangle(t, &cam);
    }
    assert_eq!(frame.pixels, b.pixels);
}
