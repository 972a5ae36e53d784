use vstd::prelude::*;
use crate::buffer::{pixel_index, PixelBuffer};
use crate::geometry::{floor_one, in_range, tdiv, transform_point, transform_spec, trunc_div, Mat4, Vec3, LIMIT, ONE};
use crate::line::{apply_plots, law_unplotted_pixels_kept, lemma_apply_concat, triangle_plots, Point, PlotCmd};

verus! {

/// Three vertices; their order gives the outward side by the right-hand rule.
#[derive(Clone, Copy, Debug, PartialEq, Eq, Structural)]
pub struct Triangle {
    pub a: Vec3,
    pub b: Vec3,
    pub c: Vec3,
}

impl Triangle {
    pub fn new(a: Vec3, b: Vec3, c: Vec3) -> (t: Triangle)
        ensures
            t.a == a && t.b == b && t.c == c,
    {
        Triangle { a, b, c }
    }

    pub open spec fn wf(&self) -> bool {
        self.a.wf() && self.b.wf() && self.c.wf()
    }
}

/// An ordered list of triangles.
pub struct Mesh {
    pub tris: Vec<Triangle>,
}

impl Mesh {
    pub fn new(tris: Vec<Triangle>) -> (m: Mesh)
        ensures
            m.tris@ == tris@,
    {
        Mesh { tris }
    }

    pub open spec fn wf(&self) -> bool {
        forall|i: int| 0 <= i < self.tris@.len() ==> (#[trigger] self.tris@[i]).wf()
    }
}

/// The matrices and offsets that place a mesh on the screen for one frame.
#[derive(Clone, Copy, Debug)]
pub struct Camera {
    /// Rotation about the z axis, applied first.
    pub rot_z: Mat4,
    /// Rotation about the x axis (the tilt), applied second.
    pub rot_x: Mat4,
    /// The perspective projection.
    pub proj: Mat4,
    /// How far the mesh is pushed away from the camera along z.
    pub depth: i64,
    /// The screen width in pixels.
    pub width: u32,
    /// How many screen pixels one logical pixel covers.
    pub scale: u32,
}

impl Camera {
    pub open spec fn wf(&self) -> bool {
        &&& self.rot_z.wf()
        &&& self.rot_x.wf()
        &&& self.proj.wf()
        &&& in_range(self.depth as int)
        &&& self.scale >= 1
    }
}

/// The rotation by the angle with cosine `c` and sine `s` in the x/y plane.
pub fn rotation_z(c: i64, s: i64) -> (m: Mat4)
    requires
        in_range(c as int),
        in_range(s as int),
    ensures
        m.wf(),
        forall|i: int, j: int| 0 <= i < 4 && 0 <= j < 4 ==> #[trigger] m.at(i, j) == if i == 0 && j == 0 {
            c as int
        } else if i == 0 && j == 1 {
            s as int
        } else if i == 1 && j == 0 {
            -s
        } else if i == 1 && j == 1 {
            c as int
        } else if (i == 2 && j == 2) || (i == 3 && j == 3) {
            65536
        } else {
            0
        },
{
    let mut m = Mat4::new();
    m.set(0, 0, c);
    m.set(0, 1, s);
    m.set(1, 0, -s);
    m.set(1, 1, c);
    m.set(2, 2, ONE);
    m.set(3, 3, ONE);
    m
}

/// The rotation by the angle with cosine `c` and sine `s` in the y/z plane.
pub fn rotation_x(c: i64, s: i64) -> (m: Mat4)
    requires
        in_range(c as int),
        in_range(s as int),
    ensures
        m.wf(),
        forall|i: int, j: int| 0 <= i < 4 && 0 <= j < 4 ==> #[trigger] m.at(i, j) == if i == 1 && j == 1 {
            c as int
        } else if i == 1 && j == 2 {
            s as int
        } else if i == 2 && j == 1 {
            -s
        } else if i == 2 && j == 2 {
            c as int
        } else if (i == 0 && j == 0) || (i == 3 && j == 3) {
            65536
        } else {
            0
        },
{
    let mut m = Mat4::new();
    m.set(0, 0, ONE);
    m.set(1, 1, c);
    m.set(1, 2, s);
    m.set(2, 1, -s);
    m.set(2, 2, c);
    m.set(3, 3, ONE);
    m
}

/// Entry `(i, j)` of the perspective projection for the given near and far
/// planes, field-of-view scale `1 / tan(fov / 2)` and aspect ratio
/// (height over width), all in fixed point.
pub open spec fn projection_entry(near: int, far: int, fov_scale: int, aspect: int, i: int, j: int) -> int {
    if i == 0 && j == 0 {
        aspect * fov_scale / 65536
    } else if i == 1 && j == 1 {
        fov_scale
    } else if i == 2 && j == 2 {
        tdiv(far * 65536, far - near)
    } else if i == 3 && j == 2 {
        tdiv(-(far * near), far - near)
    } else if i == 2 && j == 3 {
        65536
    } else {
        0
    }
}

/// The entries of the projection that can leave the fixed-point range fit.
pub open spec fn projection_fits(near: int, far: int, fov_scale: int, aspect: int) -> bool {
    &&& in_range(projection_entry(near, far, fov_scale, aspect, 0, 0))
    &&& in_range(projection_entry(near, far, fov_scale, aspect, 2, 2))
    &&& in_range(projection_entry(near, far, fov_scale, aspect, 3, 2))
}

/// Builds the perspective projection; `None` exactly when one of its entries
/// falls outside the fixed-point range.
pub fn projection(near: i64, far: i64, fov_scale: i64, aspect: i64) -> (r: Option<Mat4>)
    requires
        0 <= near < far <= LIMIT,
        in_range(fov_scale as int),
        in_range(aspect as int),
    ensures
        r is Some <==> projection_fits(near as int, far as int, fov_scale as int, aspect as int),
        r matches Some(m) ==> m.wf() && forall|i: int, j: int|
            0 <= i < 4 && 0 <= j < 4 ==> #[trigger] m.at(i, j) == projection_entry(
                near as int,
                far as int,
                fov_scale as int,
                aspect as int,
                i,
                j,
            ),
{
    proof {
        assert(-0x1_0000_0000_0000_0000 <= aspect * fov_scale <= 0x1_0000_0000_0000_0000) by (nonlinear_arith)
            requires in_range(aspect as int), in_range(fov_scale as int);
        assert(0 <= far * near <= 0x1_0000_0000_0000_0000) by (nonlinear_arith)
            requires 0 <= near < far <= 0x1_0000_0000;
    }
    let m00: i128 = floor_one(aspect as i128 * fov_scale as i128);
    let m22: i128 = trunc_div(far as i128 * 65536, (far - near) as i128);
    let m32: i128 = trunc_div(-(far as i128 * near as i128), (far - near) as i128);
    let lim: i128 = LIMIT as i128;
    if -lim <= m00 && m00 <= lim && -lim <= m22 && m22 <= lim && -lim <= m32 && m32 <= lim {
        let mut m = Mat4::new();
        m.set(0, 0, m00 as i64);
        m.set(1, 1, fov_scale);
        m.set(2, 2, m22 as i64);
        m.set(3, 2, m32 as i64);
        m.set(2, 3, ONE);
        m.set(3, 3, 0);
        Some(m)
    } else {
        None
    }
}

/// The face normal `(b - a) x (c - a)`, not normalized.
pub open spec fn normal_of(t: Triangle) -> (int, int, int) {
    let (e1x, e1y, e1z) = (t.b.x - t.a.x, t.b.y - t.a.y, t.b.z - t.a.z);
    let (e2x, e2y, e2z) = (t.c.x - t.a.x, t.c.y - t.a.y, t.c.z - t.a.z);
    (e1y * e2z - e1z * e2y, e1z * e2x - e1x * e2z, e1x * e2y - e1y * e2x)
}

/// The dot product of the normal with the vector from the camera, at the
/// origin, to the first vertex.
pub open spec fn facing(t: Triangle) -> int {
    let n = normal_of(t);
    n.0 * t.a.x + n.1 * t.a.y + n.2 * t.a.z
}

/// The triangle faces the camera: the dot product is negative. Scaling the
/// normal to unit length keeps that sign, so the test needs no square root;
/// a degenerate triangle, with a zero normal, never faces the camera.
pub open spec fn faces(t: Triangle) -> bool {
    facing(t) < 0
}

proof fn lemma_product_bound(a: int, b: int, la: int, lb: int)
    requires
        -la <= a <= la,
        -lb <= b <= lb,
    ensures
        -(la * lb) <= a * b <= la * lb,
{
    assert(-(la * lb) <= a * b <= la * lb) by (nonlinear_arith)
        requires -la <= a <= la, -lb <= b <= lb;
}

/// The back-face test.
pub fn faces_camera(t: &Triangle) -> (r: bool)
    requires
        t.wf(),
    ensures
        r == faces(*t),
{
    let e1x: i128 = t.b.x as i128 - t.a.x as i128;
    let e1y: i128 = t.b.y as i128 - t.a.y as i128;
    let e1z: i128 = t.b.z as i128 - t.a.z as i128;
    let e2x: i128 = t.c.x as i128 - t.a.x as i128;
    let e2y: i128 = t.c.y as i128 - t.a.y as i128;
    let e2z: i128 = t.c.z as i128 - t.a.z as i128;
    let ghost l1: int = 0x2_0000_0000int;
    proof {
        lemma_product_bound(e1y as int, e2z as int, l1, l1);
        lemma_product_bound(e1z as int, e2y as int, l1, l1);
        lemma_product_bound(e1z as int, e2x as int, l1, l1);
        lemma_product_bound(e1x as int, e2z as int, l1, l1);
        lemma_product_bound(e1x as int, e2y as int, l1, l1);
        lemma_product_bound(e1y as int, e2x as int, l1, l1);
    }
    let nx: i128 = e1y * e2z - e1z * e2y;
    let ny: i128 = e1z * e2x - e1x * e2z;
    let nz: i128 = e1x * e2y - e1y * e2x;
    proof {
        lemma_product_bound(nx as int, t.a.x as int, 2 * l1 * l1, 0x1_0000_0000);
        lemma_product_bound(ny as int, t.a.y as int, 2 * l1 * l1, 0x1_0000_0000);
        lemma_product_bound(nz as int, t.a.z as int, 2 * l1 * l1, 0x1_0000_0000);
    }
    let d: i128 = nx * t.a.x as i128 + ny * t.a.y as i128 + nz * t.a.z as i128;
    d < 0
}

/// A value clamped to the range of `i32`.
pub open spec fn clamp_i32(v: int) -> int {
    if v < i32::MIN {
        i32::MIN as int
    } else if v > i32::MAX {
        i32::MAX as int
    } else {
        v
    }
}

/// A normalized device coordinate `v` in `-ONE..=ONE` mapped to the screen:
/// shifted by one to `0..=2`, scaled by `width / (2 * scale)` pixels, and
/// written in subpixel units, rounded toward zero; clamped to `i32`.
pub open spec fn screen_coord(v: int, width: int, scale: int) -> int {
    clamp_i32(tdiv((v + 65536) * width * 128, 65536 * scale))
}

fn to_screen_coord(v: i64, width: u32, scale: u32) -> (r: i32)
    requires
        in_range(v as int),
        scale >= 1,
    ensures
        r == screen_coord(v as int, width as int, scale as int),
{
    let shifted: i128 = v as i128 + 65536;
    proof {
        lemma_product_bound(shifted as int, width as int, 0x2_0000_0000, 0x1_0000_0000);
        assert(65536 <= 65536 * scale <= 65536 * 0x1_0000_0000) by (nonlinear_arith)
            requires 1 <= scale <= 0xffff_ffff;
    }
    let q: i128 = trunc_div(shifted * width as i128 * 128, 65536 * scale as i128);
    if q < i32::MIN as i128 {
        i32::MIN
    } else if q > i32::MAX as i128 {
        i32::MAX
    } else {
        q as i32
    }
}

/// A vertex rotated about z, then tilted about x, then pushed away along z.
pub open spec fn world_vertex(v: Vec3, cam: Camera) -> Option<Vec3> {
    match transform_spec(v, cam.rot_z) {
        Some(r1) => match transform_spec(r1, cam.rot_x) {
            Some(r2) => if in_range(r2.z + cam.depth) {
                Some(Vec3 { x: r2.x, y: r2.y, z: (r2.z + cam.depth) as i64 })
            } else {
                None
            },
            None => None,
        },
        None => None,
    }
}

pub open spec fn world_triangle(t: Triangle, cam: Camera) -> Option<Triangle> {
    match (world_vertex(t.a, cam), world_vertex(t.b, cam), world_vertex(t.c, cam)) {
        (Some(a), Some(b), Some(c)) => Some(Triangle { a, b, c }),
        _ => None,
    }
}

/// A placed vertex projected and mapped to the screen.
pub open spec fn screen_point(v: Vec3, cam: Camera) -> Option<Point> {
    match transform_spec(v, cam.proj) {
        Some(p) => Some(
            Point {
                x: screen_coord(p.x as int, cam.width as int, cam.scale as int) as i32,
                y: screen_coord(p.y as int, cam.width as int, cam.scale as int) as i32,
            },
        ),
        None => None,
    }
}

/// The screen corners of a triangle that is placed, faces the camera and
/// projects within the fixed-point range; `None` for any other.
pub open spec fn screen_triangle(t: Triangle, cam: Camera) -> Option<(Point, Point, Point)> {
    match world_triangle(t, cam) {
        Some(w) => if faces(w) {
            match (screen_point(w.a, cam), screen_point(w.b, cam), screen_point(w.c, cam)) {
                (Some(p1), Some(p2), Some(p3)) => Some((p1, p2, p3)),
                _ => None,
            }
        } else {
            None
        },
        None => None,
    }
}

/// The plots that one triangle adds to a frame.
pub open spec fn triangle_contribution(t: Triangle, cam: Camera) -> Seq<PlotCmd> {
    match screen_triangle(t, cam) {
        Some((p1, p2, p3)) => triangle_plots(p1, p2, p3),
        None => Seq::empty(),
    }
}

/// The plots of a whole frame: each triangle's, in mesh order.
pub open spec fn frame_plots(tris: Seq<Triangle>, cam: Camera) -> Seq<PlotCmd>
    decreases tris.len(),
{
    if tris.len() == 0 {
        Seq::empty()
    } else {
        frame_plots(tris.drop_last(), cam) + triangle_contribution(tris.last(), cam)
    }
}

/// A black buffer's pixels.
pub open spec fn black(n: int) -> Seq<u32> {
    Seq::new(n as nat, |i: int| 0u32)
}

/// The pixels of a frame drawn on a black buffer.
pub open spec fn frame_pixels(tris: Seq<Triangle>, cam: Camera, height: u32) -> Seq<u32> {
    apply_plots(black(cam.width as int * height as int), cam.width as int, frame_plots(tris, cam))
}

/// A triangle that, once placed, faces away from the camera or is seen
/// edge-on adds nothing to the frame.
pub proof fn law_back_face_not_drawn(t: Triangle, cam: Camera, w: Triangle)
    requires
        world_triangle(t, cam) == Some(w),
        !faces(w),
    ensures
        triangle_contribution(t, cam) == Seq::<PlotCmd>::empty(),
{
}

/// A triangle that, once placed, faces the camera is drawn: its three edges
/// are plotted whenever its corners project within range.
pub proof fn law_front_face_drawn(t: Triangle, cam: Camera, w: Triangle, p1: Point, p2: Point, p3: Point)
    requires
        world_triangle(t, cam) == Some(w),
        faces(w),
        screen_point(w.a, cam) == Some(p1),
        screen_point(w.b, cam) == Some(p2),
        screen_point(w.c, cam) == Some(p3),
    ensures
        triangle_contribution(t, cam) == triangle_plots(p1, p2, p3),
{
}

fn to_world(v: &Vec3, cam: &Camera) -> (r: Option<Vec3>)
    requires
        v.wf(),
        cam.wf(),
    ensures
        r == world_vertex(*v, *cam),
        r matches Some(o) ==> o.wf(),
{
    match transform_point(v, &cam.rot_z) {
        Some(r1) => match transform_point(&r1, &cam.rot_x) {
            Some(r2) => {
                let z: i64 = r2.z + cam.depth;
                if -LIMIT <= z && z <= LIMIT {
                    Some(Vec3 { x: r2.x, y: r2.y, z })
                } else {
                    None
                }
            },
            None => None,
        },
        None => None,
    }
}

fn to_screen(v: &Vec3, cam: &Camera) -> (r: Option<Point>)
    requires
        v.wf(),
        cam.wf(),
    ensures
        r == screen_point(*v, *cam),
{
    match transform_point(v, &cam.proj) {
        Some(p) => Some(
            Point {
                x: to_screen_coord(p.x, cam.width, cam.scale),
                y: to_screen_coord(p.y, cam.width, cam.scale),
            },
        ),
        None => None,
    }
}

/// Places a triangle, tests it against the camera and projects it: the
/// screen corners of the triangle, or `None` where it is culled or leaves
/// the fixed-point range.
pub fn project_triangle(t: &Triangle, cam: &Camera) -> (r: Option<(Point, Point, Point)>)
    requires
        t.wf(),
        cam.wf(),
    ensures
        r == screen_triangle(*t, *cam),
{
    let a = to_world(&t.a, cam);
    let b = to_world(&t.b, cam);
    let c = to_world(&t.c, cam);
    match (a, b, c) {
        (Some(a), Some(b), Some(c)) => {
            let w = Triangle { a, b, c };
            if faces_camera(&w) {
                match (to_screen(&w.a, cam), to_screen(&w.b, cam), to_screen(&w.c, cam)) {
                    (Some(p1), Some(p2), Some(p3)) => Some((p1, p2, p3)),
                    _ => None,
                }
            } else {
                None
            }
        },
        _ => None,
    }
}

impl PixelBuffer {
    /// Draws one triangle of a mesh as a wireframe, unless it is culled.
    pub fn render_triangle(&mut self, t: &Triangle, cam: &Camera)
        requires
            old(self).wf(),
            t.wf(),
            cam.wf(),
        ensures
            final(self).wf(),
            final(self).width == old(self).width,
            final(self).height == old(self).height,
            final(self).pixels@ == apply_plots(
                old(self).pixels@,
                old(self).width as int,
                triangle_contribution(*t, *cam),
            ),
    {
        match project_triangle(t, cam) {
            Some((p1, p2, p3)) => {
                self.draw_triangle(p1, p2, p3);
            },
            None => {},
        }
    }

    /// Draws every triangle of the mesh, in order.
    pub fn render(&mut self, mesh: &Mesh, cam: &Camera)
        requires
            old(self).wf(),
            mesh.wf(),
            cam.wf(),
        ensures
            final(self).wf(),
            final(self).width == old(self).width,
            final(self).height == old(self).height,
            final(self).pixels@ == apply_plots(
                old(self).pixels@,
                old(self).width as int,
                frame_plots(mesh.tris@, *cam),
            ),
    {
        let ghost start = self.pixels@;
        let ghost w = self.width as int;
        let ghost h = self.height;
        let n: usize = mesh.tris.len();
        let mut i: usize = 0;
        proof {
            assert(mesh.tris@.take(0) =~= Seq::<Triangle>::empty());
        }
        while i < n
            invariant
                i <= n,
                n == mesh.tris@.len(),
                mesh.wf(),
                cam.wf(),
                self.wf(),
                self.width == w,
                self.height == h,
                self.pixels@ == apply_plots(start, w, frame_plots(mesh.tris@.take(i as int), *cam)),
            decreases n - i,
        {
            let ghost before = self.pixels@;
            self.render_triangle(&mesh.tris[i], cam);
            proof {
                let tris = mesh.tris@;
                assert(tris.take(i + 1).drop_last() =~= tris.take(i as int));
                lemma_apply_concat(start, w, frame_plots(tris.take(i as int), *cam), triangle_contribution(tris[i as int], *cam));
            }
            i = i + 1;
        }
        proof {
            assert(mesh.tris@.take(n as int) =~= mesh.tris@);
        }
    }
}

/// Draws one frame on a fresh black buffer of `cam.width` by `height`
/// pixels. The result depends on the mesh, the camera and the height alone,
/// so drawing the same frame twice gives identical pixels.
pub fn draw_frame(mesh: &Mesh, cam: &Camera, height: u32) -> (buf: PixelBuffer)
    requires
        mesh.wf(),
        cam.wf(),
        cam.width as int * height as int <= usize::MAX,
    ensures
        buf.wf(),
        buf.width == cam.width,
        buf.height == height,
        buf.pixels@ == frame_pixels(mesh.tris@, *cam, height),
{
    let mut buf = PixelBuffer::new(cam.width, height);
    assert(buf.pixels@ =~= black(cam.width as int * height as int));
    buf.render(mesh, cam);
    buf
}

/// The triangle with the given unit-cube corners, in fixed point.
pub open spec fn cube_face(ax: int, ay: int, az: int, bx: int, by: int, bz: int, cx: int, cy: int, cz: int) -> Triangle {
    Triangle {
        a: Vec3 { x: (ax * 65536) as i64, y: (ay * 65536) as i64, z: (az * 65536) as i64 },
        b: Vec3 { x: (bx * 65536) as i64, y: (by * 65536) as i64, z: (bz * 65536) as i64 },
        c: Vec3 { x: (cx * 65536) as i64, y: (cy * 65536) as i64, z: (cz * 65536) as i64 },
    }
}

/// The twelve triangles of the unit cube with one corner at the origin, two
/// to a side (south, east, north, west, top, bottom), wound outward.
pub open spec fn cube_triangles() -> Seq<Triangle> {
    seq![
        cube_face(0, 0, 0, 0, 1, 0, 1, 1, 0),
        cube_face(0, 0, 0, 1, 1, 0, 1, 0, 0),
        cube_face(1, 0, 0, 1, 1, 0, 1, 1, 1),
        cube_face(1, 0, 0, 1, 1, 1, 1, 0, 1),
        cube_face(1, 0, 1, 1, 1, 1, 0, 1, 1),
        cube_face(1, 0, 1, 0, 1, 1, 0, 0, 1),
        cube_face(0, 0, 1, 0, 1, 1, 0, 1, 0),
        cube_face(0, 0, 1, 0, 1, 0, 0, 0, 0),
        cube_face(0, 1, 0, 0, 1, 1, 1, 1, 1),
        cube_face(0, 1, 0, 1, 1, 1, 1, 1, 0),
        cube_face(1, 0, 1, 0, 0, 1, 0, 0, 0),
        cube_face(1, 0, 1, 0, 0, 0, 1, 0, 0),
    ]
}

fn corner(x: i64, y: i64, z: i64) -> (v: Vec3)
    requires
        0 <= x <= 1 && 0 <= y <= 1 && 0 <= z <= 1,
    ensures
        v == (Vec3 { x: (x * 65536) as i64, y: (y * 65536) as i64, z: (z * 65536) as i64 }),
        v.wf(),
{
    Vec3 { x: x * ONE, y: y * ONE, z: z * ONE }
}

fn face(ax: i64, ay: i64, az: i64, bx: i64, by: i64, bz: i64, cx: i64, cy: i64, cz: i64) -> (t: Triangle)
    requires
        0 <= ax <= 1 && 0 <= ay <= 1 && 0 <= az <= 1,
        0 <= bx <= 1 && 0 <= by <= 1 && 0 <= bz <= 1,
        0 <= cx <= 1 && 0 <= cy <= 1 && 0 <= cz <= 1,
    ensures
        t == cube_face(ax as int, ay as int, az as int, bx as int, by as int, bz as int, cx as int, cy as int, cz as int),
        t.wf(),
{
    Triangle { a: corner(ax, ay, az), b: corner(bx, by, bz), c: corner(cx, cy, cz) }
}

/// The unit cube as a mesh.
pub fn unit_cube() -> (m: Mesh)
    ensures
        m.tris@ == cube_triangles(),
        m.wf(),
{
    let mut tris: Vec<Triangle> = Vec::new();
    tris.push(face(0, 0, 0, 0, 1, 0, 1, 1, 0));
    tris.push(face(0, 0, 0, 1, 1, 0, 1, 0, 0));

    tris.push(face(1, 0, 0, 1, 1, 0, 1, 1, 1));
    tris.push(face(1, 0, 0, 1, 1, 1, 1, 0, 1));

    tris.push(face(1, 0, 1, 1, 1, 1, 0, 1, 1));
    tris.push(face(1, 0, 1, 0, 1, 1, 0, 0, 1));

    tris.push(face(0, 0, 1, 0, 1, 1, 0, 1, 0));
    tris.push(face(0, 0, 1, 0, 1, 0, 0, 0, 0));

    tris.push(face(0, 1, 0, 0, 1, 1, 1, 1, 1));
    tris.push(face(0, 1, 0, 1, 1, 1, 1, 1, 0));

    tris.push(face(1, 0, 1, 0, 0, 1, 0, 0, 0));
    tris.push(face(1, 0, 1, 0, 0, 0, 1, 0, 0));
    assert(tris@ =~= cube_triangles());
    Mesh::new(tris)
}

/// Drawing the same frame twice gives byte-identical buffers: two buffers
/// that each hold the frame of one mesh, camera and height are equal.
pub proof fn law_frame_idempotent(a: PixelBuffer, b: PixelBuffer, tris: Seq<Triangle>, cam: Camera, height: u32)
    requires
        a.pixels@ == frame_pixels(tris, cam, height),
        b.pixels@ == frame_pixels(tris, cam, height),
    ensures
        a.pixels@ == b.pixels@,
{
}

/// A frame is black but where a plot of it lands: a pixel that no plot
/// names stays zero.
pub proof fn law_frame_black_off_the_lines(tris: Seq<Triangle>, cam: Camera, height: u32, i: int)
    requires
        0 <= i < cam.width as int * height as int,
        forall|k: int|
            0 <= k < frame_plots(tris, cam).len() ==> pixel_index(
                cam.width as int,
                (#[trigger] frame_plots(tris, cam)[k]).0,
                frame_plots(tris, cam)[k].1,
            ) != i,
    ensures
        frame_pixels(tris, cam, height)[i] == 0,
{
    law_unplotted_pixels_kept(black(cam.width as int * height as int), cam.width as int, frame_plots(tris, cam), i);
}

} // verus!
