use vstd::prelude::*;
use vstd::arithmetic::div_mod::lemma_div_multiples_vanish;

verus! {

/// World coordinates and matrix entries are held in fixed point: `ONE`
/// stands for 1.0.
pub const ONE: i64 = 65536;

/// The largest magnitude a fixed-point value may have.
pub const LIMIT: i64 = 0x1_0000_0000;

/// The value lies within the fixed-point range.
pub open spec fn in_range(v: int) -> bool {
    -LIMIT <= v <= LIMIT
}

/// A point or direction of space in fixed point.
#[derive(Clone, Copy, Debug, PartialEq, Eq, Structural)]
pub struct Vec3 {
    pub x: i64,
    pub y: i64,
    pub z: i64,
}

impl Vec3 {
    pub fn new(x: i64, y: i64, z: i64) -> (v: Vec3)
        ensures
            v.x == x && v.y == y && v.z == z,
    {
        Vec3 { x, y, z }
    }

    pub open spec fn wf(&self) -> bool {
        in_range(self.x as int) && in_range(self.y as int) && in_range(self.z as int)
    }
}

/// A row-major 4x4 matrix in fixed point.
#[derive(Clone, Copy, Debug)]
pub struct Mat4 {
    pub m: [[i64; 4]; 4],
}

impl Mat4 {
    /// The all-zero matrix.
    pub fn new() -> (r: Mat4)
        ensures
            forall|i: int, j: int| 0 <= i < 4 && 0 <= j < 4 ==> r.at(i, j) == 0,
    {
        Mat4 { m: [[0i64; 4]; 4] }
    }

    pub open spec fn at(&self, i: int, j: int) -> int {
        self.m[i][j] as int
    }

    pub open spec fn wf(&self) -> bool {
        forall|i: int, j: int| 0 <= i < 4 && 0 <= j < 4 ==> in_range(#[trigger] self.at(i, j))
    }

    /// Sets entry `(i, j)` to `v`.
    pub fn set(&mut self, i: usize, j: usize, v: i64)
        requires
            i < 4,
            j < 4,
        ensures
            forall|a: int, b: int|
                0 <= a < 4 && 0 <= b < 4 ==> #[trigger] final(self).at(a, b) == if a == i && b == j {
                    v as int
                } else {
                    old(self).at(a, b)
                },
    {
        let mut row: [i64; 4] = self.m[i];
        row[j] = v;
        self.m[i] = row;
    }
}

/// Column `c` of the product of the homogeneous point `(x, y, z, 1)` with
/// `m`: the fixed-point products are rounded down to `ONE` units.
pub open spec fn column(v: Vec3, m: Mat4, c: int) -> int {
    (v.x * m.at(0, c) + v.y * m.at(1, c) + v.z * m.at(2, c)) / 65536 + m.at(3, c)
}

/// Division rounding toward zero.
pub open spec fn tdiv(a: int, b: int) -> int {
    if (a >= 0) == (b >= 0) {
        abs_int(a) / abs_int(b)
    } else {
        -(abs_int(a) / abs_int(b))
    }
}

/// The absolute value.
pub open spec fn abs_int(a: int) -> int {
    if a < 0 { -a } else { a }
}

/// The perspective divide of the fixed-point value `n` by `w`; with
/// `w == 0` the value is left undivided.
pub open spec fn divided(n: int, w: int) -> int {
    if w == 0 {
        n
    } else {
        tdiv(n * 65536, w)
    }
}

/// The coordinates of `v` transformed by `m`, with the perspective divide.
pub open spec fn transformed(v: Vec3, m: Mat4) -> (int, int, int) {
    let w = column(v, m, 3);
    (divided(column(v, m, 0), w), divided(column(v, m, 1), w), divided(column(v, m, 2), w))
}

/// The transform fits the fixed-point range.
pub open spec fn transform_fits(v: Vec3, m: Mat4) -> bool {
    let t = transformed(v, m);
    in_range(t.0) && in_range(t.1) && in_range(t.2)
}

/// The transformed point, when it fits the fixed-point range.
pub open spec fn transform_spec(v: Vec3, m: Mat4) -> Option<Vec3> {
    let t = transformed(v, m);
    if transform_fits(v, m) {
        Some(Vec3 { x: t.0 as i64, y: t.1 as i64, z: t.2 as i64 })
    } else {
        None
    }
}

/// A matrix that is zero but for `ONE` on the whole diagonal.
pub open spec fn is_identity(m: Mat4) -> bool {
    forall|i: int, j: int| 0 <= i < 4 && 0 <= j < 4 ==> #[trigger] m.at(i, j) == if i == j { 65536int } else { 0int }
}

/// Transforming by the identity matrix gives the point back unchanged.
pub proof fn law_identity_transform(v: Vec3, m: Mat4)
    requires
        v.wf(),
        is_identity(m),
    ensures
        transform_spec(v, m) == Some(v),
{
    assert(m.at(0, 0) == 65536 && m.at(1, 0) == 0 && m.at(2, 0) == 0 && m.at(3, 0) == 0);
    assert(m.at(0, 1) == 0 && m.at(1, 1) == 65536 && m.at(2, 1) == 0 && m.at(3, 1) == 0);
    assert(m.at(0, 2) == 0 && m.at(1, 2) == 0 && m.at(2, 2) == 65536 && m.at(3, 2) == 0);
    assert(m.at(0, 3) == 0 && m.at(1, 3) == 0 && m.at(2, 3) == 0 && m.at(3, 3) == 65536);
    lemma_scaled_back(v.x as int);
    lemma_scaled_back(v.y as int);
    lemma_scaled_back(v.z as int);
    assert(column(v, m, 3) == 65536);
}

proof fn lemma_scaled_back(x: int)
    ensures
        (x * 65536) / 65536 == x,
        tdiv(x * 65536, 65536) == x,
{
    lemma_div_multiples_vanish(x, 65536);
    assert(x * 65536 == 65536 * x) by (nonlinear_arith);
    if x < 0 {
        lemma_div_multiples_vanish(-x, 65536);
        assert(abs_int(x * 65536) == 65536 * (-x)) by (nonlinear_arith)
            requires x < 0;
    } else {
        assert(abs_int(x * 65536) == 65536 * x) by (nonlinear_arith)
            requires x >= 0;
    }
}

/// Where the homogeneous coordinate `w` is zero no division takes place:
/// the coordinates are the undivided numerators.
pub proof fn law_zero_w_undivided(v: Vec3, m: Mat4)
    requires
        column(v, m, 3) == 0,
    ensures
        transformed(v, m) == (column(v, m, 0), column(v, m, 1), column(v, m, 2)),
{
}

fn mul_wide(a: i64, b: i64) -> (r: i128)
    requires
        in_range(a as int),
        in_range(b as int),
    ensures
        r == a * b,
        -0x1_0000_0000_0000_0000 <= r <= 0x1_0000_0000_0000_0000,
{
    proof {
        assert(-0x1_0000_0000_0000_0000 <= a * b <= 0x1_0000_0000_0000_0000) by (nonlinear_arith)
            requires -0x1_0000_0000 <= a <= 0x1_0000_0000, -0x1_0000_0000 <= b <= 0x1_0000_0000;
    }
    (a as i128) * (b as i128)
}

/// Division of a fixed-point product by `ONE`, rounding down.
pub(crate) fn floor_one(v: i128) -> (r: i128)
    requires
        -0x10_0000_0000_0000_0000 < v < 0x10_0000_0000_0000_0000,
    ensures
        r == v / 65536,
{
    if v >= 0 {
        v / 65536
    } else {
        let q: i128 = (65535 - v) / 65536;
        -q
    }
}

/// Division rounding toward zero.
pub(crate) fn trunc_div(a: i128, b: i128) -> (r: i128)
    requires
        b != 0,
        -0x1_0000_0000_0000_0000_0000 < a < 0x1_0000_0000_0000_0000_0000,
        -0x1_0000_0000_0000_0000_0000 < b < 0x1_0000_0000_0000_0000_0000,
    ensures
        r == tdiv(a as int, b as int),
{
    let ua: i128 = if a < 0 { -a } else { a };
    let ub: i128 = if b < 0 { -b } else { b };
    let q: i128 = ua / ub;
    if (a >= 0) == (b >= 0) { q } else { -q }
}

/// Column `c` of the homogeneous product.
fn column_of(v: &Vec3, m: &Mat4, c: usize) -> (r: i128)
    requires
        v.wf(),
        m.wf(),
        c < 4,
    ensures
        r == column(*v, *m, c as int),
        -0x1_0000_0000_0000_0000 < r < 0x1_0000_0000_0000_0000,
{
    proof {
        assert(in_range(m.at(0, c as int)));
        assert(in_range(m.at(1, c as int)));
        assert(in_range(m.at(2, c as int)));
        assert(in_range(m.at(3, c as int)));
    }
    let s: i128 = mul_wide(v.x, m.m[0][c]) + mul_wide(v.y, m.m[1][c]) + mul_wide(v.z, m.m[2][c]);
    floor_one(s) + m.m[3][c] as i128
}

fn divide_by(n: i128, w: i128) -> (r: i128)
    requires
        -0x1_0000_0000_0000_0000 < n < 0x1_0000_0000_0000_0000,
        -0x1_0000_0000_0000_0000 < w < 0x1_0000_0000_0000_0000,
    ensures
        r == divided(n as int, w as int),
{
    if w != 0 {
        trunc_div(n * 65536, w)
    } else {
        n
    }
}

/// Transforms `v` by `m` as a homogeneous point, with the perspective
/// divide when `w` is not zero. Returns `None` exactly when a coordinate
/// of the result falls outside the fixed-point range.
pub fn transform_point(v: &Vec3, m: &Mat4) -> (r: Option<Vec3>)
    requires
        v.wf(),
        m.wf(),
    ensures
        r == transform_spec(*v, *m),
        r matches Some(o) ==> o.wf(),
{
    let w: i128 = column_of(v, m, 3);
    let x: i128 = divide_by(column_of(v, m, 0), w);
    let y: i128 = divide_by(column_of(v, m, 1), w);
    let z: i128 = divide_by(column_of(v, m, 2), w);
    let lim: i128 = LIMIT as i128;
    if -lim <= x && x <= lim && -lim <= y && y <= lim && -lim <= z && z <= lim {
        Some(Vec3 { x: x as i64, y: y as i64, z: z as i64 })
    } else {
        None
    }
}

} // verus!
