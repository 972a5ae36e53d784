use vstd::prelude::*;
use crate::buffer::{pixel_index, plotted, PixelBuffer};
use vstd::arithmetic::div_mod::{lemma_div_by_multiple, lemma_div_is_ordered, lemma_div_pos_is_pos};

verus! {

/// Screen coordinates are held in fixed point: `SUB` units to a pixel.
pub const SUB: i64 = 256;

/// A point of the screen, each coordinate in units of `1 / SUB` pixel.
#[derive(Clone, Copy, Debug, PartialEq, Eq, Structural)]
pub struct Point {
    pub x: i32,
    pub y: i32,
}

impl Point {
    pub fn new(x: i32, y: i32) -> (p: Point)
        ensures
            p.x == x && p.y == y,
    {
        Point { x, y }
    }
}

/// The pixel that holds the fixed-point coordinate `v` (rounded down).
pub open spec fn ipart_of(v: int) -> int {
    v / 256
}

/// How far `v` lies into its pixel, in `0..SUB`.
pub open spec fn fpart_of(v: int) -> int {
    v % 256
}

/// What is left of the pixel after `v`, in `1..=SUB`.
pub open spec fn rfpart_of(v: int) -> int {
    256 - fpart_of(v)
}

/// The pixel nearest to `v` (halves round up).
pub open spec fn round_of(v: int) -> int {
    ipart_of(v + 128)
}

/// The absolute value.
pub open spec fn abs_of(v: int) -> int {
    if v < 0 { -v } else { v }
}

/// A line is steep when it rises more than it runs.
pub open spec fn is_steep(p1: Point, p2: Point) -> bool {
    abs_of(p2.y - p1.y) > abs_of(p2.x - p1.x)
}

/// The endpoints `(x0, y0, x1, y1)` with the axes swapped for a steep line,
/// then ordered so that `x0 <= x1`.
pub open spec fn oriented(p1: Point, p2: Point) -> (int, int, int, int) {
    let (ax, ay, bx, by) = if is_steep(p1, p2) {
        (p1.y as int, p1.x as int, p2.y as int, p2.x as int)
    } else {
        (p1.x as int, p1.y as int, p2.x as int, p2.y as int)
    };
    if ax > bx {
        (bx, by, ax, ay)
    } else {
        (ax, ay, bx, by)
    }
}

/// The slope `dy / dx` in units of `1 / SUB`, truncated toward zero; a
/// line with `dx == 0` gets slope one.
pub open spec fn gradient_of(dx: int, dy: int) -> int {
    if dx == 0 {
        256
    } else if dy >= 0 {
        dy * 256 / dx
    } else {
        -((-dy) * 256 / dx)
    }
}

/// One plot: pixel column, pixel row and brightness.
pub type PlotCmd = (int, int, int);

/// A plot at position `u` along the major axis and `v` across it.
pub open spec fn emit(steep: bool, u: int, v: int, b: int) -> PlotCmd {
    if steep {
        (v, u, b)
    } else {
        (u, v, b)
    }
}

/// The geometry of a line after orientation: whether it is steep, its slope,
/// the pixel columns of its two ends and the fixed-point row at each end.
pub struct LineSetup {
    pub steep: bool,
    pub grad: int,
    pub xend1: int,
    pub yend1: int,
    pub xgap1: int,
    pub xend2: int,
    pub yend2: int,
    pub xgap2: int,
}

pub open spec fn setup(p1: Point, p2: Point) -> LineSetup {
    let (x0, y0, x1, y1) = oriented(p1, p2);
    let grad = gradient_of(x1 - x0, y1 - y0);
    let xend1 = round_of(x0);
    let xend2 = round_of(x1);
    LineSetup {
        steep: is_steep(p1, p2),
        grad,
        xend1,
        yend1: y0 + ipart_of(grad * (xend1 * 256 - x0)),
        xgap1: rfpart_of(x0 + 128),
        xend2,
        yend2: y1 + ipart_of(grad * (xend2 * 256 - x1)),
        xgap2: fpart_of(x1 + 128),
    }
}

/// The two plots of one end: the row of `yend` and the one below it share
/// the brightness `xgap` between them.
pub open spec fn end_plots(steep: bool, xend: int, yend: int, xgap: int) -> Seq<PlotCmd> {
    seq![
        emit(steep, xend, ipart_of(yend), rfpart_of(yend) * xgap / 256),
        emit(steep, xend, ipart_of(yend) + 1, fpart_of(yend) * xgap / 256),
    ]
}

/// The number of pixel columns strictly between the two ends.
pub open spec fn interior_len(s: LineSetup) -> int {
    if s.xend2 - s.xend1 - 1 > 0 { s.xend2 - s.xend1 - 1 } else { 0 }
}

/// The `j`-th interior plot: column `k = j / 2` past the first end, where
/// the line crosses at `yend1 + grad * (k + 1)`; even `j` plots the row it
/// crosses, odd `j` the row below.
pub open spec fn interior_plot(s: LineSetup, j: int) -> PlotCmd {
    let k = j / 2;
    let intery = s.yend1 + s.grad * (k + 1);
    if j % 2 == 0 {
        emit(s.steep, s.xend1 + 1 + k, ipart_of(intery), rfpart_of(intery))
    } else {
        emit(s.steep, s.xend1 + 1 + k, ipart_of(intery) + 1, fpart_of(intery))
    }
}

/// Every plot of Wu's anti-aliased line from `p1` to `p2`, in order: the
/// first end, the second end, then each interior column.
pub open spec fn line_plots(p1: Point, p2: Point) -> Seq<PlotCmd> {
    let s = setup(p1, p2);
    end_plots(s.steep, s.xend1, s.yend1, s.xgap1) + end_plots(s.steep, s.xend2, s.yend2, s.xgap2)
        + Seq::new((2 * interior_len(s)) as nat, |j: int| interior_plot(s, j))
}

/// The pixels after performing the plots `ps` in order.
pub open spec fn apply_plots(pixels: Seq<u32>, width: int, ps: Seq<PlotCmd>) -> Seq<u32>
    decreases ps.len(),
{
    if ps.len() == 0 {
        pixels
    } else {
        let last = ps.last();
        plotted(apply_plots(pixels, width, ps.drop_last()), width, last.0, last.1, last.2)
    }
}

/// Between its two ends a line plots each pixel column along its major axis
/// once, without gaps: column `k` gets two adjacent pixels across the axis,
/// whose brightnesses add up to full.
pub proof fn law_line_interior_columns(p1: Point, p2: Point, k: int)
    requires
        0 <= k < interior_len(setup(p1, p2)),
    ensures
        ({
            let s = setup(p1, p2);
            let a = line_plots(p1, p2)[4 + 2 * k];
            let b = line_plots(p1, p2)[4 + 2 * k + 1];
            &&& a.2 + b.2 == 256
            &&& !s.steep ==> a.0 == s.xend1 + 1 + k && b.0 == a.0 && b.1 == a.1 + 1
            &&& s.steep ==> a.1 == s.xend1 + 1 + k && b.1 == a.1 && b.0 == a.0 + 1
        }),
{
    let s = setup(p1, p2);
    assert((2 * k) / 2 == k && (2 * k) % 2 == 0);
    assert((2 * k + 1) / 2 == k && (2 * k + 1) % 2 == 1);
}

/// Performing plots keeps the buffer's size, and a pixel that no plot's
/// linear index names keeps its value.
pub proof fn law_unplotted_pixels_kept(pixels: Seq<u32>, width: int, ps: Seq<PlotCmd>, i: int)
    requires
        forall|k: int| 0 <= k < ps.len() ==> pixel_index(width, (#[trigger] ps[k]).0, ps[k].1) != i,
    ensures
        apply_plots(pixels, width, ps).len() == pixels.len(),
        0 <= i < pixels.len() ==> apply_plots(pixels, width, ps)[i] == pixels[i],
    decreases ps.len(),
{
    if ps.len() > 0 {
        let rest = ps.drop_last();
        assert forall|k: int| 0 <= k < rest.len() implies pixel_index(width, (#[trigger] rest[k]).0, rest[k].1) != i by {
            assert(rest[k] == ps[k]);
        }
        law_unplotted_pixels_kept(pixels, width, rest, i);
        assert(pixel_index(width, ps[ps.len() - 1].0, ps[ps.len() - 1].1) != i);
    }
}

pub proof fn lemma_apply_step(pixels: Seq<u32>, width: int, ps: Seq<PlotCmd>, m: int)
    requires
        0 <= m < ps.len(),
    ensures
        apply_plots(pixels, width, ps.take(m + 1)) == plotted(
            apply_plots(pixels, width, ps.take(m)),
            width,
            ps[m].0,
            ps[m].1,
            ps[m].2,
        ),
{
    assert(ps.take(m + 1).drop_last() =~= ps.take(m));
}

/// Rounds down to the pixel that holds `v`.
fn ipart(v: i64) -> (r: i64)
    requires
        -0x1_0000_0000_0000 < v < 0x1_0000_0000_0000,
    ensures
        r == ipart_of(v as int),
{
    if v >= 0 {
        v / 256
    } else {
        let q: i64 = (255 - v) / 256;
        -q
    }
}

/// The fractional part of `v` within its pixel.
fn fpart(v: i64) -> (r: i64)
    requires
        -0x1_0000_0000_0000 < v < 0x1_0000_0000_0000,
    ensures
        r == fpart_of(v as int),
        0 <= r < 256,
{
    let i: i64 = ipart(v);
    v - i * 256
}

/// The complement of the fractional part of `v`.
fn rfpart(v: i64) -> (r: i64)
    requires
        -0x1_0000_0000_0000 < v < 0x1_0000_0000_0000,
    ensures
        r == rfpart_of(v as int),
        1 <= r <= 256,
{
    256 - fpart(v)
}

/// The pixel nearest to `v`.
fn round(v: i64) -> (r: i64)
    requires
        -0x1_0000_0000_0000 < v < 0xffff_ffff_ff00,
    ensures
        r == round_of(v as int),
{
    ipart(v + 128)
}

pub proof fn lemma_apply_concat(pixels: Seq<u32>, width: int, a: Seq<PlotCmd>, b: Seq<PlotCmd>)
    ensures
        apply_plots(pixels, width, a + b) == apply_plots(apply_plots(pixels, width, a), width, b),
    decreases b.len(),
{
    if b.len() == 0 {
        assert(a + b =~= a);
    } else {
        assert((a + b).drop_last() =~= a + b.drop_last());
        lemma_apply_concat(pixels, width, a, b.drop_last());
    }
}

fn abs64(v: i64) -> (r: i64)
    requires
        v > i64::MIN,
    ensures
        r == abs_of(v as int),
{
    if v < 0 { -v } else { v }
}

/// The slope of a line that runs `dx >= 0` and rises `dy`, no more than it runs.
fn gradient(dx: i64, dy: i64) -> (g: i64)
    requires
        0 <= dx <= 0x2_0000_0000,
        abs_of(dy as int) <= dx,
    ensures
        g == gradient_of(dx as int, dy as int),
        -256 <= g <= 256,
{
    if dx == 0 {
        256
    } else {
        let a: i64 = abs64(dy);
        proof {
            assert(0 <= a * 256 <= dx * 256) by (nonlinear_arith)
                requires 0 <= a <= dx;
            lemma_div_is_ordered(a * 256, dx * 256, dx as int);
            lemma_div_by_multiple(256, dx as int);
            assert(dx * 256 == 256 * dx) by (nonlinear_arith);
            lemma_div_pos_is_pos(a * 256, dx as int);
        }
        let q: i64 = a * 256 / dx;
        if dy >= 0 { q } else { -q }
    }
}

impl PixelBuffer {
    /// Plots at `u` along the major axis and `v` across it.
    fn plot_oriented(&mut self, steep: bool, u: i64, v: i64, b: i64)
        requires
            old(self).wf(),
            0 <= b <= 256,
        ensures
            final(self).wf(),
            final(self).width == old(self).width,
            final(self).height == old(self).height,
            final(self).pixels@ == plotted(
                old(self).pixels@,
                old(self).width as int,
                emit(steep, u as int, v as int, b as int).0,
                emit(steep, u as int, v as int, b as int).1,
                emit(steep, u as int, v as int, b as int).2,
            ),
    {
        if steep {
            self.plot(v, u, b as u32);
        } else {
            self.plot(u, v, b as u32);
        }
    }

    /// Plots one end of a line: two pixels that share the end's coverage.
    fn plot_end(&mut self, steep: bool, xend: i64, yend: i64, xgap: i64)
        requires
            old(self).wf(),
            0 <= xgap <= 256,
            -0x100_0000_0000 < xend < 0x100_0000_0000,
            -0x100_0000_0000 < yend < 0x100_0000_0000,
        ensures
            final(self).wf(),
            final(self).width == old(self).width,
            final(self).height == old(self).height,
            final(self).pixels@ == apply_plots(
                old(self).pixels@,
                old(self).width as int,
                end_plots(steep, xend as int, yend as int, xgap as int),
            ),
    {
        let ghost w = self.width as int;
        let ghost ps = end_plots(steep, xend as int, yend as int, xgap as int);
        let ghost start = self.pixels@;
        let ip: i64 = ipart(yend);
        let rf: i64 = rfpart(yend);
        let fp: i64 = fpart(yend);
        proof {
            assert(0 <= rf * xgap <= 256 * 256) by (nonlinear_arith)
                requires 1 <= rf <= 256, 0 <= xgap <= 256;
            assert(0 <= fp * xgap <= 256 * 256) by (nonlinear_arith)
                requires 0 <= fp <= 256, 0 <= xgap <= 256;
            assert(ps.take(0) =~= Seq::<PlotCmd>::empty());
        }
        self.plot_oriented(steep, xend, ip, rf * xgap / 256);
        proof {
            lemma_apply_step(start, w, ps, 0);
        }
        self.plot_oriented(steep, xend, ip + 1, fp * xgap / 256);
        proof {
            lemma_apply_step(start, w, ps, 1);
            assert(ps.take(2) =~= ps);
        }
    }

    /// Draws Wu's anti-aliased line from `p1` to `p2`: every plot of
    /// `line_plots(p1, p2)` is performed, in order.
    pub fn draw_line(&mut self, p1: Point, p2: Point)
        requires
            old(self).wf(),
        ensures
            final(self).wf(),
            final(self).width == old(self).width,
            final(self).height == old(self).height,
            final(self).pixels@ == apply_plots(old(self).pixels@, old(self).width as int, line_plots(p1, p2)),
    {
        let ghost w = self.width as int;
        let ghost h = self.height;
        let ghost start = self.pixels@;
        let ghost s = setup(p1, p2);
        let mut x0: i64 = p1.x as i64;
        let mut y0: i64 = p1.y as i64;
        let mut x1: i64 = p2.x as i64;
        let mut y1: i64 = p2.y as i64;
        let steep: bool = abs64(y1 - y0) > abs64(x1 - x0);
        if steep {
            let t: i64 = x0;
            x0 = y0;
            y0 = t;
            let t: i64 = x1;
            x1 = y1;
            y1 = t;
        }
        if x0 > x1 {
            let t: i64 = x0;
            x0 = x1;
            x1 = t;
            let t: i64 = y0;
            y0 = y1;
            y1 = t;
        }
        assert((x0 as int, y0 as int, x1 as int, y1 as int) == oriented(p1, p2));
        let grad: i64 = gradient(x1 - x0, y1 - y0);

        let xend1: i64 = round(x0);
        let d1: i64 = xend1 * 256 - x0;
        assert(-32768 <= grad * d1 <= 32768) by (nonlinear_arith)
            requires -256 <= grad <= 256, -128 <= d1 <= 128;
        let yend1: i64 = y0 + ipart(grad * d1);
        let xgap1: i64 = rfpart(x0 + 128);
        let xend2: i64 = round(x1);
        let d2: i64 = xend2 * 256 - x1;
        assert(-32768 <= grad * d2 <= 32768) by (nonlinear_arith)
            requires -256 <= grad <= 256, -128 <= d2 <= 128;
        let yend2: i64 = y1 + ipart(grad * d2);
        let xgap2: i64 = fpart(x1 + 128);

        let ghost e1 = end_plots(steep, xend1 as int, yend1 as int, xgap1 as int);
        let ghost e2 = end_plots(steep, xend2 as int, yend2 as int, xgap2 as int);
        let ghost inner = Seq::new((2 * interior_len(s)) as nat, |j: int| interior_plot(s, j));
        self.plot_end(steep, xend1, yend1, xgap1);
        self.plot_end(steep, xend2, yend2, xgap2);
        let ghost mid = self.pixels@;
        proof {
            lemma_apply_concat(start, w, e1, e2);
            assert(inner.take(0) =~= Seq::<PlotCmd>::empty());
        }

        let mut intery: i64 = yend1 + grad;
        let mut x: i64 = xend1 + 1;
        assert(x - xend1 == 1);
        assert(grad * (x - xend1) == grad) by (nonlinear_arith)
            requires x - xend1 == 1;
        while x < xend2
            invariant
                self.wf(),
                self.width == w,
                self.height == h,
                s == setup(p1, p2),
                s.steep == steep,
                s.grad == grad,
                s.xend1 == xend1,
                s.yend1 == yend1,
                s.xend2 == xend2,
                -256 <= grad <= 256,
                -0x1_0000_0000 < yend1 < 0x1_0000_0000,
                -0x100_0000 < xend1 <= xend2 < 0x100_0000 || xend2 <= xend1,
                xend1 + 1 <= x,
                x <= xend2 || x == xend1 + 1,
                intery == yend1 + grad * (x - xend1),
                inner == Seq::new((2 * interior_len(s)) as nat, |j: int| interior_plot(s, j)),
                self.pixels@ == apply_plots(mid, w, inner.take(2 * (x - xend1 - 1))),
            decreases xend2 - x,
        {
            let ghost k = x - xend1 - 1;
            proof {
                assert(-256 * (x - xend1) <= grad * (x - xend1) <= 256 * (x - xend1)) by (nonlinear_arith)
                    requires -256 <= grad <= 256, x - xend1 >= 0;
            }
            let ip: i64 = ipart(intery);
            let rf: i64 = rfpart(intery);
            let fp: i64 = fpart(intery);
            proof {
                assert((2 * k) / 2 == k && (2 * k) % 2 == 0);
                assert((2 * k + 1) / 2 == k && (2 * k + 1) % 2 == 1);
                assert(s.yend1 + s.grad * (k + 1) == intery);
            }
            self.plot_oriented(steep, x, ip, rf);
            proof {
                lemma_apply_step(mid, w, inner, 2 * k);
            }
            self.plot_oriented(steep, x, ip + 1, fp);
            proof {
                lemma_apply_step(mid, w, inner, 2 * k + 1);
                assert(grad * (x - xend1) + grad == grad * (x + 1 - xend1)) by (nonlinear_arith);
            }
            intery = intery + grad;
            x = x + 1;
        }
        proof {
            assert(inner.take(2 * (x - xend1 - 1)) =~= inner);
            lemma_apply_concat(start, w, e1 + e2, inner);
        }
    }
}

/// The plots of the closed wireframe `p1 -> p2 -> p3 -> p1`.
pub open spec fn triangle_plots(p1: Point, p2: Point, p3: Point) -> Seq<PlotCmd> {
    line_plots(p1, p2) + line_plots(p2, p3) + line_plots(p3, p1)
}

impl PixelBuffer {
    /// Draws the three edges of a triangle, in the order `p1 -> p2`,
    /// `p2 -> p3`, `p3 -> p1`.
    pub fn draw_triangle(&mut self, p1: Point, p2: Point, p3: Point)
        requires
            old(self).wf(),
        ensures
            final(self).wf(),
            final(self).width == old(self).width,
            final(self).height == old(self).height,
            final(self).pixels@ == apply_plots(
                old(self).pixels@,
                old(self).width as int,
                triangle_plots(p1, p2, p3),
            ),
    {
        let ghost w = self.width as int;
        let ghost start = self.pixels@;
        self.draw_line(p1, p2);
        self.draw_line(p2, p3);
        self.draw_line(p3, p1);
        proof {
            lemma_apply_concat(start, w, line_plots(p1, p2), line_plots(p2, p3));
            lemma_apply_concat(start, w, line_plots(p1, p2) + line_plots(p2, p3), line_plots(p3, p1));
        }
    }
}

} // verus!
