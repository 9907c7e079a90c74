use vstd::prelude::*;

use crate::pixel::Pixel;
use crate::point::{EvenF, Point, PointF};

verus! {

/// What a shape composites at one pixel, once its bounding box is known.
pub(crate) enum Shape {
    /// The whole box in the drawing color.
    Solid,
    /// A disc, in sub-pixel units: center `(cx, cy)`, radius `ra >= 0`.
    Disc { cx: i128, cy: i128, ra: i128 },
    /// A triangle with the three given corners.
    Triangle { v1: PointF, v2: PointF, v3: PointF },
}

pub(crate) open spec fn shape_shade(shape: Shape, color: Pixel, x: int, y: int) -> Option<Pixel> {
    match shape {
        Shape::Solid => Some(color),
        Shape::Disc { cx, cy, ra } => disc_shade(cx as int, cy as int, ra as int, color, x, y),
        Shape::Triangle { v1, v2, v3 } => if inside_triangle(v1, v2, v3, x, y) {
            Some(color)
        } else {
            None
        },
    }
}

/// Whether every pixel of the box can be shaded without overflow: a disc's
/// box must lie within its bounding box.
pub(crate) open spec fn shape_box_ok(shape: Shape, x_lo: int, x_hi: int, y_lo: int, y_hi: int) -> bool {
    match shape {
        Shape::Disc { cx, cy, ra } => {
            &&& 0 <= ra <= 0x8000_0000_0000_0000
            &&& cx - ra - 255 <= x_lo * 256
            &&& x_hi * 256 <= cx + ra + 255
            &&& cy - ra - 255 <= y_lo * 256
            &&& y_hi * 256 <= cy + ra + 255
        },
        Shape::Solid | Shape::Triangle { .. } => true,
    }
}


pub open spec fn sq(v: int) -> int {
    v * v
}

/// Whether a sample point lies in the disc; all three lengths are given in
/// sixths of a sub-pixel unit, which makes the samples exact.
pub open spec fn sample_in_disc(dx6: int, dy6: int, r6: int) -> bool {
    sq(dx6) + sq(dy6) <= sq(r6)
}

/// How many of the 2x2 sample points of a pixel lie in a disc of radius `ra`,
/// where `(dx, dy)` runs from the disc's center to the pixel, all in
/// sub-pixel units.  The samples sit a sixth of a pixel either side of the
/// pixel along each axis, evenly spread over its span.
pub open spec fn sub_pixels_filled(dx: int, dy: int, ra: int) -> int {
    (if sample_in_disc(6 * dx - 256, 6 * dy - 256, 6 * ra) { 1int } else { 0 }) + (
    if sample_in_disc(6 * dx + 256, 6 * dy - 256, 6 * ra) { 1int } else { 0 }) + (
    if sample_in_disc(6 * dx - 256, 6 * dy + 256, 6 * ra) { 1int } else { 0 }) + (
    if sample_in_disc(6 * dx + 256, 6 * dy + 256, 6 * ra) { 1int } else { 0 })
}

/// `color` with its alpha scaled by the share `filled / 4` of covered samples.
pub open spec fn anti_aliased(color: Pixel, filled: int) -> Pixel {
    Pixel { a: (color.a * filled / 4) as u8, ..color }
}

/// What a disc with center `(cx, cy)` and radius `ra >= 0` (sub-pixel units)
/// composites at pixel `(x, y)`: nothing where the pixel is a pixel or more
/// outside the rim, the full color where it is a pixel or more inside, and
/// else the color with alpha scaled by sub-sampling.
pub open spec fn disc_shade(cx: int, cy: int, ra: int, color: Pixel, x: int, y: int) -> Option<
    Pixel,
> {
    let dx = x * 256 - cx;
    let dy = y * 256 - cy;
    if sq(dx) + sq(dy) >= sq(ra + 256) {
        None
    } else if ra > 256 && sq(dx) + sq(dy) <= sq(ra - 256) {
        Some(color)
    } else {
        Some(anti_aliased(color, sub_pixels_filled(dx, dy, ra)))
    }
}

/// The determinant of the vectors from `(px, py)` to `a` and to `b`, in
/// sub-pixel units: positive when `b` lies to the left of `a` seen from the
/// point, negative when to the right, zero when the three are on one line.
pub open spec fn det(px: int, py: int, a: PointF, b: PointF) -> int {
    (a.x@ - px) * (b.y@ - py) - (b.x@ - px) * (a.y@ - py)
}

/// Whether pixel `(x, y)` counts as inside the triangle: its three signed
/// areas against the edges share one sign, or one of them is zero.
pub open spec fn inside_triangle(v1: PointF, v2: PointF, v3: PointF, x: int, y: int) -> bool {
    let d1 = det(x * 256, y * 256, v1, v2);
    let d2 = det(x * 256, y * 256, v2, v3);
    let d3 = det(x * 256, y * 256, v3, v1);
    (d1 < 0 && d2 < 0 && d3 < 0) || (d1 > 0 && d2 > 0 && d3 > 0) || d1 == 0 || d2 == 0 || d3
        == 0
}

/// Whether `a^2 + b^2 <= c^2`, computed exactly for magnitudes below `2^80`.
pub(crate) fn sample_in(dx6: i128, dy6: i128, r6: i128) -> (r: bool)
    requires
        -0x1_0000_0000_0000_0000_0000 < dx6 < 0x1_0000_0000_0000_0000_0000,
        -0x1_0000_0000_0000_0000_0000 < dy6 < 0x1_0000_0000_0000_0000_0000,
        0 <= r6 < 0x1_0000_0000_0000_0000_0000,
    ensures
        r == sample_in_disc(dx6 as int, dy6 as int, r6 as int),
{
    let adx = abs_u128(dx6);
    let ady = abs_u128(dy6);
    let (ah, al) = wide_mul(adx, adx);
    let (bh, bl) = wide_mul(ady, ady);
    let (ch, cl) = wide_mul(r6 as u128, r6 as u128);
    assert(adx * adx == sq(dx6 as int) && ady * ady == sq(dy6 as int)) by (nonlinear_arith)
        requires
            adx == abs(dx6 as int),
            ady == abs(dy6 as int),
    ;
    let l = al + bl;
    let (sh, sl) = if l >= 0x1_0000_0000_0000_0000_0000 {
        (ah + bh + 1, l - 0x1_0000_0000_0000_0000_0000)
    } else {
        (ah + bh, l)
    };
    sh < ch || (sh == ch && sl <= cl)
}

pub(crate) fn disc_shade_at(cx: i128, cy: i128, ra: i128, color: Pixel, x: usize, y: usize) -> (r: Option<
    Pixel,
>)
    requires
        0 <= ra <= 0x8000_0000_0000_0000,
        cx - ra - 255 <= x * 256 <= cx + ra + 255,
        cy - ra - 255 <= y * 256 <= cy + ra + 255,
    ensures
        r == disc_shade(cx as int, cy as int, ra as int, color, x as int, y as int),
{
    let dx: i128 = x as i128 * 256 - cx;
    let dy: i128 = y as i128 * 256 - cy;
    let adx = abs_u128(dx);
    let ady = abs_u128(dy);
    assert(adx * adx <= 0x4000_0000_0000_0100_0000_0000_0001_0000 && ady * ady
        <= 0x4000_0000_0000_0100_0000_0000_0001_0000) by (nonlinear_arith)
        requires
            adx <= 0x8000_0000_0000_0100,
            ady <= 0x8000_0000_0000_0100,
    ;
    assert(adx * adx + ady * ady == sq(dx as int) + sq(dy as int)) by (nonlinear_arith)
        requires
            adx == abs(dx as int),
            ady == abs(dy as int),
    ;
    let d2: u128 = adx * adx + ady * ady;
    let outer: u128 = (ra + 256) as u128;
    assert(outer * outer <= 0x4000_0000_0000_0100_0000_0000_0001_0000) by (nonlinear_arith)
        requires
            outer <= 0x8000_0000_0000_0100,
    ;
    let far_inside = if ra > 256 {
        let inner: u128 = (ra - 256) as u128;
        assert(inner * inner <= 0x4000_0000_0000_0000_0000_0000_0000_0000) by (nonlinear_arith)
            requires
                inner <= 0x8000_0000_0000_0000,
        ;
        d2 <= inner * inner
    } else {
        false
    };
    if d2 >= outer * outer {
        None
    } else if far_inside {
        Some(color)
    } else {
        let mut filled: u32 = 0;
        if sample_in(6 * dx - 256, 6 * dy - 256, 6 * ra) {
            filled = filled + 1;
        }
        if sample_in(6 * dx + 256, 6 * dy - 256, 6 * ra) {
            filled = filled + 1;
        }
        if sample_in(6 * dx - 256, 6 * dy + 256, 6 * ra) {
            filled = filled + 1;
        }
        if sample_in(6 * dx + 256, 6 * dy + 256, 6 * ra) {
            filled = filled + 1;
        }
        Some(anti_aliasing_color(color, filled))
    }
}

/// `color` with its alpha scaled by the share of `filled` out of the four
/// sub-pixel samples.
pub(crate) fn anti_aliasing_color(color: Pixel, filled: u32) -> (p: Pixel)
    requires
        filled <= 4,
    ensures
        p == anti_aliased(color, filled as int),
{
    assert(color.a * filled <= 1020) by (nonlinear_arith)
        requires
            color.a <= 255,
            filled <= 4,
    ;
    let alpha: u32 = color.a as u32 * filled / 4;
    Pixel { a: alpha as u8, ..color }
}

/// `a * b` for factors below `2^80`, as `(hi, lo)` with
/// `a * b == hi * 2^80 + lo` and `lo < 2^80`.
pub(crate) fn wide_mul(a: u128, b: u128) -> (r: (u128, u128))
    requires
        a < 0x1_0000_0000_0000_0000_0000,
        b < 0x1_0000_0000_0000_0000_0000,
    ensures
        r.1 < 0x1_0000_0000_0000_0000_0000,
        r.0 < 0x1_0000_0000_0000_0000_0000,
        r.0 * 0x1_0000_0000_0000_0000_0000 + r.1 == a * b,
{
    let a1 = a / 0x100_0000_0000;
    let a0 = a % 0x100_0000_0000;
    let b1 = b / 0x100_0000_0000;
    let b0 = b % 0x100_0000_0000;
    assert(a1 < 0x100_0000_0000 && b1 < 0x100_0000_0000);
    assert(a0 * b0 < 0x1_0000_0000_0000_0000_0000) by (nonlinear_arith)
        requires
            a0 < 0x100_0000_0000,
            b0 < 0x100_0000_0000,
    ;
    assert(a1 * b0 < 0x1_0000_0000_0000_0000_0000) by (nonlinear_arith)
        requires
            a1 < 0x100_0000_0000,
            b0 < 0x100_0000_0000,
    ;
    assert(a0 * b1 < 0x1_0000_0000_0000_0000_0000) by (nonlinear_arith)
        requires
            a0 < 0x100_0000_0000,
            b1 < 0x100_0000_0000,
    ;
    assert(a1 * b1 < 0x1_0000_0000_0000_0000_0000) by (nonlinear_arith)
        requires
            a1 < 0x100_0000_0000,
            b1 < 0x100_0000_0000,
    ;
    let mid = a1 * b0 + a0 * b1;
    let m1 = mid / 0x100_0000_0000;
    let m0 = mid % 0x100_0000_0000;
    let t = a0 * b0 + m0 * 0x100_0000_0000;
    let lo = t % 0x1_0000_0000_0000_0000_0000;
    let c = t / 0x1_0000_0000_0000_0000_0000;
    assert(c <= 1);
    let hi = a1 * b1 + m1 + c;
    assert(a * b == (a1 * b1 + m1) * 0x1_0000_0000_0000_0000_0000 + t) by (nonlinear_arith)
        requires
            a == a1 * 0x100_0000_0000 + a0,
            b == b1 * 0x100_0000_0000 + b0,
            mid == a1 * b0 + a0 * b1,
            mid == m1 * 0x100_0000_0000 + m0,
            t == a0 * b0 + m0 * 0x100_0000_0000,
    ;
    assert(a * b < 0x1_0000_0000_0000_0000_0000 * 0x1_0000_0000_0000_0000_0000) by (
    nonlinear_arith)
        requires
            a < 0x1_0000_0000_0000_0000_0000,
            b < 0x1_0000_0000_0000_0000_0000,
    ;
    (hi, lo)
}

pub open spec fn sign(v: int) -> int {
    if v > 0 {
        1
    } else if v < 0 {
        -1
    } else {
        0
    }
}

/// The sign of `p * q` and its magnitude split as by `wide_mul`.
pub(crate) fn wide_signed_mul(p: i128, q: i128) -> (r: (i8, u128, u128))
    requires
        -0x1_0000_0000_0000_0000_0000 < p < 0x1_0000_0000_0000_0000_0000,
        -0x1_0000_0000_0000_0000_0000 < q < 0x1_0000_0000_0000_0000_0000,
    ensures
        r.0 == sign(p * q),
        r.1 * 0x1_0000_0000_0000_0000_0000 + r.2 == abs(p * q),
        r.2 < 0x1_0000_0000_0000_0000_0000,
        r.1 < 0x1_0000_0000_0000_0000_0000,
{
    let (hi, lo) = wide_mul(abs_u128(p), abs_u128(q));
    assert(abs(p as int) * abs(q as int) == abs(p * q)) by (nonlinear_arith);
    let s: i8 = if p == 0 || q == 0 {
        0
    } else if (p < 0) == (q < 0) {
        1
    } else {
        -1
    };
    assert(s == sign(p * q)) by (nonlinear_arith)
        requires
            s == (if p == 0 || q == 0 {
                0
            } else if (p < 0) == (q < 0) {
                1
            } else {
                -1
            }),
    ;
    (s, hi, lo)
}

/// The sign of `det(px, py, a, b)`, computed exactly.
pub(crate) fn det_sign(px: i128, py: i128, a: PointF, b: PointF) -> (s: i8)
    requires
        -0x1_0000_0000_0000_0000_0000 < a.x@ - px < 0x1_0000_0000_0000_0000_0000,
        -0x1_0000_0000_0000_0000_0000 < a.y@ - py < 0x1_0000_0000_0000_0000_0000,
        -0x1_0000_0000_0000_0000_0000 < b.x@ - px < 0x1_0000_0000_0000_0000_0000,
        -0x1_0000_0000_0000_0000_0000 < b.y@ - py < 0x1_0000_0000_0000_0000_0000,
    ensures
        s == sign(det(px as int, py as int, a, b)),
{
    let ax: i128 = a.x.to_f() - px;
    let ay: i128 = a.y.to_f() - py;
    let bx: i128 = b.x.to_f() - px;
    let by: i128 = b.y.to_f() - py;
    let (sp, ph, pl) = wide_signed_mul(ax, by);
    let (sq, qh, ql) = wide_signed_mul(bx, ay);
    let ghost p = ax * by;
    let ghost q = bx * ay;
    if sp > sq {
        1
    } else if sp < sq {
        -1
    } else if sp == 0 {
        0
    } else {
        // Both products have the same sign: compare magnitudes.
        let cmp: i8 = if ph > qh || (ph == qh && pl > ql) {
            1
        } else if ph == qh && pl == ql {
            0
        } else {
            -1
        };
        assert(cmp == sign(abs(p) - abs(q)));
        if sp > 0 {
            cmp
        } else {
            -cmp
        }
    }
}

pub(crate) fn is_inside_triangle(v1: PointF, v2: PointF, v3: PointF, x: usize, y: usize) -> (r: bool)
    ensures
        r == inside_triangle(v1, v2, v3, x as int, y as int),
{
    let px: i128 = x as i128 * 256;
    let py: i128 = y as i128 * 256;
    let d1 = det_sign(px, py, v1, v2);
    let d2 = det_sign(px, py, v2, v3);
    let d3 = det_sign(px, py, v3, v1);
    let all_neg = d1 < 0 && d2 < 0 && d3 < 0;
    let all_pos = d1 > 0 && d2 > 0 && d3 > 0;
    let any_zero = d1 == 0 || d2 == 0 || d3 == 0;
    all_neg || all_pos || any_zero
}

pub(crate) fn shade_at(shape: &Shape, color: Pixel, x: usize, y: usize) -> (r: Option<Pixel>)
    requires
        shape_box_ok(*shape, x as int, x as int, y as int, y as int),
    ensures
        r == shape_shade(*shape, color, x as int, y as int),
{
    match shape {
        Shape::Solid => Some(color),
        Shape::Disc { cx, cy, ra } => disc_shade_at(*cx, *cy, *ra, color, x, y),
        Shape::Triangle { v1, v2, v3 } => {
            if is_inside_triangle(*v1, *v2, *v3, x, y) {
                Some(color)
            } else {
                None
            }
        },
    }
}


/// `v / 256`, rounded down.
pub(crate) fn floor_div_256(v: i128) -> (q: i128)
    requires
        v >= -0x7fff_ffff_ffff_ffff_ffff_ffff_ffff_ff00,
    ensures
        q == v / 256,
        q * 256 <= v < q * 256 + 256,
{
    if v >= 0 {
        v / 256
    } else {
        let m: i128 = -v;
        let q: i128 = (m + 255) / 256;
        let r: i128 = q * 256 - m;
        proof {
            vstd::arithmetic::div_mod::lemma_fundamental_div_mod_converse(
                v as int,
                256,
                -q as int,
                r as int,
            );
        }
        -q
    }
}

pub open spec fn min(a: int, b: int) -> int {
    if a <= b {
        a
    } else {
        b
    }
}

pub open spec fn max(a: int, b: int) -> int {
    if a >= b {
        a
    } else {
        b
    }
}

/// An extent shortened by one towards zero: the anchor pixel already
/// counts as one.
pub open spec fn trim(e: int) -> int {
    if e < 0 {
        e + 1
    } else {
        e - 1
    }
}

/// Whether the rectangle anchored at `p` and spanning `w` by `h` pixels
/// (negative extents run left or up) covers pixel `(x, y)`; the anchor is one
/// of its corner pixels and a zero extent covers nothing.
pub open spec fn rect_covers(p: Point, w: int, h: int, x: int, y: int) -> bool {
    &&& w != 0
    &&& h != 0
    &&& min(p.x as int, p.x + trim(w)) <= x <= max(p.x as int, p.x + trim(w))
    &&& min(p.y as int, p.y + trim(h)) <= y <= max(p.y as int, p.y + trim(h))
}

pub open spec fn abs(v: int) -> int {
    if v < 0 {
        -v
    } else {
        v
    }
}

/// What `fill_circle(c, r, color)` composites at `(x, y)`: a disc of radius
/// `|r|` sub-pixel units, shaded over the pixels of its bounding box.
pub open spec fn circle_shade(c: PointF, r: int, color: Pixel, x: int, y: int) -> Option<Pixel> {
    let ra = abs(r);
    if r != 0 && (c.x@ - ra) / 256 <= x <= (c.x@ + ra + 255) / 256 && (c.y@ - ra) / 256 <= y <= (
    c.y@ + ra + 255) / 256 {
        disc_shade(c.x@, c.y@, ra, color, x, y)
    } else {
        None
    }
}

pub open spec fn min3(a: int, b: int, c: int) -> int {
    min(min(a, b), c)
}

pub open spec fn max3(a: int, b: int, c: int) -> int {
    max(max(a, b), c)
}

/// Whether `fill_triangle(v1, v2, v3, _)` covers `(x, y)`: the pixel lies in
/// the box from the lowest floor to the highest ceiling of the corners and
/// counts as inside the triangle.
pub open spec fn triangle_covers(v1: PointF, v2: PointF, v3: PointF, x: int, y: int) -> bool {
    &&& min3(v1.x@ / 256, v2.x@ / 256, v3.x@ / 256) <= x
    &&& x <= max3((v1.x@ + 255) / 256, (v2.x@ + 255) / 256, (v3.x@ + 255) / 256)
    &&& min3(v1.y@ / 256, v2.y@ / 256, v3.y@ / 256) <= y
    &&& y <= max3((v1.y@ + 255) / 256, (v2.y@ + 255) / 256, (v3.y@ + 255) / 256)
    &&& inside_triangle(v1, v2, v3, x, y)
}

pub(crate) fn trim_edge(e: isize) -> (r: isize)
    requires
        e != 0,
    ensures
        r == trim(e as int),
{
    if e < 0 {
        e + 1
    } else {
        e - 1
    }
}

pub(crate) fn min_i(a: i128, b: i128) -> (r: i128)
    ensures
        r == min(a as int, b as int),
{
    if a <= b {
        a
    } else {
        b
    }
}

pub(crate) fn max_i(a: i128, b: i128) -> (r: i128)
    ensures
        r == max(a as int, b as int),
{
    if a >= b {
        a
    } else {
        b
    }
}


/// `n / d` rounded down, for `d != 0`.
pub open spec fn floor_div(n: int, d: int) -> int {
    if d > 0 {
        n / d
    } else {
        (-n) / (-d)
    }
}

/// The row of the line through `p1` and `p2` (not vertical) at column
/// coordinate `t`, rounded down.
pub open spec fn line_y(p1: Point, p2: Point, t: int) -> int {
    p1.y + floor_div((p2.y - p1.y) * (t - p1.x), p2.x - p1.x)
}

/// Whether `draw_line(p1, p2, _)` covers `(x, y)`.  A vertical line covers
/// its column from one end to the other.  Otherwise each column `x` from the
/// leftmost end up to (not including) the rightmost is filled between the
/// rows where the line crosses `x` and `x + 1`, so steep lines leave no gap.
pub open spec fn line_covers(p1: Point, p2: Point, x: int, y: int) -> bool {
    if p1.x != p2.x {
        &&& min(p1.x as int, p2.x as int) <= x < max(p1.x as int, p2.x as int)
        &&& min(line_y(p1, p2, x), line_y(p1, p2, x + 1)) <= y
        &&& y <= max(line_y(p1, p2, x), line_y(p1, p2, x + 1))
    } else {
        &&& x == p1.x
        &&& min(p1.y as int, p2.y as int) <= y <= max(p1.y as int, p2.y as int)
    }
}

pub(crate) proof fn lemma_neg_div(m: int, d: int)
    requires
        0 <= m,
        0 < d,
    ensures
        (-m) / d == -((m + d - 1) / d),
{
    let k = (m + d - 1) / d;
    let r = (m + d - 1) % d;
    vstd::arithmetic::div_mod::lemma_fundamental_div_mod(m + d - 1, d);
    vstd::arithmetic::div_mod::lemma_mod_bound(m + d - 1, d);
    assert(-m == -k * d + (d - 1 - r)) by (nonlinear_arith)
        requires
            m + d - 1 == d * k + r,
    ;
    vstd::arithmetic::div_mod::lemma_fundamental_div_mod_converse(-m, d, -k, d - 1 - r);
}

/// `(-m or m) / d` rounded down, the sign chosen by `neg`.
pub(crate) fn signed_floor_div(m: u128, neg: bool, d: u128) -> (q: i128)
    requires
        0 < d <= 0xffff_ffff_ffff_ffff,
        m <= 0xffff_ffff_ffff_ffff * d,
    ensures
        q == (if neg { -(m as int) } else { m as int }) / (d as int),
{
    assert(m + d - 1 <= 0x1_0000_0000_0000_0000 * d - 1) by (nonlinear_arith)
        requires
            m <= 0xffff_ffff_ffff_ffff * d,
    ;
    assert(0x1_0000_0000_0000_0000 * d <= 0xffff_ffff_ffff_ffff_0000_0000_0000_0000) by (
    nonlinear_arith)
        requires
            d <= 0xffff_ffff_ffff_ffff,
    ;
    assert((m + d - 1) / (d as int) <= 0x1_0000_0000_0000_0000) by (nonlinear_arith)
        requires
            m + d - 1 <= 0x1_0000_0000_0000_0000 * d - 1,
            0 < d,
    ;
    assert(m as int / d as int <= (m + d - 1) / (d as int)) by (nonlinear_arith)
        requires
            0 < d,
    ;
    if neg {
        proof {
            lemma_neg_div(m as int, d as int);
        }
        -(((m + d - 1) / d) as i128)
    } else {
        (m / d) as i128
    }
}

pub(crate) fn abs_u128(v: i128) -> (r: u128)
    requires
        v > i128::MIN,
    ensures
        r == abs(v as int),
{
    if v < 0 {
        (-v) as u128
    } else {
        v as u128
    }
}

/// `line_y(p1, p2, t)` for a column `t` between the ends.
pub(crate) fn line_y_at(p1: Point, p2: Point, t: i128) -> (y: i128)
    requires
        p1.x != p2.x,
        min(p1.x as int, p2.x as int) <= t <= max(p1.x as int, p2.x as int),
    ensures
        y == line_y(p1, p2, t as int),
{
    let dx: i128 = p2.x as i128 - p1.x as i128;
    let dy: i128 = p2.y as i128 - p1.y as i128;
    let u: i128 = t - p1.x as i128;
    let mdx = abs_u128(dx);
    let mdy = abs_u128(dy);
    let mu = abs_u128(u);
    assert(mdy * mu <= 0xffff_ffff_ffff_ffff * mdx) by (nonlinear_arith)
        requires
            mdy <= 0xffff_ffff_ffff_ffff,
            mu <= mdx,
    ;
    let m: u128 = mdy * mu;
    let n_neg: bool = (dy < 0 && u > 0) || (dy > 0 && u < 0);
    let ghost n: int = (dy as int) * (u as int);
    assert(n == (if n_neg { -(m as int) } else { m as int })) by (nonlinear_arith)
        requires
            n == (dy as int) * (u as int),
            mdy == abs(dy as int),
            mu == abs(u as int),
            m == mdy * mu,
            n_neg == ((dy < 0 && u > 0) || (dy > 0 && u < 0)),
    ;
    let q: i128 = if dx > 0 {
        signed_floor_div(m, n_neg, mdx)
    } else {
        let q = signed_floor_div(m, !n_neg, mdx);
        assert(-n == (if !n_neg { -(m as int) } else { m as int }));
        q
    };
    assert(-0x1_0000_0000_0000_0000 <= q <= 0x1_0000_0000_0000_0000) by {
        assert(m as int / mdx as int <= 0x1_0000_0000_0000_0000) by (nonlinear_arith)
            requires
                m <= 0xffff_ffff_ffff_ffff * mdx,
                0 < mdx,
        ;
        if (dx > 0 && n_neg) || (dx < 0 && !n_neg) {
            lemma_neg_div(m as int, mdx as int);
            assert((m + mdx - 1) / (mdx as int) <= 0x1_0000_0000_0000_0000) by (nonlinear_arith)
                requires
                    m <= 0xffff_ffff_ffff_ffff * mdx,
                    0 < mdx,
            ;
            assert(0 <= (m + mdx - 1) / (mdx as int)) by (nonlinear_arith)
                requires
                    0 <= m,
                    0 < mdx,
            ;
        } else {
            assert(0 <= m as int / mdx as int) by (nonlinear_arith)
                requires
                    0 <= m,
                    0 < mdx,
            ;
        }
    }
    p1.y as i128 + q
}


/// Along one axis, the pixels from the lowest floor to the highest ceiling
/// of three corner coordinates, clipped to `0..size`.
pub(crate) fn corner_span(a: EvenF, b: EvenF, c: EvenF, size: usize) -> (r: (i128, i128))
    requires
        size > 0,
    ensures
        r.0 == max(min3(a@ / 256, b@ / 256, c@ / 256), 0),
        r.1 == min(max3((a@ + 255) / 256, (b@ + 255) / 256, (c@ + 255) / 256), size - 1),
{
    let fa = floor_div_256(a.to_f());
    let fb = floor_div_256(b.to_f());
    let fc = floor_div_256(c.to_f());
    let ca = floor_div_256(a.to_f() + 255);
    let cb = floor_div_256(b.to_f() + 255);
    let cc = floor_div_256(c.to_f() + 255);
    let lo = max_i(min_i(min_i(fa, fb), fc), 0);
    let hi = min_i(max_i(max_i(ca, cb), cc), size as i128 - 1);
    (lo, hi)
}

} // verus!
