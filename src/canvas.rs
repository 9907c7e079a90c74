use vstd::prelude::*;

use crate::buffer::{buffer_wf, Pixels2D};
use crate::paint::{
    lemma_index_in_grid, lemma_paint_step, lemma_painted_compose, lemma_painted_ext,
    lemma_painted_nothing, lemma_painted_unchanged, painted,
};
use crate::pixel::{over_spec, Pixel};
use crate::point::{Point, PointF};
use crate::shapes::{
    circle_shade, corner_span, floor_div_256, line_covers, line_y_at, max, max_i, min, min_i,
    rect_covers, shade_at, shape_box_ok, shape_shade, trim_edge, triangle_covers, Shape,
};

verus! {

/// A drawing surface bound to one pixel buffer for as long as it lives.
/// Every drawing operation but `fill` composites its color over what the
/// buffer holds, and touches only pixels inside the buffer.
pub struct Canvas<'a, P> {
    /// The buffer drawn into.
    pub pixels2d: &'a mut P,
}

impl<'a, P: Pixels2D> Canvas<'a, P> {
    /// The buffer as it stands now.
    pub open spec fn buf(&self) -> P {
        *self.pixels2d
    }

    pub open spec fn spec_w(&self) -> int {
        self.buf().spec_width() as int
    }

    pub open spec fn spec_h(&self) -> int {
        self.buf().spec_height() as int
    }

    pub open spec fn cells(&self) -> Seq<Pixel> {
        self.buf().cells()
    }

    pub fn new(pixels2d: &'a mut P) -> (c: Self)
        ensures
            c.buf() == *old(pixels2d),
            *final(pixels2d) == *final(c.pixels2d),
    {
        Canvas { pixels2d }
    }

    pub fn inner(&self) -> (p: &P)
        ensures
            *p == self.buf(),
    {
        self.pixels2d
    }

    pub fn width(&self) -> (r: usize)
        ensures
            r == self.spec_w(),
    {
        self.pixels2d.width()
    }

    pub fn height(&self) -> (r: usize)
        ensures
            r == self.spec_h(),
    {
        self.pixels2d.height()
    }

    pub fn pixels(&self) -> (r: &[Pixel])
        ensures
            r@ == self.cells(),
    {
        self.pixels2d.pixels()
    }

    /// The pixel at `(x, y)`, which must lie in the buffer, for writing.
    pub fn pixel_mut(&mut self, x: usize, y: usize) -> (r: &mut Pixel)
        requires
            buffer_wf(old(self).buf()),
            x < old(self).spec_w(),
            y < old(self).spec_h(),
        ensures
            *r == old(self).cells()[y * old(self).spec_w() + x],
            final(self).cells() == old(self).cells().update(y * old(self).spec_w() + x, *final(r)),
            final(self).spec_w() == old(self).spec_w(),
            final(self).spec_h() == old(self).spec_h(),
            buffer_wf(final(self).buf()),
            *final(final(self).pixels2d) == *final(old(self).pixels2d),
    {
        proof {
            lemma_index_in_grid(self.spec_w(), self.spec_h(), x as int, y as int);
        }
        let w = self.pixels2d.width();
        let cells = self.pixels2d.pixels_mut();
        let n = cells.len();
        assert(y * w + x < n);
        &mut cells[y * w + x]
    }

    /// Composites `color` over the pixel at `(x, y)`, which must lie in the
    /// buffer.
    pub fn pixel_over_by(&mut self, x: usize, y: usize, color: Pixel)
        requires
            buffer_wf(old(self).buf()),
            x < old(self).spec_w(),
            y < old(self).spec_h(),
        ensures
            final(self).cells() == old(self).cells().update(
                y * old(self).spec_w() + x,
                over_spec(color, old(self).cells()[y * old(self).spec_w() + x]),
            ),
            final(self).spec_w() == old(self).spec_w(),
            final(self).spec_h() == old(self).spec_h(),
            buffer_wf(final(self).buf()),
            *final(final(self).pixels2d) == *final(old(self).pixels2d),
    {
        proof {
            lemma_index_in_grid(self.spec_w(), self.spec_h(), x as int, y as int);
        }
        let w = self.pixels2d.width();
        let cells = self.pixels2d.pixels_mut();
        let n = cells.len();
        assert(y * w + x < n);
        let i = y * w + x;
        let p = cells[i];
        cells[i] = color.over(p);
    }

    /// Sets every pixel to `pixel`, without compositing.
    pub fn fill(&mut self, pixel: Pixel)
        ensures
            final(self).cells() == Seq::new(old(self).cells().len(), |i: int| pixel),
            final(self).spec_w() == old(self).spec_w(),
            final(self).spec_h() == old(self).spec_h(),
            buffer_wf(old(self).buf()) ==> buffer_wf(final(self).buf()),
            *final(final(self).pixels2d) == *final(old(self).pixels2d),
    {
        let cells = self.pixels2d.pixels_mut();
        let n = cells.len();
        let mut i: usize = 0;
        while i < n
            invariant
                n == cells@.len(),
                i <= n,
                forall|j: int| 0 <= j < i ==> cells@[j] == pixel,
            decreases n - i,
        {
            cells[i] = pixel;
            i = i + 1;
        }
        assert(cells@ =~= Seq::new(n as nat, |i: int| pixel));
    }

    /// Composites `color` over the rectangle anchored at `p` that spans `w`
    /// by `h` pixels, clipped to the buffer; a zero extent draws nothing.
    pub fn fill_rect(&mut self, p: Point, w: isize, h: isize, color: Pixel)
        requires
            buffer_wf(old(self).buf()),
        ensures
            painted(
                old(self).cells(),
                final(self).cells(),
                old(self).spec_w(),
                old(self).spec_h(),
                |x: int, y: int|
                    if rect_covers(p, w as int, h as int, x, y) {
                        Some(color)
                    } else {
                        None
                    },
            ),
            w == 0 || h == 0 ==> final(self).cells() == old(self).cells(),
            final(self).spec_w() == old(self).spec_w(),
            final(self).spec_h() == old(self).spec_h(),
            buffer_wf(final(self).buf()),
            *final(final(self).pixels2d) == *final(old(self).pixels2d),
    {
        let ghost before = self.cells();
        let ghost f = |x: int, y: int|
            if rect_covers(p, w as int, h as int, x, y) {
                Some(color)
            } else {
                None
            };
        let width = self.pixels2d.width();
        let height = self.pixels2d.height();
        if w == 0 || h == 0 || width == 0 || height == 0 {
            proof {
                lemma_painted_nothing(before, width as int, height as int, f);
                lemma_painted_unchanged(before, before, width as int, height as int, f);
            }
            return;
        }
        let tw = trim_edge(w) as i128;
        let th = trim_edge(h) as i128;
        let x0 = p.x as i128;
        let y0 = p.y as i128;
        let x_lo = max_i(min_i(x0, x0 + tw), 0);
        let x_hi = min_i(max_i(x0, x0 + tw), width as i128 - 1);
        let y_lo = max_i(min_i(y0, y0 + th), 0);
        let y_hi = min_i(max_i(y0, y0 + th), height as i128 - 1);
        if x_lo > x_hi || y_lo > y_hi {
            proof {
                lemma_painted_nothing(before, width as int, height as int, f);
            }
            return;
        }
        self.paint_box(&Shape::Solid, color, x_lo as usize, x_hi as usize, y_lo as usize, y_hi as usize);
        proof {
            lemma_painted_ext(
                before,
                self.cells(),
                width as int,
                height as int,
                |x: int, y: int|
                    if x_lo <= x <= x_hi && y_lo <= y <= y_hi {
                        shape_shade(Shape::Solid, color, x, y)
                    } else {
                        None
                    },
                f,
            );
        }
    }

    /// Composites a disc centered at `c` with radius `|r|` sub-pixel units
    /// (256 to a pixel): pixels well inside get `color`, pixels on the rim get
    /// it with alpha scaled by 2x2 sub-sampling.  A zero radius draws
    /// nothing.
    pub fn fill_circle(&mut self, c: PointF, r: i64, color: Pixel)
        requires
            buffer_wf(old(self).buf()),
        ensures
            painted(
                old(self).cells(),
                final(self).cells(),
                old(self).spec_w(),
                old(self).spec_h(),
                |x: int, y: int| circle_shade(c, r as int, color, x, y),
            ),
            r == 0 ==> final(self).cells() == old(self).cells(),
            final(self).spec_w() == old(self).spec_w(),
            final(self).spec_h() == old(self).spec_h(),
            buffer_wf(final(self).buf()),
            *final(final(self).pixels2d) == *final(old(self).pixels2d),
    {
        let ghost before = self.cells();
        let ghost f = |x: int, y: int| circle_shade(c, r as int, color, x, y);
        let width = self.pixels2d.width();
        let height = self.pixels2d.height();
        if r == 0 || width == 0 || height == 0 {
            proof {
                lemma_painted_nothing(before, width as int, height as int, f);
                lemma_painted_unchanged(before, before, width as int, height as int, f);
            }
            return;
        }
        let ra: i128 = if r < 0 {
            -(r as i128)
        } else {
            r as i128
        };
        let cx = c.x.to_f();
        let cy = c.y.to_f();
        let x_lo = max_i(floor_div_256(cx - ra), 0);
        let x_hi = min_i(floor_div_256(cx + ra + 255), width as i128 - 1);
        let y_lo = max_i(floor_div_256(cy - ra), 0);
        let y_hi = min_i(floor_div_256(cy + ra + 255), height as i128 - 1);
        if x_lo > x_hi || y_lo > y_hi {
            proof {
                lemma_painted_nothing(before, width as int, height as int, f);
            }
            return;
        }
        let shape = Shape::Disc { cx, cy, ra };
        self.paint_box(&shape, color, x_lo as usize, x_hi as usize, y_lo as usize, y_hi as usize);
        proof {
            lemma_painted_ext(
                before,
                self.cells(),
                width as int,
                height as int,
                |x: int, y: int|
                    if x_lo <= x <= x_hi && y_lo <= y <= y_hi {
                        shape_shade(shape, color, x, y)
                    } else {
                        None
                    },
                f,
            );
        }
    }

    /// Composites `color` over the pixels inside the triangle `v1 v2 v3`
    /// (boundary included), clipped to the buffer.
    pub fn fill_triangle(&mut self, v1: PointF, v2: PointF, v3: PointF, color: Pixel)
        requires
            buffer_wf(old(self).buf()),
        ensures
            painted(
                old(self).cells(),
                final(self).cells(),
                old(self).spec_w(),
                old(self).spec_h(),
                |x: int, y: int|
                    if triangle_covers(v1, v2, v3, x, y) {
                        Some(color)
                    } else {
                        None
                    },
            ),
            final(self).spec_w() == old(self).spec_w(),
            final(self).spec_h() == old(self).spec_h(),
            buffer_wf(final(self).buf()),
            *final(final(self).pixels2d) == *final(old(self).pixels2d),
    {
        let ghost before = self.cells();
        let ghost f = |x: int, y: int|
            if triangle_covers(v1, v2, v3, x, y) {
                Some(color)
            } else {
                None
            };
        let width = self.pixels2d.width();
        let height = self.pixels2d.height();
        if width == 0 || height == 0 {
            proof {
                lemma_painted_nothing(before, width as int, height as int, f);
            }
            return;
        }
        let (x_lo, x_hi) = corner_span(v1.x, v2.x, v3.x, width);
        let (y_lo, y_hi) = corner_span(v1.y, v2.y, v3.y, height);
        if x_lo > x_hi || y_lo > y_hi {
            proof {
                lemma_painted_nothing(before, width as int, height as int, f);
            }
            return;
        }
        let shape = Shape::Triangle { v1, v2, v3 };
        self.paint_box(&shape, color, x_lo as usize, x_hi as usize, y_lo as usize, y_hi as usize);
        proof {
            lemma_painted_ext(
                before,
                self.cells(),
                width as int,
                height as int,
                |x: int, y: int|
                    if x_lo <= x <= x_hi && y_lo <= y <= y_hi {
                        shape_shade(shape, color, x, y)
                    } else {
                        None
                    },
                f,
            );
        }
    }

    /// Composites `color` over the segment from `p1` to `p2`, column by
    /// column, clipped to the buffer.
    pub fn draw_line(&mut self, p1: Point, p2: Point, color: Pixel)
        requires
            buffer_wf(old(self).buf()),
        ensures
            painted(
                old(self).cells(),
                final(self).cells(),
                old(self).spec_w(),
                old(self).spec_h(),
                |x: int, y: int|
                    if line_covers(p1, p2, x, y) {
                        Some(color)
                    } else {
                        None
                    },
            ),
            final(self).spec_w() == old(self).spec_w(),
            final(self).spec_h() == old(self).spec_h(),
            buffer_wf(final(self).buf()),
            *final(final(self).pixels2d) == *final(old(self).pixels2d),
    {
        let ghost before = self.cells();
        let ghost f = |x: int, y: int|
            if line_covers(p1, p2, x, y) {
                Some(color)
            } else {
                None
            };
        let width = self.pixels2d.width();
        let height = self.pixels2d.height();
        let ghost w = width as int;
        let ghost h = height as int;
        if width == 0 || height == 0 {
            proof {
                lemma_painted_nothing(before, w, h, f);
            }
            return;
        }
        let x1 = p1.x as i128;
        let x2 = p2.x as i128;
        let y1 = p1.y as i128;
        let y2 = p2.y as i128;
        if x1 == x2 {
            // A vertical line.
            let y_lo = max_i(min_i(y1, y2), 0);
            let y_hi = min_i(max_i(y1, y2), height as i128 - 1);
            if x1 < 0 || x1 >= width as i128 || y_lo > y_hi {
                proof {
                    lemma_painted_nothing(before, w, h, f);
                }
                return;
            }
            self.paint_box(&Shape::Solid, color, x1 as usize, x1 as usize, y_lo as usize, y_hi as usize);
            proof {
                lemma_painted_ext(
                    before,
                    self.cells(),
                    w,
                    h,
                    |x: int, y: int|
                        if x1 <= x <= x1 && y_lo <= y <= y_hi {
                            shape_shade(Shape::Solid, color, x, y)
                        } else {
                            None
                        },
                    f,
                );
            }
            return;
        }
        let x_start = max_i(min_i(x1, x2), 0);
        let x_end = min_i(max_i(x1, x2), width as i128);
        let mut x = x_start;
        proof {
            lemma_painted_nothing(
                before,
                w,
                h,
                |xx: int, yy: int|
                    if x_start <= xx < x_start && line_covers(p1, p2, xx, yy) {
                        Some(color)
                    } else {
                        None
                    },
            );
        }
        while x < x_end
            invariant
                x_start <= x,
                x <= x_end || x == x_start,
                0 <= x_start,
                x_end <= width,
                p1.x != p2.x,
                x1 == p1.x,
                x2 == p2.x,
                min(p1.x as int, p2.x as int) <= x_start,
                x_end <= max(p1.x as int, p2.x as int),
                width == w,
                height == h,
                self.spec_w() == w,
                self.spec_h() == h,
                buffer_wf(self.buf()),
                *final(self.pixels2d) == *final(old(self).pixels2d),
                painted(
                    before,
                    self.cells(),
                    w,
                    h,
                    |xx: int, yy: int|
                        if x_start <= xx < x && line_covers(p1, p2, xx, yy) {
                            Some(color)
                        } else {
                            None
                        },
                ),
            decreases x_end - x,
        {
            let ghost cur = self.cells();
            let ghost g = |xx: int, yy: int|
                if x_start <= xx < x && line_covers(p1, p2, xx, yy) {
                    Some(color)
                } else {
                    None
                };
            let ghost next_inv = |xx: int, yy: int|
                if x_start <= xx < x + 1 && line_covers(p1, p2, xx, yy) {
                    Some(color)
                } else {
                    None
                };
            let ya = line_y_at(p1, p2, x);
            let yb = line_y_at(p1, p2, x + 1);
            let y_lo = max_i(min_i(ya, yb), 0);
            let y_hi = min_i(max_i(ya, yb), height as i128 - 1);
            if y_lo <= y_hi {
                self.paint_box(&Shape::Solid, color, x as usize, x as usize, y_lo as usize, y_hi as usize);
                proof {
                    let col = |xx: int, yy: int|
                        if x <= xx <= x && y_lo <= yy <= y_hi {
                            shape_shade(Shape::Solid, color, xx, yy)
                        } else {
                            None
                        };
                    lemma_painted_compose(before, cur, self.cells(), w, h, g, col);
                    lemma_painted_ext(
                        before,
                        self.cells(),
                        w,
                        h,
                        |xx: int, yy: int|
                            if g(xx, yy) is Some {
                                g(xx, yy)
                            } else {
                                col(xx, yy)
                            },
                        next_inv,
                    );
                }
            } else {
                proof {
                    lemma_painted_ext(before, cur, w, h, g, next_inv);
                }
            }
            x = x + 1;
        }
        proof {
            lemma_painted_ext(
                before,
                self.cells(),
                w,
                h,
                |xx: int, yy: int|
                    if x_start <= xx < x && line_covers(p1, p2, xx, yy) {
                        Some(color)
                    } else {
                        None
                    },
                f,
            );
        }
    }

    /// Composites what `shape` shades over each pixel of the box
    /// `[x_lo, x_hi] x [y_lo, y_hi]`, which lies in the buffer.
    pub(crate) fn paint_box(
        &mut self,
        shape: &Shape,
        color: Pixel,
        x_lo: usize,
        x_hi: usize,
        y_lo: usize,
        y_hi: usize,
    )
        requires
            buffer_wf(old(self).buf()),
            x_hi < old(self).spec_w(),
            y_hi < old(self).spec_h(),
            shape_box_ok(*shape, x_lo as int, x_hi as int, y_lo as int, y_hi as int),
        ensures
            painted(
                old(self).cells(),
                final(self).cells(),
                old(self).spec_w(),
                old(self).spec_h(),
                |x: int, y: int|
                    if x_lo <= x <= x_hi && y_lo <= y <= y_hi {
                        shape_shade(*shape, color, x, y)
                    } else {
                        None
                    },
            ),
            final(self).spec_w() == old(self).spec_w(),
            final(self).spec_h() == old(self).spec_h(),
            buffer_wf(final(self).buf()),
            *final(final(self).pixels2d) == *final(old(self).pixels2d),
    {
        let ghost before = self.cells();
        let ghost w = self.spec_w();
        let ghost h = self.spec_h();
        let mut y = y_lo;
        while y <= y_hi
            invariant
                y_lo <= y,
                y <= y_hi + 1 || y == y_lo,
                x_hi < w,
                y_hi < h,
                shape_box_ok(*shape, x_lo as int, x_hi as int, y_lo as int, y_hi as int),
                self.spec_w() == w,
                self.spec_h() == h,
                buffer_wf(self.buf()),
                *final(self.pixels2d) == *final(old(self).pixels2d),
                painted(
                    before,
                    self.cells(),
                    w,
                    h,
                    |xx: int, yy: int|
                        if x_lo <= xx <= x_hi && y_lo <= yy < y {
                            shape_shade(*shape, color, xx, yy)
                        } else {
                            None
                        },
                ),
            decreases y_hi + 1 - y,
        {
            let mut x = x_lo;
            while x <= x_hi
                invariant
                    y_lo <= y <= y_hi,
                    x_lo <= x,
                    x <= x_hi + 1 || x == x_lo,
                    x_hi < w,
                    y_hi < h,
                    shape_box_ok(*shape, x_lo as int, x_hi as int, y_lo as int, y_hi as int),
                    self.spec_w() == w,
                    self.spec_h() == h,
                    buffer_wf(self.buf()),
                    *final(self.pixels2d) == *final(old(self).pixels2d),
                    painted(
                        before,
                        self.cells(),
                        w,
                        h,
                        |xx: int, yy: int|
                            if x_lo <= xx <= x_hi && (y_lo <= yy < y || (yy == y && xx < x)) {
                                shape_shade(*shape, color, xx, yy)
                            } else {
                                None
                            },
                    ),
                decreases x_hi + 1 - x,
            {
                let ghost cur = self.cells();
                let ghost f = |xx: int, yy: int|
                    if x_lo <= xx <= x_hi && (y_lo <= yy < y || (yy == y && xx < x)) {
                        shape_shade(*shape, color, xx, yy)
                    } else {
                        None
                    };
                let s = shade_at(shape, color, x, y);
                match s {
                    Some(c) => self.pixel_over_by(x, y, c),
                    None => {},
                }
                proof {
                    lemma_paint_step(before, cur, self.cells(), w, h, f, x as int, y as int, s);
                    lemma_painted_ext(
                        before,
                        self.cells(),
                        w,
                        h,
                        |xx: int, yy: int| if xx == x && yy == y { s } else { f(xx, yy) },
                        |xx: int, yy: int|
                            if x_lo <= xx <= x_hi && (y_lo <= yy < y || (yy == y && xx < x + 1)) {
                                shape_shade(*shape, color, xx, yy)
                            } else {
                                None
                            },
                    );
                }
                x = x + 1;
            }
            proof {
                lemma_painted_ext(
                    before,
                    self.cells(),
                    w,
                    h,
                    |xx: int, yy: int|
                        if x_lo <= xx <= x_hi && (y_lo <= yy < y || (yy == y && xx < x)) {
                            shape_shade(*shape, color, xx, yy)
                        } else {
                            None
                        },
                    |xx: int, yy: int|
                        if x_lo <= xx <= x_hi && y_lo <= yy < y + 1 {
                            shape_shade(*shape, color, xx, yy)
                        } else {
                            None
                        },
                );
            }
            y = y + 1;
        }
        proof {
            lemma_painted_ext(
                before,
                self.cells(),
                w,
                h,
                |xx: int, yy: int|
                    if x_lo <= xx <= x_hi && y_lo <= yy < y {
                        shape_shade(*shape, color, xx, yy)
                    } else {
                        None
                    },
                |xx: int, yy: int|
                    if x_lo <= xx <= x_hi && y_lo <= yy <= y_hi {
                        shape_shade(*shape, color, xx, yy)
                    } else {
                        None
                    },
            );
        }
    }
}

} // verus!
