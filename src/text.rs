use vstd::prelude::*;

use crate::buffer::{buffer_wf, Pixels2D};
use crate::canvas::Canvas;
use crate::font::{
    glyph_of, glyph_shape, lookup_index, unknown_glyph, Font, Glyph,
    GlyphShape, UNKNOWN,
};
use crate::paint::{lemma_painted_cells, lemma_painted_ext, lemma_painted_nothing, painted_cells};
use crate::pixel::Pixel;
use crate::point::Point;
use crate::shapes::{max, max_i, min_i, shape_shade, Shape};
use vstd::string::StringSliceAdditionalSpecFns;

verus! {

/// The glyph drawn for characters a font lacks: the filled block of
/// `unknown_glyph`.
pub open spec fn fallback_glyph() -> GlyphShape {
    glyph_of(UNKNOWN.spec_bytes())
}

/// The glyph drawn for `c`: the font's, or the fallback where it has none.
pub open spec fn glyph_for(font: Font, c: char) -> GlyphShape {
    let i = lookup_index(font.glyphs@, c);
    if i >= 0 {
        glyph_shape(font.glyphs@[i].1)
    } else {
        fallback_glyph()
    }
}

/// The squares a glyph stamps with its top-left corner at `(x, y)`: one
/// `size` by `size` square per point, in the glyph's order.
pub open spec fn glyph_squares(g: GlyphShape, x: int, y: int, size: int) -> Seq<(int, int)> {
    g.points.map_values(|p: Point| (x + p.x * size, y + p.y * size))
}

/// Laying out the characters `chars` from `pos` at scale `size`:
/// `(x, y, line_height, squares)` after them.  Each glyph advances `x` by
/// its width plus one, times `size`; a newline returns to `pos.x` and moves
/// down by the tallest glyph with points on the line (its height plus one)
/// plus one, times `size`.
pub open spec fn text_layout(chars: Seq<char>, pos: Point, font: Font, size: int) -> (
    int,
    int,
    int,
    Seq<(int, int)>,
)
    decreases chars.len(),
{
    if chars.len() == 0 {
        (pos.x as int, pos.y as int, 0, Seq::empty())
    } else {
        let prev = text_layout(chars.drop_last(), pos, font, size);
        let c = chars.last();
        if c == '\n' {
            (pos.x as int, prev.1 + (prev.2 + 1) * size, 0, prev.3)
        } else {
            let g = glyph_for(font, c);
            (
                prev.0 + (g.width + 1) * size,
                prev.1,
                if size > 0 && g.points.len() > 0 {
                    max(prev.2, g.height + 1)
                } else {
                    prev.2
                },
                prev.3 + glyph_squares(g, prev.0, prev.1, size),
            )
        }
    }
}

/// The `size` by `size` square at `sq` composited in `color` over the cells.
pub open spec fn stamp_square(cells: Seq<Pixel>, width: int, sq: (int, int), size: int, color: Pixel) -> Seq<Pixel> {
    painted_cells(
        cells,
        width,
        |x: int, y: int|
            if sq.0 <= x < sq.0 + size && sq.1 <= y < sq.1 + size {
                Some(color)
            } else {
                None
            },
    )
}

/// The squares composited one after another.
pub open spec fn stamp_squares(
    cells: Seq<Pixel>,
    width: int,
    squares: Seq<(int, int)>,
    size: int,
    color: Pixel,
) -> Seq<Pixel>
    decreases squares.len(),
{
    if squares.len() == 0 {
        cells
    } else {
        stamp_square(
            stamp_squares(cells, width, squares.drop_last(), size, color),
            width,
            squares.last(),
            size,
            color,
        )
    }
}

pub open spec fn fits_isize(v: int) -> bool {
    isize::MIN <= v <= isize::MAX
}

/// Whether a layout state's cursor and every square corner fit `isize`.
pub open spec fn layout_fits(st: (int, int, int, Seq<(int, int)>)) -> bool {
    &&& fits_isize(st.0)
    &&& fits_isize(st.1)
    &&& forall|j: int|
        0 <= j < st.3.len() ==> fits_isize((#[trigger] st.3[j]).0) && fits_isize(st.3[j].1)
}

/// Whether laying out `chars` keeps every cursor position and square corner
/// within `isize`, after each character.
pub open spec fn text_fits(chars: Seq<char>, pos: Point, font: Font, size: int) -> bool {
    forall|k: int|
        0 <= k <= chars.len() ==> #[trigger] layout_fits(
            text_layout(chars.take(k), pos, font, size),
        )
}

/// At scale 0 the cursor never leaves `pos` and every square sits there.
proof fn lemma_layout_size_zero(chars: Seq<char>, pos: Point, font: Font)
    ensures
        text_layout(chars, pos, font, 0).0 == pos.x,
        text_layout(chars, pos, font, 0).1 == pos.y,
        forall|j: int|
            0 <= j < text_layout(chars, pos, font, 0).3.len() ==> #[trigger] text_layout(
                chars,
                pos,
                font,
                0,
            ).3[j] == (pos.x as int, pos.y as int),
    decreases chars.len(),
{
    if chars.len() > 0 {
        lemma_layout_size_zero(chars.drop_last(), pos, font);
        let prev = text_layout(chars.drop_last(), pos, font, 0);
        if chars.last() != '\n' {
            let g = glyph_for(font, chars.last());
            let sq = glyph_squares(g, prev.0, prev.1, 0);
            assert forall|j: int| 0 <= j < sq.len() implies #[trigger] sq[j] == (
                pos.x as int,
                pos.y as int,
            ) by {
                assert(g.points[j].x * 0 == 0 && g.points[j].y * 0 == 0);
            }
        }
    }
}

/// Empty text, or any text at scale 0, always fits.
pub proof fn lemma_text_fits_trivially(chars: Seq<char>, pos: Point, font: Font, size: int)
    requires
        size == 0 || chars.len() == 0,
    ensures
        text_fits(chars, pos, font, size),
{
    assert forall|k: int| 0 <= k <= chars.len() implies #[trigger] layout_fits(
        text_layout(chars.take(k), pos, font, size),
    ) by {
        if size == 0 {
            lemma_layout_size_zero(chars.take(k), pos, font);
        } else {
            assert(chars.take(k).len() == 0);
        }
    }
}

/// Squares of size 0 cover nothing.
proof fn lemma_stamp_size_zero(cells: Seq<Pixel>, width: int, squares: Seq<(int, int)>, color: Pixel)
    ensures
        stamp_squares(cells, width, squares, 0, color) == cells,
    decreases squares.len(),
{
    if squares.len() > 0 {
        lemma_stamp_size_zero(cells, width, squares.drop_last(), color);
        assert(stamp_square(cells, width, squares.last(), 0, color) =~= cells);
    }
}

impl<'a, P: Pixels2D> Canvas<'a, P> {
    /// Composites the `size` by `size` square with top-left corner
    /// `(sx, sy)`, clipped to the buffer.
    fn stamp(&mut self, sx: i128, sy: i128, size: usize, color: Pixel)
        requires
            buffer_wf(old(self).buf()),
            fits_isize(sx as int),
            fits_isize(sy as int),
        ensures
            final(self).cells() == stamp_square(
                old(self).cells(),
                old(self).spec_w(),
                (sx as int, sy as int),
                size as int,
                color,
            ),
            final(self).spec_w() == old(self).spec_w(),
            final(self).spec_h() == old(self).spec_h(),
            buffer_wf(final(self).buf()),
            *final(final(self).pixels2d) == *final(old(self).pixels2d),
    {
        let ghost before = self.cells();
        let ghost w = self.spec_w();
        let ghost h = self.spec_h();
        let ghost f = |x: int, y: int|
            if sx <= x < sx + size && sy <= y < sy + size {
                Some(color)
            } else {
                None
            };
        let width = self.pixels2d.width();
        let height = self.pixels2d.height();
        if size == 0 || width == 0 || height == 0 {
            proof {
                lemma_painted_nothing(before, w, h, f);
                lemma_painted_cells(before, before, w, h, f);
            }
            return;
        }
        let x_lo = max_i(sx, 0);
        let x_hi = min_i(sx + size as i128 - 1, width as i128 - 1);
        let y_lo = max_i(sy, 0);
        let y_hi = min_i(sy + size as i128 - 1, height as i128 - 1);
        if x_lo > x_hi || y_lo > y_hi {
            proof {
                lemma_painted_nothing(before, w, h, f);
                lemma_painted_cells(before, before, w, h, f);
            }
            return;
        }
        self.paint_box(&Shape::Solid, color, x_lo as usize, x_hi as usize, y_lo as usize, y_hi as usize);
        proof {
            lemma_painted_ext(
                before,
                self.cells(),
                w,
                h,
                |x: int, y: int|
                    if x_lo <= x <= x_hi && y_lo <= y <= y_hi {
                        shape_shade(Shape::Solid, color, x, y)
                    } else {
                        None
                    },
                f,
            );
            lemma_painted_cells(before, self.cells(), w, h, f);
        }
    }

    /// Writes `text` from `pos` in `font`, each glyph point a `size` by
    /// `size` square of `color`, clipped to the buffer.  Characters the font
    /// lacks are drawn as a filled block; a newline starts the next line
    /// below the tallest glyph of the current one.  The layout's positions
    /// must fit `isize` (they always do for empty text or scale 0).
    pub fn text(&mut self, text: &str, pos: Point, font: &Font, size: usize, color: Pixel)
        requires
            buffer_wf(old(self).buf()),
            text_fits(text@, pos, *font, size as int),
        ensures
            final(self).cells() == stamp_squares(
                old(self).cells(),
                old(self).spec_w(),
                text_layout(text@, pos, *font, size as int).3,
                size as int,
                color,
            ),
            size == 0 || text@.len() == 0 ==> final(self).cells() == old(self).cells(),
            final(self).spec_w() == old(self).spec_w(),
            final(self).spec_h() == old(self).spec_h(),
            buffer_wf(final(self).buf()),
            *final(final(self).pixels2d) == *final(old(self).pixels2d),
    {
        broadcast use vstd::string::group_string_axioms;

        let ghost before = self.cells();
        let ghost w = self.spec_w();
        let ghost sz = size as int;
        let unknown = unknown_glyph();
        let mut x: i128 = pos.x as i128;
        let mut y: i128 = pos.y as i128;
        let mut max_height: i128 = 0;
        let ghost mut k: int = 0;
        assert(text@.take(0) =~= Seq::<char>::empty());
        for c in iter: text.chars()
            invariant
                iter.seq() == text@,
                k == iter.index(),
                0 <= k <= text@.len(),
                sz == size,
                text_fits(text@, pos, *font, sz),
                glyph_shape(unknown) == fallback_glyph(),
                (x as int, y as int, max_height as int) == (
                    text_layout(text@.take(k), pos, *font, sz).0,
                    text_layout(text@.take(k), pos, *font, sz).1,
                    text_layout(text@.take(k), pos, *font, sz).2,
                ),
                fits_isize(x as int),
                fits_isize(y as int),
                0 <= max_height <= usize::MAX + 1,
                self.spec_w() == w,
                buffer_wf(self.buf()),
                self.spec_h() == old(self).spec_h(),
                *final(self.pixels2d) == *final(old(self).pixels2d),
                self.cells() == stamp_squares(
                    before,
                    w,
                    text_layout(text@.take(k), pos, *font, sz).3,
                    sz,
                    color,
                ),
        {
            let ghost prev = text_layout(text@.take(k), pos, *font, sz);
            let ghost next = text_layout(text@.take(k + 1), pos, *font, sz);
            assert(text@.take(k + 1).drop_last() =~= text@.take(k));
            assert(text@.take(k + 1).last() == c);
            assert(layout_fits(next));
            if c == '\n' {
                assert(next.1 == prev.1 + (prev.2 + 1) * sz);
                x = pos.x as i128;
                y = y + (max_height + 1) * size as i128;
                max_height = 0;
            } else {
                let found = font.glyph(c);
                let glyph: &Glyph = match found {
                    Some(g) => g,
                    None => &unknown,
                };
                let ghost gs = glyph_for(*font, c);
                proof {
                    crate::font::lemma_lookup_index_range(font.glyphs@, c);
                }
                assert(glyph_shape(*glyph) == gs);
                let ghost squares = glyph_squares(gs, x as int, y as int, sz);
                assert(next.3 == prev.3 + squares);
                assert forall|jj: int| 0 <= jj < squares.len() implies fits_isize(
                    (#[trigger] squares[jj]).0,
                ) && fits_isize(squares[jj].1) by {
                    assert(next.3[prev.3.len() + jj] == squares[jj]);
                }
                let n = glyph.points.len();
                let mut j: usize = 0;
                assert(prev.3 + squares.take(0) =~= prev.3);
                while j < n
                    invariant
                        n == glyph.points@.len(),
                        glyph_shape(*glyph) == gs,
                        squares == glyph_squares(gs, x as int, y as int, sz),
                        forall|jj: int|
                            0 <= jj < squares.len() ==> fits_isize((#[trigger] squares[jj]).0)
                                && fits_isize(squares[jj].1),
                        j <= n,
                        sz == size,
                        fits_isize(x as int),
                        fits_isize(y as int),
                        self.spec_w() == w,
                        buffer_wf(self.buf()),
                        self.spec_h() == old(self).spec_h(),
                        *final(self.pixels2d) == *final(old(self).pixels2d),
                        self.cells() == stamp_squares(before, w, prev.3 + squares.take(j as int), sz, color),
                    decreases n - j,
                {
                    let p = glyph.points[j];
                    assert(gs.points[j as int] == p);
                    assert(squares[j as int] == (x + p.x * size, y + p.y * size));
                    let sx = x + p.x as i128 * size as i128;
                    let sy = y + p.y as i128 * size as i128;
                    self.stamp(sx, sy, size, color);
                    proof {
                        let sq = prev.3 + squares.take(j + 1);
                        assert(sq.drop_last() =~= prev.3 + squares.take(j as int));
                        assert(sq.last() == (sx as int, sy as int));
                    }
                    j = j + 1;
                }
                assert(squares.take(n as int) =~= squares);
                assert(next.0 == prev.0 + (gs.width + 1) * sz);
                if size > 0 && n > 0 && glyph.height as i128 + 1 > max_height {
                    max_height = glyph.height as i128 + 1;
                }
                x = x + (glyph.width as i128 + 1) * size as i128;
            }
            proof {
                k = k + 1;
            }
        }
        assert(text@.take(k) =~= text@);
        proof {
            if size == 0 {
                lemma_stamp_size_zero(before, w, text_layout(text@, pos, *font, sz).3, color);
            }
        }
    }
}

} // verus!
