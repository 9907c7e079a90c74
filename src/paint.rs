use vstd::prelude::*;

use crate::pixel::{over_spec, Pixel};

verus! {

/// The pixel at `(x, y)` of row-major cells `width` wide.
pub open spec fn pixel_at(cells: Seq<Pixel>, width: int, x: int, y: int) -> Pixel {
    cells[y * width + x]
}

/// `after` is `before` with `shade(x, y)`, where it is some color, composited
/// over each pixel of the `width` by `height` grid; the other pixels are kept.
pub open spec fn painted(
    before: Seq<Pixel>,
    after: Seq<Pixel>,
    width: int,
    height: int,
    shade: spec_fn(int, int) -> Option<Pixel>,
) -> bool {
    &&& after.len() == before.len()
    &&& forall|x: int, y: int|
        0 <= x < width && 0 <= y < height ==> #[trigger] pixel_at(after, width, x, y) == match shade(
            x,
            y,
        ) {
            Some(c) => over_spec(c, pixel_at(before, width, x, y)),
            None => pixel_at(before, width, x, y),
        }
}

pub(crate) proof fn lemma_index_in_grid(width: int, height: int, x: int, y: int)
    requires
        0 <= x < width,
        0 <= y < height,
    ensures
        0 <= y * width + x < width * height,
{
    assert(0 <= y * width + x < width * height) by (nonlinear_arith)
        requires
            0 <= x < width,
            0 <= y < height,
    ;
}

pub(crate) proof fn lemma_index_distinct(width: int, x1: int, y1: int, x2: int, y2: int)
    requires
        0 <= x1 < width,
        0 <= x2 < width,
        0 <= y1,
        0 <= y2,
        x1 != x2 || y1 != y2,
    ensures
        y1 * width + x1 != y2 * width + x2,
{
    if y1 == y2 {
    } else if y1 < y2 {
        assert(y1 * width + x1 < y2 * width + x2) by (nonlinear_arith)
            requires
                0 <= x1 < width,
                0 <= x2,
                y1 < y2,
        ;
    } else {
        assert(y2 * width + x2 < y1 * width + x1) by (nonlinear_arith)
            requires
                0 <= x2 < width,
                0 <= x1,
                y2 < y1,
        ;
    }
}

/// Two shades that agree on the grid paint the same result.
pub(crate) proof fn lemma_painted_ext(
    before: Seq<Pixel>,
    after: Seq<Pixel>,
    width: int,
    height: int,
    f: spec_fn(int, int) -> Option<Pixel>,
    g: spec_fn(int, int) -> Option<Pixel>,
)
    requires
        painted(before, after, width, height, f),
        forall|x: int, y: int| 0 <= x < width && 0 <= y < height ==> #[trigger] f(x, y) == g(x, y),
    ensures
        painted(before, after, width, height, g),
{
    assert forall|x: int, y: int| 0 <= x < width && 0 <= y < height implies #[trigger] pixel_at(
        after,
        width,
        x,
        y,
    ) == match g(x, y) {
        Some(c) => over_spec(c, pixel_at(before, width, x, y)),
        None => pixel_at(before, width, x, y),
    } by {
        assert(f(x, y) == g(x, y));
    }
}

/// Painting `f` and then `g`, which never both shade one pixel, paints their
/// union.
pub(crate) proof fn lemma_painted_compose(
    a: Seq<Pixel>,
    b: Seq<Pixel>,
    c: Seq<Pixel>,
    width: int,
    height: int,
    f: spec_fn(int, int) -> Option<Pixel>,
    g: spec_fn(int, int) -> Option<Pixel>,
)
    requires
        painted(a, b, width, height, f),
        painted(b, c, width, height, g),
        forall|x: int, y: int|
            0 <= x < width && 0 <= y < height ==> (#[trigger] f(x, y)) is None || g(x, y) is None,
    ensures
        painted(a, c, width, height, |x: int, y: int| if f(x, y) is Some { f(x, y) } else { g(x, y) }),
{
    let u = |x: int, y: int| if f(x, y) is Some { f(x, y) } else { g(x, y) };
    assert forall|x: int, y: int| 0 <= x < width && 0 <= y < height implies #[trigger] pixel_at(
        c,
        width,
        x,
        y,
    ) == match u(x, y) {
        Some(s) => over_spec(s, pixel_at(a, width, x, y)),
        None => pixel_at(a, width, x, y),
    } by {
        assert(pixel_at(b, width, x, y) == pixel_at(b, width, x, y));
        assert(pixel_at(c, width, x, y) == pixel_at(c, width, x, y));
    }
}

/// Painting one more pixel `(x, y)`, which `f` left alone, with `s`.
pub(crate) proof fn lemma_paint_step(
    before: Seq<Pixel>,
    cur: Seq<Pixel>,
    next: Seq<Pixel>,
    width: int,
    height: int,
    f: spec_fn(int, int) -> Option<Pixel>,
    x: int,
    y: int,
    s: Option<Pixel>,
)
    requires
        painted(before, cur, width, height, f),
        cur.len() == width * height,
        0 <= x < width,
        0 <= y < height,
        f(x, y) is None,
        next == match s {
            Some(c) => cur.update(y * width + x, over_spec(c, cur[y * width + x])),
            None => cur,
        },
    ensures
        painted(
            before,
            next,
            width,
            height,
            |xx: int, yy: int| if xx == x && yy == y { s } else { f(xx, yy) },
        ),
{
    lemma_index_in_grid(width, height, x, y);
    let g = |xx: int, yy: int| if xx == x && yy == y { s } else { f(xx, yy) };
    assert forall|xx: int, yy: int| 0 <= xx < width && 0 <= yy < height implies #[trigger] pixel_at(
        next,
        width,
        xx,
        yy,
    ) == match g(xx, yy) {
        Some(c) => over_spec(c, pixel_at(before, width, xx, yy)),
        None => pixel_at(before, width, xx, yy),
    } by {
        lemma_index_in_grid(width, height, xx, yy);
        assert(pixel_at(cur, width, xx, yy) == pixel_at(cur, width, xx, yy));
        if xx != x || yy != y {
            lemma_index_distinct(width, xx, yy, x, y);
            assert(g(xx, yy) == f(xx, yy));
            match s {
                Some(c) => {
                    assert(next[yy * width + xx] == cur[yy * width + xx]);
                },
                None => {},
            }
            assert(pixel_at(next, width, xx, yy) == pixel_at(cur, width, xx, yy));
        } else {
            assert(g(xx, yy) == s);
            assert(pixel_at(cur, width, x, y) == pixel_at(before, width, x, y));
            match s {
                Some(c) => {
                    assert(pixel_at(next, width, x, y) == over_spec(c, pixel_at(before, width, x, y)));
                },
                None => {
                    assert(pixel_at(next, width, x, y) == pixel_at(before, width, x, y));
                },
            }
        }
    }
}


/// A shade that composites nothing on the grid leaves the cells as they are.
pub(crate) proof fn lemma_painted_nothing(
    cells: Seq<Pixel>,
    width: int,
    height: int,
    f: spec_fn(int, int) -> Option<Pixel>,
)
    requires
        forall|x: int, y: int| 0 <= x < width && 0 <= y < height ==> #[trigger] f(x, y) is None,
    ensures
        painted(cells, cells, width, height, f),
{
    assert forall|x: int, y: int| 0 <= x < width && 0 <= y < height implies #[trigger] pixel_at(
        cells,
        width,
        x,
        y,
    ) == match f(x, y) {
        Some(c) => over_spec(c, pixel_at(cells, width, x, y)),
        None => pixel_at(cells, width, x, y),
    } by {
        assert(f(x, y) is None);
    }
}

/// The cells that painting `shade` over `before` yields, cell by cell.
pub open spec fn painted_cells(
    before: Seq<Pixel>,
    width: int,
    shade: spec_fn(int, int) -> Option<Pixel>,
) -> Seq<Pixel> {
    Seq::new(
        before.len(),
        |i: int|
            match shade(i % width, i / width) {
                Some(c) => over_spec(c, before[i]),
                None => before[i],
            },
    )
}

/// On a well-formed grid, `painted` fixes every cell.
pub proof fn lemma_painted_cells(
    before: Seq<Pixel>,
    after: Seq<Pixel>,
    width: int,
    height: int,
    f: spec_fn(int, int) -> Option<Pixel>,
)
    requires
        painted(before, after, width, height, f),
        before.len() == width * height,
        0 <= height,
    ensures
        after == painted_cells(before, width, f),
{
    assert forall|i: int| 0 <= i < before.len() implies after[i] == painted_cells(
        before,
        width,
        f,
    )[i] by {
        let x = i % width;
        let y = i / width;
        assert(width > 0) by (nonlinear_arith)
            requires
                0 <= i < width * height,
                0 <= height,
        ;
        vstd::arithmetic::div_mod::lemma_fundamental_div_mod(i, width);
        assert(0 <= x < width) by {
            vstd::arithmetic::div_mod::lemma_mod_bound(i, width);
        }
        assert(0 <= y < height) by (nonlinear_arith)
            requires
                y == i / width,
                0 <= i < width * height,
                width > 0,
                i == width * (i / width) + i % width,
                0 <= i % width < width,
        ;
        assert(y * width + x == i) by (nonlinear_arith)
            requires
                i == width * (i / width) + i % width,
                x == i % width,
                y == i / width,
        ;
        assert(pixel_at(after, width, x, y) == after[i]);
        assert(pixel_at(before, width, x, y) == before[i]);
        assert(painted_cells(before, width, f)[i] == match f(x, y) {
            Some(c) => over_spec(c, before[i]),
            None => before[i],
        });
    }
    assert(after =~= painted_cells(before, width, f));
}

/// Where a shade composites nothing on the grid, painting it changes no cell.
pub proof fn lemma_painted_unchanged(
    before: Seq<Pixel>,
    after: Seq<Pixel>,
    width: int,
    height: int,
    f: spec_fn(int, int) -> Option<Pixel>,
)
    requires
        painted(before, after, width, height, f),
        before.len() == width * height,
        0 <= height,
        forall|x: int, y: int| 0 <= x < width && 0 <= y < height ==> #[trigger] f(x, y) is None,
    ensures
        after == before,
{
    assert forall|i: int| 0 <= i < before.len() implies after[i] == before[i] by {
        let x = i % width;
        let y = i / width;
        assert(width > 0) by (nonlinear_arith)
            requires
                0 <= i < width * height,
                0 <= height,
        ;
        vstd::arithmetic::div_mod::lemma_fundamental_div_mod(i, width);
        assert(0 <= x < width) by {
            vstd::arithmetic::div_mod::lemma_mod_bound(i, width);
        }
        assert(0 <= y < height) by (nonlinear_arith)
            requires
                y == i / width,
                0 <= i < width * height,
                width > 0,
                i == width * (i / width) + i % width,
                0 <= i % width < width,
        ;
        assert(y * width + x == i) by (nonlinear_arith)
            requires
                i == width * (i / width) + i % width,
                x == i % width,
                y == i / width,
        ;
        assert(f(x, y) is None);
        assert(pixel_at(after, width, x, y) == pixel_at(before, width, x, y));
    }
    assert(after =~= before);
}

/// A paint changes a cell only where the cell is a pixel `(x, y)` of the
/// `width` by `height` grid and the shade composites something there:
/// nothing outside the grid or outside the shape is ever written.
pub proof fn lemma_painted_changes_only_shaded(
    before: Seq<Pixel>,
    after: Seq<Pixel>,
    width: int,
    height: int,
    f: spec_fn(int, int) -> Option<Pixel>,
    i: int,
)
    requires
        painted(before, after, width, height, f),
        before.len() == width * height,
        0 <= height,
        0 <= i < before.len(),
        after[i] != before[i],
    ensures
        0 <= i % width < width,
        0 <= i / width < height,
        f(i % width, i / width) is Some,
{
    lemma_painted_cells(before, after, width, height, f);
    assert(width > 0) by (nonlinear_arith)
        requires
            0 <= i < width * height,
            0 <= height,
    ;
    vstd::arithmetic::div_mod::lemma_fundamental_div_mod(i, width);
    vstd::arithmetic::div_mod::lemma_mod_bound(i, width);
    assert(0 <= i / width < height) by (nonlinear_arith)
        requires
            0 <= i < width * height,
            width > 0,
            i == width * (i / width) + i % width,
            0 <= i % width < width,
    ;
    assert(after[i] == painted_cells(before, width, f)[i]);
}

} // verus!
