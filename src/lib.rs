// A software rasterizer: pixel buffers, exact sub-pixel coordinates, alpha
// compositing, and scan conversion of rectangles, discs, lines, triangles
// and bitmap text, each with a contract that fixes every pixel it leaves.

mod buffer;
mod canvas;
mod font;
mod image;
mod paint;
mod pixel;
mod point;
mod ppm;
mod shapes;
mod text;

pub use buffer::{buffer_wf, HeapPixels2D, Pixels2D, StackPixels2D};
pub use canvas::Canvas;
pub use font::{
    default_font, default_glyphs, font_shapes, glyph_from_str, glyph_of, glyph_shape,
    lookup_index, scan_glyph, unknown_glyph, Font, Glyph, GlyphShape,
};
pub use image::{png_bytes, png_of, PngError};
pub use paint::{
    lemma_painted_cells, lemma_painted_changes_only_shaded, lemma_painted_unchanged, painted,
    painted_cells, pixel_at,
};
pub use pixel::{
    lemma_over_opaque, lemma_over_transparent, lemma_pack_round_trip, mix_channel, over_spec, pack,
    unpack, Pixel,
};
pub use point::{representable, EvenF, Point, PointF};
pub use ppm::{decimal, lemma_rgba_body_len, ppm_bytes, ppm_of, premultiply, rgb_body, rgba_body, rgba_bytes};
pub use shapes::{
    abs, anti_aliased, circle_shade, det, disc_shade, floor_div, inside_triangle, line_covers,
    line_y, max, max3, min, min3, rect_covers, sample_in_disc, sign, sq, sub_pixels_filled,
    triangle_covers, trim,
};
pub use text::{
    fallback_glyph, fits_isize, glyph_for, glyph_squares, layout_fits, lemma_text_fits_trivially,
    stamp_square, stamp_squares, text_fits, text_layout,
};
