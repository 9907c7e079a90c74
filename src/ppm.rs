use vstd::prelude::*;

use crate::buffer::Pixels2D;
use crate::pixel::Pixel;

verus! {

/// The decimal digits of `v` in ASCII, most significant first.
pub open spec fn decimal(v: nat) -> Seq<u8>
    decreases v,
{
    if v < 10 {
        seq![(v + 0x30) as u8]
    } else {
        decimal(v / 10).push((v % 10 + 0x30) as u8)
    }
}

/// A channel weighted by alpha, as if the pixel were laid over black.
pub open spec fn premultiply(c: u8, a: u8) -> u8 {
    (c * a / 255) as u8
}

/// The RGB triples of pixels, each premultiplied by its alpha, in order.
pub open spec fn rgb_body(cells: Seq<Pixel>) -> Seq<u8>
    decreases cells.len(),
{
    if cells.len() == 0 {
        Seq::empty()
    } else {
        let p = cells.last();
        rgb_body(cells.drop_last()) + seq![
            premultiply(p.r, p.a),
            premultiply(p.g, p.a),
            premultiply(p.b, p.a),
        ]
    }
}

/// The RGBA quadruples of pixels, in order.
pub open spec fn rgba_body(cells: Seq<Pixel>) -> Seq<u8>
    decreases cells.len(),
{
    if cells.len() == 0 {
        Seq::empty()
    } else {
        let p = cells.last();
        rgba_body(cells.drop_last()) + seq![p.r, p.g, p.b, p.a]
    }
}

/// Four bytes for each pixel.
pub proof fn lemma_rgba_body_len(cells: Seq<Pixel>)
    ensures
        rgba_body(cells).len() == 4 * cells.len(),
    decreases cells.len(),
{
    if cells.len() > 0 {
        lemma_rgba_body_len(cells.drop_last());
    }
}

/// A binary PPM image: the header `P6\n{width} {height} 255\n` and then the
/// pixels as premultiplied RGB triples, row by row.
pub open spec fn ppm_of(width: nat, height: nat, cells: Seq<Pixel>) -> Seq<u8> {
    seq![0x50u8, 0x36, 0x0a] + decimal(width) + seq![0x20u8] + decimal(height) + seq![
        0x20u8,
        0x32,
        0x35,
        0x35,
        0x0a,
    ] + rgb_body(cells)
}

fn push_decimal(out: &mut Vec<u8>, v: usize)
    ensures
        final(out)@ == old(out)@ + decimal(v as nat),
    decreases v,
{
    if v >= 10 {
        push_decimal(out, v / 10);
    }
    out.push((v % 10) as u8 + 0x30);
    proof {
        if v >= 10 {
            assert(final(out)@ =~= old(out)@ + decimal(v as nat));
        } else {
            assert(final(out)@ =~= old(out)@ + decimal(v as nat));
        }
    }
}

fn premultiply_channel(c: u8, a: u8) -> (r: u8)
    ensures
        r == premultiply(c, a),
{
    assert(c * a / 255 <= 255) by (nonlinear_arith)
        requires
            c <= 255,
            a <= 255,
    ;
    ((c as u32 * a as u32) / 255) as u8
}

/// The bytes of a binary PPM image of the buffer.  PPM has no alpha
/// channel, so each channel is premultiplied by alpha (over black).
pub fn ppm_bytes<P: Pixels2D>(pixels: &P) -> (r: Vec<u8>)
    ensures
        r@ == ppm_of(pixels.spec_width() as nat, pixels.spec_height() as nat, pixels.cells()),
{
    let mut out: Vec<u8> = Vec::new();
    out.push(0x50);
    out.push(0x36);
    out.push(0x0a);
    push_decimal(&mut out, pixels.width());
    out.push(0x20);
    push_decimal(&mut out, pixels.height());
    out.push(0x20);
    out.push(0x32);
    out.push(0x35);
    out.push(0x35);
    out.push(0x0a);
    let ghost header = out@;
    let cells = pixels.pixels();
    let n = cells.len();
    let mut i: usize = 0;
    while i < n
        invariant
            n == cells@.len(),
            cells@ == pixels.cells(),
            i <= n,
            out@ == header + rgb_body(cells@.take(i as int)),
        decreases n - i,
    {
        let p = cells[i];
        assert(cells@.take(i + 1).drop_last() =~= cells@.take(i as int));
        out.push(premultiply_channel(p.r, p.a));
        out.push(premultiply_channel(p.g, p.a));
        out.push(premultiply_channel(p.b, p.a));
        i = i + 1;
        assert(out@ =~= header + rgb_body(cells@.take(i as int)));
    }
    assert(cells@.take(n as int) =~= cells@);
    assert(out@ =~= ppm_of(pixels.spec_width() as nat, pixels.spec_height() as nat, pixels.cells()));
    out
}

/// The pixels of the buffer as RGBA bytes, row by row, as 8-bit RGBA image
/// formats lay them out.
pub fn rgba_bytes<P: Pixels2D>(pixels: &P) -> (r: Vec<u8>)
    ensures
        r@ == rgba_body(pixels.cells()),
{
    let mut out: Vec<u8> = Vec::new();
    let cells = pixels.pixels();
    let n = cells.len();
    let mut i: usize = 0;
    while i < n
        invariant
            n == cells@.len(),
            i <= n,
            out@ == rgba_body(cells@.take(i as int)),
        decreases n - i,
    {
        let p = cells[i];
        assert(cells@.take(i + 1).drop_last() =~= cells@.take(i as int));
        out.push(p.r);
        out.push(p.g);
        out.push(p.b);
        out.push(p.a);
        i = i + 1;
        assert(out@ =~= rgba_body(cells@.take(i as int)));
    }
    assert(cells@.take(n as int) =~= cells@);
    out
}

} // verus!
