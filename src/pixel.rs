use vstd::prelude::*;

verus! {

/// A color with four 8-bit channels; `a == 0` is fully transparent and
/// `a == 255` fully opaque.
#[derive(Debug, Clone, Copy, PartialEq, Eq, Structural)]
pub struct Pixel {
    pub r: u8,
    pub g: u8,
    pub b: u8,
    pub a: u8,
}

/// One channel of "`c1` over `c2`" (Porter-Duff), where `a1` is the alpha of
/// the source and `a2` the alpha of the destination, all on the 0..=255 scale.
///
/// With `x1 = a1 / 255` and `x2 = a2 / 255` the blended alpha is
/// `x0 = x1 + (1 - x1) * x2` and the channel is
/// `(c1 * x1 + (1 - x1) * x2 * c2) / x0`, or 0 where `x0 == 0`, truncated.
/// Multiplying numerator and denominator by `255 * 255` keeps it exact.
pub open spec fn mix_channel(c1: int, c2: int, a1: int, a2: int) -> int {
    let den = 255 * a1 + (255 - a1) * a2;
    if den == 0 {
        0
    } else {
        (255 * a1 * c1 + (255 - a1) * a2 * c2) / den
    }
}

/// `src` composited over `dst`, channel by channel.
pub open spec fn over_spec(src: Pixel, dst: Pixel) -> Pixel {
    Pixel {
        r: mix_channel(src.r as int, dst.r as int, src.a as int, dst.a as int) as u8,
        g: mix_channel(src.g as int, dst.g as int, src.a as int, dst.a as int) as u8,
        b: mix_channel(src.b as int, dst.b as int, src.a as int, dst.a as int) as u8,
        a: mix_channel(src.a as int, dst.a as int, src.a as int, dst.a as int) as u8,
    }
}

/// The packed `AABBGGRR` form of a pixel: alpha in the most significant byte.
pub open spec fn pack(p: Pixel) -> u32 {
    (p.a as u32) << 24u32 | (p.b as u32) << 16u32 | (p.g as u32) << 8u32 | (p.r as u32)
}

/// The pixel held by a packed `AABBGGRR` integer.
pub open spec fn unpack(v: u32) -> Pixel {
    Pixel {
        r: (v & 0xffu32) as u8,
        g: ((v >> 8u32) & 0xffu32) as u8,
        b: ((v >> 16u32) & 0xffu32) as u8,
        a: ((v >> 24u32) & 0xffu32) as u8,
    }
}

/// The blended channel never leaves the 0..=255 range: it is a weighted
/// average of `c1` and `c2`.
proof fn lemma_mix_channel_bounded(c1: int, c2: int, a1: int, a2: int)
    requires
        0 <= c1 <= 255,
        0 <= c2 <= 255,
        0 <= a1 <= 255,
        0 <= a2 <= 255,
    ensures
        0 <= mix_channel(c1, c2, a1, a2) <= 255,
{
    let den = 255 * a1 + (255 - a1) * a2;
    let num = 255 * a1 * c1 + (255 - a1) * a2 * c2;
    if den != 0 {
        assert(0 <= den) by (nonlinear_arith)
            requires
                0 <= a1 <= 255,
                0 <= a2 <= 255,
                den == 255 * a1 + (255 - a1) * a2,
        ;
        assert(0 <= num <= 255 * den) by (nonlinear_arith)
            requires
                0 <= c1 <= 255,
                0 <= c2 <= 255,
                0 <= a1 <= 255,
                0 <= a2 <= 255,
                den == 255 * a1 + (255 - a1) * a2,
                num == 255 * a1 * c1 + (255 - a1) * a2 * c2,
        ;
        assert(num / den <= 255) by (nonlinear_arith)
            requires
                0 <= num <= 255 * den,
                0 < den,
        ;
        assert(0 <= num / den) by (nonlinear_arith)
            requires
                0 <= num,
                0 < den,
        ;
    }
}

fn mix_comps(c1: u8, c2: u8, a1: u8, a2: u8) -> (r: u8)
    ensures
        r as int == mix_channel(c1 as int, c2 as int, a1 as int, a2 as int),
{
    proof {
        lemma_mix_channel_bounded(c1 as int, c2 as int, a1 as int, a2 as int);
    }
    let w1: u32 = 255 * (a1 as u32);
    let na1: u32 = 255 - a1 as u32;
    assert(na1 * (a2 as u32) <= 255 * 255) by (nonlinear_arith)
        requires
            na1 <= 255,
            a2 <= 255,
    ;
    let w2: u32 = na1 * (a2 as u32);
    let den: u32 = w1 + w2;
    if den == 0 {
        0
    } else {
        assert(w1 * (c1 as u32) <= 255 * 255 * 255) by (nonlinear_arith)
            requires
                w1 == 255 * (a1 as u32),
                a1 <= 255,
                c1 <= 255,
        ;
        assert(w2 * (c2 as u32) <= 255 * 255 * 255) by (nonlinear_arith)
            requires
                w2 == na1 * (a2 as u32),
                na1 <= 255,
                a2 <= 255,
                c2 <= 255,
        ;
        let num: u32 = w1 * (c1 as u32) + w2 * (c2 as u32);
        assert(num as int == 255 * (a1 as int) * (c1 as int) + (255 - a1 as int) * (a2 as int)
            * (c2 as int)) by (nonlinear_arith)
            requires
                w1 == 255 * (a1 as u32),
                w2 == na1 * (a2 as u32),
                na1 == 255 - a1,
                num == w1 * (c1 as u32) + w2 * (c2 as u32),
                a1 <= 255,
        ;
        (num / den) as u8
    }
}

impl Pixel {
    pub fn new(r: u8, g: u8, b: u8, a: u8) -> (p: Pixel)
        ensures
            p == (Pixel { r, g, b, a }),
    {
        Pixel { r, g, b, a }
    }

    pub fn r(&self) -> (v: u8)
        ensures
            v == self.r,
    {
        self.r
    }

    pub fn g(&self) -> (v: u8)
        ensures
            v == self.g,
    {
        self.g
    }

    pub fn b(&self) -> (v: u8)
        ensures
            v == self.b,
    {
        self.b
    }

    pub fn a(&self) -> (v: u8)
        ensures
            v == self.a,
    {
        self.a
    }

    /// `self` composited over `other` by the Porter-Duff "over" rule.
    #[must_use]
    pub fn over(&self, other: Pixel) -> (p: Pixel)
        ensures
            p == over_spec(*self, other),
    {
        let r = mix_comps(self.r, other.r, self.a, other.a);
        let g = mix_comps(self.g, other.g, self.a, other.a);
        let b = mix_comps(self.b, other.b, self.a, other.a);
        let a = mix_comps(self.a, other.a, self.a, other.a);
        Pixel { r, g, b, a }
    }

    /// The packed `AABBGGRR` form.
    pub fn to_u32(&self) -> (v: u32)
        ensures
            v == pack(*self),
    {
        (self.a as u32) << 24u32 | (self.b as u32) << 16u32 | (self.g as u32) << 8u32
            | (self.r as u32)
    }
}

impl From<u32> for Pixel {
    fn from(value: u32) -> Pixel {
        Pixel {
            r: (value & 0xffu32) as u8,
            g: ((value >> 8u32) & 0xffu32) as u8,
            b: ((value >> 16u32) & 0xffu32) as u8,
            a: ((value >> 24u32) & 0xffu32) as u8,
        }
    }
}

impl vstd::std_specs::convert::FromSpecImpl<u32> for Pixel {
    open spec fn obeys_from_spec() -> bool {
        true
    }

    open spec fn from_spec(v: u32) -> Pixel {
        unpack(v)
    }
}

/// A fully opaque source replaces the destination.
pub proof fn lemma_over_opaque(src: Pixel, dst: Pixel)
    requires
        src.a == 255,
    ensures
        over_spec(src, dst) == src,
{
    let a2 = dst.a as int;
    assert(255 * 255 + (255 - 255) * a2 == 65025);
    assert forall|c1: int, c2: int| 0 <= c1 <= 255 implies #[trigger] mix_channel(c1, c2, 255, a2)
        == c1 by {
        assert((255 * 255 * c1 + (255 - 255) * a2 * c2) == 65025 * c1) by (nonlinear_arith);
        assert((65025 * c1) / 65025 == c1) by (nonlinear_arith);
    }
    assert(mix_channel(src.r as int, dst.r as int, 255, a2) == src.r);
    assert(mix_channel(src.g as int, dst.g as int, 255, a2) == src.g);
    assert(mix_channel(src.b as int, dst.b as int, 255, a2) == src.b);
    assert(mix_channel(255, dst.a as int, 255, a2) == 255);
}

/// A fully transparent source leaves the destination as it is, provided the
/// destination carries some alpha or is all zero: over a transparent
/// destination the rule yields the all-zero pixel.
pub proof fn lemma_over_transparent(src: Pixel, dst: Pixel)
    requires
        src.a == 0,
        dst.a != 0 || dst == (Pixel { r: 0, g: 0, b: 0, a: 0 }),
    ensures
        over_spec(src, dst) == dst,
{
    let a2 = dst.a as int;
    assert forall|c1: int, c2: int| 0 <= c2 <= 255 && a2 != 0 implies #[trigger] mix_channel(
        c1,
        c2,
        0,
        a2,
    ) == c2 by {
        assert((255 * 0 * c1 + (255 - 0) * a2 * c2) == (255 * a2) * c2) by (nonlinear_arith);
        assert(255 * 0 + (255 - 0) * a2 == 255 * a2);
        assert(((255 * a2) * c2) / (255 * a2) == c2) by (nonlinear_arith)
            requires
                a2 != 0,
        ;
    }
    if a2 != 0 {
        assert(mix_channel(src.r as int, dst.r as int, 0, a2) == dst.r);
        assert(mix_channel(src.g as int, dst.g as int, 0, a2) == dst.g);
        assert(mix_channel(src.b as int, dst.b as int, 0, a2) == dst.b);
        assert(mix_channel(0, dst.a as int, 0, a2) == dst.a);
    }
}

/// Unpacking the packed form of a pixel gives back its four channels.
pub proof fn lemma_pack_round_trip(p: Pixel)
    ensures
        unpack(pack(p)) == p,
{
    let (r, g, b, a) = (p.r, p.g, p.b, p.a);
    assert(((a as u32) << 24u32 | (b as u32) << 16u32 | (g as u32) << 8u32 | (r as u32)) & 0xffu32
        == r as u32) by (bit_vector);
    assert(((((a as u32) << 24u32 | (b as u32) << 16u32 | (g as u32) << 8u32 | (r as u32))
        >> 8u32) & 0xffu32) == g as u32) by (bit_vector);
    assert(((((a as u32) << 24u32 | (b as u32) << 16u32 | (g as u32) << 8u32 | (r as u32))
        >> 16u32) & 0xffu32) == b as u32) by (bit_vector);
    assert(((((a as u32) << 24u32 | (b as u32) << 16u32 | (g as u32) << 8u32 | (r as u32))
        >> 24u32) & 0xffu32) == a as u32) by (bit_vector);
}

} // verus!
