use vstd::prelude::*;

verus! {

/// A pixel-aligned location; it may lie outside any buffer.
#[derive(Debug, Clone, Copy, PartialEq, Eq, Structural)]
pub struct Point {
    pub x: isize,
    pub y: isize,
}

/// A coordinate kept as an integer part `n` and a fraction `off / 256` of a
/// pixel.  The fraction always lies in `[0, 1)`, so repeated arithmetic only
/// carries into `n` and never lets the integer part drift.
///
/// Quantities of this model that are not whole pixels (offsets, deltas,
/// distances) are counted in sub-pixel units, 256 to a pixel.
#[derive(Debug, Clone, Copy, PartialEq, Eq, Structural)]
pub struct EvenF {
    pub n: isize,
    pub off: u8,
}

/// Whether a value in sub-pixel units has an integer part that fits `isize`.
pub open spec fn representable(v: int) -> bool {
    isize::MIN * 256 <= v < (isize::MAX + 1) * 256
}

impl View for EvenF {
    type V = int;

    /// The value in sub-pixel units.
    open spec fn view(&self) -> int {
        self.n * 256 + self.off
    }
}

impl EvenF {
    /// The value `v` (in sub-pixel units) split into integer part and fraction.
    fn from_units(v: i128) -> (e: EvenF)
        requires
            representable(v as int),
        ensures
            e@ == v,
    {
        if v >= 0 {
            let q: i128 = v / 256;
            let r: i128 = v % 256;
            EvenF { n: q as isize, off: r as u8 }
        } else {
            let m: i128 = -v;
            let q: i128 = (m + 255) / 256;
            let r: i128 = q * 256 - m;
            assert(0 <= r < 256);
            EvenF { n: (-q) as isize, off: r as u8 }
        }
    }

    /// `n` whole pixels plus `off` sub-pixel units, normalised so that the
    /// fraction lies in `[0, 1)`; whatever `off` holds beyond that is carried
    /// into the integer part.
    pub fn new(n: isize, off: i64) -> (e: EvenF)
        requires
            representable(n * 256 + off),
        ensures
            e@ == n * 256 + off,
            0 <= e.off < 256,
    {
        EvenF::from_units(n as i128 * 256 + off as i128)
    }

    pub fn zero() -> (e: EvenF)
        ensures
            e@ == 0,
    {
        EvenF { n: 0, off: 0 }
    }

    /// The nearest whole pixel, halves rounded up.
    pub fn round(&self) -> (r: isize)
        requires
            self.n < isize::MAX || self.off < 128,
        ensures
            r == (self@ + 128) / 256,
    {
        if self.off >= 128 {
            self.n + 1
        } else {
            self.n
        }
    }

    /// The largest whole pixel not above the value.
    pub fn floor(&self) -> (r: isize)
        ensures
            r == self@ / 256,
    {
        self.n
    }

    /// The smallest whole pixel not below the value.
    pub fn ceil(&self) -> (r: isize)
        requires
            self.n < isize::MAX || self.off == 0,
        ensures
            r == (self@ + 255) / 256,
    {
        if self.off > 0 {
            self.n + 1
        } else {
            self.n
        }
    }

    /// The value in sub-pixel units.
    pub fn to_f(self) -> (v: i128)
        ensures
            v == self@,
    {
        self.n as i128 * 256 + self.off as i128
    }

    /// The signed distance from `self` to `rhs`, in sub-pixel units.
    pub fn f_to(&self, rhs: EvenF) -> (d: i128)
        ensures
            d == rhs@ - self@,
    {
        rhs.to_f() - self.to_f()
    }

    /// The value moved by `v` sub-pixel units.
    pub fn add_f(&self, v: i64) -> (e: EvenF)
        requires
            representable(self@ + v),
        ensures
            e@ == self@ + v,
    {
        EvenF::from_units(self.to_f() + v as i128)
    }

    pub fn add(self, rhs: EvenF) -> (e: EvenF)
        requires
            representable(self@ + rhs@),
        ensures
            e@ == self@ + rhs@,
    {
        EvenF::from_units(self.to_f() + rhs.to_f())
    }

    pub fn sub(self, rhs: EvenF) -> (e: EvenF)
        requires
            representable(self@ - rhs@),
        ensures
            e@ == self@ - rhs@,
    {
        EvenF::from_units(self.to_f() - rhs.to_f())
    }
}

/// A location with sub-pixel precision.
#[derive(Debug, Clone, Copy, PartialEq, Eq, Structural)]
pub struct PointF {
    pub x: EvenF,
    pub y: EvenF,
}

impl PointF {
    pub fn new(x: EvenF, y: EvenF) -> (p: PointF)
        ensures
            p == (PointF { x, y }),
    {
        PointF { x, y }
    }

    /// The pixel-aligned location `(x, y)`.
    pub fn from_int(x: isize, y: isize) -> (p: PointF)
        ensures
            p.x@ == x * 256,
            p.y@ == y * 256,
    {
        PointF { x: EvenF { n: x, off: 0 }, y: EvenF { n: y, off: 0 } }
    }

    /// The location `(x + x_off, y + y_off)`, offsets in sub-pixel units.
    pub fn from_float(x: isize, x_off: i64, y: isize, y_off: i64) -> (p: PointF)
        requires
            representable(x * 256 + x_off),
            representable(y * 256 + y_off),
        ensures
            p.x@ == x * 256 + x_off,
            p.y@ == y * 256 + y_off,
    {
        PointF { x: EvenF::new(x, x_off), y: EvenF::new(y, y_off) }
    }

    pub fn x(&self) -> (v: EvenF)
        ensures
            v == self.x,
    {
        self.x
    }

    pub fn y(&self) -> (v: EvenF)
        ensures
            v == self.y,
    {
        self.y
    }

    /// The vector from `self` to `rhs`, in sub-pixel units.
    pub fn f_to(&self, rhs: PointF) -> (d: (i128, i128))
        ensures
            d.0 == rhs.x@ - self.x@,
            d.1 == rhs.y@ - self.y@,
    {
        (self.x.f_to(rhs.x), self.y.f_to(rhs.y))
    }
}

impl From<Point> for PointF {
    fn from(p: Point) -> PointF {
        PointF { x: EvenF { n: p.x, off: 0 }, y: EvenF { n: p.y, off: 0 } }
    }
}

impl vstd::std_specs::convert::FromSpecImpl<Point> for PointF {
    open spec fn obeys_from_spec() -> bool {
        true
    }

    open spec fn from_spec(p: Point) -> PointF {
        PointF { x: EvenF { n: p.x, off: 0 }, y: EvenF { n: p.y, off: 0 } }
    }
}

impl PointF {
    /// The nearest pixel-aligned location, halves rounded up.
    pub fn round(&self) -> (p: Point)
        requires
            self.x.n < isize::MAX || self.x.off < 128,
            self.y.n < isize::MAX || self.y.off < 128,
        ensures
            p.x == (self.x@ + 128) / 256,
            p.y == (self.y@ + 128) / 256,
    {
        Point { x: self.x.round(), y: self.y.round() }
    }
}

} // verus!
