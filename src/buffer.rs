use vstd::prelude::*;

use crate::pixel::Pixel;

verus! {

/// A rectangular grid of pixels stored row by row.
pub trait Pixels2D {
    spec fn spec_width(&self) -> usize;

    spec fn spec_height(&self) -> usize;

    /// The cells, row-major: the pixel at `(x, y)` is `cells()[y * width + x]`.
    spec fn cells(&self) -> Seq<Pixel>;

    fn width(&self) -> (r: usize)
        ensures
            r == self.spec_width(),
    ;

    fn height(&self) -> (r: usize)
        ensures
            r == self.spec_height(),
    ;

    fn pixels(&self) -> (r: &[Pixel])
        ensures
            r@ == self.cells(),
    ;

    fn pixels_mut(&mut self) -> (r: &mut [Pixel])
        ensures
            r@ == old(self).cells(),
            final(self).cells() == final(r)@,
            final(self).spec_width() == old(self).spec_width(),
            final(self).spec_height() == old(self).spec_height(),
    ;
}

/// The grid holds exactly `width * height` cells.
pub open spec fn buffer_wf<P: Pixels2D>(p: P) -> bool {
    p.cells().len() == p.spec_width() * p.spec_height()
}

/// A grid in a fixed-size array of `N` cells.
#[derive(Debug, Clone, Copy, PartialEq, Eq)]
pub struct StackPixels2D<const N: usize> {
    pixels: [Pixel; N],
    width: usize,
    height: usize,
}

impl<const N: usize> StackPixels2D<N> {
    /// A `width` by `height` grid filled with `fill`; the grid must fill the
    /// array exactly.
    pub fn new(width: usize, height: usize, fill: Pixel) -> (s: StackPixels2D<N>)
        requires
            width * height == N,
        ensures
            s.spec_width() == width,
            s.spec_height() == height,
            s.cells() == Seq::new(N as nat, |i: int| fill),
            buffer_wf(s),
    {
        let pixels = [fill; N];
        let s = StackPixels2D { pixels, width, height };
        assert(s.cells() =~= Seq::new(N as nat, |i: int| fill));
        s
    }
}

impl<const N: usize> Pixels2D for StackPixels2D<N> {
    closed spec fn spec_width(&self) -> usize {
        self.width
    }

    closed spec fn spec_height(&self) -> usize {
        self.height
    }

    closed spec fn cells(&self) -> Seq<Pixel> {
        self.pixels@
    }

    fn width(&self) -> (r: usize) {
        self.width
    }

    fn height(&self) -> (r: usize) {
        self.height
    }

    fn pixels(&self) -> (r: &[Pixel]) {
        self.pixels.as_slice()
    }

    fn pixels_mut(&mut self) -> (r: &mut [Pixel]) {
        &mut self.pixels
    }
}

/// A grid in a vector sized when it is made.
#[derive(Debug, Clone, PartialEq, Eq)]
pub struct HeapPixels2D {
    pixels: Vec<Pixel>,
    width: usize,
    height: usize,
}

impl HeapPixels2D {
    /// A `width` by `height` grid filled with `fill`.
    pub fn new(width: usize, height: usize, fill: Pixel) -> (s: HeapPixels2D)
        requires
            width * height <= usize::MAX,
        ensures
            s.spec_width() == width,
            s.spec_height() == height,
            s.cells() == Seq::new((width * height) as nat, |i: int| fill),
            buffer_wf(s),
    {
        let n = width * height;
        let mut pixels: Vec<Pixel> = Vec::with_capacity(n);
        let mut i: usize = 0;
        while i < n
            invariant
                i <= n,
                pixels@ == Seq::new(i as nat, |j: int| fill),
            decreases n - i,
        {
            pixels.push(fill);
            i = i + 1;
            assert(pixels@ =~= Seq::new(i as nat, |j: int| fill));
        }
        HeapPixels2D { pixels, width, height }
    }
}

impl Pixels2D for HeapPixels2D {
    closed spec fn spec_width(&self) -> usize {
        self.width
    }

    closed spec fn spec_height(&self) -> usize {
        self.height
    }

    closed spec fn cells(&self) -> Seq<Pixel> {
        self.pixels@
    }

    fn width(&self) -> (r: usize) {
        self.width
    }

    fn height(&self) -> (r: usize) {
        self.height
    }

    fn pixels(&self) -> (r: &[Pixel]) {
        self.pixels.as_slice()
    }

    fn pixels_mut(&mut self) -> (r: &mut [Pixel]) {
        self.pixels.as_mut_slice()
    }
}

} // verus!
