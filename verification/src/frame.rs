//! The frame buffer's layout: pixels in rows, row after row.
use vstd::prelude::*;

verus! {

/// The size of an image in pixels.
#[derive(Clone, Copy, Debug, PartialEq, Eq, Structural)]
pub struct Frame {
    pub width: usize,
    pub height: usize,
}

impl Frame {
    /// The number of pixels fits the machine's index type.
    pub open spec fn wf(&self) -> bool {
        self.width * self.height <= usize::MAX
    }

    /// The number of pixels.
    pub open spec fn area(&self) -> int {
        self.width * self.height
    }

    /// Pixel `(x, y)` lies in the frame.
    pub open spec fn holds(&self, x: usize, y: usize) -> bool {
        x < self.width && y < self.height
    }

    /// The place of pixel `(x, y)` in the buffer.
    pub open spec fn spec_index(&self, x: usize, y: usize) -> int {
        x + y * self.width
    }

    /// A frame of the given size, or `None` where the number of its pixels
    /// does not fit the machine's index type.
    pub fn new(width: usize, height: usize) -> (r: Option<Frame>)
        ensures
            match r {
                Some(frame) => frame == (Frame { width, height }) && frame.wf(),
                None => width * height > usize::MAX,
            },
    {
        match width.checked_mul(height) {
            Some(_) => Some(Frame { width, height }),
            None => None,
        }
    }

    /// The number of pixels, which is the length of the buffer.
    pub fn len(&self) -> (r: usize)
        requires
            self.wf(),
        ensures
            r == self.area(),
    {
        self.width * self.height
    }

    /// The place of pixel `(x, y)` in the buffer: rows follow one another,
    /// and within a row the pixels go from left to right.
    pub fn index(&self, x: usize, y: usize) -> (r: usize)
        requires
            self.wf(),
            self.holds(x, y),
        ensures
            r == self.spec_index(x, y),
            r < self.area(),
    {
        proof {
            index_in_area(*self, x, y);
            assert(y * self.width >= 0) by (nonlinear_arith);
        }
        x + y * self.width
    }

    /// The pixel at place `i` of the buffer, as column and row.
    pub fn position(&self, i: usize) -> (r: (usize, usize))
        requires
            self.wf(),
            i < self.area(),
        ensures
            r == (i % self.width, i / self.width),
            self.holds(r.0, r.1),
            self.spec_index(r.0, r.1) == i,
    {
        proof {
            assert(self.width > 0) by (nonlinear_arith)
                requires
                    i < self.width * self.height,
            ;
            let w = self.width as int;
            let h = self.height as int;
            let n = i as int;
            assert(n == w * (n / w) + n % w && 0 <= n % w < w) by {
                vstd::arithmetic::div_mod::lemma_fundamental_div_mod(n, w);
                vstd::arithmetic::div_mod::lemma_mod_bound(n, w);
            }
            assert(n / w < h) by (nonlinear_arith)
                requires
                    n == w * (n / w) + n % w,
                    0 <= n % w,
                    n < w * h,
                    w > 0,
            ;
            assert((n / w) * w == w * (n / w)) by (nonlinear_arith);
        }
        (i % self.width, i / self.width)
    }
}

/// A pixel of the frame has its place inside the buffer.
pub proof fn index_in_area(frame: Frame, x: usize, y: usize)
    requires
        frame.holds(x, y),
    ensures
        0 <= frame.spec_index(x, y) < frame.area(),
{
    let w = frame.width as int;
    let h = frame.height as int;
    let yi = y as int;
    assert(yi * w + w <= h * w) by (nonlinear_arith)
        requires
            yi + 1 <= h,
            w >= 0,
    ;
    assert(yi * w >= 0) by (nonlinear_arith)
        requires
            yi >= 0,
            w >= 0,
    ;
    assert(h * w == w * h) by (nonlinear_arith);
}

/// No two pixels of the frame share a place in the buffer, so writers of
/// different pixels never write the same place.
pub proof fn index_is_injective(frame: Frame, x1: usize, y1: usize, x2: usize, y2: usize)
    requires
        frame.holds(x1, y1),
        frame.holds(x2, y2),
        frame.spec_index(x1, y1) == frame.spec_index(x2, y2),
    ensures
        x1 == x2,
        y1 == y2,
{
    let w = frame.width as int;
    let a = y1 as int;
    let b = y2 as int;
    if a < b {
        assert(a * w + w <= b * w) by (nonlinear_arith)
            requires
                a + 1 <= b,
                w >= 0,
        ;
    } else if b < a {
        assert(b * w + w <= a * w) by (nonlinear_arith)
            requires
                b + 1 <= a,
                w >= 0,
        ;
    }
}

} // verus!
