//! Axis-aligned bounds, and the pixels within two-dimensional integer bounds.
use vstd::prelude::*;

use super::point::Point2;
use vstd::arithmetic::div_mod::lemma_fundamental_div_mod_converse;

verus! {

/// Two-dimensional bounds.
#[derive(Copy, Clone, Debug)]
pub struct Bounds2<T> {
    /// The minimum extent of the bounds.
    pub p_min: Point2<T>,
    /// The maximum extent of the bounds.
    pub p_max: Point2<T>,
}

/// The number of columns of pixel bounds.
pub open spec fn width(bb: Bounds2<u16>) -> int {
    bb.p_max.x - bb.p_min.x
}

/// The number of rows of pixel bounds.
pub open spec fn height(bb: Bounds2<u16>) -> int {
    bb.p_max.y - bb.p_min.y
}

/// The `k`th pixel of the bounds, counting row by row from `p_min`.
pub open spec fn pixel_at(bb: Bounds2<u16>, k: int) -> Point2<u16> {
    Point2 {
        x: (bb.p_min.x + k % width(bb)) as u16,
        y: (bb.p_min.y + k / width(bb)) as u16,
    }
}

/// A row-by-row iterator over the [Point2]s in a `Bounds2`.
/// Starts from `p_min` and excludes the upper bounds.
pub struct Bounds2IntoIter<T> {
    bb: Bounds2<T>,
    curr: Point2<T>,
}

impl Bounds2IntoIter<u16> {
    /// The bounds being walked.
    pub closed spec fn bounds(&self) -> Bounds2<u16> {
        self.bb
    }

    /// How many pixels have been handed out.
    pub closed spec fn index(&self) -> int {
        (self.curr.y - self.bb.p_min.y) * width(self.bb) + (self.curr.x - self.bb.p_min.x)
    }

    /// The bounds are not empty, and the next pixel lies within them, or
    /// at the start of the row past them once all are handed out.
    pub closed spec fn wf(&self) -> bool {
        &&& self.bb.p_min.x < self.bb.p_max.x
        &&& self.bb.p_min.y < self.bb.p_max.y
        &&& self.bb.p_min.x <= self.curr.x < self.bb.p_max.x
        &&& self.bb.p_min.y <= self.curr.y <= self.bb.p_max.y
        &&& self.curr.y == self.bb.p_max.y ==> self.curr.x == self.bb.p_min.x
    }

    proof fn lemma_index(&self)
        requires
            self.wf(),
        ensures
            0 <= self.index() <= width(self.bb) * height(self.bb),
            self.index() < width(self.bb) * height(self.bb) <==> self.curr.y < self.bb.p_max.y,
            self.curr.y < self.bb.p_max.y ==> pixel_at(self.bb, self.index()) == self.curr,
    {
        let w = width(self.bb);
        let h = height(self.bb);
        let row = self.curr.y - self.bb.p_min.y;
        let col = self.curr.x - self.bb.p_min.x;
        assert(0 <= row * w) by (nonlinear_arith)
            requires
                0 <= row,
                0 < w,
        ;
        if self.curr.y < self.bb.p_max.y {
            assert(row * w + col < w * h) by (nonlinear_arith)
                requires
                    0 <= row < h,
                    0 <= col < w,
            ;
            lemma_fundamental_div_mod_converse(self.index(), w, row, col);
        } else {
            assert(row * w == w * h) by (nonlinear_arith)
                requires
                    row == h,
            ;
        }
    }

    /// Returns the next pixel, or `None` once all pixels have been handed out.
    pub fn next(&mut self) -> (r: Option<Point2<u16>>)
        requires
            old(self).wf(),
        ensures
            final(self).wf(),
            final(self).bounds() == old(self).bounds(),
            old(self).index() < width(old(self).bounds()) * height(old(self).bounds()) ==> {
                &&& r == Some(pixel_at(old(self).bounds(), old(self).index()))
                &&& final(self).index() == old(self).index() + 1
            },
            old(self).index() >= width(old(self).bounds()) * height(old(self).bounds()) ==> {
                &&& r is None
                &&& final(self).index() == old(self).index()
            },
    {
        proof {
            self.lemma_index();
        }
        let ghost w = width(self.bb);
        let ghost row = self.curr.y - self.bb.p_min.y;
        let ret = if self.curr.y >= self.bb.p_max.y {
            None
        } else {
            Some(self.curr)
        };
        if ret.is_some() {
            self.curr.x = self.curr.x + 1;
            if self.curr.x >= self.bb.p_max.x {
                self.curr.x = self.bb.p_min.x;
                self.curr.y = self.curr.y + 1;
                proof {
                    assert((row + 1) * w == row * w + w) by (nonlinear_arith);
                }
            }
        }
        ret
    }
}

impl Bounds2<u16> {
    /// The number of pixels in these bounds.
    pub fn area(&self) -> (r: u16)
        requires
            self.p_min.x <= self.p_max.x,
            self.p_min.y <= self.p_max.y,
            width(*self) * height(*self) <= u16::MAX,
        ensures
            r == width(*self) * height(*self),
    {
        let dx = self.p_max.x - self.p_min.x;
        let dy = self.p_max.y - self.p_min.y;
        dx * dy
    }

    /// The axis along which these bounds are longest: 0 for x, 1 for y
    /// (also when they are as long).
    pub fn maximum_extent(&self) -> (r: usize)
        requires
            self.p_min.x <= self.p_max.x,
            self.p_min.y <= self.p_max.y,
        ensures
            r == if width(*self) > height(*self) {
                0usize
            } else {
                1usize
            },
    {
        let dx = self.p_max.x - self.p_min.x;
        let dy = self.p_max.y - self.p_min.y;
        if dx > dy {
            0
        } else {
            1
        }
    }

    /// A row-by-row iterator over the pixels in these bounds, from `p_min`
    /// up to but excluding `p_max`. The bounds must not be empty.
    pub fn into_iter(self) -> (r: Bounds2IntoIter<u16>)
        requires
            self.p_min.x < self.p_max.x,
            self.p_min.y < self.p_max.y,
        ensures
            r.wf(),
            r.bounds() == self,
            r.index() == 0,
    {
        Bounds2IntoIter { bb: self, curr: self.p_min }
    }
}

/// The pixels handed out are those of the bounds, each exactly once: the
/// `k`th pixel, for `k` below the number of pixels, lies within the bounds,
/// and each pixel within the bounds is the `k`th for one `k`, its offset in
/// row-by-row order.
pub proof fn lemma_pixels_of_bounds(bb: Bounds2<u16>, k: int, x: u16, y: u16)
    requires
        bb.p_min.x < bb.p_max.x,
        bb.p_min.y < bb.p_max.y,
    ensures
        0 <= k < width(bb) * height(bb) ==> {
            &&& bb.p_min.x <= pixel_at(bb, k).x < bb.p_max.x
            &&& bb.p_min.y <= pixel_at(bb, k).y < bb.p_max.y
        },
        bb.p_min.x <= x < bb.p_max.x && bb.p_min.y <= y < bb.p_max.y ==> {
            let j = (y - bb.p_min.y) * width(bb) + (x - bb.p_min.x);
            &&& 0 <= j < width(bb) * height(bb)
            &&& pixel_at(bb, j) == Point2 { x, y }
            &&& (0 <= k < width(bb) * height(bb) && pixel_at(bb, k) == Point2 { x, y }) ==> k == j
        },
{
    let w = width(bb);
    let h = height(bb);
    if 0 <= k < w * h {
        let q = k / w;
        let r = k % w;
        vstd::arithmetic::div_mod::lemma_fundamental_div_mod(k, w);
        assert(0 <= r < w);
        assert(0 <= q < h) by (nonlinear_arith)
            requires
                k == w * q + r,
                0 <= r < w,
                0 <= k < w * h,
                0 < w,
        ;
    }
    if bb.p_min.x <= x < bb.p_max.x && bb.p_min.y <= y < bb.p_max.y {
        let row = y - bb.p_min.y;
        let col = x - bb.p_min.x;
        let j = row * w + col;
        assert(0 <= j < w * h) by (nonlinear_arith)
            requires
                0 <= row < h,
                0 <= col < w,
                j == row * w + col,
        ;
        lemma_fundamental_div_mod_converse(j, w, row, col);
        if 0 <= k < w * h && pixel_at(bb, k) == (Point2 { x, y }) {
            vstd::arithmetic::div_mod::lemma_fundamental_div_mod(k, w);
            let q = k / w;
            let r = k % w;
            assert(0 <= q < h) by (nonlinear_arith)
                requires
                    k == w * q + r,
                    0 <= r < w,
                    0 <= k < w * h,
                    0 < w,
            ;
            assert(r == col);
            assert(q == row);
            assert(k == j) by (nonlinear_arith)
                requires
                    k == w * q + r,
                    r == col,
                    q == row,
                    j == row * w + col,
            ;
        }
    }
}

} // verus!
