//! An image as rows of pixels, indexed by row.
use vstd::prelude::*;
use vstd::slice::slice_subrange;

verus! {

/// A rectangle of pixels, stored row after row.
pub struct Image<P> {
    width: usize,
    pixels: Vec<P>,
}

impl<P> Image<P> {
    /// The length of a row.
    pub closed spec fn spec_width(&self) -> nat {
        self.width as nat
    }

    /// All pixels, row after row.
    pub closed spec fn spec_pixels(&self) -> Seq<P> {
        self.pixels@
    }

    /// The number of rows.
    pub open spec fn spec_height(&self) -> nat {
        self.spec_pixels().len() / self.spec_width()
    }

    /// The pixels of one row.
    pub open spec fn spec_row(&self, row: int) -> Seq<P> {
        self.spec_pixels().subrange(row * self.spec_width(), (row + 1) * self.spec_width())
    }

    /// The pixels fill whole rows. Every image that `new` makes is so, and
    /// indexing keeps it so.
    pub open spec fn whole_rows(&self) -> bool {
        if self.spec_width() == 0 {
            self.spec_pixels().len() == 0
        } else {
            self.spec_pixels().len() % self.spec_width() == 0
        }
    }
}

/// A row that lies below the height of an image lies within its pixels.
proof fn lemma_row_within(len: nat, width: nat, row: nat)
    requires
        width > 0,
        len % width == 0,
        row < len / width,
    ensures
        row * width + width <= len,
        (row + 1) * width == row * width + width,
{
    assert(len == width * (len / width)) by (nonlinear_arith)
        requires
            width > 0,
            len % width == 0,
    ;
    assert((row + 1) * width <= (len / width) * width) by (nonlinear_arith)
        requires
            row + 1 <= len / width,
    ;
    assert((row + 1) * width == row * width + width) by (nonlinear_arith);
    assert((len / width) * width == width * (len / width)) by (nonlinear_arith);
}

impl<P> core::ops::Index<usize> for Image<P> {
    type Output = [P];

    /// The pixels of row `row`.
    fn index(&self, row: usize) -> (r: &[P])
        ensures
            r@ == self.spec_row(row as int),
    {
        proof {
            lemma_row_within(self.spec_pixels().len(), self.spec_width(), row as nat);
        }
        let len = self.pixels.len();
        assert(row * self.width + self.width <= len);
        let start = row * self.width;
        slice_subrange(self.pixels.as_slice(), start, start + self.width)
    }
}

impl<P> vstd::std_specs::core::IndexSpecImpl<usize> for Image<P> {
    open spec fn index_req(&self, row: &usize) -> bool {
        self.whole_rows() && self.spec_width() > 0 && *row < self.spec_height()
    }
}

impl<P> core::ops::IndexMut<usize> for Image<P> {
    /// The pixels of row `row`, to be changed in place.
    fn index_mut(&mut self, row: usize) -> (r: &mut [P])
        requires
            old(self).whole_rows(),
            old(self).spec_width() > 0,
            row < old(self).spec_height(),
        ensures
            r@ == old(self).spec_row(row as int),
            final(self).spec_width() == old(self).spec_width(),
            final(self).spec_pixels() == old(self).spec_pixels().subrange(
                0,
                row * old(self).spec_width(),
            ) + final(r)@ + old(self).spec_pixels().subrange(
                (row + 1) * old(self).spec_width(),
                old(self).spec_pixels().len() as int,
            ),
    {
        proof {
            lemma_row_within(self.spec_pixels().len(), self.spec_width(), row as nat);
        }
        let len = self.pixels.len();
        assert(row * self.width + self.width <= len);
        let start = row * self.width;
        let width = self.width;
        let (_, tail) = self.pixels.as_mut_slice().split_at_mut(start);
        let (r, _) = tail.split_at_mut(width);
        r
    }
}

impl<P> Image<P> {
    /// All pixels, row after row.
    pub fn pixels(&self) -> (pixels: &[P])
        ensures
            pixels@ == self.spec_pixels(),
    {
        self.pixels.as_slice()
    }
}

impl<P> Image<P> where P: Clone + Default {
    /// An image of `height` rows of `width` pixels, each the default
    /// pixel.
    pub fn new(width: usize, height: usize) -> (image: Self)
        requires
            width * height <= usize::MAX,
        ensures
            image.whole_rows(),
            image.spec_width() == width,
            image.spec_pixels().len() == width * height,
            forall|i: int|
                0 <= i < width * height ==> call_ensures(
                    P::default,
                    (),
                    #[trigger] image.spec_pixels()[i],
                ),
    {
        let count = width * height;
        let mut pixels: Vec<P> = Vec::new();
        let mut i: usize = 0;
        while i < count
            invariant
                i <= count,
                pixels@.len() == i,
                forall|k: int| 0 <= k < i ==> call_ensures(P::default, (), #[trigger] pixels@[k]),
            decreases count - i,
        {
            pixels.push(P::default());
            i = i + 1;
        }
        proof {
            if width > 0 {
                assert((width * height) % (width as int) == 0) by (nonlinear_arith)
                    requires
                        width > 0,
                ;
            } else {
                assert(width * height == 0);
            }
        }
        Self { width, pixels }
    }

    /// The length of a row.
    pub fn width(&self) -> (w: usize)
        ensures
            w == self.spec_width(),
    {
        self.width
    }

    /// The number of rows.
    pub fn height(&self) -> (h: usize)
        requires
            self.spec_width() > 0,
        ensures
            h == self.spec_height(),
    {
        self.pixels.len() / self.width
    }
}

} // verus!
