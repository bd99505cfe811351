//! The shared pixel buffer: a flat row-major array of packed pixel words,
//! one per pixel, cleared to a sentinel word before rendering starts.
//! Workers fill it tile by tile; the tile partition guarantees their row
//! ranges never meet.

use vstd::arithmetic::mul::lemma_mul_inequality;
use vstd::prelude::*;

use crate::tile::Tile;

verus! {

/// The word every pixel starts as: a sentinel with only the low byte set,
/// so an unrendered pixel stands out in the output.
pub const CLEAR_COLOR: u32 = 0x0000_00ff;

/// A `width` by `height` image of packed pixel words, stored row-major with
/// the top row first.
pub struct PixelBuffer {
    width: usize,
    height: usize,
    pixels: Vec<u32>,
}

impl PixelBuffer {
    /// The image as the flat sequence of its pixel words.
    pub closed spec fn view(&self) -> Seq<u32> {
        self.pixels@
    }

    pub closed spec fn spec_width(&self) -> usize {
        self.width
    }

    pub closed spec fn spec_height(&self) -> usize {
        self.height
    }

    /// The buffer holds exactly one word per pixel.
    pub open spec fn wf(&self) -> bool {
        self.view().len() == self.spec_width() * self.spec_height()
    }

    /// Where pixel `(x, y)` lives in the flat array.
    pub open spec fn spec_index(&self, x: int, y: int) -> int {
        y * self.spec_width() + x
    }

    /// A fresh image, every pixel the sentinel.
    pub fn new(width: usize, height: usize) -> (r: PixelBuffer)
        requires
            width * height <= usize::MAX,
        ensures
            r.wf(),
            r.spec_width() == width,
            r.spec_height() == height,
            r.view().len() == width * height,
            forall|k: int| 0 <= k < r.view().len() ==> r.view()[k] == CLEAR_COLOR,
    {
        let total: usize = width * height;
        let mut pixels: Vec<u32> = Vec::new();
        let mut k: usize = 0;
        while k < total
            invariant
                k <= total,
                pixels@.len() == k,
                forall|j: int| 0 <= j < k ==> pixels@[j] == CLEAR_COLOR,
            decreases total - k,
        {
            pixels.push(CLEAR_COLOR);
            k = k + 1;
        }
        PixelBuffer { width, height, pixels }
    }

    pub fn width(&self) -> (w: usize)
        ensures
            w == self.spec_width(),
    {
        self.width
    }

    pub fn height(&self) -> (h: usize)
        ensures
            h == self.spec_height(),
    {
        self.height
    }

    /// A pixel coordinate's flat index stays inside the buffer.
    proof fn lemma_index_in_bounds(&self, x: int, y: int)
        requires
            self.wf(),
            0 <= x < self.spec_width(),
            0 <= y < self.spec_height(),
        ensures
            0 <= self.spec_index(x, y) < self.view().len(),
    {
        lemma_mul_inequality(y + 1, self.spec_height() as int, self.spec_width() as int);
        vstd::arithmetic::mul::lemma_mul_is_distributive_add_other_way(
            self.spec_width() as int,
            y,
            1,
        );
        vstd::arithmetic::mul::lemma_mul_is_commutative(
            self.spec_height() as int,
            self.spec_width() as int,
        );
    }

    /// Write one pixel; every other pixel keeps its word.
    pub fn set_pixel(&mut self, x: usize, y: usize, word: u32)
        requires
            old(self).wf(),
            x < old(self).spec_width(),
            y < old(self).spec_height(),
        ensures
            final(self).wf(),
            final(self).spec_width() == old(self).spec_width(),
            final(self).spec_height() == old(self).spec_height(),
            final(self).view() == old(self).view().update(
                old(self).spec_index(x as int, y as int),
                word,
            ),
    {
        proof {
            self.lemma_index_in_bounds(x as int, y as int);
        }
        let n: usize = self.pixels.len();
        assert(y * self.spec_width() + x < n);
        let k: usize = y * self.width + x;
        self.pixels.set(k, word);
    }

    /// Read one pixel.
    pub fn get_pixel(&self, x: usize, y: usize) -> (word: u32)
        requires
            self.wf(),
            x < self.spec_width(),
            y < self.spec_height(),
        ensures
            word == self.view()[self.spec_index(x as int, y as int)],
    {
        proof {
            self.lemma_index_in_bounds(x as int, y as int);
        }
        let n: usize = self.pixels.len();
        assert(y * self.spec_width() + x < n);
        let k: usize = y * self.width + x;
        self.pixels[k]
    }

    /// Write one rendered tile: `words` holds the tile's pixels row-major,
    /// top row first, and lands exactly on the tile's own rows — in the
    /// flat array, the contiguous region from `start_row * width` to
    /// `end_row * width`. Every pixel outside the tile's rows keeps its
    /// word, which is why tiles with disjoint row ranges can be merged in
    /// any order.
    pub fn blit_tile(&mut self, tile: &Tile, words: &Vec<u32>)
        requires
            old(self).wf(),
            tile.width == old(self).spec_width(),
            tile.start_row <= tile.end_row,
            tile.end_row <= old(self).spec_height(),
            words@.len() == (tile.end_row - tile.start_row) * tile.width,
        ensures
            final(self).wf(),
            final(self).spec_width() == old(self).spec_width(),
            final(self).spec_height() == old(self).spec_height(),
            final(self).view().len() == old(self).view().len(),
            forall|j: int|
                0 <= j < words@.len() ==> final(self).view()[tile.start_row * tile.width + j]
                    == words@[j],
            forall|k: int|
                0 <= k < old(self).view().len() && !(tile.start_row * tile.width <= k
                    < tile.start_row * tile.width + words@.len()) ==> final(self).view()[k]
                    == old(self).view()[k],
    {
        let ghost orig = self.view();
        let ghost orig_width = self.spec_width();
        let ghost orig_height = self.spec_height();
        let n: usize = self.pixels.len();
        proof {
            lemma_mul_inequality(
                tile.start_row as int,
                tile.end_row as int,
                tile.width as int,
            );
            lemma_mul_inequality(
                tile.end_row as int,
                self.spec_height() as int,
                tile.width as int,
            );
            vstd::arithmetic::mul::lemma_mul_is_commutative(
                self.spec_height() as int,
                self.spec_width() as int,
            );
            vstd::arithmetic::mul::lemma_mul_is_distributive_sub_other_way(
                tile.width as int,
                tile.end_row as int,
                tile.start_row as int,
            );
        }
        let base: usize = tile.start_row * tile.width;
        let mut j: usize = 0;
        while j < words.len()
            invariant
                self.wf(),
                self.spec_width() == orig_width,
                self.spec_height() == orig_height,
                self.spec_width() == tile.width,
                base == tile.start_row * tile.width,
                base + words@.len() <= n,
                n == self.view().len(),
                self.view().len() == orig.len(),
                j <= words@.len(),
                forall|i: int| 0 <= i < j ==> self.view()[base + i] == words@[i],
                forall|k: int|
                    0 <= k < orig.len() && !(base <= k < base + words@.len())
                        ==> self.view()[k] == orig[k],
            decreases words@.len() - j,
        {
            self.pixels.set(base + j, words[j]);
            j = j + 1;
        }
    }

    /// Where pixel `(x, y)` of a blitted tile sits: at the row-major offset
    /// `(y - start_row) * width + x` within the tile's words, which is
    /// inside them — so `blit_tile` lands every pixel of the tile at its
    /// place in the image.
    pub proof fn lemma_tile_pixel_offset(tile: Tile, x: int, y: int)
        requires
            0 <= x < tile.width,
            tile.start_row <= y < tile.end_row,
        ensures
            y * tile.width + x == tile.start_row * tile.width + ((y - tile.start_row)
                * tile.width + x),
            0 <= (y - tile.start_row) * tile.width + x < (tile.end_row - tile.start_row)
                * tile.width,
    {
        let w = tile.width as int;
        let s = tile.start_row as int;
        vstd::arithmetic::mul::lemma_mul_is_distributive_sub_other_way(w, y, s);
        vstd::arithmetic::mul::lemma_mul_is_distributive_sub_other_way(
            w,
            tile.end_row as int,
            s,
        );
        vstd::arithmetic::mul::lemma_mul_is_distributive_sub_other_way(
            w,
            tile.end_row as int - s,
            1,
        );
        lemma_mul_inequality(y - s, tile.end_row as int - s - 1, w);
        lemma_mul_inequality(0, y - s, w);
    }

    /// The finished image as one flat row-major array, for the image
    /// writer.
    pub fn as_words(&self) -> (words: &Vec<u32>)
        ensures
            words@ == self.view(),
    {
        &self.pixels
    }
}

} // verus!
