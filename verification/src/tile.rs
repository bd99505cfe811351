//! The tile partition of the image.
//!
//! The scheduler splits the image into horizontal strips before any worker
//! starts: every tile but the last takes `height / num_tiles` rows, the
//! last takes the rest. The strips cover every row exactly once, which is
//! what lets each worker write its tile's rows into the shared pixel buffer
//! with no synchronization: two different tiles never own the same row.

use vstd::arithmetic::div_mod::lemma_fundamental_div_mod;
use vstd::arithmetic::mul::lemma_mul_inequality;
use vstd::prelude::*;

verus! {

/// One unit of work: a horizontal strip of image rows, full width.
#[derive(Clone, Copy)]
pub struct Tile {
    pub start_row: usize,
    pub end_row: usize,
    pub width: usize,
}

impl Tile {
    /// The rows this tile owns: `start_row` inclusive to `end_row`
    /// exclusive.
    pub open spec fn contains_row(self, row: int) -> bool {
        self.start_row <= row < self.end_row
    }
}

/// A well-formed tiling of `height` image rows at width `width`: tiles in
/// row order, each beginning where the one before it ended, together
/// spanning `0` to `height`.
pub open spec fn tiles_well_formed(tiles: Seq<Tile>, height: nat, width: nat) -> bool {
    &&& tiles.len() > 0
    &&& tiles[0].start_row == 0
    &&& tiles[tiles.len() - 1].end_row == height
    &&& forall|i: int|
        0 <= i < tiles.len() ==> (#[trigger] tiles[i]).start_row <= tiles[i].end_row
    &&& forall|i: int|
        0 <= i < tiles.len() - 1 ==> (#[trigger] tiles[i]).end_row == tiles[i + 1].start_row
    &&& forall|i: int| 0 <= i < tiles.len() ==> (#[trigger] tiles[i]).width == width
}

/// Cut the image into `num_tiles` horizontal strips: each of the first
/// `num_tiles - 1` takes `height / num_tiles` rows, the last runs to the
/// bottom of the image.
pub fn make_tiles(height: usize, width: usize, num_tiles: usize) -> (tiles: Vec<Tile>)
    requires
        num_tiles >= 1,
    ensures
        tiles@.len() == num_tiles,
        tiles_well_formed(tiles@, height as nat, width as nat),
        forall|i: int|
            0 <= i < num_tiles ==> (#[trigger] tiles@[i]).start_row == i * (
            height as int / num_tiles as int),
        forall|i: int|
            0 <= i < num_tiles ==> (#[trigger] tiles@[i]).end_row == if i == num_tiles - 1 {
                height as int
            } else {
                (i + 1) * (height as int / num_tiles as int)
            },
{
    let base: usize = height / num_tiles;
    let mut tiles: Vec<Tile> = Vec::new();
    let mut i: usize = 0;
    proof {
        lemma_fundamental_div_mod(height as int, num_tiles as int);
    }
    while i < num_tiles
        invariant
            num_tiles >= 1,
            base == height as int / num_tiles as int,
            num_tiles * base <= height,
            i <= num_tiles,
            tiles@.len() == i,
            forall|k: int| 0 <= k < i ==> (#[trigger] tiles@[k]).start_row == k * base,
            forall|k: int|
                0 <= k < i ==> (#[trigger] tiles@[k]).end_row == if k == num_tiles - 1 {
                    height as int
                } else {
                    (k + 1) * base
                },
            forall|k: int| 0 <= k < i ==> (#[trigger] tiles@[k]).width == width,
        decreases num_tiles - i,
    {
        proof {
            lemma_mul_inequality(i as int, num_tiles as int, base as int);
            lemma_mul_inequality(i + 1, num_tiles as int, base as int);
        }
        let start: usize = i * base;
        let end: usize = if i + 1 == num_tiles {
            height
        } else {
            (i + 1) * base
        };
        tiles.push(Tile { start_row: start, end_row: end, width });
        i = i + 1;
    }
    proof {
        assert forall|k: int|
            0 <= k < num_tiles implies (#[trigger] tiles@[k]).start_row
            <= tiles@[k].end_row by {
            lemma_mul_inequality(k, k + 1, base as int);
            lemma_mul_inequality(k, num_tiles as int, base as int);
        }
        assert(tiles@[0].start_row == 0 * (base as int));
    }
    tiles
}

/// In a well-formed tiling an earlier tile ends no later than a later tile
/// begins.
pub proof fn lemma_tiles_ordered(tiles: Seq<Tile>, height: nat, width: nat, i: int, j: int)
    requires
        tiles_well_formed(tiles, height, width),
        0 <= i < j < tiles.len(),
    ensures
        tiles[i].end_row <= tiles[j].start_row,
    decreases j - i,
{
    if i + 1 < j {
        lemma_tiles_ordered(tiles, height, width, i, j - 1);
    }
}

/// Every tile of a well-formed tiling stays within the image rows.
pub proof fn lemma_tile_within_image(tiles: Seq<Tile>, height: nat, width: nat, i: int)
    requires
        tiles_well_formed(tiles, height, width),
        0 <= i < tiles.len(),
    ensures
        0 <= tiles[i].start_row,
        tiles[i].end_row <= height,
{
    if i < tiles.len() - 1 {
        lemma_tiles_ordered(tiles, height, width, i, tiles.len() - 1);
    }
}

/// The tile partition invariant: each image row lies in exactly one tile of
/// a well-formed tiling — no gaps, no overlaps. This is also what makes the
/// workers' pixel writes race-free: two different tiles own no row in
/// common.
pub proof fn lemma_tiles_partition_rows(tiles: Seq<Tile>, height: nat, width: nat, row: int)
    requires
        tiles_well_formed(tiles, height, width),
        0 <= row < height,
    ensures
        exists|i: int| 0 <= i < tiles.len() && (#[trigger] tiles[i]).contains_row(row),
        forall|i: int, j: int|
            0 <= i < tiles.len() && 0 <= j < tiles.len() && (#[trigger] tiles[i]).contains_row(row)
                && (#[trigger] tiles[j]).contains_row(row) ==> i == j,
    decreases tiles.len(),
{
    let n = tiles.len() as int;
    let last = tiles[n - 1];
    if row >= last.start_row {
        assert(last.contains_row(row));
        assert(0 <= n - 1 < tiles.len() && tiles[n - 1].contains_row(row));
    } else {
        assert(n >= 2) by {
            if n == 1 {
                assert(last.start_row == 0);
            }
        }
        let prefix = tiles.drop_last();
        assert(tiles_well_formed(prefix, last.start_row as nat, width)) by {
            assert(prefix[prefix.len() - 1] == tiles[n - 2]);
            assert(tiles[n - 2].end_row == tiles[n - 1].start_row);
            assert(forall|i: int| 0 <= i < prefix.len() ==> prefix[i] == tiles[i]);
        }
        lemma_tiles_partition_rows(prefix, last.start_row as nat, width, row);
        let w = choose|i: int| 0 <= i < prefix.len() && (#[trigger] prefix[i]).contains_row(row);
        assert(0 <= w < tiles.len() && tiles[w].contains_row(row));
    }
    assert forall|i: int, j: int|
        0 <= i < tiles.len() && 0 <= j < tiles.len() && (#[trigger] tiles[i]).contains_row(row)
            && (#[trigger] tiles[j]).contains_row(row) implies i == j by {
        if i < j {
            lemma_tiles_ordered(tiles, height, width, i, j);
        } else if j < i {
            lemma_tiles_ordered(tiles, height, width, j, i);
        }
    }
}

} // verus!
