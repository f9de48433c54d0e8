use vstd::prelude::*;

verus! {

/// Rows given to every tile but the last, which also takes the remainder.
pub open spec fn rows_per_tile(height: int, tiles: int) -> int {
    height / tiles
}

/// First row of tile `id`.
pub open spec fn tile_start(height: int, tiles: int, id: int) -> int {
    id * rows_per_tile(height, tiles)
}

/// One past the last row of tile `id`.
pub open spec fn tile_end(height: int, tiles: int, id: int) -> int {
    if id == tiles - 1 {
        height
    } else {
        tile_start(height, tiles, id) + rows_per_tile(height, tiles)
    }
}

/// Row `row` is rendered by tile `id`.
pub open spec fn in_tile(height: int, tiles: int, id: int, row: int) -> bool {
    tile_start(height, tiles, id) <= row < tile_end(height, tiles, id)
}

/// Some tile renders row `row`.
pub open spec fn row_covered(height: int, tiles: int, row: int) -> bool {
    exists|id: int| 0 <= id < tiles && #[trigger] in_tile(height, tiles, id, row)
}

/// The half-open row range `[start, end)` rendered by tile `tile_id` when an
/// image of `image_height` rows is cut into `num_tiles` tiles: every tile gets
/// `image_height / num_tiles` rows and the last one also the remainder.
pub fn tile_rows(image_height: u32, num_tiles: usize, tile_id: usize) -> (r: (usize, usize))
    requires
        0 < num_tiles,
        tile_id < num_tiles,
    ensures
        r.0 == tile_start(image_height as int, num_tiles as int, tile_id as int),
        r.1 == tile_end(image_height as int, num_tiles as int, tile_id as int),
        r.0 <= r.1 <= image_height,
{
    let h: usize = image_height as usize;
    let rows: usize = h / num_tiles;
    proof {
        lemma_tile_bounds(image_height as int, num_tiles as int, tile_id as int);
    }
    let start: usize = tile_id * rows;
    let end: usize = if tile_id == num_tiles - 1 {
        h
    } else {
        start + rows
    };
    (start, end)
}

proof fn lemma_tile_bounds(height: int, tiles: int, id: int)
    requires
        0 <= height,
        0 < tiles,
        0 <= id < tiles,
    ensures
        0 <= tile_start(height, tiles, id),
        tile_start(height, tiles, id) + rows_per_tile(height, tiles) <= height,
        tile_start(height, tiles, id) <= tile_end(height, tiles, id) <= height,
{
    let q = height / tiles;
    assert(0 <= q);
    assert(tiles * q <= height) by (nonlinear_arith)
        requires q == height / tiles, tiles > 0, height >= 0;
    assert(id * q + q <= tiles * q) by (nonlinear_arith)
        requires id < tiles, q >= 0;
    assert(0 <= id * q) by (nonlinear_arith)
        requires id >= 0, q >= 0;
}

/// The tiles cut the rows `[0, image_height)` into consecutive ranges with no gap
/// and no overlap: the first starts at row 0, each ends where the next starts,
/// the last ends at the image height, and so every row lies in exactly one tile.
pub proof fn tiles_partition_rows(image_height: u32, num_tiles: usize)
    requires
        0 < num_tiles,
    ensures
        tile_start(image_height as int, num_tiles as int, 0) == 0,
        tile_end(image_height as int, num_tiles as int, num_tiles - 1) == image_height,
        forall|id: int|
            0 <= id < num_tiles - 1 ==> #[trigger] tile_end(image_height as int, num_tiles as int, id)
                == tile_start(image_height as int, num_tiles as int, id + 1),
        forall|id: int|
            0 <= id < num_tiles ==> tile_start(image_height as int, num_tiles as int, id)
                <= #[trigger] tile_end(image_height as int, num_tiles as int, id),
        forall|row: int, id1: int, id2: int|
            0 <= id1 < num_tiles && 0 <= id2 < num_tiles
                && #[trigger] in_tile(image_height as int, num_tiles as int, id1, row)
                && #[trigger] in_tile(image_height as int, num_tiles as int, id2, row) ==> id1 == id2,
        forall|row: int|
            0 <= row < image_height ==> #[trigger] row_covered(image_height as int, num_tiles as int, row),
{
    let h = image_height as int;
    let n = num_tiles as int;
    let q = h / n;
    assert(0 * q == 0);
    assert forall|id: int| 0 <= id < n - 1 implies #[trigger] tile_end(h, n, id) == tile_start(h, n, id + 1) by {
        assert(id * q + q == (id + 1) * q) by (nonlinear_arith);
    }
    assert forall|id: int| 0 <= id < n implies tile_start(h, n, id) <= #[trigger] tile_end(h, n, id) by {
        lemma_tile_bounds(h, n, id);
    }
    assert forall|row: int, id1: int, id2: int|
        0 <= id1 < n && 0 <= id2 < n && #[trigger] in_tile(h, n, id1, row) && #[trigger] in_tile(h, n, id2, row)
        implies id1 == id2 by {
        if id1 < id2 {
            lemma_tile_end_before(h, n, id1, id2);
        } else if id2 < id1 {
            lemma_tile_end_before(h, n, id2, id1);
        }
    }
    assert forall|row: int| 0 <= row < h implies #[trigger] row_covered(h, n, row) by {
        let id = tile_of_row(h, n, row);
        assert(in_tile(h, n, id, row));
    }
}

/// The tile that renders row `row`.
proof fn tile_of_row(height: int, tiles: int, row: int) -> (id: int)
    requires
        0 < tiles,
        0 <= row < height,
    ensures
        0 <= id < tiles,
        in_tile(height, tiles, id, row),
{
    let q = height / tiles;
    lemma_tile_bounds(height, tiles, tiles - 1);
    if q == 0 {
        assert((tiles - 1) * q == 0) by (nonlinear_arith) requires q == 0;
        tiles - 1
    } else {
        let k = row / q;
        assert(q * k <= row < q * k + q) by (nonlinear_arith)
            requires k == row / q, q > 0, row >= 0;
        if k >= tiles - 1 {
            assert((tiles - 1) * q <= k * q) by (nonlinear_arith) requires k >= tiles - 1, q > 0;
            tiles - 1
        } else {
            assert(0 <= k) by (nonlinear_arith) requires k == row / q, q > 0, row >= 0;
            assert(k * q == q * k);
            k
        }
    }
}

proof fn lemma_tile_end_before(height: int, tiles: int, a: int, b: int)
    requires
        0 <= height,
        0 < tiles,
        0 <= a < b < tiles,
    ensures
        tile_end(height, tiles, a) <= tile_start(height, tiles, b),
{
    let q = height / tiles;
    assert(0 <= q);
    assert(a * q + q <= b * q) by (nonlinear_arith)
        requires a < b, q >= 0;
}

/// Caps how many tile workers are alive at once: `outstanding` workers are
/// running, and a new one may start only while fewer than `limit` are.
pub struct ConcurrencyGate {
    outstanding: usize,
    limit: usize,
}

impl ConcurrencyGate {
    pub closed spec fn outstanding_spec(&self) -> nat {
        self.outstanding as nat
    }

    pub closed spec fn limit_spec(&self) -> nat {
        self.limit as nat
    }

    /// At most `limit` workers run at any time, and the limit is positive.
    pub closed spec fn wf(&self) -> bool {
        0 < self.limit && self.outstanding <= self.limit
    }

    /// A gate with no worker running that admits up to `limit` at once.
    pub fn new(limit: usize) -> (r: Self)
        requires
            0 < limit,
        ensures
            r.wf(),
            r.outstanding_spec() <= r.limit_spec(),
            r.outstanding_spec() == 0,
            r.limit_spec() == limit,
    {
        ConcurrencyGate { outstanding: 0, limit }
    }

    /// Number of workers currently running.
    pub fn outstanding(&self) -> (r: usize)
        ensures
            r == self.outstanding_spec(),
    {
        self.outstanding
    }

    /// Whether one more worker may start now.
    pub fn can_start(&self) -> (r: bool)
        ensures
            r == (self.outstanding_spec() < self.limit_spec()),
    {
        self.outstanding < self.limit
    }

    /// Admits one more worker if the limit allows it; returns whether it did.
    pub fn try_start(&mut self) -> (r: bool)
        requires
            old(self).wf(),
        ensures
            final(self).wf(),
            final(self).outstanding_spec() <= final(self).limit_spec(),
            final(self).limit_spec() == old(self).limit_spec(),
            r == (old(self).outstanding_spec() < old(self).limit_spec()),
            final(self).outstanding_spec() == if r {
                old(self).outstanding_spec() + 1
            } else {
                old(self).outstanding_spec()
            },
    {
        if self.outstanding < self.limit {
            self.outstanding = self.outstanding + 1;
            true
        } else {
            false
        }
    }

    /// Records that a running worker has finished and released its slot.
    pub fn finish(&mut self)
        requires
            old(self).wf(),
            old(self).outstanding_spec() > 0,
        ensures
            final(self).wf(),
            final(self).outstanding_spec() <= final(self).limit_spec(),
            final(self).limit_spec() == old(self).limit_spec(),
            final(self).outstanding_spec() == old(self).outstanding_spec() - 1,
    {
        self.outstanding = self.outstanding - 1;
    }
}

} // verus!
