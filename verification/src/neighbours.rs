use vstd::prelude::*;
use crate::consts::Tile;
use crate::coords::Coord;

verus! {

/// A per-cell reference counter: how many played tiles of each kind border
/// the cell, one three-bit-sized count per kind.
#[derive(Clone, Copy, Debug)]
pub struct LITSEdgeCount(pub [u8; 4]);

impl LITSEdgeCount {
    /// The count stored for a kind.
    pub open spec fn spec_count(self, t: Tile) -> int {
        self.0@[t.spec_index()] as int
    }

    /// Returns the count for the given tile at this cell.
    pub fn count(&self, tile: Tile) -> (r: u8)
        ensures
            r as int == self.spec_count(tile),
    {
        self.0[tile.index()]
    }

    /// Increments the given counter in place.
    pub fn incr_inplace(&mut self, tile: Tile)
        requires
            old(self).spec_count(tile) < 7,
        ensures
            forall|t: Tile|
                #[trigger] final(self).spec_count(t) == if t == tile {
                    old(self).spec_count(t) + 1
                } else {
                    old(self).spec_count(t)
                },
    {
        let i = tile.index();
        let v = self.0[i] + 1;
        self.update(tile, v);
    }

    /// Decrements the given counter in place.
    pub fn decr_inplace(&mut self, tile: Tile)
        requires
            old(self).spec_count(tile) > 0,
        ensures
            forall|t: Tile|
                #[trigger] final(self).spec_count(t) == if t == tile {
                    old(self).spec_count(t) - 1
                } else {
                    old(self).spec_count(t)
                },
    {
        let i = tile.index();
        let v = self.0[i] - 1;
        self.update(tile, v);
    }

    /// Stores a count for a kind.
    fn update(&mut self, tile: Tile, value: u8)
        ensures
            forall|t: Tile|
                #[trigger] final(self).spec_count(t) == if t == tile {
                    value as int
                } else {
                    old(self).spec_count(t)
                },
    {
        let i = tile.index();
        self.0[i] = value;
        proof {
            assert forall|t: Tile| #[trigger]
                final(self).spec_count(t) == if t == tile {
                    value as int
                } else {
                    old(self).spec_count(t)
                } by {
                if t != tile {
                    assert(t.spec_index() != tile.spec_index());
                }
            }
        }
    }
}

impl Default for LITSEdgeCount {
    /// All counts start at zero.
    fn default() -> (r: LITSEdgeCount)
        ensures
            forall|t: Tile| #[trigger] r.spec_count(t) == 0,
    {
        LITSEdgeCount([0; 4])
    }
}

/// An independently-copyable edge counter for a full board of LITS.
#[derive(Clone, Copy, Debug)]
pub struct EdgeCounter {
    pub counters: [[LITSEdgeCount; 10]; 10],
}

impl EdgeCounter {
    /// The per-kind count at a cell.
    pub open spec fn spec_count(self, r: int, c: int, t: Tile) -> int {
        self.counters@[r]@[c].spec_count(t)
    }

    /// Whether the cell (r, c) is an orthogonal neighbour of `coord`.
    pub open spec fn spec_adjacent(coord: Coord, r: int, c: int) -> bool {
        ||| (r == coord.row - 1 && c == coord.col)
        ||| (r == coord.row + 1 && c == coord.col)
        ||| (r == coord.row && c == coord.col - 1)
        ||| (r == coord.row && c == coord.col + 1)
    }

    /// Adjusts the count of one kind at one cell by one.
    fn bump(&mut self, r: usize, c: usize, t: Tile, incr: bool)
        requires
            r < 10,
            c < 10,
            incr ==> old(self).spec_count(r as int, c as int, t) < 7,
            !incr ==> old(self).spec_count(r as int, c as int, t) > 0,
        ensures
            forall|a: int, b: int, u: Tile|
                0 <= a < 10 && 0 <= b < 10 ==> #[trigger] final(self).spec_count(a, b, u) == if a
                    == r && b == c && u == t {
                    old(self).spec_count(a, b, u) + (if incr {
                        1int
                    } else {
                        -1int
                    })
                } else {
                    old(self).spec_count(a, b, u)
                },
    {
        let mut row = self.counters[r];
        if incr {
            row[c].incr_inplace(t);
        } else {
            row[c].decr_inplace(t);
        }
        self.counters[r] = row;
    }

    /// Updates the tile counts on the neighbours of a given cell: increments
    /// for the kind newly placed there, or decrements for the kind removed.
    pub fn update_unchecked(&mut self, coord: &Coord, tile: Option<Tile>, prev: Option<Tile>)
        requires
            coord.spec_in_bounds(),
            tile is Some || prev is Some,
            forall|r: int, c: int|
                0 <= r < 10 && 0 <= c < 10 && #[trigger] EdgeCounter::spec_adjacent(*coord, r, c)
                    ==> (if tile is Some {
                    old(self).spec_count(r, c, tile->0) < 7
                } else {
                    old(self).spec_count(r, c, prev->0) > 0
                }),
        ensures
            forall|r: int, c: int, t: Tile|
                0 <= r < 10 && 0 <= c < 10 ==> #[trigger] final(self).spec_count(r, c, t) == if
                    EdgeCounter::spec_adjacent(*coord, r, c) && t == (if tile is Some {
                    tile->0
                } else {
                    prev->0
                }) {
                    old(self).spec_count(r, c, t) + (if tile is Some {
                        1int
                    } else {
                        -1int
                    })
                } else {
                    old(self).spec_count(r, c, t)
                },
    {
        let (v, incr) = match tile {
            Some(t) => (t, true),
            None => (prev.unwrap(), false),
        };
        let ghost s0 = *self;
        if coord.row >= 1 {
            proof {
                assert(EdgeCounter::spec_adjacent(*coord, coord.row - 1, coord.col as int));
            }
            self.bump(coord.row - 1, coord.col, v, incr);
        }
        let ghost s1 = *self;
        if coord.col >= 1 {
            proof {
                assert(EdgeCounter::spec_adjacent(*coord, coord.row as int, coord.col - 1));
            }
            self.bump(coord.row, coord.col - 1, v, incr);
        }
        let ghost s2 = *self;
        if coord.col + 1 < 10 {
            proof {
                assert(EdgeCounter::spec_adjacent(*coord, coord.row as int, coord.col + 1));
            }
            self.bump(coord.row, coord.col + 1, v, incr);
        }
        let ghost s3 = *self;
        if coord.row + 1 < 10 {
            proof {
                assert(EdgeCounter::spec_adjacent(*coord, coord.row + 1, coord.col as int));
            }
            self.bump(coord.row + 1, coord.col, v, incr);
        }
        proof {
            let delta: int = if incr {
                1
            } else {
                -1
            };
            assert forall|r: int, c: int, t: Tile| 0 <= r < 10 && 0 <= c < 10 implies #[trigger] self.spec_count(
                r,
                c,
                t,
            ) == if EdgeCounter::spec_adjacent(*coord, r, c) && t == v {
                old(self).spec_count(r, c, t) + delta
            } else {
                old(self).spec_count(r, c, t)
            } by {
                assert(s1.spec_count(r, c, t) == if r == coord.row - 1 && c == coord.col && t == v
                    && coord.row >= 1 {
                    s0.spec_count(r, c, t) + delta
                } else {
                    s0.spec_count(r, c, t)
                });
                assert(s2.spec_count(r, c, t) == if r == coord.row && c == coord.col - 1 && t == v
                    && coord.col >= 1 {
                    s1.spec_count(r, c, t) + delta
                } else {
                    s1.spec_count(r, c, t)
                });
                assert(s3.spec_count(r, c, t) == if r == coord.row && c == coord.col + 1 && t == v
                    && coord.col + 1 < 10 {
                    s2.spec_count(r, c, t) + delta
                } else {
                    s2.spec_count(r, c, t)
                });
                assert(self.spec_count(r, c, t) == if r == coord.row + 1 && c == coord.col && t == v
                    && coord.row + 1 < 10 {
                    s3.spec_count(r, c, t) + delta
                } else {
                    s3.spec_count(r, c, t)
                });
            }
        }
    }
}

impl Default for EdgeCounter {
    /// All counts start at zero.
    fn default() -> (r: EdgeCounter)
        ensures
            forall|a: int, b: int, t: Tile|
                0 <= a < 10 && 0 <= b < 10 ==> #[trigger] r.spec_count(a, b, t) == 0,
    {
        EdgeCounter { counters: [[LITSEdgeCount([0; 4]); 10]; 10] }
    }
}

} // verus!
