use vstd::prelude::*;
use crate::consts::Tile;
use crate::coords::Coord;
use crate::coordset::CoordSet;

verus! {

/// A counter for the foursquare rule: no 2x2 box on the board may be fully
/// populated by tiles. One count per 2x2 anchor (its top-left corner).
#[derive(Clone, Copy, Debug)]
pub struct FoursquareCounter(pub [[u8; 9]; 9]);

impl FoursquareCounter {
    /// The count stored for the anchor at the given position.
    pub open spec fn spec_count(self, r: int, c: int) -> int {
        self.0@[r]@[c] as int
    }

    /// Whether the 2x2 anchored at (ar, ac) contains the cell (r, c).
    pub open spec fn anchor_covers(ar: int, ac: int, r: int, c: int) -> bool {
        ar <= r <= ar + 1 && ac <= c <= ac + 1
    }

    /// Whether the cell at (r, c) would complete some 2x2 that already
    /// holds three tiles.
    pub open spec fn spec_three_at(self, r: int, c: int) -> bool {
        exists|ar: int, ac: int|
            0 <= ar < 9 && 0 <= ac < 9 && #[trigger] FoursquareCounter::anchor_covers(ar, ac, r, c)
                && self.spec_count(ar, ac) == 3
    }

    /// Determines how many tiles are in the foursquare anchored (top-left)
    /// at the given coordinate.
    pub fn count(&self, coord: &Coord) -> (r: u8)
        requires
            coord.row < 9,
            coord.col < 9,
        ensures
            r as int == self.spec_count(coord.row as int, coord.col as int),
    {
        self.0[coord.row][coord.col]
    }

    /// Increments the given counter in place.
    pub fn incr_inplace(&mut self, coord: &Coord)
        requires
            coord.row < 9,
            coord.col < 9,
            old(self).spec_count(coord.row as int, coord.col as int) < 255,
        ensures
            forall|a: int, b: int|
                0 <= a < 9 && 0 <= b < 9 ==> #[trigger] final(self).spec_count(a, b) == if a
                    == coord.row && b == coord.col {
                    old(self).spec_count(a, b) + 1
                } else {
                    old(self).spec_count(a, b)
                },
    {
        let mut row = self.0[coord.row];
        row[coord.col] = row[coord.col] + 1;
        self.0[coord.row] = row;
    }

    /// Decrements the given counter in place.
    pub fn decr_inplace(&mut self, coord: &Coord)
        requires
            coord.row < 9,
            coord.col < 9,
            old(self).spec_count(coord.row as int, coord.col as int) > 0,
        ensures
            forall|a: int, b: int|
                0 <= a < 9 && 0 <= b < 9 ==> #[trigger] final(self).spec_count(a, b) == if a
                    == coord.row && b == coord.col {
                    old(self).spec_count(a, b) - 1
                } else {
                    old(self).spec_count(a, b)
                },
    {
        let mut row = self.0[coord.row];
        row[coord.col] = row[coord.col] - 1;
        self.0[coord.row] = row;
    }

    /// Updates the population count of every foursquare touching a cell:
    /// up when a tile arrives on the cell, down when one leaves.
    pub fn update_unchecked(&mut self, coord: &Coord, tile: Option<Tile>)
        requires
            coord.spec_in_bounds(),
            forall|a: int, b: int|
                0 <= a < 9 && 0 <= b < 9 && FoursquareCounter::anchor_covers(
                    a,
                    b,
                    coord.row as int,
                    coord.col as int,
                ) ==> (if tile is Some {
                    #[trigger] old(self).spec_count(a, b) < 255
                } else {
                    old(self).spec_count(a, b) > 0
                }),
        ensures
            forall|a: int, b: int|
                0 <= a < 9 && 0 <= b < 9 ==> #[trigger] final(self).spec_count(a, b) == if
                    FoursquareCounter::anchor_covers(a, b, coord.row as int, coord.col as int) {
                    old(self).spec_count(a, b) + (if tile is Some {
                        1int
                    } else {
                        -1int
                    })
                } else {
                    old(self).spec_count(a, b)
                },
    {
        let incr = tile.is_some();
        let ghost s0 = *self;
        if coord.row >= 1 && coord.col >= 1 {
            self.bump(coord.row - 1, coord.col - 1, incr);
        }
        let ghost s1 = *self;
        if coord.row >= 1 && coord.col < 9 {
            self.bump(coord.row - 1, coord.col, incr);
        }
        let ghost s2 = *self;
        if coord.row < 9 && coord.col >= 1 {
            self.bump(coord.row, coord.col - 1, incr);
        }
        let ghost s3 = *self;
        if coord.row < 9 && coord.col < 9 {
            self.bump(coord.row, coord.col, incr);
        }
        proof {
            let delta: int = if incr {
                1
            } else {
                -1
            };
            let cr = coord.row as int;
            let cc = coord.col as int;
            assert forall|a: int, b: int| 0 <= a < 9 && 0 <= b < 9 implies #[trigger] self.spec_count(
                a,
                b,
            ) == if FoursquareCounter::anchor_covers(a, b, cr, cc) {
                old(self).spec_count(a, b) + delta
            } else {
                old(self).spec_count(a, b)
            } by {
                assert(s1.spec_count(a, b) == if a == cr - 1 && b == cc - 1 && cr >= 1 && cc >= 1 {
                    s0.spec_count(a, b) + delta
                } else {
                    s0.spec_count(a, b)
                });
                assert(s2.spec_count(a, b) == if a == cr - 1 && b == cc && cr >= 1 && cc < 9 {
                    s1.spec_count(a, b) + delta
                } else {
                    s1.spec_count(a, b)
                });
                assert(s3.spec_count(a, b) == if a == cr && b == cc - 1 && cr < 9 && cc >= 1 {
                    s2.spec_count(a, b) + delta
                } else {
                    s2.spec_count(a, b)
                });
                assert(self.spec_count(a, b) == if a == cr && b == cc && cr < 9 && cc < 9 {
                    s3.spec_count(a, b) + delta
                } else {
                    s3.spec_count(a, b)
                });
            }
        }
    }

    /// Adjusts one anchor's count by one.
    fn bump(&mut self, r: usize, c: usize, incr: bool)
        requires
            r < 9,
            c < 9,
            incr ==> old(self).spec_count(r as int, c as int) < 255,
            !incr ==> old(self).spec_count(r as int, c as int) > 0,
        ensures
            forall|a: int, b: int|
                0 <= a < 9 && 0 <= b < 9 ==> #[trigger] final(self).spec_count(a, b) == if a
                    == r && b == c {
                    old(self).spec_count(a, b) + (if incr {
                        1int
                    } else {
                        -1int
                    })
                } else {
                    old(self).spec_count(a, b)
                },
    {
        let mut row = self.0[r];
        if incr {
            row[c] = row[c] + 1;
        } else {
            row[c] = row[c] - 1;
        }
        self.0[r] = row;
    }

    /// Determines if placing a tile on the given cell would complete a 2x2:
    /// some foursquare containing the cell already holds three tiles.
    pub fn three(&self, coord: &Coord) -> (r: bool)
        requires
            coord.spec_in_bounds(),
        ensures
            r == self.spec_three_at(coord.row as int, coord.col as int),
    {
        self.check_for(coord, 3)
    }

    /// Whether some in-bounds foursquare containing the given cell holds
    /// exactly `v` tiles.
    fn check_for(&self, coord: &Coord, v: u8) -> (r: bool)
        requires
            coord.spec_in_bounds(),
        ensures
            r == exists|ar: int, ac: int|
                0 <= ar < 9 && 0 <= ac < 9 && #[trigger] FoursquareCounter::anchor_covers(
                    ar,
                    ac,
                    coord.row as int,
                    coord.col as int,
                ) && self.spec_count(ar, ac) == v as int,
    {
        let mut found = false;
        let mut d: usize = 0;
        while d < 4
            invariant
                d <= 4,
                coord.spec_in_bounds(),
                found <==> exists|ar: int, ac: int|
                    0 <= ar < 9 && 0 <= ac < 9 && #[trigger] FoursquareCounter::anchor_covers(
                        ar,
                        ac,
                        coord.row as int,
                        coord.col as int,
                    ) && self.spec_count(ar, ac) == v as int && (ar - coord.row) * 2 + (ac
                        - coord.col) + 3 < d,
            decreases 4 - d,
        {
            // the candidate anchors containing (r, c) are (r-1, c-1), (r-1, c), (r, c-1), (r, c)
            let dr: usize = d / 2;  // 1 when the anchor row is the cell's own row
            let dc: usize = d % 2;
            if coord.row + dr >= 1 && coord.col + dc >= 1 {
                let ar = coord.row + dr - 1;
                let ac = coord.col + dc - 1;
                if ar < 9 && ac < 9 {
                    if self.0[ar][ac] == v {
                        found = true;
                        proof {
                            assert(FoursquareCounter::anchor_covers(
                                ar as int,
                                ac as int,
                                coord.row as int,
                                coord.col as int,
                            ));
                        }
                    }
                }
            }
            proof {
                assert forall|ar: int, ac: int|
                    0 <= ar < 9 && 0 <= ac < 9 && #[trigger] FoursquareCounter::anchor_covers(
                        ar,
                        ac,
                        coord.row as int,
                        coord.col as int,
                    ) && self.spec_count(ar, ac) == v as int && (ar - coord.row) * 2 + (ac
                        - coord.col) + 3 < d + 1 implies found by {
                    if (ar - coord.row) * 2 + (ac - coord.col) + 3 < d {
                    } else {
                        assert(ar == coord.row + d / 2 - 1 && ac == coord.col + d % 2 - 1);
                    }
                }
            }
            d = d + 1;
        }
        proof {
            if !found {
                assert forall|ar: int, ac: int|
                    !(0 <= ar < 9 && 0 <= ac < 9 && #[trigger] FoursquareCounter::anchor_covers(
                        ar,
                        ac,
                        coord.row as int,
                        coord.col as int,
                    ) && self.spec_count(ar, ac) == v as int) by {
                    if 0 <= ar < 9 && 0 <= ac < 9 && FoursquareCounter::anchor_covers(
                        ar,
                        ac,
                        coord.row as int,
                        coord.col as int,
                    ) {
                        assert((ar - coord.row) * 2 + (ac - coord.col) + 3 < 4);
                    }
                }
            }
        }
        found
    }

    /// Returns a CoordSet of all cells that lie in some 2x2 whose count is
    /// three or more: cells where placing a tile completes a foursquare,
    /// plus the already-covered cells of those squares.
    pub fn protected_cells(&self) -> (r: CoordSet)
        ensures
            r.inv(),
            forall|v: int|
                #![trigger r.has(v)]
                r.has(v) <==> exists|ar: int, ac: int|
                    0 <= ar < 9 && 0 <= ac < 9 && #[trigger] FoursquareCounter::anchor_covers(
                        ar,
                        ac,
                        v / 10,
                        v % 10,
                    ) && 0 <= v < 100 && self.spec_count(ar, ac) >= 3,
    {
        let mut r = CoordSet::empty();
        let mut a: usize = 0;
        while a < 9
            invariant
                a <= 9,
                r.inv(),
                forall|v: int|
                    #![trigger r.has(v)]
                    r.has(v) <==> exists|ar: int, ac: int|
                        0 <= ar < a && 0 <= ac < 9 && #[trigger] FoursquareCounter::anchor_covers(
                            ar,
                            ac,
                            v / 10,
                            v % 10,
                        ) && 0 <= v < 100 && self.spec_count(ar, ac) >= 3,
            decreases 9 - a,
        {
            let mut b: usize = 0;
            while b < 9
                invariant
                    a < 9,
                    b <= 9,
                    r.inv(),
                    forall|v: int|
                        #![trigger r.has(v)]
                        r.has(v) <==> exists|ar: int, ac: int|
                            (0 <= ar < a && 0 <= ac < 9 || ar == a && 0 <= ac < b)
                                && #[trigger] FoursquareCounter::anchor_covers(ar, ac, v / 10, v % 10)
                                && 0 <= v < 100 && self.spec_count(ar, ac) >= 3,
                decreases 9 - b,
            {
                if self.0[a][b] >= 3 {
                    r.insert(&Coord { row: a, col: b });
                    r.insert(&Coord { row: a, col: b + 1 });
                    r.insert(&Coord { row: a + 1, col: b });
                    r.insert(&Coord { row: a + 1, col: b + 1 });
                    proof {
                        assert forall|v: int| #[trigger]
                            r.has(v) <==> exists|ar: int, ac: int|
                                (0 <= ar < a && 0 <= ac < 9 || ar == a && 0 <= ac < b + 1)
                                    && #[trigger] FoursquareCounter::anchor_covers(
                                    ar,
                                    ac,
                                    v / 10,
                                    v % 10,
                                ) && 0 <= v < 100 && self.spec_count(ar, ac) >= 3 by {
                            let cell0 = a * 10 + b;
                            if v == cell0 || v == cell0 + 1 || v == cell0 + 10 || v == cell0 + 11 {
                                assert(FoursquareCounter::anchor_covers(
                                    a as int,
                                    b as int,
                                    v / 10,
                                    v % 10,
                                ));
                            }
                        }
                    }
                } else {
                    proof {
                        assert forall|v: int| #[trigger]
                            r.has(v) <==> exists|ar: int, ac: int|
                                (0 <= ar < a && 0 <= ac < 9 || ar == a && 0 <= ac < b + 1)
                                    && #[trigger] FoursquareCounter::anchor_covers(
                                    ar,
                                    ac,
                                    v / 10,
                                    v % 10,
                                ) && 0 <= v < 100 && self.spec_count(ar, ac) >= 3 by {
                        }
                    }
                }
                b = b + 1;
            }
            a = a + 1;
        }
        r
    }
}

impl Default for FoursquareCounter {
    /// All counts start at zero.
    fn default() -> (r: FoursquareCounter)
        ensures
            forall|a: int, b: int| 0 <= a < 9 && 0 <= b < 9 ==> #[trigger] r.spec_count(a, b) == 0,
    {
        FoursquareCounter([[0; 9]; 9])
    }
}

/// Checks if placing a piece would violate the foursquare rule: the piece
/// touches a protected cell.
pub fn violates(piece_coords: &CoordSet, protected: &CoordSet) -> (r: bool)
    requires
        piece_coords.inv(),
        protected.inv(),
    ensures
        r == exists|v: int| protected.has(v) && #[trigger] piece_coords.has(v),
{
    protected.intersects(piece_coords)
}

} // verus!
