use vstd::prelude::*;
use crate::board::{b2i, Board};
use crate::board_lemmas::anchor_hits;
use crate::consts::{Player, NULL_MOVE, NUM_PIECES};
use crate::coords::Coord;
use crate::foursquare::FoursquareCounter;
use crate::tetromino::Tetromino;

verus! {

impl<'a> Board<'a> {
    /// What covering one cell gains the coverer: the negated perspective of
    /// the cell's symbol, since covering a symbol scores for the opponent
    /// of its owner.
    pub open spec fn spec_cover_gain(self, v: int) -> int {
        match self.cells.cell(v).symbol {
            Some(p) => -p.spec_perspective(),
            None => 0,
        }
    }

    /// The coverage gain of a placement: the sum of the gains of its four
    /// cells.
    pub open spec fn spec_coverage(self, t: Tetromino) -> int {
        self.spec_cover_gain(t.real_coords@[0].spec_lin()) + self.spec_cover_gain(
            t.real_coords@[1].spec_lin(),
        ) + self.spec_cover_gain(t.real_coords@[2].spec_lin()) + self.spec_cover_gain(
            t.real_coords@[3].spec_lin(),
        )
    }

    /// Whether, once the placement's four cells are counted in, some 2x2
    /// containing the cell `v` holds exactly three tiles.
    pub open spec fn spec_three_after(self, t: Tetromino, v: int) -> bool {
        exists|ar: int, ac: int|
            0 <= ar < 9 && 0 <= ac < 9 && #[trigger] FoursquareCounter::anchor_covers(
                ar,
                ac,
                v / 10,
                v % 10,
            ) && self.foursquare_mask.spec_count(ar, ac) + anchor_hits(t, ar, ac) == 3
    }

    /// What the cell `v` adds to the protection gain of a placement: an
    /// uncovered neighbouring symbol scores for its owner when the
    /// placement would leave it one tile short of a full 2x2.
    pub open spec fn spec_protect_gain(self, t: Tetromino, v: int) -> int {
        if t.spec_neighbour(v) && self.cells.cell(v).tile is None {
            match self.cells.cell(v).symbol {
                Some(p) => p.spec_perspective() * b2i(self.spec_three_after(t, v)),
                None => 0,
            }
        } else {
            0
        }
    }

    /// The protection gain of a placement over the first `n` cells.
    pub open spec fn spec_protection_upto(self, t: Tetromino, n: int) -> int
        decreases n,
    {
        if n <= 0 {
            0
        } else {
            self.spec_protection_upto(t, n - 1) + self.spec_protect_gain(t, n - 1)
        }
    }

    /// The protection gain of a placement over the whole board.
    pub open spec fn spec_protection(self, t: Tetromino) -> int {
        self.spec_protection_upto(t, 100)
    }

    /// The greedy evaluation of a move in the mover's perspective: what the
    /// placement covers plus what it protects. The swap is always noisy, to
    /// encourage exploring it.
    pub open spec fn spec_noise(self, m: int) -> int {
        if m == NULL_MOVE {
            6
        } else {
            (self.spec_coverage(self.piecemap.forward@[m]) + self.spec_protection(
                self.piecemap.forward@[m],
            )) * self.player_to_move.spec_perspective()
        }
    }

    /// Gets the greedy evaluation of this move: the difference in enemy vs.
    /// self symbols covered, plus the difference in self vs. enemy symbols
    /// protected by a three-quarters-full 2x2.
    pub fn noise(&self, mv: usize) -> (r: i16)
        requires
            self.wf(),
            mv == NULL_MOVE || mv < NUM_PIECES,
        ensures
            r as int == self.spec_noise(mv as int),
    {
        if mv == 1292 {
            return 6;
        }
        let t = *self.piecemap.get_piece(mv);
        proof {
            crate::board_lemmas::lemma_distinct_lins(t);
        }
        let c0 = t.real_coords[0].coerce();
        let c1 = t.real_coords[1].coerce();
        let c2 = t.real_coords[2].coerce();
        let c3 = t.real_coords[3].coerce();
        // covering a player's symbol scores for the opposite player
        let mut coverage: i16 = 0;
        coverage = coverage + cover_gain(self.cell_unchecked(&c0));
        coverage = coverage + cover_gain(self.cell_unchecked(&c1));
        coverage = coverage + cover_gain(self.cell_unchecked(&c2));
        coverage = coverage + cover_gain(self.cell_unchecked(&c3));
        proof {
            assert(coverage as int == self.spec_coverage(t));
        }
        // count the piece into a scratch copy of the foursquare counts
        proof {
            assert forall|a: int, b: int|
                0 <= a < 9 && 0 <= b < 9 implies #[trigger] self.foursquare_mask.spec_count(a, b)
                <= 4 by {
                assert(self.foursquare_mask.spec_count(a, b) == self.fs_cells(a, b));
            }
        }
        let mut fs = self.foursquare_mask;
        fs.update_unchecked(&c0, Some(t.kind));
        fs.update_unchecked(&c1, Some(t.kind));
        fs.update_unchecked(&c2, Some(t.kind));
        fs.update_unchecked(&c3, Some(t.kind));
        proof {
            assert forall|a: int, b: int| 0 <= a < 9 && 0 <= b < 9 implies #[trigger] fs.spec_count(
                a,
                b,
            ) == self.foursquare_mask.spec_count(a, b) + anchor_hits(t, a, b) by {}
        }
        // walk the piece's uncovered neighbouring symbols
        let nb = self.piecemap.neighbours(mv);
        let mut protection: i16 = 0;
        let mut v: usize = 0;
        while v < 100
            invariant
                self.wf(),
                mv < 1292,
                t == self.piecemap.forward@[mv as int],
                crate::piecemap::piece_ok(t),
                v <= 100,
                protection as int == self.spec_protection_upto(t, v as int),
                -(v as int) <= protection as int <= v as int,
                forall|w: int| #[trigger] nb.has(w) <==> t.spec_neighbour(w),
                forall|a: int, b: int|
                    0 <= a < 9 && 0 <= b < 9 ==> #[trigger] fs.spec_count(a, b)
                        == self.foursquare_mask.spec_count(a, b) + anchor_hits(t, a, b),
            decreases 100 - v,
        {
            let ghost before = protection as int;
            if nb.contains_lin(v) {
                let c = Coord::from_lin(v);
                proof {
                    vstd::arithmetic::div_mod::lemma_fundamental_div_mod_converse(
                        v as int,
                        10,
                        c.row as int,
                        c.col as int,
                    );
                }
                if self.lits_unchecked(&c).is_none() {
                    match self.cell_unchecked(&c) {
                        Some(p) => {
                            proof {
                                assert(fs.spec_three_at(c.row as int, c.col as int)
                                    == self.spec_three_after(t, v as int)) by {
                                    if fs.spec_three_at(c.row as int, c.col as int) {
                                        let (ar, ac) = choose|ar: int, ac: int|
                                            0 <= ar < 9 && 0 <= ac < 9
                                                && #[trigger] FoursquareCounter::anchor_covers(
                                                ar,
                                                ac,
                                                c.row as int,
                                                c.col as int,
                                            ) && fs.spec_count(ar, ac) == 3;
                                        assert(self.foursquare_mask.spec_count(ar, ac)
                                            + anchor_hits(t, ar, ac) == 3);
                                    }
                                    if self.spec_three_after(t, v as int) {
                                        let (ar, ac) = choose|ar: int, ac: int|
                                            0 <= ar < 9 && 0 <= ac < 9
                                                && #[trigger] FoursquareCounter::anchor_covers(
                                                ar,
                                                ac,
                                                v as int / 10,
                                                v as int % 10,
                                            ) && self.foursquare_mask.spec_count(ar, ac)
                                                + anchor_hits(t, ar, ac) == 3;
                                        assert(fs.spec_count(ar, ac) == 3);
                                    }
                                }
                            }
                            if fs.three(&c) {
                                match p {
                                    Player::X => {
                                        protection = protection + 1;
                                    },
                                    Player::O => {
                                        protection = protection - 1;
                                    },
                                }
                            }
                        },
                        None => (),
                    }
                }
            }
            proof {
                assert(protection as int == before + self.spec_protect_gain(t, v as int));
            }
            v = v + 1;
        }
        let total = coverage + protection;
        proof {
            assert(total as int == self.spec_coverage(t) + self.spec_protection(t));
        }
        let r = match self.player_to_move() {
            Player::X => total,
            Player::O => -total,
        };
        proof {
            let gain = self.spec_coverage(t) + self.spec_protection(t);
            let persp = self.player_to_move.spec_perspective();
            assert(r as int == gain * persp) by {
                if self.player_to_move == Player::X {
                    assert(gain * 1 == gain) by (nonlinear_arith);
                } else {
                    assert(gain * -1 == -gain) by (nonlinear_arith);
                }
            }
        }
        r
    }

    /// Picks the noisy moves: the legal moves that are greedy score swings
    /// for the current player, the swap sentinel included whenever the pie
    /// rule is available.
    pub fn noisy_moves(&self, moves: &mut Vec<usize>)
        requires
            self.wf(),
        ensures
            forall|k: int|
                0 <= k < old(moves)@.len() ==> #[trigger] final(moves)@[k] == old(moves)@[k],
            forall|k: int|
                old(moves)@.len() <= k < final(moves)@.len() ==> (self.legal_play(
                    #[trigger] final(moves)@[k] as int,
                ) && self.spec_noise(final(moves)@[k] as int) >= 3),
            forall|m: int|
                #![trigger self.legal_play(m)]
                self.legal_play(m) && (m == NULL_MOVE || self.spec_noise(m) >= 3) ==> exists|
                    k: int,
                |
                    old(moves)@.len() <= k < final(moves)@.len() && final(moves)@[k] == m,
            forall|k1: int, k2: int|
                old(moves)@.len() <= k1 < k2 < final(moves)@.len() ==> final(moves)@[k1]
                    < final(moves)@[k2],
    {
        self.compute_noisy_moves(moves);
    }

    /// Appends the noisy moves in ascending id order, the swap sentinel
    /// last when the pie rule is available.
    pub fn compute_noisy_moves(&self, moves: &mut Vec<usize>)
        requires
            self.wf(),
        ensures
            forall|k: int|
                0 <= k < old(moves)@.len() ==> #[trigger] final(moves)@[k] == old(moves)@[k],
            forall|k: int|
                old(moves)@.len() <= k < final(moves)@.len() ==> (self.legal_play(
                    #[trigger] final(moves)@[k] as int,
                ) && self.spec_noise(final(moves)@[k] as int) >= 3),
            forall|m: int|
                #![trigger self.legal_play(m)]
                self.legal_play(m) && (m == NULL_MOVE || self.spec_noise(m) >= 3) ==> exists|
                    k: int,
                |
                    old(moves)@.len() <= k < final(moves)@.len() && final(moves)@[k] == m,
            forall|k1: int, k2: int|
                old(moves)@.len() <= k1 < k2 < final(moves)@.len() ==> final(moves)@[k1]
                    < final(moves)@[k2],
    {
        let ghost base = moves@;
        let mut m: usize = 0;
        while m < 1292
            invariant
                self.wf(),
                m <= 1292,
                moves@.len() >= base.len(),
                forall|k: int| 0 <= k < base.len() ==> #[trigger] moves@[k] == base[k],
                forall|k: int|
                    base.len() <= k < moves@.len() ==> (#[trigger] moves@[k] < m && self.legal_play(
                        moves@[k] as int,
                    ) && self.spec_noise(moves@[k] as int) >= 3),
                forall|w: int|
                    0 <= w < m && #[trigger] self.legal_play(w) && self.spec_noise(w) >= 3
                        ==> exists|k: int| base.len() <= k < moves@.len() && moves@[k] == w,
                forall|k1: int, k2: int|
                    base.len() <= k1 < k2 < moves@.len() ==> moves@[k1] < moves@[k2],
            decreases 1292 - m,
        {
            let ghost prev = moves@;
            if self.is_legal_piece(m) && self.noise(m) >= 3 {
                moves.push(m);
            }
            proof {
                assert forall|w: int|
                    0 <= w < m + 1 && #[trigger] self.legal_play(w) && self.spec_noise(w)
                        >= 3 implies exists|k: int|
                    base.len() <= k < moves@.len() && moves@[k] == w by {
                    if w < m {
                        let k = choose|k: int| base.len() <= k < prev.len() && prev[k] == w;
                        assert(moves@[k] == w);
                    } else {
                        assert(moves@[moves@.len() - 1] == w);
                    }
                }
            }
            m = m + 1;
        }
        let ghost prev = moves@;
        if self.can_swap() {
            moves.push(1292);
        }
        proof {
            assert forall|w: int|
                #![trigger self.legal_play(w)]
                self.legal_play(w) && (w == NULL_MOVE || self.spec_noise(w) >= 3) implies exists|
                k: int,
            | base.len() <= k < moves@.len() && moves@[k] == w by {
                if w == NULL_MOVE {
                    assert(moves@[moves@.len() - 1] == w);
                } else {
                    assert(0 <= w < 1292);
                    let k = choose|k: int| base.len() <= k < prev.len() && prev[k] == w;
                    assert(moves@[k] == w);
                }
            }
        }
    }
}

/// The coverage gain of one cell from its symbol.
fn cover_gain(symbol: Option<Player>) -> (r: i16)
    ensures
        r as int == match symbol {
            Some(p) => -p.spec_perspective(),
            None => 0int,
        },
        -1 <= r <= 1,
{
    match symbol {
        Some(Player::X) => -1,
        Some(Player::O) => 1,
        None => 0,
    }
}

} // verus!
