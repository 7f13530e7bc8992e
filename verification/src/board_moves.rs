use vstd::prelude::*;
use crate::board::{b2i, count_kind_upto, lemma_cells_hash_pointwise, lemma_count_kind_bound,
    lemma_count_kind_push, lemma_moves_hash_insert, lemma_score_in_range, lemma_score_negated,
    lemma_score_pointwise, moves_hash_upto, spec_moves_hash, Board, Grid};
use crate::board_cell::BoardCell;
use crate::consts::{LitsError, Player, Tile, NUM_PIECES, NULL_MOVE};
use crate::coords::Coord;
use crate::foursquare::FoursquareCounter;
use crate::interaction::Interaction;
use crate::tetromino::Tetromino;
use crate::zobrist::spec_cell_hash;

verus! {

impl<'a> Board<'a> {
    /// Covers one cell with a tile of the given kind; engine use only.
    /// Adjusts the incremental score and the foursquare counts.
    fn set_lits_unchecked(&mut self, coord: &Coord, lits: Tile)
        requires
            coord.spec_in_bounds(),
            old(self).cells.cell(coord.spec_lin()).tile is None,
            -30000 < old(self).score < 30000,
            forall|a: int, b: int|
                0 <= a < 9 && 0 <= b < 9 && FoursquareCounter::anchor_covers(
                    a,
                    b,
                    coord.row as int,
                    coord.col as int,
                ) ==> #[trigger] old(self).foursquare_mask.spec_count(a, b) < 255,
        ensures
            forall|w: int|
                0 <= w < 100 && w != coord.spec_lin() ==> #[trigger] final(self).cells.cell(w)
                    == old(self).cells.cell(w),
            final(self).cells.cell(coord.spec_lin()) == (BoardCell {
                symbol: old(self).cells.cell(coord.spec_lin()).symbol,
                tile: Some(lits),
            }),
            final(self).score as int == old(self).score - old(self).cells.cell(
                coord.spec_lin(),
            ).spec_contribution(),
            forall|a: int, b: int|
                0 <= a < 9 && 0 <= b < 9 ==> #[trigger] final(self).foursquare_mask.spec_count(a, b)
                    == if FoursquareCounter::anchor_covers(a, b, coord.row as int, coord.col as int) {
                    old(self).foursquare_mask.spec_count(a, b) + 1
                } else {
                    old(self).foursquare_mask.spec_count(a, b)
                },
            final(self).cover == old(self).cover,
            final(self).protected == old(self).protected,
            final(self).neighbours == old(self).neighbours,
            final(self).history == old(self).history,
            final(self).played == old(self).played,
            final(self).piece_bag == old(self).piece_bag,
            final(self).piecemap == old(self).piecemap,
            final(self).player_to_move == old(self).player_to_move,
            final(self).swapped == old(self).swapped,
            final(self).zobrist_hash == old(self).zobrist_hash,
            final(self).edge_mask == old(self).edge_mask,
    {
        proof {
            crate::board::lemma_cell_at(self.cells, coord.row as int, coord.col as int);
        }
        let mut row = self.cells.0[coord.row];
        let prev = row[coord.col];
        row[coord.col] = prev.with_lits(Some(lits));
        self.cells.0[coord.row] = row;
        proof {
            assert forall|w: int|
                0 <= w < 100 && w != coord.spec_lin() implies #[trigger] self.cells.cell(w) == old(
                self,
            ).cells.cell(w) by {
                if w / 10 != coord.row as int {
                    assert(self.cells.0@[w / 10] == old(self).cells.0@[w / 10]);
                } else {
                    assert(w % 10 != coord.col as int) by {
                        vstd::arithmetic::div_mod::lemma_fundamental_div_mod(w, 10);
                        vstd::arithmetic::div_mod::lemma_fundamental_div_mod(coord.spec_lin(), 10);
                    }
                }
            }
            crate::board::lemma_cell_at(self.cells, coord.row as int, coord.col as int);
        }
        // the newly covered cell's symbol stops counting for the score
        match prev.cell_value() {
            Some(Player::X) => {
                self.score = self.score - 1;
            },
            Some(Player::O) => {
                self.score = self.score + 1;
            },
            None => (),
        }
        self.foursquare_mask.update_unchecked(coord, Some(lits));
    }

    /// Plays a piece onto the board with no legality check; engine use only.
    pub fn play_unchecked_engine(&mut self, mv: usize)
        requires
            old(self).wf(),
            old(self).legal_play(mv as int),
            mv != NULL_MOVE,
        ensures
            final(self).wf(),
            final(self).history@ == old(self).history@.push(mv),
            final(self).swapped == old(self).swapped,
            final(self).piecemap == old(self).piecemap,
            forall|v: int|
                0 <= v < 100 ==> (#[trigger] final(self).cells.cell(v)).symbol == old(
                    self,
                ).cells.cell(v).symbol,
    {
        proof {
            assert(mv < NUM_PIECES);
        }
        let t = *self.piecemap.get_piece(mv);
        let ghost pre = *self;
        proof {
            crate::board_lemmas::lemma_legal_play_facts(*self, mv as int);
            lemma_score_in_range(self.cells, 100);
        }
        // take the piece out of the bag
        let kind_idx = t.kind.index();
        proof {
            lemma_count_kind_bound(*self.piecemap, self.history@, t.kind, self.hlen());
            if self.hlen() >= 2 {
                assert(self.piece_bag@[t.kind.spec_index()] > 0);
            } else {
                assert(count_kind_upto(*self.piecemap, self.history@, t.kind, self.hlen())
                    <= self.hlen());
            }
        }
        self.piece_bag[kind_idx] = self.piece_bag[kind_idx] - 1;
        // cover the four cells
        let c0 = t.real_coords[0].coerce();
        let c1 = t.real_coords[1].coerce();
        let c2 = t.real_coords[2].coerce();
        let c3 = t.real_coords[3].coerce();
        let ghost g0 = self.cells;
        proof {
            crate::board_lemmas::lemma_distinct_lins(t);
            assert(t.covers(t.real_coords@[0].spec_lin()) && t.covers(t.real_coords@[1].spec_lin())
                && t.covers(t.real_coords@[2].spec_lin()) && t.covers(
                t.real_coords@[3].spec_lin(),
            ));
            assert forall|a: int, b: int| 0 <= a < 9 && 0 <= b < 9 implies #[trigger] pre.foursquare_mask.spec_count(
                a,
                b,
            ) <= 4 by {
                assert(pre.foursquare_mask.spec_count(a, b) == pre.fs_cells(a, b));
            }
        }
        self.set_lits_unchecked(&c0, t.kind);
        let ghost g1 = self.cells;
        self.set_lits_unchecked(&c1, t.kind);
        let ghost g2 = self.cells;
        self.set_lits_unchecked(&c2, t.kind);
        let ghost g3 = self.cells;
        self.set_lits_unchecked(&c3, t.kind);
        let ghost g4 = self.cells;
        self.cover.insert(&c0);
        self.cover.insert(&c1);
        self.cover.insert(&c2);
        self.cover.insert(&c3);
        // fold the piece's surroundings into the neighbour set
        let pm = self.piecemap;
        self.neighbours.union_inplace(pm.neighbours(mv));
        self.neighbours.difference_inplace(&self.cover);
        // refresh the protected cells from the foursquare counts
        self.protected = self.foursquare_mask.protected_cells();
        // record the move
        self.zobrist_hash = self.zobrist_hash ^ crate::zobrist::move_hash(mv);
        self.history.push(mv);
        self.played.insert(mv);
        self.player_to_move = self.player_to_move.neg();
        proof {
            crate::board_wf::lemma_play_wf(pre, *self, mv as int, t, g0, g1, g2, g3);
            assert(self.wf());
        }
    }

    /// Implements the swap: negates every symbol on the board and hands the
    /// turn back; engine use only.
    pub fn pass_unchecked_engine(&mut self)
        requires
            old(self).wf(),
            old(self).hlen() >= 1,
        ensures
            final(self).wf(),
            forall|v: int|
                0 <= v < 100 ==> #[trigger] final(self).cells.cell(v) == old(self).cells.cell(
                    v,
                ).spec_negated(),
            final(self).score as int == -old(self).score as int,
            final(self).swapped == !old(self).swapped,
            final(self).player_to_move == old(self).player_to_move.spec_neg(),
            final(self).history == old(self).history,
            final(self).played == old(self).played,
            final(self).cover == old(self).cover,
            final(self).protected == old(self).protected,
            final(self).neighbours == old(self).neighbours,
            final(self).foursquare_mask == old(self).foursquare_mask,
            final(self).piece_bag == old(self).piece_bag,
            final(self).piecemap == old(self).piecemap,
            final(self).edge_mask == old(self).edge_mask,
    {
        proof {
            lemma_score_in_range(self.cells, 100);
        }
        let old_cells_hash = crate::board::initial_zobrist_hash(&self.cells);
        let mut v: usize = 0;
        while v < 100
            invariant
                v <= 100,
                forall|w: int|
                    0 <= w < v ==> #[trigger] self.cells.cell(w) == old(self).cells.cell(
                        w,
                    ).spec_negated(),
                forall|w: int|
                    v <= w < 100 ==> #[trigger] self.cells.cell(w) == old(self).cells.cell(w),
                self.cover == old(self).cover,
                self.history == old(self).history,
                self.played == old(self).played,
                self.protected == old(self).protected,
                self.neighbours == old(self).neighbours,
                self.foursquare_mask == old(self).foursquare_mask,
                self.piece_bag == old(self).piece_bag,
                self.piecemap == old(self).piecemap,
                self.edge_mask == old(self).edge_mask,
                self.score == old(self).score,
                self.swapped == old(self).swapped,
                self.player_to_move == old(self).player_to_move,
                self.zobrist_hash == old(self).zobrist_hash,
            decreases 100 - v,
        {
            let r = v / 10;
            let c = v % 10;
            proof {
                crate::board::lemma_cell_at(self.cells, r as int, c as int);
            }
            let ghost gprev = self.cells;
            let mut row = self.cells.0[r];
            row[c] = row[c].negated();
            self.cells.0[r] = row;
            proof {
                crate::board::lemma_cell_at(self.cells, r as int, c as int);
                assert forall|w: int| 0 <= w < 100 && w != v implies #[trigger] self.cells.cell(w)
                    == gprev.cell(w) by {
                    if w / 10 != r as int {
                        assert(self.cells.0@[w / 10] == gprev.0@[w / 10]);
                    } else {
                        assert(w % 10 != c as int) by {
                            vstd::arithmetic::div_mod::lemma_fundamental_div_mod(w, 10);
                        }
                    }
                }
                assert(self.cells.cell(v as int) == gprev.cell(v as int).spec_negated()) by {
                    crate::board::lemma_cell_at(gprev, r as int, c as int);
                }
            }
            v = v + 1;
        }
        let new_cells_hash = crate::board::initial_zobrist_hash(&self.cells);
        self.zobrist_hash = new_cells_hash ^ (self.zobrist_hash ^ old_cells_hash);
        self.score = -self.score;
        self.swapped = !self.swapped;
        self.player_to_move = self.player_to_move.neg();
        proof {
            lemma_score_negated(old(self).cells, self.cells, 100);
            crate::board_lemmas::lemma_xor_extract(
                old(self).cells.spec_cells_hash(),
                spec_moves_hash(old(self).played),
                self.cells.spec_cells_hash(),
            );
            let pre = *old(self);
            let post = *self;
            assert(post.hlen() == pre.hlen() && post.history@ == pre.history@);
            assert forall|i: int| 0 <= i < post.hlen() implies #[trigger] post.hpiece(i)
                == pre.hpiece(i) by {}
            assert(post.wf_history()) by {
                assert forall|m: int| #[trigger]
                    post.played.has(m) <==> exists|i: int|
                        0 <= i < post.hlen() && #[trigger] post.history@[i] == m by {
                    assert(post.played.has(m) == pre.played.has(m));
                }
            }
            assert(post.wf_cover()) by {
                assert forall|v: int| #[trigger]
                    post.cover.has(v) <==> exists|i: int|
                        0 <= i < post.hlen() && (#[trigger] post.hpiece(i)).covers(v) by {
                    assert(post.cover.has(v) == pre.cover.has(v));
                    if pre.cover.has(v) {
                        let i = choose|i: int|
                            0 <= i < pre.hlen() && (#[trigger] pre.hpiece(i)).covers(v);
                        assert(post.hpiece(i).covers(v));
                    }
                    if exists|i: int| 0 <= i < post.hlen() && (#[trigger] post.hpiece(i)).covers(
                        v,
                    ) {
                        let i = choose|i: int|
                            0 <= i < post.hlen() && (#[trigger] post.hpiece(i)).covers(v);
                        assert(pre.hpiece(i).covers(v));
                    }
                }
            }
            assert(post.wf_cells()) by {
                assert forall|v: int| 0 <= v < 100 implies ((#[trigger] post.cells.cell(
                    v,
                )).tile is Some) <==> post.cover.has(v) by {
                    assert(post.cells.cell(v) == pre.cells.cell(v).spec_negated());
                    assert(post.cells.cell(v).tile == pre.cells.cell(v).tile);
                }
                assert forall|i: int, v: int|
                    #![trigger post.hpiece(i), post.cells.cell(v)]
                    0 <= i < post.hlen() && post.hpiece(i).covers(v) implies post.cells.cell(
                    v,
                ).tile == Some(post.hpiece(i).kind) by {
                    assert(pre.hpiece(i).covers(v));
                    assert(0 <= v < 100);
                    assert(post.cells.cell(v).tile == pre.cells.cell(v).tile);
                }
            }
            assert(post.wf_foursquare()) by {
                assert forall|ar: int, ac: int| 0 <= ar < 9 && 0 <= ac < 9 implies #[trigger] post.foursquare_mask.spec_count(
                    ar,
                    ac,
                ) == post.fs_cells(ar, ac) by {
                    assert(post.fs_cells(ar, ac) == pre.fs_cells(ar, ac));
                }
            }
            assert(post.wf_protected()) by {
                assert forall|v: int| #[trigger]
                    post.protected.has(v) <==> exists|ar: int, ac: int|
                        0 <= ar < 9 && 0 <= ac < 9 && #[trigger] FoursquareCounter::anchor_covers(
                            ar,
                            ac,
                            v / 10,
                            v % 10,
                        ) && 0 <= v < 100 && post.foursquare_mask.spec_count(ar, ac) >= 3 by {
                    assert(post.protected.has(v) == pre.protected.has(v));
                    assert(post.foursquare_mask == pre.foursquare_mask);
                }
            }
            assert(post.wf_neighbours()) by {
                assert forall|v: int| #[trigger]
                    post.neighbours.has(v) <==> ((exists|i: int|
                        0 <= i < post.hlen() && (#[trigger] post.hpiece(i)).spec_neighbour(v))
                        && !post.cover.has(v)) by {
                    assert(post.neighbours.has(v) == pre.neighbours.has(v));
                    assert(post.cover.has(v) == pre.cover.has(v));
                    if pre.neighbours.has(v) {
                        let i = choose|i: int|
                            0 <= i < pre.hlen() && (#[trigger] pre.hpiece(i)).spec_neighbour(v);
                        assert(post.hpiece(i).spec_neighbour(v));
                    }
                    if exists|i: int|
                        0 <= i < post.hlen() && (#[trigger] post.hpiece(i)).spec_neighbour(v) {
                        let i = choose|i: int|
                            0 <= i < post.hlen() && (#[trigger] post.hpiece(i)).spec_neighbour(v);
                        assert(pre.hpiece(i).spec_neighbour(v));
                    }
                }
            }
            assert(post.wf_bag()) by {
                assert forall|t: Tile|
                    #![trigger post.piece_bag@[t.spec_index()]]
                    0 <= t.spec_index() < 4 implies post.piece_bag@[t.spec_index()] as int
                    == crate::consts::PIECES_PER_KIND - count_kind_upto(
                    *post.piecemap,
                    post.history@,
                    t,
                    post.hlen(),
                ) by {
                    assert(post.piece_bag@ == pre.piece_bag@);
                }
            }
            assert(post.wf_meta()) by {
                let su: int = if pre.swapped {
                    1
                } else {
                    0
                };
                let sv: int = if post.swapped {
                    1
                } else {
                    0
                };
                vstd::arithmetic::div_mod::lemma_add_mod_noop(pre.hlen() + su, 1, 2);
                vstd::arithmetic::div_mod::lemma_mod_bound(pre.hlen() + su, 2);
                vstd::arithmetic::div_mod::lemma_add_mod_noop(post.hlen() + sv, 1, 2);
                vstd::arithmetic::div_mod::lemma_mod_bound(post.hlen() + sv, 2);
                assert((pre.hlen() + su) % 2 != (post.hlen() + sv) % 2) by {
                    if pre.swapped {
                        assert(post.hlen() + sv + 1 == pre.hlen() + su);
                        vstd::arithmetic::div_mod::lemma_add_mod_noop(post.hlen() + sv, 1, 2);
                    } else {
                        assert(pre.hlen() + su + 1 == post.hlen() + sv);
                    }
                }
            }
            assert(post.wf());
        }
    }

    /// Implements the pie rule: legal exactly once, right after the first
    /// move; on an illegal pass the board is unchanged.
    pub fn pass(&mut self) -> (r: Result<(), LitsError>)
        requires
            old(self).wf(),
        ensures
            final(self).wf(),
            r is Ok <==> old(self).legal_play(NULL_MOVE as int),
            r is Err ==> (*final(self) == *old(self) && r->Err_0 == LitsError::IllegalMove),
            r is Ok ==> forall|v: int|
                0 <= v < 100 ==> #[trigger] final(self).cells.cell(v) == old(self).cells.cell(
                    v,
                ).spec_negated(),
            r is Ok ==> (final(self).score as int == -old(self).score as int && final(self).swapped
                == !old(self).swapped && final(self).player_to_move == old(
                self,
            ).player_to_move.spec_neg() && final(self).history == old(self).history),
            r is Ok ==> (final(self).played == old(self).played && final(self).cover == old(
                self,
            ).cover && final(self).protected == old(self).protected && final(self).neighbours
                == old(self).neighbours && final(self).foursquare_mask == old(
                self,
            ).foursquare_mask && final(self).piece_bag == old(self).piece_bag
                && final(self).piecemap == old(self).piecemap && final(self).edge_mask == old(
                self,
            ).edge_mask),
    {
        if !self.swapped && self.history.len() == 1 {
            self.pass_unchecked_engine();
            Ok(())
        } else {
            Err(LitsError::IllegalMove)
        }
    }

    /// Plays a move on this board, if the move is a legal piece placement.
    /// The swap is invoked through `pass`, never through `play`.
    pub fn play(&mut self, mv: usize) -> (r: Result<(), LitsError>)
        requires
            old(self).wf(),
        ensures
            final(self).wf(),
            r is Ok <==> (old(self).legal_play(mv as int) && mv != NULL_MOVE),
            r is Err ==> (*final(self) == *old(self) && r->Err_0 == LitsError::IllegalMove),
            r is Ok ==> (final(self).history@ == old(self).history@.push(mv) && final(self).swapped
                == old(self).swapped && final(self).piecemap == old(self).piecemap),
            r is Ok ==> forall|v: int|
                0 <= v < 100 ==> (#[trigger] final(self).cells.cell(v)).symbol == old(
                    self,
                ).cells.cell(v).symbol,
    {
        if mv < 1292 && self.is_legal_piece(mv) {
            self.play_unchecked_engine(mv);
            Ok(())
        } else {
            Err(LitsError::IllegalMove)
        }
    }

    /// Whether a piece id is a legal placement in the current position.
    pub(crate) fn is_legal_piece(&self, mv: usize) -> (r: bool)
        requires
            self.wf(),
            mv < NUM_PIECES,
        ensures
            r == self.legal_play(mv as int),
    {
        if self.history.len() == 0 {
            return true;
        }
        if self.history.len() == 1 {
            let a = self.piecemap.get_association(self.history[0], mv);
            return a == Interaction::Adjacent;
        }
        // a piece of an empty bag can no longer be placed
        let kind = self.piecemap.get_kind(mv);
        if self.piece_bag[kind.index()] == 0 {
            return false;
        }
        // it must touch the network and must not conflict with it
        let mut any_adjacent = false;
        let mut i: usize = 0;
        while i < self.history.len()
            invariant
                self.wf(),
                mv < NUM_PIECES,
                i <= self.hlen(),
                any_adjacent <==> exists|j: int|
                    0 <= j < i && self.piecemap.spec_assoc_ids(
                        #[trigger] self.history@[j] as int,
                        mv as int,
                    ) == Interaction::Adjacent,
                forall|j: int|
                    0 <= j < i ==> self.piecemap.spec_assoc_ids(
                        #[trigger] self.history@[j] as int,
                        mv as int,
                    ) != Interaction::Conflicting,
            decreases self.hlen() - i,
        {
            let a = self.piecemap.get_association(self.history[i], mv);
            if a == Interaction::Conflicting {
                return false;
            }
            if a == Interaction::Adjacent {
                any_adjacent = true;
            }
            i = i + 1;
        }
        if !any_adjacent {
            return false;
        }
        // placing it must not complete any 2x2
        let uncovered_protected = self.protected.difference(&self.cover);
        let free = self.piecemap.coordset(mv).would_intersect_empty(&uncovered_protected);
        proof {
            if free {
                assert forall|v: int| #[trigger]
                    self.piecemap.forward@[mv as int].covers(v) implies !(self.protected.has(v)
                    && !self.cover.has(v)) by {
                    assert(self.piecemap.selfs@[mv as int].has(v));
                }
            } else {
                let v = choose|v: int|
                    uncovered_protected.has(v) && #[trigger] self.piecemap.selfs@[mv as int].has(v);
                assert(self.piecemap.forward@[mv as int].covers(v) && self.protected.has(v)
                    && !self.cover.has(v));
            }
        }
        free
    }
}

} // verus!
