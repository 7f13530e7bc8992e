use vstd::prelude::*;
use crate::board::{count_kind_upto, lemma_cells_hash_pointwise, lemma_count_kind_push,
    lemma_moves_hash_insert, lemma_score_pointwise, spec_moves_hash, Board, Grid};
use crate::board_lemmas::{anchor_hits, cell_update, lemma_distinct_lins, lemma_legal_play_facts,
    lemma_xor_cancel_pair};
use crate::consts::{Tile, NUM_PIECES, NULL_MOVE};
use crate::foursquare::FoursquareCounter;
use crate::interaction::Interaction;
use crate::tetromino::Tetromino;
use crate::zobrist::spec_cell_hash;

verus! {

/// How one play step transforms the board fields, as the play path leaves
/// them: the four cell updates in order, and each incremental structure's
/// update rule.
pub open spec fn play_step(
    pre: Board,
    post: Board,
    m: int,
    t: Tetromino,
    g0: Grid,
    g1: Grid,
    g2: Grid,
    g3: Grid,
) -> bool {
    &&& 0 <= m < NUM_PIECES
    &&& t == pre.piecemap.forward@[m]
    &&& post.piecemap == pre.piecemap
    &&& post.history@ == pre.history@.push(m as usize)
    &&& post.swapped == pre.swapped
    &&& g0 == pre.cells
    &&& cell_update(g0, g1, t.real_coords@[0].spec_lin(), t.kind)
    &&& cell_update(g1, g2, t.real_coords@[1].spec_lin(), t.kind)
    &&& cell_update(g2, g3, t.real_coords@[2].spec_lin(), t.kind)
    &&& cell_update(g3, post.cells, t.real_coords@[3].spec_lin(), t.kind)
    &&& post.score as int == pre.score - g0.cell(t.real_coords@[0].spec_lin()).spec_contribution()
        - g1.cell(t.real_coords@[1].spec_lin()).spec_contribution() - g2.cell(
        t.real_coords@[2].spec_lin(),
    ).spec_contribution() - g3.cell(t.real_coords@[3].spec_lin()).spec_contribution()
    &&& post.cover.inv()
    &&& forall|v: int|
        #![trigger post.cover.has(v)]
        post.cover.has(v) <==> (pre.cover.has(v) || v == t.real_coords@[0].spec_lin() || v
            == t.real_coords@[1].spec_lin() || v == t.real_coords@[2].spec_lin() || v
            == t.real_coords@[3].spec_lin())
    &&& forall|a: int, b: int|
        0 <= a < 9 && 0 <= b < 9 ==> #[trigger] post.foursquare_mask.spec_count(a, b)
            == pre.foursquare_mask.spec_count(a, b) + anchor_hits(t, a, b)
    &&& post.protected.inv()
    &&& forall|v: int|
        #![trigger post.protected.has(v)]
        post.protected.has(v) <==> exists|ar: int, ac: int|
            0 <= ar < 9 && 0 <= ac < 9 && #[trigger] FoursquareCounter::anchor_covers(
                ar,
                ac,
                v / 10,
                v % 10,
            ) && 0 <= v < 100 && post.foursquare_mask.spec_count(ar, ac) >= 3
    &&& post.neighbours.inv()
    &&& forall|v: int|
        #![trigger post.neighbours.has(v)]
        post.neighbours.has(v) <==> ((pre.neighbours.has(v) || t.spec_neighbour(v))
            && !post.cover.has(v))
    &&& post.played.inv()
    &&& forall|v: int|
        #![trigger post.played.has(v)]
        post.played.has(v) <==> (pre.played.has(v) || v == m)
    &&& forall|k: int|
        #![trigger post.piece_bag@[k]]
        0 <= k < 4 ==> post.piece_bag@[k] as int == pre.piece_bag@[k] - (if k
            == t.kind.spec_index() {
            1int
        } else {
            0int
        })
    &&& post.player_to_move == pre.player_to_move.spec_neg()
    &&& post.zobrist_hash == (pre.zobrist_hash ^ crate::zobrist::spec_move_hash(m))
}

/// The played ids of the longer history.
#[verifier::rlimit(100)]
proof fn lemma_play_history(pre: Board, post: Board, m: int, t: Tetromino, g0: Grid, g1: Grid, g2: Grid, g3: Grid)
    requires
        pre.wf_history(),
        pre.wf_cover(),
        pre.wf_foursquare(),
        pre.wf_protected(),
        pre.legal_play(m),
        m != NULL_MOVE,
        play_step(pre, post, m, t, g0, g1, g2, g3),
    ensures
        post.wf_history(),
{
    lemma_legal_play_facts(pre, m);
    assert(post.hlen() == pre.hlen() + 1);
    assert(post.history@[post.hlen() - 1] == m as usize);
    assert forall|i: int| 0 <= i < pre.hlen() implies post.history@[i] == pre.history@[i] by {}
    assert forall|mm: int| #[trigger]
        post.played.has(mm) <==> exists|i: int|
            0 <= i < post.hlen() && #[trigger] post.history@[i] == mm by {
        if post.played.has(mm) {
            if pre.played.has(mm) {
                let i = choose|i: int| 0 <= i < pre.hlen() && #[trigger] pre.history@[i] == mm;
                assert(post.history@[i] == mm);
            } else {
                assert(post.history@[post.hlen() - 1] == mm);
            }
        }
        if exists|i: int| 0 <= i < post.hlen() && #[trigger] post.history@[i] == mm {
            let i = choose|i: int| 0 <= i < post.hlen() && #[trigger] post.history@[i] == mm;
            if i < pre.hlen() {
                assert(pre.history@[i] == mm);
            }
        }
    }
    assert forall|i: int, j: int| 0 <= i < j < post.hlen() implies post.history@[i]
        != post.history@[j] by {
        if j == post.hlen() - 1 {
            assert(pre.history@[i] != m as usize);
        }
    }
    assert forall|i: int, j: int|
        #![trigger post.history@[i], post.history@[j]]
        0 <= i < post.hlen() && 0 <= j < post.hlen() && i != j implies post.piecemap.spec_assoc_ids(
        post.history@[i] as int,
        post.history@[j] as int,
    ) != Interaction::Conflicting by {
        if i == post.hlen() - 1 && j < pre.hlen() {
            crate::interaction::lemma_assoc_symmetric(pre.hpiece(j), t);
        }
    }
}

/// The longer cover.
#[verifier::rlimit(100)]
proof fn lemma_play_cover(pre: Board, post: Board, m: int, t: Tetromino, g0: Grid, g1: Grid, g2: Grid, g3: Grid)
    requires
        pre.wf_cover(),
        play_step(pre, post, m, t, g0, g1, g2, g3),
        crate::piecemap::piece_ok(t),
    ensures
        post.wf_cover(),
{
    assert forall|v: int| #[trigger] t.covers(v) <==> (v == t.real_coords@[0].spec_lin() || v
        == t.real_coords@[1].spec_lin() || v == t.real_coords@[2].spec_lin() || v
        == t.real_coords@[3].spec_lin()) by {}
    assert forall|v: int| #[trigger]
        post.cover.has(v) <==> exists|i: int|
            0 <= i < post.hlen() && (#[trigger] post.hpiece(i)).covers(v) by {
        if post.cover.has(v) {
            if pre.cover.has(v) {
                let i = choose|i: int| 0 <= i < pre.hlen() && (#[trigger] pre.hpiece(i)).covers(v);
                assert(post.hpiece(i).covers(v));
            } else {
                assert(post.hpiece(post.hlen() - 1).covers(v));
            }
        }
        if exists|i: int| 0 <= i < post.hlen() && (#[trigger] post.hpiece(i)).covers(v) {
            let i = choose|i: int| 0 <= i < post.hlen() && (#[trigger] post.hpiece(i)).covers(v);
            if i < pre.hlen() {
                assert(pre.hpiece(i).covers(v));
                assert(pre.cover.has(v));
            } else {
                assert(t.covers(v));
            }
        }
    }
}

/// The cells after the four tile writes.
#[verifier::rlimit(100)]
proof fn lemma_play_cells(pre: Board, post: Board, m: int, t: Tetromino, g0: Grid, g1: Grid, g2: Grid, g3: Grid)
    requires
        pre.wf_history(),
        pre.wf_cover(),
        pre.wf_cells(),
        pre.wf_foursquare(),
        pre.wf_protected(),
        pre.legal_play(m),
        m != NULL_MOVE,
        play_step(pre, post, m, t, g0, g1, g2, g3),
        crate::piecemap::piece_ok(t),
    ensures
        post.wf_cells(),
        forall|w: int|
            0 <= w < 100 ==> (#[trigger] post.cells.cell(w)).symbol == pre.cells.cell(w).symbol,
{
    lemma_legal_play_facts(pre, m);
    lemma_distinct_lins(t);
    let l0 = t.real_coords@[0].spec_lin();
    let l1 = t.real_coords@[1].spec_lin();
    let l2 = t.real_coords@[2].spec_lin();
    let l3 = t.real_coords@[3].spec_lin();
    assert forall|v: int| #[trigger] t.covers(v) <==> (v == l0 || v == l1 || v == l2 || v
        == l3) by {}
    assert forall|w: int| 0 <= w < 100 && !t.covers(w) implies #[trigger] post.cells.cell(w)
        == pre.cells.cell(w) by {}
    assert forall|w: int| 0 <= w < 100 implies (#[trigger] post.cells.cell(w)).symbol
        == pre.cells.cell(w).symbol by {}
    assert(post.cells.cell(l0).tile == Some(t.kind) && post.cells.cell(l1).tile == Some(t.kind)
        && post.cells.cell(l2).tile == Some(t.kind) && post.cells.cell(l3).tile == Some(t.kind));
    assert forall|v: int| 0 <= v < 100 implies (((#[trigger] post.cells.cell(v)).tile is Some)
        <==> post.cover.has(v)) by {
        if t.covers(v) {
        } else {
            assert(post.cells.cell(v) == pre.cells.cell(v));
            assert(pre.cover.has(v) == post.cover.has(v));
        }
    }
    assert forall|i: int, v: int|
        #![trigger post.hpiece(i), post.cells.cell(v)]
        0 <= i < post.hlen() && post.hpiece(i).covers(v) implies post.cells.cell(v).tile == Some(
        post.hpiece(i).kind,
    ) by {
        if i < pre.hlen() {
            assert(pre.hpiece(i).covers(v));
            assert(0 <= v < 100);
            assert(pre.cover.has(v));
            assert(!t.covers(v));
            assert(post.cells.cell(v) == pre.cells.cell(v));
        } else {
            assert(t.covers(v));
        }
    }
}

/// The foursquare counts after the play.
#[verifier::rlimit(100)]
proof fn lemma_play_foursquare(pre: Board, post: Board, m: int, t: Tetromino, g0: Grid, g1: Grid, g2: Grid, g3: Grid)
    requires
        pre.wf_history(),
        pre.wf_cover(),
        pre.wf_foursquare(),
        pre.wf_protected(),
        pre.legal_play(m),
        m != NULL_MOVE,
        play_step(pre, post, m, t, g0, g1, g2, g3),
        crate::piecemap::piece_ok(t),
    ensures
        post.wf_foursquare(),
{
    lemma_legal_play_facts(pre, m);
    assert forall|ar: int, ac: int| 0 <= ar < 9 && 0 <= ac < 9 implies #[trigger] post.foursquare_mask.spec_count(
        ar,
        ac,
    ) == post.fs_cells(ar, ac) by {
        assert(pre.foursquare_mask.spec_count(ar, ac) == pre.fs_cells(ar, ac));
        crate::board_fs::lemma_anchor_hits_cells(pre, post, t, ar, ac);
    }
}

/// The neighbour set after the play.
#[verifier::rlimit(100)]
proof fn lemma_play_neighbours(pre: Board, post: Board, m: int, t: Tetromino, g0: Grid, g1: Grid, g2: Grid, g3: Grid)
    requires
        pre.wf_cover(),
        pre.wf_neighbours(),
        play_step(pre, post, m, t, g0, g1, g2, g3),
    ensures
        post.wf_neighbours(),
{
    assert forall|v: int| #[trigger]
        post.neighbours.has(v) <==> ((exists|i: int|
            0 <= i < post.hlen() && (#[trigger] post.hpiece(i)).spec_neighbour(v))
            && !post.cover.has(v)) by {
        if post.neighbours.has(v) {
            if pre.neighbours.has(v) {
                let i = choose|i: int|
                    0 <= i < pre.hlen() && (#[trigger] pre.hpiece(i)).spec_neighbour(v);
                assert(post.hpiece(i).spec_neighbour(v));
            } else {
                assert(post.hpiece(post.hlen() - 1).spec_neighbour(v));
            }
        }
        if (exists|i: int| 0 <= i < post.hlen() && (#[trigger] post.hpiece(i)).spec_neighbour(v))
            && !post.cover.has(v) {
            let i = choose|i: int|
                0 <= i < post.hlen() && (#[trigger] post.hpiece(i)).spec_neighbour(v);
            if i < pre.hlen() {
                assert(pre.hpiece(i).spec_neighbour(v));
                assert(!pre.cover.has(v));
                assert(pre.neighbours.has(v));
            } else {
                assert(t.spec_neighbour(v));
            }
        }
    }
}

/// The bag after the play.
#[verifier::rlimit(100)]
proof fn lemma_play_bag(pre: Board, post: Board, m: int, t: Tetromino, g0: Grid, g1: Grid, g2: Grid, g3: Grid)
    requires
        pre.wf_bag(),
        play_step(pre, post, m, t, g0, g1, g2, g3),
    ensures
        post.wf_bag(),
{
    assert forall|k: Tile|
        #![trigger post.piece_bag@[k.spec_index()]]
        0 <= k.spec_index() < 4 implies post.piece_bag@[k.spec_index()] as int
        == crate::consts::PIECES_PER_KIND - count_kind_upto(
        *post.piecemap,
        post.history@,
        k,
        post.hlen(),
    ) by {
        lemma_count_kind_push(*pre.piecemap, pre.history@, post.history@, k, pre.hlen());
        assert(count_kind_upto(*post.piecemap, post.history@, k, post.hlen()) == count_kind_upto(
            *post.piecemap,
            post.history@,
            k,
            pre.hlen(),
        ) + if post.piecemap.forward@[m].kind == k {
            1int
        } else {
            0int
        });
        if k != t.kind {
            assert(k.spec_index() != t.kind.spec_index());
        }
    }
}

/// The score, turn and hash after the play.
#[verifier::rlimit(100)]
proof fn lemma_play_meta(pre: Board, post: Board, m: int, t: Tetromino, g0: Grid, g1: Grid, g2: Grid, g3: Grid)
    requires
        pre.wf_history(),
        pre.wf_cover(),
        pre.wf_foursquare(),
        pre.wf_protected(),
        pre.wf_meta(),
        pre.legal_play(m),
        m != NULL_MOVE,
        play_step(pre, post, m, t, g0, g1, g2, g3),
        crate::piecemap::piece_ok(t),
    ensures
        post.wf_meta(),
{
    lemma_legal_play_facts(pre, m);
    lemma_distinct_lins(t);
    let l0 = t.real_coords@[0].spec_lin();
    let l1 = t.real_coords@[1].spec_lin();
    let l2 = t.real_coords@[2].spec_lin();
    let l3 = t.real_coords@[3].spec_lin();
    assert(t.covers(l0) && t.covers(l1) && t.covers(l2) && t.covers(l3));
    // the score tracks the covered symbols
    assert(post.score as int == post.cells.spec_score()) by {
        lemma_score_pointwise(g0, g1, l0, 100);
        lemma_score_pointwise(g1, g2, l1, 100);
        lemma_score_pointwise(g2, g3, l2, 100);
        lemma_score_pointwise(g3, post.cells, l3, 100);
        assert(g1.cell(l0).spec_contribution() == 0);
        assert(g2.cell(l1).spec_contribution() == 0);
        assert(g3.cell(l2).spec_contribution() == 0);
        assert(post.cells.cell(l3).spec_contribution() == 0);
    }
    // the parity of the turn
    assert(post.player_to_move == Board::spec_player(post.hlen(), post.swapped)) by {
        let su: int = if pre.swapped {
            1
        } else {
            0
        };
        vstd::arithmetic::div_mod::lemma_add_mod_noop(pre.hlen() + su, 1, 2);
        vstd::arithmetic::div_mod::lemma_mod_bound(pre.hlen() + su, 2);
        vstd::arithmetic::div_mod::lemma_mod_bound((pre.hlen() + su) % 2 + 1, 2);
        assert(post.hlen() + su == (pre.hlen() + su) + 1);
    }
    // the hash gains exactly the move hash
    assert(post.zobrist_hash == (post.cells.spec_cells_hash() ^ spec_moves_hash(post.played))) by {
        lemma_cells_hash_pointwise(g0, g1, l0, 100);
        lemma_cells_hash_pointwise(g1, g2, l1, 100);
        lemma_cells_hash_pointwise(g2, g3, l2, 100);
        lemma_cells_hash_pointwise(g3, post.cells, l3, 100);
        assert(spec_cell_hash(l0 / 10, l0 % 10, g0.cell(l0)) == spec_cell_hash(
            l0 / 10,
            l0 % 10,
            g1.cell(l0),
        ));
        assert(spec_cell_hash(l1 / 10, l1 % 10, g1.cell(l1)) == spec_cell_hash(
            l1 / 10,
            l1 % 10,
            g2.cell(l1),
        ));
        assert(spec_cell_hash(l2 / 10, l2 % 10, g2.cell(l2)) == spec_cell_hash(
            l2 / 10,
            l2 % 10,
            g3.cell(l2),
        ));
        assert(spec_cell_hash(l3 / 10, l3 % 10, g3.cell(l3)) == spec_cell_hash(
            l3 / 10,
            l3 % 10,
            post.cells.cell(l3),
        ));
        lemma_xor_cancel_pair(
            g0.cells_hash_upto(100),
            spec_cell_hash(l0 / 10, l0 % 10, g0.cell(l0)),
        );
        lemma_xor_cancel_pair(
            g1.cells_hash_upto(100),
            spec_cell_hash(l1 / 10, l1 % 10, g1.cell(l1)),
        );
        lemma_xor_cancel_pair(
            g2.cells_hash_upto(100),
            spec_cell_hash(l2 / 10, l2 % 10, g2.cell(l2)),
        );
        lemma_xor_cancel_pair(
            g3.cells_hash_upto(100),
            spec_cell_hash(l3 / 10, l3 % 10, g3.cell(l3)),
        );
        assert(post.cells.spec_cells_hash() == pre.cells.spec_cells_hash());
        lemma_moves_hash_insert(pre.played, post.played, m, NUM_PIECES as int);
        lemma_xor_assoc(
            pre.cells.spec_cells_hash(),
            spec_moves_hash(pre.played),
            crate::zobrist::spec_move_hash(m),
        );
    }
}

/// XOR is associative.
proof fn lemma_xor_assoc(a: u64, b: u64, c: u64)
    ensures
        ((a ^ b) ^ c) == (a ^ (b ^ c)),
{
    assert(((a ^ b) ^ c) == (a ^ (b ^ c))) by (bit_vector);
}

/// Re-establishes the board invariant after a piece is played.
pub proof fn lemma_play_wf(pre: Board, post: Board, m: int, t: Tetromino, g0: Grid, g1: Grid, g2: Grid, g3: Grid)
    requires
        pre.played.inv(),
        pre.wf_history(),
        pre.wf_cover(),
        pre.wf_cells(),
        pre.wf_foursquare(),
        pre.wf_protected(),
        pre.wf_neighbours(),
        pre.wf_bag(),
        pre.wf_meta(),
        crate::piecemap::piece_ok(t),
        pre.legal_play(m),
        m != NULL_MOVE,
        play_step(pre, post, m, t, g0, g1, g2, g3),
    ensures
        post.wf_history(),
        post.wf_cover(),
        post.wf_cells(),
        post.wf_foursquare(),
        post.wf_protected(),
        post.wf_neighbours(),
        post.wf_bag(),
        post.wf_meta(),
        post.played.inv(),
        forall|w: int|
            0 <= w < 100 ==> (#[trigger] post.cells.cell(w)).symbol == pre.cells.cell(w).symbol,
{
    lemma_play_history(pre, post, m, t, g0, g1, g2, g3);
    lemma_play_cover(pre, post, m, t, g0, g1, g2, g3);
    lemma_play_cells(pre, post, m, t, g0, g1, g2, g3);
    lemma_play_foursquare(pre, post, m, t, g0, g1, g2, g3);
    lemma_play_neighbours(pre, post, m, t, g0, g1, g2, g3);
    lemma_play_bag(pre, post, m, t, g0, g1, g2, g3);
    lemma_play_meta(pre, post, m, t, g0, g1, g2, g3);
}

} // verus!
