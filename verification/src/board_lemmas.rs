use vstd::prelude::*;
use crate::board::{b2i, count_kind_upto, lemma_cells_hash_pointwise, lemma_count_kind_bound,
    lemma_count_kind_push, lemma_moves_hash_insert, lemma_score_pointwise, spec_moves_hash, Board,
    Grid};
use crate::board_cell::BoardCell;
use crate::consts::{Tile, NUM_PIECES, NULL_MOVE};
use crate::foursquare::FoursquareCounter;
use crate::interaction::Interaction;
use crate::tetromino::Tetromino;
use crate::zobrist::spec_cell_hash;

verus! {

/// Pulls the move-hash component out of a combined hash.
pub proof fn lemma_xor_extract(c_old: u64, m: u64, c_new: u64)
    ensures
        (c_new ^ ((c_old ^ m) ^ c_old)) == (c_new ^ m),
{
    assert((c_new ^ ((c_old ^ m) ^ c_old)) == (c_new ^ m)) by (bit_vector);
}

/// What legality gives the play path: the piece does not overlap the cover,
/// is not already in the history, and does not complete any 2x2.
#[verifier::rlimit(100)]
pub proof fn lemma_legal_play_facts(b: Board, m: int)
    requires
        b.wf_history(),
        b.wf_cover(),
        b.wf_foursquare(),
        b.wf_protected(),
        b.legal_play(m),
        m != NULL_MOVE,
    ensures
        0 <= m < NUM_PIECES,
        forall|v: int| #[trigger] b.piecemap.forward@[m].covers(v) ==> !b.cover.has(v),
        forall|i: int| 0 <= i < b.hlen() ==> b.history@[i] != m,
        !b.played.has(m),
        forall|i: int|
            0 <= i < b.hlen() ==> b.piecemap.spec_assoc_ids(#[trigger] b.history@[i] as int, m)
                != Interaction::Conflicting,
        b.hlen() >= 1 ==> exists|i: int|
            0 <= i < b.hlen() && b.piecemap.spec_assoc_ids(#[trigger] b.history@[i] as int, m)
                == Interaction::Adjacent,
        forall|v: int|
            #[trigger] b.piecemap.forward@[m].covers(v) ==> !(b.protected.has(v) && !b.cover.has(
                v,
            )),
{
    assert forall|i: int| 0 <= i < b.hlen() implies b.piecemap.spec_assoc_ids(
        #[trigger] b.history@[i] as int,
        m,
    ) != Interaction::Conflicting by {
        if b.hlen() == 1 {
            assert(b.piecemap.spec_assoc_ids(b.history@[0] as int, m) == Interaction::Adjacent);
        }
    }
    assert forall|i: int| 0 <= i < b.hlen() implies b.history@[i] != m by {
        if b.history@[i] == m {
            assert(b.piecemap.spec_assoc_ids(b.history@[i] as int, m) == Interaction::Conflicting);
        }
    }
    assert forall|v: int| #[trigger] b.piecemap.forward@[m].covers(v) implies !b.cover.has(v) by {
        if b.cover.has(v) {
            let i = choose|i: int| 0 <= i < b.hlen() && (#[trigger] b.hpiece(i)).covers(v);
            assert(b.piecemap.spec_assoc_ids(b.history@[i] as int, m) != Interaction::Conflicting);
            assert(crate::interaction::spec_assoc(b.hpiece(i), b.piecemap.forward@[m])
                != Interaction::Conflicting);
            assert(b.hpiece(i).spec_overlaps(b.piecemap.forward@[m]));
        }
    }
    assert forall|v: int| #[trigger] b.piecemap.forward@[m].covers(v) implies !(b.protected.has(v)
        && !b.cover.has(v)) by {
        if b.hlen() == 0 {
            assert(!b.cover.has(v));
            if b.protected.has(v) {
                let (ar, ac) = choose|ar: int, ac: int|
                    0 <= ar < 9 && 0 <= ac < 9 && #[trigger] FoursquareCounter::anchor_covers(
                        ar,
                        ac,
                        v / 10,
                        v % 10,
                    ) && 0 <= v < 100 && b.foursquare_mask.spec_count(ar, ac) >= 3;
                assert(b.fs_cells(ar, ac) == 0);
            }
        } else if b.hlen() == 1 {
            crate::board_fs::lemma_one_piece_protected(b, m, v);
        }
    }
}

/// XORing the same term in twice cancels.
pub proof fn lemma_xor_cancel_pair(a: u64, b: u64)
    ensures
        ((a ^ b) ^ b) == a,
{
    assert(((a ^ b) ^ b) == a) by (bit_vector);
}

/// The four cells of a well-formed placement have distinct linear indices.
pub proof fn lemma_distinct_lins(t: Tetromino)
    requires
        crate::piecemap::piece_ok(t),
    ensures
        t.real_coords@[0].spec_lin() != t.real_coords@[1].spec_lin(),
        t.real_coords@[0].spec_lin() != t.real_coords@[2].spec_lin(),
        t.real_coords@[0].spec_lin() != t.real_coords@[3].spec_lin(),
        t.real_coords@[1].spec_lin() != t.real_coords@[2].spec_lin(),
        t.real_coords@[1].spec_lin() != t.real_coords@[3].spec_lin(),
        t.real_coords@[2].spec_lin() != t.real_coords@[3].spec_lin(),
        forall|k: int| 0 <= k < 4 ==> 0 <= (#[trigger] t.real_coords@[k]).spec_lin() < 100,
{
    assert forall|k: int| 0 <= k < 4 implies 0 <= (#[trigger] t.real_coords@[k]).spec_lin()
        < 100 by {
        assert(k == 0 || k == 1 || k == 2 || k == 3);
    }
}

/// How one cell update changes a grid.
pub open spec fn cell_update(g1: Grid, g2: Grid, l: int, kind: Tile) -> bool {
    &&& 0 <= l < 100
    &&& g1.cell(l).tile is None
    &&& forall|w: int| 0 <= w < 100 && w != l ==> #[trigger] g2.cell(w) == g1.cell(w)
    &&& g2.cell(l) == (BoardCell { symbol: g1.cell(l).symbol, tile: Some(kind) })
}

/// How many of a placement's cells lie in a 2x2.
pub open spec fn anchor_hits(t: Tetromino, ar: int, ac: int) -> int {
    b2i(FoursquareCounter::anchor_covers(
        ar,
        ac,
        t.real_coords@[0].rows as int,
        t.real_coords@[0].cols as int,
    )) + b2i(
        FoursquareCounter::anchor_covers(
            ar,
            ac,
            t.real_coords@[1].rows as int,
            t.real_coords@[1].cols as int,
        ),
    ) + b2i(
        FoursquareCounter::anchor_covers(
            ar,
            ac,
            t.real_coords@[2].rows as int,
            t.real_coords@[2].cols as int,
        ),
    ) + b2i(
        FoursquareCounter::anchor_covers(
            ar,
            ac,
            t.real_coords@[3].rows as int,
            t.real_coords@[3].cols as int,
        ),
    )
}

} // verus!
