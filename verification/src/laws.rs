use vstd::prelude::*;
use crate::board::{count_kind_upto, spec_moves_hash, Board, Grid};
use crate::board_lemmas::anchor_hits;
use crate::board_wf::play_step;
use crate::consts::{Tile, NULL_MOVE, PIECES_PER_KIND};
use crate::foursquare::FoursquareCounter;
use crate::interaction::Interaction;
use crate::tetromino::Tetromino;

verus! {

/// On a well-formed board every incrementally maintained structure agrees
/// with its from-scratch recomputation: the cover is the union of the
/// played cells, the score is the uncovered-symbol sum, every foursquare
/// count matches its covered cells, the protected set holds the cells of
/// the crowded squares, the bag counts what is left, the turn follows the
/// history parity, and the hash is the XOR of the cell and move hashes.
pub proof fn lemma_round_trip(b: Board)
    requires
        b.wf(),
    ensures
        forall|v: int|
            #![trigger b.cover.has(v)]
            b.cover.has(v) <==> exists|i: int|
                0 <= i < b.hlen() && (#[trigger] b.hpiece(i)).covers(v),
        b.score as int == b.cells.spec_score(),
        forall|ar: int, ac: int|
            0 <= ar < 9 && 0 <= ac < 9 ==> #[trigger] b.foursquare_mask.spec_count(ar, ac)
                == b.fs_cells(ar, ac),
        forall|v: int|
            #![trigger b.protected.has(v)]
            b.protected.has(v) <==> exists|ar: int, ac: int|
                0 <= ar < 9 && 0 <= ac < 9 && #[trigger] FoursquareCounter::anchor_covers(
                    ar,
                    ac,
                    v / 10,
                    v % 10,
                ) && 0 <= v < 100 && b.foursquare_mask.spec_count(ar, ac) >= 3,
        forall|t: Tile|
            #![trigger b.piece_bag@[t.spec_index()]]
            0 <= t.spec_index() < 4 ==> b.piece_bag@[t.spec_index()] as int == PIECES_PER_KIND
                - count_kind_upto(*b.piecemap, b.history@, t, b.hlen()),
        b.player_to_move == Board::spec_player(b.hlen(), b.swapped),
        b.zobrist_hash == (b.cells.spec_cells_hash() ^ spec_moves_hash(b.played)),
{
}

/// How one swap transforms the observable fields of a board.
pub open spec fn swap_rel(pre: Board, post: Board) -> bool {
    &&& forall|v: int|
        0 <= v < 100 ==> #[trigger] post.cells.cell(v) == pre.cells.cell(v).spec_negated()
    &&& post.score as int == -pre.score as int
    &&& post.swapped == !pre.swapped
    &&& post.player_to_move == pre.player_to_move.spec_neg()
    &&& post.history == pre.history
    &&& post.played == pre.played
    &&& post.cover == pre.cover
    &&& post.protected == pre.protected
    &&& post.neighbours == pre.neighbours
    &&& post.foursquare_mask == pre.foursquare_mask
    &&& post.piece_bag == pre.piece_bag
    &&& post.piecemap == pre.piecemap
    &&& post.edge_mask == pre.edge_mask
}

/// Pointwise equal grids hash alike.
proof fn lemma_cells_hash_congruent(g1: Grid, g2: Grid, n: int)
    requires
        0 <= n <= 100,
        forall|v: int| 0 <= v < 100 ==> #[trigger] g1.cell(v) == g2.cell(v),
    ensures
        g1.cells_hash_upto(n) == g2.cells_hash_upto(n),
    decreases n,
{
    if n > 0 {
        lemma_cells_hash_congruent(g1, g2, n - 1);
    }
}

/// Swapping twice returns the board to its previous observable state: the
/// swap is an involution.
pub proof fn lemma_swap_involution(b1: Board, b2: Board, b3: Board)
    requires
        b1.wf(),
        b3.wf(),
        swap_rel(b1, b2),
        swap_rel(b2, b3),
    ensures
        forall|v: int| 0 <= v < 100 ==> #[trigger] b3.cells.cell(v) == b1.cells.cell(v),
        b3.score == b1.score,
        b3.swapped == b1.swapped,
        b3.player_to_move == b1.player_to_move,
        b3.history == b1.history,
        b3.played == b1.played,
        b3.cover == b1.cover,
        b3.protected == b1.protected,
        b3.neighbours == b1.neighbours,
        b3.foursquare_mask == b1.foursquare_mask,
        b3.piece_bag == b1.piece_bag,
        b3.piecemap == b1.piecemap,
        b3.edge_mask == b1.edge_mask,
        b3.zobrist_hash == b1.zobrist_hash,
{
    assert forall|v: int| 0 <= v < 100 implies #[trigger] b3.cells.cell(v) == b1.cells.cell(v) by {
        assert(b3.cells.cell(v) == b1.cells.cell(v).spec_negated().spec_negated());
    }
    assert(b3.zobrist_hash == b1.zobrist_hash) by {
        lemma_cells_hash_congruent(b1.cells, b3.cells, 100);
    }
}

/// No two played tiles of the same kind share an edge.
pub proof fn lemma_adjacency_law(b: Board, i: int, j: int)
    requires
        b.wf(),
        0 <= i < b.hlen(),
        0 <= j < b.hlen(),
        i != j,
        b.hpiece(i).kind == b.hpiece(j).kind,
    ensures
        !b.hpiece(i).spec_touches(b.hpiece(j)),
{
    if b.hpiece(i).spec_touches(b.hpiece(j)) {
        assert(b.piecemap.spec_assoc_ids(b.history@[i] as int, b.history@[j] as int)
            != Interaction::Conflicting);
        assert(crate::interaction::spec_assoc(b.hpiece(i), b.hpiece(j))
            != Interaction::Conflicting);
    }
}

/// The bag of each kind holds five pieces less those already played.
pub proof fn lemma_bag_law(b: Board, t: Tile)
    requires
        b.wf(),
    ensures
        b.piece_bag@[t.spec_index()] as int == PIECES_PER_KIND - count_kind_upto(
            *b.piecemap,
            b.history@,
            t,
            b.hlen(),
        ),
{
}

/// The score is the sum of the perspectives of the uncovered symbols.
pub proof fn lemma_score_law(b: Board)
    requires
        b.wf(),
    ensures
        b.score as int == b.cells.spec_score(),
{
}

/// Boards with the same symbol cells and the same set of played moves hash
/// alike: the position hash only reads those.
pub proof fn lemma_zobrist_determinism(b1: Board, b2: Board)
    requires
        b1.wf(),
        b2.wf(),
        forall|v: int| 0 <= v < 100 ==> #[trigger] b1.cells.cell(v) == b2.cells.cell(v),
        forall|m: int| #[trigger] b1.played.has(m) == b2.played.has(m),
    ensures
        b1.zobrist_hash == b2.zobrist_hash,
{
    lemma_cells_hash_congruent(b1.cells, b2.cells, 100);
    crate::board::lemma_moves_hash_congruent(b1.played, b2.played, 1292);
}

/// A legal play never touches a 2x2 that already holds three or more tiles:
/// the protected-cell check keeps the piece off every cell of such a
/// square, so its count is unchanged. A square holding two tiles can still
/// be filled when one piece covers both of its free cells at once; the
/// game's legality rules allow that, so this is the strongest foursquare
/// guarantee a play carries.
pub proof fn lemma_foursquare_law(
    pre: Board,
    post: Board,
    m: int,
    t: Tetromino,
    g0: Grid,
    g1: Grid,
    g2: Grid,
    g3: Grid,
)
    requires
        pre.wf(),
        pre.legal_play(m),
        m != NULL_MOVE,
        play_step(pre, post, m, t, g0, g1, g2, g3),
    ensures
        forall|ar: int, ac: int|
            0 <= ar < 9 && 0 <= ac < 9 && #[trigger] pre.foursquare_mask.spec_count(ar, ac) >= 3
                ==> post.foursquare_mask.spec_count(ar, ac) == pre.foursquare_mask.spec_count(
                ar,
                ac,
            ),
{
    crate::board_lemmas::lemma_legal_play_facts(pre, m);
    assert forall|ar: int, ac: int|
        0 <= ar < 9 && 0 <= ac < 9 && #[trigger] pre.foursquare_mask.spec_count(ar, ac)
        >= 3 implies post.foursquare_mask.spec_count(ar, ac) == pre.foursquare_mask.spec_count(
        ar,
        ac,
    ) by {
        if anchor_hits(t, ar, ac) >= 1 {
            lemma_hit_anchor_low(pre, m, t, ar, ac);
        }
        assert(anchor_hits(t, ar, ac) == 0);
    }
}

/// An anchor one of whose cells the played piece covers held at most two
/// tiles before the play: its cells were not protected.
proof fn lemma_hit_anchor_low(pre: Board, m: int, t: Tetromino, ar: int, ac: int)
    requires
        pre.wf(),
        pre.legal_play(m),
        m != NULL_MOVE,
        0 <= m < 1292,
        t == pre.piecemap.forward@[m],
        0 <= ar < 9,
        0 <= ac < 9,
        anchor_hits(t, ar, ac) >= 1,
    ensures
        pre.foursquare_mask.spec_count(ar, ac) <= 2,
{
    crate::board_lemmas::lemma_legal_play_facts(pre, m);
    crate::board_lemmas::lemma_distinct_lins(t);
    let k: int = if FoursquareCounter::anchor_covers(
        ar,
        ac,
        t.real_coords@[0].rows as int,
        t.real_coords@[0].cols as int,
    ) {
        0
    } else if FoursquareCounter::anchor_covers(
        ar,
        ac,
        t.real_coords@[1].rows as int,
        t.real_coords@[1].cols as int,
    ) {
        1
    } else if FoursquareCounter::anchor_covers(
        ar,
        ac,
        t.real_coords@[2].rows as int,
        t.real_coords@[2].cols as int,
    ) {
        2
    } else {
        3
    };
    let v = t.real_coords@[k].spec_lin();
    assert(t.covers(v));
    assert(!pre.cover.has(v));
    assert(!pre.protected.has(v));
    crate::board_fs::lemma_lin_anchor(t.real_coords@[k], ar, ac);
    assert(FoursquareCounter::anchor_covers(ar, ac, v / 10, v % 10)) by {
        vstd::arithmetic::div_mod::lemma_fundamental_div_mod_converse(
            v,
            10,
            t.real_coords@[k].rows as int,
            t.real_coords@[k].cols as int,
        );
    }
    if pre.foursquare_mask.spec_count(ar, ac) >= 3 {
        assert(pre.protected.has(v));
    }
}


/// On a first turn every count prefix is full: each id below the scan
/// point is legal.
proof fn lemma_first_turn_count(b: Board, n: int)
    requires
        b.hlen() == 0,
        0 <= n <= 1293,
    ensures
        b.valid_move_count_upto(n) == if n <= 1292 {
            n
        } else {
            1292int
        },
    decreases n,
{
    if n > 0 {
        lemma_first_turn_count(b, n - 1);
        assert(b.legal_play(n - 1) <==> n - 1 < 1292);
    }
}

/// On the empty board the move generator offers every placement and
/// nothing else: exactly NUM_PIECES ids.
pub proof fn lemma_empty_board_moves(b: Board)
    requires
        b.wf(),
        b.hlen() == 0,
    ensures
        b.valid_move_count() == crate::consts::NUM_PIECES,
        forall|m: int| #[trigger] b.legal_play(m) <==> 0 <= m < crate::consts::NUM_PIECES,
{
    lemma_first_turn_count(b, 1293);
}

/// After exactly one move without a swap, the legal moves are the pieces
/// adjacent to the opening piece, plus the swap sentinel.
pub proof fn lemma_one_move_offers_adjacent_and_swap(b: Board)
    requires
        b.wf(),
        b.hlen() == 1,
        !b.swapped,
    ensures
        forall|m: int| #[trigger]
            b.legal_play(m) <==> (m == NULL_MOVE || (0 <= m < crate::consts::NUM_PIECES
                && b.piecemap.spec_assoc_ids(b.history@[0] as int, m) == Interaction::Adjacent)),
{
}

/// Once the swap has been taken, the sentinel is never offered again.
pub proof fn lemma_swap_not_reoffered(b: Board)
    requires
        b.wf(),
        b.swapped,
    ensures
        !b.legal_play(NULL_MOVE as int),
{
}

} // verus!
