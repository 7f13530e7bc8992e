use vstd::prelude::*;
use crate::board::Board;
use crate::board::b2i;
use crate::board_lemmas::{anchor_hits, lemma_distinct_lins};
use crate::consts::NUM_PIECES;
use crate::interaction::Interaction;
use crate::foursquare::FoursquareCounter;
use crate::tetromino::Tetromino;

verus! {

/// The foursquare count of an anchor after a play equals the covered-cell
/// count over the new cover.
#[verifier::rlimit(100)]
pub proof fn lemma_anchor_hits_cells(pre: Board, post: Board, t: Tetromino, ar: int, ac: int)
    requires
        0 <= ar < 9,
        0 <= ac < 9,
        crate::piecemap::piece_ok(t),
        forall|v: int| #[trigger] t.covers(v) ==> !pre.cover.has(v),
        forall|v: int|
            #![trigger post.cover.has(v)]
            post.cover.has(v) <==> (pre.cover.has(v) || v == t.real_coords@[0].spec_lin() || v
                == t.real_coords@[1].spec_lin() || v == t.real_coords@[2].spec_lin() || v
                == t.real_coords@[3].spec_lin()),
    ensures
        post.fs_cells(ar, ac) == pre.fs_cells(ar, ac) + anchor_hits(t, ar, ac),
{
    lemma_distinct_lins(t);
    let c00 = ar * 10 + ac;
    lemma_anchor_cell_lin(ar, ac, 0, 0);
    lemma_anchor_cell_lin(ar, ac, 0, 1);
    lemma_anchor_cell_lin(ar, ac, 1, 0);
    lemma_anchor_cell_lin(ar, ac, 1, 1);
    lemma_lin_anchor(t.real_coords@[0], ar, ac);
    lemma_lin_anchor(t.real_coords@[1], ar, ac);
    lemma_lin_anchor(t.real_coords@[2], ar, ac);
    lemma_lin_anchor(t.real_coords@[3], ar, ac);
    let l0 = t.real_coords@[0].spec_lin();
    let l1 = t.real_coords@[1].spec_lin();
    let l2 = t.real_coords@[2].spec_lin();
    let l3 = t.real_coords@[3].spec_lin();
    assert(t.covers(l0) && t.covers(l1) && t.covers(l2) && t.covers(l3));
    assert(b2i(post.cover.has(c00)) == b2i(pre.cover.has(c00)) + b2i(c00 == l0 || c00 == l1 || c00
        == l2 || c00 == l3));
    assert(b2i(post.cover.has(c00 + 1)) == b2i(pre.cover.has(c00 + 1)) + b2i(c00 + 1 == l0 || c00
        + 1 == l1 || c00 + 1 == l2 || c00 + 1 == l3));
    assert(b2i(post.cover.has(c00 + 10)) == b2i(pre.cover.has(c00 + 10)) + b2i(c00 + 10 == l0 || c00
        + 10 == l1 || c00 + 10 == l2 || c00 + 10 == l3));
    assert(b2i(post.cover.has(c00 + 11)) == b2i(pre.cover.has(c00 + 11)) + b2i(c00 + 11 == l0 || c00
        + 11 == l1 || c00 + 11 == l2 || c00 + 11 == l3));
    assert(anchor_hits(t, ar, ac) == b2i(l0 == c00 || l0 == c00 + 1 || l0 == c00 + 10 || l0 == c00
        + 11) + b2i(l1 == c00 || l1 == c00 + 1 || l1 == c00 + 10 || l1 == c00 + 11) + b2i(l2 == c00
        || l2 == c00 + 1 || l2 == c00 + 10 || l2 == c00 + 11) + b2i(l3 == c00 || l3 == c00 + 1 || l3
        == c00 + 10 || l3 == c00 + 11));
    assert(b2i(c00 == l0 || c00 == l1 || c00 == l2 || c00 == l3) + b2i(c00 + 1 == l0 || c00 + 1
        == l1 || c00 + 1 == l2 || c00 + 1 == l3) + b2i(c00 + 10 == l0 || c00 + 10 == l1 || c00 + 10
        == l2 || c00 + 10 == l3) + b2i(c00 + 11 == l0 || c00 + 11 == l1 || c00 + 11 == l2 || c00
        + 11 == l3) == b2i(l0 == c00 || l0 == c00 + 1 || l0 == c00 + 10 || l0 == c00 + 11) + b2i(l1
        == c00 || l1 == c00 + 1 || l1 == c00 + 10 || l1 == c00 + 11) + b2i(l2 == c00 || l2 == c00
        + 1 || l2 == c00 + 10 || l2 == c00 + 11) + b2i(l3 == c00 || l3 == c00 + 1 || l3 == c00 + 10
        || l3 == c00 + 11));
}



/// An on-board offset lies in the 2x2 at (ar, ac) exactly when its linear
/// index is one of the four anchor cells.
pub proof fn lemma_lin_anchor(oc: crate::coords::OffsetCoord, ar: int, ac: int)
    requires
        0 <= ar < 9,
        0 <= ac < 9,
        oc.spec_in_bounds(),
    ensures
        FoursquareCounter::anchor_covers(ar, ac, oc.rows as int, oc.cols as int) <==> (oc.spec_lin()
            == ar * 10 + ac || oc.spec_lin() == ar * 10 + ac + 1 || oc.spec_lin() == (ar + 1) * 10
            + ac || oc.spec_lin() == (ar + 1) * 10 + ac + 1),
{
    vstd::arithmetic::div_mod::lemma_fundamental_div_mod_converse(
        oc.spec_lin(),
        10,
        oc.rows as int,
        oc.cols as int,
    );
}

/// The four cells of the 2x2 at (ar, ac), as linear indices.
pub proof fn lemma_anchor_cell_lin(ar: int, ac: int, dr: int, dc: int)
    requires
        0 <= ar < 9,
        0 <= ac < 9,
        0 <= dr <= 1,
        0 <= dc <= 1,
    ensures
        ((ar + dr) * 10 + ac + dc) / 10 == ar + dr,
        ((ar + dr) * 10 + ac + dc) % 10 == ac + dc,
{
    vstd::arithmetic::div_mod::lemma_fundamental_div_mod_converse(
        (ar + dr) * 10 + ac + dc,
        10,
        ar + dr,
        ac + dc,
    );
}

/// With one piece on the board, a piece adjacent to it never touches an
/// uncovered protected cell: the pair would jointly fill that 2x2 and
/// would conflict instead.
#[verifier::rlimit(100)]
pub proof fn lemma_one_piece_protected(b: Board, m: int, v: int)
    requires
        b.wf_cover(),
        b.wf_foursquare(),
        b.wf_protected(),
        b.hlen() == 1,
        0 <= m < NUM_PIECES,
        b.piecemap.spec_assoc_ids(b.history@[0] as int, m) == Interaction::Adjacent,
        b.piecemap.forward@[m].covers(v),
    ensures
        !(b.protected.has(v) && !b.cover.has(v)),
{
    if b.protected.has(v) && !b.cover.has(v) {
        let p0 = b.hpiece(0);
        let q = b.piecemap.forward@[m];
        let (ar, ac) = choose|ar: int, ac: int|
            0 <= ar < 9 && 0 <= ac < 9 && #[trigger] FoursquareCounter::anchor_covers(
                ar,
                ac,
                v / 10,
                v % 10,
            ) && 0 <= v < 100 && b.foursquare_mask.spec_count(ar, ac) >= 3;
        // the anchor holds at least three covered cells, all from the one piece
        let c00 = ar * 10 + ac;
        assert(b.fs_cells(ar, ac) >= 3);
        // the piece m covers v, one of the anchor's cells; the other three are
        // covered by the first piece, so the union of the two fills the 2x2
        assert(v == c00 || v == c00 + 1 || v == c00 + 10 || v == c00 + 11) by {
            vstd::arithmetic::div_mod::lemma_fundamental_div_mod(v, 10);
        }
        assert(crate::interaction::anchor_full(p0, q, ar, ac)) by {
            assert(b.cover.has(c00) ==> p0.covers(c00));
            assert(b.cover.has(c00 + 1) ==> p0.covers(c00 + 1));
            assert(b.cover.has(c00 + 10) ==> p0.covers(c00 + 10));
            assert(b.cover.has(c00 + 11) ==> p0.covers(c00 + 11));
        }
        assert(crate::interaction::spec_joint_foursquare(p0, q));
        assert(crate::interaction::spec_assoc(p0, q) == Interaction::Conflicting);
    }
}

} // verus!
