use vstd::prelude::*;
use crate::coords::OffsetCoord;
use crate::tetromino::{coord_is, Tetromino};

verus! {

/// The exact nature in which two pieces interact on the board.
/// - Conflicting: pieces that overlap, two tiles of the same kind that are
///   adjacent, or a pair that jointly fills a 2x2 on its own.
/// - Neutral: pieces that are not adjacent.
/// - Adjacent: pieces that are adjacent and not of the same kind.
#[derive(Clone, Copy, Debug, PartialEq, Eq, Structural)]
pub enum Interaction {
    Conflicting,
    Neutral,
    Adjacent,
}

/// Whether the union of the two placements fully covers the 2x2 anchored
/// at (ar, ac).
pub open spec fn anchor_full(p: Tetromino, q: Tetromino, ar: int, ac: int) -> bool {
    let c00 = ar * 10 + ac;
    &&& (p.covers(c00) || q.covers(c00))
    &&& (p.covers(c00 + 1) || q.covers(c00 + 1))
    &&& (p.covers(c00 + 10) || q.covers(c00 + 10))
    &&& (p.covers(c00 + 11) || q.covers(c00 + 11))
}

/// Whether the two placements alone violate the foursquare rule: their
/// union contains some full 2x2.
pub open spec fn spec_joint_foursquare(p: Tetromino, q: Tetromino) -> bool {
    exists|ar: int, ac: int| 0 <= ar < 9 && 0 <= ac < 9 && #[trigger] anchor_full(p, q, ar, ac)
}

/// The interaction between two distinct placements:
/// overlap makes them conflicting; non-adjacency makes them neutral;
/// same-kind adjacency and pairwise foursquare violations make them
/// conflicting; what remains is plain adjacency.
pub open spec fn spec_assoc(p: Tetromino, q: Tetromino) -> Interaction {
    if p.spec_overlaps(q) {
        Interaction::Conflicting
    } else if !p.spec_touches(q) {
        Interaction::Neutral
    } else if p.kind == q.kind {
        Interaction::Conflicting
    } else if spec_joint_foursquare(p, q) {
        Interaction::Conflicting
    } else {
        Interaction::Adjacent
    }
}

/// The interaction of two placements does not depend on their order.
pub proof fn lemma_assoc_symmetric(p: Tetromino, q: Tetromino)
    ensures
        spec_assoc(p, q) == spec_assoc(q, p),
{
    assert(p.spec_overlaps(q) == q.spec_overlaps(p)) by {
        if p.spec_overlaps(q) {
            let v = choose|v: int| #[trigger] p.covers(v) && q.covers(v);
            assert(q.covers(v) && p.covers(v));
        }
        if q.spec_overlaps(p) {
            let v = choose|v: int| #[trigger] q.covers(v) && p.covers(v);
            assert(p.covers(v) && q.covers(v));
        }
    }
    assert(p.spec_touches(q) == q.spec_touches(p)) by {
        if p.spec_touches(q) {
            let (i, j) = choose|i: int, j: int|
                #![trigger p.real_coords@[i], q.real_coords@[j]]
                0 <= i < 4 && 0 <= j < 4 && p.real_coords@[i].spec_manhattan(q.real_coords@[j])
                    == 1;
            assert(q.real_coords@[j].spec_manhattan(p.real_coords@[i]) == 1);
        }
        if q.spec_touches(p) {
            let (i, j) = choose|i: int, j: int|
                #![trigger q.real_coords@[i], p.real_coords@[j]]
                0 <= i < 4 && 0 <= j < 4 && q.real_coords@[i].spec_manhattan(p.real_coords@[j])
                    == 1;
            assert(p.real_coords@[j].spec_manhattan(q.real_coords@[i]) == 1);
        }
    }
    assert(spec_joint_foursquare(p, q) == spec_joint_foursquare(q, p)) by {
        if spec_joint_foursquare(p, q) {
            let (ar, ac) = choose|ar: int, ac: int|
                0 <= ar < 9 && 0 <= ac < 9 && #[trigger] anchor_full(p, q, ar, ac);
            assert(anchor_full(q, p, ar, ac));
        }
        if spec_joint_foursquare(q, p) {
            let (ar, ac) = choose|ar: int, ac: int|
                0 <= ar < 9 && 0 <= ac < 9 && #[trigger] anchor_full(q, p, ar, ac);
            assert(anchor_full(p, q, ar, ac));
        }
    }
}

/// Two on-board offsets that denote the same cell are equal.
proof fn lemma_eq_cell(a: OffsetCoord, b: OffsetCoord, v: int)
    requires
        coord_is(a, v),
        coord_is(b, v),
    ensures
        a == b,
{
    vstd::arithmetic::div_mod::lemma_fundamental_div_mod_converse(v, 10, a.rows as int, a.cols as int);
    vstd::arithmetic::div_mod::lemma_fundamental_div_mod_converse(v, 10, b.rows as int, b.cols as int);
}

/// Whether the two placements share a covered cell.
pub fn overlaps(p: &Tetromino, q: &Tetromino) -> (r: bool)
    requires
        p.spec_in_bounds(),
        q.spec_in_bounds(),
    ensures
        r == p.spec_overlaps(*q),
{
    let mut found = false;
    let mut i: usize = 0;
    while i < 4
        invariant
            i <= 4,
            p.spec_in_bounds(),
            q.spec_in_bounds(),
            found <==> exists|a: int, b: int|
                #![trigger p.real_coords@[a], q.real_coords@[b]]
                0 <= a < i && 0 <= b < 4 && p.real_coords@[a] == q.real_coords@[b],
        decreases 4 - i,
    {
        let mut j: usize = 0;
        while j < 4
            invariant
                i < 4,
                j <= 4,
                p.spec_in_bounds(),
                q.spec_in_bounds(),
                found <==> exists|a: int, b: int|
                    #![trigger p.real_coords@[a], q.real_coords@[b]]
                    (0 <= a < i && 0 <= b < 4 || a == i && 0 <= b < j) && p.real_coords@[a]
                        == q.real_coords@[b],
            decreases 4 - j,
        {
            if p.real_coords[i].rows == q.real_coords[j].rows && p.real_coords[i].cols
                == q.real_coords[j].cols {
                found = true;
                proof {
                    assert(p.real_coords@[i as int] == q.real_coords@[j as int]);
                }
            }
            j = j + 1;
        }
        i = i + 1;
    }
    proof {
        if found {
            let (a, b) = choose|a: int, b: int|
                #![trigger p.real_coords@[a], q.real_coords@[b]]
                0 <= a < 4 && 0 <= b < 4 && p.real_coords@[a] == q.real_coords@[b];
            let v = p.real_coords@[a].spec_lin();
            assert(coord_is(p.real_coords@[a], v) && coord_is(q.real_coords@[b], v));
            assert(p.covers(v) && q.covers(v));
        } else {
            assert forall|v: int| !(#[trigger] p.covers(v) && q.covers(v)) by {
                if p.covers(v) && q.covers(v) {
                    if coord_is(p.real_coords@[0], v) && coord_is(q.real_coords@[0], v) {
                        lemma_eq_cell(p.real_coords@[0], q.real_coords@[0], v);
                    }
                    if coord_is(p.real_coords@[0], v) && coord_is(q.real_coords@[1], v) {
                        lemma_eq_cell(p.real_coords@[0], q.real_coords@[1], v);
                    }
                    if coord_is(p.real_coords@[0], v) && coord_is(q.real_coords@[2], v) {
                        lemma_eq_cell(p.real_coords@[0], q.real_coords@[2], v);
                    }
                    if coord_is(p.real_coords@[0], v) && coord_is(q.real_coords@[3], v) {
                        lemma_eq_cell(p.real_coords@[0], q.real_coords@[3], v);
                    }
                    if coord_is(p.real_coords@[1], v) && coord_is(q.real_coords@[0], v) {
                        lemma_eq_cell(p.real_coords@[1], q.real_coords@[0], v);
                    }
                    if coord_is(p.real_coords@[1], v) && coord_is(q.real_coords@[1], v) {
                        lemma_eq_cell(p.real_coords@[1], q.real_coords@[1], v);
                    }
                    if coord_is(p.real_coords@[1], v) && coord_is(q.real_coords@[2], v) {
                        lemma_eq_cell(p.real_coords@[1], q.real_coords@[2], v);
                    }
                    if coord_is(p.real_coords@[1], v) && coord_is(q.real_coords@[3], v) {
                        lemma_eq_cell(p.real_coords@[1], q.real_coords@[3], v);
                    }
                    if coord_is(p.real_coords@[2], v) && coord_is(q.real_coords@[0], v) {
                        lemma_eq_cell(p.real_coords@[2], q.real_coords@[0], v);
                    }
                    if coord_is(p.real_coords@[2], v) && coord_is(q.real_coords@[1], v) {
                        lemma_eq_cell(p.real_coords@[2], q.real_coords@[1], v);
                    }
                    if coord_is(p.real_coords@[2], v) && coord_is(q.real_coords@[2], v) {
                        lemma_eq_cell(p.real_coords@[2], q.real_coords@[2], v);
                    }
                    if coord_is(p.real_coords@[2], v) && coord_is(q.real_coords@[3], v) {
                        lemma_eq_cell(p.real_coords@[2], q.real_coords@[3], v);
                    }
                    if coord_is(p.real_coords@[3], v) && coord_is(q.real_coords@[0], v) {
                        lemma_eq_cell(p.real_coords@[3], q.real_coords@[0], v);
                    }
                    if coord_is(p.real_coords@[3], v) && coord_is(q.real_coords@[1], v) {
                        lemma_eq_cell(p.real_coords@[3], q.real_coords@[1], v);
                    }
                    if coord_is(p.real_coords@[3], v) && coord_is(q.real_coords@[2], v) {
                        lemma_eq_cell(p.real_coords@[3], q.real_coords@[2], v);
                    }
                    if coord_is(p.real_coords@[3], v) && coord_is(q.real_coords@[3], v) {
                        lemma_eq_cell(p.real_coords@[3], q.real_coords@[3], v);
                    }
                }
            }
        }
    }
    found
}

/// Whether some cell of one placement borders some cell of the other.
pub fn touches(p: &Tetromino, q: &Tetromino) -> (r: bool)
    requires
        p.spec_in_bounds(),
        q.spec_in_bounds(),
    ensures
        r == p.spec_touches(*q),
{
    let mut found = false;
    let mut i: usize = 0;
    while i < 4
        invariant
            i <= 4,
            p.spec_in_bounds(),
            q.spec_in_bounds(),
            found <==> exists|a: int, b: int|
                #![trigger p.real_coords@[a], q.real_coords@[b]]
                0 <= a < i && 0 <= b < 4 && p.real_coords@[a].spec_manhattan(q.real_coords@[b])
                    == 1,
        decreases 4 - i,
    {
        let mut j: usize = 0;
        while j < 4
            invariant
                i < 4,
                j <= 4,
                p.spec_in_bounds(),
                q.spec_in_bounds(),
                found <==> exists|a: int, b: int|
                    #![trigger p.real_coords@[a], q.real_coords@[b]]
                    (0 <= a < i && 0 <= b < 4 || a == i && 0 <= b < j)
                        && p.real_coords@[a].spec_manhattan(q.real_coords@[b]) == 1,
            decreases 4 - j,
        {
            if p.real_coords[i].neighbours(q.real_coords[j]) {
                found = true;
                proof {
                    assert(p.real_coords@[i as int].spec_manhattan(q.real_coords@[j as int]) == 1);
                }
            }
            j = j + 1;
        }
        i = i + 1;
    }
    found
}

/// Whether the union of the two placements fully covers some 2x2.
pub fn joint_foursquare(p: &Tetromino, q: &Tetromino) -> (r: bool)
    ensures
        r == spec_joint_foursquare(*p, *q),
{
    let mut found = false;
    let mut idx: usize = 0;
    while idx < 81
        invariant
            idx <= 81,
            found <==> exists|ar: int, ac: int|
                0 <= ar < 9 && 0 <= ac < 9 && ar * 9 + ac < idx && #[trigger] anchor_full(
                    *p,
                    *q,
                    ar,
                    ac,
                ),
        decreases 81 - idx,
    {
        let ar = idx / 9;
        let ac = idx % 9;
        let c00 = ar * 10 + ac;
        let full = (p.covers_cell(c00) || q.covers_cell(c00)) && (p.covers_cell(c00 + 1)
            || q.covers_cell(c00 + 1)) && (p.covers_cell(c00 + 10) || q.covers_cell(c00 + 10)) && (
        p.covers_cell(c00 + 11) || q.covers_cell(c00 + 11));
        if full {
            found = true;
            proof {
                assert(anchor_full(*p, *q, ar as int, ac as int));
            }
        }
        proof {
            assert forall|br: int, bc: int|
                0 <= br < 9 && 0 <= bc < 9 && br * 9 + bc < idx + 1 && #[trigger] anchor_full(
                    *p,
                    *q,
                    br,
                    bc,
                ) implies found by {
                if br * 9 + bc == idx {
                    assert(br == ar && bc == ac);
                }
            }
        }
        idx = idx + 1;
    }
    proof {
        if !found {
            assert forall|ar: int, ac: int|
                !(0 <= ar < 9 && 0 <= ac < 9 && #[trigger] anchor_full(*p, *q, ar, ac)) by {
                if 0 <= ar < 9 && 0 <= ac < 9 {
                    assert(ar * 9 + ac < 81);
                }
            }
        }
    }
    found
}

/// Computes the interaction between two distinct placements.
pub fn interaction_of(p: &Tetromino, q: &Tetromino) -> (r: Interaction)
    requires
        p.spec_in_bounds(),
        q.spec_in_bounds(),
    ensures
        r == spec_assoc(*p, *q),
{
    if overlaps(p, q) {
        Interaction::Conflicting
    } else if !touches(p, q) {
        Interaction::Neutral
    } else if p.kind.index() == q.kind.index() {
        Interaction::Conflicting
    } else if joint_foursquare(p, q) {
        Interaction::Conflicting
    } else {
        Interaction::Adjacent
    }
}

} // verus!
