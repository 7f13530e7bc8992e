use vstd::prelude::*;
use crate::consts::{Tile, NUM_PIECES};
use crate::coords::{Coord, OffsetCoord};
use crate::piecemap::{is_slot_piece, piece_ok, scan_index, slot_count_upto, slot_in_bounds,
    slot_valid, tile_of_idx, transform_of_idx, PieceMap};
use crate::coordset::CoordSet;
use crate::interaction::Interaction;
use crate::moveset::MoveSet;
use crate::tetromino::{spec_is_apply, Tetromino};
use crate::transform::Transform;

verus! {

/// The transform with the given dense index.
fn transform_from_index(i: usize) -> (r: Transform)
    requires
        i < 8,
    ensures
        r == transform_of_idx(i as int),
{
    match i {
        0 => Transform::Identity,
        1 => Transform::Rot90,
        2 => Transform::Rot180,
        3 => Transform::Rot270,
        4 => Transform::Reflect,
        5 => Transform::ReflRot90,
        6 => Transform::ReflRot180,
        _ => Transform::ReflRot270,
    }
}

/// Builds the placement of one scan slot, if the slot is valid: the slot's
/// transform must be canonical for its kind and the placed piece must lie
/// on the board.
#[verifier::rlimit(100)]
fn try_slot(k: usize) -> (r: Option<Tetromino>)
    requires
        k < 3200,
    ensures
        r is Some <==> slot_valid(k as int),
        r is Some ==> (piece_ok(r->0) && is_slot_piece(r->0, k as int) && scan_index(r->0)
            == k as int),
{
    let kind = Tile::from_index(k / 800);
    let row = (k % 800) / 80;
    let col = (k % 80) / 8;
    let tr = transform_from_index(k % 8);
    proof {
        lemma_scan_decompose(k as int);
        assert(kind == tile_of_idx(k as int / 800));
    }
    let ct = tr.canonicalize(&kind);
    if ct == tr {
        let anchor = Coord { row, col };
        let iden = Tetromino::identity(kind, &anchor);
        let piece = tr.apply(&iden);
        proof {
            assert(spec_is_apply(piece, tr, iden));
            assert(piece.transform == tr) by {
                assert(Transform::Identity.spec_compose(tr) == tr);
            }
            assert forall|p: int| 0 <= p < 4 implies #[trigger] piece.points@[p]
                == tr.spec_apply_one(Tetromino::spec_template(kind)[p]) by {
                assert(iden.points@[p] == Tetromino::spec_template(kind)[p]);
            }
            assert(scan_index(piece) == k as int);
            assert(is_slot_piece(piece, k as int));
        }
        if piece.in_bounds() {
            proof {
                assert(slot_in_bounds(kind, row as int, col as int, transform_of_idx(k as int % 8)))
                    by {
                    assert(piece.real_ok());
                }
                assert(slot_valid(k as int));
                assert(piece.spec_distinct()) by {
                    lemma_template_points_distinct(kind, tr);
                    assert(piece.real_ok());
                }
                assert(piece_ok(piece));
            }
            Some(piece)
        } else {
            proof {
                assert(!slot_in_bounds(
                    kind,
                    row as int,
                    col as int,
                    transform_of_idx(k as int % 8),
                )) by {
                    assert(piece.real_ok());
                }
                assert(!slot_valid(k as int));
            }
            None
        }
    } else {
        proof {
            assert(!slot_valid(k as int));
        }
        None
    }
}

/// Enumerates every placement in scan order: kinds L, I, T, S; anchors
/// row-major; the distinct rotations and reflections of the kind; keeping
/// each placement whose cells all lie on the board.
fn build_forward() -> (r: Vec<Tetromino>)
    ensures
        r@.len() == slot_count_upto(3200),
        forall|id: int| 0 <= id < r@.len() ==> piece_ok(#[trigger] r@[id]),
        forall|id: int|
            0 <= id < r@.len() ==> slot_valid(scan_index(#[trigger] r@[id])) && is_slot_piece(
                r@[id],
                scan_index(r@[id]),
            ),
        forall|id1: int, id2: int|
            0 <= id1 < id2 < r@.len() ==> scan_index(r@[id1]) < scan_index(r@[id2]),
        forall|kk: int|
            0 <= kk < 3200 && slot_valid(kk) ==> exists|id: int|
                0 <= id < r@.len() && scan_index(#[trigger] r@[id]) == kk,
{
    let mut forward: Vec<Tetromino> = Vec::new();
    let mut k: usize = 0;
    while k < 3200
        invariant
            k <= 3200,
            forward@.len() == slot_count_upto(k as int),
            forward@.len() <= k,
            forall|id: int| 0 <= id < forward@.len() ==> piece_ok(#[trigger] forward@[id]),
            forall|id: int|
                0 <= id < forward@.len() ==> slot_valid(scan_index(#[trigger] forward@[id]))
                    && is_slot_piece(forward@[id], scan_index(forward@[id])) && scan_index(
                    forward@[id],
                ) < k,
            forall|id1: int, id2: int|
                0 <= id1 < id2 < forward@.len() ==> scan_index(forward@[id1]) < scan_index(
                    forward@[id2],
                ),
            forall|kk: int|
                0 <= kk < k && slot_valid(kk) ==> exists|id: int|
                    0 <= id < forward@.len() && scan_index(#[trigger] forward@[id]) == kk,
        decreases 3200 - k,
    {
        let ghost prev = forward@;
        match try_slot(k) {
            Some(piece) => {
                forward.push(piece);
                proof {
                    assert(forward@ =~= prev.push(piece));
                    assert forall|kk: int|
                        0 <= kk < k + 1 && slot_valid(kk) implies exists|id: int|
                        0 <= id < forward@.len() && scan_index(#[trigger] forward@[id]) == kk by {
                        if kk < k {
                            let id = choose|id: int|
                                0 <= id < prev.len() && scan_index(#[trigger] prev[id]) == kk;
                            assert(scan_index(forward@[id]) == kk);
                        } else {
                            assert(scan_index(forward@[forward@.len() - 1]) == kk);
                        }
                    }
                }
            },
            None => {
                proof {
                    assert(!slot_valid(k as int));
                }
            },
        }
        k = k + 1;
    }
    forward
}

/// Decomposes a scan slot into its kind, anchor, and transform digits.
proof fn lemma_scan_decompose(k: int)
    requires
        0 <= k < 3200,
    ensures
        k == (k / 800) * 800 + ((k % 800) / 80) * 80 + ((k % 80) / 8) * 8 + k % 8,
        0 <= k / 800 < 4,
        0 <= (k % 800) / 80 < 10,
        0 <= (k % 80) / 8 < 10,
        0 <= k % 8 < 8,
        (k % 800) % 80 == k % 80,
        (k % 80) % 8 == k % 8,
{
    vstd::arithmetic::div_mod::lemma_fundamental_div_mod(k, 800);
    vstd::arithmetic::div_mod::lemma_fundamental_div_mod(k % 800, 80);
    vstd::arithmetic::div_mod::lemma_fundamental_div_mod(k % 80, 8);
    assert((k % 800) % 80 == k % 80) by {
        vstd::arithmetic::div_mod::lemma_mod_mod(k, 80, 10);
    }
    assert((k % 80) % 8 == k % 8) by {
        vstd::arithmetic::div_mod::lemma_mod_mod(k, 8, 10);
    }
}

/// The four template points of a kind stay pairwise distinct under any
/// transform.
proof fn lemma_template_points_distinct(kind: Tile, tr: Transform)
    ensures
        tr.spec_apply_one(Tetromino::spec_template(kind)[0]) != tr.spec_apply_one(
            Tetromino::spec_template(kind)[1],
        ),
        tr.spec_apply_one(Tetromino::spec_template(kind)[0]) != tr.spec_apply_one(
            Tetromino::spec_template(kind)[2],
        ),
        tr.spec_apply_one(Tetromino::spec_template(kind)[0]) != tr.spec_apply_one(
            Tetromino::spec_template(kind)[3],
        ),
        tr.spec_apply_one(Tetromino::spec_template(kind)[1]) != tr.spec_apply_one(
            Tetromino::spec_template(kind)[2],
        ),
        tr.spec_apply_one(Tetromino::spec_template(kind)[1]) != tr.spec_apply_one(
            Tetromino::spec_template(kind)[3],
        ),
        tr.spec_apply_one(Tetromino::spec_template(kind)[2]) != tr.spec_apply_one(
            Tetromino::spec_template(kind)[3],
        ),
{
}


/// Two four-element coordinate arrays with the same members denote the
/// same cells.
proof fn lemma_same_four(a: [OffsetCoord; 4], b: [OffsetCoord; 4])
    requires
        b@[0] == a@[0] || b@[0] == a@[1] || b@[0] == a@[2] || b@[0] == a@[3],
        b@[1] == a@[0] || b@[1] == a@[1] || b@[1] == a@[2] || b@[1] == a@[3],
        b@[2] == a@[0] || b@[2] == a@[1] || b@[2] == a@[2] || b@[2] == a@[3],
        b@[3] == a@[0] || b@[3] == a@[1] || b@[3] == a@[2] || b@[3] == a@[3],
        a@[0] == b@[0] || a@[0] == b@[1] || a@[0] == b@[2] || a@[0] == b@[3],
        a@[1] == b@[0] || a@[1] == b@[1] || a@[1] == b@[2] || a@[1] == b@[3],
        a@[2] == b@[0] || a@[2] == b@[1] || a@[2] == b@[2] || a@[2] == b@[3],
        a@[3] == b@[0] || a@[3] == b@[1] || a@[3] == b@[2] || a@[3] == b@[3],
    ensures
        forall|v: int| #[trigger]
            crate::piecemap::coord_is_one_of(a, v) == crate::piecemap::coord_is_one_of(b, v),
{
}

/// The sorted coordinates of a placement are on the board and denote
/// exactly the cells the placement covers.
#[verifier::rlimit(100)]
pub proof fn lemma_sorted_covers(t: Tetromino, sorted: [OffsetCoord; 4])
    requires
        piece_ok(t),
        forall|kk: int|
            #![trigger sorted@[kk]]
            0 <= kk < 4 ==> (sorted@[kk] == crate::tetromino::sum_oc(t.anchor, t.points@[0])
                || sorted@[kk] == crate::tetromino::sum_oc(t.anchor, t.points@[1]) || sorted@[kk]
                == crate::tetromino::sum_oc(t.anchor, t.points@[2]) || sorted@[kk]
                == crate::tetromino::sum_oc(t.anchor, t.points@[3])),
        forall|j: int|
            #![trigger t.points@[j]]
            0 <= j < 4 ==> (crate::tetromino::sum_oc(t.anchor, t.points@[j]) == sorted@[0]
                || crate::tetromino::sum_oc(t.anchor, t.points@[j]) == sorted@[1]
                || crate::tetromino::sum_oc(t.anchor, t.points@[j]) == sorted@[2]
                || crate::tetromino::sum_oc(t.anchor, t.points@[j]) == sorted@[3]),
    ensures
        forall|kk: int| 0 <= kk < 4 ==> (#[trigger] sorted@[kk]).spec_in_bounds(),
        forall|v: int| #[trigger] crate::piecemap::coord_is_one_of(sorted, v) == t.covers(v),
{
    assert(crate::tetromino::sum_oc(t.anchor, t.points@[0]) == t.real_coords@[0]
        && crate::tetromino::sum_oc(t.anchor, t.points@[1]) == t.real_coords@[1]
        && crate::tetromino::sum_oc(t.anchor, t.points@[2]) == t.real_coords@[2]
        && crate::tetromino::sum_oc(t.anchor, t.points@[3]) == t.real_coords@[3]);
    assert(sorted@[0] == t.real_coords@[0] || sorted@[0] == t.real_coords@[1] || sorted@[0]
        == t.real_coords@[2] || sorted@[0] == t.real_coords@[3]);
    assert(sorted@[1] == t.real_coords@[0] || sorted@[1] == t.real_coords@[1] || sorted@[1]
        == t.real_coords@[2] || sorted@[1] == t.real_coords@[3]);
    assert(sorted@[2] == t.real_coords@[0] || sorted@[2] == t.real_coords@[1] || sorted@[2]
        == t.real_coords@[2] || sorted@[2] == t.real_coords@[3]);
    assert(sorted@[3] == t.real_coords@[0] || sorted@[3] == t.real_coords@[1] || sorted@[3]
        == t.real_coords@[2] || sorted@[3] == t.real_coords@[3]);
    assert(t.real_coords@[0] == sorted@[0] || t.real_coords@[0] == sorted@[1] || t.real_coords@[0]
        == sorted@[2] || t.real_coords@[0] == sorted@[3]) by {
        assert(crate::tetromino::sum_oc(t.anchor, t.points@[0]) == t.real_coords@[0]);
    }
    assert(t.real_coords@[1] == sorted@[0] || t.real_coords@[1] == sorted@[1] || t.real_coords@[1]
        == sorted@[2] || t.real_coords@[1] == sorted@[3]) by {
        assert(crate::tetromino::sum_oc(t.anchor, t.points@[1]) == t.real_coords@[1]);
    }
    assert(t.real_coords@[2] == sorted@[0] || t.real_coords@[2] == sorted@[1] || t.real_coords@[2]
        == sorted@[2] || t.real_coords@[2] == sorted@[3]) by {
        assert(crate::tetromino::sum_oc(t.anchor, t.points@[2]) == t.real_coords@[2]);
    }
    assert(t.real_coords@[3] == sorted@[0] || t.real_coords@[3] == sorted@[1] || t.real_coords@[3]
        == sorted@[2] || t.real_coords@[3] == sorted@[3]) by {
        assert(crate::tetromino::sum_oc(t.anchor, t.points@[3]) == t.real_coords@[3]);
    }
    lemma_same_four(t.real_coords, sorted);
    assert forall|v: int| #[trigger] crate::piecemap::coord_is_one_of(sorted, v) == t.covers(
        v,
    ) by {
        assert(crate::piecemap::coord_is_one_of(sorted, v) == crate::piecemap::coord_is_one_of(
            t.real_coords,
            v,
        ));
    }
}

/// The sorted on-board cells of a placement.
#[verifier::rlimit(100)]
fn sorted_cells(t: &Tetromino) -> (sorted: [OffsetCoord; 4])
    requires
        piece_ok(*t),
    ensures
        forall|kk: int| 0 <= kk < 4 ==> (#[trigger] sorted@[kk]).spec_in_bounds(),
        crate::tetromino::spec_le_oc(sorted@[0], sorted@[1]) && crate::tetromino::spec_le_oc(
            sorted@[1],
            sorted@[2],
        ) && crate::tetromino::spec_le_oc(sorted@[2], sorted@[3]),
        sorted@[0] != sorted@[1] && sorted@[1] != sorted@[2] && sorted@[2] != sorted@[3],
        forall|v: int| #[trigger] crate::piecemap::coord_is_one_of(sorted, v) == t.covers(v),
{
    let sorted = t.real_coords();
    proof {
        assert(crate::tetromino::spec_le_oc(sorted@[0], sorted@[1])
            && crate::tetromino::spec_le_oc(sorted@[1], sorted@[2])
            && crate::tetromino::spec_le_oc(sorted@[2], sorted@[3]));
        assert(sorted@[0] != sorted@[1] && sorted@[1] != sorted@[2] && sorted@[2] != sorted@[3])
            by {
            assert(t.real_ok() && t.spec_distinct());
        }
        lemma_sorted_covers(*t, sorted);
    }
    sorted
}

/// Computes the reverse-lookup key of one placement.
#[verifier::rlimit(100)]
fn piece_key(t: &Tetromino) -> (key: u64)
    requires
        piece_ok(*t),
    ensures
        crate::piecemap::key_strict(key as int),
        forall|v: int| #[trigger]
            crate::piecemap::key_decodes_to(key as int, v) <==> t.covers(v),
{
    let sorted = sorted_cells(t);
    let key = crate::piecemap::encode_cells(&sorted);
    proof {
        lemma_key_covers_chain(key as int, sorted, *t);
    }
    key
}

/// Chains the key decoding through the sorted coordinates to the piece.
proof fn lemma_key_covers_chain(key: int, sorted: [OffsetCoord; 4], t: Tetromino)
    requires
        forall|v: int| #[trigger]
            crate::piecemap::key_decodes_to(key, v) <==> crate::piecemap::coord_is_one_of(
                sorted,
                v,
            ),
        forall|v: int| #[trigger] crate::piecemap::coord_is_one_of(sorted, v) == t.covers(v),
    ensures
        forall|v: int| #[trigger] crate::piecemap::key_decodes_to(key, v) <==> t.covers(v),
{
    assert forall|v: int| #[trigger] crate::piecemap::key_decodes_to(key, v) <==> t.covers(v) by {
        assert(crate::piecemap::key_decodes_to(key, v) == crate::piecemap::coord_is_one_of(
            sorted,
            v,
        ));
    }
}

/// Builds the reverse lookup keys: the sorted cells of each placement.
fn build_reverse(forward: &Vec<Tetromino>) -> (r: Vec<u64>)
    requires
        forall|id: int| 0 <= id < forward@.len() ==> piece_ok(#[trigger] forward@[id]),
    ensures
        r@.len() == forward@.len(),
        forall|id: int| 0 <= id < r@.len() ==> crate::piecemap::key_strict(#[trigger] r@[id] as int),
        forall|id: int, v: int|
            0 <= id < r@.len() ==> ((#[trigger] crate::piecemap::key_decodes_to(r@[id] as int, v))
                <==> forward@[id].covers(v)),
{
    let mut r: Vec<u64> = Vec::new();
    let mut id: usize = 0;
    while id < forward.len()
        invariant
            id <= forward@.len(),
            r@.len() == id,
            forall|i: int| 0 <= i < forward@.len() ==> piece_ok(#[trigger] forward@[i]),
            forall|i: int|
                0 <= i < id ==> crate::piecemap::key_strict(#[trigger] r@[i] as int),
            forall|i: int, v: int|
                0 <= i < id ==> ((#[trigger] crate::piecemap::key_decodes_to(r@[i] as int, v))
                    <==> forward@[i].covers(v)),
        decreases forward@.len() - id,
    {
        let key = piece_key(&forward[id]);
        r.push(key);
        id = id + 1;
    }
    r
}

/// Builds the full symmetric interaction matrix.
fn build_associations(forward: &Vec<Tetromino>) -> (r: Vec<Vec<Interaction>>)
    requires
        forall|id: int| 0 <= id < forward@.len() ==> piece_ok(#[trigger] forward@[id]),
    ensures
        r@.len() == forward@.len(),
        forall|i: int| 0 <= i < r@.len() ==> (#[trigger] r@[i])@.len() == forward@.len(),
        forall|i: int, j: int|
            0 <= i < r@.len() && 0 <= j < r@.len() ==> #[trigger] r@[i]@[j] == (if i == j {
                Interaction::Conflicting
            } else {
                crate::interaction::spec_assoc(forward@[i], forward@[j])
            }),
{
    let n = forward.len();
    let mut r: Vec<Vec<Interaction>> = Vec::new();
    let mut i: usize = 0;
    while i < n
        invariant
            n == forward@.len(),
            i <= n,
            r@.len() == i,
            forall|a: int| 0 <= a < forward@.len() ==> piece_ok(#[trigger] forward@[a]),
            forall|a: int| 0 <= a < i ==> (#[trigger] r@[a])@.len() == n,
            forall|a: int, b: int|
                0 <= a < i && 0 <= b < n ==> #[trigger] r@[a]@[b] == (if a == b {
                    Interaction::Conflicting
                } else {
                    crate::interaction::spec_assoc(forward@[a], forward@[b])
                }),
        decreases n - i,
    {
        let mut row: Vec<Interaction> = Vec::new();
        let mut j: usize = 0;
        while j < n
            invariant
                n == forward@.len(),
                i < n,
                j <= n,
                row@.len() == j,
                forall|a: int| 0 <= a < forward@.len() ==> piece_ok(#[trigger] forward@[a]),
                forall|b: int|
                    0 <= b < j ==> #[trigger] row@[b] == (if i as int == b {
                        Interaction::Conflicting
                    } else {
                        crate::interaction::spec_assoc(forward@[i as int], forward@[b])
                    }),
            decreases n - j,
        {
            if i == j {
                row.push(Interaction::Conflicting);
            } else {
                let v = crate::interaction::interaction_of(&forward[i], &forward[j]);
                row.push(v);
            }
            j = j + 1;
        }
        r.push(row);
        i = i + 1;
    }
    r
}

/// Builds the per-piece interaction sets from the matrix.
fn build_per_sets(n: usize, associations: &Vec<Vec<Interaction>>, which: Interaction) -> (r: Vec<
    MoveSet,
>)
    requires
        n <= NUM_PIECES,
        associations@.len() == n,
        forall|i: int| 0 <= i < n ==> (#[trigger] associations@[i])@.len() == n,
    ensures
        r@.len() == n,
        forall|i: int| 0 <= i < n ==> (#[trigger] r@[i]).inv(),
        forall|i: int, j: int|
            0 <= i < n ==> ((#[trigger] r@[i].has(j)) <==> (0 <= j < n && associations@[i]@[j]
                == which)),
{
    let mut r: Vec<MoveSet> = Vec::new();
    let mut i: usize = 0;
    while i < n
        invariant
            n <= NUM_PIECES,
            associations@.len() == n,
            forall|a: int| 0 <= a < n ==> (#[trigger] associations@[a])@.len() == n,
            i <= n,
            r@.len() == i,
            forall|a: int| 0 <= a < i ==> (#[trigger] r@[a]).inv(),
            forall|a: int, b: int|
                0 <= a < i ==> ((#[trigger] r@[a].has(b)) <==> (0 <= b < n
                    && associations@[a]@[b] == which)),
        decreases n - i,
    {
        let mut set = MoveSet::empty();
        let mut j: usize = 0;
        while j < n
            invariant
                n <= NUM_PIECES,
                associations@.len() == n,
                forall|a: int| 0 <= a < n ==> (#[trigger] associations@[a])@.len() == n,
                i < n,
                j <= n,
                set.inv(),
                forall|b: int|
                    #![trigger set.has(b)]
                    set.has(b) <==> (0 <= b < j && associations@[i as int]@[b] == which),
            decreases n - j,
        {
            if associations[i][j] == which {
                set.insert(j);
            }
            j = j + 1;
        }
        r.push(set);
        i = i + 1;
    }
    r
}

/// Builds the cell set of each placement.
fn build_selfs(forward: &Vec<Tetromino>) -> (r: Vec<CoordSet>)
    requires
        forall|id: int| 0 <= id < forward@.len() ==> piece_ok(#[trigger] forward@[id]),
    ensures
        r@.len() == forward@.len(),
        forall|id: int| 0 <= id < r@.len() ==> (#[trigger] r@[id]).inv(),
        forall|id: int, v: int|
            0 <= id < r@.len() ==> ((#[trigger] r@[id].has(v)) <==> forward@[id].covers(v)),
{
    let mut r: Vec<CoordSet> = Vec::new();
    let mut id: usize = 0;
    while id < forward.len()
        invariant
            id <= forward@.len(),
            r@.len() == id,
            forall|i: int| 0 <= i < forward@.len() ==> piece_ok(#[trigger] forward@[i]),
            forall|i: int| 0 <= i < id ==> (#[trigger] r@[i]).inv(),
            forall|i: int, v: int|
                0 <= i < id ==> ((#[trigger] r@[i].has(v)) <==> forward@[i].covers(v)),
        decreases forward@.len() - id,
    {
        let t = &forward[id];
        let mut set = CoordSet::empty();
        set.insert(&t.real_coords[0].coerce());
        set.insert(&t.real_coords[1].coerce());
        set.insert(&t.real_coords[2].coerce());
        set.insert(&t.real_coords[3].coerce());
        proof {
            assert forall|v: int| #[trigger] set.has(v) <==> t.covers(v) by {}
        }
        r.push(set);
        id = id + 1;
    }
    r
}

/// Builds the neighbour set of each placement.
fn build_neighbours(forward: &Vec<Tetromino>) -> (r: Vec<CoordSet>)
    ensures
        r@.len() == forward@.len(),
        forall|id: int| 0 <= id < r@.len() ==> (#[trigger] r@[id]).inv(),
        forall|id: int, v: int|
            0 <= id < r@.len() ==> ((#[trigger] r@[id].has(v)) <==> forward@[id].spec_neighbour(
                v,
            )),
{
    let mut r: Vec<CoordSet> = Vec::new();
    let mut id: usize = 0;
    while id < forward.len()
        invariant
            id <= forward@.len(),
            r@.len() == id,
            forall|i: int| 0 <= i < id ==> (#[trigger] r@[i]).inv(),
            forall|i: int, v: int|
                0 <= i < id ==> ((#[trigger] r@[i].has(v)) <==> forward@[i].spec_neighbour(v)),
        decreases forward@.len() - id,
    {
        let set = forward[id].neighbours();
        r.push(set);
        id = id + 1;
    }
    r
}

/// Builds the orthogonal-neighbour set of each board cell.
fn build_coord_neighbours() -> (r: Vec<CoordSet>)
    ensures
        r@.len() == 100,
        forall|c: int| 0 <= c < 100 ==> (#[trigger] r@[c]).inv(),
        forall|c: int, v: int|
            0 <= c < 100 ==> ((#[trigger] r@[c].has(v)) <==> crate::piecemap::cells_adjacent(c, v)),
{
    let mut r: Vec<CoordSet> = Vec::new();
    let mut c: usize = 0;
    while c < 100
        invariant
            c <= 100,
            r@.len() == c,
            forall|a: int| 0 <= a < c ==> (#[trigger] r@[a]).inv(),
            forall|a: int, v: int|
                0 <= a < c ==> ((#[trigger] r@[a].has(v)) <==> crate::piecemap::cells_adjacent(
                    a,
                    v,
                )),
        decreases 100 - c,
    {
        let mut set = CoordSet::empty();
        if c >= 10 {
            set.insert(&Coord::from_lin(c - 10));
        }
        if c + 10 < 100 {
            set.insert(&Coord::from_lin(c + 10));
        }
        if c % 10 != 0 {
            set.insert(&Coord::from_lin(c - 1));
        }
        if c % 10 != 9 {
            set.insert(&Coord::from_lin(c + 1));
        }
        proof {
            assert forall|v: int| #[trigger]
                set.has(v) <==> crate::piecemap::cells_adjacent(c as int, v) by {}
        }
        r.push(set);
        c = c + 1;
    }
    r
}

/// Whether the first of two placements at distinct valid scan slots covers
/// the same cells as the second: the witness that refutes
/// `slots_have_distinct_cells`.
proof fn lemma_refute_distinct_slots(t1: Tetromino, t2: Tetromino)
    requires
        slot_valid(scan_index(t1)),
        slot_valid(scan_index(t2)),
        is_slot_piece(t1, scan_index(t1)),
        is_slot_piece(t2, scan_index(t2)),
        scan_index(t1) != scan_index(t2),
        crate::piecemap::pieces_same_cells(t1, t2),
    ensures
        !crate::piecemap::slots_have_distinct_cells(),
{
}

impl PieceMap {
    /// Creates the piece map: enumerates every placement that fits on the
    /// board and precomputes every pairwise interaction. Returns `None`
    /// exactly when the enumeration does not have `NUM_PIECES` placements,
    /// or when two of them would cover the same four cells and the
    /// coordinate lookup could not tell them apart.
    pub fn new() -> (r: Option<PieceMap>)
        ensures
            r is Some <==> (slot_count_upto(3200) == NUM_PIECES
                && crate::piecemap::slots_have_distinct_cells()),
            r is Some ==> (r->0.wf() && r->0.complete()),
    {
        let forward = build_forward();
        if forward.len() != 1292 {
            return None;
        }
        let reverse = build_reverse(&forward);
        let mut i: usize = 0;
        while i < 1292
            invariant
                i <= 1292,
                forward@.len() == 1292,
                reverse@.len() == 1292,
                forall|id: int|
                    0 <= id < 1292 ==> crate::piecemap::key_strict(#[trigger] reverse@[id] as int),
                forall|id: int, v: int|
                    0 <= id < 1292 ==> ((#[trigger] crate::piecemap::key_decodes_to(
                        reverse@[id] as int,
                        v,
                    )) <==> forward@[id].covers(v)),
                forall|id: int|
                    0 <= id < 1292 ==> slot_valid(scan_index(#[trigger] forward@[id]))
                        && is_slot_piece(forward@[id], scan_index(forward@[id])),
                forall|id1: int, id2: int|
                    0 <= id1 < id2 < 1292 ==> scan_index(forward@[id1]) < scan_index(
                        forward@[id2],
                    ),
                forall|a: int, b: int|
                    #![trigger reverse@[a], reverse@[b]]
                    0 <= a < b < 1292 && a < i ==> reverse@[a] != reverse@[b],
            decreases 1292 - i,
        {
            let mut j: usize = i + 1;
            while j < 1292
                invariant
                    i < j <= 1292,
                    forward@.len() == 1292,
                    reverse@.len() == 1292,
                    forall|id: int|
                        0 <= id < 1292 ==> crate::piecemap::key_strict(
                            #[trigger] reverse@[id] as int,
                        ),
                    forall|id: int, v: int|
                        0 <= id < 1292 ==> ((#[trigger] crate::piecemap::key_decodes_to(
                            reverse@[id] as int,
                            v,
                        )) <==> forward@[id].covers(v)),
                    forall|id: int|
                        0 <= id < 1292 ==> slot_valid(scan_index(#[trigger] forward@[id]))
                            && is_slot_piece(forward@[id], scan_index(forward@[id])),
                    forall|id1: int, id2: int|
                        0 <= id1 < id2 < 1292 ==> scan_index(forward@[id1]) < scan_index(
                            forward@[id2],
                        ),
                    forall|a: int, b: int|
                        #![trigger reverse@[a], reverse@[b]]
                        0 <= a < b < 1292 && a < i ==> reverse@[a] != reverse@[b],
                    forall|b: int|
                        #![trigger reverse@[b]]
                        i < b < j ==> reverse@[i as int] != reverse@[b],
                decreases 1292 - j,
            {
                if reverse[i] == reverse[j] {
                    proof {
                        let t1 = forward@[i as int];
                        let t2 = forward@[j as int];
                        assert(scan_index(t1) < scan_index(t2));
                        assert(crate::piecemap::pieces_same_cells(t1, t2)) by {
                            assert forall|v: int| #[trigger] t1.covers(v) == t2.covers(v) by {
                                assert(crate::piecemap::key_decodes_to(reverse@[i as int] as int, v)
                                    == t1.covers(v));
                                assert(crate::piecemap::key_decodes_to(reverse@[j as int] as int, v)
                                    == t2.covers(v));
                            }
                        }
                        lemma_refute_distinct_slots(t1, t2);
                    }
                    return None;
                }
                j = j + 1;
            }
            i = i + 1;
        }
        let associations = build_associations(&forward);
        let per_conflicting = build_per_sets(1292, &associations, Interaction::Conflicting);
        let per_neutral = build_per_sets(1292, &associations, Interaction::Neutral);
        let per_adjacent = build_per_sets(1292, &associations, Interaction::Adjacent);
        let coord_neighbours = build_coord_neighbours();
        let neighbours = build_neighbours(&forward);
        let selfs = build_selfs(&forward);
        let pm = PieceMap {
            forward,
            reverse,
            associations,
            per_conflicting,
            per_neutral,
            per_adjacent,
            coord_neighbours,
            neighbours,
            selfs,
        };
        proof {
            assert(pm.wf());
            assert(pm.complete());
            assert(crate::piecemap::slots_have_distinct_cells()) by {
                assert forall|t1: Tetromino, t2: Tetromino|
                    slot_valid(scan_index(t1)) && slot_valid(scan_index(t2)) && is_slot_piece(
                        t1,
                        scan_index(t1),
                    ) && is_slot_piece(t2, scan_index(t2)) && scan_index(t1) != scan_index(
                        t2,
                    ) implies !#[trigger] crate::piecemap::pieces_same_cells(t1, t2) by {
                    let k1 = scan_index(t1);
                    let k2 = scan_index(t2);
                    assert(0 <= k1 < 3200 && slot_valid(k1));
                    assert(0 <= k2 < 3200 && slot_valid(k2));
                    let id1 = choose|id: int|
                        0 <= id < NUM_PIECES && scan_index(#[trigger] pm.forward@[id]) == k1;
                    let id2 = choose|id: int|
                        0 <= id < NUM_PIECES && scan_index(#[trigger] pm.forward@[id]) == k2;
                    crate::piecemap::lemma_slot_piece_cells(pm.forward@[id1], t1, k1);
                    crate::piecemap::lemma_slot_piece_cells(pm.forward@[id2], t2, k2);
                    assert(id1 != id2);
                    pm.lemma_distinct_cells(id1, id2);
                    if crate::piecemap::pieces_same_cells(t1, t2) {
                        assert forall|v: int| #[trigger]
                            pm.forward@[id1].covers(v) == pm.forward@[id2].covers(v) by {
                            assert(pm.forward@[id1].covers(v) == t1.covers(v));
                            assert(t1.covers(v) == t2.covers(v));
                            assert(t2.covers(v) == pm.forward@[id2].covers(v));
                        }
                        assert(false);
                    }
                }
            }
        }
        Some(pm)
    }
}

} // verus!
