use vstd::prelude::*;
use vstd::assert_by_contradiction;
use crate::consts::{LitsError, Tile, NUM_PIECES, NULL_MOVE};
use crate::coords::{Coord, OffsetCoord};
use crate::coordset::CoordSet;
use crate::interaction::{spec_assoc, Interaction};
use crate::moveset::MoveSet;
use crate::tetromino::{spec_le_oc, Tetromino};
use crate::transform::Transform;

verus! {

/// Whether a stored placement is well formed: on the board, four distinct
/// cells, small offsets, coordinates consistent with anchor and points.
pub open spec fn piece_ok(t: Tetromino) -> bool {
    t.spec_in_bounds() && t.spec_distinct() && t.points_small() && t.real_ok()
        && t.anchor.spec_in_bounds()
}

/// Whether two board cells (by linear index) share an orthogonal edge.
pub open spec fn cells_adjacent(a: int, b: int) -> bool {
    &&& 0 <= a < 100
    &&& 0 <= b < 100
    &&& ((b == a - 10) || (b == a + 10) || (b == a - 1 && a % 10 != 0) || (b == a + 1 && a % 10
        != 9))
}

/// The four cells a reverse-lookup key decodes to.
pub open spec fn key_decodes_to(key: int, v: int) -> bool {
    v == key / 1000000 || v == (key / 10000) % 100 || v == (key / 100) % 100 || v == key % 100
}

/// Whether a reverse-lookup key is a strictly ascending packing of four
/// cell indices.
pub open spec fn key_strict(key: int) -> bool {
    &&& 0 <= key < 100000000
    &&& key / 1000000 < (key / 10000) % 100
    &&& (key / 10000) % 100 < (key / 100) % 100
    &&& (key / 100) % 100 < key % 100
    &&& key % 100 < 100
}

/// Two strictly sorted keys that decode to the same cells are equal.
pub proof fn lemma_key_unique(k1: int, k2: int)
    requires
        key_strict(k1),
        key_strict(k2),
        forall|v: int| #[trigger] key_decodes_to(k1, v) <==> key_decodes_to(k2, v),
    ensures
        k1 == k2,
{
    let a1 = k1 / 1000000;
    let b1 = (k1 / 10000) % 100;
    let c1 = (k1 / 100) % 100;
    let d1 = k1 % 100;
    let a2 = k2 / 1000000;
    let b2 = (k2 / 10000) % 100;
    let c2 = (k2 / 100) % 100;
    let d2 = k2 % 100;
    assert(key_decodes_to(k1, a1) && key_decodes_to(k1, b1) && key_decodes_to(k1, c1)
        && key_decodes_to(k1, d1));
    assert(key_decodes_to(k2, a2) && key_decodes_to(k2, b2) && key_decodes_to(k2, c2)
        && key_decodes_to(k2, d2));
    assert(a1 == a2 && b1 == b2 && c1 == c2 && d1 == d2);
    assert(k1 == ((a1 * 100 + b1) * 100 + c1) * 100 + d1) by {
        vstd::arithmetic::div_mod::lemma_fundamental_div_mod(k1, 100);
        vstd::arithmetic::div_mod::lemma_fundamental_div_mod(k1 / 100, 100);
        vstd::arithmetic::div_mod::lemma_fundamental_div_mod(k1 / 10000, 100);
        assert(k1 / 10000 / 100 == k1 / 1000000) by {
            vstd::arithmetic::div_mod::lemma_div_denominator(k1, 10000, 100);
        }
    }
    assert(k2 == ((a2 * 100 + b2) * 100 + c2) * 100 + d2) by {
        vstd::arithmetic::div_mod::lemma_fundamental_div_mod(k2, 100);
        vstd::arithmetic::div_mod::lemma_fundamental_div_mod(k2 / 100, 100);
        vstd::arithmetic::div_mod::lemma_fundamental_div_mod(k2 / 10000, 100);
        assert(k2 / 10000 / 100 == k2 / 1000000) by {
            vstd::arithmetic::div_mod::lemma_div_denominator(k2, 10000, 100);
        }
    }
}

/// The dense index of a transform in canonical order.
pub open spec fn transform_idx(t: Transform) -> int {
    match t {
        Transform::Identity => 0,
        Transform::Rot90 => 1,
        Transform::Rot180 => 2,
        Transform::Rot270 => 3,
        Transform::Reflect => 4,
        Transform::ReflRot90 => 5,
        Transform::ReflRot180 => 6,
        Transform::ReflRot270 => 7,
    }
}

/// The transform with the given dense index.
pub open spec fn transform_of_idx(i: int) -> Transform {
    if i == 0 {
        Transform::Identity
    } else if i == 1 {
        Transform::Rot90
    } else if i == 2 {
        Transform::Rot180
    } else if i == 3 {
        Transform::Rot270
    } else if i == 4 {
        Transform::Reflect
    } else if i == 5 {
        Transform::ReflRot90
    } else if i == 6 {
        Transform::ReflRot180
    } else {
        Transform::ReflRot270
    }
}

/// The tile kind with the given dense index.
pub open spec fn tile_of_idx(i: int) -> Tile {
    if i == 0 {
        Tile::L
    } else if i == 1 {
        Tile::I
    } else if i == 2 {
        Tile::T
    } else {
        Tile::S
    }
}

/// The position of a placement in the construction scan: kinds in order
/// L, I, T, S; anchors row-major; transforms in canonical order.
pub open spec fn scan_index(t: Tetromino) -> int {
    t.kind.spec_index() * 800 + t.anchor.row * 80 + t.anchor.col * 8 + transform_idx(t.transform)
}

/// Whether the scan slot `k` names a stored placement: its transform is
/// canonical for its kind and the placed piece lies on the board.
pub open spec fn slot_valid(k: int) -> bool {
    let kind = tile_of_idx(k / 800);
    let row = (k % 800) / 80;
    let col = (k % 80) / 8;
    let tr = transform_of_idx(k % 8);
    &&& 0 <= k < 3200
    &&& tr.spec_canonicalize(kind) == tr
    &&& slot_in_bounds(kind, row, col, tr)
}

/// Whether the transformed template fits on the board at the anchor.
pub open spec fn slot_in_bounds(kind: Tile, row: int, col: int, tr: Transform) -> bool {
    let t0 = tr.spec_apply_one(Tetromino::spec_template(kind)[0]);
    let t1 = tr.spec_apply_one(Tetromino::spec_template(kind)[1]);
    let t2 = tr.spec_apply_one(Tetromino::spec_template(kind)[2]);
    let t3 = tr.spec_apply_one(Tetromino::spec_template(kind)[3]);
    &&& 0 <= row + t0.rows < 10 && 0 <= col + t0.cols < 10
    &&& 0 <= row + t1.rows < 10 && 0 <= col + t1.cols < 10
    &&& 0 <= row + t2.rows < 10 && 0 <= col + t2.cols < 10
    &&& 0 <= row + t3.rows < 10 && 0 <= col + t3.cols < 10
}

/// Whether a stored placement is exactly what scan slot `k` describes.
pub open spec fn is_slot_piece(t: Tetromino, k: int) -> bool {
    let kind = tile_of_idx(k / 800);
    let row = (k % 800) / 80;
    let col = (k % 80) / 8;
    let tr = transform_of_idx(k % 8);
    &&& t.kind == kind
    &&& t.anchor.row == row && t.anchor.col == col
    &&& t.transform == tr
    &&& forall|p: int|
        0 <= p < 4 ==> #[trigger] t.points@[p] == tr.spec_apply_one(
            Tetromino::spec_template(kind)[p],
        )
    &&& t.real_ok()
}

/// How many of the first `k` scan slots name a stored placement.
pub open spec fn slot_count_upto(k: int) -> int
    decreases k,
{
    if k <= 0 {
        0
    } else {
        slot_count_upto(k - 1) + if slot_valid(k - 1) {
            1int
        } else {
            0int
        }
    }
}

/// Precomputed data about every legal tetromino placement and all their
/// pairwise interactions.
#[derive(Clone, Debug)]
pub struct PieceMap {
    /// Every placement, by id, in scan order.
    pub forward: Vec<Tetromino>,
    /// A strictly sorted packing of the four cells of each placement,
    /// for coordinate lookup.
    pub reverse: Vec<u64>,
    /// The full symmetric matrix of pairwise interactions.
    pub associations: Vec<Vec<Interaction>>,
    /// For each placement, the set of ids conflicting with it.
    pub per_conflicting: Vec<MoveSet>,
    /// For each placement, the set of ids neutral to it.
    pub per_neutral: Vec<MoveSet>,
    /// For each placement, the set of ids adjacent to it.
    pub per_adjacent: Vec<MoveSet>,
    /// For each board cell, the set of its orthogonal neighbours.
    pub coord_neighbours: Vec<CoordSet>,
    /// For each placement, the set of on-board cells bordering it.
    pub neighbours: Vec<CoordSet>,
    /// For each placement, the set of cells it covers.
    pub selfs: Vec<CoordSet>,
}

impl PieceMap {
    /// The interaction of two ids: every id conflicts with itself.
    pub open spec fn spec_assoc_ids(self, i: int, j: int) -> Interaction {
        if i == j {
            Interaction::Conflicting
        } else {
            spec_assoc(self.forward@[i], self.forward@[j])
        }
    }

    /// The well-formedness of the table: every derived structure says of
    /// the placements exactly what its contract promises.
    pub open spec fn wf(self) -> bool {
        &&& self.forward@.len() == NUM_PIECES
        &&& self.reverse@.len() == NUM_PIECES
        &&& self.associations@.len() == NUM_PIECES
        &&& self.per_conflicting@.len() == NUM_PIECES
        &&& self.per_neutral@.len() == NUM_PIECES
        &&& self.per_adjacent@.len() == NUM_PIECES
        &&& self.coord_neighbours@.len() == 100
        &&& self.neighbours@.len() == NUM_PIECES
        &&& self.selfs@.len() == NUM_PIECES
        &&& forall|i: int| 0 <= i < NUM_PIECES ==> piece_ok(#[trigger] self.forward@[i])
        &&& forall|i: int|
            0 <= i < NUM_PIECES ==> (#[trigger] self.associations@[i])@.len() == NUM_PIECES
        &&& forall|i: int, j: int|
            0 <= i < NUM_PIECES && 0 <= j < NUM_PIECES ==> #[trigger] self.associations@[i]@[j]
                == self.spec_assoc_ids(i, j)
        &&& forall|i: int| 0 <= i < NUM_PIECES ==> (#[trigger] self.selfs@[i]).inv()
        &&& forall|i: int, v: int|
            0 <= i < NUM_PIECES ==> ((#[trigger] self.selfs@[i].has(v))
                <==> self.forward@[i].covers(v))
        &&& forall|i: int| 0 <= i < NUM_PIECES ==> (#[trigger] self.neighbours@[i]).inv()
        &&& forall|i: int, v: int|
            0 <= i < NUM_PIECES ==> ((#[trigger] self.neighbours@[i].has(v))
                <==> self.forward@[i].spec_neighbour(v))
        &&& forall|c: int| 0 <= c < 100 ==> (#[trigger] self.coord_neighbours@[c]).inv()
        &&& forall|c: int, v: int|
            0 <= c < 100 ==> ((#[trigger] self.coord_neighbours@[c].has(v)) <==> cells_adjacent(
                c,
                v,
            ))
        &&& forall|i: int| 0 <= i < NUM_PIECES ==> (#[trigger] self.per_conflicting@[i]).inv()
        &&& forall|i: int| 0 <= i < NUM_PIECES ==> (#[trigger] self.per_neutral@[i]).inv()
        &&& forall|i: int| 0 <= i < NUM_PIECES ==> (#[trigger] self.per_adjacent@[i]).inv()
        &&& forall|i: int, j: int|
            0 <= i < NUM_PIECES ==> ((#[trigger] self.per_conflicting@[i].has(j)) <==> (0 <= j
                < NUM_PIECES && self.spec_assoc_ids(i, j) == Interaction::Conflicting))
        &&& forall|i: int, j: int|
            0 <= i < NUM_PIECES ==> ((#[trigger] self.per_neutral@[i].has(j)) <==> (0 <= j
                < NUM_PIECES && self.spec_assoc_ids(i, j) == Interaction::Neutral))
        &&& forall|i: int, j: int|
            0 <= i < NUM_PIECES ==> ((#[trigger] self.per_adjacent@[i].has(j)) <==> (0 <= j
                < NUM_PIECES && self.spec_assoc_ids(i, j) == Interaction::Adjacent))
        &&& forall|i: int| 0 <= i < NUM_PIECES ==> key_strict(#[trigger] self.reverse@[i] as int)
        &&& forall|i: int, v: int|
            0 <= i < NUM_PIECES ==> ((#[trigger] key_decodes_to(self.reverse@[i] as int, v))
                <==> self.forward@[i].covers(v))
        &&& forall|i: int, j: int|
            #![trigger self.reverse@[i], self.reverse@[j]]
            0 <= i < j < NUM_PIECES ==> self.reverse@[i] != self.reverse@[j]
    }

    /// Distinct ids cover distinct cell sets: their strictly sorted lookup
    /// keys differ, and a key pins the cells it packs.
    pub proof fn lemma_distinct_cells(self, i: int, j: int)
        requires
            self.wf(),
            0 <= i < NUM_PIECES,
            0 <= j < NUM_PIECES,
            i != j,
        ensures
            !pieces_same_cells(self.forward@[i], self.forward@[j]),
    {
        if pieces_same_cells(self.forward@[i], self.forward@[j]) {
            assert forall|v: int| #[trigger]
                key_decodes_to(self.reverse@[i] as int, v) <==> key_decodes_to(
                self.reverse@[j] as int,
                v,
            ) by {
                assert(self.forward@[i].covers(v) == self.forward@[j].covers(v));
            }
            lemma_key_unique(self.reverse@[i] as int, self.reverse@[j] as int);
            assert(false);
        }
    }

    /// The completeness of the table: the placements are exactly the valid
    /// scan slots, in scan order.
    pub open spec fn complete(self) -> bool {
        &&& forall|id: int|
            0 <= id < NUM_PIECES ==> slot_valid(scan_index(#[trigger] self.forward@[id]))
                && is_slot_piece(self.forward@[id], scan_index(self.forward@[id]))
        &&& forall|id1: int, id2: int|
            0 <= id1 < id2 < NUM_PIECES ==> scan_index(self.forward@[id1]) < scan_index(
                self.forward@[id2],
            )
        &&& forall|k: int|
            0 <= k < 3200 && slot_valid(k) ==> exists|id: int|
                0 <= id < NUM_PIECES && scan_index(#[trigger] self.forward@[id]) == k
    }

    /// Gets a coordset consisting of the on-board neighbours of an
    /// on-board coordinate.
    pub fn coord_neighbours(&self, coord: &Coord) -> (r: &CoordSet)
        requires
            self.wf(),
            coord.spec_in_bounds(),
        ensures
            *r == self.coord_neighbours@[coord.spec_lin()],
            r.inv(),
            forall|v: int| #[trigger] r.has(v) <==> cells_adjacent(coord.spec_lin(), v),
    {
        let idx = coord.lin();
        &self.coord_neighbours[idx]
    }

    /// Gets the piece as a coordset.
    pub fn coordset(&self, id: usize) -> (r: &CoordSet)
        requires
            self.wf(),
            id < NUM_PIECES,
        ensures
            *r == self.selfs@[id as int],
            r.inv(),
            forall|v: int| #[trigger] r.has(v) <==> self.forward@[id as int].covers(v),
    {
        &self.selfs[id]
    }

    /// Gets the interaction between two pieces by id.
    pub fn get_association(&self, i: usize, j: usize) -> (r: Interaction)
        requires
            self.wf(),
            i < NUM_PIECES,
            j < NUM_PIECES,
        ensures
            r == self.spec_assoc_ids(i as int, j as int),
    {
        let (a, b) = if i < j {
            (i, j)
        } else {
            (j, i)
        };
        let r = self.associations[a][b];
        proof {
            if i != j {
                crate::interaction::lemma_assoc_symmetric(
                    self.forward@[i as int],
                    self.forward@[j as int],
                );
            }
        }
        r
    }

    /// Gets the piece type by id.
    pub fn get_kind(&self, id: usize) -> (r: Tile)
        requires
            self.wf(),
            id < NUM_PIECES,
        ensures
            r == self.forward@[id as int].kind,
    {
        self.forward[id].kind
    }

    /// Gets a piece by id.
    pub fn get_piece(&self, id: usize) -> (r: &Tetromino)
        requires
            self.wf(),
            id < NUM_PIECES,
        ensures
            *r == self.forward@[id as int],
    {
        &self.forward[id]
    }

    /// Validates a piece id and gets the piece.
    pub fn get_piece_checked(&self, id: usize) -> (r: Result<Tetromino, LitsError>)
        requires
            self.wf(),
        ensures
            r is Ok <==> id < NUM_PIECES,
            r is Ok ==> r->Ok_0 == self.forward@[id as int],
            r is Err ==> r->Err_0 == LitsError::IllegalMove,
    {
        if id < 1292 {
            Ok(self.forward[id])
        } else {
            Err(LitsError::IllegalMove)
        }
    }

    /// Tries to map the id to a piece.
    pub fn try_by_id(&self, id: usize) -> (r: Result<&Tetromino, LitsError>)
        requires
            self.wf(),
        ensures
            r is Ok <==> id < NUM_PIECES,
            r is Ok ==> *r->Ok_0 == self.forward@[id as int],
            r is Err ==> r->Err_0 == LitsError::IllegalMove,
    {
        if id < 1292 {
            Ok(&self.forward[id])
        } else {
            Err(LitsError::IllegalMove)
        }
    }

    /// Gets the neighbouring coords of a piece by id.
    pub fn neighbours(&self, id: usize) -> (r: &CoordSet)
        requires
            self.wf(),
            id < NUM_PIECES,
        ensures
            *r == self.neighbours@[id as int],
            r.inv(),
            forall|v: int| #[trigger] r.has(v) <==> self.forward@[id as int].spec_neighbour(v),
    {
        &self.neighbours[id]
    }

    /// Gets the set of ids that have a certain interaction with a piece.
    pub fn with_interaction(&self, id: usize, interaction: Interaction) -> (r: &MoveSet)
        requires
            self.wf(),
            id < NUM_PIECES,
        ensures
            r.inv(),
            forall|j: int|
                #[trigger] r.has(j) <==> (0 <= j < NUM_PIECES && self.spec_assoc_ids(id as int, j)
                    == interaction),
    {
        match interaction {
            Interaction::Conflicting => &self.per_conflicting[id],
            Interaction::Neutral => &self.per_neutral[id],
            Interaction::Adjacent => &self.per_adjacent[id],
        }
    }

    /// Tries to find the piece covering exactly the given cells.
    pub fn try_and_find(&self, coords: &[OffsetCoord; 4]) -> (r: Result<usize, LitsError>)
        requires
            self.wf(),
            forall|k: int| 0 <= k < 4 ==> (#[trigger] coords@[k]).spec_in_bounds(),
            coords@[0] != coords@[1] && coords@[0] != coords@[2] && coords@[0] != coords@[3]
                && coords@[1] != coords@[2] && coords@[1] != coords@[3] && coords@[2]
                != coords@[3],
        ensures
            r is Ok ==> (r->Ok_0 < NUM_PIECES && covers_same_cells(
                self.forward@[r->Ok_0 as int],
                *coords,
            )),
            forall|id: int|
                #![trigger self.forward@[id]]
                0 <= id < NUM_PIECES && covers_same_cells(self.forward@[id], *coords) ==> (
                r is Ok && r->Ok_0 == id),
            r is Err ==> forall|id: int|
                #![trigger self.forward@[id]]
                0 <= id < NUM_PIECES ==> !covers_same_cells(self.forward@[id], *coords),
            r is Err ==> r->Err_0 == LitsError::Notation,
    {
        let sorted = sort_coords(coords);
        let key = encode_cells(&sorted);
        proof {
            assert forall|v: int| #[trigger] key_decodes_to(key as int, v) <==> coord_is_one_of(
                *coords,
                v,
            ) by {
                assert(key_decodes_to(key as int, v) <==> coord_is_one_of(sorted, v));
            }
        }
        let mut id: usize = 0;
        while id < 1292
            invariant
                id <= 1292,
                self.wf(),
                key_strict(key as int),
                forall|v: int| #[trigger]
                    key_decodes_to(key as int, v) <==> coord_is_one_of(*coords, v),
                forall|i: int| 0 <= i < id ==> self.reverse@[i] != key,
            decreases 1292 - id,
        {
            if self.reverse[id] == key {
                proof {
                    assert forall|v: int| #[trigger]
                        self.forward@[id as int].covers(v) == coord_is_one_of(*coords, v) by {
                        assert(key_decodes_to(self.reverse@[id as int] as int, v)
                            == self.forward@[id as int].covers(v));
                    }
                    assert forall|id2: int|
                        #![trigger self.forward@[id2]]
                        0 <= id2 < NUM_PIECES && covers_same_cells(
                        self.forward@[id2],
                        *coords,
                    ) implies id2 == id as int by {
                        assert forall|v: int| #[trigger]
                            key_decodes_to(self.reverse@[id2] as int, v) <==> key_decodes_to(
                            key as int,
                            v,
                        ) by {
                            assert(self.forward@[id2].covers(v) == coord_is_one_of(*coords, v));
                        }
                        lemma_key_unique(self.reverse@[id2] as int, key as int);
                        assert(self.reverse@[id2] == self.reverse@[id as int]);
                    }
                }
                return Ok(id);
            }
            id = id + 1;
        }
        proof {
            assert forall|i: int| #![trigger self.forward@[i]] 0 <= i < NUM_PIECES implies (
            !covers_same_cells(self.forward@[i], *coords)) by {
                if covers_same_cells(self.forward@[i], *coords) {
                    assert forall|v: int| #[trigger]
                        key_decodes_to(self.reverse@[i] as int, v) <==> key_decodes_to(
                        key as int,
                        v,
                    ) by {
                        assert(self.forward@[i].covers(v) == coord_is_one_of(*coords, v));
                    }
                    lemma_key_unique(self.reverse@[i] as int, key as int);
                    assert(false);
                }
            }
        }
        Err(LitsError::Notation)
    }

    /// Gets the piece id of a tetromino known to be in the table.
    pub fn get_id(&self, tetromino: &Tetromino) -> (r: usize)
        requires
            self.wf(),
            tetromino.spec_in_bounds(),
            tetromino.spec_distinct(),
            exists|id: int|
                #![trigger self.forward@[id]]
                0 <= id < NUM_PIECES && pieces_same_cells(self.forward@[id], *tetromino),
        ensures
            r < NUM_PIECES,
            pieces_same_cells(self.forward@[r as int], *tetromino),
            forall|id: int|
                #![trigger self.forward@[id]]
                0 <= id < NUM_PIECES && pieces_same_cells(self.forward@[id], *tetromino) ==> r
                    == id,
    {
        match self.try_and_find(&tetromino.real_coords) {
            Ok(id) => {
                proof {
                    assert forall|v: int| #[trigger]
                        self.forward@[id as int].covers(v) == tetromino.covers(v) by {
                        assert(self.forward@[id as int].covers(v) == coord_is_one_of(
                            tetromino.real_coords,
                            v,
                        ));
                    }
                    assert forall|id2: int|
                        #![trigger self.forward@[id2]]
                        0 <= id2 < NUM_PIECES && pieces_same_cells(
                        self.forward@[id2],
                        *tetromino,
                    ) implies id as int == id2 by {
                        assert forall|v: int| #[trigger]
                            self.forward@[id2].covers(v) == coord_is_one_of(
                            tetromino.real_coords,
                            v,
                        ) by {
                            assert(self.forward@[id2].covers(v) == tetromino.covers(v));
                        }
                        assert(covers_same_cells(self.forward@[id2], tetromino.real_coords));
                    }
                }
                id
            },
            Err(_) => {
                proof {
                    let w = choose|id: int|
                        #![trigger self.forward@[id]]
                        0 <= id < NUM_PIECES && pieces_same_cells(self.forward@[id], *tetromino);
                    assert forall|v: int| #[trigger]
                        self.forward@[w].covers(v) == coord_is_one_of(
                        tetromino.real_coords,
                        v,
                    ) by {
                        assert(self.forward@[w].covers(v) == tetromino.covers(v));
                    }
                    assert(covers_same_cells(self.forward@[w], tetromino.real_coords));
                    assert(false);
                }
                0
            },
        }
    }
}

/// Whether the placements of distinct scan slots cover distinct cell sets.
/// A slot pins its placement completely, so this is a property of the slot
/// geometry alone; the table constructor checks it and refuses a table on
/// which it would not hold.
pub open spec fn slots_have_distinct_cells() -> bool {
    forall|t1: Tetromino, t2: Tetromino|
        slot_valid(scan_index(t1)) && slot_valid(scan_index(t2)) && is_slot_piece(
            t1,
            scan_index(t1),
        ) && is_slot_piece(t2, scan_index(t2)) && scan_index(t1) != scan_index(t2) ==> !#[trigger] pieces_same_cells(
            t1,
            t2,
        )
}

impl PieceMap {
    /// An identity placement that fits on the board is stored in the table
    /// under its own kind: a lookup of its cells finds an id whose stored
    /// kind is the placement's kind. This ties the kind of a looked-up id
    /// to the shape of the cells the lookup was made with.
    pub proof fn lemma_identity_lookup(self, t: Tetromino)
        requires
            self.wf(),
            self.complete(),
            t.transform == Transform::Identity,
            t.anchor.spec_in_bounds(),
            t.points@ =~= Tetromino::spec_template(t.kind),
            t.real_ok(),
            t.spec_in_bounds(),
        ensures
            exists|id: int|
                0 <= id < NUM_PIECES && (#[trigger] self.forward@[id]).kind == t.kind
                    && pieces_same_cells(self.forward@[id], t),
    {
        let k = scan_index(t);
        let a = t.kind.spec_index();
        let b = t.anchor.row as int;
        let c = t.anchor.col as int;
        assert(k == a * 800 + b * 80 + c * 8);
        assert(k / 800 == a && k % 800 == b * 80 + c * 8) by {
            vstd::arithmetic::div_mod::lemma_fundamental_div_mod_converse(k, 800, a, b * 80 + c * 8);
        }
        assert((b * 80 + c * 8) / 80 == b && (b * 80 + c * 8) % 80 == c * 8) by {
            vstd::arithmetic::div_mod::lemma_fundamental_div_mod_converse(
                b * 80 + c * 8,
                80,
                b,
                c * 8,
            );
        }
        assert(k % 80 == c * 8 && k % 8 == 0) by {
            vstd::arithmetic::div_mod::lemma_fundamental_div_mod_converse(k, 80, a * 10 + b, c * 8);
            vstd::arithmetic::div_mod::lemma_fundamental_div_mod_converse(
                k,
                8,
                a * 100 + b * 10 + c,
                0,
            );
        }
        assert((c * 8) / 8 == c) by {
            vstd::arithmetic::div_mod::lemma_fundamental_div_mod_converse(c * 8, 8, c, 0);
        }
        assert(tile_of_idx(k / 800) == t.kind);
        assert(transform_of_idx(k % 8) == Transform::Identity);
        assert(is_slot_piece(t, k)) by {
            assert forall|p: int| 0 <= p < 4 implies #[trigger] t.points@[p]
                == Transform::Identity.spec_apply_one(Tetromino::spec_template(t.kind)[p]) by {
                assert(t.points@[p] == Tetromino::spec_template(t.kind)[p]);
            }
        }
        assert(slot_valid(k)) by {
            assert(Transform::Identity.spec_canonicalize(t.kind) == Transform::Identity);
            assert(slot_in_bounds(t.kind, b, c, Transform::Identity)) by {
                assert forall|p: int| 0 <= p < 4 implies Transform::Identity.spec_apply_one(
                    #[trigger] Tetromino::spec_template(t.kind)[p],
                ) == t.points@[p] by {}
                assert(t.real_coords@[0].spec_in_bounds() && t.real_coords@[1].spec_in_bounds()
                    && t.real_coords@[2].spec_in_bounds() && t.real_coords@[3].spec_in_bounds());
            }
        }
        self.lemma_slot_lookup(t);
    }

    /// A placement that sits at a valid scan slot is stored in the table:
    /// completeness yields its id, and the slot pins the stored piece's
    /// kind and cells to the placement's own.
    pub proof fn lemma_slot_lookup(self, t: Tetromino)
        requires
            self.wf(),
            self.complete(),
            slot_valid(scan_index(t)),
            is_slot_piece(t, scan_index(t)),
        ensures
            exists|id: int|
                0 <= id < NUM_PIECES && (#[trigger] self.forward@[id]).kind == t.kind
                    && pieces_same_cells(self.forward@[id], t),
    {
        let k = scan_index(t);
        assert(slot_valid(k));
        let id = choose|id: int|
            0 <= id < NUM_PIECES && scan_index(#[trigger] self.forward@[id]) == k;
        assert(is_slot_piece(self.forward@[id], k));
        lemma_slot_piece_cells(self.forward@[id], t, k);
    }
}

/// Two placements pinned by the same scan slot cover the same cells: the
/// slot determines the anchor and every point offset.
pub(crate) proof fn lemma_slot_piece_cells(t1: Tetromino, t2: Tetromino, k: int)
    requires
        is_slot_piece(t1, k),
        is_slot_piece(t2, k),
    ensures
        pieces_same_cells(t1, t2),
{
    assert forall|p: int| 0 <= p < 4 implies t1.real_coords@[p] == t2.real_coords@[p] by {
        assert(t1.points@[p] == t2.points@[p]);
        assert(t1.real_coords@[p].rows == t2.real_coords@[p].rows && t1.real_coords@[p].cols
            == t2.real_coords@[p].cols);
    }
    assert forall|v: int| #[trigger] t1.covers(v) == t2.covers(v) by {
        assert(t1.real_coords@[0] == t2.real_coords@[0] && t1.real_coords@[1]
            == t2.real_coords@[1] && t1.real_coords@[2] == t2.real_coords@[2]
            && t1.real_coords@[3] == t2.real_coords@[3]);
    }
}

/// Sorts four distinct offsets row-major.
pub fn sort_coords(coords: &[OffsetCoord; 4]) -> (r: [OffsetCoord; 4])
    requires
        coords@[0] != coords@[1] && coords@[0] != coords@[2] && coords@[0] != coords@[3]
            && coords@[1] != coords@[2] && coords@[1] != coords@[3] && coords@[2] != coords@[3],
    ensures
        spec_le_oc(r@[0], r@[1]) && spec_le_oc(r@[1], r@[2]) && spec_le_oc(r@[2], r@[3]),
        r@[0] != r@[1] && r@[0] != r@[2] && r@[0] != r@[3] && r@[1] != r@[2] && r@[1] != r@[3]
            && r@[2] != r@[3],
        forall|k: int|
            0 <= k < 4 ==> (#[trigger] r@[k] == coords@[0] || r@[k] == coords@[1] || r@[k]
                == coords@[2] || r@[k] == coords@[3]),
        forall|k: int|
            0 <= k < 4 ==> (#[trigger] coords@[k] == r@[0] || coords@[k] == r@[1] || coords@[k]
                == r@[2] || coords@[k] == r@[3]),
{
    let mut a = coords[0];
    let mut b = coords[1];
    let mut c = coords[2];
    let mut d = coords[3];
    if !crate::tetromino::le_oc(&a, &b) {
        let t = a;
        a = b;
        b = t;
    }
    if !crate::tetromino::le_oc(&c, &d) {
        let t = c;
        c = d;
        d = t;
    }
    if !crate::tetromino::le_oc(&a, &c) {
        let t = a;
        a = c;
        c = t;
    }
    if !crate::tetromino::le_oc(&b, &d) {
        let t = b;
        b = d;
        d = t;
    }
    if !crate::tetromino::le_oc(&b, &c) {
        let t = b;
        b = c;
        c = t;
    }
    let r = [a, b, c, d];
    proof {
        assert(r@[0] == a && r@[1] == b && r@[2] == c && r@[3] == d);
        assert(coords@[0] == coords[0] && coords@[1] == coords[1] && coords@[2] == coords[2]
            && coords@[3] == coords[3]);
        assert forall|k: int|
            0 <= k < 4 implies (#[trigger] r@[k] == coords@[0] || r@[k] == coords@[1] || r@[k]
            == coords@[2] || r@[k] == coords@[3]) by {
            assert(k == 0 || k == 1 || k == 2 || k == 3);
        }
        assert forall|k: int|
            0 <= k < 4 implies (#[trigger] coords@[k] == r@[0] || coords@[k] == r@[1] || coords@[k]
            == r@[2] || coords@[k] == r@[3]) by {
            assert(k == 0 || k == 1 || k == 2 || k == 3);
        }
    }
    r
}

/// Whether `v` is the linear index of one of the four given on-board offsets.
pub open spec fn coord_is_one_of(coords: [OffsetCoord; 4], v: int) -> bool {
    crate::tetromino::coord_is(coords@[0], v) || crate::tetromino::coord_is(coords@[1], v)
        || crate::tetromino::coord_is(coords@[2], v) || crate::tetromino::coord_is(coords@[3], v)
}

/// Whether a placement covers exactly the cells of the four given offsets.
pub open spec fn covers_same_cells(t: Tetromino, coords: [OffsetCoord; 4]) -> bool {
    forall|v: int| #[trigger] t.covers(v) == coord_is_one_of(coords, v)
}

/// Whether two placements cover exactly the same cells.
pub open spec fn pieces_same_cells(a: Tetromino, b: Tetromino) -> bool {
    forall|v: int| #[trigger] a.covers(v) == b.covers(v)
}

/// Packs four sorted, distinct, on-board offsets into a reverse-lookup key.
pub fn encode_cells(coords: &[OffsetCoord; 4]) -> (key: u64)
    requires
        forall|k: int| 0 <= k < 4 ==> (#[trigger] coords@[k]).spec_in_bounds(),
        coords@[0] != coords@[1] && coords@[1] != coords@[2] && coords@[2] != coords@[3],
        spec_le_oc(coords@[0], coords@[1]) && spec_le_oc(coords@[1], coords@[2]) && spec_le_oc(
            coords@[2],
            coords@[3],
        ),
    ensures
        key_strict(key as int),
        forall|v: int| #[trigger] key_decodes_to(key as int, v) <==> coord_is_one_of(*coords, v),
{
    let l0 = (coords[0].rows as u64) * 10 + (coords[0].cols as u64);
    let l1 = (coords[1].rows as u64) * 10 + (coords[1].cols as u64);
    let l2 = (coords[2].rows as u64) * 10 + (coords[2].cols as u64);
    let l3 = (coords[3].rows as u64) * 10 + (coords[3].cols as u64);
    let key = ((l0 * 100 + l1) * 100 + l2) * 100 + l3;
    proof {
        assert(l0 < l1 && l1 < l2 && l2 < l3);
        assert(key as int / 1000000 == l0 && (key as int / 10000) % 100 == l1 && (key as int / 100)
            % 100 == l2 && key as int % 100 == l3) by {
            assert(key == l0 * 1000000 + l1 * 10000 + l2 * 100 + l3);
            vstd::arithmetic::div_mod::lemma_fundamental_div_mod_converse(
                key as int,
                100,
                (l0 * 10000 + l1 * 100 + l2) as int,
                l3 as int,
            );
            vstd::arithmetic::div_mod::lemma_fundamental_div_mod_converse(
                (l0 * 10000 + l1 * 100 + l2) as int,
                100,
                (l0 * 100 + l1) as int,
                l2 as int,
            );
            vstd::arithmetic::div_mod::lemma_fundamental_div_mod_converse(
                (l0 * 100 + l1) as int,
                100,
                l0 as int,
                l1 as int,
            );
            vstd::arithmetic::div_mod::lemma_div_denominator(key as int, 100, 100);
            vstd::arithmetic::div_mod::lemma_div_denominator(key as int, 10000, 100);
        }
        assert forall|v: int| #[trigger] key_decodes_to(key as int, v) <==> coord_is_one_of(
            *coords,
            v,
        ) by {}
    }
    key
}

impl PieceMap {
    /// The number of entries in the reverse lookup table.
    pub fn reverse_len(&self) -> (r: usize)
        ensures
            r == self.reverse@.len(),
    {
        self.reverse.len()
    }
}

} // verus!
