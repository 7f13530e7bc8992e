use vstd::prelude::*;
use crate::consts::{LitsError, Tile};
use crate::coords::{abs_int, Coord, OffsetCoord};
use crate::coordset::CoordSet;
use crate::transform::Transform;

verus! {

/// Whether an offset fits comfortably inside the small template range.
pub open spec fn oc_small(oc: OffsetCoord) -> bool {
    -3 <= oc.rows <= 3 && -3 <= oc.cols <= 3
}

/// Whether an on-board offset denotes exactly the cell with linear index `v`.
pub open spec fn coord_is(oc: OffsetCoord, v: int) -> bool {
    oc.spec_in_bounds() && oc.spec_lin() == v
}

/// Whether an offset is orthogonally adjacent to the cell with linear index `v`.
pub open spec fn adj_lin(oc: OffsetCoord, v: int) -> bool {
    abs_int(oc.rows - v / 10) + abs_int(oc.cols - v % 10) == 1
}

/// A lexicographic order on offsets: row first, then column.
pub open spec fn spec_le_oc(a: OffsetCoord, b: OffsetCoord) -> bool {
    a.rows < b.rows || (a.rows == b.rows && a.cols <= b.cols)
}

/// One compare-and-exchange step of the fixed four-element sorting network:
/// the entries at `i` and `j` are put in row-major order.
pub open spec fn spec_cswap(s: Seq<OffsetCoord>, i: int, j: int) -> Seq<OffsetCoord> {
    if spec_le_oc(s[i], s[j]) {
        s
    } else {
        s.update(i, s[j]).update(j, s[i])
    }
}

/// A tetromino: a kind, an anchor, four offsets from the anchor, the four
/// resulting board coordinates, and the transform it was built with.
#[derive(Clone, Copy, Debug)]
pub struct Tetromino {
    pub kind: Tile,
    pub anchor: Coord,
    pub points: [OffsetCoord; 4],
    pub real_coords: [OffsetCoord; 4],
    pub transform: Transform,
}

impl Tetromino {
    /// The base shape of a kind, as offsets on an anchor point.
    pub open spec fn spec_template(kind: Tile) -> Seq<OffsetCoord> {
        match kind {
            Tile::L => seq![
                OffsetCoord { rows: -1isize, cols: 0isize },
                OffsetCoord { rows: 0isize, cols: 0isize },
                OffsetCoord { rows: 1isize, cols: 0isize },
                OffsetCoord { rows: 1isize, cols: 1isize },
            ],
            Tile::I => seq![
                OffsetCoord { rows: -1isize, cols: 0isize },
                OffsetCoord { rows: 0isize, cols: 0isize },
                OffsetCoord { rows: 1isize, cols: 0isize },
                OffsetCoord { rows: 2isize, cols: 0isize },
            ],
            Tile::T => seq![
                OffsetCoord { rows: 0isize, cols: -1isize },
                OffsetCoord { rows: 0isize, cols: 0isize },
                OffsetCoord { rows: 0isize, cols: 1isize },
                OffsetCoord { rows: 1isize, cols: 0isize },
            ],
            Tile::S => seq![
                OffsetCoord { rows: 0isize, cols: -1isize },
                OffsetCoord { rows: 0isize, cols: 0isize },
                OffsetCoord { rows: 1isize, cols: 0isize },
                OffsetCoord { rows: 1isize, cols: 1isize },
            ],
        }
    }

    /// Whether all four point offsets are in the small template range.
    pub open spec fn points_small(self) -> bool {
        oc_small(self.points@[0]) && oc_small(self.points@[1]) && oc_small(self.points@[2])
            && oc_small(self.points@[3])
    }

    /// Whether the four real coordinates lie on the board.
    pub open spec fn spec_in_bounds(self) -> bool {
        self.real_coords@[0].spec_in_bounds() && self.real_coords@[1].spec_in_bounds()
            && self.real_coords@[2].spec_in_bounds() && self.real_coords@[3].spec_in_bounds()
    }

    /// Whether the four real coordinates are pairwise distinct.
    pub open spec fn spec_distinct(self) -> bool {
        &&& self.real_coords@[0] != self.real_coords@[1]
        &&& self.real_coords@[0] != self.real_coords@[2]
        &&& self.real_coords@[0] != self.real_coords@[3]
        &&& self.real_coords@[1] != self.real_coords@[2]
        &&& self.real_coords@[1] != self.real_coords@[3]
        &&& self.real_coords@[2] != self.real_coords@[3]
    }

    /// Whether the real coordinates agree with the anchor and points.
    pub open spec fn real_ok(self) -> bool {
        forall|k: int|
            0 <= k < 4 ==> ((#[trigger] self.real_coords@[k]).rows == self.anchor.row
                + self.points@[k].rows && self.real_coords@[k].cols == self.anchor.col
                + self.points@[k].cols)
    }

    /// Whether the placement covers the board cell with linear index `v`.
    pub open spec fn covers(self, v: int) -> bool {
        coord_is(self.real_coords@[0], v) || coord_is(self.real_coords@[1], v) || coord_is(
            self.real_coords@[2],
            v,
        ) || coord_is(self.real_coords@[3], v)
    }

    /// Whether the cell with linear index `v` is an on-board neighbour of
    /// the placement: uncovered by it, and orthogonally adjacent to one of
    /// its on-board cells.
    pub open spec fn spec_neighbour(self, v: int) -> bool {
        &&& 0 <= v < 100
        &&& !self.covers(v)
        &&& ((self.real_coords@[0].spec_in_bounds() && adj_lin(self.real_coords@[0], v)) || (
        self.real_coords@[1].spec_in_bounds() && adj_lin(self.real_coords@[1], v)) || (
        self.real_coords@[2].spec_in_bounds() && adj_lin(self.real_coords@[2], v)) || (
        self.real_coords@[3].spec_in_bounds() && adj_lin(self.real_coords@[3], v)))
    }

    /// Whether two placements share a covered cell.
    pub open spec fn spec_overlaps(self, other: Tetromino) -> bool {
        exists|v: int| #[trigger] self.covers(v) && other.covers(v)
    }

    /// Whether some cell of one placement is orthogonally adjacent to some
    /// cell of the other.
    pub open spec fn spec_touches(self, other: Tetromino) -> bool {
        exists|i: int, j: int|
            #![trigger self.real_coords@[i], other.real_coords@[j]]
            0 <= i < 4 && 0 <= j < 4 && self.real_coords@[i].spec_manhattan(other.real_coords@[j])
                == 1
    }

    /// Produces the tetromino obtained by moving this tetromino to the
    /// given anchor.
    pub fn at(&self, coord: &Coord) -> (r: Tetromino)
        requires
            self.points_small(),
            coord.spec_in_bounds(),
        ensures
            r.kind == self.kind,
            r.anchor == *coord,
            r.points == self.points,
            r.transform == self.transform,
            r.real_ok(),
            r.points_small(),
    {
        let points = self.points;
        let real_coords = [
            coord.plus(&points[0]),
            coord.plus(&points[1]),
            coord.plus(&points[2]),
            coord.plus(&points[3]),
        ];
        Tetromino { kind: self.kind, anchor: *coord, points, real_coords, transform: self.transform }
    }

    /// Constructs the identity tetromino at the given anchor. Makes no
    /// guarantee that the tile is in bounds.
    pub fn identity(kind: Tile, anchor: &Coord) -> (r: Tetromino)
        requires
            anchor.spec_in_bounds(),
        ensures
            r.kind == kind,
            r.anchor == *anchor,
            r.points@ =~= Tetromino::spec_template(kind),
            r.transform == Transform::Identity,
            r.real_ok(),
            r.points_small(),
    {
        let template = Tetromino::identity_template(kind);
        Tetromino {
            kind,
            anchor: *anchor,
            points: template,
            real_coords: [
                anchor.plus(&template[0]),
                anchor.plus(&template[1]),
                anchor.plus(&template[2]),
                anchor.plus(&template[3]),
            ],
            transform: Transform::Identity,
        }
    }

    /// Gets the base shape corresponding to the tile type as a set of
    /// offsets on an anchor point.
    fn identity_template(kind: Tile) -> (r: [OffsetCoord; 4])
        ensures
            r@ =~= Tetromino::spec_template(kind),
    {
        match kind {
            Tile::L => [
                OffsetCoord { rows: -1, cols: 0 },
                OffsetCoord { rows: 0, cols: 0 },
                OffsetCoord { rows: 1, cols: 0 },
                OffsetCoord { rows: 1, cols: 1 },
            ],
            Tile::I => [
                OffsetCoord { rows: -1, cols: 0 },
                OffsetCoord { rows: 0, cols: 0 },
                OffsetCoord { rows: 1, cols: 0 },
                OffsetCoord { rows: 2, cols: 0 },
            ],
            Tile::T => [
                OffsetCoord { rows: 0, cols: -1 },
                OffsetCoord { rows: 0, cols: 0 },
                OffsetCoord { rows: 0, cols: 1 },
                OffsetCoord { rows: 1, cols: 0 },
            ],
            Tile::S => [
                OffsetCoord { rows: 0, cols: -1 },
                OffsetCoord { rows: 0, cols: 0 },
                OffsetCoord { rows: 1, cols: 0 },
                OffsetCoord { rows: 1, cols: 1 },
            ],
        }
    }

    /// Determines whether or not the tetromino is in bounds.
    pub fn in_bounds(&self) -> (r: bool)
        ensures
            r == self.spec_in_bounds(),
    {
        self.real_coords[0].in_bounds_signed() && self.real_coords[1].in_bounds_signed()
            && self.real_coords[2].in_bounds_signed() && self.real_coords[3].in_bounds_signed()
    }

    /// Whether the placement covers the cell with the given linear index.
    pub fn covers_cell(&self, v: usize) -> (r: bool)
        requires
            v < 100,
        ensures
            r == self.covers(v as int),
    {
        let row = (v / 10) as isize;
        let col = (v % 10) as isize;
        let mut r = false;
        if self.real_coords[0].rows == row && self.real_coords[0].cols == col {
            r = true;
        }
        if self.real_coords[1].rows == row && self.real_coords[1].cols == col {
            r = true;
        }
        if self.real_coords[2].rows == row && self.real_coords[2].cols == col {
            r = true;
        }
        if self.real_coords[3].rows == row && self.real_coords[3].cols == col {
            r = true;
        }
        r
    }

    /// Whether the cell with the given linear index is adjacent to an
    /// on-board cell of the placement.
    fn adjacent_cell(&self, v: usize) -> (r: bool)
        requires
            v < 100,
        ensures
            r == ((self.real_coords@[0].spec_in_bounds() && adj_lin(self.real_coords@[0], v as int))
                || (self.real_coords@[1].spec_in_bounds() && adj_lin(
                self.real_coords@[1],
                v as int,
            )) || (self.real_coords@[2].spec_in_bounds() && adj_lin(self.real_coords@[2], v as int))
                || (self.real_coords@[3].spec_in_bounds() && adj_lin(
                self.real_coords@[3],
                v as int,
            ))),
    {
        let cell = OffsetCoord { rows: (v / 10) as isize, cols: (v % 10) as isize };
        let mut r = false;
        if self.real_coords[0].in_bounds_signed() && self.real_coords[0].neighbours(cell) {
            r = true;
        }
        if self.real_coords[1].in_bounds_signed() && self.real_coords[1].neighbours(cell) {
            r = true;
        }
        if self.real_coords[2].in_bounds_signed() && self.real_coords[2].neighbours(cell) {
            r = true;
        }
        if self.real_coords[3].in_bounds_signed() && self.real_coords[3].neighbours(cell) {
            r = true;
        }
        r
    }

    /// The on-board neighbours of the points in this piece: every in-bounds
    /// cell that is not on the piece but borders one of its cells.
    pub fn neighbours(&self) -> (r: CoordSet)
        ensures
            r.inv(),
            forall|v: int| #[trigger] r.has(v) <==> self.spec_neighbour(v),
    {
        let mut r = CoordSet::empty();
        let mut v: usize = 0;
        while v < 100
            invariant
                v <= 100,
                r.inv(),
                forall|w: int| #[trigger] r.has(w) <==> (w < v && self.spec_neighbour(w)),
            decreases 100 - v,
        {
            if !self.covers_cell(v) && self.adjacent_cell(v) {
                r.insert(&Coord::from_lin(v));
            }
            v = v + 1;
        }
        r
    }

    /// The four board cells of the placement, sorted row-major by a fixed
    /// five-exchange network.
    pub open spec fn spec_sorted_coords(self) -> Seq<OffsetCoord> {
        let s0 = seq![
            sum_oc(self.anchor, self.points@[0]),
            sum_oc(self.anchor, self.points@[1]),
            sum_oc(self.anchor, self.points@[2]),
            sum_oc(self.anchor, self.points@[3]),
        ];
        spec_cswap(spec_cswap(spec_cswap(spec_cswap(spec_cswap(s0, 0, 1), 2, 3), 0, 2), 1, 3), 1, 2)
    }

    /// Gets the real board coordinates of the move, sorted row-major.
    pub fn real_coords(&self) -> (r: [OffsetCoord; 4])
        requires
            self.anchor.spec_in_bounds(),
            forall|k: int|
                0 <= k < 4 ==> (-1000 <= (#[trigger] self.points@[k]).rows <= 1000 && -1000
                    <= self.points@[k].cols <= 1000),
        ensures
            spec_le_oc(r@[0], r@[1]) && spec_le_oc(r@[1], r@[2]) && spec_le_oc(r@[2], r@[3]),
            forall|k: int|
                #![trigger r@[k]]
                0 <= k < 4 ==> (r@[k] == sum_oc(self.anchor, self.points@[0]) || r@[k] == sum_oc(
                    self.anchor,
                    self.points@[1],
                ) || r@[k] == sum_oc(self.anchor, self.points@[2]) || r@[k] == sum_oc(
                    self.anchor,
                    self.points@[3],
                )),
            forall|j: int|
                #![trigger self.points@[j]]
                0 <= j < 4 ==> (sum_oc(self.anchor, self.points@[j]) == r@[0] || sum_oc(
                    self.anchor,
                    self.points@[j],
                ) == r@[1] || sum_oc(self.anchor, self.points@[j]) == r@[2] || sum_oc(
                    self.anchor,
                    self.points@[j],
                ) == r@[3]),
            (self.real_ok() && self.spec_distinct()) ==> (r@[0] != r@[1] && r@[0] != r@[2] && r@[0]
                != r@[3] && r@[1] != r@[2] && r@[1] != r@[3] && r@[2] != r@[3]),
            r@ =~= self.spec_sorted_coords(),
    {
        let mut a = self.anchor.plus(&self.points[0]);
        let mut b = self.anchor.plus(&self.points[1]);
        let mut c = self.anchor.plus(&self.points[2]);
        let mut d = self.anchor.plus(&self.points[3]);
        let ghost s0 = seq![a, b, c, d];
        proof {
            assert(a == sum_oc(self.anchor, self.points@[0]));
            assert(b == sum_oc(self.anchor, self.points@[1]));
            assert(c == sum_oc(self.anchor, self.points@[2]));
            assert(d == sum_oc(self.anchor, self.points@[3]));
        }
        if !le_oc(&a, &b) {
            let t = a;
            a = b;
            b = t;
        }
        let ghost s1 = spec_cswap(s0, 0, 1);
        proof {
            assert(s1 =~= seq![a, b, c, d]);
        }
        if !le_oc(&c, &d) {
            let t = c;
            c = d;
            d = t;
        }
        let ghost s2 = spec_cswap(s1, 2, 3);
        proof {
            assert(s2 =~= seq![a, b, c, d]);
        }
        if !le_oc(&a, &c) {
            let t = a;
            a = c;
            c = t;
        }
        let ghost s3 = spec_cswap(s2, 0, 2);
        proof {
            assert(s3 =~= seq![a, b, c, d]);
        }
        if !le_oc(&b, &d) {
            let t = b;
            b = d;
            d = t;
        }
        let ghost s4 = spec_cswap(s3, 1, 3);
        proof {
            assert(s4 =~= seq![a, b, c, d]);
        }
        if !le_oc(&b, &c) {
            let t = b;
            b = c;
            c = t;
        }
        let ghost s5 = spec_cswap(s4, 1, 2);
        proof {
            assert(s5 =~= seq![a, b, c, d]);
        }
        let r = [a, b, c, d];
        proof {
            assert(r@[0] == a && r@[1] == b && r@[2] == c && r@[3] == d);
            assert(r@ =~= s5);
        }
        r
    }

    /// A reference to the stored real coordinates, in construction order.
    pub fn real_coords_lazy(&self) -> (r: &[OffsetCoord; 4])
        ensures
            r == &self.real_coords,
    {
        &self.real_coords
    }

    /// Gives back all tetrominos that result from canonical transformations
    /// on this tetromino's anchor and type.
    pub fn enumerate(&self) -> (r: Vec<Tetromino>)
        requires
            self.points_small(),
            self.anchor.spec_in_bounds(),
        ensures
            r@.len() == Transform::spec_enumerate(self.kind).len(),
            forall|k: int|
                0 <= k < r@.len() ==> spec_is_apply(
                    #[trigger] r@[k],
                    Transform::spec_enumerate(self.kind)[k],
                    *self,
                ),
    {
        let transforms = Transform::enumerate(&self.kind);
        let mut r: Vec<Tetromino> = Vec::new();
        let mut k: usize = 0;
        while k < transforms.len()
            invariant
                k <= transforms@.len(),
                self.points_small(),
                self.anchor.spec_in_bounds(),
                transforms@ =~= Transform::spec_enumerate(self.kind),
                r@.len() == k,
                forall|j: int|
                    0 <= j < k ==> spec_is_apply(
                        #[trigger] r@[j],
                        Transform::spec_enumerate(self.kind)[j],
                        *self,
                    ),
            decreases transforms@.len() - k,
        {
            let t = transforms[k];
            r.push(t.apply(self));
            k = k + 1;
        }
        r
    }

    /// Reanchors a tetromino at its `i`-th point: the anchor moves there and
    /// every offset is rebased on it.
    pub fn reanchor(&self, i: usize) -> (r: Tetromino)
        requires
            i < 4,
            self.points_small(),
            self.anchor.spec_in_bounds(),
            0 <= self.anchor.row + self.points@[i as int].rows < 10,
            0 <= self.anchor.col + self.points@[i as int].cols < 10,
        ensures
            r.kind == self.kind,
            r.transform == self.transform,
            r.real_coords == self.real_coords,
            r.anchor.row == self.anchor.row + self.points@[i as int].rows,
            r.anchor.col == self.anchor.col + self.points@[i as int].cols,
            forall|k: int|
                0 <= k < 4 ==> ((#[trigger] r.points@[k]).rows == self.points@[k].rows
                    - self.points@[i as int].rows && r.points@[k].cols == self.points@[k].cols
                    - self.points@[i as int].cols),
    {
        let focus = self.points[i];
        let anchor = self.anchor.plus(&focus).coerce();
        let points = [
            self.points[0].minus(&focus),
            self.points[1].minus(&focus),
            self.points[2].minus(&focus),
            self.points[3].minus(&focus),
        ];
        Tetromino {
            kind: self.kind,
            anchor,
            points,
            real_coords: self.real_coords,
            transform: self.transform,
        }
    }

    /// Builds the identity tetromino of a kind with its `i`-th template
    /// point chosen as the anchor point.
    pub fn recontextualize(kind: Tile, anchor: Coord, i: u8) -> (r: Tetromino)
        requires
            i < 4,
            anchor.spec_in_bounds(),
            0 <= anchor.row + Tetromino::spec_template(kind)[i as int].rows < 10,
            0 <= anchor.col + Tetromino::spec_template(kind)[i as int].cols < 10,
        ensures
            r.kind == kind,
            r.transform == Transform::Identity,
            r.anchor.row == anchor.row + Tetromino::spec_template(kind)[i as int].rows,
            r.anchor.col == anchor.col + Tetromino::spec_template(kind)[i as int].cols,
            forall|k: int|
                0 <= k < 4 ==> ((#[trigger] r.points@[k]).rows == Tetromino::spec_template(kind)[k].rows
                    - Tetromino::spec_template(kind)[i as int].rows && r.points@[k].cols
                    == Tetromino::spec_template(kind)[k].cols - Tetromino::spec_template(
                    kind,
                )[i as int].cols),
    {
        let iden = Tetromino::identity(kind, &anchor);
        iden.reanchor(i as usize)
    }
}

impl Tetromino {
    /// The squared distance between the `i`-th and `j`-th of four coordinates.
    pub open spec fn spec_pair_dist(cs: [Coord; 4], i: int, j: int) -> int {
        let a = cs@[i];
        let b = cs@[j];
        (a.row - b.row) * (a.row - b.row) + (a.col - b.col) * (a.col - b.col)
    }

    /// How many of the first `k` ordered coordinate pairs are at squared
    /// distance `d`. Pair `k` is the pair (k / 4, k % 4).
    pub open spec fn spec_dist_count_upto(cs: [Coord; 4], d: int, k: int) -> int
        decreases k,
    {
        if k <= 0 {
            0
        } else {
            Tetromino::spec_dist_count_upto(cs, d, k - 1) + if Tetromino::spec_pair_dist(
                cs,
                (k - 1) / 4,
                (k - 1) % 4,
            ) == d {
                1int
            } else {
                0int
            }
        }
    }

    /// How many of the sixteen ordered coordinate pairs are at squared
    /// distance `d`.
    pub open spec fn spec_dist_count(cs: [Coord; 4], d: int) -> int {
        Tetromino::spec_dist_count_upto(cs, d, 16)
    }

    /// The tetromino kind whose shape the four coordinates form, if any:
    /// each kind has a distinct multiset of pairwise squared distances.
    pub open spec fn spec_shape_kind(cs: [Coord; 4]) -> Option<Tile> {
        let c0 = Tetromino::spec_dist_count(cs, 0);
        let c1 = Tetromino::spec_dist_count(cs, 1);
        let c2 = Tetromino::spec_dist_count(cs, 2);
        let c4 = Tetromino::spec_dist_count(cs, 4);
        let c5 = Tetromino::spec_dist_count(cs, 5);
        let c9 = Tetromino::spec_dist_count(cs, 9);
        if c0 == 4 && c1 == 6 && c2 == 2 && c4 == 2 && c5 == 2 {
            Some(Tile::L)
        } else if c0 == 4 && c1 == 6 && c4 == 4 && c9 == 2 {
            Some(Tile::I)
        } else if c0 == 4 && c1 == 6 && c2 == 4 && c4 == 2 {
            Some(Tile::T)
        } else if c0 == 4 && c1 == 6 && c2 == 4 && c5 == 2 {
            Some(Tile::S)
        } else {
            None
        }
    }

    /// Determines whether the given coords are a tetromino of the given
    /// kind; if so, returns a tetromino representing those coords.
    ///
    /// The returned tetromino is not guaranteed to be in standard form
    /// (i.e. a tetromino in the piecemap); it serves to query the piecemap.
    pub fn validate(kind: Tile, coords: [Coord; 4]) -> (r: Result<Tetromino, LitsError>)
        requires
            forall|k: int| 0 <= k < 4 ==> (#[trigger] coords@[k]).spec_in_bounds(),
        ensures
            r is Ok <==> Tetromino::spec_shape_kind(coords) == Some(kind),
            r is Err ==> r->Err_0 == LitsError::Notation,
            r is Ok ==> ({
                let t = r->Ok_0;
                &&& t.kind == kind
                &&& t.anchor == (Coord { row: 0, col: 0 })
                &&& t.transform == Transform::Identity
                &&& forall|k: int|
                    0 <= k < 4 ==> ((#[trigger] t.real_coords@[k]).rows == coords@[k].row
                        && t.real_coords@[k].cols == coords@[k].col && t.points@[k]
                        == t.real_coords@[k])
            }),
    {
        let mut c0: usize = 0;
        let mut c1: usize = 0;
        let mut c2: usize = 0;
        let mut c4: usize = 0;
        let mut c5: usize = 0;
        let mut c9: usize = 0;
        let mut k: usize = 0;
        while k < 16
            invariant
                k <= 16,
                forall|j: int| 0 <= j < 4 ==> (#[trigger] coords@[j]).spec_in_bounds(),
                c0 == Tetromino::spec_dist_count_upto(coords, 0, k as int),
                c1 == Tetromino::spec_dist_count_upto(coords, 1, k as int),
                c2 == Tetromino::spec_dist_count_upto(coords, 2, k as int),
                c4 == Tetromino::spec_dist_count_upto(coords, 4, k as int),
                c5 == Tetromino::spec_dist_count_upto(coords, 5, k as int),
                c9 == Tetromino::spec_dist_count_upto(coords, 9, k as int),
                c0 <= k && c1 <= k && c2 <= k && c4 <= k && c5 <= k && c9 <= k,
            decreases 16 - k,
        {
            let d = coords[k / 4].squared_distance(&coords[k % 4]);
            match d {
                0 => c0 = c0 + 1,
                1 => c1 = c1 + 1,
                2 => c2 = c2 + 1,
                4 => c4 = c4 + 1,
                5 => c5 = c5 + 1,
                9 => c9 = c9 + 1,
                _ => (),
            }
            k = k + 1;
        }
        let matched: Option<Tile> = if c0 == 4 && c1 == 6 && c2 == 2 && c4 == 2 && c5 == 2 {
            Some(Tile::L)
        } else if c0 == 4 && c1 == 6 && c4 == 4 && c9 == 2 {
            Some(Tile::I)
        } else if c0 == 4 && c1 == 6 && c2 == 4 && c4 == 2 {
            Some(Tile::T)
        } else if c0 == 4 && c1 == 6 && c2 == 4 && c5 == 2 {
            Some(Tile::S)
        } else {
            None
        };
        match matched {
            Some(real_kind) if real_kind == kind => {
                let points = [
                    OffsetCoord::from_coord(&coords[0]),
                    OffsetCoord::from_coord(&coords[1]),
                    OffsetCoord::from_coord(&coords[2]),
                    OffsetCoord::from_coord(&coords[3]),
                ];
                Ok(
                    Tetromino {
                        kind,
                        anchor: Coord { row: 0, col: 0 },
                        points,
                        real_coords: points,
                        transform: Transform::Identity,
                    },
                )
            },
            _ => Err(LitsError::Notation),
        }
    }
}

/// The sum of a coordinate and an offset, as an offset.
pub open spec fn sum_oc(anchor: Coord, p: OffsetCoord) -> OffsetCoord {
    OffsetCoord { rows: (anchor.row + p.rows) as isize, cols: (anchor.col + p.cols) as isize }
}

/// Whether `r` is the result of applying transform `t` to `base`: same kind
/// and anchor, points mapped through the kind-canonical form of `t`, real
/// coordinates rebuilt from the anchor, and the transform label composed.
pub open spec fn spec_is_apply(r: Tetromino, t: Transform, base: Tetromino) -> bool {
    let ct = t.spec_canonicalize(base.kind);
    &&& r.kind == base.kind
    &&& r.anchor == base.anchor
    &&& forall|k: int|
        0 <= k < 4 ==> #[trigger] r.points@[k] == ct.spec_apply_one(base.points@[k])
    &&& r.real_ok()
    &&& r.points_small()
    &&& r.transform == base.transform.spec_compose(t).spec_canonicalize(base.kind)
}

impl Transform {
    /// Applies a transformation to a tetromino: its points are mapped
    /// through the kind-canonical form of the transform and its real
    /// coordinates are rebuilt from the anchor.
    #[verifier::rlimit(60)]
    pub fn apply(&self, tetromino: &Tetromino) -> (r: Tetromino)
        requires
            tetromino.points_small(),
            tetromino.anchor.spec_in_bounds(),
        ensures
            spec_is_apply(r, *self, *tetromino),
    {
        let ct = self.canonicalize(&tetromino.kind);
        let points = [
            ct.apply_one(&tetromino.points[0]),
            ct.apply_one(&tetromino.points[1]),
            ct.apply_one(&tetromino.points[2]),
            ct.apply_one(&tetromino.points[3]),
        ];
        let real_coords = [
            tetromino.anchor.plus(&points[0]),
            tetromino.anchor.plus(&points[1]),
            tetromino.anchor.plus(&points[2]),
            tetromino.anchor.plus(&points[3]),
        ];
        let transform = tetromino.transform.compose(self).canonicalize(&tetromino.kind);
        let r = Tetromino {
            kind: tetromino.kind,
            anchor: tetromino.anchor,
            points,
            real_coords,
            transform,
        };
        proof {
            assert(r.points@[0] == ct.spec_apply_one(tetromino.points@[0]));
            assert(r.points@[1] == ct.spec_apply_one(tetromino.points@[1]));
            assert(r.points@[2] == ct.spec_apply_one(tetromino.points@[2]));
            assert(r.points@[3] == ct.spec_apply_one(tetromino.points@[3]));
            assert forall|k: int| 0 <= k < 4 implies #[trigger] r.points@[k]
                == ct.spec_apply_one(tetromino.points@[k]) by {
                assert(k == 0 || k == 1 || k == 2 || k == 3);
            }
            assert(r.real_ok());
        }
        r
    }
}

/// Compares two offsets row-major.
pub fn le_oc(a: &OffsetCoord, b: &OffsetCoord) -> (r: bool)
    ensures
        r == spec_le_oc(*a, *b),
{
    a.rows < b.rows || (a.rows == b.rows && a.cols <= b.cols)
}

} // verus!
