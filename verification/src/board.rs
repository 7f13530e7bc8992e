use vstd::prelude::*;
use crate::board_cell::BoardCell;
use crate::consts::{LitsError, Player, Tile, NUM_PIECES, NULL_MOVE, PIECES_PER_KIND};
use crate::coords::Coord;
use crate::coordset::CoordSet;
use crate::foursquare::FoursquareCounter;
use crate::interaction::Interaction;
use crate::moveset::MoveSet;
use crate::neighbours::EdgeCounter;
use crate::piecemap::PieceMap;
use crate::zobrist::{spec_cell_hash, spec_move_hash};

verus! {

/// The grid of cells on a LITS board.
#[derive(Clone, Copy, Debug)]
pub struct Grid(pub [[BoardCell; 10]; 10]);

impl Grid {
    /// The cell with the given linear index.
    pub open spec fn cell(self, v: int) -> BoardCell {
        self.0@[v / 10]@[v % 10]
    }

    /// Whether no cell of the grid carries a tile.
    pub open spec fn no_tiles(self) -> bool {
        forall|v: int| 0 <= v < 100 ==> (#[trigger] self.cell(v)).tile is None
    }

    /// The X-perspective material score of the first `n` cells.
    pub open spec fn score_upto(self, n: int) -> int
        decreases n,
    {
        if n <= 0 {
            0
        } else {
            self.score_upto(n - 1) + self.cell(n - 1).spec_contribution()
        }
    }

    /// The X-perspective material score of the whole grid: the sum of the
    /// perspectives of all uncovered symbols.
    pub open spec fn spec_score(self) -> int {
        self.score_upto(100)
    }

    /// The XOR of the symbol-state hashes of the first `n` cells.
    pub open spec fn cells_hash_upto(self, n: int) -> u64
        decreases n,
    {
        if n <= 0 {
            0
        } else {
            self.cells_hash_upto(n - 1) ^ spec_cell_hash((n - 1) / 10, (n - 1) % 10, self.cell(n - 1))
        }
    }

    /// The XOR of the symbol-state hashes of all cells.
    pub open spec fn spec_cells_hash(self) -> u64 {
        self.cells_hash_upto(100)
    }
}

impl Default for Grid {
    /// An empty grid: no symbols, no tiles.
    fn default() -> (r: Grid)
        ensures
            forall|v: int|
                0 <= v < 100 ==> ((#[trigger] r.cell(v)).symbol is None && r.cell(v).tile is None),
    {
        let row = vstd::array::array_fill_for_copy_types::<BoardCell, 10>(
            BoardCell { symbol: None, tile: None },
        );
        let g = Grid(vstd::array::array_fill_for_copy_types::<[BoardCell; 10], 10>(row));
        proof {
            broadcast use vstd::array::axiom_spec_array_fill_for_copy_type;

            assert forall|v: int|
                0 <= v < 100 implies ((#[trigger] g.cell(v)).symbol is None && g.cell(
                v,
            ).tile is None) by {
                assert(0 <= v / 10 < 10 && 0 <= v % 10 < 10);
                assert(g.0@[v / 10] == row);
                assert(row@[v % 10] == (BoardCell { symbol: None, tile: None }));
            }
        }
        g
    }
}

/// Changing one cell changes the grid score by that cell's contribution
/// difference.
#[verifier::rlimit(100)]
pub proof fn lemma_score_pointwise(g1: Grid, g2: Grid, v: int, n: int)
    requires
        0 <= v < 100,
        0 <= n <= 100,
        forall|w: int| 0 <= w < 100 && w != v ==> #[trigger] g2.cell(w) == g1.cell(w),
    ensures
        g2.score_upto(n) == g1.score_upto(n) + if v < n {
            g2.cell(v).spec_contribution() - g1.cell(v).spec_contribution()
        } else {
            0int
        },
    decreases n,
{
    if n > 0 {
        lemma_score_pointwise(g1, g2, v, n - 1);
    }
}

/// Changing one cell changes the grid hash by the XOR of the old and new
/// hashes of that cell.
#[verifier::rlimit(100)]
pub proof fn lemma_cells_hash_pointwise(g1: Grid, g2: Grid, v: int, n: int)
    requires
        0 <= v < 100,
        0 <= n <= 100,
        forall|w: int| 0 <= w < 100 && w != v ==> #[trigger] g2.cell(w) == g1.cell(w),
    ensures
        g2.cells_hash_upto(n) == if v < n {
            g1.cells_hash_upto(n) ^ spec_cell_hash(v / 10, v % 10, g1.cell(v)) ^ spec_cell_hash(
                v / 10,
                v % 10,
                g2.cell(v),
            )
        } else {
            g1.cells_hash_upto(n)
        },
    decreases n,
{
    if n > 0 {
        lemma_cells_hash_pointwise(g1, g2, v, n - 1);
        let h1 = g1.cells_hash_upto(n - 1);
        let b = spec_cell_hash(v / 10, v % 10, g1.cell(v));
        let c = spec_cell_hash(v / 10, v % 10, g2.cell(v));
        let t = spec_cell_hash((n - 1) / 10, (n - 1) % 10, g1.cell(n - 1));
        if v == n - 1 {
            lemma_xor_shuffle(h1, b, c);
        } else if v < n - 1 {
            assert(g2.cell(n - 1) == g1.cell(n - 1));
            assert((((h1 ^ b) ^ c) ^ t) == (((h1 ^ t) ^ b) ^ c)) by (bit_vector);
        }
    }
}

/// XOR is associative and commutative enough to pull a pair of terms out.
proof fn lemma_xor_shuffle(a: u64, b: u64, c: u64)
    ensures
        (a ^ c) == ((a ^ b) ^ b ^ c),
{
    assert((a ^ c) == ((a ^ b) ^ b ^ c)) by (bit_vector);
}

/// Negating every symbol negates the grid score.
pub proof fn lemma_score_negated(g1: Grid, g2: Grid, n: int)
    requires
        0 <= n <= 100,
        forall|v: int| 0 <= v < 100 ==> #[trigger] g2.cell(v) == g1.cell(v).spec_negated(),
    ensures
        g2.score_upto(n) == -g1.score_upto(n),
    decreases n,
{
    if n > 0 {
        lemma_score_negated(g1, g2, n - 1);
    }
}

/// The XOR of the move hashes of the ids below `n` that are in the set.
pub open spec fn moves_hash_upto(ms: MoveSet, n: int) -> u64
    decreases n,
{
    if n <= 0 {
        0
    } else {
        moves_hash_upto(ms, n - 1) ^ (if ms.has(n - 1) {
            spec_move_hash(n - 1)
        } else {
            0
        })
    }
}

/// The XOR of the move hashes of all played moves.
pub open spec fn spec_moves_hash(ms: MoveSet) -> u64 {
    moves_hash_upto(ms, NUM_PIECES as int)
}

/// Two sets with the same members have the same move hash.
pub proof fn lemma_moves_hash_congruent(a: MoveSet, b: MoveSet, n: int)
    requires
        0 <= n,
        forall|v: int| #[trigger] a.has(v) == b.has(v),
    ensures
        moves_hash_upto(a, n) == moves_hash_upto(b, n),
    decreases n,
{
    if n > 0 {
        lemma_moves_hash_congruent(a, b, n - 1);
    }
}

/// Inserting a fresh move XORs its hash into the move hash.
pub proof fn lemma_moves_hash_insert(a: MoveSet, b: MoveSet, m: int, n: int)
    requires
        0 <= m,
        0 <= n,
        !a.has(m),
        forall|v: int| #[trigger] b.has(v) == (a.has(v) || v == m),
    ensures
        moves_hash_upto(b, n) == if m < n {
            moves_hash_upto(a, n) ^ spec_move_hash(m)
        } else {
            moves_hash_upto(a, n)
        },
    decreases n,
{
    if n > 0 {
        lemma_moves_hash_insert(a, b, m, n - 1);
        if m == n - 1 {
            lemma_xor_right(moves_hash_upto(a, n - 1), spec_move_hash(m));
        } else if m < n - 1 {
            lemma_xor_ac(
                moves_hash_upto(a, n - 1),
                spec_move_hash(m),
                if a.has(n - 1) {
                    spec_move_hash(n - 1)
                } else {
                    0
                },
            );
        }
    }
}

/// XOR terms can be swapped.
proof fn lemma_xor_ac(a: u64, b: u64, c: u64)
    ensures
        ((a ^ b) ^ c) == ((a ^ c) ^ b),
{
    assert(((a ^ b) ^ c) == ((a ^ c) ^ b)) by (bit_vector);
}

/// XOR with zero and reordering facts for a pair of terms.
proof fn lemma_xor_right(a: u64, b: u64)
    ensures
        (a ^ 0) == a,
        ((a ^ 0) ^ b) == (a ^ b),
{
    assert((a ^ 0) == a) by (bit_vector);
}

/// How many of the first `n` moves of the history have the given kind.
pub open spec fn count_kind_upto(pm: PieceMap, history: Seq<usize>, t: Tile, n: int) -> int
    decreases n,
{
    if n <= 0 {
        0
    } else {
        count_kind_upto(pm, history, t, n - 1) + if pm.forward@[history[n - 1] as int].kind == t {
            1int
        } else {
            0int
        }
    }
}

/// The kind counts of a history prefix never exceed its length.
pub proof fn lemma_count_kind_bound(pm: PieceMap, history: Seq<usize>, t: Tile, n: int)
    requires
        0 <= n,
    ensures
        0 <= count_kind_upto(pm, history, t, n) <= n,
    decreases n,
{
    if n > 0 {
        lemma_count_kind_bound(pm, history, t, n - 1);
    }
}

/// Kind counts only read the prefix of the history they are about.
pub proof fn lemma_count_kind_push(pm: PieceMap, h1: Seq<usize>, h2: Seq<usize>, t: Tile, n: int)
    requires
        0 <= n <= h1.len(),
        h1.len() <= h2.len(),
        forall|i: int| 0 <= i < h1.len() ==> h1[i] == h2[i],
    ensures
        count_kind_upto(pm, h1, t, n) == count_kind_upto(pm, h2, t, n),
    decreases n,
{
    if n > 0 {
        lemma_count_kind_push(pm, h1, h2, t, n - 1);
    }
}

/// A bit-implementation of a board of The Battle of LITS.
#[derive(Clone, Debug)]
pub struct Board<'a> {
    /// A grid of squares, each containing an X, O, or neither, and possibly
    /// one of the four game tiles.
    pub cells: Grid,
    /// A running reference to the covered cells.
    pub cover: CoordSet,
    /// A per-cell reference counter of bordering tiles by kind.
    pub edge_mask: EdgeCounter,
    /// A population counter for every foursquare on the board.
    pub foursquare_mask: FoursquareCounter,
    /// The cells of every 2x2 that already holds three or more tiles.
    pub protected: CoordSet,
    /// The linear history of this game, stored as a list of piece ids.
    pub history: Vec<usize>,
    /// The set of played piece ids, for constant-time lookup.
    pub played: MoveSet,
    /// All uncovered cells bordering the played pieces.
    pub neighbours: CoordSet,
    /// The number of pieces remaining of each kind.
    pub piece_bag: [u8; 4],
    /// The shared table of placements and interactions.
    pub piecemap: &'a PieceMap,
    /// The player to move. Stored rather than derived because of the swap.
    pub player_to_move: Player,
    /// The current uncovered-symbol count in X's favour.
    pub score: i16,
    /// Whether the pie rule was invoked.
    pub swapped: bool,
    /// The canonical hash of the game state.
    pub zobrist_hash: u64,
}

impl<'a> Board<'a> {
    /// The number of moves played.
    pub open spec fn hlen(self) -> int {
        self.history@.len() as int
    }

    /// The placement of the `i`-th played move.
    pub open spec fn hpiece(self, i: int) -> crate::tetromino::Tetromino {
        self.piecemap.forward@[self.history@[i] as int]
    }

    /// The player whose turn it is after `len` moves, `swapped` accounted:
    /// X moves first, and the swap hands the turn back.
    pub open spec fn spec_player(len: int, swapped: bool) -> Player {
        if (len + if swapped {
            1int
        } else {
            0int
        }) % 2 == 0 {
            Player::X
        } else {
            Player::O
        }
    }

    /// The played ids are piece ids, each played once, mirrored in the
    /// played set, pairwise compatible, and chained by adjacency.
    pub open spec fn wf_history(self) -> bool {
        &&& forall|i: int| 0 <= i < self.hlen() ==> (#[trigger] self.history@[i]) < NUM_PIECES
        &&& forall|m: int|
            #![trigger self.played.has(m)]
            self.played.has(m) <==> exists|i: int|
                0 <= i < self.hlen() && #[trigger] self.history@[i] == m
        &&& forall|i: int, j: int|
            0 <= i < j < self.hlen() ==> self.history@[i] != self.history@[j]
        &&& forall|i: int, j: int|
            0 <= i < self.hlen() && 0 <= j < self.hlen() && i != j
                ==> self.piecemap.spec_assoc_ids(
                self.history@[i] as int,
                self.history@[j] as int,
            ) != Interaction::Conflicting
    }

    /// The cover is the union of the played cells.
    pub open spec fn wf_cover(self) -> bool {
        &&& self.cover.inv()
        &&& forall|v: int|
            #![trigger self.cover.has(v)]
            self.cover.has(v) <==> exists|i: int|
                0 <= i < self.hlen() && (#[trigger] self.hpiece(i)).covers(v)
    }

    /// A cell holds a tile exactly when it is covered, and then the tile of
    /// the piece covering it.
    pub open spec fn wf_cells(self) -> bool {
        &&& forall|v: int|
            0 <= v < 100 ==> (((#[trigger] self.cells.cell(v)).tile is Some) <==> self.cover.has(
                v,
            ))
        &&& forall|i: int, v: int|
            #![trigger self.hpiece(i), self.cells.cell(v)]
            0 <= i < self.hlen() && self.hpiece(i).covers(v) ==> self.cells.cell(v).tile == Some(
                self.hpiece(i).kind,
            )
    }

    /// The foursquare counter counts the covered cells of each 2x2.
    pub open spec fn wf_foursquare(self) -> bool {
        forall|ar: int, ac: int|
            0 <= ar < 9 && 0 <= ac < 9 ==> #[trigger] self.foursquare_mask.spec_count(ar, ac)
                == self.fs_cells(ar, ac)
    }

    /// The protected set holds the cells of every 2x2 with three or more
    /// covered cells.
    pub open spec fn wf_protected(self) -> bool {
        &&& self.protected.inv()
        &&& forall|v: int|
            #![trigger self.protected.has(v)]
            self.protected.has(v) <==> exists|ar: int, ac: int|
                0 <= ar < 9 && 0 <= ac < 9 && #[trigger] FoursquareCounter::anchor_covers(
                    ar,
                    ac,
                    v / 10,
                    v % 10,
                ) && 0 <= v < 100 && self.foursquare_mask.spec_count(ar, ac) >= 3
    }

    /// The neighbour set holds the uncovered cells bordering the pieces.
    pub open spec fn wf_neighbours(self) -> bool {
        &&& self.neighbours.inv()
        &&& forall|v: int|
            #![trigger self.neighbours.has(v)]
            self.neighbours.has(v) <==> ((exists|i: int|
                0 <= i < self.hlen() && (#[trigger] self.hpiece(i)).spec_neighbour(v))
                && !self.cover.has(v))
    }

    /// The bag counts what is left of each kind.
    pub open spec fn wf_bag(self) -> bool {
        forall|t: Tile|
            #![trigger self.piece_bag@[t.spec_index()]]
            0 <= t.spec_index() < 4 ==> self.piece_bag@[t.spec_index()] as int == PIECES_PER_KIND
                - count_kind_upto(*self.piecemap, self.history@, t, self.hlen())
    }

    /// The score, turn, swap flag and hash follow the cells and history.
    pub open spec fn wf_meta(self) -> bool {
        &&& self.score as int == self.cells.spec_score()
        &&& self.player_to_move == Board::spec_player(self.hlen(), self.swapped)
        &&& (self.swapped ==> self.hlen() >= 1)
        &&& self.zobrist_hash == (self.cells.spec_cells_hash() ^ spec_moves_hash(self.played))
    }

    /// The well-formedness invariant of the board: every incrementally
    /// maintained structure equals its from-scratch recomputation.
    pub open spec fn wf(self) -> bool {
        &&& self.piecemap.wf()
        &&& self.played.inv()
        &&& self.wf_history()
        &&& self.wf_cover()
        &&& self.wf_cells()
        &&& self.wf_foursquare()
        &&& self.wf_protected()
        &&& self.wf_neighbours()
        &&& self.wf_bag()
        &&& self.wf_meta()
    }

    /// How many covered cells the 2x2 anchored at (ar, ac) holds.
    pub open spec fn fs_cells(self, ar: int, ac: int) -> int {
        let c00 = ar * 10 + ac;
        b2i(self.cover.has(c00)) + b2i(self.cover.has(c00 + 1)) + b2i(self.cover.has(c00 + 10))
            + b2i(self.cover.has(c00 + 11))
    }

    /// Whether a move id is legal in this position: the first move is free;
    /// afterwards a piece must touch the network without conflicting with
    /// it, must still be in the bag, and must not complete a 2x2; the swap
    /// is legal exactly once, right after the first move.
    pub open spec fn legal_play(self, m: int) -> bool {
        if self.hlen() == 0 {
            0 <= m < NUM_PIECES
        } else if m == NULL_MOVE {
            !self.swapped && self.hlen() == 1
        } else if self.hlen() == 1 {
            0 <= m < NUM_PIECES && self.piecemap.spec_assoc_ids(self.history@[0] as int, m)
                == Interaction::Adjacent
        } else {
            &&& 0 <= m < NUM_PIECES
            &&& exists|i: int|
                0 <= i < self.hlen() && self.piecemap.spec_assoc_ids(
                    #[trigger] self.history@[i] as int,
                    m,
                ) == Interaction::Adjacent
            &&& forall|i: int|
                0 <= i < self.hlen() ==> self.piecemap.spec_assoc_ids(
                    #[trigger] self.history@[i] as int,
                    m,
                ) != Interaction::Conflicting
            &&& self.piece_bag@[self.piecemap.forward@[m].kind.spec_index()] > 0
            &&& forall|v: int|
                #[trigger] self.piecemap.forward@[m].covers(v) ==> !(self.protected.has(v)
                    && !self.cover.has(v))
        }
    }

    /// Determines if the game state is such that O can swap.
    pub fn can_swap(&self) -> (r: bool)
        ensures
            r == (!self.swapped && self.hlen() == 1),
    {
        self.swapped == false && self.history.len() == 1
    }

    /// Determines the current player to move.
    pub fn player_to_move(&self) -> (r: Player)
        ensures
            r == self.player_to_move,
    {
        self.player_to_move
    }

    /// Gets the naive material score on the board in X's perspective.
    pub fn score(&self) -> (r: i16)
        ensures
            r == self.score,
            self.wf() ==> r as int == self.cells.spec_score(),
    {
        self.score
    }

    /// Gets the canonical hash for the game state.
    pub fn zobrist(&self) -> (r: u64)
        ensures
            r == self.zobrist_hash,
    {
        self.zobrist_hash
    }

    /// The heuristic score of the board in X's perspective: the reference
    /// definition is the material score.
    pub fn true_effective_score(&self) -> (r: i16)
        ensures
            r == self.score,
    {
        self.score
    }

    /// The heuristic score from the perspective of the player to move.
    pub fn effective_score(&self) -> (r: i16)
        requires
            self.wf(),
        ensures
            r as int == self.cells.spec_score() * self.player_to_move.spec_perspective(),
    {
        proof {
            lemma_score_in_range(self.cells, 100);
        }
        let p = self.player_to_move.perspective();
        if p >= 0 {
            self.true_effective_score()
        } else {
            -self.true_effective_score()
        }
    }

    /// Gets the board cell at a coordinate, if it is on the board.
    pub fn get(&self, coord: &Coord) -> (r: Result<BoardCell, LitsError>)
        ensures
            r is Ok <==> coord.spec_in_bounds(),
            r is Ok ==> r->Ok_0 == self.cells.cell(coord.spec_lin()),
            r is Err ==> r->Err_0 == LitsError::OutOfBounds,
    {
        if coord.in_bounds() {
            proof {
                lemma_cell_at(self.cells, coord.row as int, coord.col as int);
            }
            Ok(self.cells.0[coord.row][coord.col])
        } else {
            Err(LitsError::OutOfBounds)
        }
    }

    /// Determines the scoring symbol at a coordinate, if the coordinate is
    /// on the board.
    pub fn cell(&self, coord: &Coord) -> (r: Result<Option<Player>, LitsError>)
        ensures
            r is Ok <==> coord.spec_in_bounds(),
            r is Ok ==> r->Ok_0 == self.cells.cell(coord.spec_lin()).symbol,
            r is Err ==> r->Err_0 == LitsError::OutOfBounds,
    {
        match self.get(coord) {
            Ok(c) => Ok(c.cell_value()),
            Err(e) => Err(e),
        }
    }

    /// Determines the tile covering a coordinate, if the coordinate is on
    /// the board.
    pub fn lits(&self, coord: &Coord) -> (r: Result<Option<Tile>, LitsError>)
        ensures
            r is Ok <==> coord.spec_in_bounds(),
            r is Ok ==> r->Ok_0 == self.cells.cell(coord.spec_lin()).tile,
            r is Err ==> r->Err_0 == LitsError::OutOfBounds,
    {
        match self.get(coord) {
            Ok(c) => Ok(c.lits_value()),
            Err(e) => Err(e),
        }
    }

    /// Gets a cell's symbol without a bounds check; engine use only.
    pub fn cell_unchecked(&self, coord: &Coord) -> (r: Option<Player>)
        requires
            coord.spec_in_bounds(),
        ensures
            r == self.cells.cell(coord.spec_lin()).symbol,
    {
        proof {
            lemma_cell_at(self.cells, coord.row as int, coord.col as int);
        }
        self.cells.0[coord.row][coord.col].cell_value()
    }

    /// Gets a cell's tile without a bounds check; engine use only.
    pub fn lits_unchecked(&self, coord: &Coord) -> (r: Option<Tile>)
        requires
            coord.spec_in_bounds(),
        ensures
            r == self.cells.cell(coord.spec_lin()).tile,
    {
        proof {
            lemma_cell_at(self.cells, coord.row as int, coord.col as int);
        }
        self.cells.0[coord.row][coord.col].lits_value()
    }

    /// Returns a new board over the given symbol grid, or an empty one.
    pub fn new<'p>(symbols: Option<Grid>, piecemap: &'p PieceMap) -> (r: Board<'p>)
        requires
            piecemap.wf(),
            symbols is Some ==> symbols->0.no_tiles(),
        ensures
            r.wf(),
            r.hlen() == 0,
            r.swapped == false,
            r.player_to_move == Player::X,
            r.piecemap == piecemap,
            symbols is Some ==> r.cells == symbols->0,
            symbols is None ==> forall|v: int|
                0 <= v < 100 ==> ((#[trigger] r.cells.cell(v)).symbol is None && r.cells.cell(
                    v,
                ).tile is None),
    {
        let cells = match symbols {
            Some(grid) => grid,
            None => Grid::default(),
        };
        let score = compute_score(&cells);
        let zobrist_hash = initial_zobrist_hash(&cells);
        let board = Board {
            cells,
            cover: CoordSet::empty(),
            edge_mask: EdgeCounter::default(),
            foursquare_mask: FoursquareCounter::default(),
            protected: CoordSet::empty(),
            history: Vec::new(),
            played: MoveSet::empty(),
            neighbours: CoordSet::empty(),
            piece_bag: [5, 5, 5, 5],
            piecemap,
            player_to_move: Player::X,
            score,
            swapped: false,
            zobrist_hash,
        };
        proof {
            assert(spec_moves_hash(board.played) == 0) by {
                lemma_moves_hash_empty(board.played, NUM_PIECES as int);
            }
            lemma_xor_right(board.cells.spec_cells_hash(), 0);
            assert forall|t: Tile|
                #![trigger board.piece_bag@[t.spec_index()]]
                0 <= t.spec_index() < 4 implies board.piece_bag@[t.spec_index()] as int
                == PIECES_PER_KIND - count_kind_upto(
                *board.piecemap,
                board.history@,
                t,
                board.hlen(),
            ) by {}
        }
        board
    }
}

/// The move hash of a set with no members is zero.
proof fn lemma_moves_hash_empty(ms: MoveSet, n: int)
    requires
        0 <= n,
        forall|v: int| !#[trigger] ms.has(v),
    ensures
        moves_hash_upto(ms, n) == 0,
    decreases n,
{
    if n > 0 {
        lemma_moves_hash_empty(ms, n - 1);
        assert((0u64 ^ 0u64) == 0u64) by (bit_vector);
    }
}

/// The cell accessor agrees with direct row and column indexing.
pub proof fn lemma_cell_at(g: Grid, row: int, col: int)
    requires
        0 <= row < 10,
        0 <= col < 10,
    ensures
        g.cell(row * 10 + col) == g.0@[row]@[col],
{
    vstd::arithmetic::div_mod::lemma_fundamental_div_mod_converse(row * 10 + col, 10, row, col);
}

/// Prefix scores stay within the number of cells scanned.
pub proof fn lemma_score_in_range(g: Grid, n: int)
    requires
        0 <= n <= 100,
    ensures
        -n <= g.score_upto(n) <= n,
    decreases n,
{
    if n > 0 {
        lemma_score_in_range(g, n - 1);
    }
}

/// Computes the material score of a grid from scratch.
fn compute_score(g: &Grid) -> (r: i16)
    ensures
        r as int == g.spec_score(),
{
    let mut score: i16 = 0;
    let mut v: usize = 0;
    while v < 100
        invariant
            v <= 100,
            score as int == g.score_upto(v as int),
            -100 <= score <= 100,
        decreases 100 - v,
    {
        proof {
            lemma_score_in_range(*g, v as int);
            lemma_cell_at(*g, v as int / 10, v as int % 10);
        }
        let c = g.0[v / 10][v % 10];
        match c.lits_value() {
            Some(_) => (),
            None => {
                match c.cell_value() {
                    Some(Player::X) => {
                        score = score + 1;
                    },
                    Some(Player::O) => {
                        score = score - 1;
                    },
                    None => (),
                }
            },
        }
        v = v + 1;
    }
    score
}

/// Computes the symbol-state hash of a grid from scratch, as if no pieces
/// had been played.
pub fn initial_zobrist_hash(g: &Grid) -> (r: u64)
    ensures
        r == g.spec_cells_hash(),
{
    let mut h: u64 = 0;
    let mut v: usize = 0;
    while v < 100
        invariant
            v <= 100,
            h == g.cells_hash_upto(v as int),
        decreases 100 - v,
    {
        proof {
            lemma_cell_at(*g, v as int / 10, v as int % 10);
        }
        let c = g.0[v / 10][v % 10];
        h = h ^ crate::zobrist::cell_hash(v / 10, v % 10, c);
        v = v + 1;
    }
    h
}

/// One when the condition holds, zero otherwise.
pub open spec fn b2i(b: bool) -> int {
    if b {
        1
    } else {
        0
    }
}

} // verus!
