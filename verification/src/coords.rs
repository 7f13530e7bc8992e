use vstd::prelude::*;
use crate::consts::BOARD_SIZE;

verus! {

/// Simple board coordinate; realistically bounded to 10x10.
#[derive(Clone, Copy, Debug, PartialEq, Eq, Structural)]
pub struct Coord {
    pub row: usize,
    pub col: usize,
}

impl Coord {
    /// The linear index of the coordinate in a row-major scan of the board.
    pub open spec fn spec_lin(self) -> int {
        self.row * BOARD_SIZE + self.col
    }

    /// Whether the coordinate lies on the board.
    pub open spec fn spec_in_bounds(self) -> bool {
        self.row < BOARD_SIZE && self.col < BOARD_SIZE
    }

    /// Determines whether or not the coord is in bounds.
    pub fn in_bounds(&self) -> (r: bool)
        ensures
            r == self.spec_in_bounds(),
    {
        self.row < 10 && self.col < 10
    }

    /// Constructs a new coord.
    pub fn new(row: usize, col: usize) -> (r: Coord)
        ensures
            r.row == row && r.col == col,
    {
        Coord { row, col }
    }

    /// The linear index of an in-bounds coordinate.
    pub fn lin(&self) -> (r: usize)
        requires
            self.spec_in_bounds(),
        ensures
            r as int == self.spec_lin(),
            r < 100,
    {
        self.row * 10 + self.col
    }

    /// The in-bounds coordinate with the given linear index.
    pub fn from_lin(i: usize) -> (r: Coord)
        requires
            i < 100,
        ensures
            r.spec_in_bounds(),
            r.spec_lin() == i as int,
    {
        Coord { row: i / 10, col: i % 10 }
    }

    /// Gets the squared distance between the two coords.
    pub fn squared_distance(&self, other: &Coord) -> (r: usize)
        requires
            self.spec_in_bounds(),
            other.spec_in_bounds(),
        ensures
            r as int == (self.row - other.row) * (self.row - other.row) + (self.col - other.col)
                * (self.col - other.col),
    {
        let dr = self.row as i64 - other.row as i64;
        let dc = self.col as i64 - other.col as i64;
        proof {
            assert(dr * dr <= 100 && dr * dr >= 0 && dc * dc <= 100 && dc * dc >= 0)
                by (nonlinear_arith)
                requires
                    -10 <= dr <= 10 && -10 <= dc <= 10,
            ;
        }
        (dr * dr + dc * dc) as usize
    }

    /// Moves the coordinate by a signed offset.
    pub fn plus(&self, rhs: &OffsetCoord) -> (r: OffsetCoord)
        requires
            self.spec_in_bounds(),
            -1000 <= rhs.rows <= 1000,
            -1000 <= rhs.cols <= 1000,
        ensures
            r.rows == self.row + rhs.rows,
            r.cols == self.col + rhs.cols,
    {
        OffsetCoord { rows: self.row as isize + rhs.rows, cols: self.col as isize + rhs.cols }
    }
}

/// Simple offset pair that can be used to calculate neighbours.
#[derive(Clone, Copy, Debug, PartialEq, Eq, Structural)]
pub struct OffsetCoord {
    pub rows: isize,
    pub cols: isize,
}

impl OffsetCoord {
    /// Whether the offset denotes a cell on the board.
    pub open spec fn spec_in_bounds(self) -> bool {
        0 <= self.rows < BOARD_SIZE && 0 <= self.cols < BOARD_SIZE
    }

    /// Whether the offset is the top-left anchor of a whole 2x2 square on the board.
    pub open spec fn spec_in_foursquare_bounds(self) -> bool {
        0 <= self.rows < BOARD_SIZE - 1 && 0 <= self.cols < BOARD_SIZE - 1
    }

    /// The taxicab distance between two offsets.
    pub open spec fn spec_manhattan(self, other: OffsetCoord) -> int {
        abs_int(self.rows - other.rows) + abs_int(self.cols - other.cols)
    }

    /// The linear board index of an in-bounds offset.
    pub open spec fn spec_lin(self) -> int {
        self.rows * BOARD_SIZE + self.cols
    }

    /// Constructs a new offset coord.
    pub fn new(rows: isize, cols: isize) -> (r: OffsetCoord)
        ensures
            r.rows == rows && r.cols == cols,
    {
        OffsetCoord { rows, cols }
    }

    /// Coerces an on-board offset into a coordinate.
    pub fn coerce(&self) -> (r: Coord)
        requires
            self.rows >= 0,
            self.cols >= 0,
        ensures
            r.row == self.rows && r.col == self.cols,
    {
        Coord { row: self.rows as usize, col: self.cols as usize }
    }

    /// If the coord is a top-left anchor on a foursquare.
    pub fn in_foursquare_bounds_signed(&self) -> (r: bool)
        ensures
            r == self.spec_in_foursquare_bounds(),
    {
        0 <= self.rows && self.rows < 9 && 0 <= self.cols && self.cols < 9
    }

    /// Determines whether or not the coord is in bounds.
    pub fn in_bounds_signed(&self) -> (r: bool)
        ensures
            r == self.spec_in_bounds(),
    {
        0 <= self.rows && self.rows < 10 && 0 <= self.cols && self.cols < 10
    }

    /// The taxicab distance between two points.
    pub fn manhattan(&self, other: OffsetCoord) -> (r: usize)
        requires
            -100000 <= self.rows <= 100000,
            -100000 <= self.cols <= 100000,
            -100000 <= other.rows <= 100000,
            -100000 <= other.cols <= 100000,
        ensures
            r as int == self.spec_manhattan(other),
    {
        let dr = if self.rows >= other.rows {
            self.rows - other.rows
        } else {
            other.rows - self.rows
        };
        let dc = if self.cols >= other.cols {
            self.cols - other.cols
        } else {
            other.cols - self.cols
        };
        (dr + dc) as usize
    }

    /// Whether two coordinates are neighbours.
    pub fn neighbours(&self, other: OffsetCoord) -> (r: bool)
        requires
            -100000 <= self.rows <= 100000,
            -100000 <= self.cols <= 100000,
            -100000 <= other.rows <= 100000,
            -100000 <= other.cols <= 100000,
        ensures
            r == (self.spec_manhattan(other) == 1),
    {
        self.manhattan(other) == 1
    }

    /// Adds two offsets.
    pub fn plus(&self, rhs: &OffsetCoord) -> (r: OffsetCoord)
        requires
            isize::MIN <= self.rows + rhs.rows <= isize::MAX,
            isize::MIN <= self.cols + rhs.cols <= isize::MAX,
        ensures
            r.rows == self.rows + rhs.rows,
            r.cols == self.cols + rhs.cols,
    {
        OffsetCoord { rows: self.rows + rhs.rows, cols: self.cols + rhs.cols }
    }

    /// Subtracts an offset from this one.
    pub fn minus(&self, rhs: &OffsetCoord) -> (r: OffsetCoord)
        requires
            isize::MIN <= self.rows - rhs.rows <= isize::MAX,
            isize::MIN <= self.cols - rhs.cols <= isize::MAX,
        ensures
            r.rows == self.rows - rhs.rows,
            r.cols == self.cols - rhs.cols,
    {
        OffsetCoord { rows: self.rows - rhs.rows, cols: self.cols - rhs.cols }
    }

    /// The offset of an on-board coordinate.
    pub fn from_coord(value: &Coord) -> (r: OffsetCoord)
        requires
            value.spec_in_bounds(),
        ensures
            r.rows == value.row,
            r.cols == value.col,
    {
        OffsetCoord { rows: value.row as isize, cols: value.col as isize }
    }
}

/// The absolute value of a mathematical integer.
pub open spec fn abs_int(v: int) -> int {
    if v >= 0 {
        v
    } else {
        -v
    }
}

/// The four offsets that turn a coordinate into one of its orthogonal neighbours.
pub fn orthogonal_offsets() -> (r: [OffsetCoord; 4])
    ensures
        r@ =~= seq![
            OffsetCoord { rows: -1isize, cols: 0isize },
            OffsetCoord { rows: 0isize, cols: -1isize },
            OffsetCoord { rows: 0isize, cols: 1isize },
            OffsetCoord { rows: 1isize, cols: 0isize },
        ],
{
    [
        OffsetCoord { rows: -1, cols: 0 },
        OffsetCoord { rows: 0, cols: -1 },
        OffsetCoord { rows: 0, cols: 1 },
        OffsetCoord { rows: 1, cols: 0 },
    ]
}

/// The four offsets that lead to the top-left anchors of all 2x2 bounding
/// boxes that include a coordinate.
pub fn anchor_offsets() -> (r: [OffsetCoord; 4])
    ensures
        r@ =~= seq![
            OffsetCoord { rows: -1isize, cols: -1isize },
            OffsetCoord { rows: -1isize, cols: 0isize },
            OffsetCoord { rows: 0isize, cols: -1isize },
            OffsetCoord { rows: 0isize, cols: 0isize },
        ],
{
    [
        OffsetCoord { rows: -1, cols: -1 },
        OffsetCoord { rows: -1, cols: 0 },
        OffsetCoord { rows: 0, cols: -1 },
        OffsetCoord { rows: 0, cols: 0 },
    ]
}

} // verus!
