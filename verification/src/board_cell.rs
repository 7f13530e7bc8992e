use vstd::prelude::*;
use crate::consts::{Player, Tile};

verus! {

/// A cell on a LITS board: an optional scoring symbol, and optionally the
/// kind of the tetromino covering it. The two are independent.
#[derive(Clone, Copy, Debug)]
pub struct BoardCell {
    pub symbol: Option<Player>,
    pub tile: Option<Tile>,
}

impl BoardCell {
    /// The cell with the symbol negated and the tile kept.
    pub open spec fn spec_negated(self) -> BoardCell {
        match self.symbol {
            Some(p) => BoardCell { symbol: Some(p.spec_neg()), tile: self.tile },
            None => self,
        }
    }

    /// What the cell adds to the X-perspective material score: the
    /// perspective of its symbol if the cell is uncovered, zero otherwise.
    pub open spec fn spec_contribution(self) -> int {
        if self.tile is None {
            match self.symbol {
                Some(p) => p.spec_perspective(),
                None => 0,
            }
        } else {
            0
        }
    }

    /// Determines whether or not a tile covers this cell.
    pub fn covered(&self) -> (r: bool)
        ensures
            r == (self.tile is Some),
    {
        self.tile.is_some()
    }

    /// Determines the scoring symbol at this cell, if any.
    pub fn cell_value(&self) -> (r: Option<Player>)
        ensures
            r == self.symbol,
    {
        self.symbol
    }

    /// Determines the tile covering this cell, if any.
    pub fn lits_value(&self) -> (r: Option<Tile>)
        ensures
            r == self.tile,
    {
        self.tile
    }

    /// Produces a new board cell with the player negated. This operation is
    /// the heart of the swap.
    pub fn negated(&self) -> (r: BoardCell)
        ensures
            r == self.spec_negated(),
    {
        match self.symbol {
            Some(p) => BoardCell { symbol: Some(p.neg()), tile: self.tile },
            None => *self,
        }
    }

    /// Produces a new board cell with the given symbol value.
    pub fn with_cell(&self, cell: Option<Player>) -> (r: BoardCell)
        ensures
            r.symbol == cell,
            r.tile == self.tile,
    {
        BoardCell { symbol: cell, tile: self.tile }
    }

    /// Produces a new board cell with the given tile value.
    pub fn with_lits(&self, lits: Option<Tile>) -> (r: BoardCell)
        ensures
            r.symbol == self.symbol,
            r.tile == lits,
    {
        BoardCell { symbol: self.symbol, tile: lits }
    }
}

impl Default for BoardCell {
    /// An empty cell: no symbol, no tile.
    fn default() -> (r: BoardCell)
        ensures
            r.symbol is None,
            r.tile is None,
    {
        BoardCell { symbol: None, tile: None }
    }
}

} // verus!
