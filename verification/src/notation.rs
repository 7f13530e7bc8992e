use vstd::prelude::*;
use vstd::string::StringExecFns;
use crate::board::{Board, Grid};
use crate::board_cell::BoardCell;
use crate::consts::{Player, NULL_MOVE, NUM_PIECES};
use crate::coords::Coord;
use crate::piecemap::PieceMap;
use crate::tetromino::Tetromino;

verus! {

/// The decimal digit character of a value below ten.
pub open spec fn digit_char(d: int) -> char {
    if d == 0 {
        '0'
    } else if d == 1 {
        '1'
    } else if d == 2 {
        '2'
    } else if d == 3 {
        '3'
    } else if d == 4 {
        '4'
    } else if d == 5 {
        '5'
    } else if d == 6 {
        '6'
    } else if d == 7 {
        '7'
    } else if d == 8 {
        '8'
    } else {
        '9'
    }
}

/// A one-character string holding a decimal digit.
pub fn digit_str(d: usize) -> (r: &'static str)
    requires
        d < 10,
    ensures
        r@ =~= seq![digit_char(d as int)],
{
    proof {
        reveal_strlit("0");
        reveal_strlit("1");
        reveal_strlit("2");
        reveal_strlit("3");
        reveal_strlit("4");
        reveal_strlit("5");
        reveal_strlit("6");
        reveal_strlit("7");
        reveal_strlit("8");
        reveal_strlit("9");
    }
    match d {
        0 => "0",
        1 => "1",
        2 => "2",
        3 => "3",
        4 => "4",
        5 => "5",
        6 => "6",
        7 => "7",
        8 => "8",
        _ => "9",
    }
}

impl Coord {
    /// The canonical notation of a coordinate: its row digit then its
    /// column digit.
    pub open spec fn spec_notation(self) -> Seq<char> {
        seq![digit_char(self.row as int), digit_char(self.col as int)]
    }

    /// Notates the coordinate.
    pub fn notate(&self) -> (r: String)
        requires
            self.spec_in_bounds(),
        ensures
            r@ =~= self.spec_notation(),
    {
        let mut s = digit_str(self.row).to_owned();
        s.append(digit_str(self.col));
        s
    }
}

/// The two-digit notation of an on-board cell: its row digit then its
/// column digit.
pub open spec fn oc_notation(oc: crate::coords::OffsetCoord) -> Seq<char> {
    seq![digit_char(oc.rows as int), digit_char(oc.cols as int)]
}

impl Tetromino {
    /// The canonical notation of the placement: its kind letter, then its
    /// four cells in sorted row-major order as two-digit coordinates,
    /// bracketed and comma-separated.
    pub open spec fn spec_notation(self) -> Seq<char> {
        let cs = self.spec_sorted_coords();
        self.kind.spec_notation() + seq!['['] + oc_notation(cs[0]) + seq![','] + oc_notation(cs[1])
            + seq![','] + oc_notation(cs[2]) + seq![','] + oc_notation(cs[3]) + seq![']']
    }

    /// Notates the placement with its coordinates in sorted order.
    #[verifier::rlimit(100)]
    pub fn notate(&self) -> (r: String)
        requires
            crate::piecemap::piece_ok(*self),
        ensures
            r@ =~= self.spec_notation(),
    {
        proof {
            reveal_strlit("[");
            reveal_strlit("]");
            reveal_strlit(",");
        }
        let sorted = self.real_coords();
        proof {
            crate::piecemap_new::lemma_sorted_covers(*self, sorted);
        }
        let c0 = sorted[0].coerce();
        let c1 = sorted[1].coerce();
        let c2 = sorted[2].coerce();
        let c3 = sorted[3].coerce();
        let mut s = self.kind.notate();
        s.append("[");
        s.append(c0.notate().as_str());
        s.append(",");
        s.append(c1.notate().as_str());
        s.append(",");
        s.append(c2.notate().as_str());
        s.append(",");
        s.append(c3.notate().as_str());
        s.append("]");
        proof {
            let cs = self.spec_sorted_coords();
            assert(sorted@[0] == cs[0] && sorted@[1] == cs[1] && sorted@[2] == cs[2] && sorted@[3]
                == cs[3]);
            assert(c0.spec_notation() =~= oc_notation(cs[0]));
            assert(c1.spec_notation() =~= oc_notation(cs[1]));
            assert(c2.spec_notation() =~= oc_notation(cs[2]));
            assert(c3.spec_notation() =~= oc_notation(cs[3]));
            assert(s@ =~= self.spec_notation());
        }
        s
    }
}

impl PieceMap {
    /// The notation of a move id: the placement's notation, or the literal
    /// swap token for the sentinel.
    pub open spec fn spec_move_notation(self, id: int) -> Seq<char> {
        if id == NULL_MOVE {
            seq!['s', 'w', 'a', 'p']
        } else {
            self.forward@[id].spec_notation()
        }
    }

    /// Notates a move id: the placement's sorted coordinates, or the
    /// literal swap token for the sentinel.
    pub fn notate(&self, id: usize) -> (r: String)
        requires
            self.wf(),
            id <= NULL_MOVE,
        ensures
            r@ =~= self.spec_move_notation(id as int),
    {
        proof {
            reveal_strlit("swap");
        }
        if id == 1292 {
            let r = "swap".to_owned();
            proof {
                assert(r@ =~= seq!['s', 'w', 'a', 'p']);
            }
            r
        } else {
            self.get_piece(id).notate()
        }
    }
}

/// The character a cell's symbol prints as, negated when the board stands
/// swapped.
pub open spec fn symbol_char(c: BoardCell, was_swapped: bool) -> char {
    match c.symbol {
        Some(p) => if was_swapped {
            if p == Player::X {
                'O'
            } else {
                'X'
            }
        } else {
            if p == Player::X {
                'X'
            } else {
                'O'
            }
        },
        None => '.',
    }
}

impl Grid {
    /// The notation of the symbol grid: one character per cell, row-major,
    /// the symbols negated when the board stands swapped.
    pub open spec fn spec_notation(self, was_swapped: bool) -> Seq<char> {
        Seq::new(100, |v: int| symbol_char(self.cell(v), was_swapped))
    }

    /// Notates the symbol grid as one hundred characters, row-major, the
    /// symbols negated when the board stands swapped.
    pub fn notate(&self, was_swapped: bool) -> (r: String)
        ensures
            r@ =~= self.spec_notation(was_swapped),
    {
        proof {
            reveal_strlit("X");
            reveal_strlit("O");
            reveal_strlit(".");
        }
        let mut s = String::new();
        let mut v: usize = 0;
        while v < 100
            invariant
                v <= 100,
                s@.len() == v,
                forall|w: int|
                    0 <= w < v ==> #[trigger] s@[w] == symbol_char(self.cell(w), was_swapped),
            decreases 100 - v,
        {
            proof {
                crate::board::lemma_cell_at(*self, v as int / 10, v as int % 10);
            }
            let cell = self.0[v / 10][v % 10];
            let ghost prev = s@;
            let piece = match cell.cell_value() {
                Some(p) => {
                    let shown = if was_swapped {
                        p.neg()
                    } else {
                        p
                    };
                    shown.notate()
                },
                None => ".".to_owned(),
            };
            s.append(piece.as_str());
            proof {
                reveal_strlit("X");
                reveal_strlit("O");
                reveal_strlit(".");
                assert(piece@.len() == 1);
                assert(piece@[0] == symbol_char(self.cell(v as int), was_swapped));
                assert(s@ =~= prev + piece@);
                assert forall|w: int|
                    0 <= w < v + 1 implies #[trigger] s@[w] == symbol_char(
                    self.cell(w),
                    was_swapped,
                ) by {
                    if w < v {
                        assert(s@[w] == prev[w]);
                    }
                }
            }
            v = v + 1;
        }
        proof {
            assert(s@ =~= self.spec_notation(was_swapped));
        }
        s
    }
}

/// The history fragments of a gamestring: a separator and the move's
/// notation for each played id, the swap token inserted after the first
/// move when the pie rule was invoked.
pub open spec fn spec_history_notation(
    pm: PieceMap,
    history: Seq<usize>,
    swapped: bool,
    n: int,
) -> Seq<char>
    decreases n,
{
    if n <= 0 {
        Seq::empty()
    } else {
        spec_history_notation(pm, history, swapped, n - 1) + seq![';', ' ']
            + pm.spec_move_notation(history[n - 1] as int) + if n == 1 && swapped {
            seq![';', ' ', 's', 'w', 'a', 'p']
        } else {
            Seq::<char>::empty()
        }
    }
}

impl<'a> Board<'a> {
    /// The full gamestring of the board: the symbol grid (negated when
    /// swapped), then each played move's notation, separated by `; `, with
    /// the swap token after the first move when the pie rule was invoked.
    pub open spec fn spec_gamestring(self) -> Seq<char> {
        self.cells.spec_notation(self.swapped) + spec_history_notation(
            *self.piecemap,
            self.history@,
            self.swapped,
            self.hlen(),
        )
    }

    /// Returns the full gamestring for this board. If a swap was played,
    /// the starting positional fragment is a negation of the current
    /// visible board.
    pub fn notate(&self) -> (r: String)
        requires
            self.wf(),
        ensures
            r@ =~= self.spec_gamestring(),
    {
        let mut s = self.cells.notate(self.swapped);
        let mut i: usize = 0;
        while i < self.history.len()
            invariant
                self.wf(),
                i <= self.hlen(),
                s@ =~= self.cells.spec_notation(self.swapped) + spec_history_notation(
                    *self.piecemap,
                    self.history@,
                    self.swapped,
                    i as int,
                ),
            decreases self.hlen() - i,
        {
            proof {
                reveal_strlit("; ");
                reveal_strlit("; swap");
            }
            let ghost prev = s@;
            s.append("; ");
            let mv = self.history[i];
            let frag = self.piecemap.notate(mv);
            s.append(frag.as_str());
            if i == 0 && self.swapped {
                s.append("; swap");
            }
            proof {
                assert(s@ =~= self.cells.spec_notation(self.swapped) + spec_history_notation(
                    *self.piecemap,
                    self.history@,
                    self.swapped,
                    i + 1,
                )) by {
                    assert(spec_history_notation(
                        *self.piecemap,
                        self.history@,
                        self.swapped,
                        i + 1,
                    ) == spec_history_notation(*self.piecemap, self.history@, self.swapped, i as int)
                        + seq![';', ' '] + self.piecemap.spec_move_notation(
                        self.history@[i as int] as int,
                    ) + if i == 0 && self.swapped {
                        seq![';', ' ', 's', 'w', 'a', 'p']
                    } else {
                        Seq::<char>::empty()
                    });
                }
            }
            i = i + 1;
        }
        s
    }
}

} // verus!
