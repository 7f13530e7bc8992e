use vstd::prelude::*;
use vstd::string::StrSliceExecFns;

verus! {

/// Side length of the square board.
pub const BOARD_SIZE: usize = 10;

/// How many tiles of each kind a player side has available over the whole game.
pub const PIECES_PER_KIND: usize = 5;

/// The number of distinct legal tetromino placements on the board.
pub const NUM_PIECES: usize = 1292;

/// Sentinel move id meaning "invoke the swap".
pub const NULL_MOVE: usize = NUM_PIECES;

/// Errors visible at the public surface of the engine.
#[derive(Clone, Copy, Debug, PartialEq, Eq, Structural)]
pub enum LitsError {
    /// A coordinate outside the board was passed to a checked accessor.
    OutOfBounds,
    /// A move id that is not legal in the current position (including an invalid pass).
    IllegalMove,
    /// A gamestring fragment that does not follow the notation grammar.
    Notation,
}

/// A scoring symbol owner: the two players.
#[derive(Clone, Copy, Debug, PartialEq, Eq, Structural)]
pub enum Player {
    X,
    O,
}

impl Player {
    /// The signed scoring factor of the player: +1 for X, -1 for O.
    pub open spec fn spec_perspective(self) -> int {
        match self {
            Player::X => 1,
            Player::O => -1,
        }
    }

    /// The opposite player.
    pub open spec fn spec_neg(self) -> Player {
        match self {
            Player::X => Player::O,
            Player::O => Player::X,
        }
    }

    /// The canonical one-character notation of the player.
    pub open spec fn spec_notation(self) -> Seq<char> {
        match self {
            Player::X => seq!['X'],
            Player::O => seq!['O'],
        }
    }

    /// What a one-character symbol string denotes: a player, an empty
    /// cell, or nothing in the grammar.
    pub open spec fn spec_parse(s: Seq<char>) -> Option<Option<Player>> {
        if s == seq!['x'] || s == seq!['X'] {
            Some(Some(Player::X))
        } else if s == seq!['o'] || s == seq!['O'] {
            Some(Some(Player::O))
        } else if s == seq!['_'] || s == seq!['-'] || s == seq!['.'] {
            Some(None)
        } else {
            None
        }
    }

    /// Notates the player.
    pub fn notate(&self) -> (r: String)
        ensures
            r@ == self.spec_notation(),
    {
        proof {
            reveal_strlit("X");
            reveal_strlit("O");
        }
        let r = match self {
            Player::X => "X".to_owned(),
            Player::O => "O".to_owned(),
        };
        proof {
            assert(r@ =~= self.spec_notation());
        }
        r
    }

    /// The given player's scoring factor.
    /// Choosing 1 and -1 allows for branchless negamax.
    pub fn perspective(&self) -> (r: i32)
        ensures
            r as int == self.spec_perspective(),
    {
        match self {
            Player::X => 1,
            Player::O => -1,
        }
    }

    /// The opposite player.
    pub fn neg(&self) -> (r: Player)
        ensures
            r == self.spec_neg(),
    {
        match self {
            Player::X => Player::O,
            Player::O => Player::X,
        }
    }

    /// Parses a one-character symbol string into a player, `None` for an
    /// empty cell, or a notation error.
    pub fn parse(s: &str) -> (r: Result<Option<Player>, LitsError>)
        ensures
            match Player::spec_parse(s@) {
                Some(v) => r == Result::<Option<Player>, LitsError>::Ok(v),
                None => r == Result::<Option<Player>, LitsError>::Err(LitsError::Notation),
            },
    {
        proof {
            reveal_strlit("x");
            reveal_strlit("X");
            reveal_strlit("o");
            reveal_strlit("O");
            reveal_strlit("_");
            reveal_strlit("-");
            reveal_strlit(".");
        }
        if s.unicode_len() != 1 {
            proof {
                assert(Player::spec_parse(s@) is None);
            }
            return Err(LitsError::Notation);
        }
        let c = s.get_char(0);
        proof {
            assert(s@ =~= seq![s@[0]]);
        }
        match c {
            'x' | 'X' => Ok(Some(Player::X)),
            'o' | 'O' => Ok(Some(Player::O)),
            '_' | '-' | '.' => Ok(None),
            _ => {
                proof {
                    assert(Player::spec_parse(s@) is None);
                }
                Err(LitsError::Notation)
            },
        }
    }
}

/// The four tetromino kinds of the game.
#[derive(Clone, Copy, Debug, PartialEq, Eq, Structural)]
pub enum Tile {
    L,
    I,
    T,
    S,
}

impl Tile {
    /// The dense index of the kind, used for the piece bag.
    pub open spec fn spec_index(self) -> int {
        match self {
            Tile::L => 0,
            Tile::I => 1,
            Tile::T => 2,
            Tile::S => 3,
        }
    }

    /// The canonical one-character notation of the kind.
    pub open spec fn spec_notation(self) -> Seq<char> {
        match self {
            Tile::L => seq!['L'],
            Tile::I => seq!['I'],
            Tile::T => seq!['T'],
            Tile::S => seq!['S'],
        }
    }

    /// Gets the LITS tile types in order.
    pub fn all() -> (r: [Tile; 4])
        ensures
            r@ =~= seq![Tile::L, Tile::I, Tile::T, Tile::S],
    {
        [Tile::L, Tile::I, Tile::T, Tile::S]
    }

    /// The dense index of the kind.
    pub fn index(&self) -> (r: usize)
        ensures
            r as int == self.spec_index(),
    {
        match self {
            Tile::L => 0,
            Tile::I => 1,
            Tile::T => 2,
            Tile::S => 3,
        }
    }

    /// The kind with the given dense index.
    pub fn from_index(i: usize) -> (r: Tile)
        requires
            i < 4,
        ensures
            r.spec_index() == i as int,
    {
        match i {
            0 => Tile::L,
            1 => Tile::I,
            2 => Tile::T,
            _ => Tile::S,
        }
    }

    /// What a one-character kind string denotes, if anything.
    pub open spec fn spec_parse_char(c: char) -> Option<Tile> {
        if c == 'L' || c == 'l' {
            Some(Tile::L)
        } else if c == 'I' || c == 'i' {
            Some(Tile::I)
        } else if c == 'T' || c == 't' {
            Some(Tile::T)
        } else if c == 'S' || c == 's' {
            Some(Tile::S)
        } else {
            None
        }
    }

    /// Parses a kind character.
    pub fn parse_char(c: char) -> (r: Result<Tile, LitsError>)
        ensures
            match Tile::spec_parse_char(c) {
                Some(t) => r == Result::<Tile, LitsError>::Ok(t),
                None => r == Result::<Tile, LitsError>::Err(LitsError::Notation),
            },
    {
        match c {
            'L' | 'l' => Ok(Tile::L),
            'I' | 'i' => Ok(Tile::I),
            'T' | 't' => Ok(Tile::T),
            'S' | 's' => Ok(Tile::S),
            _ => Err(LitsError::Notation),
        }
    }

    /// Notates the kind.
    pub fn notate(&self) -> (r: String)
        ensures
            r@ == self.spec_notation(),
    {
        proof {
            reveal_strlit("L");
            reveal_strlit("I");
            reveal_strlit("T");
            reveal_strlit("S");
        }
        let r = match self {
            Tile::L => "L".to_owned(),
            Tile::I => "I".to_owned(),
            Tile::T => "T".to_owned(),
            Tile::S => "S".to_owned(),
        };
        proof {
            assert(r@ =~= self.spec_notation());
        }
        r
    }
}

} // verus!
