use vstd::prelude::*;
use crate::board::Board;
use crate::consts::{NULL_MOVE, NUM_PIECES};

verus! {

/// The outcome of a finished game, seen from the player to move.
#[derive(Clone, Copy, Debug, PartialEq, Eq, Structural)]
pub enum GameWinner {
    PlayerToMove,
    PlayerJustMoved,
    Draw,
}

/// The adapter seen by the search: the game rules as pure functions from
/// state and move to state, move list, and outcome.
pub struct LITSGame;

impl LITSGame {
    /// Applies a move to the state: the swap sentinel invokes the pie rule
    /// and every other id places its piece.
    pub fn apply(state: &mut Board, m: usize)
        requires
            old(state).wf(),
            old(state).legal_play(m as int),
        ensures
            final(state).wf(),
            final(state).piecemap == old(state).piecemap,
            m != NULL_MOVE ==> (final(state).history@ == old(state).history@.push(m)
                && final(state).swapped == old(state).swapped && forall|v: int|
                0 <= v < 100 ==> (#[trigger] final(state).cells.cell(v)).symbol == old(
                    state,
                ).cells.cell(v).symbol),
            m == NULL_MOVE ==> (final(state).history == old(state).history && final(state).swapped
                == !old(state).swapped && final(state).score as int == -old(state).score as int
                && final(state).player_to_move == old(state).player_to_move.spec_neg() && forall|
                v: int,
            |
                0 <= v < 100 ==> #[trigger] final(state).cells.cell(v) == old(state).cells.cell(
                    v,
                ).spec_negated()),
    {
        if m == 1292 {
            state.pass_unchecked_engine();
        } else {
            state.play_unchecked_engine(m);
        }
    }

    /// Appends the legal moves of the state.
    pub fn generate_moves(state: &Board, moves: &mut Vec<usize>)
        requires
            state.wf(),
        ensures
            final(moves)@.len() - old(moves)@.len() == state.valid_move_count(),
            forall|k: int|
                0 <= k < old(moves)@.len() ==> #[trigger] final(moves)@[k] == old(moves)@[k],
            forall|k: int|
                old(moves)@.len() <= k < final(moves)@.len() ==> state.legal_play(
                    #[trigger] final(moves)@[k] as int,
                ),
            forall|m: int|
                #![trigger state.legal_play(m)]
                state.legal_play(m) ==> exists|k: int|
                    old(moves)@.len() <= k < final(moves)@.len() && final(moves)@[k] == m,
            forall|k1: int, k2: int|
                old(moves)@.len() <= k1 < k2 < final(moves)@.len() ==> final(moves)@[k1]
                    < final(moves)@[k2],
    {
        state.compute_valid_moves(moves);
    }

    /// The winner of a terminal state, from the player to move: the sign of
    /// the score in that player's perspective decides.
    pub fn get_winner(state: &Board) -> (r: Option<GameWinner>)
        requires
            state.wf(),
        ensures
            r is Some <==> !exists|m: int| #[trigger] state.legal_play(m),
            r is Some ==> r->0 == (if state.cells.spec_score()
                * state.player_to_move.spec_perspective() > 0 {
                GameWinner::PlayerToMove
            } else if state.cells.spec_score() * state.player_to_move.spec_perspective() < 0 {
                GameWinner::PlayerJustMoved
            } else {
                GameWinner::Draw
            }),
    {
        if !state.is_terminal() {
            return None;
        }
        let s = state.effective_score();
        if s > 0 {
            Some(GameWinner::PlayerToMove)
        } else if s < 0 {
            Some(GameWinner::PlayerJustMoved)
        } else {
            Some(GameWinner::Draw)
        }
    }

    /// Suggests the pass to the search, exactly when the pie rule is open.
    pub fn null_move(state: &Board) -> (r: Option<usize>)
        ensures
            r == if !state.swapped && state.hlen() == 1 {
                Some(NULL_MOVE)
            } else {
                None::<usize>
            },
    {
        if state.can_swap() {
            Some(1292)
        } else {
            None
        }
    }

    /// The table slot of a move.
    pub fn table_index(m: usize) -> (r: u16)
        requires
            m < 1293,
        ensures
            r as int == m as int,
    {
        m as u16
    }

    /// The largest table slot a piece move can take.
    pub fn max_table_index() -> (r: u16)
        ensures
            r as int == NUM_PIECES - 1,
    {
        1291
    }

    /// The canonical hash of the state.
    pub fn zobrist_hash(state: &Board) -> (r: u64)
        ensures
            r == state.zobrist_hash,
    {
        state.zobrist()
    }
}

/// The evaluator for nonterminal states: material score from the
/// perspective of the player to move.
#[derive(Clone, Copy, Debug)]
pub struct Evaluator;

impl Evaluator {
    /// The heuristic value of a state for the player to move.
    pub fn evaluate(&self, state: &Board) -> (r: i16)
        requires
            state.wf(),
        ensures
            r as int == state.cells.spec_score() * state.player_to_move.spec_perspective(),
    {
        state.effective_score()
    }
}

/// Which search drives the engine.
#[derive(Clone, Copy, Debug, PartialEq, Eq, Structural)]
pub enum WhichStrategy {
    MCTS,
    Negamax,
}

/// The engine options a front end can set.
#[derive(Clone, Debug)]
pub struct LTPServerOptions {
    pub log_level: Option<u8>,
    pub num_threads: Option<usize>,
    pub mcts: bool,
    pub ponder: bool,
    pub quiescence: bool,
    pub table_mb: Option<usize>,
    pub verbose: bool,
    pub window: Option<usize>,
}

} // verus!
