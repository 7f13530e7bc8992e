use std::collections::BTreeSet;

use lib_blits::board::{Board, Grid};
use lib_blits::board_cell::BoardCell;
use lib_blits::consts::{LitsError, Player, Tile, NULL_MOVE, NUM_PIECES};
use lib_blits::coords::{Coord, OffsetCoord};
use lib_blits::game::LITSGame;
use lib_blits::moveset::MoveSet;
use lib_blits::piecemap::PieceMap;

fn oc(rows: isize, cols: isize) -> OffsetCoord {
    OffsetCoord { rows, cols }
}

#[test]
fn ensure_builds() {
    let piece_map = PieceMap::new().unwrap();
    assert_eq!(piece_map.reverse_len(), NUM_PIECES);
}

#[test]
fn iterate() {
    let elements = BTreeSet::from_iter([1, 4, 21, 144, 333, 1292].into_iter());

    let mut s = MoveSet::empty();
    for &i in elements.iter() {
        s.insert(i);
    }
    let recovered = s.to_vec().into_iter().collect::<BTreeSet<_>>();

    assert!(elements == recovered)
}

#[test]
fn fresh_board_and_first_moves() {
    let pm = PieceMap::new().unwrap();
    let mut board = Board::new(None, &pm);

    // a fresh board offers every placement and no swap
    let mut moves: Vec<usize> = Vec::new();
    board.valid_moves(&mut moves);
    assert_eq!(moves.len(), NUM_PIECES);
    assert_eq!(board.score(), 0);
    assert!(!board.is_terminal());
    assert!(!board.can_swap());

    // play the L tetromino covering 00, 10, 20, 21
    let coords = [oc(0, 0), oc(1, 0), oc(2, 0), oc(2, 1)];
    let id = pm.try_and_find(&coords).unwrap();
    assert!(board.play(id).is_ok());
    assert_eq!(board.piece_bag, [4, 5, 5, 5]);
    assert_eq!(board.cover.len(), 4);
    assert_eq!(board.player_to_move(), Player::O);
    assert!(board.can_swap());
    let vm = board.valid_moves_set();
    assert!(vm.contains(NULL_MOVE));

    // after the swap the turn goes back and the swap is gone
    let before = board.score();
    assert!(board.pass().is_ok());
    assert!(board.swapped);
    assert_eq!(board.player_to_move(), Player::X);
    assert_eq!(board.score(), -before);
    assert!(!board.can_swap());
    let vm2 = board.valid_moves_set();
    assert!(!vm2.contains(NULL_MOVE));

    // a second pass is refused
    assert_eq!(board.pass(), Err(LitsError::IllegalMove));
}

#[test]
fn same_kind_adjacent_is_illegal() {
    let pm = PieceMap::new().unwrap();
    let mut board = Board::new(None, &pm);
    let first = pm.try_and_find(&[oc(0, 0), oc(0, 1), oc(0, 2), oc(0, 3)]).unwrap();
    let second = pm.try_and_find(&[oc(1, 0), oc(1, 1), oc(1, 2), oc(1, 3)]).unwrap();
    assert!(board.play(first).is_ok());
    assert_eq!(board.play(second), Err(LitsError::IllegalMove));
}

#[test]
fn symbols_score_and_cover() {
    let pm = PieceMap::new().unwrap();
    let mut cells = [[BoardCell { symbol: None, tile: None }; 10]; 10];
    cells[0][0].symbol = Some(Player::X);
    cells[9][9].symbol = Some(Player::O);
    let mut board = Board::new(Some(Grid(cells)), &pm);
    assert_eq!(board.score(), 0);

    // covering the X at 00 drops the score by one
    let id = pm.try_and_find(&[oc(0, 0), oc(1, 0), oc(2, 0), oc(2, 1)]).unwrap();
    assert!(board.play(id).is_ok());
    assert_eq!(board.score(), -1);
}

#[test]
fn zobrist_depends_on_position_not_order() {
    let pm = PieceMap::new().unwrap();
    let a = pm.try_and_find(&[oc(0, 0), oc(1, 0), oc(2, 0), oc(2, 1)]).unwrap();
    let b = pm.try_and_find(&[oc(3, 0), oc(4, 0), oc(5, 0), oc(6, 0)]).unwrap();

    let mut b1 = Board::new(None, &pm);
    assert!(b1.play(a).is_ok());
    assert!(b1.play(b).is_ok());

    let mut b2 = Board::new(None, &pm);
    assert!(b2.play(b).is_ok());
    assert!(b2.play(a).is_ok());

    assert_eq!(b1.zobrist(), b2.zobrist());
    assert_ne!(b1.zobrist(), Board::new(None, &pm).zobrist());
}

#[test]
fn foursquare_rule_blocks_completion() {
    let pm = PieceMap::new().unwrap();
    let mut board = Board::new(None, &pm);
    // the L at 00,01,02,12 covers three cells of the 2x2 anchored at 01
    let l = pm.try_and_find(&[oc(0, 0), oc(0, 1), oc(0, 2), oc(1, 2)]).unwrap();
    assert!(board.play(l).is_ok());
    // a full 2x2 is no tetromino at all, so it has no id
    assert!(pm.try_and_find(&[oc(5, 5), oc(5, 6), oc(6, 5), oc(6, 6)]).is_err());
    // the T piece covering 11 would complete the 2x2 anchored at 01
    let t = pm.try_and_find(&[oc(1, 1), oc(2, 0), oc(2, 1), oc(2, 2)]).unwrap();
    assert_eq!(board.play(t), Err(LitsError::IllegalMove));
}

#[test]
fn checked_accessors_report_bounds() {
    let pm = PieceMap::new().unwrap();
    let mut board = Board::new(None, &pm);
    assert_eq!(board.cell(&Coord { row: 11, col: 0 }), Err(LitsError::OutOfBounds));
    assert!(board.cell(&Coord { row: 3, col: 3 }).is_ok());
    assert!(board.play(usize::MAX >> 1).is_err());
}

#[test]
fn adapter_reports_moves_and_winner() {
    let pm = PieceMap::new().unwrap();
    let board = Board::new(None, &pm);
    let mut moves: Vec<usize> = Vec::new();
    LITSGame::generate_moves(&board, &mut moves);
    assert_eq!(moves.len(), NUM_PIECES);
    assert_eq!(LITSGame::get_winner(&board), None);
    assert_eq!(LITSGame::null_move(&board), None);
    assert_eq!(LITSGame::max_table_index(), (NUM_PIECES - 1) as u16);
    assert_eq!(LITSGame::table_index(17), 17);
}

#[test]
fn tiles_and_kinds_round_trip() {
    assert_eq!(Tile::all().to_vec(), vec![Tile::L, Tile::I, Tile::T, Tile::S]);
    assert_eq!(Player::parse("x"), Ok(Some(Player::X)));
    assert_eq!(Player::parse("O"), Ok(Some(Player::O)));
    assert_eq!(Player::parse("."), Ok(None));
    assert_eq!(Player::parse("q"), Err(LitsError::Notation));
    assert_eq!(Player::X.neg(), Player::O);
    assert_eq!(Player::X.perspective(), 1);
    assert_eq!(Player::O.perspective(), -1);
}

#[test]
fn sampled_set_holds_multiples() {
    let s = MoveSet::sampled(100);
    let picked = s.to_vec();
    assert_eq!(picked, vec![0, 100, 200, 300, 400, 500, 600, 700, 800, 900, 1000, 1100, 1200]);
}

#[test]
fn notation_is_sorted_and_exact() {
    let pm = PieceMap::new().unwrap();
    // the identity L at anchor (1, 0) covers 00, 10, 20, 21
    let piece = lib_blits::tetromino::Tetromino::identity(Tile::L, &Coord { row: 1, col: 0 });
    assert_eq!(piece.notate(), "L[00,10,20,21]");
    let id = pm.try_and_find(&piece.real_coords()).unwrap();
    assert_eq!(pm.notate(id), "L[00,10,20,21]");
    assert_eq!(pm.notate(NULL_MOVE), "swap");
}

#[test]
fn gamestring_lists_setup_moves_and_swap() {
    let pm = PieceMap::new().unwrap();
    let mut board = Board::new(None, &pm);
    assert_eq!(board.notate(), ".".repeat(100));
    let id = pm.try_and_find(&[oc(0, 0), oc(1, 0), oc(2, 0), oc(2, 1)]).unwrap();
    assert!(board.play(id).is_ok());
    assert!(board.pass().is_ok());
    let expected = format!("{}; L[00,10,20,21]; swap", ".".repeat(100));
    assert_eq!(board.notate(), expected);
}

#[test]
fn reverse_lookup_round_trips_every_id() {
    let pm = PieceMap::new().unwrap();
    for id in 0..NUM_PIECES {
        let sorted = pm.get_piece(id).real_coords();
        assert_eq!(pm.try_and_find(&sorted), Ok(id));
    }
}

#[test]
fn lookup_of_unknown_cells_is_a_notation_error() {
    let pm = PieceMap::new().unwrap();
    // a full 2x2 is no tetromino at all
    assert_eq!(
        pm.try_and_find(&[oc(5, 5), oc(5, 6), oc(6, 5), oc(6, 6)]),
        Err(LitsError::Notation)
    );
}

#[test]
fn valid_moves_are_strictly_ascending() {
    let pm = PieceMap::new().unwrap();
    let mut board = Board::new(None, &pm);
    let id = pm.try_and_find(&[oc(0, 0), oc(1, 0), oc(2, 0), oc(2, 1)]).unwrap();
    assert!(board.play(id).is_ok());
    let mut moves: Vec<usize> = Vec::new();
    board.valid_moves(&mut moves);
    assert!(moves.windows(2).all(|w| w[0] < w[1]));
    assert_eq!(*moves.last().unwrap(), NULL_MOVE);
}

#[test]
fn noise_counts_coverage_and_protection() {
    let pm = PieceMap::new().unwrap();
    let l_cells = [oc(0, 0), oc(1, 0), oc(2, 0), oc(2, 1)];
    let id = pm.try_and_find(&l_cells).unwrap();

    // the swap is always noisy; an empty board has nothing to gain
    let plain = Board::new(None, &pm);
    assert_eq!(plain.noise(NULL_MOVE), 6);
    assert_eq!(plain.noise(id), 0);

    // covering an X scores for O, so for X to move it is a losing swing
    let mut covered = [[BoardCell { symbol: None, tile: None }; 10]; 10];
    covered[0][0].symbol = Some(Player::X);
    let b1 = Board::new(Some(Grid(covered)), &pm);
    assert_eq!(b1.noise(id), -1);

    // an uncovered X at 11 sits in the 2x2 at 10, which the piece fills to
    // three: the placement protects it
    let mut guarded = [[BoardCell { symbol: None, tile: None }; 10]; 10];
    guarded[1][1].symbol = Some(Player::X);
    let b2 = Board::new(Some(Grid(guarded)), &pm);
    assert_eq!(b2.noise(id), 1);
}

#[test]
fn noisy_moves_filter_quiet_placements() {
    let pm = PieceMap::new().unwrap();
    let mut board = Board::new(None, &pm);
    // a symbolless board has no noisy placement at all
    let mut moves: Vec<usize> = Vec::new();
    board.noisy_moves(&mut moves);
    assert!(moves.is_empty());
    // after the first move the sentinel is always offered
    let id = pm.try_and_find(&[oc(0, 0), oc(1, 0), oc(2, 0), oc(2, 1)]).unwrap();
    assert!(board.play(id).is_ok());
    let mut noisy: Vec<usize> = Vec::new();
    board.noisy_moves(&mut noisy);
    assert_eq!(noisy, vec![NULL_MOVE]);
}

#[test]
fn pinned_errors_on_checked_calls() {
    let pm = PieceMap::new().unwrap();
    let mut board = Board::new(None, &pm);
    assert_eq!(board.lits(&Coord { row: 0, col: 10 }), Err(LitsError::OutOfBounds));
    assert_eq!(board.get(&Coord { row: 10, col: 0 }).unwrap_err(), LitsError::OutOfBounds);
    assert_eq!(board.play(NULL_MOVE), Err(LitsError::IllegalMove));
    assert_eq!(board.pass(), Err(LitsError::IllegalMove));
    assert_eq!(pm.get_piece_checked(NULL_MOVE).unwrap_err(), LitsError::IllegalMove);
}
