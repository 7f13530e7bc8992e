use vstd::prelude::*;
use crate::board_cell::BoardCell;
use crate::consts::{Player, NUM_PIECES};

verus! {

/// A fixed-seed 64-bit finalizing mixer. Each distinct feature index gets a
/// well-scattered, deterministic 64-bit value; the position hash is the XOR
/// of the values of its features.
pub closed spec fn spec_mix64(x: u64) -> u64 {
    let z0 = vstd::wrapping::u64_specs::wrapping_add(x, 0x9E3779B97F4A7C15);
    let z1 = vstd::wrapping::u64_specs::wrapping_mul(z0 ^ (z0 >> 30u64), 0xBF58476D1CE4E5B9);
    let z2 = vstd::wrapping::u64_specs::wrapping_mul(z1 ^ (z1 >> 27u64), 0x94D049BB133111EB);
    z2 ^ (z2 >> 31u64)
}

/// Computes the mixer.
pub fn mix64(x: u64) -> (r: u64)
    ensures
        r == spec_mix64(x),
{
    let z0 = x.wrapping_add(0x9E3779B97F4A7C15);
    let z1 = (z0 ^ (z0 >> 30)).wrapping_mul(0xBF58476D1CE4E5B9);
    let z2 = (z1 ^ (z1 >> 27)).wrapping_mul(0x94D049BB133111EB);
    z2 ^ (z2 >> 31)
}

/// The dense index of a cell's symbol state: X, O, or empty.
pub open spec fn spec_cell_state(c: BoardCell) -> int {
    match c.symbol {
        Some(Player::X) => 0,
        Some(Player::O) => 1,
        None => 2,
    }
}

/// The hash of one cell's symbol state. Cell features are indexed after the
/// move features, so the two tables never collide.
pub open spec fn spec_cell_hash(i: int, j: int, c: BoardCell) -> u64 {
    spec_mix64((NUM_PIECES + spec_cell_state(c) * 100 + i * 10 + j) as u64)
}

/// The hash of a played move id.
pub open spec fn spec_move_hash(m: int) -> u64 {
    spec_mix64(m as u64)
}

/// Gets the hash for a cell's symbol state at a board position.
pub fn cell_hash(i: usize, j: usize, c: BoardCell) -> (r: u64)
    requires
        i < 10,
        j < 10,
    ensures
        r == spec_cell_hash(i as int, j as int, c),
{
    let state: usize = match c.symbol {
        Some(Player::X) => 0,
        Some(Player::O) => 1,
        None => 2,
    };
    mix64((1292 + state * 100 + i * 10 + j) as u64)
}

/// Gets the hash of a played move, which distinctly identifies the
/// placement it covers the board with.
pub fn move_hash(m: usize) -> (r: u64)
    requires
        m < NUM_PIECES,
    ensures
        r == spec_move_hash(m as int),
{
    mix64(m as u64)
}

} // verus!
