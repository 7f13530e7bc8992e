pub mod bits;
pub mod board;
pub mod board_fs;
pub mod board_lemmas;
pub mod board_moves;
pub mod board_wf;
pub mod board_cell;
pub mod coordset;
pub mod foursquare;
pub mod game;
pub mod interaction;
pub mod laws;
pub mod piecemap;
pub mod piecemap_new;
pub mod moves;
pub mod moveset;
pub mod noise;
pub mod neighbours;
pub mod notation;
pub mod transform;
pub mod tetromino;
pub mod zobrist;
pub mod consts;
pub mod coords;
