//! A rules engine for a generalized chess variant: rectangular boards of any
//! size with holes, per-side promotion zones, and the standard special moves
//! (castling, en passant, pawn double-step, promotion).
//!
//! The engine answers two questions: which moves are available to the side to
//! move (`compute_possible_moves`), and what board results from applying a
//! chosen move (`get_next_board`).

pub mod board;
pub mod defaults;
pub mod grid;
pub mod laws;
pub mod layout;
pub mod logic;
pub mod movegen;

pub use board::Board;
pub use board::Coords;
pub use board::Piece;
pub use board::PieceModel;
pub use board::Side;
pub use board::Space;
pub use logic::IllegalTransition;
pub use logic::Move;
pub use logic::MoveKind;
pub use movegen::compute_possible_moves;
pub use movegen::PossibleMoves;
