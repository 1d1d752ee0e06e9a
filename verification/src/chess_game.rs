//! The game aggregate: a board plus the list of moves played so far, with
//! a default of the standard starting position.
use crate::board::{board_matches, spec_start_model, Board};
use crate::chess_move::ChessMove;
use vstd::prelude::*;

verus! {

/// A game in progress: the current position and the moves played.
pub struct ChessGame {
    pub board: Board,
    pub chess_moves: Vec<ChessMove>,
}

impl Default for ChessGame {
    /// A fresh game: the standard starting position and no moves played.
    fn default() -> (g: ChessGame)
        ensures
            board_matches(g.board, spec_start_model()),
            g.chess_moves@ == Seq::<ChessMove>::empty(),
    {
        ChessGame { board: Board::default(), chess_moves: Vec::new() }
    }
}

} // verus!
