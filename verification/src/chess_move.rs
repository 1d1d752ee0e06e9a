//! A data-only move representation: origin, destination, and a tag for the
//! special move kinds. Whether a move is legal against a position is out of
//! scope; this shape exists so a message layer has a move to serialize.
use crate::square::Square;
use vstd::prelude::*;

verus! {

/// The special-move tag of a move: an en passant capture or a promotion,
/// each carrying its target square.
#[derive(Debug, Clone, Copy, PartialEq, Eq, Structural)]
pub enum ChessMoveFlags {
    EnPassant(Square),
    Promotion(Square),
}

/// A move: where it starts, where it lands, and its special-move tag.
#[derive(Debug, Clone, Copy, PartialEq, Eq, Structural)]
pub struct ChessMove {
    pub flags: ChessMoveFlags,
    pub origin: Square,
    pub destination: Square,
}

} // verus!
