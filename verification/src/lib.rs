//! Core of an online chess lobby: a FEN position decoder with a board and
//! move data model, a join-code game registry, and the per-connection
//! session step logic that drives a message loop.
pub mod board;
pub mod chess_game;
pub mod chess_move;
pub mod fen;
pub mod game;
pub mod piece;
pub mod session;
pub mod square;

use vstd::prelude::*;

verus! {

/// The two sides of a chess game.
#[derive(Debug, Clone, Copy, PartialEq, Eq, Structural)]
pub enum Color {
    White,
    Black,
}

/// A structured decoding failure. Decoding is whole-or-nothing: the first
/// violated rule is reported and no partial board is produced.
#[derive(Debug, Clone, Copy, PartialEq, Eq, Structural)]
pub enum DecodeError {
    /// The input did not have exactly 6 whitespace-separated fields.
    FieldCountMismatch { got: usize },
    /// The placement field did not have exactly 8 `/`-separated ranks.
    RankCountMismatch { got: usize },
    /// A rank's file count did not sum to exactly 8; `rank` is 1-based.
    RankSquareCountMismatch { rank: u8, got: u128 },
    /// A placement character that is neither a piece letter nor a digit 1-8.
    InvalidPieceChar { ch: char },
    /// The side-to-move field was not exactly `w` or `b`.
    InvalidSideChar { ch: char },
    /// A castling-rights character outside `K`, `Q`, `k`, `q`.
    InvalidCastlingChar { ch: char },
    /// Square coordinates outside the 8x8 board.
    OutOfRange,
}

/// Whether a character is an uppercase letter, by the Unicode case table
/// that `char::is_uppercase` implements: a function of the character
/// alone, named rather than restated.
pub uninterp spec fn uppercase_of(c: char) -> bool;

/// Relies on `char::is_uppercase`: whether the character has the Unicode
/// uppercase property; the result depends on the character alone.
#[verifier::external_body]
fn char_is_uppercase(c: char) -> (b: bool)
    ensures
        b == uppercase_of(c),
{
    c.is_uppercase()
}

/// The color a placement-field character denotes: white iff uppercase.
pub open spec fn spec_placement_color(c: char) -> Color {
    if uppercase_of(c) {
        Color::White
    } else {
        Color::Black
    }
}

/// The color a side-to-move character denotes, over the alphabet `w`/`b`.
/// This is a different decoder from the placement-character one and the
/// two alphabets must not be conflated.
pub open spec fn spec_side_color(c: char) -> Result<Color, DecodeError> {
    if c == 'w' {
        Ok(Color::White)
    } else if c == 'b' {
        Ok(Color::Black)
    } else {
        Err(DecodeError::InvalidSideChar { ch: c })
    }
}

impl vstd::std_specs::convert::FromSpecImpl<char> for Color {
    open spec fn obeys_from_spec() -> bool {
        true
    }

    open spec fn from_spec(v: char) -> Color {
        spec_placement_color(v)
    }
}

impl From<char> for Color {
    /// Decode a placement-field character: white iff uppercase.
    fn from(value: char) -> (c: Color) {
        if char_is_uppercase(value) {
            Color::White
        } else {
            Color::Black
        }
    }
}

impl Color {
    /// Decode a side-to-move character: `w` is white, `b` is black, and
    /// any other character is rejected.
    pub fn try_from_fen(value: char) -> (r: Result<Color, DecodeError>)
        ensures
            r == spec_side_color(value),
    {
        if value == 'w' {
            Ok(Color::White)
        } else if value == 'b' {
            Ok(Color::Black)
        } else {
            Err(DecodeError::InvalidSideChar { ch: value })
        }
    }
}

} // verus!
