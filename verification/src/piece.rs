//! Piece kinds and their single-character FEN decoding.
use crate::DecodeError;
use vstd::prelude::*;

verus! {

/// A piece kind. `PRook` is a non-standard extra kind kept as an opaque
/// variant; its FEN letter is `f`/`F`.
#[derive(Debug, Clone, Copy, PartialEq, Eq, Structural)]
pub enum Piece {
    Pawn,
    Knight,
    Bishop,
    Rook,
    PRook,
    Queen,
    King,
}

/// The piece a placement character denotes, case-insensitively over the
/// alphabet {p, n, b, r, f, q, k}; `None` for every other character.
pub open spec fn spec_piece_of(c: char) -> Option<Piece> {
    if c == 'p' || c == 'P' {
        Some(Piece::Pawn)
    } else if c == 'n' || c == 'N' {
        Some(Piece::Knight)
    } else if c == 'b' || c == 'B' {
        Some(Piece::Bishop)
    } else if c == 'r' || c == 'R' {
        Some(Piece::Rook)
    } else if c == 'f' || c == 'F' {
        Some(Piece::PRook)
    } else if c == 'q' || c == 'Q' {
        Some(Piece::Queen)
    } else if c == 'k' || c == 'K' {
        Some(Piece::King)
    } else {
        None
    }
}

/// What decoding a placement character must yield: the piece it denotes,
/// or `InvalidPieceChar` citing the character.
pub open spec fn spec_piece_try_from(c: char) -> Result<Piece, DecodeError> {
    match spec_piece_of(c) {
        Some(p) => Ok(p),
        None => Err(DecodeError::InvalidPieceChar { ch: c }),
    }
}

impl vstd::std_specs::convert::TryFromSpecImpl<char> for Piece {
    open spec fn obeys_try_from_spec() -> bool {
        true
    }

    open spec fn try_from_spec(v: char) -> Result<Piece, DecodeError> {
        spec_piece_try_from(v)
    }
}

impl TryFrom<char> for Piece {
    type Error = DecodeError;

    /// Decode a placement character, accepting either letter case.
    fn try_from(value: char) -> (r: Result<Piece, DecodeError>) {
        if value == 'p' || value == 'P' {
            Ok(Piece::Pawn)
        } else if value == 'n' || value == 'N' {
            Ok(Piece::Knight)
        } else if value == 'b' || value == 'B' {
            Ok(Piece::Bishop)
        } else if value == 'r' || value == 'R' {
            Ok(Piece::Rook)
        } else if value == 'f' || value == 'F' {
            Ok(Piece::PRook)
        } else if value == 'q' || value == 'Q' {
            Ok(Piece::Queen)
        } else if value == 'k' || value == 'K' {
            Ok(Piece::King)
        } else {
            Err(DecodeError::InvalidPieceChar { ch: value })
        }
    }
}

} // verus!
