//! The 64 squares of the chess board, as a bijection between
//! (file, rank) coordinates and a linear board index.
use crate::DecodeError;
use vstd::prelude::*;

verus! {

/// A board square. The 64 variants are named in file-then-rank order, so
/// `A1` is index 0, `B1` index 1, ... and `H8` index 63.
#[derive(Debug, Clone, Copy, PartialEq, Eq, Structural)]
pub enum Square {
    A1, B1, C1, D1, E1, F1, G1, H1,
    A2, B2, C2, D2, E2, F2, G2, H2,
    A3, B3, C3, D3, E3, F3, G3, H3,
    A4, B4, C4, D4, E4, F4, G4, H4,
    A5, B5, C5, D5, E5, F5, G5, H5,
    A6, B6, C6, D6, E6, F6, G6, H6,
    A7, B7, C7, D7, E7, F7, G7, H7,
    A8, B8, C8, D8, E8, F8, G8, H8,
}

/// The linear index of a square: file + rank * 8.
pub open spec fn spec_square_index(s: Square) -> int {
    match s {
        Square::A1 => 0,
        Square::B1 => 1,
        Square::C1 => 2,
        Square::D1 => 3,
        Square::E1 => 4,
        Square::F1 => 5,
        Square::G1 => 6,
        Square::H1 => 7,
        Square::A2 => 8,
        Square::B2 => 9,
        Square::C2 => 10,
        Square::D2 => 11,
        Square::E2 => 12,
        Square::F2 => 13,
        Square::G2 => 14,
        Square::H2 => 15,
        Square::A3 => 16,
        Square::B3 => 17,
        Square::C3 => 18,
        Square::D3 => 19,
        Square::E3 => 20,
        Square::F3 => 21,
        Square::G3 => 22,
        Square::H3 => 23,
        Square::A4 => 24,
        Square::B4 => 25,
        Square::C4 => 26,
        Square::D4 => 27,
        Square::E4 => 28,
        Square::F4 => 29,
        Square::G4 => 30,
        Square::H4 => 31,
        Square::A5 => 32,
        Square::B5 => 33,
        Square::C5 => 34,
        Square::D5 => 35,
        Square::E5 => 36,
        Square::F5 => 37,
        Square::G5 => 38,
        Square::H5 => 39,
        Square::A6 => 40,
        Square::B6 => 41,
        Square::C6 => 42,
        Square::D6 => 43,
        Square::E6 => 44,
        Square::F6 => 45,
        Square::G6 => 46,
        Square::H6 => 47,
        Square::A7 => 48,
        Square::B7 => 49,
        Square::C7 => 50,
        Square::D7 => 51,
        Square::E7 => 52,
        Square::F7 => 53,
        Square::G7 => 54,
        Square::H7 => 55,
        Square::A8 => 56,
        Square::B8 => 57,
        Square::C8 => 58,
        Square::D8 => 59,
        Square::E8 => 60,
        Square::F8 => 61,
        Square::G8 => 62,
        Square::H8 => 63,
    }
}

/// The file (column) of a square, 0 through 7.
pub open spec fn spec_square_file(s: Square) -> int {
    spec_square_index(s) % 8
}

/// The rank (row) of a square, 0 through 7.
pub open spec fn spec_square_rank(s: Square) -> int {
    spec_square_index(s) / 8
}

/// The square at a linear index; indices outside 0..63 map to `A1` so the
/// function is total, but they never arise from a valid coordinate pair.
pub open spec fn spec_square_from_index(idx: int) -> Square {
    if idx == 0 {
        Square::A1
    } else if idx == 1 {
        Square::B1
    } else if idx == 2 {
        Square::C1
    } else if idx == 3 {
        Square::D1
    } else if idx == 4 {
        Square::E1
    } else if idx == 5 {
        Square::F1
    } else if idx == 6 {
        Square::G1
    } else if idx == 7 {
        Square::H1
    } else if idx == 8 {
        Square::A2
    } else if idx == 9 {
        Square::B2
    } else if idx == 10 {
        Square::C2
    } else if idx == 11 {
        Square::D2
    } else if idx == 12 {
        Square::E2
    } else if idx == 13 {
        Square::F2
    } else if idx == 14 {
        Square::G2
    } else if idx == 15 {
        Square::H2
    } else if idx == 16 {
        Square::A3
    } else if idx == 17 {
        Square::B3
    } else if idx == 18 {
        Square::C3
    } else if idx == 19 {
        Square::D3
    } else if idx == 20 {
        Square::E3
    } else if idx == 21 {
        Square::F3
    } else if idx == 22 {
        Square::G3
    } else if idx == 23 {
        Square::H3
    } else if idx == 24 {
        Square::A4
    } else if idx == 25 {
        Square::B4
    } else if idx == 26 {
        Square::C4
    } else if idx == 27 {
        Square::D4
    } else if idx == 28 {
        Square::E4
    } else if idx == 29 {
        Square::F4
    } else if idx == 30 {
        Square::G4
    } else if idx == 31 {
        Square::H4
    } else if idx == 32 {
        Square::A5
    } else if idx == 33 {
        Square::B5
    } else if idx == 34 {
        Square::C5
    } else if idx == 35 {
        Square::D5
    } else if idx == 36 {
        Square::E5
    } else if idx == 37 {
        Square::F5
    } else if idx == 38 {
        Square::G5
    } else if idx == 39 {
        Square::H5
    } else if idx == 40 {
        Square::A6
    } else if idx == 41 {
        Square::B6
    } else if idx == 42 {
        Square::C6
    } else if idx == 43 {
        Square::D6
    } else if idx == 44 {
        Square::E6
    } else if idx == 45 {
        Square::F6
    } else if idx == 46 {
        Square::G6
    } else if idx == 47 {
        Square::H6
    } else if idx == 48 {
        Square::A7
    } else if idx == 49 {
        Square::B7
    } else if idx == 50 {
        Square::C7
    } else if idx == 51 {
        Square::D7
    } else if idx == 52 {
        Square::E7
    } else if idx == 53 {
        Square::F7
    } else if idx == 54 {
        Square::G7
    } else if idx == 55 {
        Square::H7
    } else if idx == 56 {
        Square::A8
    } else if idx == 57 {
        Square::B8
    } else if idx == 58 {
        Square::C8
    } else if idx == 59 {
        Square::D8
    } else if idx == 60 {
        Square::E8
    } else if idx == 61 {
        Square::F8
    } else if idx == 62 {
        Square::G8
    } else if idx == 63 {
        Square::H8
    } else {
        Square::A1
    }
}

/// The square at in-range coordinates (file, rank).
pub open spec fn spec_square_at(file: int, rank: int) -> Square {
    spec_square_from_index(file + rank * 8)
}

/// What decoding a coordinate pair must yield: the square at (file, rank)
/// when both are in 0..=7, and `OutOfRange` otherwise.
pub open spec fn spec_square_try_from(v: (u8, u8)) -> Result<Square, DecodeError> {
    if v.0 <= 7 && v.1 <= 7 {
        Ok(spec_square_at(v.0 as int, v.1 as int))
    } else {
        Err(DecodeError::OutOfRange)
    }
}

impl vstd::std_specs::convert::TryFromSpecImpl<(u8, u8)> for Square {
    open spec fn obeys_try_from_spec() -> bool {
        true
    }

    open spec fn try_from_spec(v: (u8, u8)) -> Result<Square, DecodeError> {
        spec_square_try_from(v)
    }
}

impl TryFrom<(u8, u8)> for Square {
    type Error = DecodeError;

    /// Build a square from (file, rank); both coordinates must be in 0..=7.
    fn try_from(value: (u8, u8)) -> (r: Result<Square, DecodeError>) {
        let (file, rank) = value;
        if file <= 7 && rank <= 7 {
            Ok(Square::from_index(file + rank * 8))
        } else {
            Err(DecodeError::OutOfRange)
        }
    }
}

impl Square {
    /// The square at a linear index below 64.
    pub fn from_index(idx: u8) -> (s: Square)
        requires
            idx < 64,
        ensures
            s == spec_square_from_index(idx as int),
    {
        match idx {
            0 => Square::A1,
            1 => Square::B1,
            2 => Square::C1,
            3 => Square::D1,
            4 => Square::E1,
            5 => Square::F1,
            6 => Square::G1,
            7 => Square::H1,
            8 => Square::A2,
            9 => Square::B2,
            10 => Square::C2,
            11 => Square::D2,
            12 => Square::E2,
            13 => Square::F2,
            14 => Square::G2,
            15 => Square::H2,
            16 => Square::A3,
            17 => Square::B3,
            18 => Square::C3,
            19 => Square::D3,
            20 => Square::E3,
            21 => Square::F3,
            22 => Square::G3,
            23 => Square::H3,
            24 => Square::A4,
            25 => Square::B4,
            26 => Square::C4,
            27 => Square::D4,
            28 => Square::E4,
            29 => Square::F4,
            30 => Square::G4,
            31 => Square::H4,
            32 => Square::A5,
            33 => Square::B5,
            34 => Square::C5,
            35 => Square::D5,
            36 => Square::E5,
            37 => Square::F5,
            38 => Square::G5,
            39 => Square::H5,
            40 => Square::A6,
            41 => Square::B6,
            42 => Square::C6,
            43 => Square::D6,
            44 => Square::E6,
            45 => Square::F6,
            46 => Square::G6,
            47 => Square::H6,
            48 => Square::A7,
            49 => Square::B7,
            50 => Square::C7,
            51 => Square::D7,
            52 => Square::E7,
            53 => Square::F7,
            54 => Square::G7,
            55 => Square::H7,
            56 => Square::A8,
            57 => Square::B8,
            58 => Square::C8,
            59 => Square::D8,
            60 => Square::E8,
            61 => Square::F8,
            62 => Square::G8,
            _ => Square::H8,
        }
    }

    /// The linear index of this square: file + rank * 8.
    pub fn to_index(&self) -> (idx: u8)
        ensures
            idx as int == spec_square_index(*self),
            idx < 64,
    {
        match *self {
            Square::A1 => 0,
            Square::B1 => 1,
            Square::C1 => 2,
            Square::D1 => 3,
            Square::E1 => 4,
            Square::F1 => 5,
            Square::G1 => 6,
            Square::H1 => 7,
            Square::A2 => 8,
            Square::B2 => 9,
            Square::C2 => 10,
            Square::D2 => 11,
            Square::E2 => 12,
            Square::F2 => 13,
            Square::G2 => 14,
            Square::H2 => 15,
            Square::A3 => 16,
            Square::B3 => 17,
            Square::C3 => 18,
            Square::D3 => 19,
            Square::E3 => 20,
            Square::F3 => 21,
            Square::G3 => 22,
            Square::H3 => 23,
            Square::A4 => 24,
            Square::B4 => 25,
            Square::C4 => 26,
            Square::D4 => 27,
            Square::E4 => 28,
            Square::F4 => 29,
            Square::G4 => 30,
            Square::H4 => 31,
            Square::A5 => 32,
            Square::B5 => 33,
            Square::C5 => 34,
            Square::D5 => 35,
            Square::E5 => 36,
            Square::F5 => 37,
            Square::G5 => 38,
            Square::H5 => 39,
            Square::A6 => 40,
            Square::B6 => 41,
            Square::C6 => 42,
            Square::D6 => 43,
            Square::E6 => 44,
            Square::F6 => 45,
            Square::G6 => 46,
            Square::H6 => 47,
            Square::A7 => 48,
            Square::B7 => 49,
            Square::C7 => 50,
            Square::D7 => 51,
            Square::E7 => 52,
            Square::F7 => 53,
            Square::G7 => 54,
            Square::H7 => 55,
            Square::A8 => 56,
            Square::B8 => 57,
            Square::C8 => 58,
            Square::D8 => 59,
            Square::E8 => 60,
            Square::F8 => 61,
            Square::G8 => 62,
            Square::H8 => 63,
        }
    }
}

/// The coordinate-to-square mapping is a bijection: a square's index leads
/// back to the square, an in-range index round-trips through it, and the
/// square at in-range coordinates has exactly those coordinates.
pub proof fn lemma_square_index_bijective()
    ensures
        forall|s: Square| spec_square_from_index(#[trigger] spec_square_index(s)) == s,
        forall|i: int|
            0 <= i < 64 ==> spec_square_index(#[trigger] spec_square_from_index(i)) == i,
        forall|file: int, rank: int|
            0 <= file < 8 && 0 <= rank < 8 ==> {
                &&& spec_square_file(#[trigger] spec_square_at(file, rank)) == file
                &&& spec_square_rank(spec_square_at(file, rank)) == rank
            },
{
    assert forall|file: int, rank: int| 0 <= file < 8 && 0 <= rank < 8 implies {
        &&& spec_square_file(#[trigger] spec_square_at(file, rank)) == file
        &&& spec_square_rank(spec_square_at(file, rank)) == rank
    } by {
        let i = file + rank * 8;
        assert(spec_square_index(spec_square_from_index(i)) == i);
        assert((file + rank * 8) % 8 == file) by (nonlinear_arith)
            requires
                0 <= file < 8 && 0 <= rank < 8,
        ;
        assert((file + rank * 8) / 8 == rank) by (nonlinear_arith)
            requires
                0 <= file < 8 && 0 <= rank < 8,
        ;
    }
}

} // verus!
