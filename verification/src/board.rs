//! The position decoder: a 6-field FEN string becomes a validated board,
//! or a structured error. Decoding is whole-or-nothing and first-violation
//! wins, in the field order of the input.
use crate::fen::{chars_of, slash_split, spec_slash_split, spec_ws_split, tokens_match, ws_split};
use crate::piece::{spec_piece_of, Piece};
use crate::square::{spec_square_at, spec_square_file, spec_square_rank, Square};
use crate::{spec_placement_color, spec_side_color, Color, DecodeError};
use vstd::prelude::*;

verus! {

/// One side of castling: the kingside (`K`/`k`) or queenside (`Q`/`q`) right.
#[derive(Debug, Clone, Copy, PartialEq, Eq, Structural)]
pub enum CastlingRight {
    King,
    Queen,
}

/// The castling table, indexed color-then-slot: row 0 is white, row 1 is
/// black; slot 0 holds a kingside right, slot 1 a queenside right.
pub type CastlingRights = [[Option<CastlingRight>; 2]; 2];

/// The four castling slots as one value: white kingside, white queenside,
/// black kingside, black queenside.
pub type CastlingSlots = (
    Option<CastlingRight>,
    Option<CastlingRight>,
    Option<CastlingRight>,
    Option<CastlingRight>,
);

/// One decoded placement: a piece of a color standing on a square.
pub type Placement = (Piece, Color, Square);

/// A decoded position: a sparse list of placements, the side to move, and
/// the castling table.
pub struct Board {
    pub pieces: Vec<Placement>,
    pub side_to_move: Color,
    pub castling_rights: CastlingRights,
}

/// True for the digits 1 through 8, which stand for a run of that many
/// empty squares in a placement rank.
pub open spec fn spec_is_count_digit(c: char) -> bool {
    49 <= c as u32 && c as u32 <= 56
}

/// The numeric value of an empty-square count digit.
pub open spec fn spec_digit_val(c: char) -> nat {
    (c as u32 - 48) as nat
}

/// Scanning one placement rank left to right with a file counter: a count
/// digit advances the counter, a piece letter emits a placement on the
/// square at (counter, 8 - rank_no) and advances by one, and after the
/// rank the counter must be exactly 8. `rank_no` is the 1-based FEN rank
/// number, so rank 1 is the top row (board rank 7) of the diagram.
pub open spec fn spec_scan_rank(
    cs: Seq<char>,
    rank_no: int,
    file: nat,
    acc: Seq<Placement>,
) -> Result<Seq<Placement>, DecodeError>
    decreases cs.len(),
{
    if cs.len() == 0 {
        if file == 8 {
            Ok(acc)
        } else {
            Err(DecodeError::RankSquareCountMismatch { rank: rank_no as u8, got: file as u128 })
        }
    } else {
        let c = cs[0];
        if spec_is_count_digit(c) {
            spec_scan_rank(cs.skip(1), rank_no, file + spec_digit_val(c), acc)
        } else {
            match spec_piece_of(c) {
                Some(p) => if file <= 7 {
                    spec_scan_rank(
                        cs.skip(1),
                        rank_no,
                        file + 1,
                        acc.push((p, spec_placement_color(c), spec_square_at(file as int, 8 - rank_no))),
                    )
                } else {
                    Err(DecodeError::OutOfRange)
                },
                None => Err(DecodeError::InvalidPieceChar { ch: c }),
            }
        }
    }
}

/// Scanning the 8 ranks in order, accumulating placements; the first
/// failing rank aborts the scan.
pub open spec fn spec_scan_ranks(
    ranks: Seq<Seq<char>>,
    rank_no: int,
    acc: Seq<Placement>,
) -> Result<Seq<Placement>, DecodeError>
    decreases ranks.len(),
{
    if ranks.len() == 0 {
        Ok(acc)
    } else {
        match spec_scan_rank(ranks[0], rank_no, 0, acc) {
            Ok(acc2) => spec_scan_ranks(ranks.skip(1), rank_no + 1, acc2),
            Err(e) => Err(e),
        }
    }
}

/// The side-to-move field: exactly one character, `w` or `b`.
pub open spec fn spec_side_field(cs: Seq<char>) -> Result<Color, DecodeError> {
    if cs.len() == 1 {
        spec_side_color(cs[0])
    } else if cs.len() == 0 {
        Err(DecodeError::InvalidSideChar { ch: ' ' })
    } else {
        Err(DecodeError::InvalidSideChar { ch: cs[0] })
    }
}

/// Scanning castling characters left to right: each of `K`, `Q`, `k`, `q`
/// sets its slot, and any other character is rejected.
pub open spec fn spec_scan_castling(cs: Seq<char>, acc: CastlingSlots) -> Result<
    CastlingSlots,
    DecodeError,
>
    decreases cs.len(),
{
    if cs.len() == 0 {
        Ok(acc)
    } else if cs[0] == 'K' {
        spec_scan_castling(cs.skip(1), (Some(CastlingRight::King), acc.1, acc.2, acc.3))
    } else if cs[0] == 'Q' {
        spec_scan_castling(cs.skip(1), (acc.0, Some(CastlingRight::Queen), acc.2, acc.3))
    } else if cs[0] == 'k' {
        spec_scan_castling(cs.skip(1), (acc.0, acc.1, Some(CastlingRight::King), acc.3))
    } else if cs[0] == 'q' {
        spec_scan_castling(cs.skip(1), (acc.0, acc.1, acc.2, Some(CastlingRight::Queen)))
    } else {
        Err(DecodeError::InvalidCastlingChar { ch: cs[0] })
    }
}

/// The castling field: a lone `-` grants nothing, anything else is scanned
/// character by character.
pub open spec fn spec_castling_field(cs: Seq<char>) -> Result<CastlingSlots, DecodeError> {
    if cs.len() == 1 && cs[0] == '-' {
        Ok((None, None, None, None))
    } else {
        spec_scan_castling(cs, (None, None, None, None))
    }
}

/// What decoding a FEN string must yield: placements, side to move and
/// castling slots, or the first violated rule. The input is split on
/// whitespace into exactly 6 fields; field 0 is split on `/` into exactly
/// 8 ranks; fields 3 through 5 are accepted but not retained.
pub open spec fn spec_decode(s: Seq<char>) -> Result<
    (Seq<Placement>, Color, CastlingSlots),
    DecodeError,
> {
    let fields = spec_ws_split(s);
    if fields.len() != 6 {
        Err(DecodeError::FieldCountMismatch { got: fields.len() as usize })
    } else {
        let ranks = spec_slash_split(fields[0]);
        if ranks.len() != 8 {
            Err(DecodeError::RankCountMismatch { got: ranks.len() as usize })
        } else {
            match spec_scan_ranks(ranks, 1, Seq::empty()) {
                Err(e) => Err(e),
                Ok(pls) => match spec_side_field(fields[1]) {
                    Err(e) => Err(e),
                    Ok(side) => match spec_castling_field(fields[2]) {
                        Err(e) => Err(e),
                        Ok(cr) => Ok((pls, side, cr)),
                    },
                },
            }
        }
    }
}

/// A board carries exactly the decoded model: the same placements in the
/// same order, the decoded side to move, and the four castling slots laid
/// out color-then-slot.
pub open spec fn board_matches(b: Board, m: (Seq<Placement>, Color, CastlingSlots)) -> bool {
    &&& b.pieces@ == m.0
    &&& b.side_to_move == m.1
    &&& b.castling_rights@[0]@[0] == m.2.0
    &&& b.castling_rights@[0]@[1] == m.2.1
    &&& b.castling_rights@[1]@[0] == m.2.2
    &&& b.castling_rights@[1]@[1] == m.2.3
}

/// An input with other than 6 whitespace-separated fields is rejected
/// with the observed field count, whatever the fields hold.
pub proof fn lemma_field_count_mismatch(s: Seq<char>)
    requires
        spec_ws_split(s).len() != 6,
    ensures
        spec_decode(s) == Err::<(Seq<Placement>, Color, CastlingSlots), DecodeError>(
            DecodeError::FieldCountMismatch { got: spec_ws_split(s).len() as usize },
        ),
{
}

/// A 6-field input whose placement field does not split into exactly 8
/// ranks is rejected with the observed rank count, whatever the ranks hold.
pub proof fn lemma_rank_count_mismatch(s: Seq<char>)
    requires
        spec_ws_split(s).len() == 6,
        spec_slash_split(spec_ws_split(s)[0]).len() != 8,
    ensures
        spec_decode(s) == Err::<(Seq<Placement>, Color, CastlingSlots), DecodeError>(
            (DecodeError::RankCountMismatch {
                got: spec_slash_split(spec_ws_split(s)[0]).len() as usize,
            }),
        ),
{
}

/// A rank scan that reaches a character which is neither a count digit
/// nor a piece letter fails citing that character, whatever came before.
pub proof fn lemma_invalid_piece_char(
    cs: Seq<char>,
    rank_no: int,
    file: nat,
    acc: Seq<Placement>,
)
    requires
        cs.len() > 0,
        !spec_is_count_digit(cs[0]),
        spec_piece_of(cs[0]) is None,
    ensures
        spec_scan_rank(cs, rank_no, file, acc) == Err::<Seq<Placement>, DecodeError>(
            (DecodeError::InvalidPieceChar { ch: cs[0] }),
        ),
{
}

/// A failed file-sum check cites the rank number the scan was given.
pub proof fn lemma_rank_mismatch_cites_rank(
    cs: Seq<char>,
    rank_no: int,
    file: nat,
    acc: Seq<Placement>,
)
    ensures
        (match spec_scan_rank(cs, rank_no, file, acc) {
            Err(DecodeError::RankSquareCountMismatch { rank, got: _ }) => rank == rank_no as u8,
            _ => true,
        }),
    decreases cs.len(),
{
    if cs.len() > 0 {
        let c = cs[0];
        if spec_is_count_digit(c) {
            lemma_rank_mismatch_cites_rank(cs.skip(1), rank_no, file + spec_digit_val(c), acc);
        } else {
            match spec_piece_of(c) {
                Some(p) => {
                    if file <= 7 {
                        lemma_rank_mismatch_cites_rank(
                            cs.skip(1),
                            rank_no,
                            file + 1,
                            acc.push(
                                (
                                    p,
                                    spec_placement_color(c),
                                    spec_square_at(file as int, 8 - rank_no),
                                ),
                            ),
                        );
                    }
                },
                None => {},
            }
        }
    }
}

/// A failed file-sum check inside a run of ranks cites a rank number in
/// the range the run covers.
pub proof fn lemma_ranks_mismatch_cites_rank(
    ranks: Seq<Seq<char>>,
    rank_no: int,
    acc: Seq<Placement>,
)
    requires
        1 <= rank_no,
        rank_no + ranks.len() <= 256,
    ensures
        (match spec_scan_ranks(ranks, rank_no, acc) {
            Err(DecodeError::RankSquareCountMismatch { rank, got: _ }) => rank_no <= rank as int
                <= rank_no + ranks.len() - 1,
            _ => true,
        }),
    decreases ranks.len(),
{
    if ranks.len() > 0 {
        lemma_rank_mismatch_cites_rank(ranks[0], rank_no, 0, acc);
        match spec_scan_rank(ranks[0], rank_no, 0, acc) {
            Ok(acc2) => {
                lemma_ranks_mismatch_cites_rank(ranks.skip(1), rank_no + 1, acc2);
            },
            Err(_) => {},
        }
    }
}

/// When decoding fails for a wrong file sum, the cited rank number is
/// 1-based: it lies between 1 and 8.
pub proof fn lemma_mismatch_rank_is_one_based(s: Seq<char>)
    ensures
        (match spec_decode(s) {
            Err(DecodeError::RankSquareCountMismatch { rank, got: _ }) => 1 <= rank <= 8,
            _ => true,
        }),
{
    let fields = spec_ws_split(s);
    if fields.len() == 6 {
        let ranks = spec_slash_split(fields[0]);
        if ranks.len() == 8 {
            lemma_ranks_mismatch_cites_rank(ranks, 1, Seq::empty());
            match spec_scan_ranks(ranks, 1, Seq::empty()) {
                Err(e) => {
                    assert(spec_decode(s) == Err::<
                        (Seq<Placement>, Color, CastlingSlots),
                        DecodeError,
                    >(e));
                },
                Ok(_) => {
                    match spec_side_field(fields[1]) {
                        Err(e) => {
                            assert(e matches DecodeError::InvalidSideChar { ch: _ });
                        },
                        Ok(_) => {
                            lemma_castling_error_shape(fields[2], (None, None, None, None));
                        },
                    }
                },
            }
        }
    }
}

/// A failed castling scan always cites a castling character: no other
/// error kind arises from it.
pub proof fn lemma_castling_error_shape(cs: Seq<char>, acc: CastlingSlots)
    ensures
        (match spec_scan_castling(cs, acc) {
            Err(e) => e matches DecodeError::InvalidCastlingChar { ch: _ },
            Ok(_) => true,
        }),
    decreases cs.len(),
{
    if cs.len() > 0 {
        if cs[0] == 'K' {
            lemma_castling_error_shape(cs.skip(1), (Some(CastlingRight::King), acc.1, acc.2, acc.3));
        } else if cs[0] == 'Q' {
            lemma_castling_error_shape(
                cs.skip(1),
                (acc.0, Some(CastlingRight::Queen), acc.2, acc.3),
            );
        } else if cs[0] == 'k' {
            lemma_castling_error_shape(cs.skip(1), (acc.0, acc.1, Some(CastlingRight::King), acc.3));
        } else if cs[0] == 'q' {
            lemma_castling_error_shape(
                cs.skip(1),
                (acc.0, acc.1, acc.2, Some(CastlingRight::Queen)),
            );
        }
    }
}

/// A successful rank scan extends the accumulator in place: what was
/// there stays, and each new placement stands on the scan's own row, at a
/// file no earlier than the counter, with files strictly increasing.
pub proof fn lemma_scan_rank_squares(cs: Seq<char>, rank_no: int, file: nat, acc: Seq<Placement>)
    requires
        1 <= rank_no <= 8,
    ensures
        (match spec_scan_rank(cs, rank_no, file, acc) {
            Ok(res) => {
                &&& res.len() >= acc.len()
                &&& forall|i: int| #![trigger res[i]] 0 <= i < acc.len() ==> res[i] == acc[i]
                &&& forall|i: int| #![trigger res[i]]
                    acc.len() <= i < res.len() ==> spec_square_rank(res[i].2) == 8 - rank_no
                        && file <= spec_square_file(res[i].2) <= 7
                &&& forall|i: int, j: int| #![trigger res[i], res[j]]
                    acc.len() <= i < j < res.len() ==> spec_square_file(res[i].2)
                        < spec_square_file(res[j].2)
            },
            Err(_) => true,
        }),
    decreases cs.len(),
{
    if cs.len() > 0 {
        let c = cs[0];
        if spec_is_count_digit(c) {
            lemma_scan_rank_squares(cs.skip(1), rank_no, file + spec_digit_val(c), acc);
        } else {
            match spec_piece_of(c) {
                Some(p) => {
                    if file <= 7 {
                        let sq = spec_square_at(file as int, 8 - rank_no);
                        crate::square::lemma_square_index_bijective();
                        assert(spec_square_file(sq) == file as int);
                        assert(spec_square_rank(sq) == 8 - rank_no);
                        let acc2 = acc.push((p, spec_placement_color(c), sq));
                        lemma_scan_rank_squares(cs.skip(1), rank_no, file + 1, acc2);
                    }
                },
                None => {},
            }
        }
    }
}

/// A successful scan of a run of ranks keeps the accumulator, places the
/// new placements on the rows the run covers, and gives no two of them
/// the same square.
pub proof fn lemma_scan_ranks_squares(ranks: Seq<Seq<char>>, rank_no: int, acc: Seq<Placement>)
    requires
        1 <= rank_no,
        rank_no + ranks.len() <= 9,
    ensures
        (match spec_scan_ranks(ranks, rank_no, acc) {
            Ok(res) => {
                &&& res.len() >= acc.len()
                &&& forall|i: int| #![trigger res[i]] 0 <= i < acc.len() ==> res[i] == acc[i]
                &&& forall|i: int| #![trigger res[i]]
                    acc.len() <= i < res.len() ==> 8 - rank_no - ranks.len()
                        < spec_square_rank(res[i].2) <= 8 - rank_no
                &&& forall|i: int, j: int| #![trigger res[i], res[j]]
                    acc.len() <= i < j < res.len() ==> res[i].2 != res[j].2
            },
            Err(_) => true,
        }),
    decreases ranks.len(),
{
    if ranks.len() > 0 {
        lemma_scan_rank_squares(ranks[0], rank_no, 0, acc);
        match spec_scan_rank(ranks[0], rank_no, 0, acc) {
            Ok(acc2) => {
                lemma_scan_ranks_squares(ranks.skip(1), rank_no + 1, acc2);
                match spec_scan_ranks(ranks.skip(1), rank_no + 1, acc2) {
                    Ok(res) => {
                        assert forall|i: int, j: int| #![trigger res[i], res[j]]
                            acc.len() <= i < j < res.len() implies res[i].2 != res[j].2 by {
                            if j < acc2.len() {
                                assert(spec_square_file(res[i].2) < spec_square_file(res[j].2));
                            } else if i < acc2.len() {
                                assert(spec_square_rank(res[i].2) == 8 - rank_no);
                                assert(spec_square_rank(res[j].2) <= 8 - rank_no - 1);
                            }
                        }
                    },
                    Err(_) => {},
                }
            },
            Err(_) => {},
        }
    }
}

/// In a successfully decoded position the squares of the placements are
/// pairwise distinct: each rank fills strictly increasing files and
/// different ranks stand on different rows, so the sparse list needs no
/// duplicate-square check after a decode.
pub proof fn lemma_decode_squares_distinct(s: Seq<char>)
    ensures
        (match spec_decode(s) {
            Ok(m) => forall|i: int, j: int| #![trigger m.0[i], m.0[j]]
                0 <= i < j < m.0.len() ==> m.0[i].2 != m.0[j].2,
            Err(_) => true,
        }),
{
    let fields = spec_ws_split(s);
    if fields.len() == 6 {
        let ranks = spec_slash_split(fields[0]);
        if ranks.len() == 8 {
            lemma_scan_ranks_squares(ranks, 1, Seq::empty());
        }
    }
}

/// Scan one placement rank, extending `pieces` with its placements.
fn scan_rank(cs: &Vec<char>, rank_no: u8, pieces: Vec<Placement>) -> (r: Result<
    Vec<Placement>,
    DecodeError,
>)
    requires
        1 <= rank_no <= 8,
    ensures
        match spec_scan_rank(cs@, rank_no as int, 0, pieces@) {
            Ok(pl) => r matches Ok(v) && v@ == pl,
            Err(e) => r matches Err(e2) && e2 == e,
        },
{
    let n = cs.len();
    let mut acc = pieces;
    let mut file: u128 = 0;
    let mut i: usize = 0;
    proof {
        assert(cs@.skip(0) =~= cs@);
    }
    while i < n
        invariant
            i <= n,
            n == cs@.len(),
            1 <= rank_no <= 8,
            file as nat <= 8 * (i as nat),
            spec_scan_rank(cs@, rank_no as int, 0, pieces@) == spec_scan_rank(
                cs@.skip(i as int),
                rank_no as int,
                file as nat,
                acc@,
            ),
        decreases n - i,
    {
        let c = cs[i];
        let ghost s = cs@.skip(i as int);
        let ghost file0 = file as nat;
        let ghost acc0 = acc@;
        proof {
            assert(s.len() > 0);
            assert(s[0] == cs@[i as int]);
            assert(s.skip(1) =~= cs@.skip(i as int + 1));
        }
        let u = c as u32;
        if 49 <= u && u <= 56 {
            file = file + ((u - 48) as u128);
            proof {
                assert(spec_is_count_digit(c));
                assert(file as nat == file0 + spec_digit_val(c));
                assert(spec_scan_rank(s, rank_no as int, file0, acc0) == spec_scan_rank(
                    s.skip(1),
                    rank_no as int,
                    file0 + spec_digit_val(c),
                    acc0,
                ));
            }
        } else {
            proof {
                assert(!spec_is_count_digit(c));
            }
            match Piece::try_from(c) {
                Ok(p) => {
                    if file <= 7 {
                        let color = Color::from(c);
                        let sq = Square::from_index((file as u8) + (8 - rank_no) * 8);
                        acc.push((p, color, sq));
                        file = file + 1;
                        proof {
                            assert(spec_piece_of(c) == Some(p));
                            assert(sq == spec_square_at(file0 as int, 8 - rank_no as int));
                            assert(acc@ =~= acc0.push(
                                (p, spec_placement_color(c), spec_square_at(file0 as int, 8 - rank_no as int)),
                            ));
                            assert(spec_scan_rank(s, rank_no as int, file0, acc0) == spec_scan_rank(
                                s.skip(1),
                                rank_no as int,
                                file0 + 1,
                                acc@,
                            ));
                        }
                    } else {
                        proof {
                            assert(spec_scan_rank(s, rank_no as int, file0, acc0)
                                == Err::<Seq<Placement>, DecodeError>(DecodeError::OutOfRange));
                        }
                        return Err(DecodeError::OutOfRange);
                    }
                },
                Err(e) => {
                    proof {
                        assert(spec_piece_of(c) is None);
                        assert(spec_scan_rank(s, rank_no as int, file0, acc0)
                            == Err::<Seq<Placement>, DecodeError>(
                            DecodeError::InvalidPieceChar { ch: c },
                        ));
                    }
                    return Err(e);
                },
            }
        }
        i = i + 1;
    }
    proof {
        assert(cs@.skip(n as int) =~= Seq::<char>::empty());
    }
    if file == 8 {
        Ok(acc)
    } else {
        Err(DecodeError::RankSquareCountMismatch { rank: rank_no, got: file })
    }
}

impl Board {
    /// Decode a FEN string into a board. The result is exactly what the
    /// spec-level decode of the input's characters yields, error for error.
    #[verifier::loop_isolation(false)]
    pub fn try_from(value: String) -> (r: Result<Board, DecodeError>)
        ensures
            match spec_decode(value@) {
                Ok(m) => r matches Ok(b) && board_matches(b, m),
                Err(e) => r matches Err(e2) && e2 == e,
            },
    {
        let chars = chars_of(value.as_str());
        let fields = ws_split(&chars);
        let ghost fields_spec = spec_ws_split(value@);
        if fields.len() != 6 {
            return Err(DecodeError::FieldCountMismatch { got: fields.len() });
        }
        let ranks = slash_split(&fields[0]);
        let ghost ranks_spec = spec_slash_split(fields_spec[0]);
        if ranks.len() != 8 {
            return Err(DecodeError::RankCountMismatch { got: ranks.len() });
        }
        let mut pieces: Vec<Placement> = Vec::new();
        let mut k: usize = 0;
        proof {
            assert(ranks_spec.skip(0) =~= ranks_spec);
        }
        while k < 8
            invariant
                k <= 8,
                ranks@.len() == 8,
                tokens_match(ranks@, ranks_spec),
                fields@.len() == 6,
                tokens_match(fields@, fields_spec),
                fields_spec == spec_ws_split(value@),
                ranks_spec == spec_slash_split(fields_spec[0]),
                spec_scan_ranks(ranks_spec, 1, Seq::empty()) == spec_scan_ranks(
                    ranks_spec.skip(k as int),
                    k as int + 1,
                    pieces@,
                ),
            decreases 8 - k,
        {
            let ghost pieces0 = pieces@;
            proof {
                assert(ranks@[k as int]@ == ranks_spec[k as int]);
                assert(ranks_spec.skip(k as int)[0] == ranks_spec[k as int]);
                assert(ranks_spec.skip(k as int).skip(1) =~= ranks_spec.skip(k as int + 1));
            }
            let rank_no = (k as u8) + 1;
            pieces =
            match scan_rank(&ranks[k], rank_no, pieces) {
                Ok(v) => v,
                Err(e) => {
                    proof {
                        assert(spec_scan_rank(ranks_spec[k as int], k as int + 1, 0, pieces0)
                            == Err::<Seq<Placement>, DecodeError>(e));
                        assert(spec_scan_ranks(ranks_spec.skip(k as int), k as int + 1, pieces0)
                            == Err::<Seq<Placement>, DecodeError>(e));
                    }
                    return Err(e);
                },
            };
            k = k + 1;
            proof {
                assert(spec_scan_ranks(ranks_spec.skip(k as int - 1), k as int, pieces0)
                    == spec_scan_ranks(ranks_spec.skip(k as int), k as int + 1, pieces@));
            }
        }
        proof {
            assert(ranks_spec.skip(8) =~= Seq::<Seq<char>>::empty());
            assert(spec_scan_ranks(ranks_spec, 1, Seq::empty()) == Ok::<Seq<Placement>, DecodeError>(
                pieces@,
            ));
        }
        let side_field = &fields[1];
        proof {
            assert(fields@[1]@ == fields_spec[1]);
            assert(fields@[2]@ == fields_spec[2]);
        }
        let side: Color;
        if side_field.len() == 1 {
            match Color::try_from_fen(side_field[0]) {
                Ok(col) => {
                    side = col;
                },
                Err(e) => {
                    return Err(e);
                },
            }
        } else if side_field.len() == 0 {
            return Err(DecodeError::InvalidSideChar { ch: ' ' });
        } else {
            return Err(DecodeError::InvalidSideChar { ch: side_field[0] });
        }
        let cast_field = &fields[2];
        let mut wk: Option<CastlingRight> = None;
        let mut wq: Option<CastlingRight> = None;
        let mut bk: Option<CastlingRight> = None;
        let mut bq: Option<CastlingRight> = None;
        if !(cast_field.len() == 1 && cast_field[0] == '-') {
            let m = cast_field.len();
            let mut j: usize = 0;
            proof {
                assert(cast_field@.skip(0) =~= cast_field@);
            }
            while j < m
                invariant
                    j <= m,
                    m == cast_field@.len(),
                    spec_scan_castling(cast_field@, (None, None, None, None))
                        == spec_scan_castling(cast_field@.skip(j as int), (wk, wq, bk, bq)),
                decreases m - j,
            {
                let c = cast_field[j];
                let ghost slots0 = (wk, wq, bk, bq);
                proof {
                    assert(cast_field@.skip(j as int)[0] == cast_field@[j as int]);
                    assert(cast_field@.skip(j as int).skip(1) =~= cast_field@.skip(j as int + 1));
                }
                if c == 'K' {
                    wk = Some(CastlingRight::King);
                } else if c == 'Q' {
                    wq = Some(CastlingRight::Queen);
                } else if c == 'k' {
                    bk = Some(CastlingRight::King);
                } else if c == 'q' {
                    bq = Some(CastlingRight::Queen);
                } else {
                    proof {
                        assert(spec_scan_castling(cast_field@.skip(j as int), slots0)
                            == Err::<CastlingSlots, DecodeError>(
                            DecodeError::InvalidCastlingChar { ch: c },
                        ));
                        assert(spec_castling_field(fields_spec[2])
                            == Err::<CastlingSlots, DecodeError>(
                            DecodeError::InvalidCastlingChar { ch: c },
                        ));
                        assert(spec_decode(value@) == Err::<
                            (Seq<Placement>, Color, CastlingSlots),
                            DecodeError,
                        >(DecodeError::InvalidCastlingChar { ch: c }));
                    }
                    return Err(DecodeError::InvalidCastlingChar { ch: c });
                }
                j = j + 1;
                proof {
                    assert(spec_scan_castling(cast_field@.skip(j as int - 1), slots0)
                        == spec_scan_castling(cast_field@.skip(j as int), (wk, wq, bk, bq)));
                }
            }
            proof {
                assert(cast_field@.skip(m as int) =~= Seq::<char>::empty());
            }
        }
        let castling_rights: CastlingRights = [[wk, wq], [bk, bq]];
        Ok(Board { pieces, side_to_move: side, castling_rights })
    }
}

/// The 32 placements of the standard starting position, in the order the
/// decoder emits them: the top rank first, each rank scanned left to right.
pub open spec fn spec_start_placements() -> Seq<Placement> {
    seq![
        (Piece::Rook, Color::Black, Square::A8),
        (Piece::Knight, Color::Black, Square::B8),
        (Piece::Bishop, Color::Black, Square::C8),
        (Piece::Queen, Color::Black, Square::D8),
        (Piece::King, Color::Black, Square::E8),
        (Piece::Bishop, Color::Black, Square::F8),
        (Piece::Knight, Color::Black, Square::G8),
        (Piece::Rook, Color::Black, Square::H8),
        (Piece::Pawn, Color::Black, Square::A7),
        (Piece::Pawn, Color::Black, Square::B7),
        (Piece::Pawn, Color::Black, Square::C7),
        (Piece::Pawn, Color::Black, Square::D7),
        (Piece::Pawn, Color::Black, Square::E7),
        (Piece::Pawn, Color::Black, Square::F7),
        (Piece::Pawn, Color::Black, Square::G7),
        (Piece::Pawn, Color::Black, Square::H7),
        (Piece::Pawn, Color::White, Square::A2),
        (Piece::Pawn, Color::White, Square::B2),
        (Piece::Pawn, Color::White, Square::C2),
        (Piece::Pawn, Color::White, Square::D2),
        (Piece::Pawn, Color::White, Square::E2),
        (Piece::Pawn, Color::White, Square::F2),
        (Piece::Pawn, Color::White, Square::G2),
        (Piece::Pawn, Color::White, Square::H2),
        (Piece::Rook, Color::White, Square::A1),
        (Piece::Knight, Color::White, Square::B1),
        (Piece::Bishop, Color::White, Square::C1),
        (Piece::Queen, Color::White, Square::D1),
        (Piece::King, Color::White, Square::E1),
        (Piece::Bishop, Color::White, Square::F1),
        (Piece::Knight, Color::White, Square::G1),
        (Piece::Rook, Color::White, Square::H1),
    ]
}

/// The decoded model of the starting position: its 32 placements, white to
/// move, and all four castling rights granted.
pub open spec fn spec_start_model() -> (Seq<Placement>, Color, CastlingSlots) {
    (
        spec_start_placements(),
        Color::White,
        (
            Some(CastlingRight::King),
            Some(CastlingRight::Queen),
            Some(CastlingRight::King),
            Some(CastlingRight::Queen),
        ),
    )
}

impl Default for Board {
    /// The standard starting position: its 32 placements, white to move,
    /// and every castling right still available.
    fn default() -> (b: Board)
        ensures
            board_matches(b, spec_start_model()),
    {
        let mut pieces: Vec<Placement> = Vec::new();
        pieces.push((Piece::Rook, Color::Black, Square::A8));
        pieces.push((Piece::Knight, Color::Black, Square::B8));
        pieces.push((Piece::Bishop, Color::Black, Square::C8));
        pieces.push((Piece::Queen, Color::Black, Square::D8));
        pieces.push((Piece::King, Color::Black, Square::E8));
        pieces.push((Piece::Bishop, Color::Black, Square::F8));
        pieces.push((Piece::Knight, Color::Black, Square::G8));
        pieces.push((Piece::Rook, Color::Black, Square::H8));
        pieces.push((Piece::Pawn, Color::Black, Square::A7));
        pieces.push((Piece::Pawn, Color::Black, Square::B7));
        pieces.push((Piece::Pawn, Color::Black, Square::C7));
        pieces.push((Piece::Pawn, Color::Black, Square::D7));
        pieces.push((Piece::Pawn, Color::Black, Square::E7));
        pieces.push((Piece::Pawn, Color::Black, Square::F7));
        pieces.push((Piece::Pawn, Color::Black, Square::G7));
        pieces.push((Piece::Pawn, Color::Black, Square::H7));
        pieces.push((Piece::Pawn, Color::White, Square::A2));
        pieces.push((Piece::Pawn, Color::White, Square::B2));
        pieces.push((Piece::Pawn, Color::White, Square::C2));
        pieces.push((Piece::Pawn, Color::White, Square::D2));
        pieces.push((Piece::Pawn, Color::White, Square::E2));
        pieces.push((Piece::Pawn, Color::White, Square::F2));
        pieces.push((Piece::Pawn, Color::White, Square::G2));
        pieces.push((Piece::Pawn, Color::White, Square::H2));
        pieces.push((Piece::Rook, Color::White, Square::A1));
        pieces.push((Piece::Knight, Color::White, Square::B1));
        pieces.push((Piece::Bishop, Color::White, Square::C1));
        pieces.push((Piece::Queen, Color::White, Square::D1));
        pieces.push((Piece::King, Color::White, Square::E1));
        pieces.push((Piece::Bishop, Color::White, Square::F1));
        pieces.push((Piece::Knight, Color::White, Square::G1));
        pieces.push((Piece::Rook, Color::White, Square::H1));
        proof {
            assert(pieces@ =~= spec_start_placements());
        }
        Board {
            pieces,
            side_to_move: Color::White,
            castling_rights: [
                [Some(CastlingRight::King), Some(CastlingRight::Queen)],
                [Some(CastlingRight::King), Some(CastlingRight::Queen)],
            ],
        }
    }
}

} // verus!
