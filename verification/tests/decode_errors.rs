use prime_chess::board::{Board, CastlingRight};
use prime_chess::piece::Piece;
use prime_chess::Color;
use prime_chess::DecodeError;

#[test]
fn five_fields_fails() {
    let r = Board::try_from("rnbqkbnr/pppppppp/8/8/8/8/PPPPPPPP/RNBQKBNR w KQkq - 0".to_string());
    assert!(matches!(r, Err(DecodeError::FieldCountMismatch { got: 5 })));
}

#[test]
fn seven_fields_fails() {
    let r = Board::try_from(
        "rnbqkbnr/pppppppp/8/8/8/8/PPPPPPPP/RNBQKBNR w KQkq - 0 1 extra".to_string(),
    );
    assert!(matches!(r, Err(DecodeError::FieldCountMismatch { got: 7 })));
}

#[test]
fn seven_ranks_fails() {
    let r = Board::try_from("rnbqkbnr/pppppppp/8/8/8/8/PPPPPPPP w KQkq - 0 1".to_string());
    assert!(matches!(r, Err(DecodeError::RankCountMismatch { got: 7 })));
}

#[test]
fn nine_ranks_fails() {
    let r = Board::try_from("rnbqkbnr/pppppppp/8/8/8/8/8/PPPPPPPP/RNBQKBNR w KQkq - 0 1".to_string());
    assert!(matches!(r, Err(DecodeError::RankCountMismatch { got: 9 })));
}

#[test]
fn short_rank_fails_with_rank_number() {
    // first rank sums to 7 files
    let r = Board::try_from("rnbqkbn/pppppppp/8/8/8/8/PPPPPPPP/RNBQKBNR w KQkq - 0 1".to_string());
    assert!(matches!(r, Err(DecodeError::RankSquareCountMismatch { rank: 1, got: 7 })));
}

#[test]
fn long_rank_fails_with_rank_number() {
    // second rank sums to 9 files: a pawn, then a count of 8
    let r = Board::try_from("rnbqkbnr/p8/8/8/8/8/PPPPPPPP/RNBQKBNR w KQkq - 0 1".to_string());
    assert!(matches!(r, Err(DecodeError::RankSquareCountMismatch { rank: 2, got: 9 })));
}

#[test]
fn piece_beyond_last_file_fails_out_of_range() {
    // a ninth piece would stand on file 8, which no square has
    let r = Board::try_from("rnbqkbnr/ppppppppp/8/8/8/8/PPPPPPPP/RNBQKBNR w KQkq - 0 1".to_string());
    assert!(matches!(r, Err(DecodeError::OutOfRange)));
}

#[test]
fn invalid_piece_char_fails() {
    let r = Board::try_from("rnbqkbnr/pppppppp/8/8/8/8/PPPPPPPP/RNBQKBNX w KQkq - 0 1".to_string());
    assert!(matches!(r, Err(DecodeError::InvalidPieceChar { ch: 'X' })));
}

#[test]
fn digit_outside_count_range_fails_as_piece_char() {
    // 9 and 0 are not empty-square counts; they fall through to the piece
    // decoder and are rejected there
    let r = Board::try_from("9/8/8/8/8/8/8/8 w - - 0 1".to_string());
    assert!(matches!(r, Err(DecodeError::InvalidPieceChar { ch: '9' })));
    let r0 = Board::try_from("0/8/8/8/8/8/8/8 w - - 0 1".to_string());
    assert!(matches!(r0, Err(DecodeError::InvalidPieceChar { ch: '0' })));
}

#[test]
fn invalid_side_char_fails() {
    let r = Board::try_from("rnbqkbnr/pppppppp/8/8/8/8/PPPPPPPP/RNBQKBNR x KQkq - 0 1".to_string());
    assert!(matches!(r, Err(DecodeError::InvalidSideChar { ch: 'x' })));
}

#[test]
fn two_char_side_field_fails() {
    let r = Board::try_from("rnbqkbnr/pppppppp/8/8/8/8/PPPPPPPP/RNBQKBNR wb KQkq - 0 1".to_string());
    assert!(matches!(r, Err(DecodeError::InvalidSideChar { ch: 'w' })));
}

#[test]
fn invalid_castling_char_fails() {
    let r = Board::try_from("rnbqkbnr/pppppppp/8/8/8/8/PPPPPPPP/RNBQKBNR w KQxq - 0 1".to_string());
    assert!(matches!(r, Err(DecodeError::InvalidCastlingChar { ch: 'x' })));
}

#[test]
fn black_to_move_and_no_castling() {
    let board =
        Board::try_from("rnbqkbnr/pppppppp/8/8/8/8/PPPPPPPP/RNBQKBNR b - - 0 1".to_string())
            .expect("Expected parse to succeed!");
    assert_eq!(board.side_to_move, Color::Black);
    for row in board.castling_rights.iter() {
        for slot in row.iter() {
            assert!(slot.is_none());
        }
    }
}

#[test]
fn partial_castling_rights() {
    let board =
        Board::try_from("rnbqkbnr/pppppppp/8/8/8/8/PPPPPPPP/RNBQKBNR w Kq - 0 1".to_string())
            .expect("Expected parse to succeed!");
    assert_eq!(board.castling_rights[0][0], Some(CastlingRight::King));
    assert_eq!(board.castling_rights[0][1], None);
    assert_eq!(board.castling_rights[1][0], None);
    assert_eq!(board.castling_rights[1][1], Some(CastlingRight::Queen));
}

#[test]
fn prook_letter_decodes() {
    assert_eq!(Piece::try_from('f'), Ok(Piece::PRook));
    assert_eq!(Piece::try_from('F'), Ok(Piece::PRook));
    let board = Board::try_from("f7/8/8/8/8/8/8/7F w - - 0 1".to_string())
        .expect("Expected parse to succeed!");
    assert_eq!(board.pieces.len(), 2);
    assert!(board.pieces.contains(&(
        Piece::PRook,
        Color::Black,
        prime_chess::square::Square::A8
    )));
    assert!(board.pieces.contains(&(
        Piece::PRook,
        Color::White,
        prime_chess::square::Square::H1
    )));
}

#[test]
fn placement_color_follows_letter_case() {
    assert_eq!(Color::from('K'), Color::White);
    assert_eq!(Color::from('k'), Color::Black);
    assert_eq!(Color::from('7'), Color::Black);
    // the case test is the Unicode one, not restricted to ASCII
    assert_eq!(Color::from('\u{c4}'), Color::White);
    assert_eq!(Color::from('\u{e4}'), Color::Black);
}

#[test]
fn side_char_decoder_rejects_everything_but_w_and_b() {
    assert_eq!(Color::try_from_fen('w'), Ok(Color::White));
    assert_eq!(Color::try_from_fen('b'), Ok(Color::Black));
    assert_eq!(
        Color::try_from_fen('W'),
        Err(DecodeError::InvalidSideChar { ch: 'W' })
    );
}

#[test]
fn extra_whitespace_between_fields_is_tolerated() {
    let board = Board::try_from(
        "  rnbqkbnr/pppppppp/8/8/8/8/PPPPPPPP/RNBQKBNR \t w  KQkq  -  0\n 1 ".to_string(),
    )
    .expect("Expected parse to succeed!");
    assert_eq!(board.pieces.len(), 32);
}

#[test]
fn unicode_whitespace_separates_fields() {
    // U+00A0 has the Unicode white-space property, so it separates fields
    let board = Board::try_from(
        "rnbqkbnr/pppppppp/8/8/8/8/PPPPPPPP/RNBQKBNR\u{a0}w\u{a0}KQkq\u{a0}-\u{a0}0\u{a0}1"
            .to_string(),
    )
    .expect("Expected parse to succeed!");
    assert_eq!(board.pieces.len(), 32);
    assert_eq!(board.side_to_move, Color::White);
}
