use prime_chess::chess_game::ChessGame;
use prime_chess::chess_move::{ChessMove, ChessMoveFlags};
use prime_chess::square::Square;
use prime_chess::Color;

#[test]
fn default_game_starts_fresh() {
    let game = ChessGame::default();
    assert_eq!(game.board.pieces.len(), 32);
    assert_eq!(game.board.side_to_move, Color::White);
    assert!(game.chess_moves.is_empty());
    for row in game.board.castling_rights.iter() {
        for slot in row.iter() {
            assert!(slot.is_some());
        }
    }
}

#[test]
fn chess_move_carries_its_fields() {
    let mv = ChessMove {
        flags: ChessMoveFlags::Promotion(Square::E8),
        origin: Square::E7,
        destination: Square::E8,
    };
    assert_eq!(mv.origin, Square::E7);
    assert_eq!(mv.destination, Square::E8);
    assert_eq!(mv.flags, ChessMoveFlags::Promotion(Square::E8));
    let ep = ChessMove {
        flags: ChessMoveFlags::EnPassant(Square::D6),
        origin: Square::E5,
        destination: Square::D6,
    };
    assert_eq!(ep.flags, ChessMoveFlags::EnPassant(Square::D6));
}
