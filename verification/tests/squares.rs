use prime_chess::square::Square;
use prime_chess::DecodeError;

#[test]
fn corners_test() {
    assert_eq!(Square::try_from((0, 0)).expect("Expected valid square"), Square::A1);
    assert_eq!(Square::try_from((7, 7)).expect("Expected valid square"), Square::H8);
}

#[test]
fn out_of_range_file_fails() {
    assert_eq!(Square::try_from((8, 0)), Err(DecodeError::OutOfRange));
}

#[test]
fn out_of_range_rank_fails() {
    assert_eq!(Square::try_from((0, 8)), Err(DecodeError::OutOfRange));
    assert_eq!(Square::try_from((255, 255)), Err(DecodeError::OutOfRange));
}

#[test]
fn index_round_trip() {
    assert_eq!(Square::A1.to_index(), 0);
    assert_eq!(Square::B1.to_index(), 1);
    assert_eq!(Square::H1.to_index(), 7);
    assert_eq!(Square::A2.to_index(), 8);
    assert_eq!(Square::H8.to_index(), 63);
    for idx in 0..64u8 {
        assert_eq!(Square::from_index(idx).to_index(), idx);
    }
}

#[test]
fn try_from_agrees_with_index() {
    for file in 0..8u8 {
        for rank in 0..8u8 {
            let sq = Square::try_from((file, rank)).expect("Expected valid square");
            assert_eq!(sq.to_index(), file + rank * 8);
        }
    }
}
