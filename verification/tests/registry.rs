use prime_chess::game::{GameRegistry, GameState, JoinError};

#[test]
fn connect_on_empty_registry_fails() {
    let registry = GameRegistry::new();
    assert!(matches!(registry.connect("0000"), Err(JoinError::NotFound)));
    assert_eq!(registry.len(), 0);
}

#[test]
fn hosted_game_is_retrievable() {
    let mut registry = GameRegistry::new();
    let code = registry.host_game();
    assert_eq!(code.len(), 4);
    assert!(code.chars().all(|c| c.is_ascii_digit()));
    let n: u32 = code.parse().expect("code is numeric");
    assert!((1000..=9999).contains(&n));

    let game = registry.connect(&code).expect("hosted game must be found");
    assert_eq!(game.code, code);
    assert!(matches!(game.state, GameState::Waiting));
    assert!(game.players.is_empty());
    assert_eq!(game.board.pieces.len(), 32);
    for row in game.board.castling_rights.iter() {
        for slot in row.iter() {
            assert!(slot.is_some());
        }
    }
}

#[test]
fn every_hosted_code_stays_retrievable() {
    let mut registry = GameRegistry::new();
    let mut codes = Vec::new();
    for _ in 0..50 {
        codes.push(registry.host_game());
    }
    assert!(registry.len() >= 1);
    assert!(registry.len() <= 50);
    for code in codes {
        let game = registry.connect(&code).expect("hosted game must be found");
        assert_eq!(game.code, code);
    }
}

#[test]
fn unknown_code_stays_unknown_after_hosting() {
    let mut registry = GameRegistry::new();
    let code = registry.host_game();
    // a code of a different length can never have been handed out
    assert!(matches!(registry.connect("42"), Err(JoinError::NotFound)));
    assert!(registry.connect(&code).is_ok());
}

#[test]
fn code_string_is_four_decimal_digits() {
    assert_eq!(prime_chess::game::code_string(1000), "1000");
    assert_eq!(prime_chess::game::code_string(1234), "1234");
    assert_eq!(prime_chess::game::code_string(9999), "9999");
}
