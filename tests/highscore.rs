use space_invaders::context::{Context, Size};
use space_invaders::game::Game;
use space_invaders::highscore::{decimal_text, high_score_text, parse_high_score};

fn ctx() -> Context {
    Context::new(
        Size { width: 44, height: 32 },
        Size { width: 48, height: 32 },
        Size { width: 40, height: 32 },
        Size { width: 56, height: 48 },
        Size { width: 64, height: 28 },
    )
}

#[test]
fn high_score_round_trip() {
    for n in [0usize, 7, 10, 4560, 99999, usize::MAX] {
        assert_eq!(parse_high_score(&high_score_text(n)), n);
    }
    let mut game = Game::new(ctx());
    game.high_score = 31337;
    let text = game.save_high_score();
    assert_eq!(text, b"31337".to_vec());
    let mut other = Game::new(ctx());
    other.load_high_score(Some(&text));
    assert_eq!(other.high_score, 31337);
}

#[test]
fn missing_or_bad_file_gives_zero() {
    let mut game = Game::new(ctx());
    game.high_score = 5;
    game.load_high_score(None);
    assert_eq!(game.high_score, 0);
    game.load_high_score(Some(b"12\n"));
    assert_eq!(game.high_score, 0);
    game.load_high_score(Some(b""));
    assert_eq!(game.high_score, 0);
    game.load_high_score(Some(b"+"));
    assert_eq!(game.high_score, 0);
    game.load_high_score(Some(b"-3"));
    assert_eq!(game.high_score, 0);
    game.load_high_score(Some(b"99999999999999999999999"));
    assert_eq!(game.high_score, 0);
}

#[test]
fn parse_accepts_sign_and_leading_zeros() {
    assert_eq!(parse_high_score(b"+12"), 12);
    assert_eq!(parse_high_score(b"00042"), 42);
    assert_eq!(parse_high_score(b"18446744073709551615"), usize::MAX);
    assert_eq!(parse_high_score(b"18446744073709551616"), 0);
}

#[test]
fn zero_padded_fields() {
    assert_eq!(decimal_text(7, 2), b"07".to_vec());
    assert_eq!(decimal_text(123, 5), b"00123".to_vec());
    assert_eq!(decimal_text(123456, 5), b"123456".to_vec());
    assert_eq!(decimal_text(0, 1), b"0".to_vec());
    assert_eq!(parse_high_score(&decimal_text(123, 5)), 123);
}

#[test]
fn new_high_score_is_raised_only_when_beaten() {
    let mut game = Game::new(ctx());
    game.score = 10;
    game.high_score = 20;
    assert!(!game.check_for_highscore());
    assert_eq!(game.high_score, 20);
    game.score = 30;
    assert!(game.check_for_highscore());
    assert_eq!(game.high_score, 30);
}
