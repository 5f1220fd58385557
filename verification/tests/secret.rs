use cows_and_bulls::digits::has_unique_digits;
use cows_and_bulls::game::Game;
use cows_and_bulls::secret::{generate_secret, leading_four};

#[test]
fn a_drawn_secret_has_four_different_digits() {
    for _ in 0..500 {
        let code = generate_secret();
        assert!(has_unique_digits(&code));
        for d in code.iter() {
            assert!(*d <= 9);
        }
        assert!(Game::with_secret(code).is_some());
    }
}

#[test]
fn drawn_secrets_differ() {
    let mut other = false;
    for _ in 0..200 {
        if generate_secret() != [0, 1, 2, 3] {
            other = true;
        }
    }
    assert!(other);
}

#[test]
fn every_digit_comes_at_every_position() {
    let mut seen = [[false; 4]; 10];
    for _ in 0..4000 {
        let code = generate_secret();
        for p in 0..4usize {
            seen[code[p] as usize][p] = true;
        }
    }
    for d in 0..10usize {
        for p in 0..4usize {
            assert!(seen[d][p]);
        }
    }
}

#[test]
fn the_first_four_are_kept() {
    assert_eq!(leading_four(&[9, 0, 3, 5, 1, 2, 4, 6, 7, 8]), [9, 0, 3, 5]);
    assert_eq!(leading_four(&[0, 1, 2, 3, 4, 5, 6, 7, 8, 9]), [0, 1, 2, 3]);
}

#[test]
fn a_new_game_is_fresh() {
    let game = Game::new();
    assert_eq!(game.tries, 0);
    for d in 0..10usize {
        for p in 0..4usize {
            assert_eq!(game.hint_table[d][p], cows_and_bulls::hint::Hint::Unknown);
        }
    }
}
