use cows_and_bulls::digits::{has_unique_digits, is_well_formed_guess};
use cows_and_bulls::game::Game;
use cows_and_bulls::score::{is_secret, score};

fn game_6437() -> Game {
    Game::with_secret([6, 4, 3, 7]).unwrap()
}

#[test]
fn well_formed_text_is_four_numerals() {
    assert!(is_well_formed_guess("1234"));
    assert!(is_well_formed_guess("0000"));
    assert!(is_well_formed_guess("0987"));
    assert!(!is_well_formed_guess(""));
    assert!(!is_well_formed_guess("123"));
    assert!(!is_well_formed_guess("12345"));
    assert!(!is_well_formed_guess("12a4"));
    assert!(!is_well_formed_guess("+123"));
    assert!(!is_well_formed_guess("12 4"));
    assert!(!is_well_formed_guess("١٢٣٤"));
    assert!(!is_well_formed_guess("1/3:"));
}

#[test]
fn text_is_read_digit_by_digit() {
    assert_eq!(Game::from_string("0129"), [0, 1, 2, 9]);
    assert_eq!(Game::from_string("9876"), [9, 8, 7, 6]);
    assert_eq!(Game::from_string("3345"), [3, 3, 4, 5]);
}

#[test]
fn unique_digits_of_arrays() {
    assert!(has_unique_digits(&[1, 2, 3, 4]));
    assert!(!has_unique_digits(&[1, 1, 2, 3]));
    assert!(!has_unique_digits(&[1, 2, 3, 1]));
    assert!(!has_unique_digits(&[1, 2, 3, 3]));
    assert!(!has_unique_digits(&[0, 2, 0, 3]));
    assert!(has_unique_digits(&[0, 9, 8, 7]));
}

#[test]
fn unique_digits_of_text() {
    let game = game_6437();
    assert!(game.check_unique_digits("1234"));
    assert!(!game.check_unique_digits("1123"));
    assert!(!game.check_unique_digits("1231"));
    assert!(!game.check_unique_digits("7777"));
}

#[test]
fn a_secret_needs_four_different_digits() {
    assert!(Game::with_secret([6, 4, 3, 7]).is_some());
    assert!(Game::with_secret([0, 1, 2, 3]).is_some());
    assert!(Game::with_secret([6, 4, 3, 6]).is_none());
    assert!(Game::with_secret([6, 6, 3, 7]).is_none());
    assert!(Game::with_secret([6, 4, 3, 10]).is_none());
    assert!(Game::with_secret([255, 4, 3, 1]).is_none());
}

#[test]
fn a_game_with_a_given_secret_is_fresh() {
    let game = game_6437();
    assert_eq!(game.tries, 0);
    assert_eq!(game.read_try_count(), 0);
    assert!(game.guess("6437"));
}

#[test]
fn score_counts_bulls_and_cows() {
    assert_eq!(score(&[6, 4, 3, 7], &[1, 2, 3, 4]), (1, 1));
    assert_eq!(score(&[6, 4, 3, 7], &[1, 2, 9, 0]), (0, 0));
    assert_eq!(score(&[6, 4, 3, 7], &[7, 3, 6, 4]), (4, 0));
    assert_eq!(score(&[6, 4, 3, 7], &[6, 4, 3, 9]), (0, 3));
    assert_eq!(score(&[6, 4, 3, 7], &[4, 6, 3, 7]), (2, 2));
    assert_eq!(score(&[6, 4, 3, 7], &[6, 4, 3, 7]), (0, 4));
}

#[test]
fn score_of_distinct_numbers_is_at_most_four() {
    let secret: [u8; 4] = [6, 4, 3, 7];
    for a in 0..10u8 {
        for b in 0..10u8 {
            for c in 0..10u8 {
                for d in 0..10u8 {
                    let guess = [a, b, c, d];
                    let (cows, bulls) = score(&secret, &guess);
                    let agreeing = (0..4).filter(|&i| secret[i] == guess[i]).count();
                    assert_eq!(bulls as usize, agreeing);
                    assert!(cows + bulls <= 4);
                    assert_eq!(is_secret(&secret, &guess), bulls == 4);
                }
            }
        }
    }
}

#[test]
fn a_repeated_digit_is_counted_at_each_position() {
    assert_eq!(score(&[6, 4, 3, 7], &[6, 6, 6, 6]), (3, 1));
    assert_eq!(score(&[6, 4, 3, 7], &[4, 4, 1, 1]), (1, 1));
    assert_eq!(score(&[6, 4, 3, 7], &[1, 6, 6, 1]), (2, 0));
}

#[test]
fn the_secret_scores_four_bulls_against_itself() {
    let secrets: [[u8; 4]; 4] = [[6, 4, 3, 7], [0, 1, 2, 3], [9, 8, 7, 6], [5, 0, 9, 2]];
    for s in secrets.iter() {
        assert_eq!(score(s, s), (0, 4));
        assert!(is_secret(s, s));
    }
}

#[test]
fn only_the_secret_wins() {
    let game = game_6437();
    assert!(game.guess("6437"));
    assert!(!game.guess("6439"));
    assert!(!game.guess("7346"));
    assert!(!game.guess("1437"));
    assert!(!is_secret(&[6, 4, 3, 7], &[6, 4, 7, 3]));
}

#[test]
fn each_scored_guess_is_one_try() {
    let mut game = game_6437();
    assert_eq!(game.tries, 0);
    let guesses = ["1234", "1290", "7364", "6439", "0123"];
    let mut n: u32 = 0;
    for g in guesses.iter() {
        assert!(!game.guess(g));
        assert!(game.check_unique_digits(g));
        assert_eq!(game.tries, n);
        let (cows, bulls) = game.score_guess(g);
        game.analyze(g, cows, bulls);
        n += 1;
        assert_eq!(game.tries, n);
        assert_eq!(game.read_try_count(), n);
    }
    assert!(game.guess("6437"));
    assert_eq!(game.tries, 5);
    assert_eq!(game.tries + 1, 6);
}

#[test]
fn scoring_through_the_game_reads_the_text() {
    let mut game = game_6437();
    assert_eq!(game.score_guess("1234"), (1, 1));
    assert_eq!(game.score_guess("1290"), (0, 0));
    assert_eq!(game.score_guess("7364"), (4, 0));
    assert_eq!(game.score_guess("6437"), (0, 4));
    assert_eq!(game.tries, 4);
}
