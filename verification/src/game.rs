//! One game: the hidden number, the count of scored guesses and the table of
//! deductions.

use vstd::prelude::*;
use vstd::string::StrSliceExecFns;
use crate::digits::{
    is_code, is_secret_code, distinct, well_formed, parsed, digit_value, is_numeral,
    lemma_parsed_is_code, has_unique_digits,
};
use crate::hint::{Hint, Grid, grid_of, blank_grid, blank_table};
use crate::score::{cows_of, bulls_of, score, is_secret};
use crate::deduce::{deduced, update_hints};
use crate::secret::generate_secret;

verus! {

/// The state of one game. The hidden number is kept from the player; the count
/// of tries and the table of hints are there to be read.
pub struct Game {
    secret_number: [u8; 4],
    /// How many guesses have been scored.
    pub tries: u32,
    /// The belief about each digit, the row, at each position, the column.
    pub hint_table: [[Hint; 4]; 10],
}

impl Game {
    /// The hidden number.
    pub closed spec fn secret(&self) -> Seq<u8> {
        self.secret_number@
    }

    /// How many guesses have been scored.
    pub closed spec fn try_count(&self) -> int {
        self.tries as int
    }

    /// The table of hints as a grid.
    pub closed spec fn grid(&self) -> Grid {
        grid_of(self.hint_table)
    }

    /// The hidden number is one: four digits, pairwise different.
    pub open spec fn wf(&self) -> bool {
        is_secret_code(self.secret())
    }

    /// A game that has just begun: no tries, nothing known.
    pub open spec fn is_fresh(&self) -> bool {
        self.try_count() == 0 && self.grid() == blank_grid()
    }

    /// `next` is this game one scored guess later: one more try, the same hidden number.
    pub open spec fn one_try_later(&self, next: &Game) -> bool {
        next.try_count() == self.try_count() + 1 && next.secret() == self.secret()
    }

    /// Begins a game with a hidden number drawn by chance.
    pub fn new() -> (game: Game)
        ensures
            game.wf(),
            game.is_fresh(),
    {
        Game { secret_number: generate_secret(), tries: 0, hint_table: blank_table() }
    }

    /// Begins a game with a given hidden number, if it is one: four digits,
    /// pairwise different.
    pub fn with_secret(secret: [u8; 4]) -> (made: Option<Game>)
        ensures
            made.is_some() == is_secret_code(secret@),
            made matches Some(game) ==> game.secret() == secret@ && game.wf() && game.is_fresh(),
    {
        for i in 0..4usize
            invariant
                forall|k: int| 0 <= k < i ==> secret[k] <= 9,
        {
            if secret[i] > 9 {
                return None;
            }
        }
        if !has_unique_digits(&secret) {
            return None;
        }
        Some(Game { secret_number: secret, tries: 0, hint_table: blank_table() })
    }

    /// Tells whether the guess is the hidden number. The count of tries stays.
    pub fn guess(&self, variant: &str) -> (won: bool)
        requires
            well_formed(variant@),
        ensures
            won == (self.secret() == parsed(variant@)),
    {
        let input = Game::from_string(variant);
        is_secret(&self.secret_number, &input)
    }

    /// Scores the guess, cows first and bulls second, and counts it as a try.
    pub fn score_guess(&mut self, variant: &str) -> (result: (u8, u8))
        requires
            well_formed(variant@),
            old(self).try_count() < u32::MAX,
        ensures
            result.0 == cows_of(old(self).secret(), parsed(variant@)),
            result.1 == bulls_of(old(self).secret(), parsed(variant@)),
            old(self).one_try_later(final(self)),
            final(self).grid() == old(self).grid(),
    {
        let input = Game::from_string(variant);
        let result = score(&self.secret_number, &input);
        self.tries += 1;
        result
    }

    /// Writes into the table of hints what the guess and its score tell. The
    /// hidden number is not read.
    pub fn analyze(&mut self, variant: &str, cows: u8, bulls: u8)
        requires
            well_formed(variant@),
        ensures
            final(self).grid() == deduced(
                old(self).grid(),
                parsed(variant@),
                cows as int,
                bulls as int,
            ),
            final(self).try_count() == old(self).try_count(),
            final(self).secret() == old(self).secret(),
    {
        let input = Game::from_string(variant);
        update_hints(&mut self.hint_table, &input, cows, bulls);
    }

    /// The count of scored guesses.
    pub fn read_try_count(&self) -> (n: u32)
        ensures
            n == self.try_count(),
    {
        self.tries
    }

    /// A copy of the table of hints.
    pub fn read_hint_grid(&self) -> (table: [[Hint; 4]; 10])
        ensures
            grid_of(table) == self.grid(),
    {
        self.hint_table
    }

    /// Tells whether the four digits of the guess are pairwise different.
    pub fn check_unique_digits(&self, variant: &str) -> (unique: bool)
        requires
            well_formed(variant@),
        ensures
            unique == distinct(parsed(variant@)),
    {
        let input = Game::from_string(variant);
        has_unique_digits(&input)
    }

    /// Reads a well-formed text as its four digits.
    pub fn from_string(value: &str) -> (code: [u8; 4])
        requires
            well_formed(value@),
        ensures
            code@ == parsed(value@),
            is_code(code@),
    {
        let mut code: [u8; 4] = [0u8; 4];
        for i in 0..4usize
            invariant
                well_formed(value@),
                forall|k: int| 0 <= k < i ==> code[k] == digit_value(value@[k]) as u8,
        {
            let c: char = value.get_char(i);
            assert(is_numeral(value@[i as int]));
            code[i] = (c as u32 - '0' as u32) as u8;
        }
        proof {
            assert(code@ =~= parsed(value@));
            lemma_parsed_is_code(value@);
        }
        code
    }
}

/// After any number of scored guesses the count of tries has grown by that
/// number: `states` holds the game before the first of them and after each.
pub proof fn lemma_tries_count_scored_guesses(states: Seq<Game>)
    requires
        states.len() > 0,
        forall|i: int| 0 <= i < states.len() - 1 ==> (#[trigger] states[i]).one_try_later(&states[i + 1]),
    ensures
        states.last().try_count() == states[0].try_count() + (states.len() - 1),
        states.last().secret() == states[0].secret(),
    decreases states.len(),
{
    if states.len() > 1 {
        let earlier = states.drop_last();
        assert forall|i: int| 0 <= i < earlier.len() - 1 implies (#[trigger] earlier[i]).one_try_later(&earlier[i + 1]) by {
            assert(states[i].one_try_later(&states[i + 1]));
        }
        lemma_tries_count_scored_guesses(earlier);
        assert(states[states.len() - 2].one_try_later(&states[states.len() - 1]));
    }
}

} // verus!
