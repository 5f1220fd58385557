//! The score of a guess against the hidden number, in cows and bulls.

use vstd::prelude::*;
use crate::digits::distinct;

verus! {

/// The number of positions below `n` at which the two sequences hold the same digit.
pub open spec fn bulls_upto(secret: Seq<u8>, guess: Seq<u8>, n: int) -> int
    decreases n,
{
    if n <= 0 {
        0
    } else {
        bulls_upto(secret, guess, n - 1) + if secret[n - 1] == guess[n - 1] { 1int } else { 0 }
    }
}

/// The number of positions `j` below `n`, other than `i`, at which the guess holds
/// the digit that the hidden number holds at `i`.
pub open spec fn crossings(secret: Seq<u8>, guess: Seq<u8>, i: int, n: int) -> int
    decreases n,
{
    if n <= 0 {
        0
    } else {
        crossings(secret, guess, i, n - 1) + if n - 1 != i && secret[i] == guess[n - 1] {
            1int
        } else {
            0
        }
    }
}

/// The number of pairs of different positions `(i, j)`, `i` below `m`, at which
/// the hidden number's digit at `i` is the guess's digit at `j`.
pub open spec fn cows_upto(secret: Seq<u8>, guess: Seq<u8>, m: int) -> int
    decreases m,
{
    if m <= 0 {
        0
    } else {
        cows_upto(secret, guess, m - 1) + crossings(secret, guess, m - 1, 4)
    }
}

/// Bulls: the positions at which the guess holds the hidden number's digit.
pub open spec fn bulls_of(secret: Seq<u8>, guess: Seq<u8>) -> int {
    bulls_upto(secret, guess, 4)
}

/// Cows: the ordered pairs of different positions at which the hidden number and
/// the guess hold the same digit. A digit that the guess repeats is counted at
/// each of its positions.
pub open spec fn cows_of(secret: Seq<u8>, guess: Seq<u8>) -> int {
    cows_upto(secret, guess, 4)
}

/// The guess is the hidden number.
pub open spec fn same_code(secret: Seq<u8>, guess: Seq<u8>) -> bool {
    forall|i: int| 0 <= i < 4 ==> secret[i] == guess[i]
}

proof fn lemma_crossings_bounds(secret: Seq<u8>, guess: Seq<u8>, i: int, n: int)
    requires
        0 <= n,
    ensures
        0 <= crossings(secret, guess, i, n) <= n,
        0 <= i < n ==> crossings(secret, guess, i, n) <= n - 1,
    decreases n,
{
    if n > 0 {
        lemma_crossings_bounds(secret, guess, i, n - 1);
    }
}

/// Scores a guess: cows first, bulls second.
pub fn score(secret: &[u8; 4], guess: &[u8; 4]) -> (result: (u8, u8))
    ensures
        result.0 == cows_of(secret@, guess@),
        result.1 == bulls_of(secret@, guess@),
{
    let mut cows: u8 = 0;
    let mut bulls: u8 = 0;
    for i in 0..4usize
        invariant
            bulls == bulls_upto(secret@, guess@, i as int),
            cows == cows_upto(secret@, guess@, i as int),
            bulls <= i,
            cows <= 3 * i,
    {
        if secret[i] == guess[i] {
            bulls += 1;
        }
        let ghost before = cows;
        proof {
            lemma_crossings_bounds(secret@, guess@, i as int, 4);
        }
        for j in 0..4usize
            invariant
                i < 4,
                before <= 3 * i,
                cows == before + crossings(secret@, guess@, i as int, j as int),
                crossings(secret@, guess@, i as int, 4) <= 3,
                crossings(secret@, guess@, i as int, j as int) <= crossings(secret@, guess@, i as int, 4),
        {
            proof {
                lemma_crossings_monotone(secret@, guess@, i as int, j as int + 1, 4);
            }
            if i != j && secret[i] == guess[j] {
                cows += 1;
            }
        }
    }
    (cows, bulls)
}

proof fn lemma_crossings_monotone(secret: Seq<u8>, guess: Seq<u8>, i: int, n: int, m: int)
    requires
        0 <= n <= m,
    ensures
        crossings(secret, guess, i, n) <= crossings(secret, guess, i, m),
    decreases m,
{
    if n < m {
        lemma_crossings_monotone(secret, guess, i, n, m - 1);
    }
}

/// Tells whether the guess is the hidden number.
pub fn is_secret(secret: &[u8; 4], guess: &[u8; 4]) -> (same: bool)
    ensures
        same == same_code(secret@, guess@),
        same == (secret@ == guess@),
{
    for i in 0..4usize
        invariant
            forall|k: int| 0 <= k < i ==> secret[k] == guess[k],
    {
        if secret[i] != guess[i] {
            return false;
        }
    }
    assert(secret@ =~= guess@);
    true
}

/// The bulls count the positions at which the two numbers agree.
pub proof fn lemma_bulls_count_agreeing_positions(secret: Seq<u8>, guess: Seq<u8>)
    ensures
        Set::new(|i: int| 0 <= i < 4 && secret[i] == guess[i]).finite(),
        bulls_of(secret, guess) == Set::new(|i: int| 0 <= i < 4 && secret[i] == guess[i]).len(),
{
    lemma_bulls_upto_counts(secret, guess, 4);
}

proof fn lemma_bulls_upto_counts(secret: Seq<u8>, guess: Seq<u8>, n: int)
    requires
        0 <= n,
    ensures
        Set::new(|i: int| 0 <= i < n && secret[i] == guess[i]).finite(),
        bulls_upto(secret, guess, n) == Set::new(|i: int| 0 <= i < n && secret[i] == guess[i]).len(),
    decreases n,
{
    let now = Set::new(|i: int| 0 <= i < n && secret[i] == guess[i]);
    if n == 0 {
        assert(now =~= Set::<int>::empty());
    } else {
        let before = Set::new(|i: int| 0 <= i < n - 1 && secret[i] == guess[i]);
        lemma_bulls_upto_counts(secret, guess, n - 1);
        if secret[n - 1] == guess[n - 1] {
            assert(now =~= before.insert(n - 1));
        } else {
            assert(now =~= before);
        }
    }
}

/// The pairs of positions that count as cows: the hidden number's position
/// first, below `m`, the guess's position second.
pub open spec fn cow_pairs(secret: Seq<u8>, guess: Seq<u8>, m: int) -> Set<(int, int)> {
    Set::new(
        |ij: (int, int)|
            0 <= ij.0 < m && 0 <= ij.1 < 4 && ij.0 != ij.1 && secret[ij.0] == guess[ij.1],
    )
}

spec fn row_pairs(secret: Seq<u8>, guess: Seq<u8>, i: int, n: int) -> Set<(int, int)> {
    Set::new(|ij: (int, int)| ij.0 == i && 0 <= ij.1 < n && ij.1 != i && secret[i] == guess[ij.1])
}

proof fn lemma_crossings_count(secret: Seq<u8>, guess: Seq<u8>, i: int, n: int)
    requires
        0 <= n,
    ensures
        row_pairs(secret, guess, i, n).finite(),
        crossings(secret, guess, i, n) == row_pairs(secret, guess, i, n).len(),
    decreases n,
{
    let now = row_pairs(secret, guess, i, n);
    if n == 0 {
        assert(now =~= Set::<(int, int)>::empty());
    } else {
        let before = row_pairs(secret, guess, i, n - 1);
        lemma_crossings_count(secret, guess, i, n - 1);
        if n - 1 != i && secret[i] == guess[n - 1] {
            assert(now =~= before.insert((i, n - 1)));
        } else {
            assert(now =~= before);
        }
    }
}

proof fn lemma_cows_upto_count(secret: Seq<u8>, guess: Seq<u8>, m: int)
    requires
        0 <= m,
    ensures
        cow_pairs(secret, guess, m).finite(),
        cows_upto(secret, guess, m) == cow_pairs(secret, guess, m).len(),
    decreases m,
{
    let now = cow_pairs(secret, guess, m);
    if m == 0 {
        assert(now =~= Set::<(int, int)>::empty());
    } else {
        let before = cow_pairs(secret, guess, m - 1);
        let row = row_pairs(secret, guess, m - 1, 4);
        lemma_cows_upto_count(secret, guess, m - 1);
        lemma_crossings_count(secret, guess, m - 1, 4);
        assert(now =~= before + row);
        assert(before.disjoint(row));
        vstd::set_lib::lemma_set_disjoint_lens(before, row);
    }
}

/// The cows count the pairs of different positions at which the hidden number
/// and the guess hold the same digit.
pub proof fn lemma_cows_count_crossing_pairs(secret: Seq<u8>, guess: Seq<u8>)
    ensures
        cow_pairs(secret, guess, 4).finite(),
        cows_of(secret, guess) == cow_pairs(secret, guess, 4).len(),
{
    lemma_cows_upto_count(secret, guess, 4);
}

/// Against a hidden number of pairwise different digits, cows and bulls together
/// are at most four: each position of the guess meets at most one position of
/// the hidden number.
pub proof fn lemma_score_at_most_four(secret: Seq<u8>, guess: Seq<u8>)
    requires
        secret.len() == 4,
        guess.len() == 4,
        distinct(secret),
    ensures
        0 <= bulls_of(secret, guess) <= 4,
        0 <= cows_of(secret, guess),
        bulls_of(secret, guess) + cows_of(secret, guess) <= 4,
{
    reveal_with_fuel(bulls_upto, 5);
    reveal_with_fuel(cows_upto, 5);
    reveal_with_fuel(crossings, 5);
}

/// A number of pairwise different digits, guessed as it is, scores no cows and
/// four bulls, and is recognised as the hidden number.
pub proof fn lemma_score_of_secret_itself(secret: Seq<u8>)
    requires
        secret.len() == 4,
        distinct(secret),
    ensures
        cows_of(secret, secret) == 0,
        bulls_of(secret, secret) == 4,
        same_code(secret, secret),
{
    reveal_with_fuel(bulls_upto, 5);
    reveal_with_fuel(cows_upto, 5);
    reveal_with_fuel(crossings, 5);
}

/// A guess is the hidden number exactly when it scores four bulls.
pub proof fn lemma_four_bulls_is_win(secret: Seq<u8>, guess: Seq<u8>)
    requires
        secret.len() == 4,
        guess.len() == 4,
    ensures
        same_code(secret, guess) <==> bulls_of(secret, guess) == 4,
{
    reveal_with_fuel(bulls_upto, 5);
}

} // verus!
