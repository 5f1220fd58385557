//! The deductions: what a scored guess tells about the digits and their
//! positions. Only the guess and its score are read, never the hidden number.

use vstd::prelude::*;
use crate::digits::is_code;
use crate::hint::{Hint, Grid, is_grid, grid_of};

verus! {

/// The digit stands somewhere in the guess.
pub open spec fn occurs(guess: Seq<u8>, d: int) -> bool {
    exists|i: int| 0 <= i < 4 && guess[i] == d
}

/// No digit of the guess is in the hidden number: every cell of each of its
/// digits becomes `NotHere`.
pub open spec fn mark_absent(g: Grid, guess: Seq<u8>) -> Grid {
    Seq::new(
        10,
        |d: int| Seq::new(4, |p: int| if occurs(guess, d) { Hint::NotHere } else { g[d][p] }),
    )
}

/// The guess holds all digits of the hidden number: every cell of each digit
/// that the guess lacks becomes `NotHere`.
pub open spec fn mark_others_absent(g: Grid, guess: Seq<u8>) -> Grid {
    Seq::new(
        10,
        |d: int| Seq::new(4, |p: int| if !occurs(guess, d) { Hint::NotHere } else { g[d][p] }),
    )
}

/// Some digit of the guess stands where it was guessed: each digit of the guess
/// of which nothing is known at its position becomes `Maybe` there.
pub open spec fn mark_possible(g: Grid, guess: Seq<u8>) -> Grid {
    Seq::new(
        10,
        |d: int|
            Seq::new(
                4,
                |p: int|
                    if guess[p] == d && g[d][p] == Hint::Unknown { Hint::Maybe } else { g[d][p] },
            ),
    )
}

/// The number of positions below `n` whose guessed digit is known not to stand there.
pub open spec fn ruled_out_upto(g: Grid, guess: Seq<u8>, n: int) -> int
    decreases n,
{
    if n <= 0 {
        0
    } else {
        ruled_out_upto(g, guess, n - 1) + if g[guess[n - 1] as int][n - 1] == Hint::NotHere {
            1int
        } else {
            0
        }
    }
}

/// The number of positions of the guess whose digit is known not to stand there.
pub open spec fn ruled_out(g: Grid, guess: Seq<u8>) -> int {
    ruled_out_upto(g, guess, 4)
}

/// Every position of the guess is either a bull or ruled out: each digit of the
/// guess of which nothing is known at its position becomes `Here` there.
pub open spec fn mark_confirmed(g: Grid, guess: Seq<u8>) -> Grid {
    Seq::new(
        10,
        |d: int|
            Seq::new(
                4,
                |p: int|
                    if guess[p] == d && g[d][p] == Hint::Unknown { Hint::Here } else { g[d][p] },
            ),
    )
}

/// No digit of the guess stands where it was guessed: each digit of the guess
/// that is `Unknown` or `Maybe` at its position becomes `NotHere` there.
pub open spec fn mark_misplaced(g: Grid, guess: Seq<u8>) -> Grid {
    Seq::new(
        10,
        |d: int|
            Seq::new(
                4,
                |p: int|
                    if guess[p] == d && (g[d][p] == Hint::Unknown || g[d][p] == Hint::Maybe) {
                        Hint::NotHere
                    } else {
                        g[d][p]
                    },
            ),
    )
}

/// The grid after the first rule: a guess without cows and bulls rules its digits out.
pub open spec fn after_absent(g: Grid, guess: Seq<u8>, cows: int, bulls: int) -> Grid {
    if cows == 0 && bulls == 0 { mark_absent(g, guess) } else { g }
}

/// The grid after the second rule: a guess with four cows and bulls rules the other digits out.
pub open spec fn after_others_absent(g: Grid, guess: Seq<u8>, cows: int, bulls: int) -> Grid {
    if cows + bulls == 4 { mark_others_absent(g, guess) } else { g }
}

/// The grid after the third rule: with a bull, each guessed digit may stand where it was guessed.
pub open spec fn after_possible(g: Grid, guess: Seq<u8>, bulls: int) -> Grid {
    if bulls > 0 { mark_possible(g, guess) } else { g }
}

/// The grid after the last two rules, of which at most one applies: with bulls
/// and no cows, the unknown positions are confirmed where bulls and ruled-out
/// positions make four; with cows and no bulls, the guessed positions are ruled out.
pub open spec fn after_resolution(g: Grid, guess: Seq<u8>, cows: int, bulls: int) -> Grid {
    if cows == 0 && bulls > 0 {
        if ruled_out(g, guess) + bulls == 4 { mark_confirmed(g, guess) } else { g }
    } else if cows > 0 && bulls == 0 {
        mark_misplaced(g, guess)
    } else {
        g
    }
}

/// The grid after a scored guess: the rules in their order, each reading what
/// the ones before it wrote.
pub open spec fn deduced(g: Grid, guess: Seq<u8>, cows: int, bulls: int) -> Grid {
    after_resolution(
        after_possible(
            after_others_absent(after_absent(g, guess, cows, bulls), guess, cows, bulls),
            guess,
            bulls,
        ),
        guess,
        cows,
        bulls,
    )
}

/// Tells whether the digit stands somewhere in the guess.
pub fn digit_occurs(guess: &[u8; 4], d: u8) -> (found: bool)
    ensures
        found == occurs(guess@, d as int),
{
    let mut found: bool = false;
    for i in 0..4usize
        invariant
            found == exists|k: int| 0 <= k < i && guess[k] == d,
    {
        if guess[i] == d {
            found = true;
        }
    }
    found
}

/// Sets the whole row of a digit to `NotHere`.
fn rule_out_digit(table: &mut [[Hint; 4]; 10], d: usize)
    requires
        d < 10,
    ensures
        forall|e: int, p: int|
            0 <= e < 10 && 0 <= p < 4 ==> final(table)[e][p] == if e == d {
                Hint::NotHere
            } else {
                old(table)[e][p]
            },
{
    for j in 0..4usize
        invariant
            d < 10,
            forall|e: int, p: int|
                0 <= e < 10 && 0 <= p < 4 ==> table[e][p] == if e == d && p < j {
                    Hint::NotHere
                } else {
                    old(table)[e][p]
                },
    {
        table[d][j] = Hint::NotHere;
    }
}

/// Applies `mark_absent`.
fn apply_absent(table: &mut [[Hint; 4]; 10], guess: &[u8; 4])
    requires
        is_code(guess@),
    ensures
        grid_of(*final(table)) == mark_absent(grid_of(*old(table)), guess@),
{
    for i in 0..4usize
        invariant
            is_code(guess@),
            forall|e: int, p: int|
                0 <= e < 10 && 0 <= p < 4 ==> table[e][p] == if exists|k: int|
                    0 <= k < i && guess[k] == e {
                    Hint::NotHere
                } else {
                    old(table)[e][p]
                },
    {
        rule_out_digit(table, guess[i] as usize);
    }
    proof {
        lemma_grids_equal(grid_of(*table), mark_absent(grid_of(*old(table)), guess@));
    }
}

/// Applies `mark_others_absent`.
fn apply_others_absent(table: &mut [[Hint; 4]; 10], guess: &[u8; 4])
    ensures
        grid_of(*final(table)) == mark_others_absent(grid_of(*old(table)), guess@),
{
    for d in 0..10u8
        invariant
            forall|e: int, p: int|
                0 <= e < 10 && 0 <= p < 4 ==> table[e][p] == if e < d && !occurs(guess@, e) {
                    Hint::NotHere
                } else {
                    old(table)[e][p]
                },
    {
        if !digit_occurs(guess, d) {
            rule_out_digit(table, d as usize);
        }
    }
    proof {
        lemma_grids_equal(grid_of(*table), mark_others_absent(grid_of(*old(table)), guess@));
    }
}

/// Applies `mark_possible`.
fn apply_possible(table: &mut [[Hint; 4]; 10], guess: &[u8; 4])
    requires
        is_code(guess@),
    ensures
        grid_of(*final(table)) == mark_possible(grid_of(*old(table)), guess@),
{
    for i in 0..4usize
        invariant
            is_code(guess@),
            forall|e: int, p: int|
                0 <= e < 10 && 0 <= p < 4 ==> table[e][p] == if p < i && guess[p] == e && old(
                    table,
                )[e][p] == Hint::Unknown {
                    Hint::Maybe
                } else {
                    old(table)[e][p]
                },
    {
        let v: usize = guess[i] as usize;
        if table[v][i] == Hint::Unknown {
            table[v][i] = Hint::Maybe;
        }
    }
    proof {
        lemma_grids_equal(grid_of(*table), mark_possible(grid_of(*old(table)), guess@));
    }
}

/// Counts the positions of the guess whose digit is known not to stand there.
fn count_ruled_out(table: &[[Hint; 4]; 10], guess: &[u8; 4]) -> (c: u8)
    requires
        is_code(guess@),
    ensures
        c == ruled_out(grid_of(*table), guess@),
        c <= 4,
{
    let mut c: u8 = 0;
    for i in 0..4usize
        invariant
            is_code(guess@),
            c <= i,
            c == ruled_out_upto(grid_of(*table), guess@, i as int),
    {
        let v: usize = guess[i] as usize;
        if table[v][i] == Hint::NotHere {
            c += 1;
        }
    }
    c
}

/// Applies `mark_confirmed`.
fn apply_confirmed(table: &mut [[Hint; 4]; 10], guess: &[u8; 4])
    requires
        is_code(guess@),
    ensures
        grid_of(*final(table)) == mark_confirmed(grid_of(*old(table)), guess@),
{
    for i in 0..4usize
        invariant
            is_code(guess@),
            forall|e: int, p: int|
                0 <= e < 10 && 0 <= p < 4 ==> table[e][p] == if p < i && guess[p] == e && old(
                    table,
                )[e][p] == Hint::Unknown {
                    Hint::Here
                } else {
                    old(table)[e][p]
                },
    {
        let v: usize = guess[i] as usize;
        if table[v][i] == Hint::Unknown {
            table[v][i] = Hint::Here;
        }
    }
    proof {
        lemma_grids_equal(grid_of(*table), mark_confirmed(grid_of(*old(table)), guess@));
    }
}

/// Applies `mark_misplaced`.
fn apply_misplaced(table: &mut [[Hint; 4]; 10], guess: &[u8; 4])
    requires
        is_code(guess@),
    ensures
        grid_of(*final(table)) == mark_misplaced(grid_of(*old(table)), guess@),
{
    for i in 0..4usize
        invariant
            is_code(guess@),
            forall|e: int, p: int|
                0 <= e < 10 && 0 <= p < 4 ==> table[e][p] == if p < i && guess[p] == e && (old(
                    table,
                )[e][p] == Hint::Unknown || old(table)[e][p] == Hint::Maybe) {
                    Hint::NotHere
                } else {
                    old(table)[e][p]
                },
    {
        let v: usize = guess[i] as usize;
        if table[v][i] == Hint::Maybe || table[v][i] == Hint::Unknown {
            table[v][i] = Hint::NotHere;
        }
    }
    proof {
        lemma_grids_equal(grid_of(*table), mark_misplaced(grid_of(*old(table)), guess@));
    }
}

/// Writes into the table what a guess and its score tell: the five rules, in
/// their order.
pub fn update_hints(table: &mut [[Hint; 4]; 10], guess: &[u8; 4], cows: u8, bulls: u8)
    requires
        is_code(guess@),
    ensures
        grid_of(*final(table)) == deduced(
            grid_of(*old(table)),
            guess@,
            cows as int,
            bulls as int,
        ),
{
    if cows == 0 && bulls == 0 {
        apply_absent(table, guess);
    }
    if cows as u16 + bulls as u16 == 4 {
        apply_others_absent(table, guess);
    }
    if bulls > 0 {
        apply_possible(table, guess);
    }
    if cows == 0 && bulls > 0 {
        let c: u8 = count_ruled_out(table, guess);
        if c as u16 + bulls as u16 == 4 {
            apply_confirmed(table, guess);
        }
    } else if cows > 0 && bulls == 0 {
        apply_misplaced(table, guess);
    }
}

/// Two grids with the same cells are the same grid.
proof fn lemma_grids_equal(a: Grid, b: Grid)
    requires
        is_grid(a),
        is_grid(b),
        forall|d: int, p: int| 0 <= d < 10 && 0 <= p < 4 ==> a[d][p] == b[d][p],
    ensures
        a == b,
{
    assert forall|d: int| 0 <= d < 10 implies a[d] == b[d] by {
        assert(a[d] =~= b[d]);
    }
    assert(a =~= b);
}

/// A deduction leaves a grid a grid.
pub proof fn lemma_deduced_is_grid(g: Grid, guess: Seq<u8>, cows: int, bulls: int)
    requires
        is_grid(g),
    ensures
        is_grid(deduced(g, guess, cows, bulls)),
{
}

/// No deduction takes a belief back: a cell that is not `Unknown` never
/// becomes `Unknown` again.
pub proof fn lemma_never_unknown_again(
    g: Grid,
    guess: Seq<u8>,
    cows: int,
    bulls: int,
    d: int,
    p: int,
)
    requires
        is_grid(g),
        0 <= d < 10,
        0 <= p < 4,
        g[d][p] != Hint::Unknown,
    ensures
        deduced(g, guess, cows, bulls)[d][p] != Hint::Unknown,
{
}

/// A guess without cows and bulls rules each of its digits out at every position.
pub proof fn lemma_no_match_rules_guess_out(g: Grid, guess: Seq<u8>, d: int, p: int)
    requires
        is_grid(g),
        guess.len() == 4,
        0 <= d < 10,
        0 <= p < 4,
        occurs(guess, d),
    ensures
        deduced(g, guess, 0, 0)[d][p] == Hint::NotHere,
{
}

/// A guess whose cows and bulls make four rules every digit that it lacks out
/// at every position.
pub proof fn lemma_full_match_rules_others_out(
    g: Grid,
    guess: Seq<u8>,
    cows: int,
    bulls: int,
    d: int,
    p: int,
)
    requires
        is_grid(g),
        guess.len() == 4,
        0 <= cows,
        0 <= bulls,
        cows + bulls == 4,
        0 <= d < 10,
        0 <= p < 4,
        !occurs(guess, d),
    ensures
        deduced(g, guess, cows, bulls)[d][p] == Hint::NotHere,
{
    assert(guess[p] != d);
}

/// Unless the score is without cows and bulls, a digit of the guess keeps its
/// belief at every position where the guess holds another digit.
pub proof fn lemma_other_positions_stay(
    g: Grid,
    guess: Seq<u8>,
    cows: int,
    bulls: int,
    d: int,
    p: int,
)
    requires
        is_grid(g),
        guess.len() == 4,
        0 <= d < 10,
        0 <= p < 4,
        occurs(guess, d),
        guess[p] != d,
        !(cows == 0 && bulls == 0),
    ensures
        deduced(g, guess, cows, bulls)[d][p] == g[d][p],
{
}

/// With a bull in the score, the third rule leaves no guessed position
/// `Unknown`, so the fourth finds nothing to confirm: no deduction writes
/// `Here` into a cell that did not hold it.
pub proof fn lemma_here_is_never_new(
    g: Grid,
    guess: Seq<u8>,
    cows: int,
    bulls: int,
    d: int,
    p: int,
)
    requires
        is_grid(g),
        guess.len() == 4,
        0 <= d < 10,
        0 <= p < 4,
        deduced(g, guess, cows, bulls)[d][p] == Hint::Here,
    ensures
        g[d][p] == Hint::Here,
{
}

} // verus!
