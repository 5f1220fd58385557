//! The hidden number: four digits drawn without replacement, by shuffling the
//! ten digits and keeping the first four.

use vstd::prelude::*;
use crate::digits::{is_code, distinct, is_secret_code};

verus! {

/// `rand::ThreadRng`, the generator that each thread keeps for itself. Nothing
/// is known of what it holds.
#[verifier::external_type_specification]
#[verifier::external_body]
pub struct ExThreadRng(rand::ThreadRng);

/// `rand::thread_rng`: hands out the calling thread's generator, which the
/// system seeds. Nothing is claimed of it. Where the system has no entropy to
/// give, the call does not return.
pub assume_specification[ rand::thread_rng ]() -> (rng: rand::ThreadRng);

/// `rand::Rng::shuffle` on the ten digits: the function only exchanges entries
/// of the slice, so what it leaves holds the same values as often as before.
/// Which arrangement comes out is left open.
#[verifier::external_body]
fn shuffle(rng: &mut rand::ThreadRng, values: &mut [u8; 10])
    ensures
        final(values)@.to_multiset() == old(values)@.to_multiset(),
{
    rand::Rng::shuffle(rng, values);
}

/// The ten digits in rising order.
pub open spec fn all_digits() -> Seq<u8> {
    Seq::new(10, |i: int| i as u8)
}

/// Some arrangement of the ten digits.
pub open spec fn is_arrangement(s: Seq<u8>) -> bool {
    s.to_multiset() == all_digits().to_multiset()
}

/// In an arrangement of the ten digits every entry is a digit and no two
/// entries are the same.
pub proof fn lemma_arrangement(s: Seq<u8>)
    requires
        is_arrangement(s),
    ensures
        s.len() == 10,
        s.no_duplicates(),
        forall|i: int| 0 <= i < 10 ==> s[i] <= 9,
{
    let all = all_digits();
    s.to_multiset_ensures();
    all.to_multiset_ensures();
    assert(all.no_duplicates());
    all.lemma_multiset_has_no_duplicates();
    s.lemma_multiset_has_no_duplicates_conv();
    assert forall|i: int| 0 <= i < 10 implies s[i] <= 9 by {
        assert(s.to_multiset().count(s[i]) > 0) by {
            assert(s.contains(s[i]));
        }
        assert(all.contains(s[i]));
    }
}

/// The first four entries of the ten. Of an arrangement of the ten digits they
/// are four pairwise different digits.
pub fn leading_four(shuffled: &[u8; 10]) -> (code: [u8; 4])
    ensures
        code@ == shuffled@.take(4),
        is_arrangement(shuffled@) ==> is_secret_code(code@),
{
    let code: [u8; 4] = [shuffled[0], shuffled[1], shuffled[2], shuffled[3]];
    proof {
        assert(code@ =~= shuffled@.take(4));
        if is_arrangement(shuffled@) {
            lemma_arrangement(shuffled@);
            assert(is_code(code@));
            assert(distinct(code@));
        }
    }
    code
}

/// Draws a hidden number: four pairwise different digits, in an order left to chance.
pub fn generate_secret() -> (code: [u8; 4])
    ensures
        is_secret_code(code@),
{
    let mut rng = rand::thread_rng();
    let mut digits: [u8; 10] = [0, 1, 2, 3, 4, 5, 6, 7, 8, 9];
    assert(digits@ =~= all_digits());
    shuffle(&mut rng, &mut digits);
    leading_four(&digits)
}

} // verus!
