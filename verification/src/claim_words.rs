//! The public inputs of a savings proof.
use crate::bytes::{be_value, law_encoding_is_exact, word_of, Bytes32};
use vstd::arithmetic::power::{lemma_pow_increases, pow};
use vstd::prelude::*;

verus! {

/// What a savings proof shows the verifier: the least weekly amount, the number
/// of weeks, then every commitment and every nullifier, in the order of the
/// circuit.
pub open spec fn savings_words(
    min_weekly_amount: nat,
    weeks: nat,
    commitments: Seq<Bytes32>,
    nullifiers: Seq<Bytes32>,
) -> Seq<Bytes32> {
    seq![word_of(min_weekly_amount), word_of(weeks)] + commitments + nullifiers
}

/// Lists the public inputs of a savings proof.
pub fn savings_inputs(
    min_weekly_amount: Bytes32,
    weeks: Bytes32,
    commitments: &Vec<Bytes32>,
    nullifiers: &Vec<Bytes32>,
) -> (r: Vec<Bytes32>)
    ensures
        r@ == seq![min_weekly_amount, weeks] + commitments@ + nullifiers@,
{
    let mut words: Vec<Bytes32> = Vec::new();
    words.push(min_weekly_amount);
    words.push(weeks);
    append_words(&mut words, commitments);
    append_words(&mut words, nullifiers);
    words
}

fn append_words(out: &mut Vec<Bytes32>, words: &Vec<Bytes32>)
    ensures
        final(out)@ == old(out)@ + words@,
{
    let mut i: usize = 0;
    while i < words.len()
        invariant
            i <= words@.len(),
            out@ == old(out)@ + words@.subrange(0, i as int),
        decreases words@.len() - i,
    {
        out.push(words[i]);
        i += 1;
        assert(words@.subrange(0, i as int) =~= words@.subrange(0, i - 1).push(words@[i - 1]));
    }
    assert(words@.subrange(0, i as int) =~= words@);
}

/// Where each thing stands in the public inputs: the least weekly amount is word 0, the
/// number of weeks word 1, commitment number `i` word `2 + i` and nullifier number `i`
/// word `2 + n + i`.
pub proof fn law_words_stand_in_circuit_order(
    min_weekly_amount: u64,
    weeks: u32,
    commitments: Seq<Bytes32>,
    nullifiers: Seq<Bytes32>,
    i: int,
)
    ensures
        ({
            let words = savings_words(
                min_weekly_amount as nat,
                weeks as nat,
                commitments,
                nullifiers,
            );
            let n = commitments.len();
            &&& words.len() == 2 + n + nullifiers.len()
            &&& be_value(words[0]@) == min_weekly_amount
            &&& be_value(words[1]@) == weeks
            &&& 0 <= i < n ==> words[2 + i] == commitments[i]
            &&& 0 <= i < nullifiers.len() ==> words[2 + n + i] == nullifiers[i]
        }),
{
    lemma_fits(min_weekly_amount);
    lemma_fits(weeks as u64);
}

/// A proof over `n` deposits has `2 + 2n` public inputs.
pub proof fn law_two_inputs_for_each_deposit(
    min_weekly_amount: nat,
    weeks: nat,
    commitments: Seq<Bytes32>,
    nullifiers: Seq<Bytes32>,
)
    requires
        commitments.len() == nullifiers.len(),
    ensures
        savings_words(min_weekly_amount, weeks, commitments, nullifiers).len() == 2 + 2
            * commitments.len(),
{
}

/// The public inputs say what the claim is: claims that differ in the amount, in
/// the number of weeks, in a commitment or in a nullifier show the verifier
/// different words.
pub proof fn law_words_determine_the_claim(
    amount_a: u64,
    weeks_a: u32,
    commitments_a: Seq<Bytes32>,
    nullifiers_a: Seq<Bytes32>,
    amount_b: u64,
    weeks_b: u32,
    commitments_b: Seq<Bytes32>,
    nullifiers_b: Seq<Bytes32>,
)
    requires
        commitments_a.len() == nullifiers_a.len(),
        commitments_b.len() == nullifiers_b.len(),
        savings_words(amount_a as nat, weeks_a as nat, commitments_a, nullifiers_a)
            == savings_words(amount_b as nat, weeks_b as nat, commitments_b, nullifiers_b),
    ensures
        amount_a == amount_b,
        weeks_a == weeks_b,
        commitments_a == commitments_b,
        nullifiers_a == nullifiers_b,
{
    let a = savings_words(amount_a as nat, weeks_a as nat, commitments_a, nullifiers_a);
    let b = savings_words(amount_b as nat, weeks_b as nat, commitments_b, nullifiers_b);
    let n = commitments_a.len() as int;
    assert(a.len() == b.len());
    assert(a[0] == word_of(amount_a as nat) && b[0] == word_of(amount_b as nat));
    assert(a[1] == word_of(weeks_a as nat) && b[1] == word_of(weeks_b as nat));
    lemma_fits(amount_a);
    lemma_fits(amount_b);
    lemma_fits(weeks_a as u64);
    lemma_fits(weeks_b as u64);
    assert(commitments_a =~= a.subrange(2, 2 + n));
    assert(commitments_b =~= b.subrange(2, 2 + n));
    assert(nullifiers_a =~= a.subrange(2 + n, 2 + 2 * n));
    assert(nullifiers_b =~= b.subrange(2 + n, 2 + 2 * n));
}

proof fn lemma_fits(v: u64)
    ensures
        be_value(word_of(v as nat)@) == v,
{
    reveal(pow);
    assert(pow(256, 8) == 0x1_0000_0000_0000_0000) by {
        reveal_with_fuel(pow, 9);
    }
    lemma_pow_increases(256, 8, 32);
    law_encoding_is_exact(v as nat);
}

} // verus!
