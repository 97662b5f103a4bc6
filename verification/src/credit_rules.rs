//! What the credit contract accepts, counts and records, in numbers.
use crate::address::Address;
use crate::bytes::{be_value, Bytes32};
use crate::claim_words::law_words_stand_in_circuit_order;
use crate::credit_laws::law_weeks_are_active_or_withdrawn;
use crate::zava_credit::{
    active_count, claim_fault, deposits_fault, has_duplicate, loan_for, range_label, record_for,
    spent_count, tier_for, valid_record, weekly_bound, CreditClaim, CreditError, CreditRecord,
    CreditTier, SavingsRange, VaultInterface,
};
use vstd::prelude::*;

verus! {

// ---------------------------------------------------------------------------
// The formula
// ---------------------------------------------------------------------------

/// Fewer than 8 active weeks give no tier, 8 to 11 the Medium one, 12 to 23 the Low one and
/// 24 or more the VeryLow one.
pub proof fn law_tiers_by_weeks(weeks: int)
    ensures
        tier_for(weeks) == CreditTier::NoTier <==> weeks < 8,
        tier_for(weeks) == CreditTier::Medium <==> 8 <= weeks < 12,
        tier_for(weeks) == CreditTier::Low <==> 12 <= weeks < 24,
        tier_for(weeks) == CreditTier::VeryLow <==> weeks >= 24,
{
}

/// The loan is the proved savings twice, four times or six times over, by the tier, and
/// nothing without one.
pub proof fn law_loan_formula(weeks: int, bound: int)
    ensures
        loan_for(weeks, bound, CreditTier::NoTier) == 0,
        loan_for(weeks, bound, CreditTier::Medium) == 2 * (weeks * bound),
        loan_for(weeks, bound, CreditTier::Low) == 4 * (weeks * bound),
        loan_for(weeks, bound, CreditTier::VeryLow) == 6 * (weeks * bound),
{
    let proved = weeks * bound;
    assert(proved * 0 == 0);
    assert(proved * 2 == 2 * proved);
    assert(proved * 4 == 4 * proved);
    assert(proved * 6 == 6 * proved);
}

/// The weekly bound of each range in stroops, of which ten million make one XLM, and the
/// number that it is shown by.
pub proof fn law_bounds_and_labels(range: SavingsRange)
    ensures
        weekly_bound(range) == (match range {
            SavingsRange::R5 => 500_000_000int,
            SavingsRange::R20 => 2_000_000_000int,
            SavingsRange::R50 => 5_000_000_000int,
            SavingsRange::R200 => 20_000_000_000int,
            SavingsRange::R500 => 50_000_000_000int,
        }),
        range_label(range) * 100_000_000 == weekly_bound(range),
{
}

// ---------------------------------------------------------------------------
// Counting
// ---------------------------------------------------------------------------

/// The active weeks are as many as there are claimed nullifiers that the vault has not seen
/// spent, the withdrawn ones as many as it has.
pub proof fn law_weeks_are_counted_by_nullifier<V: VaultInterface>(
    vault: V,
    nullifiers: Seq<Bytes32>,
)
    ensures
        active_count(vault, nullifiers) == nullifiers.filter(|n: Bytes32| !vault.spent(n)).len(),
        spent_count(vault, nullifiers) == nullifiers.filter(|n: Bytes32| vault.spent(n)).len(),
    decreases nullifiers.len(),
{
    reveal(Seq::filter);
    if nullifiers.len() > 0 {
        law_weeks_are_counted_by_nullifier(vault, nullifiers.drop_last());
    }
}

/// The first claimed deposit that is not in order decides how the claim is turned down: by
/// its commitment where the vault does not hold that, else by its binding. Deposits that
/// are all in order are accepted.
pub proof fn law_first_bad_deposit_decides<V: VaultInterface>(
    vault: V,
    commitments: Seq<Bytes32>,
    nullifiers: Seq<Bytes32>,
    n: nat,
    k: int,
)
    requires
        0 <= k <= n,
        forall|i: int|
            0 <= i < k ==> vault.holds(#[trigger] commitments[i]) && vault.pairs(
                commitments[i],
                nullifiers[i],
            ),
    ensures
        k == n ==> deposits_fault(vault, commitments, nullifiers, n) is None,
        k < n && !vault.holds(commitments[k]) ==> deposits_fault(vault, commitments, nullifiers, n)
            == Some(CreditError::CommitmentNotInVault),
        k < n && vault.holds(commitments[k]) && !vault.pairs(commitments[k], nullifiers[k])
            ==> deposits_fault(vault, commitments, nullifiers, n) == Some(
            CreditError::BindingMismatch,
        ),
    decreases n,
{
    if n > 0 {
        let last = n - 1;
        if k <= last {
            law_first_bad_deposit_decides(vault, commitments, nullifiers, last as nat, k);
        } else {
            law_first_bad_deposit_decides(vault, commitments, nullifiers, last as nat, last);
            assert(vault.holds(commitments[last]));
        }
    }
}

// ---------------------------------------------------------------------------
// Claims
// ---------------------------------------------------------------------------

/// Each error of a claim with the inputs on which it comes, for a claim whose first `k`
/// deposits are in order and whose next one, if there is one, is not.
pub proof fn law_each_error_of_a_claim<V: VaultInterface>(
    linked: bool,
    claim: CreditClaim,
    vault: V,
    proof_ok: bool,
    k: int,
)
    requires
        0 <= k <= claim.commitments@.len(),
        forall|i: int|
            0 <= i < k ==> vault.holds(#[trigger] claim.commitments@[i]) && vault.pairs(
                claim.commitments@[i],
                claim.nullifiers@[i],
            ),
        k < claim.commitments@.len() ==> !(vault.holds(claim.commitments@[k]) && vault.pairs(
            claim.commitments@[k],
            claim.nullifiers@[k],
        )),
    ensures
        ({
            let f = claim_fault(linked, claim, vault, proof_ok);
            let n = claim.commitments@.len();
            let nullifiers = claim.nullifiers@;
            let fits = nullifiers.len() == n && claim.weeks@.len() == n;
            let distinct = forall|i: int, j: int|
                0 <= i < j < nullifiers.len() ==> #[trigger] nullifiers[i]
                    != #[trigger] nullifiers[j];
            let shaped = linked && n > 0 && fits && distinct;
            let active = nullifiers.filter(|x: Bytes32| !vault.spent(x)).len();
            &&& f == Some(CreditError::NotInitialized) <==> !linked
            &&& f == Some(CreditError::EmptyClaim) <==> linked && n == 0
            &&& f == Some(CreditError::LengthMismatch) <==> linked && n > 0 && !fits
            &&& f == Some(CreditError::DuplicateNullifier) <==> linked && n > 0 && fits && !distinct
            &&& f == Some(CreditError::ProofInvalid) <==> shaped && !proof_ok
            &&& f == Some(CreditError::CommitmentNotInVault) <==> shaped && proof_ok && k < n
                && !vault.holds(claim.commitments@[k])
            &&& f == Some(CreditError::BindingMismatch) <==> shaped && proof_ok && k < n
                && vault.holds(claim.commitments@[k])
            &&& f == Some(CreditError::NotEnoughActiveWeeks) <==> shaped && proof_ok && k == n
                && active < 8
            &&& f is None <==> shaped && proof_ok && k == n && active >= 8
        }),
{
    let nullifiers = claim.nullifiers@;
    let distinct = forall|i: int, j: int|
        0 <= i < j < nullifiers.len() ==> #[trigger] nullifiers[i] != #[trigger] nullifiers[j];
    assert(distinct == !has_duplicate(nullifiers));
    law_first_bad_deposit_decides(
        vault,
        claim.commitments@,
        nullifiers,
        claim.commitments@.len(),
        k,
    );
    law_weeks_are_counted_by_nullifier(vault, nullifiers);
}

/// Of what the verifier is shown, word 0 is the weekly bound of the range, word 1 the
/// number of commitments, word `2 + i` commitment number `i` and word `2 + n + i`
/// nullifier number `i`.
pub proof fn law_verifier_is_shown_the_claim_in_circuit_order(claim: CreditClaim, i: int)
    requires
        claim.commitments@.len() <= u32::MAX,
    ensures
        ({
            let words = claim.words();
            let n = claim.commitments@.len();
            &&& words.len() == 2 + n + claim.nullifiers@.len()
            &&& be_value(words[0]@) == weekly_bound(claim.savings_range)
            &&& be_value(words[1]@) == n
            &&& 0 <= i < n ==> words[2 + i] == claim.commitments@[i]
            &&& 0 <= i < claim.nullifiers@.len() ==> words[2 + n + i] == claim.nullifiers@[i]
        }),
{
    law_words_stand_in_circuit_order(
        weekly_bound(claim.savings_range) as u64,
        claim.commitments@.len() as u32,
        claim.commitments@,
        claim.nullifiers@,
        i,
    );
}

/// What a record says: the wallet, the range, the time of the claim and an expiry 7,776,000
/// seconds later, how many claimed nullifiers are unspent and how many spent, the tier of
/// the unspent ones, and the loan for them.
pub proof fn law_record_says_what_was_claimed<V: VaultInterface>(
    wallet: Address,
    claim: CreditClaim,
    vault: V,
    now: u64,
)
    requires
        now + 7_776_000 <= u64::MAX,
        claim.nullifiers@.len() <= u32::MAX,
    ensures
        ({
            let record = record_for(wallet, claim, vault, now);
            let active = claim.nullifiers@.filter(|x: Bytes32| !vault.spent(x)).len();
            let factor: int = if active >= 24 {
                6
            } else if active >= 12 {
                4
            } else if active >= 8 {
                2
            } else {
                0
            };
            &&& record.wallet == wallet
            &&& record.savings_range == claim.savings_range
            &&& record.verified_at == now
            &&& record.expires_at == now + 7_776_000
            &&& record.active_weeks == active
            &&& record.withdrawn_weeks == claim.nullifiers@.filter(
                |x: Bytes32| vault.spent(x),
            ).len()
            &&& record.tier == CreditTier::NoTier <==> active < 8
            &&& record.tier == CreditTier::Medium <==> 8 <= active < 12
            &&& record.tier == CreditTier::Low <==> 12 <= active < 24
            &&& record.tier == CreditTier::VeryLow <==> active >= 24
            &&& record.loan_eligible_stroops == factor * (active * weekly_bound(
                claim.savings_range,
            ))
        }),
{
    let nullifiers = claim.nullifiers@;
    law_weeks_are_counted_by_nullifier(vault, nullifiers);
    law_weeks_are_active_or_withdrawn(vault, nullifiers);
    let active = active_count(vault, nullifiers) as int;
    let bound = weekly_bound(claim.savings_range);
    law_loan_formula(active, bound);
    assert(0 <= active * bound <= 0xffff_ffff * 50_000_000_000) by (nonlinear_arith)
        requires
            0 <= active <= 0xffff_ffff,
            0 <= bound <= 50_000_000_000,
    ;
}

/// A wallet's record is shown as it is stored up to and at its expiry, and not later.
pub proof fn law_records_are_shown_until_they_expire(
    records: Map<Address, CreditRecord>,
    wallet: Address,
    now: u64,
)
    ensures
        !records.contains_key(wallet) ==> valid_record(records, wallet, now) is None,
        records.contains_key(wallet) && now <= records[wallet].expires_at ==> valid_record(
            records,
            wallet,
            now,
        ) == Some(records[wallet]),
        records.contains_key(wallet) && now > records[wallet].expires_at ==> valid_record(
            records,
            wallet,
            now,
        ) is None,
{
}

/// The number that each error is reported by.
pub proof fn law_credit_error_numbers(e: CreditError)
    ensures
        1 <= e.number() <= 9,
        e == CreditError::AlreadyInitialized <==> e.number() == 1,
        e == CreditError::NotInitialized <==> e.number() == 2,
        e == CreditError::LengthMismatch <==> e.number() == 3,
        e == CreditError::EmptyClaim <==> e.number() == 4,
        e == CreditError::DuplicateNullifier <==> e.number() == 5,
        e == CreditError::ProofInvalid <==> e.number() == 6,
        e == CreditError::CommitmentNotInVault <==> e.number() == 7,
        e == CreditError::BindingMismatch <==> e.number() == 8,
        e == CreditError::NotEnoughActiveWeeks <==> e.number() == 9,
{
}

} // verus!
