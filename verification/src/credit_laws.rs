//! What holds of the scores that the credit contract gives.
use crate::address::Address;
use crate::bytes::Bytes32;
use crate::vault_laws::{
    deposits_pair_at, law_deposits_are_bound_by_their_deposit, law_spent_stays_spent, run,
    VaultCall,
};
use crate::zava_credit::{
    active_count, claim_fault, deposits_fault, has_duplicate, loan_factor, loan_for, range_xlm,
    record_for, spent_count, tier_for, valid_record, weekly_bound, CreditClaim, CreditRecord,
    CreditError, CreditTier, SavingsRange, VaultInterface, CREDIT_TTL_SECS, MEDIUM_THRESHOLD,
};
use crate::zava_vault::{binding_of, VaultState, WithdrawPublicInputs, ZavaVault};
use vstd::prelude::*;

verus! {

// ---------------------------------------------------------------------------
// The formula
// ---------------------------------------------------------------------------

/// More active weeks never give a lower tier.
pub proof fn law_tier_grows_with_weeks(fewer: int, more: int)
    requires
        fewer <= more,
    ensures
        loan_factor(tier_for(fewer)) <= loan_factor(tier_for(more)),
        tier_for(more) is NoTier ==> tier_for(fewer) is NoTier,
{
}

/// A longer history gives no smaller loan, and from the least number of weeks on
/// a larger one.
pub proof fn law_loan_grows_with_weeks(fewer: int, more: int, bound: int)
    requires
        0 <= fewer <= more,
        0 <= bound,
    ensures
        loan_for(fewer, bound, tier_for(fewer)) <= loan_for(more, bound, tier_for(more)),
        fewer < more && MEDIUM_THRESHOLD <= more && 0 < bound ==> loan_for(
            fewer,
            bound,
            tier_for(fewer),
        ) < loan_for(more, bound, tier_for(more)),
{
    let f = loan_factor(tier_for(fewer));
    let g = loan_factor(tier_for(more));
    law_tier_grows_with_weeks(fewer, more);
    assert(fewer * bound * f <= more * bound * g) by (nonlinear_arith)
        requires
            0 <= fewer <= more,
            0 <= bound,
            0 <= f <= g,
    ;
    if fewer < more && MEDIUM_THRESHOLD <= more && 0 < bound {
        assert(fewer * bound * f < more * bound * g) by (nonlinear_arith)
            requires
                0 <= fewer < more,
                0 < bound,
                0 <= f <= g,
                0 < g,
        ;
    }
}

/// A higher range gives a larger loan for the same weeks.
pub proof fn law_loan_grows_with_range(weeks: int, lower: SavingsRange, higher: SavingsRange)
    requires
        MEDIUM_THRESHOLD <= weeks,
        range_xlm(lower) < range_xlm(higher),
    ensures
        loan_for(weeks, weekly_bound(lower), tier_for(weeks)) < loan_for(
            weeks,
            weekly_bound(higher),
            tier_for(weeks),
        ),
{
    let a = weekly_bound(lower);
    let b = weekly_bound(higher);
    let f = loan_factor(tier_for(weeks));
    assert(weeks * a * f < weeks * b * f) by (nonlinear_arith)
        requires
            0 < weeks,
            a < b,
            0 < f,
    ;
}

/// Within a tier every further week adds the same amount.
pub proof fn law_loan_is_linear_within_a_tier(weeks: int, bound: int, tier: CreditTier)
    ensures
        loan_for(weeks + 1, bound, tier) == loan_for(weeks, bound, tier) + bound * loan_factor(
            tier,
        ),
{
    let f = loan_factor(tier);
    assert((weeks + 1) * bound * f == weeks * bound * f + bound * f) by (nonlinear_arith);
}

// ---------------------------------------------------------------------------
// Counting
// ---------------------------------------------------------------------------

/// Every claimed week is either active or withdrawn.
pub proof fn law_weeks_are_active_or_withdrawn<V: VaultInterface>(
    vault: V,
    nullifiers: Seq<Bytes32>,
)
    ensures
        active_count(vault, nullifiers) + spent_count(vault, nullifiers) == nullifiers.len(),
    decreases nullifiers.len(),
{
    if nullifiers.len() > 0 {
        law_weeks_are_active_or_withdrawn(vault, nullifiers.drop_last());
    }
}

/// Spending deposits never raises a score: where everything that was spent stays
/// spent, the active weeks, the tier and the loan do not go up.
pub proof fn law_spending_never_raises_the_score<V: VaultInterface, W: VaultInterface>(
    before: V,
    after: W,
    nullifiers: Seq<Bytes32>,
    range: SavingsRange,
)
    requires
        forall|n: Bytes32| before.spent(n) ==> #[trigger] after.spent(n),
    ensures
        ({
            let more = active_count(before, nullifiers) as int;
            let fewer = active_count(after, nullifiers) as int;
            &&& fewer <= more
            &&& loan_factor(tier_for(fewer)) <= loan_factor(tier_for(more))
            &&& loan_for(fewer, weekly_bound(range), tier_for(fewer)) <= loan_for(
                more,
                weekly_bound(range),
                tier_for(more),
            )
        }),
{
    lemma_active_shrinks(before, after, nullifiers);
    law_loan_grows_with_weeks(
        active_count(after, nullifiers) as int,
        active_count(before, nullifiers) as int,
        weekly_bound(range),
    );
    law_tier_grows_with_weeks(
        active_count(after, nullifiers) as int,
        active_count(before, nullifiers) as int,
    );
}

proof fn lemma_active_shrinks<V: VaultInterface, W: VaultInterface>(
    before: V,
    after: W,
    nullifiers: Seq<Bytes32>,
)
    requires
        forall|n: Bytes32| before.spent(n) ==> #[trigger] after.spent(n),
    ensures
        active_count(after, nullifiers) <= active_count(before, nullifiers),
    decreases nullifiers.len(),
{
    if nullifiers.len() > 0 {
        lemma_active_shrinks(before, after, nullifiers.drop_last());
        let n = nullifiers.last();
        assert(before.spent(n) ==> after.spent(n));
    }
}

/// Where a nullifier of the list is spent afterwards that was not before, there are
/// fewer active weeks.
proof fn lemma_active_shrinks_strictly<V: VaultInterface, W: VaultInterface>(
    before: V,
    after: W,
    nullifiers: Seq<Bytes32>,
    k: int,
)
    requires
        forall|n: Bytes32| before.spent(n) ==> #[trigger] after.spent(n),
        0 <= k < nullifiers.len(),
        !before.spent(nullifiers[k]),
        after.spent(nullifiers[k]),
    ensures
        active_count(after, nullifiers) < active_count(before, nullifiers),
    decreases nullifiers.len(),
{
    let rest = nullifiers.drop_last();
    if k == nullifiers.len() - 1 {
        lemma_active_shrinks(before, after, rest);
    } else {
        lemma_active_shrinks_strictly(before, after, rest, k);
        let n = nullifiers.last();
        assert(before.spent(n) ==> after.spent(n));
    }
}

/// The score is net: of two vaults that hold the same deposits under the same
/// bindings and where the second has seen more of them spent, the second never gives
/// the same claim more weeks or a larger loan, and a smaller one as soon as one more
/// claimed nullifier is spent. Active and withdrawn weeks add up to the same number,
/// and a claim with too few active weeks in the first has too few in the second.
pub proof fn law_score_is_net_of_withdrawals<V: VaultInterface, W: VaultInterface>(
    before: V,
    after: W,
    claim: CreditClaim,
    wallet: Address,
    now: u64,
)
    requires
        forall|c: Bytes32| before.holds(c) == #[trigger] after.holds(c),
        forall|c: Bytes32, n: Bytes32| before.pairs(c, n) == #[trigger] after.pairs(c, n),
        forall|n: Bytes32| before.spent(n) ==> #[trigger] after.spent(n),
        claim.commitments@.len() <= u32::MAX,
    ensures
        claim_fault(true, claim, after, true) is None ==> claim_fault(
            true,
            claim,
            before,
            true,
        ) is None,
        claim_fault(true, claim, before, true) == Some(CreditError::NotEnoughActiveWeeks)
            ==> claim_fault(true, claim, after, true) == Some(CreditError::NotEnoughActiveWeeks),
        claim_fault(true, claim, after, true) is None ==> {
            let first = record_for(wallet, claim, before, now);
            let second = record_for(wallet, claim, after, now);
            &&& second.active_weeks <= first.active_weeks
            &&& loan_factor(second.tier) <= loan_factor(first.tier)
            &&& second.loan_eligible_stroops <= first.loan_eligible_stroops
            &&& second.active_weeks + second.withdrawn_weeks == first.active_weeks
                + first.withdrawn_weeks
            &&& (exists|k: int|
                0 <= k < claim.nullifiers@.len() && !before.spent(#[trigger] claim.nullifiers@[k])
                    && after.spent(claim.nullifiers@[k])) ==> second.active_weeks
                < first.active_weeks && second.loan_eligible_stroops < first.loan_eligible_stroops
        },
{
    let n = claim.commitments@.len();
    let nullifiers = claim.nullifiers@;
    let bound = weekly_bound(claim.savings_range);
    lemma_deposits_fault_agrees(before, after, claim.commitments@, nullifiers, n);
    lemma_active_shrinks(before, after, nullifiers);
    law_weeks_are_active_or_withdrawn(before, nullifiers);
    law_weeks_are_active_or_withdrawn(after, nullifiers);
    let more = active_count(before, nullifiers) as int;
    let fewer = active_count(after, nullifiers) as int;
    law_tier_grows_with_weeks(fewer, more);
    law_loan_grows_with_weeks(fewer, more, bound);
    if claim_fault(true, claim, after, true) is None {
        lemma_loan_fits(more, claim.savings_range);
        lemma_loan_fits(fewer, claim.savings_range);
        if exists|k: int|
            0 <= k < nullifiers.len() && !before.spent(#[trigger] nullifiers[k]) && after.spent(
                nullifiers[k],
            ) {
            let k = choose|k: int|
                0 <= k < nullifiers.len() && !before.spent(#[trigger] nullifiers[k])
                    && after.spent(nullifiers[k]);
            lemma_active_shrinks_strictly(before, after, nullifiers, k);
        }
    }
}

/// What a loan for a number of weeks that fits in 32 bits comes to fits in 128 bits.
proof fn lemma_loan_fits(weeks: int, range: SavingsRange)
    requires
        0 <= weeks <= u32::MAX,
    ensures
        0 <= loan_for(weeks, weekly_bound(range), tier_for(weeks)) <= i128::MAX,
{
    let b = weekly_bound(range);
    let f = loan_factor(tier_for(weeks));
    assert(0 <= weeks * b * f <= 0xffff_ffff * 50_000_000_000 * 6) by (nonlinear_arith)
        requires
            0 <= weeks <= 0xffff_ffff,
            0 <= b <= 50_000_000_000,
            0 <= f <= 6,
    ;
}

proof fn lemma_deposits_fault_agrees<V: VaultInterface, W: VaultInterface>(
    before: V,
    after: W,
    commitments: Seq<Bytes32>,
    nullifiers: Seq<Bytes32>,
    n: nat,
)
    requires
        forall|c: Bytes32| before.holds(c) == #[trigger] after.holds(c),
        forall|c: Bytes32, m: Bytes32| before.pairs(c, m) == #[trigger] after.pairs(c, m),
    ensures
        deposits_fault(before, commitments, nullifiers, n) == deposits_fault(
            after,
            commitments,
            nullifiers,
            n,
        ),
    decreases n,
{
    if n > 0 {
        lemma_deposits_fault_agrees(before, after, commitments, nullifiers, (n - 1) as nat);
        let c = commitments[n - 1];
        let m = nullifiers[n - 1];
        assert(before.holds(c) == after.holds(c));
        assert(before.pairs(c, m) == after.pairs(c, m));
    }
}

/// A claim that goes through is worth no more later: whatever is called on the vault
/// in between, the same claim is then turned down or gives no more weeks, no higher
/// tier and no larger loan.
pub proof fn law_granted_claim_is_worth_no_more_later(
    before: ZavaVault,
    after: ZavaVault,
    calls: Seq<VaultCall>,
    claim: CreditClaim,
    wallet: Address,
    now: u64,
    later: u64,
    later_ok: bool,
)
    requires
        after@ == run(before@, calls),
        claim.commitments@.len() <= u32::MAX,
        claim_fault(true, claim, before, true) is None,
    ensures
        claim_fault(true, claim, after, later_ok) is None ==> {
            let first = record_for(wallet, claim, before, now);
            let second = record_for(wallet, claim, after, later);
            &&& second.active_weeks <= first.active_weeks
            &&& loan_factor(second.tier) <= loan_factor(first.tier)
            &&& second.loan_eligible_stroops <= first.loan_eligible_stroops
        },
{
    let nullifiers = claim.nullifiers@;
    assert forall|n: Bytes32| before.spent(n) implies #[trigger] after.spent(n) by {
        law_spent_stays_spent(before@, calls, n);
    }
    law_spending_never_raises_the_score(before, after, nullifiers, claim.savings_range);
    law_weeks_are_active_or_withdrawn(before, nullifiers);
    law_weeks_are_active_or_withdrawn(after, nullifiers);
    lemma_loan_fits(active_count(before, nullifiers) as int, claim.savings_range);
    lemma_loan_fits(active_count(after, nullifiers) as int, claim.savings_range);
}

proof fn lemma_counts_agree(
    before: ZavaVault,
    after: ZavaVault,
    nullifiers: Seq<Bytes32>,
    nullifier: Bytes32,
)
    requires
        forall|n: Bytes32| n != nullifier ==> #[trigger] after.spent(n) == before.spent(n),
        !nullifiers.contains(nullifier),
    ensures
        active_count(after, nullifiers) == active_count(before, nullifiers),
        spent_count(after, nullifiers) == spent_count(before, nullifiers),
    decreases nullifiers.len(),
{
    if nullifiers.len() > 0 {
        let rest = nullifiers.drop_last();
        assert(nullifiers.contains(nullifiers.last()));
        assert forall|n: Bytes32| rest.contains(n) implies nullifiers.contains(n) by {
            let i = choose|i: int| 0 <= i < rest.len() && rest[i] == n;
            assert(nullifiers[i] == n);
        }
        lemma_counts_agree(before, after, rest, nullifier);
        assert(after.spent(nullifiers.last()) == before.spent(nullifiers.last()));
    }
}

/// Withdrawing a claimed deposit moves exactly one week from the active to the
/// withdrawn ones.
pub proof fn law_withdrawing_costs_one_week(
    before: ZavaVault,
    after: ZavaVault,
    inputs: WithdrawPublicInputs,
    amount: i128,
    nullifiers: Seq<Bytes32>,
    k: int,
)
    requires
        after@ == before@.withdrawn(inputs, amount),
        !before@.is_spent(inputs.nullifier),
        !has_duplicate(nullifiers),
        0 <= k < nullifiers.len(),
        nullifiers[k] == inputs.nullifier,
    ensures
        active_count(after, nullifiers) == active_count(before, nullifiers) - 1,
        spent_count(after, nullifiers) == spent_count(before, nullifiers) + 1,
    decreases nullifiers.len(),
{
    let nullifier = inputs.nullifier;
    assert forall|n: Bytes32| n != nullifier implies #[trigger] after.spent(n) == before.spent(
        n,
    ) by {}
    assert(after.spent(nullifier));
    let rest = nullifiers.drop_last();
    let last = nullifiers.len() - 1;
    if k == last {
        assert(!rest.contains(nullifier)) by {
            if rest.contains(nullifier) {
                let i = choose|i: int| 0 <= i < rest.len() && rest[i] == nullifier;
                assert(nullifiers[i] == nullifiers[k]);
            }
        }
        lemma_counts_agree(before, after, rest, nullifier);
    } else {
        assert(nullifiers[k] != nullifiers[last]);
        assert(!has_duplicate(rest)) by {
            if has_duplicate(rest) {
                let (i, j) = choose|i: int, j: int|
                    0 <= i < j < rest.len() && #[trigger] rest[i] == #[trigger] rest[j];
                assert(nullifiers[i] == nullifiers[j]);
            }
        }
        law_withdrawing_costs_one_week(before, after, inputs, amount, rest, k);
        assert(after.spent(nullifiers.last()) == before.spent(nullifiers.last()));
    }
}

/// A deposit that was just made counts: the vault holds its commitment, pairs it
/// with its nullifier and has not seen that nullifier spent.
pub proof fn law_fresh_deposit_counts(
    before: ZavaVault,
    after: ZavaVault,
    commitment: Bytes32,
    nullifier: Bytes32,
    amount: i128,
)
    requires
        after@ == before@.deposited(commitment, nullifier, amount),
        !before@.is_spent(nullifier),
    ensures
        after.holds(commitment),
        after.pairs(commitment, nullifier),
        !after.spent(nullifier),
{
}

// ---------------------------------------------------------------------------
// Claims
// ---------------------------------------------------------------------------

proof fn lemma_deposits_fault<V: VaultInterface>(
    vault: V,
    commitments: Seq<Bytes32>,
    nullifiers: Seq<Bytes32>,
    n: nat,
)
    ensures
        deposits_fault(vault, commitments, nullifiers, n) is None <==> forall|i: int|
            0 <= i < n ==> vault.holds(#[trigger] commitments[i]) && vault.pairs(
                commitments[i],
                nullifiers[i],
            ),
    decreases n,
{
    if n > 0 {
        let m = (n - 1) as nat;
        lemma_deposits_fault(vault, commitments, nullifiers, m);
        if deposits_fault(vault, commitments, nullifiers, n) is None {
            assert forall|i: int| 0 <= i < n implies vault.holds(#[trigger] commitments[i])
                && vault.pairs(commitments[i], nullifiers[i]) by {
                if i == n - 1 {
                    assert(i == m);
                }
            }
        } else if deposits_fault(vault, commitments, nullifiers, m) is None {
            assert(!(vault.holds(commitments[n - 1]) && vault.pairs(
                commitments[n - 1],
                nullifiers[n - 1],
            )));
        }
    }
}

/// A claim goes through exactly when the contract is linked, the lists are of one
/// length and not empty, no nullifier occurs twice, the proof is valid, every
/// commitment is in the vault and bound to the claimed nullifier, and enough of them
/// are still locked.
pub proof fn law_claim_goes_through_exactly_when_backed<V: VaultInterface>(
    linked: bool,
    claim: CreditClaim,
    vault: V,
    proof_ok: bool,
)
    ensures
        claim_fault(linked, claim, vault, proof_ok) is None <==> {
            &&& linked
            &&& 0 < claim.commitments@.len()
            &&& claim.nullifiers@.len() == claim.commitments@.len()
            &&& claim.weeks@.len() == claim.commitments@.len()
            &&& !has_duplicate(claim.nullifiers@)
            &&& proof_ok
            &&& forall|i: int|
                0 <= i < claim.commitments@.len() ==> vault.holds(#[trigger] claim.commitments@[i])
                    && vault.pairs(claim.commitments@[i], claim.nullifiers@[i])
            &&& active_count(vault, claim.nullifiers@) >= MEDIUM_THRESHOLD
        },
{
    lemma_deposits_fault(
        vault,
        claim.commitments@,
        claim.nullifiers@,
        claim.commitments@.len(),
    );
}

/// Savings cannot be made up: where a claim goes through, every claimed commitment was
/// deposited into the vault by a deposit that went through, and so took its tokens;
/// and the claimed nullifier binds it as the nullifier of that deposit does.
pub proof fn law_claimed_savings_were_deposited(
    s: VaultState,
    calls: Seq<VaultCall>,
    vault: ZavaVault,
    claim: CreditClaim,
    proof_ok: bool,
    k: int,
)
    requires
        s.deposits == Set::<Bytes32>::empty(),
        vault@ == run(s, calls),
        claim_fault(true, claim, vault, proof_ok) is None,
        0 <= k < claim.commitments@.len(),
    ensures
        exists|i: int, nullifier: Bytes32| #[trigger]
            deposits_pair_at(s, calls, i, claim.commitments@[k], nullifier) && binding_of(
                claim.commitments@[k],
                nullifier,
            ) == binding_of(claim.commitments@[k], claim.nullifiers@[k]),
{
    let c = claim.commitments@[k];
    law_claim_goes_through_exactly_when_backed(true, claim, vault, proof_ok);
    assert(vault.holds(c) && vault.pairs(c, claim.nullifiers@[k]));
    law_deposits_are_bound_by_their_deposit(s, calls, c);
    let (i, nullifier) = choose|i: int, nullifier: Bytes32| #[trigger]
        deposits_pair_at(s, calls, i, c, nullifier) && run(s, calls).binds(c, nullifier);
    assert(deposits_pair_at(s, calls, i, c, nullifier));
}

/// No deposit counts twice: unless two different nullifiers give one commitment
/// the same binding, the commitments of a claim that goes through are distinct.
pub proof fn law_no_deposit_counts_twice(
    claim: CreditClaim,
    vault: ZavaVault,
    proof_ok: bool,
    i: int,
    j: int,
)
    requires
        claim_fault(true, claim, vault, proof_ok) is None,
        0 <= i < j < claim.commitments@.len(),
        binding_of(claim.commitments@[i], claim.nullifiers@[i]) != binding_of(
            claim.commitments@[i],
            claim.nullifiers@[j],
        ),
    ensures
        claim.commitments@[i] != claim.commitments@[j],
{
    law_claim_goes_through_exactly_when_backed(true, claim, vault, proof_ok);
    assert(vault.pairs(claim.commitments@[i], claim.nullifiers@[i]));
    assert(vault.pairs(claim.commitments@[j], claim.nullifiers@[j]));
}

/// A record is valid from the moment it is issued until 90 days have passed, and
/// not afterwards.
pub proof fn law_credit_expires_after_90_days<V: VaultInterface>(
    records: Map<Address, CreditRecord>,
    wallet: Address,
    claim: CreditClaim,
    vault: V,
    issued: u64,
    now: u64,
)
    requires
        issued + CREDIT_TTL_SECS <= u64::MAX,
    ensures
        ({
            let record = record_for(wallet, claim, vault, issued);
            valid_record(records.insert(wallet, record), wallet, now) == (if now <= issued
                + CREDIT_TTL_SECS {
                Some(record)
            } else {
                None
            })
        }),
{
}

/// A new claim replaces the record of its wallet and leaves every other wallet's
/// record alone.
pub proof fn law_new_claim_replaces_the_record(
    records: Map<Address, CreditRecord>,
    wallet: Address,
    first: CreditRecord,
    second: CreditRecord,
    other: Address,
    now: u64,
)
    ensures
        records.insert(wallet, first).insert(wallet, second) == records.insert(wallet, second),
        other != wallet ==> valid_record(records.insert(wallet, second), other, now)
            == valid_record(records, other, now),
{
    assert(records.insert(wallet, first).insert(wallet, second) =~= records.insert(
        wallet,
        second,
    ));
}

} // verus!
