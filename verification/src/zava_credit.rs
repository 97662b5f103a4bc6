//! Credit scoring backed by deposits in the vault.
//!
//! A borrower claims a number of weekly deposits. Each must exist in the vault
//! and be bound to the nullifier that the borrower gives for it. Deposits that
//! were withdrawn since do not count. The tier follows from the deposits that are
//! still locked, and the loan from the tier and from the least weekly amount that
//! the borrower has proved.
use crate::address::Address;
use crate::bytes::{be_value, encode_word, same_word, word_of, Bytes32};
use crate::claim_words::{savings_inputs, savings_words};
use crate::honk_verifier::HonkVerifierInterface;
use crate::table::Table;
use crate::zava_vault::ZavaVault;
use soroban_sdk::Env;
use vstd::prelude::*;

verus! {

/// Seconds that a credit record is valid for: 90 days.
pub const CREDIT_TTL_SECS: u64 = 7_776_000;

/// Ledgers that a record is kept alive for, about 30 days.
pub const PERSISTENT_TTL_LEDGERS: u32 = 518_400;

/// Active weeks that each tier starts from.
pub const MEDIUM_THRESHOLD: u32 = 8;

pub const LOW_THRESHOLD: u32 = 12;

pub const VERY_LOW_THRESHOLD: u32 = 24;

pub const STROOPS_PER_XLM: u64 = 10_000_000;

/// Loan for each unit of proved savings, in hundredths.
pub const MULT_BPS_MEDIUM: i128 = 200;

pub const MULT_BPS_LOW: i128 = 400;

pub const MULT_BPS_VERY_LOW: i128 = 600;

/// What the credit contract asks of the vault.
///
/// An implementation says what it answers. Of one that leaves the functions below as
/// they are, it is only known that the same question gets the same answer.
pub trait VaultInterface: Sized {
    /// The address that this vault is deployed at.
    open spec fn id(&self) -> Address {
        let answer: spec_fn(Self) -> Address = arbitrary();
        answer(*self)
    }

    /// `commitment` was deposited.
    open spec fn holds(&self, commitment: Bytes32) -> bool {
        let answer: spec_fn(Self, Bytes32) -> bool = arbitrary();
        answer(*self, commitment)
    }

    /// `commitment` is bound to `nullifier`.
    open spec fn pairs(&self, commitment: Bytes32, nullifier: Bytes32) -> bool {
        let answer: spec_fn(Self, Bytes32, Bytes32) -> bool = arbitrary();
        answer(*self, commitment, nullifier)
    }

    /// `nullifier` was spent.
    open spec fn spent(&self, nullifier: Bytes32) -> bool {
        let answer: spec_fn(Self, Bytes32) -> bool = arbitrary();
        answer(*self, nullifier)
    }

    fn commitment_exists(&self, env: &Env, commitment: &Bytes32) -> (r: bool)
        ensures
            r == self.holds(*commitment),
    ;

    fn commitment_matches_nullifier(
        &self,
        env: &Env,
        commitment: &Bytes32,
        nullifier: &Bytes32,
    ) -> (r: bool)
        ensures
            r == self.pairs(*commitment, *nullifier),
    ;

    fn is_nullifier_spent(&self, env: &Env, nullifier: &Bytes32) -> (r: bool)
        ensures
            r == self.spent(*nullifier),
    ;
}

impl VaultInterface for ZavaVault {
    open spec fn id(&self) -> Address {
        self.address
    }

    open spec fn holds(&self, commitment: Bytes32) -> bool {
        self@.deposits.contains(commitment)
    }

    open spec fn pairs(&self, commitment: Bytes32, nullifier: Bytes32) -> bool {
        self@.binds(commitment, nullifier)
    }

    open spec fn spent(&self, nullifier: Bytes32) -> bool {
        self@.is_spent(nullifier)
    }

    fn commitment_exists(&self, env: &Env, commitment: &Bytes32) -> (r: bool) {
        ZavaVault::commitment_exists(self, commitment)
    }

    fn commitment_matches_nullifier(
        &self,
        env: &Env,
        commitment: &Bytes32,
        nullifier: &Bytes32,
    ) -> (r: bool) {
        ZavaVault::commitment_matches_nullifier(self, env, commitment, nullifier)
    }

    fn is_nullifier_spent(&self, env: &Env, nullifier: &Bytes32) -> (r: bool) {
        ZavaVault::is_nullifier_spent(self, nullifier)
    }
}

#[derive(Clone, Copy, Debug, PartialEq, Eq, Structural)]
pub enum CreditTier {
    /// Too few active weeks for any credit.
    NoTier,
    /// From 8 active weeks.
    Medium,
    /// From 12 active weeks.
    Low,
    /// From 24 active weeks.
    VeryLow,
}

/// The least that a borrower proves to save each week, without saying how much
/// it is.
#[derive(Clone, Copy, Debug, PartialEq, Eq, Structural)]
pub enum SavingsRange {
    /// At least 50 XLM.
    R5,
    /// At least 200 XLM.
    R20,
    /// At least 500 XLM.
    R50,
    /// At least 2000 XLM.
    R200,
    /// At least 5000 XLM.
    R500,
}

#[derive(Clone, Copy, Debug, PartialEq, Eq)]
pub struct CreditRecord {
    pub wallet: Address,
    pub tier: CreditTier,
    pub savings_range: SavingsRange,
    /// Greatest loan that the borrower is eligible for.
    pub loan_eligible_stroops: i128,
    /// Weeks whose savings are still locked.
    pub active_weeks: u32,
    /// Weeks whose savings were withdrawn; they do not count for the tier.
    pub withdrawn_weeks: u32,
    pub verified_at: u64,
    pub expires_at: u64,
}

/// What a borrower claims.
#[derive(Debug)]
pub struct CreditClaim {
    pub savings_range: SavingsRange,
    pub commitments: Vec<Bytes32>,
    pub nullifiers: Vec<Bytes32>,
    pub weeks: Vec<u32>,
}

#[derive(Clone, Copy, Debug, PartialEq, Eq, Structural)]
pub enum CreditError {
    AlreadyInitialized,
    NotInitialized,
    LengthMismatch,
    EmptyClaim,
    DuplicateNullifier,
    ProofInvalid,
    CommitmentNotInVault,
    BindingMismatch,
    NotEnoughActiveWeeks,
}

impl CreditError {
    pub open spec fn number(self) -> u32 {
        match self {
            CreditError::AlreadyInitialized => 1,
            CreditError::NotInitialized => 2,
            CreditError::LengthMismatch => 3,
            CreditError::EmptyClaim => 4,
            CreditError::DuplicateNullifier => 5,
            CreditError::ProofInvalid => 6,
            CreditError::CommitmentNotInVault => 7,
            CreditError::BindingMismatch => 8,
            CreditError::NotEnoughActiveWeeks => 9,
        }
    }

    /// The number by which a contract reports this error.
    pub fn code(self) -> (r: u32)
        ensures
            r == self.number(),
    {
        match self {
            CreditError::AlreadyInitialized => 1,
            CreditError::NotInitialized => 2,
            CreditError::LengthMismatch => 3,
            CreditError::EmptyClaim => 4,
            CreditError::DuplicateNullifier => 5,
            CreditError::ProofInvalid => 6,
            CreditError::CommitmentNotInVault => 7,
            CreditError::BindingMismatch => 8,
            CreditError::NotEnoughActiveWeeks => 9,
        }
    }
}

/// The contracts that credit is issued with.
#[derive(Clone, Copy, Debug, PartialEq, Eq)]
pub struct CreditLinks {
    pub vault: Address,
    pub honk_verifier: Address,
}

/// Something that the ledger has to do for the contract.
#[derive(Clone, Copy, Debug, PartialEq, Eq)]
pub enum CreditEffect {
    /// Fail unless `address` has authorised the call.
    RequireAuth { address: Address },
    /// Publish that credit was issued.
    Issued { wallet: Address, active_weeks: u32, loan_eligible_stroops: i128 },
}

// ---------------------------------------------------------------------------
// Scoring
// ---------------------------------------------------------------------------

/// The tier that a number of active weeks gives.
pub open spec fn tier_for(active_weeks: int) -> CreditTier {
    if active_weeks >= VERY_LOW_THRESHOLD {
        CreditTier::VeryLow
    } else if active_weeks >= LOW_THRESHOLD {
        CreditTier::Low
    } else if active_weeks >= MEDIUM_THRESHOLD {
        CreditTier::Medium
    } else {
        CreditTier::NoTier
    }
}

/// Loan for each unit of proved savings.
pub open spec fn loan_factor(tier: CreditTier) -> int {
    match tier {
        CreditTier::NoTier => 0,
        CreditTier::Medium => 2,
        CreditTier::Low => 4,
        CreditTier::VeryLow => 6,
    }
}

/// Weekly lower bound of a range, in XLM.
pub open spec fn range_xlm(range: SavingsRange) -> int {
    match range {
        SavingsRange::R5 => 50,
        SavingsRange::R20 => 200,
        SavingsRange::R50 => 500,
        SavingsRange::R200 => 2000,
        SavingsRange::R500 => 5000,
    }
}

/// Weekly lower bound of a range, in stroops.
pub open spec fn weekly_bound(range: SavingsRange) -> int {
    range_xlm(range) * STROOPS_PER_XLM
}

/// The number by which a range is shown.
pub open spec fn range_label(range: SavingsRange) -> u32 {
    match range {
        SavingsRange::R5 => 5,
        SavingsRange::R20 => 20,
        SavingsRange::R50 => 50,
        SavingsRange::R200 => 200,
        SavingsRange::R500 => 500,
    }
}

/// The loan for `active_weeks` weeks of at least `bound` each: the proved savings
/// times the factor of the tier.
pub open spec fn loan_for(active_weeks: int, bound: int, tier: CreditTier) -> int {
    active_weeks * bound * loan_factor(tier)
}

/// Some word occurs twice.
pub open spec fn has_duplicate(words: Seq<Bytes32>) -> bool {
    exists|i: int, j: int|
        0 <= i < j < words.len() && #[trigger] words[i] == #[trigger] words[j]
}

impl CreditClaim {
    /// Why the claim is turned down without looking at proof or vault, if it is.
    pub open spec fn shape_fault(self) -> Option<CreditError> {
        if self.commitments@.len() == 0 {
            Some(CreditError::EmptyClaim)
        } else if self.nullifiers@.len() != self.commitments@.len() || self.weeks@.len()
            != self.commitments@.len() {
            Some(CreditError::LengthMismatch)
        } else if has_duplicate(self.nullifiers@) {
            Some(CreditError::DuplicateNullifier)
        } else {
            None
        }
    }

    /// What the verifier is shown.
    pub open spec fn words(self) -> Seq<Bytes32> {
        savings_words(
            weekly_bound(self.savings_range) as nat,
            self.commitments@.len(),
            self.commitments@,
            self.nullifiers@,
        )
    }
}

/// The first thing that is wrong with the first `n` deposits of a claim, if
/// anything is.
pub open spec fn deposits_fault<V: VaultInterface>(
    vault: V,
    commitments: Seq<Bytes32>,
    nullifiers: Seq<Bytes32>,
    n: nat,
) -> Option<CreditError>
    decreases n,
{
    if n == 0 {
        None
    } else {
        let i = n - 1;
        let earlier = deposits_fault(vault, commitments, nullifiers, i as nat);
        if earlier is Some {
            earlier
        } else if !vault.holds(commitments[i]) {
            Some(CreditError::CommitmentNotInVault)
        } else if !vault.pairs(commitments[i], nullifiers[i]) {
            Some(CreditError::BindingMismatch)
        } else {
            None
        }
    }
}

/// How many of `nullifiers` are spent.
pub open spec fn spent_count<V: VaultInterface>(vault: V, nullifiers: Seq<Bytes32>) -> nat
    decreases nullifiers.len(),
{
    if nullifiers.len() == 0 {
        0
    } else {
        spent_count(vault, nullifiers.drop_last()) + if vault.spent(nullifiers.last()) {
            1nat
        } else {
            0nat
        }
    }
}

/// How many of `nullifiers` are not spent.
pub open spec fn active_count<V: VaultInterface>(vault: V, nullifiers: Seq<Bytes32>) -> nat
    decreases nullifiers.len(),
{
    if nullifiers.len() == 0 {
        0
    } else {
        active_count(vault, nullifiers.drop_last()) + if vault.spent(nullifiers.last()) {
            0nat
        } else {
            1nat
        }
    }
}

/// Why a claim is turned down, if it is; `proof_ok` is the verdict of the
/// verifier.
pub open spec fn claim_fault<V: VaultInterface>(
    linked: bool,
    claim: CreditClaim,
    vault: V,
    proof_ok: bool,
) -> Option<CreditError> {
    let n = claim.commitments@.len();
    if !linked {
        Some(CreditError::NotInitialized)
    } else if claim.shape_fault() is Some {
        claim.shape_fault()
    } else if !proof_ok {
        Some(CreditError::ProofInvalid)
    } else if deposits_fault(vault, claim.commitments@, claim.nullifiers@, n) is Some {
        deposits_fault(vault, claim.commitments@, claim.nullifiers@, n)
    } else if tier_for(active_count(vault, claim.nullifiers@) as int) is NoTier {
        Some(CreditError::NotEnoughActiveWeeks)
    } else {
        None
    }
}

/// The record that a claim which is not turned down leads to.
pub open spec fn record_for<V: VaultInterface>(
    wallet: Address,
    claim: CreditClaim,
    vault: V,
    now: u64,
) -> CreditRecord {
    let active = active_count(vault, claim.nullifiers@) as int;
    CreditRecord {
        wallet,
        tier: tier_for(active),
        savings_range: claim.savings_range,
        loan_eligible_stroops: loan_for(
            active,
            weekly_bound(claim.savings_range),
            tier_for(active),
        ) as i128,
        active_weeks: active as u32,
        withdrawn_weeks: spent_count(vault, claim.nullifiers@) as u32,
        verified_at: now,
        expires_at: (now + CREDIT_TTL_SECS) as u64,
    }
}

/// The record of `wallet` that is valid at time `now`, if there is one.
pub open spec fn valid_record(
    records: Map<Address, CreditRecord>,
    wallet: Address,
    now: u64,
) -> Option<CreditRecord> {
    if records.contains_key(wallet) && now <= records[wallet].expires_at {
        Some(records[wallet])
    } else {
        None
    }
}

// ---------------------------------------------------------------------------
// The contract
// ---------------------------------------------------------------------------

/// The credit contract.
pub struct ZavaCredit {
    /// Set once, by [`ZavaCredit::initialize`].
    pub links: Option<CreditLinks>,
    pub records: Table<Address, CreditRecord>,
    /// What the ledger has to do, in order.
    pub outbox: Vec<CreditEffect>,
}

impl ZavaCredit {
    /// A contract that is not linked yet.
    pub fn new() -> (r: Self)
        ensures
            r.links is None,
            r.records@ == Map::<Address, CreditRecord>::empty(),
            r.outbox@.len() == 0,
    {
        ZavaCredit { links: None, records: Table::new(), outbox: Vec::new() }
    }

    /// Links the contract to the vault and to the verifier. Succeeds exactly once.
    pub fn initialize(&mut self, vault: Address, honk_verifier: Address) -> (r: Result<
        (),
        CreditError,
    >)
        ensures
            r == (if old(self).links is Some {
                Err(CreditError::AlreadyInitialized)
            } else {
                Ok(())
            }),
            final(self).links == (if old(self).links is Some {
                old(self).links
            } else {
                Some(CreditLinks { vault, honk_verifier })
            }),
            final(self).records@ == old(self).records@,
            final(self).outbox@ == old(self).outbox@,
    {
        if self.links.is_some() {
            return Err(CreditError::AlreadyInitialized);
        }
        self.links = Some(CreditLinks { vault, honk_verifier });
        Ok(())
    }

    /// Issues credit to `wallet` for a claim, at time `now`. `vault` and `honk`
    /// are the linked contracts.
    pub fn claim_credit<V: VaultInterface, H: HonkVerifierInterface>(
        &mut self,
        env: &Env,
        vault: &V,
        honk: &H,
        wallet: Address,
        proof: &Vec<u8>,
        claim: &CreditClaim,
        now: u64,
    ) -> (r: Result<CreditRecord, CreditError>)
        requires
            claim.commitments@.len() <= u32::MAX,
            old(self).links is Some ==> vault.id() == old(self).links->0.vault && honk.id()
                == old(self).links->0.honk_verifier,
            claim_fault(
                old(self).links is Some,
                *claim,
                *vault,
                honk.accepts(proof@, claim.words()),
            ) is None ==> now + CREDIT_TTL_SECS <= u64::MAX,
        ensures
            r == (match claim_fault(
                old(self).links is Some,
                *claim,
                *vault,
                honk.accepts(proof@, claim.words()),
            ) {
                Some(error) => Err(error),
                None => Ok(record_for(wallet, *claim, *vault, now)),
            }),
            r matches Ok(record) ==> {
                &&& record.active_weeks == active_count(*vault, claim.nullifiers@)
                &&& record.withdrawn_weeks == spent_count(*vault, claim.nullifiers@)
                &&& record.loan_eligible_stroops == loan_for(
                    record.active_weeks as int,
                    weekly_bound(claim.savings_range),
                    record.tier,
                )
                &&& record.expires_at == now + CREDIT_TTL_SECS
            },
            final(self).links == old(self).links,
            final(self).records@ == (match r {
                Ok(record) => old(self).records@.insert(wallet, record),
                Err(_) => old(self).records@,
            }),
            ({
                let asked = old(self).outbox@.push(CreditEffect::RequireAuth { address: wallet });
                final(self).outbox@ == (match r {
                    Ok(record) => asked.push(
                        CreditEffect::Issued {
                            wallet,
                            active_weeks: record.active_weeks,
                            loan_eligible_stroops: record.loan_eligible_stroops,
                        },
                    ),
                    Err(_) => asked,
                })
            }),
    {
        self.outbox.push(CreditEffect::RequireAuth { address: wallet });
        let (active_weeks, withdrawn_weeks) = self.check_claim(env, vault, honk, proof, claim)?;
        let bound: u64 = Self::range_lower_bound_stroops(&claim.savings_range);
        let tier = Self::weeks_to_tier(active_weeks);
        let loan_eligible_stroops: i128 = Self::compute_loan_eligible(active_weeks, bound, &tier);
        let record = CreditRecord {
            wallet,
            tier,
            savings_range: claim.savings_range,
            loan_eligible_stroops,
            active_weeks,
            withdrawn_weeks,
            verified_at: now,
            expires_at: now + CREDIT_TTL_SECS,
        };
        self.records.set(wallet, record);
        self.outbox.push(CreditEffect::Issued { wallet, active_weeks, loan_eligible_stroops });
        Ok(record)
    }

    /// Like [`ZavaCredit::claim_credit`], at any time: where the claim would go through
    /// but its expiry cannot be counted, nothing is returned and no record changes.
    pub fn try_claim_credit<V: VaultInterface, H: HonkVerifierInterface>(
        &mut self,
        env: &Env,
        vault: &V,
        honk: &H,
        wallet: Address,
        proof: &Vec<u8>,
        claim: &CreditClaim,
        now: u64,
    ) -> (r: Option<Result<CreditRecord, CreditError>>)
        requires
            claim.commitments@.len() <= u32::MAX,
            old(self).links is Some ==> vault.id() == old(self).links->0.vault && honk.id()
                == old(self).links->0.honk_verifier,
        ensures
            r == (match claim_fault(
                old(self).links is Some,
                *claim,
                *vault,
                honk.accepts(proof@, claim.words()),
            ) {
                Some(error) => Some(Err(error)),
                None => if now + CREDIT_TTL_SECS <= u64::MAX {
                    Some(Ok(record_for(wallet, *claim, *vault, now)))
                } else {
                    None
                },
            }),
            final(self).links == old(self).links,
            final(self).records@ == (match r {
                Some(Ok(record)) => old(self).records@.insert(wallet, record),
                _ => old(self).records@,
            }),
            ({
                let asked = old(self).outbox@.push(CreditEffect::RequireAuth { address: wallet });
                final(self).outbox@ == (match r {
                    Some(Ok(record)) => asked.push(
                        CreditEffect::Issued {
                            wallet,
                            active_weeks: record.active_weeks,
                            loan_eligible_stroops: record.loan_eligible_stroops,
                        },
                    ),
                    _ => asked,
                })
            }),
    {
        if now <= u64::MAX - CREDIT_TTL_SECS {
            return Some(self.claim_credit(env, vault, honk, wallet, proof, claim, now));
        }
        self.outbox.push(CreditEffect::RequireAuth { address: wallet });
        match self.check_claim(env, vault, honk, proof, claim) {
            Ok(_) => None,
            Err(error) => Some(Err(error)),
        }
    }

    /// The active and the withdrawn weeks of a claim, or why it is turned down.
    fn check_claim<V: VaultInterface, H: HonkVerifierInterface>(
        &self,
        env: &Env,
        vault: &V,
        honk: &H,
        proof: &Vec<u8>,
        claim: &CreditClaim,
    ) -> (r: Result<(u32, u32), CreditError>)
        requires
            claim.commitments@.len() <= u32::MAX,
            self.links is Some ==> vault.id() == self.links->0.vault && honk.id()
                == self.links->0.honk_verifier,
        ensures
            match claim_fault(
                self.links is Some,
                *claim,
                *vault,
                honk.accepts(proof@, claim.words()),
            ) {
                Some(error) => r == Err::<(u32, u32), _>(error),
                None => r matches Ok((active, withdrawn)) && active == active_count(
                    *vault,
                    claim.nullifiers@,
                ) && withdrawn == spent_count(*vault, claim.nullifiers@),
            },
    {
        self.check_initialized()?;
        let n: usize = claim.commitments.len();
        if n == 0 {
            return Err(CreditError::EmptyClaim);
        }
        if claim.nullifiers.len() != n || claim.weeks.len() != n {
            return Err(CreditError::LengthMismatch);
        }
        if repeats(&claim.nullifiers) {
            return Err(CreditError::DuplicateNullifier);
        }
        let bound: u64 = Self::range_lower_bound_stroops(&claim.savings_range);
        let words = savings_inputs(
            Self::u64_to_bytes(bound),
            Self::u32_to_bytes(n as u32),
            &claim.commitments,
            &claim.nullifiers,
        );
        if !honk.verify(env, proof, &words) {
            return Err(CreditError::ProofInvalid);
        }
        let (active_weeks, withdrawn_weeks) = Self::count_weeks(
            env,
            vault,
            &claim.commitments,
            &claim.nullifiers,
        )?;
        if matches!(Self::weeks_to_tier(active_weeks), CreditTier::NoTier) {
            return Err(CreditError::NotEnoughActiveWeeks);
        }
        Ok((active_weeks, withdrawn_weeks))
    }

    /// Looks each claimed deposit up in the vault and counts those that are still
    /// locked and those that were withdrawn.
    pub fn count_weeks<V: VaultInterface>(
        env: &Env,
        vault: &V,
        commitments: &Vec<Bytes32>,
        nullifiers: &Vec<Bytes32>,
    ) -> (r: Result<(u32, u32), CreditError>)
        requires
            commitments@.len() == nullifiers@.len(),
            commitments@.len() <= u32::MAX,
        ensures
            match deposits_fault(*vault, commitments@, nullifiers@, commitments@.len()) {
                Some(error) => r == Err::<(u32, u32), _>(error),
                None => r matches Ok((active, withdrawn)) && active == active_count(
                    *vault,
                    nullifiers@,
                ) && withdrawn == spent_count(*vault, nullifiers@),
            },
    {
        let n: usize = commitments.len();
        let mut active_weeks: u32 = 0;
        let mut withdrawn_weeks: u32 = 0;
        let mut i: usize = 0;
        assert(nullifiers@.subrange(0, 0) =~= Seq::<Bytes32>::empty());
        while i < n
            invariant
                i <= n,
                n == commitments@.len(),
                n == nullifiers@.len(),
                n <= u32::MAX,
                active_weeks + withdrawn_weeks == i,
                active_weeks == active_count(*vault, nullifiers@.subrange(0, i as int)),
                withdrawn_weeks == spent_count(*vault, nullifiers@.subrange(0, i as int)),
                deposits_fault(*vault, commitments@, nullifiers@, i as nat) is None,
            decreases n - i,
        {
            let ghost next = (i + 1) as nat;
            proof {
                let seen = nullifiers@.subrange(0, next as int);
                assert(seen.drop_last() =~= nullifiers@.subrange(0, i as int));
                assert(seen.last() == nullifiers@[i as int]);
                if deposits_fault(*vault, commitments@, nullifiers@, next) is Some {
                    lemma_fault_stays(*vault, commitments@, nullifiers@, next, n as nat);
                }
            }
            if !vault.commitment_exists(env, &commitments[i]) {
                return Err(CreditError::CommitmentNotInVault);
            }
            if !vault.commitment_matches_nullifier(env, &commitments[i], &nullifiers[i]) {
                return Err(CreditError::BindingMismatch);
            }
            if vault.is_nullifier_spent(env, &nullifiers[i]) {
                withdrawn_weeks += 1;
            } else {
                active_weeks += 1;
            }
            i += 1;
        }
        assert(nullifiers@.subrange(0, n as int) =~= nullifiers@);
        Ok((active_weeks, withdrawn_weeks))
    }

    /// What `wallet` may borrow at time `now`; nothing without a valid record.
    pub fn get_loan_eligibility(&self, wallet: &Address, now: u64) -> (r: i128)
        ensures
            r == (match valid_record(self.records@, *wallet, now) {
                Some(record) => record.loan_eligible_stroops,
                None => 0,
            }),
    {
        match self.get_credit_record(wallet, now) {
            Some(record) => record.loan_eligible_stroops,
            None => 0,
        }
    }

    /// The lower bound and the label of a range.
    pub fn range_info(range: SavingsRange) -> (r: (u64, u32))
        ensures
            r.0 == weekly_bound(range),
            r.1 == range_label(range),
    {
        let lower: u64 = Self::range_lower_bound_stroops(&range);
        let label: u32 = match range {
            SavingsRange::R5 => 5,
            SavingsRange::R20 => 20,
            SavingsRange::R50 => 50,
            SavingsRange::R200 => 200,
            SavingsRange::R500 => 500,
        };
        (lower, label)
    }

    /// The record of `wallet`, unless it has expired at time `now`.
    pub fn get_credit_record(&self, wallet: &Address, now: u64) -> (r: Option<CreditRecord>)
        ensures
            r == valid_record(self.records@, *wallet, now),
    {
        match self.records.get(wallet) {
            None => None,
            Some(record) => {
                if now > record.expires_at {
                    None
                } else {
                    Some(*record)
                }
            },
        }
    }

    /// Whether `wallet` has a record that is valid at time `now`.
    pub fn is_credit_valid(&self, wallet: &Address, now: u64) -> (r: bool)
        ensures
            r == (valid_record(self.records@, *wallet, now) is Some),
    {
        self.get_credit_record(wallet, now).is_some()
    }

    /// The vault and the verifier.
    pub fn get_linked_contracts(&self) -> (r: Result<(Address, Address), CreditError>)
        ensures
            r == (match self.links {
                Some(links) => Ok((links.vault, links.honk_verifier)),
                None => Err(CreditError::NotInitialized),
            }),
    {
        match &self.links {
            Some(links) => Ok((links.vault, links.honk_verifier)),
            None => Err(CreditError::NotInitialized),
        }
    }

    fn check_initialized(&self) -> (r: Result<(), CreditError>)
        ensures
            r == (if self.links is None {
                Err(CreditError::NotInitialized)
            } else {
                Ok(())
            }),
    {
        if self.links.is_none() {
            return Err(CreditError::NotInitialized);
        }
        Ok(())
    }

    /// The tier that a number of active weeks gives.
    pub fn weeks_to_tier(active_weeks: u32) -> (r: CreditTier)
        ensures
            r == tier_for(active_weeks as int),
    {
        if active_weeks >= VERY_LOW_THRESHOLD {
            CreditTier::VeryLow
        } else if active_weeks >= LOW_THRESHOLD {
            CreditTier::Low
        } else if active_weeks >= MEDIUM_THRESHOLD {
            CreditTier::Medium
        } else {
            CreditTier::NoTier
        }
    }

    /// Stroops that the borrower proves to save each week.
    pub fn range_lower_bound_stroops(range: &SavingsRange) -> (r: u64)
        ensures
            r == weekly_bound(*range),
    {
        match range {
            SavingsRange::R5 => 50 * STROOPS_PER_XLM,
            SavingsRange::R20 => 200 * STROOPS_PER_XLM,
            SavingsRange::R50 => 500 * STROOPS_PER_XLM,
            SavingsRange::R200 => 2000 * STROOPS_PER_XLM,
            SavingsRange::R500 => 5000 * STROOPS_PER_XLM,
        }
    }

    /// The loan, in stroops, for a number of weeks of at least
    /// `weekly_lower_bound` each.
    pub fn compute_loan_eligible(
        active_weeks: u32,
        weekly_lower_bound: u64,
        tier: &CreditTier,
    ) -> (r: i128)
        ensures
            r == loan_for(active_weeks as int, weekly_lower_bound as int, *tier),
    {
        let multiplier_bps: i128 = match tier {
            CreditTier::Medium => MULT_BPS_MEDIUM,
            CreditTier::Low => MULT_BPS_LOW,
            CreditTier::VeryLow => MULT_BPS_VERY_LOW,
            CreditTier::NoTier => {
                return 0;
            },
        };
        proof {
            let a = active_weeks as int;
            let b = weekly_lower_bound as int;
            assert(0 <= a * b <= 0xffff_ffff * 0xffff_ffff_ffff_ffff) by (nonlinear_arith)
                requires
                    0 <= a <= 0xffff_ffff,
                    0 <= b <= 0xffff_ffff_ffff_ffff,
            ;
        }
        let proven_total: i128 = (active_weeks as i128) * (weekly_lower_bound as i128);
        proven_total * multiplier_bps / 100
    }

    /// The word of a 64-bit number.
    pub fn u64_to_bytes(v: u64) -> (r: Bytes32)
        ensures
            r == word_of(v as nat),
            be_value(r@) == v,
    {
        encode_word(v as u128)
    }

    /// The word of a 32-bit number.
    pub fn u32_to_bytes(v: u32) -> (r: Bytes32)
        ensures
            r == word_of(v as nat),
            be_value(r@) == v,
    {
        encode_word(v as u128)
    }
}

/// Whether some word occurs twice.
fn repeats(words: &Vec<Bytes32>) -> (r: bool)
    ensures
        r == has_duplicate(words@),
{
    let n: usize = words.len();
    let mut i: usize = 0;
    while i < n
        invariant
            i <= n,
            n == words@.len(),
            forall|a: int, b: int| 0 <= a < i && a < b < n ==> words@[a] != words@[b],
        decreases n - i,
    {
        let mut j: usize = i + 1;
        while j < n
            invariant
                i < j <= n,
                n == words@.len(),
                forall|b: int| i < b < j ==> words@[i as int] != words@[b],
            decreases n - j,
        {
            if same_word(&words[i], &words[j]) {
                assert(words@[i as int] == words@[j as int]);
                return true;
            }
            j += 1;
        }
        i += 1;
    }
    false
}

/// What is wrong with a shorter part of the claim is wrong with the whole.
proof fn lemma_fault_stays<V: VaultInterface>(
    vault: V,
    commitments: Seq<Bytes32>,
    nullifiers: Seq<Bytes32>,
    k: nat,
    n: nat,
)
    requires
        k <= n,
        deposits_fault(vault, commitments, nullifiers, k) is Some,
    ensures
        deposits_fault(vault, commitments, nullifiers, n) == deposits_fault(
            vault,
            commitments,
            nullifiers,
            k,
        ),
    decreases n,
{
    if k < n {
        lemma_fault_stays(vault, commitments, nullifiers, k, (n - 1) as nat);
    }
}

} // verus!
