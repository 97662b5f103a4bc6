//! Credit tiers for proofs about the savings ledger.
//!
//! A wallet submits a proof over 8, 12 or 24 weekly deposits. Every commitment and
//! nullifier that the proof is about has to be recorded in the savings ledger; the
//! proof itself is checked by the verifier of the tier. The resulting credit
//! record is valid for 90 days. The linked contracts are set once.
use crate::address::Address;
use crate::bytes::{be_value, encode_word, word_of, Bytes32};
use crate::claim_words::{law_words_stand_in_circuit_order, savings_inputs, savings_words};
use crate::honk_verifier::HonkVerifierInterface;
use crate::savings::{SavingsContract, SavingsInterface};
use crate::table::Table;
use soroban_sdk::Env;
use vstd::prelude::*;

verus! {

/// Seconds that a credit record is valid for: 90 days.
pub const CREDIT_TTL_SECS: u64 = 7_776_000;

/// Ledgers that a record is kept alive for, about 30 days.
pub const PERSISTENT_TTL_LEDGERS: u32 = 518_400;

#[derive(Clone, Copy, Debug, PartialEq, Eq, Structural)]
pub enum CreditTier {
    /// 8 weeks proved.
    Medium,
    /// 12 weeks proved.
    Low,
    /// 24 weeks proved.
    VeryLow,
}

#[derive(Clone, Copy, Debug, PartialEq, Eq)]
pub struct CreditRecord {
    pub wallet: Address,
    pub tier: CreditTier,
    pub verified_at: u64,
    pub consistency_weeks: u32,
    pub expires_at: u64,
}

/// What a proof is about. There have to be as many commitments and as many
/// nullifiers as weeks.
#[derive(Debug)]
pub struct PublicInputs {
    pub min_weekly_amount: u64,
    pub consistency_weeks: u32,
    pub commitments: Vec<Bytes32>,
    pub nullifiers: Vec<Bytes32>,
}

#[derive(Clone, Copy, Debug, PartialEq, Eq, Structural)]
pub enum VerifierError {
    AlreadyInitialized,
    NotInitialized,
    InvalidConsistencyWeeks,
    NullifierCountMismatch,
    CommitmentCountMismatch,
    NullifierNotRecorded,
    CommitmentNotRecorded,
    ProofInvalid,
}

impl VerifierError {
    pub open spec fn number(self) -> u32 {
        match self {
            VerifierError::AlreadyInitialized => 1,
            VerifierError::NotInitialized => 2,
            VerifierError::InvalidConsistencyWeeks => 3,
            VerifierError::NullifierCountMismatch => 4,
            VerifierError::CommitmentCountMismatch => 5,
            VerifierError::NullifierNotRecorded => 6,
            VerifierError::CommitmentNotRecorded => 7,
            VerifierError::ProofInvalid => 8,
        }
    }

    /// The number by which a contract reports this error.
    pub fn code(self) -> (r: u32)
        ensures
            r == self.number(),
    {
        match self {
            VerifierError::AlreadyInitialized => 1,
            VerifierError::NotInitialized => 2,
            VerifierError::InvalidConsistencyWeeks => 3,
            VerifierError::NullifierCountMismatch => 4,
            VerifierError::CommitmentCountMismatch => 5,
            VerifierError::NullifierNotRecorded => 6,
            VerifierError::CommitmentNotRecorded => 7,
            VerifierError::ProofInvalid => 8,
        }
    }
}

/// The contracts that proofs are checked with.
#[derive(Clone, Copy, Debug, PartialEq, Eq)]
pub struct VerifierLinks {
    pub savings_contract: Address,
    /// Verifier of the Medium tier.
    pub honk_8w: Address,
    /// Verifier of the Low tier.
    pub honk_12w: Address,
    /// Verifier of the VeryLow tier.
    pub honk_24w: Address,
}

/// Something that the ledger has to do for the contract.
#[derive(Clone, Copy, Debug, PartialEq, Eq)]
pub enum VerifierEffect {
    /// Fail unless `address` has authorised the call.
    RequireAuth { address: Address },
    /// Publish that a proof was rejected.
    Rejected { wallet: Address },
    /// Publish that credit was given.
    Verified { wallet: Address, consistency_weeks: u32, expires_at: u64 },
    /// Publish that a record has expired.
    Expired { wallet: Address, expires_at: u64 },
}

// ---------------------------------------------------------------------------
// The rules
// ---------------------------------------------------------------------------

/// The tier of a number of weeks.
pub open spec fn tier_of(weeks: u32) -> Option<CreditTier> {
    if weeks == 8 {
        Some(CreditTier::Medium)
    } else if weeks == 12 {
        Some(CreditTier::Low)
    } else if weeks == 24 {
        Some(CreditTier::VeryLow)
    } else {
        None
    }
}

/// The one of three things that belongs to a tier.
pub open spec fn by_tier<T>(tier: CreditTier, medium: T, low: T, very_low: T) -> T {
    match tier {
        CreditTier::Medium => medium,
        CreditTier::Low => low,
        CreditTier::VeryLow => very_low,
    }
}

impl PublicInputs {
    /// Why the inputs are turned down before anything else is looked at, if they
    /// are.
    pub open spec fn shape_fault(self) -> Option<VerifierError> {
        if tier_of(self.consistency_weeks) is None {
            Some(VerifierError::InvalidConsistencyWeeks)
        } else if self.nullifiers@.len() != self.consistency_weeks {
            Some(VerifierError::NullifierCountMismatch)
        } else if self.commitments@.len() != self.consistency_weeks {
            Some(VerifierError::CommitmentCountMismatch)
        } else {
            None
        }
    }

    /// What the verifier is shown.
    pub open spec fn words(self) -> Seq<Bytes32> {
        savings_words(
            self.min_weekly_amount as nat,
            self.consistency_weeks as nat,
            self.commitments@,
            self.nullifiers@,
        )
    }
}

/// Every one of `commitments` is recorded.
pub open spec fn all_recorded<S: SavingsInterface>(savings: S, commitments: Seq<Bytes32>) -> bool {
    forall|i: int| 0 <= i < commitments.len() ==> savings.recorded(#[trigger] commitments[i])
}

/// Every one of `nullifiers` is spent.
pub open spec fn all_spent<S: SavingsInterface>(savings: S, nullifiers: Seq<Bytes32>) -> bool {
    forall|i: int| 0 <= i < nullifiers.len() ==> savings.spent(#[trigger] nullifiers[i])
}

/// Why a proof is turned down, if it is; `proof_ok` is the verdict of the verifier
/// of the tier.
pub open spec fn proof_fault<S: SavingsInterface>(
    linked: bool,
    inputs: PublicInputs,
    savings: S,
    proof_ok: bool,
) -> Option<VerifierError> {
    if inputs.shape_fault() is Some {
        inputs.shape_fault()
    } else if !linked {
        Some(VerifierError::NotInitialized)
    } else if !all_recorded(savings, inputs.commitments@) {
        Some(VerifierError::CommitmentNotRecorded)
    } else if !all_spent(savings, inputs.nullifiers@) {
        Some(VerifierError::NullifierNotRecorded)
    } else if !proof_ok {
        Some(VerifierError::ProofInvalid)
    } else {
        None
    }
}

/// The record of a proof that is accepted at time `now`.
pub open spec fn record_of(wallet: Address, inputs: PublicInputs, now: u64) -> CreditRecord {
    CreditRecord {
        wallet,
        tier: tier_of(inputs.consistency_weeks)->0,
        verified_at: now,
        consistency_weeks: inputs.consistency_weeks,
        expires_at: (now + CREDIT_TTL_SECS) as u64,
    }
}

/// The record of `wallet` that is valid at time `now`, if there is one.
pub open spec fn valid_record(
    records: Map<Address, CreditRecord>,
    wallet: Address,
    now: u64,
) -> Option<CreditRecord> {
    if records.contains_key(wallet) && now <= records[wallet].expires_at {
        Some(records[wallet])
    } else {
        None
    }
}

/// What looking up the record of `wallet` asks of the ledger: an expired record is
/// published as such.
pub open spec fn lookup_effects(
    records: Map<Address, CreditRecord>,
    wallet: Address,
    now: u64,
) -> Seq<VerifierEffect> {
    if records.contains_key(wallet) && now > records[wallet].expires_at {
        seq![VerifierEffect::Expired { wallet, expires_at: records[wallet].expires_at }]
    } else {
        seq![]
    }
}

// ---------------------------------------------------------------------------
// The contract
// ---------------------------------------------------------------------------

/// The credit verifier.
pub struct VerifierContract {
    /// Set once, by [`VerifierContract::initialize`].
    pub links: Option<VerifierLinks>,
    pub records: Table<Address, CreditRecord>,
    /// What the ledger has to do, in order.
    pub outbox: Vec<VerifierEffect>,
}

impl VerifierContract {
    /// A contract that is not linked yet.
    pub fn new() -> (r: Self)
        ensures
            r.links is None,
            r.records@ == Map::<Address, CreditRecord>::empty(),
            r.outbox@.len() == 0,
    {
        VerifierContract { links: None, records: Table::new(), outbox: Vec::new() }
    }

    /// Links the contract to the savings ledger and to the three verifiers.
    /// Succeeds exactly once.
    pub fn initialize(
        &mut self,
        savings_contract: Address,
        honk_8w: Address,
        honk_12w: Address,
        honk_24w: Address,
    ) -> (r: Result<(), VerifierError>)
        ensures
            r == (if old(self).links is Some {
                Err(VerifierError::AlreadyInitialized)
            } else {
                Ok(())
            }),
            final(self).links == (if old(self).links is Some {
                old(self).links
            } else {
                Some(VerifierLinks { savings_contract, honk_8w, honk_12w, honk_24w })
            }),
            final(self).records@ == old(self).records@,
            final(self).outbox@ == old(self).outbox@,
    {
        if self.links.is_some() {
            return Err(VerifierError::AlreadyInitialized);
        }
        self.links = Some(VerifierLinks { savings_contract, honk_8w, honk_12w, honk_24w });
        Ok(())
    }

    /// Checks a proof at time `now` and, if it holds, records credit for `wallet`.
    /// `savings` and the three verifiers are the linked contracts; the number of
    /// weeks decides which verifier is asked.
    pub fn verify_proof<S: SavingsInterface, H: HonkVerifierInterface>(
        &mut self,
        env: &Env,
        savings: &S,
        honk_8w: &H,
        honk_12w: &H,
        honk_24w: &H,
        wallet: Address,
        proof: &Vec<u8>,
        public_inputs: &PublicInputs,
        now: u64,
    ) -> (r: Result<CreditTier, VerifierError>)
        requires
            old(self).links is Some ==> {
                &&& savings.id() == old(self).links->0.savings_contract
                &&& honk_8w.id() == old(self).links->0.honk_8w
                &&& honk_12w.id() == old(self).links->0.honk_12w
                &&& honk_24w.id() == old(self).links->0.honk_24w
            },
            proof_fault(
                old(self).links is Some,
                *public_inputs,
                *savings,
                by_tier(
                    tier_of(public_inputs.consistency_weeks)->0,
                    *honk_8w,
                    *honk_12w,
                    *honk_24w,
                ).accepts(proof@, public_inputs.words()),
            ) is None ==> now + CREDIT_TTL_SECS <= u64::MAX,
        ensures
            ({
                let tier = tier_of(public_inputs.consistency_weeks);
                let honk = by_tier(tier->0, *honk_8w, *honk_12w, *honk_24w);
                r == (match proof_fault(
                    old(self).links is Some,
                    *public_inputs,
                    *savings,
                    honk.accepts(proof@, public_inputs.words()),
                ) {
                    Some(error) => Err(error),
                    None => Ok(tier->0),
                })
            }),
            final(self).links == old(self).links,
            final(self).records@ == (if r is Ok {
                old(self).records@.insert(wallet, record_of(wallet, *public_inputs, now))
            } else {
                old(self).records@
            }),
            ({
                let asked = old(self).outbox@.push(VerifierEffect::RequireAuth { address: wallet });
                final(self).outbox@ == (match r {
                    Ok(_) => asked.push(
                        VerifierEffect::Verified {
                            wallet,
                            consistency_weeks: public_inputs.consistency_weeks,
                            expires_at: (now + CREDIT_TTL_SECS) as u64,
                        },
                    ),
                    Err(VerifierError::ProofInvalid) => asked.push(
                        VerifierEffect::Rejected { wallet },
                    ),
                    Err(_) => asked,
                })
            }),
    {
        self.outbox.push(VerifierEffect::RequireAuth { address: wallet });
        let tier = match self.check_proof(
            env,
            savings,
            honk_8w,
            honk_12w,
            honk_24w,
            proof,
            public_inputs,
        ) {
            Ok(tier) => tier,
            Err(error) => {
                if matches!(error, VerifierError::ProofInvalid) {
                    self.outbox.push(VerifierEffect::Rejected { wallet });
                }
                return Err(error);
            },
        };
        let weeks: u32 = public_inputs.consistency_weeks;
        let expires_at: u64 = now + CREDIT_TTL_SECS;
        self.records.set(
            wallet,
            CreditRecord { wallet, tier, verified_at: now, consistency_weeks: weeks, expires_at },
        );
        self.outbox.push(
            VerifierEffect::Verified { wallet, consistency_weeks: weeks, expires_at },
        );
        Ok(tier)
    }

    /// Like [`VerifierContract::verify_proof`], at any time: where the proof would be
    /// accepted but the expiry cannot be counted, nothing is returned and no record
    /// changes.
    pub fn try_verify_proof<S: SavingsInterface, H: HonkVerifierInterface>(
        &mut self,
        env: &Env,
        savings: &S,
        honk_8w: &H,
        honk_12w: &H,
        honk_24w: &H,
        wallet: Address,
        proof: &Vec<u8>,
        public_inputs: &PublicInputs,
        now: u64,
    ) -> (r: Option<Result<CreditTier, VerifierError>>)
        requires
            old(self).links is Some ==> {
                &&& savings.id() == old(self).links->0.savings_contract
                &&& honk_8w.id() == old(self).links->0.honk_8w
                &&& honk_12w.id() == old(self).links->0.honk_12w
                &&& honk_24w.id() == old(self).links->0.honk_24w
            },
        ensures
            r == (match proof_fault(
                old(self).links is Some,
                *public_inputs,
                *savings,
                by_tier(
                    tier_of(public_inputs.consistency_weeks)->0,
                    *honk_8w,
                    *honk_12w,
                    *honk_24w,
                ).accepts(proof@, public_inputs.words()),
            ) {
                Some(error) => Some(Err(error)),
                None => if now + CREDIT_TTL_SECS <= u64::MAX {
                    Some(Ok(tier_of(public_inputs.consistency_weeks)->0))
                } else {
                    None
                },
            }),
            final(self).links == old(self).links,
            final(self).records@ == (if r matches Some(Ok(_)) {
                old(self).records@.insert(wallet, record_of(wallet, *public_inputs, now))
            } else {
                old(self).records@
            }),
            ({
                let asked = old(self).outbox@.push(VerifierEffect::RequireAuth { address: wallet });
                final(self).outbox@ == (match r {
                    Some(Ok(_)) => asked.push(
                        VerifierEffect::Verified {
                            wallet,
                            consistency_weeks: public_inputs.consistency_weeks,
                            expires_at: (now + CREDIT_TTL_SECS) as u64,
                        },
                    ),
                    Some(Err(VerifierError::ProofInvalid)) => asked.push(
                        VerifierEffect::Rejected { wallet },
                    ),
                    _ => asked,
                })
            }),
    {
        if now <= u64::MAX - CREDIT_TTL_SECS {
            return Some(
                self.verify_proof(
                    env,
                    savings,
                    honk_8w,
                    honk_12w,
                    honk_24w,
                    wallet,
                    proof,
                    public_inputs,
                    now,
                ),
            );
        }
        self.outbox.push(VerifierEffect::RequireAuth { address: wallet });
        match self.check_proof(
            env,
            savings,
            honk_8w,
            honk_12w,
            honk_24w,
            proof,
            public_inputs,
        ) {
            Ok(_) => None,
            Err(error) => {
                if matches!(error, VerifierError::ProofInvalid) {
                    self.outbox.push(VerifierEffect::Rejected { wallet });
                }
                Some(Err(error))
            },
        }
    }

    /// The tier that a proof gives, or why it is turned down.
    fn check_proof<S: SavingsInterface, H: HonkVerifierInterface>(
        &self,
        env: &Env,
        savings: &S,
        honk_8w: &H,
        honk_12w: &H,
        honk_24w: &H,
        proof: &Vec<u8>,
        public_inputs: &PublicInputs,
    ) -> (r: Result<CreditTier, VerifierError>)
        requires
            self.links is Some ==> {
                &&& savings.id() == self.links->0.savings_contract
                &&& honk_8w.id() == self.links->0.honk_8w
                &&& honk_12w.id() == self.links->0.honk_12w
                &&& honk_24w.id() == self.links->0.honk_24w
            },
        ensures
            r == (match proof_fault(
                self.links is Some,
                *public_inputs,
                *savings,
                by_tier(
                    tier_of(public_inputs.consistency_weeks)->0,
                    *honk_8w,
                    *honk_12w,
                    *honk_24w,
                ).accepts(proof@, public_inputs.words()),
            ) {
                Some(error) => Err(error),
                None => Ok(tier_of(public_inputs.consistency_weeks)->0),
            }),
    {
        let weeks: u32 = public_inputs.consistency_weeks;
        let tier = Self::weeks_to_tier(weeks)?;
        if public_inputs.nullifiers.len() as u64 != weeks as u64 {
            return Err(VerifierError::NullifierCountMismatch);
        }
        if public_inputs.commitments.len() as u64 != weeks as u64 {
            return Err(VerifierError::CommitmentCountMismatch);
        }
        if self.links.is_none() {
            return Err(VerifierError::NotInitialized);
        }
        if !Self::commitments_recorded(env, savings, &public_inputs.commitments) {
            return Err(VerifierError::CommitmentNotRecorded);
        }
        if !Self::nullifiers_spent(env, savings, &public_inputs.nullifiers) {
            return Err(VerifierError::NullifierNotRecorded);
        }
        let words = savings_inputs(
            Self::u64_to_bytes(public_inputs.min_weekly_amount),
            Self::u32_to_bytes(weeks),
            &public_inputs.commitments,
            &public_inputs.nullifiers,
        );
        let proof_ok = match tier {
            CreditTier::Medium => honk_8w.verify(env, proof, &words),
            CreditTier::Low => honk_12w.verify(env, proof, &words),
            CreditTier::VeryLow => honk_24w.verify(env, proof, &words),
        };
        if !proof_ok {
            return Err(VerifierError::ProofInvalid);
        }
        Ok(tier)
    }

    /// The record of `wallet`, unless it has expired at time `now`.
    pub fn get_credit_tier(&mut self, wallet: Address, now: u64) -> (r: Option<CreditRecord>)
        ensures
            r == valid_record(old(self).records@, wallet, now),
            final(self).links == old(self).links,
            final(self).records@ == old(self).records@,
            final(self).outbox@ == old(self).outbox@ + lookup_effects(
                old(self).records@,
                wallet,
                now,
            ),
    {
        match self.records.get(&wallet) {
            None => None,
            Some(record) => {
                let record = *record;
                if now > record.expires_at {
                    self.outbox.push(
                        VerifierEffect::Expired { wallet, expires_at: record.expires_at },
                    );
                    None
                } else {
                    Some(record)
                }
            },
        }
    }

    /// Whether `wallet` has a record that is valid at time `now`.
    pub fn is_credit_valid(&mut self, wallet: Address, now: u64) -> (r: bool)
        ensures
            r == (valid_record(old(self).records@, wallet, now) is Some),
            final(self).links == old(self).links,
            final(self).records@ == old(self).records@,
            final(self).outbox@ == old(self).outbox@ + lookup_effects(
                old(self).records@,
                wallet,
                now,
            ),
    {
        self.get_credit_tier(wallet, now).is_some()
    }

    /// The key of the verifier of a tier.
    pub fn get_verification_key<H: HonkVerifierInterface>(
        &self,
        env: &Env,
        honk_8w: &H,
        honk_12w: &H,
        honk_24w: &H,
        tier: CreditTier,
    ) -> (r: Result<Vec<u8>, VerifierError>)
        requires
            self.links is Some ==> {
                &&& honk_8w.id() == self.links->0.honk_8w
                &&& honk_12w.id() == self.links->0.honk_12w
                &&& honk_24w.id() == self.links->0.honk_24w
                &&& by_tier(tier, *honk_8w, *honk_12w, *honk_24w).key() is Some
            },
        ensures
            self.links is None ==> r == Err::<Vec<u8>, _>(VerifierError::NotInitialized),
            self.links is Some ==> r is Ok && by_tier(
                tier,
                *honk_8w,
                *honk_12w,
                *honk_24w,
            ).key() == Some(r->Ok_0@),
    {
        if self.links.is_none() {
            return Err(VerifierError::NotInitialized);
        }
        Ok(
            match tier {
                CreditTier::Medium => honk_8w.get_verification_key(env),
                CreditTier::Low => honk_12w.get_verification_key(env),
                CreditTier::VeryLow => honk_24w.get_verification_key(env),
            },
        )
    }

    /// The savings ledger and the verifiers of the three tiers.
    pub fn get_linked_contracts(&self) -> (r: Result<
        (Address, Address, Address, Address),
        VerifierError,
    >)
        ensures
            r == (match self.links {
                Some(links) => Ok(
                    (links.savings_contract, links.honk_8w, links.honk_12w, links.honk_24w),
                ),
                None => Err(VerifierError::NotInitialized),
            }),
    {
        match &self.links {
            Some(links) => Ok(
                (links.savings_contract, links.honk_8w, links.honk_12w, links.honk_24w),
            ),
            None => Err(VerifierError::NotInitialized),
        }
    }

    /// The address of the verifier of a tier.
    pub fn honk_for_tier(&self, tier: &CreditTier) -> (r: Result<Address, VerifierError>)
        ensures
            r == (match self.links {
                Some(links) => Ok(
                    by_tier(*tier, links.honk_8w, links.honk_12w, links.honk_24w),
                ),
                None => Err(VerifierError::NotInitialized),
            }),
    {
        match &self.links {
            Some(links) => Ok(
                match tier {
                    CreditTier::Medium => links.honk_8w,
                    CreditTier::Low => links.honk_12w,
                    CreditTier::VeryLow => links.honk_24w,
                },
            ),
            None => Err(VerifierError::NotInitialized),
        }
    }

    /// The tier of a number of weeks.
    pub fn weeks_to_tier(weeks: u32) -> (r: Result<CreditTier, VerifierError>)
        ensures
            r == (match tier_of(weeks) {
                Some(tier) => Ok(tier),
                None => Err(VerifierError::InvalidConsistencyWeeks),
            }),
    {
        match weeks {
            8 => Ok(CreditTier::Medium),
            12 => Ok(CreditTier::Low),
            24 => Ok(CreditTier::VeryLow),
            _ => Err(VerifierError::InvalidConsistencyWeeks),
        }
    }

    /// The word of a 64-bit number.
    pub fn u64_to_bytes(v: u64) -> (r: Bytes32)
        ensures
            r == word_of(v as nat),
            be_value(r@) == v,
    {
        encode_word(v as u128)
    }

    /// The word of a 32-bit number.
    pub fn u32_to_bytes(v: u32) -> (r: Bytes32)
        ensures
            r == word_of(v as nat),
            be_value(r@) == v,
    {
        encode_word(v as u128)
    }

    /// Whether the ledger has recorded every commitment.
    fn commitments_recorded<S: SavingsInterface>(
        env: &Env,
        savings: &S,
        commitments: &Vec<Bytes32>,
    ) -> (r: bool)
        ensures
            r == all_recorded(*savings, commitments@),
    {
        let mut i: usize = 0;
        while i < commitments.len()
            invariant
                i <= commitments@.len(),
                forall|j: int| 0 <= j < i ==> savings.recorded(#[trigger] commitments@[j]),
            decreases commitments@.len() - i,
        {
            if !savings.is_commitment_recorded(env, &commitments[i]) {
                assert(!savings.recorded(commitments@[i as int]));
                return false;
            }
            i += 1;
        }
        true
    }

    /// Whether the ledger has seen every nullifier.
    fn nullifiers_spent<S: SavingsInterface>(
        env: &Env,
        savings: &S,
        nullifiers: &Vec<Bytes32>,
    ) -> (r: bool)
        ensures
            r == all_spent(*savings, nullifiers@),
    {
        let mut i: usize = 0;
        while i < nullifiers.len()
            invariant
                i <= nullifiers@.len(),
                forall|j: int| 0 <= j < i ==> savings.spent(#[trigger] nullifiers@[j]),
            decreases nullifiers@.len() - i,
        {
            if !savings.is_nullifier_spent(env, &nullifiers[i]) {
                assert(!savings.spent(nullifiers@[i as int]));
                return false;
            }
            i += 1;
        }
        true
    }
}

// ---------------------------------------------------------------------------
// Laws
// ---------------------------------------------------------------------------

/// A proof is accepted exactly when it is over 8, 12 or 24 weeks with as many
/// commitments and nullifiers, the contract is linked, the ledger knows all of
/// them, and the verifier accepts.
pub proof fn law_credit_exactly_for_recorded_savings<S: SavingsInterface>(
    linked: bool,
    inputs: PublicInputs,
    savings: S,
    proof_ok: bool,
)
    ensures
        proof_fault(linked, inputs, savings, proof_ok) is None <==> {
            &&& inputs.consistency_weeks == 8 || inputs.consistency_weeks == 12
                || inputs.consistency_weeks == 24
            &&& inputs.commitments@.len() == inputs.consistency_weeks
            &&& inputs.nullifiers@.len() == inputs.consistency_weeks
            &&& linked
            &&& forall|i: int|
                0 <= i < inputs.commitments@.len() ==> savings.recorded(
                    #[trigger] inputs.commitments@[i],
                )
            &&& forall|i: int|
                0 <= i < inputs.nullifiers@.len() ==> savings.spent(
                    #[trigger] inputs.nullifiers@[i],
                )
            &&& proof_ok
        },
{
}

/// The verifier of a tier is shown two words and two more for each week: 18, 26 or
/// 50 of them.
pub proof fn law_input_count_follows_the_tier(inputs: PublicInputs)
    requires
        inputs.shape_fault() is None,
    ensures
        inputs.words().len() == (match tier_of(inputs.consistency_weeks)->0 {
            CreditTier::Medium => 18nat,
            CreditTier::Low => 26nat,
            CreditTier::VeryLow => 50nat,
        }),
{
}

/// A record is valid from the moment it is made until 90 days have passed, and not
/// afterwards; a later proof replaces it, and other wallets are not touched.
pub proof fn law_credit_lasts_90_days(
    records: Map<Address, CreditRecord>,
    wallet: Address,
    inputs: PublicInputs,
    verified: u64,
    other: Address,
    now: u64,
)
    requires
        verified + CREDIT_TTL_SECS <= u64::MAX,
    ensures
        ({
            let record = record_of(wallet, inputs, verified);
            let after = records.insert(wallet, record);
            &&& valid_record(after, wallet, now) == (if now <= verified + CREDIT_TTL_SECS {
                Some(record)
            } else {
                None
            })
            &&& other != wallet ==> valid_record(after, other, now) == valid_record(
                records,
                other,
                now,
            )
        }),
{
}

/// Of what the verifier is shown, word 0 is the least weekly amount, word 1 the number of
/// weeks, word `2 + i` commitment number `i` and word `2 + n + i` nullifier number `i`.
pub proof fn law_verifier_is_shown_the_inputs_in_circuit_order(inputs: PublicInputs, i: int)
    ensures
        ({
            let words = inputs.words();
            let n = inputs.commitments@.len();
            &&& words.len() == 2 + n + inputs.nullifiers@.len()
            &&& be_value(words[0]@) == inputs.min_weekly_amount
            &&& be_value(words[1]@) == inputs.consistency_weeks
            &&& 0 <= i < n ==> words[2 + i] == inputs.commitments@[i]
            &&& 0 <= i < inputs.nullifiers@.len() ==> words[2 + n + i] == inputs.nullifiers@[i]
        }),
{
    law_words_stand_in_circuit_order(
        inputs.min_weekly_amount,
        inputs.consistency_weeks,
        inputs.commitments@,
        inputs.nullifiers@,
        i,
    );
}

/// Each error of a proof that is turned down, with the inputs on which it comes.
pub proof fn law_each_error_of_a_proof<S: SavingsInterface>(
    linked: bool,
    inputs: PublicInputs,
    savings: S,
    proof_ok: bool,
)
    ensures
        ({
            let f = proof_fault(linked, inputs, savings, proof_ok);
            let weeks = inputs.consistency_weeks;
            let known_weeks = weeks == 8 || weeks == 12 || weeks == 24;
            let nullifiers_fit = inputs.nullifiers@.len() == weeks;
            let commitments_fit = inputs.commitments@.len() == weeks;
            let shaped = known_weeks && nullifiers_fit && commitments_fit;
            let recorded = forall|i: int|
                0 <= i < inputs.commitments@.len() ==> savings.recorded(
                    #[trigger] inputs.commitments@[i],
                );
            let spent = forall|i: int|
                0 <= i < inputs.nullifiers@.len() ==> savings.spent(
                    #[trigger] inputs.nullifiers@[i],
                );
            &&& f == Some(VerifierError::InvalidConsistencyWeeks) <==> !known_weeks
            &&& f == Some(VerifierError::NullifierCountMismatch) <==> known_weeks
                && !nullifiers_fit
            &&& f == Some(VerifierError::CommitmentCountMismatch) <==> known_weeks
                && nullifiers_fit && !commitments_fit
            &&& f == Some(VerifierError::NotInitialized) <==> shaped && !linked
            &&& f == Some(VerifierError::CommitmentNotRecorded) <==> shaped && linked && !recorded
            &&& f == Some(VerifierError::NullifierNotRecorded) <==> shaped && linked && recorded
                && !spent
            &&& f == Some(VerifierError::ProofInvalid) <==> shaped && linked && recorded && spent
                && !proof_ok
        }),
{
}

/// Eight weeks are the Medium tier, twelve the Low and twenty-four the VeryLow one, each
/// with its own verifier; no other number of weeks has a tier.
pub proof fn law_tiers_and_their_verifiers<T>(weeks: u32, at_8: T, at_12: T, at_24: T)
    ensures
        tier_of(8) == Some(CreditTier::Medium),
        tier_of(12) == Some(CreditTier::Low),
        tier_of(24) == Some(CreditTier::VeryLow),
        tier_of(weeks) is Some <==> weeks == 8 || weeks == 12 || weeks == 24,
        by_tier(CreditTier::Medium, at_8, at_12, at_24) == at_8,
        by_tier(CreditTier::Low, at_8, at_12, at_24) == at_12,
        by_tier(CreditTier::VeryLow, at_8, at_12, at_24) == at_24,
{
}

/// What a record says: the wallet, the tier of its weeks, the time of the proof, the weeks
/// and an expiry 7,776,000 seconds later.
pub proof fn law_record_says_what_was_proved(wallet: Address, inputs: PublicInputs, now: u64)
    requires
        now + 7_776_000 <= u64::MAX,
    ensures
        ({
            let record = record_of(wallet, inputs, now);
            &&& record.wallet == wallet
            &&& record.verified_at == now
            &&& record.consistency_weeks == inputs.consistency_weeks
            &&& record.expires_at == now + 7_776_000
            &&& inputs.consistency_weeks == 8 ==> record.tier == CreditTier::Medium
            &&& inputs.consistency_weeks == 12 ==> record.tier == CreditTier::Low
            &&& inputs.consistency_weeks == 24 ==> record.tier == CreditTier::VeryLow
        }),
{
}

/// A wallet's record is shown as it is stored up to and at its expiry; later it is not
/// shown, and looking it up publishes that it has expired, and nothing else ever does.
pub proof fn law_records_are_shown_until_they_expire(
    records: Map<Address, CreditRecord>,
    wallet: Address,
    now: u64,
)
    ensures
        !records.contains_key(wallet) ==> valid_record(records, wallet, now) is None
            && lookup_effects(records, wallet, now).len() == 0,
        records.contains_key(wallet) && now <= records[wallet].expires_at ==> valid_record(
            records,
            wallet,
            now,
        ) == Some(records[wallet]) && lookup_effects(records, wallet, now).len() == 0,
        records.contains_key(wallet) && now > records[wallet].expires_at ==> valid_record(
            records,
            wallet,
            now,
        ) is None && lookup_effects(records, wallet, now) == seq![
            VerifierEffect::Expired { wallet, expires_at: records[wallet].expires_at },
        ],
{
}

/// Credit is given for deposits that are in the ledger: where a proof is accepted, each of
/// its commitments and each of its nullifiers belongs to a deposit recorded there.
pub proof fn law_credit_is_for_recorded_deposits(
    inputs: PublicInputs,
    ledger: SavingsContract,
    proof_ok: bool,
    i: int,
)
    requires
        ledger@.consistent(),
        proof_fault(true, inputs, ledger, proof_ok) is None,
        0 <= i < inputs.consistency_weeks,
    ensures
        exists|k: int|
            0 <= k < ledger@.commitments.len() && (#[trigger] ledger@.commitments[k]).hash
                == inputs.commitments@[i],
        exists|k: int|
            0 <= k < ledger@.commitments.len() && (#[trigger] ledger@.commitments[k]).nullifier
                == inputs.nullifiers@[i],
{
    assert(ledger.recorded(inputs.commitments@[i]));
    assert(ledger.spent(inputs.nullifiers@[i]));
    assert(ledger@.is_recorded(inputs.commitments@[i]));
    assert(ledger@.is_spent(inputs.nullifiers@[i]));
}

/// The number that each error is reported by.
pub proof fn law_error_numbers(e: VerifierError)
    ensures
        1 <= e.number() <= 8,
        e == VerifierError::AlreadyInitialized <==> e.number() == 1,
        e == VerifierError::NotInitialized <==> e.number() == 2,
        e == VerifierError::InvalidConsistencyWeeks <==> e.number() == 3,
        e == VerifierError::NullifierCountMismatch <==> e.number() == 4,
        e == VerifierError::CommitmentCountMismatch <==> e.number() == 5,
        e == VerifierError::NullifierNotRecorded <==> e.number() == 6,
        e == VerifierError::CommitmentNotRecorded <==> e.number() == 7,
        e == VerifierError::ProofInvalid <==> e.number() == 8,
{
}

} // verus!
