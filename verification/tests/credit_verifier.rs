use soroban_sdk::Env;
use zava::address::Address;
use zava::bytes::Bytes32;
use zava::credit_verifier::{
    CreditRecord, CreditTier, PublicInputs, VerifierContract, VerifierEffect, VerifierError,
};
use zava::honk_verifier::HonkVerifierInterface;
use zava::savings::SavingsContract;

// ---------------------------------------------------------------------------
// Harness
// ---------------------------------------------------------------------------

/// Accepts every proof of at least 192 bytes with the right number of public
/// inputs.
struct StubVerifier {
    vk_bytes: Vec<u8>,
    num_public_inputs: usize,
}

impl HonkVerifierInterface for StubVerifier {
    fn verify(&self, _env: &Env, proof: &Vec<u8>, public_inputs: &Vec<Bytes32>) -> bool {
        proof.len() >= 192 && public_inputs.len() == self.num_public_inputs
    }

    fn get_verification_key(&self, _env: &Env) -> Vec<u8> {
        self.vk_bytes.clone()
    }
}

struct Harness {
    env: Env,
    savings: SavingsContract,
    verifier: VerifierContract,
    honk: [StubVerifier; 3],
    next_address: u8,
}

const LINKS: [Address; 4] = [
    Address::Contract([0x11; 32]),
    Address::Contract([0x22; 32]),
    Address::Contract([0x33; 32]),
    Address::Contract([0x44; 32]),
];

impl Harness {
    fn generate(&mut self) -> Address {
        self.next_address += 1;
        Address::Account([self.next_address; 32])
    }

    fn verify_at(
        &mut self,
        wallet: Address,
        inputs: &PublicInputs,
        now: u64,
    ) -> Result<CreditTier, VerifierError> {
        self.verifier.verify_proof(
            &self.env,
            &self.savings,
            &self.honk[0],
            &self.honk[1],
            &self.honk[2],
            wallet,
            &fixture_proof(),
            inputs,
            now,
        )
    }

    fn verify(
        &mut self,
        wallet: Address,
        inputs: &PublicInputs,
    ) -> Result<CreditTier, VerifierError> {
        self.verify_at(wallet, inputs, 0)
    }
}

fn make_hash(seed: u8) -> Bytes32 {
    [seed; 32]
}

fn fixture_proof() -> Vec<u8> {
    vec![0u8; 192]
}

fn honk_input_count(weeks: u32) -> u32 {
    2 + 2 * weeks
}

fn stub(weeks: u32) -> StubVerifier {
    StubVerifier {
        vk_bytes: vec![0xAB; 64],
        num_public_inputs: honk_input_count(weeks) as usize,
    }
}

fn setup() -> Harness {
    let mut verifier = VerifierContract::new();
    assert_eq!(verifier.initialize(LINKS[0], LINKS[1], LINKS[2], LINKS[3]), Ok(()));
    Harness {
        env: Env::default(),
        savings: SavingsContract::new(LINKS[0]),
        verifier,
        honk: [stub(8), stub(12), stub(24)],
        next_address: 0,
    }
}

fn seed_savings(h: &mut Harness, weeks: u32) -> (Vec<Bytes32>, Vec<Bytes32>) {
    let mut commitments = Vec::new();
    let mut nullifiers = Vec::new();
    for w in 0..weeks {
        let commitment = make_hash((w as u8).wrapping_add(1));
        let nullifier = make_hash((w as u8).wrapping_add(100));
        assert_eq!(h.savings.deposit(&h.env, commitment, nullifier, w, 0), Ok(()));
        commitments.push(commitment);
        nullifiers.push(nullifier);
    }
    (commitments, nullifiers)
}

fn public_inputs_for(weeks: u32, seeded: (Vec<Bytes32>, Vec<Bytes32>)) -> PublicInputs {
    PublicInputs {
        min_weekly_amount: 400_000_000,
        consistency_weeks: weeks,
        commitments: seeded.0,
        nullifiers: seeded.1,
    }
}

fn unseeded(commitments: u8, nullifiers: u8, weeks: u32) -> PublicInputs {
    PublicInputs {
        min_weekly_amount: 1,
        consistency_weeks: weeks,
        commitments: (0..commitments).map(make_hash).collect(),
        nullifiers: (0..nullifiers).map(|w| make_hash(w + 100)).collect(),
    }
}

// ---------------------------------------------------------------------------
// Tests
// ---------------------------------------------------------------------------

#[test]
fn end_to_end_medium_tier() {
    let mut h = setup();
    let inputs = public_inputs_for(8, seed_savings(&mut h, 8));
    let wallet = h.generate();

    assert_eq!(h.verify(wallet, &inputs), Ok(CreditTier::Medium));

    let record = h.verifier.get_credit_tier(wallet, 0).unwrap();
    assert_eq!(record.tier, CreditTier::Medium);
    assert_eq!(record.consistency_weeks, 8);
    assert!(h.verifier.is_credit_valid(wallet, 0));
}

#[test]
fn end_to_end_low_tier() {
    let mut h = setup();
    let inputs = public_inputs_for(12, seed_savings(&mut h, 12));
    let wallet = h.generate();
    assert_eq!(h.verify(wallet, &inputs), Ok(CreditTier::Low));
}

#[test]
fn end_to_end_very_low_tier() {
    let mut h = setup();
    let inputs = public_inputs_for(24, seed_savings(&mut h, 24));
    let wallet = h.generate();
    assert_eq!(h.verify(wallet, &inputs), Ok(CreditTier::VeryLow));
}

#[test]
fn invalid_week_count_rejected() {
    let mut h = setup();
    let inputs = unseeded(7, 7, 7);
    let wallet = h.generate();
    assert_eq!(h.verify(wallet, &inputs), Err(VerifierError::InvalidConsistencyWeeks));
}

#[test]
fn nullifier_count_mismatch_rejected() {
    let mut h = setup();
    let inputs = unseeded(8, 7, 8);
    let wallet = h.generate();
    assert_eq!(h.verify(wallet, &inputs), Err(VerifierError::NullifierCountMismatch));
}

#[test]
fn commitment_count_mismatch_rejected() {
    let mut h = setup();
    let inputs = unseeded(7, 8, 8);
    let wallet = h.generate();
    assert_eq!(h.verify(wallet, &inputs), Err(VerifierError::CommitmentCountMismatch));
}

#[test]
fn unrecorded_nullifier_rejected() {
    let mut h = setup();
    let (commitments, mut nullifiers) = seed_savings(&mut h, 8);
    nullifiers[7] = make_hash(0xEE);
    let inputs = public_inputs_for(8, (commitments, nullifiers));
    let wallet = h.generate();
    assert_eq!(h.verify(wallet, &inputs), Err(VerifierError::NullifierNotRecorded));
}

#[test]
fn unrecorded_commitment_rejected() {
    let mut h = setup();
    let (mut commitments, nullifiers) = seed_savings(&mut h, 8);
    commitments[7] = make_hash(0xDD);
    let inputs = public_inputs_for(8, (commitments, nullifiers));
    let wallet = h.generate();
    assert_eq!(h.verify(wallet, &inputs), Err(VerifierError::CommitmentNotRecorded));
}

#[test]
fn double_initialize_rejected() {
    let mut h = setup();
    let other = h.generate();
    let res = h.verifier.initialize(other, other, other, other);
    assert_eq!(res, Err(VerifierError::AlreadyInitialized));
}

#[test]
fn get_linked_contracts_returns_four_addresses() {
    let h = setup();
    let (s, g8, g12, g24) = h.verifier.get_linked_contracts().unwrap();
    assert!(s != g8 && s != g12 && s != g24);
    assert!(g8 != g12 && g8 != g24 && g12 != g24);
    assert_eq!([s, g8, g12, g24], LINKS);
}

#[test]
fn get_verification_key_per_tier() {
    let h = setup();
    let key = |tier: CreditTier| {
        h.verifier.get_verification_key(&h.env, &h.honk[0], &h.honk[1], &h.honk[2], tier)
    };
    let vk_medium = key(CreditTier::Medium);
    let vk_low = key(CreditTier::Low);
    let vk_very_low = key(CreditTier::VeryLow);
    assert_eq!(vk_medium, vk_low);
    assert_eq!(vk_low, vk_very_low);
    assert_eq!(vk_low, Ok(vec![0xAB; 64]));
}

#[test]
fn each_tier_has_its_own_verifier() {
    let mut h = setup();
    h.honk[0].vk_bytes = vec![8];
    h.honk[1].vk_bytes = vec![12];
    h.honk[2].vk_bytes = vec![24];
    let tiers = [CreditTier::Medium, CreditTier::Low, CreditTier::VeryLow];
    for (i, tier) in tiers.iter().enumerate() {
        let key =
            h.verifier.get_verification_key(&h.env, &h.honk[0], &h.honk[1], &h.honk[2], *tier);
        assert_eq!(key, Ok(h.honk[i].vk_bytes.clone()));
        assert_eq!(h.verifier.honk_for_tier(tier), Ok(LINKS[i + 1]));
    }
    // With the verifiers of the other tiers, the number of inputs is wrong.
    let inputs = public_inputs_for(8, seed_savings(&mut h, 8));
    h.honk.swap(0, 1);
    let wallet = h.generate();
    assert_eq!(h.verify(wallet, &inputs), Err(VerifierError::ProofInvalid));
}

#[test]
fn unlinked_verifier_refuses() {
    let mut h = setup();
    h.verifier = VerifierContract::new();
    let inputs = public_inputs_for(8, seed_savings(&mut h, 8));
    let wallet = h.generate();
    assert_eq!(h.verify(wallet, &inputs), Err(VerifierError::NotInitialized));
    // The number of weeks is looked at first.
    assert_eq!(
        h.verify(wallet, &unseeded(7, 7, 7)),
        Err(VerifierError::InvalidConsistencyWeeks)
    );
    assert_eq!(h.verifier.get_linked_contracts(), Err(VerifierError::NotInitialized));
    assert_eq!(
        h.verifier.honk_for_tier(&CreditTier::Low),
        Err(VerifierError::NotInitialized)
    );
    assert_eq!(
        h.verifier.get_verification_key(
            &h.env,
            &h.honk[0],
            &h.honk[1],
            &h.honk[2],
            CreditTier::Low
        ),
        Err(VerifierError::NotInitialized)
    );
}

#[test]
fn accepted_and_rejected_proofs_are_announced() {
    let mut h = setup();
    let inputs = public_inputs_for(8, seed_savings(&mut h, 8));
    let wallet = h.generate();
    let now: u64 = 1_000;
    assert_eq!(h.verify_at(wallet, &inputs, now), Ok(CreditTier::Medium));
    let expires_at = now + 90 * 24 * 60 * 60;
    assert_eq!(
        h.verifier.outbox,
        vec![
            VerifierEffect::RequireAuth { address: wallet },
            VerifierEffect::Verified { wallet, consistency_weeks: 8, expires_at },
        ]
    );
    assert_eq!(
        h.verifier.get_credit_tier(wallet, now),
        Some(CreditRecord {
            wallet,
            tier: CreditTier::Medium,
            verified_at: now,
            consistency_weeks: 8,
            expires_at,
        })
    );
    h.verifier.outbox.clear();
    h.honk[0].num_public_inputs = 0;
    assert_eq!(h.verify_at(wallet, &inputs, now), Err(VerifierError::ProofInvalid));
    assert_eq!(
        h.verifier.outbox,
        vec![
            VerifierEffect::RequireAuth { address: wallet },
            VerifierEffect::Rejected { wallet },
        ]
    );
}

#[test]
fn expired_credit_is_announced_as_such() {
    let mut h = setup();
    let inputs = public_inputs_for(8, seed_savings(&mut h, 8));
    let wallet = h.generate();
    assert_eq!(h.verify(wallet, &inputs), Ok(CreditTier::Medium));
    h.verifier.outbox.clear();
    let expires_at: u64 = 90 * 24 * 60 * 60;
    assert!(h.verifier.is_credit_valid(wallet, expires_at));
    assert!(h.verifier.outbox.is_empty());
    assert_eq!(h.verifier.get_credit_tier(wallet, expires_at + 1), None);
    assert_eq!(h.verifier.outbox, vec![VerifierEffect::Expired { wallet, expires_at }]);
    let stranger = h.generate();
    assert_eq!(h.verifier.get_credit_tier(stranger, 0), None);
}

#[test]
fn a_later_proof_replaces_the_record() {
    let mut h = setup();
    let seeded = seed_savings(&mut h, 24);
    let short = public_inputs_for(8, (seeded.0[..8].to_vec(), seeded.1[..8].to_vec()));
    let long = public_inputs_for(24, seeded);
    let wallet = h.generate();
    assert_eq!(h.verify_at(wallet, &short, 5), Ok(CreditTier::Medium));
    assert_eq!(h.verify_at(wallet, &long, 9), Ok(CreditTier::VeryLow));
    let record = h.verifier.get_credit_tier(wallet, 9).unwrap();
    assert_eq!(record.tier, CreditTier::VeryLow);
    assert_eq!(record.verified_at, 9);
}

#[test]
fn proofs_at_the_end_of_time() {
    let mut h = setup();
    let inputs = public_inputs_for(8, seed_savings(&mut h, 8));
    let wallet = h.generate();
    let last = u64::MAX - 90 * 24 * 60 * 60;
    let mut attempt = |inputs: &PublicInputs, proof: &Vec<u8>, now: u64| {
        h.verifier.try_verify_proof(
            &h.env, &h.savings, &h.honk[0], &h.honk[1], &h.honk[2], wallet, proof, inputs, now,
        )
    };
    assert_eq!(
        attempt(&unseeded(7, 7, 7), &fixture_proof(), u64::MAX),
        Some(Err(VerifierError::InvalidConsistencyWeeks))
    );
    assert_eq!(
        attempt(&inputs, &vec![0; 10], last + 1),
        Some(Err(VerifierError::ProofInvalid))
    );
    assert_eq!(attempt(&inputs, &fixture_proof(), last + 1), None);
    assert_eq!(attempt(&inputs, &fixture_proof(), last), Some(Ok(CreditTier::Medium)));
    assert_eq!(h.verifier.get_credit_tier(wallet, last).unwrap().expires_at, u64::MAX);
    assert_eq!(
        h.verifier.outbox,
        vec![
            VerifierEffect::RequireAuth { address: wallet },
            VerifierEffect::RequireAuth { address: wallet },
            VerifierEffect::Rejected { wallet },
            VerifierEffect::RequireAuth { address: wallet },
            VerifierEffect::RequireAuth { address: wallet },
            VerifierEffect::Verified { wallet, consistency_weeks: 8, expires_at: u64::MAX },
        ]
    );
}

#[test]
fn tiers_need_exact_week_counts() {
    assert_eq!(VerifierContract::weeks_to_tier(8), Ok(CreditTier::Medium));
    assert_eq!(VerifierContract::weeks_to_tier(12), Ok(CreditTier::Low));
    assert_eq!(VerifierContract::weeks_to_tier(24), Ok(CreditTier::VeryLow));
    for weeks in [0, 7, 9, 11, 13, 23, 25, u32::MAX] {
        assert_eq!(
            VerifierContract::weeks_to_tier(weeks),
            Err(VerifierError::InvalidConsistencyWeeks)
        );
    }
}

#[test]
fn verifier_numbers_as_words() {
    let mut word = [0u8; 32];
    word[24..32].copy_from_slice(&400_000_000u64.to_be_bytes());
    assert_eq!(VerifierContract::u64_to_bytes(400_000_000), word);
    let mut word = [0u8; 32];
    word[31] = 24;
    assert_eq!(VerifierContract::u32_to_bytes(24), word);
}

#[test]
fn verifier_error_numbers() {
    let errors = [
        VerifierError::AlreadyInitialized,
        VerifierError::NotInitialized,
        VerifierError::InvalidConsistencyWeeks,
        VerifierError::NullifierCountMismatch,
        VerifierError::CommitmentCountMismatch,
        VerifierError::NullifierNotRecorded,
        VerifierError::CommitmentNotRecorded,
        VerifierError::ProofInvalid,
    ];
    for (i, error) in errors.iter().enumerate() {
        assert_eq!(error.code(), i as u32 + 1);
    }
}
