use soroban_sdk::Env;
use zava::address::Address;
use zava::bytes::Bytes32;
use zava::honk_verifier::HonkVerifierInterface;
use zava::zava_credit::{
    CreditClaim, CreditEffect, CreditError, CreditRecord, CreditTier, SavingsRange,
    VaultInterface, ZavaCredit, CREDIT_TTL_SECS,
};
use zava::zava_vault::{WithdrawPublicInputs, ZavaVault};

// ---------------------------------------------------------------------------
// Harness
// ---------------------------------------------------------------------------

/// A vault that pairs each commitment with one nullifier.
struct MockVault {
    deposits: Vec<(Bytes32, Bytes32)>,
    spent: Vec<Bytes32>,
}

impl MockVault {
    fn add_deposit(&mut self, commitment: Bytes32, nullifier: Bytes32) {
        self.deposits.retain(|entry| entry.0 != commitment);
        self.deposits.push((commitment, nullifier));
    }

    fn mark_spent(&mut self, nullifier: Bytes32) {
        self.spent.push(nullifier);
    }
}

impl VaultInterface for MockVault {
    fn commitment_exists(&self, _env: &Env, commitment: &Bytes32) -> bool {
        self.deposits.iter().any(|entry| entry.0 == *commitment)
    }

    fn commitment_matches_nullifier(
        &self,
        _env: &Env,
        commitment: &Bytes32,
        nullifier: &Bytes32,
    ) -> bool {
        self.deposits.iter().any(|entry| entry.0 == *commitment && entry.1 == *nullifier)
    }

    fn is_nullifier_spent(&self, _env: &Env, nullifier: &Bytes32) -> bool {
        self.spent.contains(nullifier)
    }
}

struct StubVerifier {
    answer: bool,
}

impl HonkVerifierInterface for StubVerifier {
    fn verify(&self, _env: &Env, _proof: &Vec<u8>, _public_inputs: &Vec<Bytes32>) -> bool {
        self.answer
    }

    fn get_verification_key(&self, _env: &Env) -> Vec<u8> {
        Vec::new()
    }
}

struct ExactVerifier {
    expected: Vec<Bytes32>,
}

impl HonkVerifierInterface for ExactVerifier {
    fn verify(&self, _env: &Env, _proof: &Vec<u8>, public_inputs: &Vec<Bytes32>) -> bool {
        *public_inputs == self.expected
    }

    fn get_verification_key(&self, _env: &Env) -> Vec<u8> {
        Vec::new()
    }
}

struct Harness {
    env: Env,
    credit: ZavaCredit,
    vault: MockVault,
    honk: StubVerifier,
    next_address: u8,
}

impl Harness {
    fn generate(&mut self) -> Address {
        self.next_address += 1;
        Address::Account([self.next_address; 32])
    }

    fn claim_at(
        &mut self,
        wallet: Address,
        claim: &CreditClaim,
        now: u64,
    ) -> Result<CreditRecord, CreditError> {
        let proof = Vec::new();
        self.credit.claim_credit(&self.env, &self.vault, &self.honk, wallet, &proof, claim, now)
    }

    fn claim(&mut self, wallet: Address, claim: &CreditClaim) -> Result<CreditRecord, CreditError> {
        self.claim_at(wallet, claim, 0)
    }
}

fn setup_with(answer: bool) -> Harness {
    let mut credit = ZavaCredit::new();
    assert_eq!(credit.initialize(VAULT_ID, HONK_ID), Ok(()));
    Harness {
        env: Env::default(),
        credit,
        vault: MockVault { deposits: Vec::new(), spent: Vec::new() },
        honk: StubVerifier { answer },
        next_address: 0,
    }
}

const VAULT_ID: Address = Address::Contract([0xC1; 32]);
const HONK_ID: Address = Address::Contract([0xC2; 32]);

fn setup() -> Harness {
    setup_with(true)
}

fn setup_reject_verifier() -> Harness {
    setup_with(false)
}

fn b32(seed: u8) -> Bytes32 {
    [seed; 32]
}

fn populate_vault(h: &mut Harness, n: u32) -> (Vec<Bytes32>, Vec<Bytes32>, Vec<u32>) {
    let mut commits = Vec::new();
    let mut nulls = Vec::new();
    let mut weeks = Vec::new();
    for i in 0..n {
        let c = b32((i + 1) as u8);
        let n = b32((100 + i) as u8);
        h.vault.add_deposit(c, n);
        commits.push(c);
        nulls.push(n);
        weeks.push(i);
    }
    (commits, nulls, weeks)
}

fn populate_vault_with_offset(
    h: &mut Harness,
    n: u32,
    seed_offset: u8,
) -> (Vec<Bytes32>, Vec<Bytes32>, Vec<u32>) {
    let mut commits = Vec::new();
    let mut nulls = Vec::new();
    let mut weeks = Vec::new();
    for i in 0..n {
        let mut c = [0u8; 32];
        c[0] = seed_offset;
        c[31] = i as u8;
        let mut n = [0u8; 32];
        n[0] = seed_offset;
        n[31] = 200 - (i as u8);
        h.vault.add_deposit(c, n);
        commits.push(c);
        nulls.push(n);
        weeks.push(i);
    }
    (commits, nulls, weeks)
}

fn claim_with_range(
    range: SavingsRange,
    deposits: (Vec<Bytes32>, Vec<Bytes32>, Vec<u32>),
) -> CreditClaim {
    CreditClaim {
        savings_range: range,
        commitments: deposits.0,
        nullifiers: deposits.1,
        weeks: deposits.2,
    }
}

fn claim_of(deposits: (Vec<Bytes32>, Vec<Bytes32>, Vec<u32>)) -> CreditClaim {
    claim_with_range(SavingsRange::R20, deposits)
}

// ---------------------------------------------------------------------------
// Setup and reads
// ---------------------------------------------------------------------------

#[test]
fn initialize_once_only() {
    let mut h = setup();
    let result = h.credit.initialize(VAULT_ID, VAULT_ID);
    assert_eq!(result, Err(CreditError::AlreadyInitialized));
    assert_eq!(h.credit.get_linked_contracts(), Ok((VAULT_ID, HONK_ID)));
}

#[test]
fn no_record_when_unverified() {
    let mut h = setup();
    let wallet = h.generate();
    assert!(h.credit.get_credit_record(&wallet, 0).is_none());
    assert!(!h.credit.is_credit_valid(&wallet, 0));
}

#[test]
fn unlinked_contract_issues_nothing() {
    let mut h = setup();
    h.credit = ZavaCredit::new();
    let wallet = h.generate();
    let claim = claim_of(populate_vault(&mut h, 8));
    assert_eq!(h.claim(wallet, &claim), Err(CreditError::NotInitialized));
    assert_eq!(h.credit.get_linked_contracts(), Err(CreditError::NotInitialized));
}

// ---------------------------------------------------------------------------
// Claims
// ---------------------------------------------------------------------------

#[test]
fn empty_claim_rejected() {
    let mut h = setup();
    let wallet = h.generate();
    let claim = claim_of((Vec::new(), Vec::new(), Vec::new()));
    assert_eq!(h.claim(wallet, &claim), Err(CreditError::EmptyClaim));
}

#[test]
fn mismatched_array_lengths_rejected() {
    let mut h = setup();
    let wallet = h.generate();
    let claim = claim_of((vec![b32(1)], Vec::new(), Vec::new()));
    assert_eq!(h.claim(wallet, &claim), Err(CreditError::LengthMismatch));
    let claim = claim_of((vec![b32(1)], vec![b32(2)], Vec::new()));
    assert_eq!(h.claim(wallet, &claim), Err(CreditError::LengthMismatch));
}

#[test]
fn duplicate_nullifier_in_claim_rejected() {
    let mut h = setup();
    let wallet = h.generate();
    let (commits, mut nulls, weeks) = populate_vault(&mut h, 8);
    nulls[1] = nulls[0];
    h.vault.add_deposit(commits[1], nulls[0]);
    let claim = claim_of((commits, nulls, weeks));
    assert_eq!(h.claim(wallet, &claim), Err(CreditError::DuplicateNullifier));
}

#[test]
fn medium_tier_with_8_active_weeks() {
    let mut h = setup();
    let wallet = h.generate();
    let claim = claim_of(populate_vault(&mut h, 8));

    let record = h.claim(wallet, &claim).unwrap();
    assert_eq!(record.tier, CreditTier::Medium);
    assert_eq!(record.active_weeks, 8);
    assert_eq!(record.withdrawn_weeks, 0);
    assert!(h.credit.is_credit_valid(&wallet, 0));
}

#[test]
fn low_tier_with_12_active_weeks() {
    let mut h = setup();
    let wallet = h.generate();
    let claim = claim_of(populate_vault(&mut h, 12));
    let record = h.claim(wallet, &claim).unwrap();
    assert_eq!(record.tier, CreditTier::Low);
    assert_eq!(record.active_weeks, 12);
}

#[test]
fn very_low_tier_with_24_active_weeks() {
    let mut h = setup();
    let wallet = h.generate();
    let claim = claim_of(populate_vault(&mut h, 24));
    let record = h.claim(wallet, &claim).unwrap();
    assert_eq!(record.tier, CreditTier::VeryLow);
    assert_eq!(record.active_weeks, 24);
}

#[test]
fn not_enough_weeks_rejected() {
    let mut h = setup();
    let wallet = h.generate();
    let claim = claim_of(populate_vault(&mut h, 7));
    assert_eq!(h.claim(wallet, &claim), Err(CreditError::NotEnoughActiveWeeks));
}

#[test]
fn withdrawn_deposit_demotes_tier() {
    let mut h = setup();
    let wallet = h.generate();
    let (commits, nulls, weeks) = populate_vault(&mut h, 12);
    for i in 0..5 {
        h.vault.mark_spent(nulls[i]);
    }
    let claim = claim_of((commits, nulls, weeks));
    assert_eq!(h.claim(wallet, &claim), Err(CreditError::NotEnoughActiveWeeks));
}

#[test]
fn net_based_scoring_demotes_low_to_medium() {
    let mut h = setup();
    let wallet = h.generate();
    let (commits, nulls, weeks) = populate_vault(&mut h, 12);
    for i in 0..4 {
        h.vault.mark_spent(nulls[i]);
    }
    let claim = claim_of((commits, nulls, weeks));
    let record = h.claim(wallet, &claim).unwrap();
    assert_eq!(record.tier, CreditTier::Medium);
    assert_eq!(record.active_weeks, 8);
    assert_eq!(record.withdrawn_weeks, 4);
}

#[test]
fn fake_commitment_not_in_vault_rejected() {
    let mut h = setup();
    let wallet = h.generate();
    let (mut commits, mut nulls, mut weeks) = populate_vault(&mut h, 7);
    commits.push(b32(200));
    nulls.push(b32(201));
    weeks.push(7);
    let claim = claim_of((commits, nulls, weeks));
    assert_eq!(h.claim(wallet, &claim), Err(CreditError::CommitmentNotInVault));
}

#[test]
fn wrong_nullifier_for_real_commitment_rejected() {
    let mut h = setup();
    let wallet = h.generate();
    let (commits, mut nulls, weeks) = populate_vault(&mut h, 8);
    nulls[3] = b32(99);
    let claim = claim_of((commits, nulls, weeks));
    assert_eq!(h.claim(wallet, &claim), Err(CreditError::BindingMismatch));
}

#[test]
fn one_deposit_cannot_be_claimed_twice() {
    let mut h = setup();
    let wallet = h.generate();
    let (mut commits, nulls, weeks) = populate_vault(&mut h, 8);
    commits[7] = commits[0];
    let claim = claim_of((commits, nulls, weeks));
    assert_eq!(h.claim(wallet, &claim), Err(CreditError::BindingMismatch));
}

#[test]
fn first_wrong_deposit_decides_the_error() {
    let mut h = setup();
    let wallet = h.generate();
    let (mut commits, mut nulls, weeks) = populate_vault(&mut h, 8);
    nulls[2] = b32(99);
    commits[5] = b32(250);
    let claim = claim_of((commits, nulls, weeks));
    assert_eq!(h.claim(wallet, &claim), Err(CreditError::BindingMismatch));
}

#[test]
fn invalid_zk_proof_rejected() {
    let mut h = setup_reject_verifier();
    let wallet = h.generate();
    let claim = claim_of(populate_vault(&mut h, 8));
    assert_eq!(h.claim(wallet, &claim), Err(CreditError::ProofInvalid));
}

#[test]
fn re_claim_overwrites_previous_record() {
    let mut h = setup();
    let wallet = h.generate();
    let (commits, nulls, weeks) = populate_vault(&mut h, 8);

    let first = h
        .claim(wallet, &claim_of((commits.clone(), nulls.clone(), weeks.clone())))
        .unwrap();
    assert_eq!(first.tier, CreditTier::Medium);

    let (extra_c, extra_n, extra_w) = populate_vault_with_offset(&mut h, 4, 50);
    let mut all_c = commits;
    let mut all_n = nulls;
    let mut all_w = weeks;
    for i in 0..4 {
        all_c.push(extra_c[i]);
        all_n.push(extra_n[i]);
        all_w.push(extra_w[i] + 8);
    }
    let second = h.claim(wallet, &claim_of((all_c, all_n, all_w))).unwrap();
    assert_eq!(second.tier, CreditTier::Low);
    assert_eq!(second.active_weeks, 12);
    assert_eq!(h.credit.get_credit_record(&wallet, 0), Some(second));
}

#[test]
fn claim_shows_the_verifier_bound_count_commitments_and_nullifiers() {
    let mut h = setup();
    let wallet = h.generate();
    let (commits, nulls, weeks) = populate_vault(&mut h, 8);
    let mut bound = [0u8; 32];
    bound[24..32].copy_from_slice(&(200u64 * 10_000_000).to_be_bytes());
    let mut count = [0u8; 32];
    count[31] = 8;
    let mut expected = vec![bound, count];
    expected.extend(commits.iter());
    expected.extend(nulls.iter());
    let honk = ExactVerifier { expected };
    let claim = claim_of((commits, nulls, weeks));
    let proof = Vec::new();
    let result =
        h.credit.claim_credit(&h.env, &h.vault, &honk, wallet, &proof, &claim, 1_000);
    assert!(result.is_ok());
    let other = claim_with_range(SavingsRange::R5, populate_vault(&mut h, 8));
    let result = h.credit.claim_credit(&h.env, &h.vault, &honk, wallet, &proof, &other, 1_000);
    assert_eq!(result, Err(CreditError::ProofInvalid));
}

#[test]
fn claim_asks_for_authorisation_and_announces_the_credit() {
    let mut h = setup();
    let wallet = h.generate();
    let claim = claim_of(populate_vault(&mut h, 8));
    assert!(h.claim(wallet, &claim).is_ok());
    assert_eq!(
        h.credit.outbox,
        vec![
            CreditEffect::RequireAuth { address: wallet },
            CreditEffect::Issued {
                wallet,
                active_weeks: 8,
                loan_eligible_stroops: 32_000_000_000
            },
        ]
    );
}

#[test]
fn credit_expires_after_90_days() {
    let mut h = setup();
    let wallet = h.generate();
    let claim = claim_of(populate_vault(&mut h, 8));
    let issued: u64 = 1_700_000_000;
    let record = h.claim_at(wallet, &claim, issued).unwrap();
    assert_eq!(record.verified_at, issued);
    assert_eq!(record.expires_at, issued + 90 * 24 * 60 * 60);
    assert_eq!(CREDIT_TTL_SECS, 90 * 24 * 60 * 60);
    assert!(h.credit.is_credit_valid(&wallet, record.expires_at));
    assert!(!h.credit.is_credit_valid(&wallet, record.expires_at + 1));
    assert_eq!(h.credit.get_loan_eligibility(&wallet, record.expires_at + 1), 0);
}

#[test]
fn withdrawing_from_the_vault_lowers_the_score() {
    let env = Env::default();
    let mut vault = ZavaVault::new(&env, VAULT_ID);
    let account = Address::Account([1; 32]);
    let contract = Address::Contract([2; 32]);
    assert_eq!(vault.initialize(&env, account, contract, contract, contract), Ok(()));
    let mut commits = Vec::new();
    let mut nulls = Vec::new();
    for i in 0..12u8 {
        assert!(vault.deposit(&env, account, b32(i + 1), b32(i + 101), 10, Vec::new()).is_ok());
        commits.push(b32(i + 1));
        nulls.push(b32(i + 101));
    }
    assert_eq!(ZavaCredit::count_weeks(&env, &vault, &commits, &nulls), Ok((12, 0)));

    let inputs = WithdrawPublicInputs {
        commitment: commits[4],
        root: vault.get_root(),
        nullifier: nulls[4],
        recipient_hash: ZavaVault::hash_address(&env, &account),
        amount_bytes: ZavaVault::i128_to_bytes32(10),
    };
    let honk = StubVerifier { answer: true };
    assert_eq!(vault.withdraw(&env, &honk, &Vec::new(), inputs, account, 10), Ok(()));
    assert_eq!(ZavaCredit::count_weeks(&env, &vault, &commits, &nulls), Ok((11, 1)));
    assert_eq!(ZavaCredit::weeks_to_tier(12), CreditTier::Low);
    assert_eq!(ZavaCredit::weeks_to_tier(11), CreditTier::Medium);
}

#[test]
fn a_binding_without_a_deposit_is_no_saving() {
    let env = Env::default();
    let mut vault = ZavaVault::new(&env, VAULT_ID);
    let account = Address::Account([1; 32]);
    let contract = Address::Contract([2; 32]);
    assert_eq!(vault.initialize(&env, account, contract, contract, contract), Ok(()));
    let mut commits = Vec::new();
    let mut nulls = Vec::new();
    let mut weeks = Vec::new();
    for i in 0..8u8 {
        assert_eq!(
            vault.bind_change_nullifier(&env, &Vec::new(), b32(i + 1), b32(i + 101)),
            Ok(())
        );
        commits.push(b32(i + 1));
        nulls.push(b32(i + 101));
        weeks.push(i as u32);
    }
    assert_eq!(
        ZavaCredit::count_weeks(&env, &vault, &commits, &nulls),
        Err(CreditError::CommitmentNotInVault)
    );
    let mut h = setup();
    let wallet = h.generate();
    let claim = claim_of((commits, nulls, weeks));
    let proof = Vec::new();
    assert_eq!(
        h.credit.claim_credit(&env, &vault, &h.honk, wallet, &proof, &claim, 0),
        Err(CreditError::CommitmentNotInVault)
    );
}

#[test]
fn claims_at_the_end_of_time() {
    let mut h = setup();
    let wallet = h.generate();
    let proof = Vec::new();
    let claim = claim_of(populate_vault(&mut h, 8));
    let short = claim_of(populate_vault(&mut h, 7));
    let last = u64::MAX - CREDIT_TTL_SECS;
    assert_eq!(
        h.credit.try_claim_credit(&h.env, &h.vault, &h.honk, wallet, &proof, &short, u64::MAX),
        Some(Err(CreditError::NotEnoughActiveWeeks))
    );
    assert_eq!(
        h.credit.try_claim_credit(&h.env, &h.vault, &h.honk, wallet, &proof, &claim, last + 1),
        None
    );
    assert_eq!(h.credit.get_credit_record(&wallet, 0), None);
    let record = h
        .credit
        .try_claim_credit(&h.env, &h.vault, &h.honk, wallet, &proof, &claim, last)
        .unwrap()
        .unwrap();
    assert_eq!(record.expires_at, u64::MAX);
    assert_eq!(h.credit.get_credit_record(&wallet, last), Some(record));
}

// ---------------------------------------------------------------------------
// Loans and ranges
// ---------------------------------------------------------------------------

#[test]
fn medium_tier_r5_loan_amount() {
    let mut h = setup();
    let wallet = h.generate();
    let claim = claim_with_range(SavingsRange::R5, populate_vault(&mut h, 8));
    let record = h.claim(wallet, &claim).unwrap();
    assert_eq!(record.tier, CreditTier::Medium);
    assert_eq!(record.savings_range, SavingsRange::R5);
    assert_eq!(record.loan_eligible_stroops, 8_000_000_000);
    assert_eq!(h.credit.get_loan_eligibility(&wallet, 0), 8_000_000_000);
}

#[test]
fn very_low_tier_r500_unlocks_big_loan() {
    let mut h = setup();
    let wallet = h.generate();
    let claim = claim_with_range(SavingsRange::R500, populate_vault(&mut h, 24));
    let record = h.claim(wallet, &claim).unwrap();
    assert_eq!(record.tier, CreditTier::VeryLow);
    assert_eq!(record.savings_range, SavingsRange::R500);
    assert_eq!(record.loan_eligible_stroops, 7_200_000_000_000);
}

#[test]
fn higher_range_at_same_weeks_gives_bigger_loan() {
    let mut h = setup();
    let wallet_a = h.generate();
    let claim_a = claim_with_range(SavingsRange::R5, populate_vault(&mut h, 12));
    let record_a = h.claim(wallet_a, &claim_a).unwrap();

    let wallet_b = h.generate();
    let claim_b =
        claim_with_range(SavingsRange::R50, populate_vault_with_offset(&mut h, 12, 200));
    let record_b = h.claim(wallet_b, &claim_b).unwrap();

    assert_eq!(record_a.tier, CreditTier::Low);
    assert_eq!(record_b.tier, CreditTier::Low);
    assert!(record_b.loan_eligible_stroops > record_a.loan_eligible_stroops);
    assert_eq!(record_a.loan_eligible_stroops, 24_000_000_000);
    assert_eq!(record_b.loan_eligible_stroops, 240_000_000_000);
}

#[test]
fn longer_history_at_same_range_gives_bigger_loan() {
    let mut h = setup();
    let wallet_a = h.generate();
    let claim_a = claim_with_range(SavingsRange::R20, populate_vault(&mut h, 8));
    let record_a = h.claim(wallet_a, &claim_a).unwrap();

    let wallet_b = h.generate();
    let claim_b =
        claim_with_range(SavingsRange::R20, populate_vault_with_offset(&mut h, 24, 100));
    let record_b = h.claim(wallet_b, &claim_b).unwrap();

    assert_eq!(record_a.tier, CreditTier::Medium);
    assert_eq!(record_b.tier, CreditTier::VeryLow);
    assert!(record_b.loan_eligible_stroops > record_a.loan_eligible_stroops);
    assert_eq!(record_a.loan_eligible_stroops, 32_000_000_000);
    assert_eq!(record_b.loan_eligible_stroops, 288_000_000_000);
}

#[test]
fn no_loan_eligibility_without_record() {
    let mut h = setup();
    let wallet = h.generate();
    assert_eq!(h.credit.get_loan_eligibility(&wallet, 0), 0);
}

#[test]
fn range_info_returns_correct_bounds() {
    let (lower, label) = ZavaCredit::range_info(SavingsRange::R5);
    assert_eq!(lower, 50 * 10_000_000);
    assert_eq!(label, 5);
    let (lower, label) = ZavaCredit::range_info(SavingsRange::R500);
    assert_eq!(lower, 5000 * 10_000_000);
    assert_eq!(label, 500);
}

#[test]
fn range_info_of_the_ranges_between() {
    assert_eq!(ZavaCredit::range_info(SavingsRange::R20), (2_000_000_000, 20));
    assert_eq!(ZavaCredit::range_info(SavingsRange::R50), (5_000_000_000, 50));
    assert_eq!(ZavaCredit::range_info(SavingsRange::R200), (20_000_000_000, 200));
}

#[test]
fn loans_of_the_worked_examples() {
    let xlm: i128 = 10_000_000;
    let examples = [
        (8, SavingsRange::R5, 800),
        (8, SavingsRange::R20, 3_200),
        (12, SavingsRange::R20, 9_600),
        (12, SavingsRange::R50, 24_000),
        (24, SavingsRange::R20, 28_800),
        (24, SavingsRange::R200, 288_000),
        (24, SavingsRange::R500, 720_000),
    ];
    for (weeks, range, loan) in examples {
        let bound = ZavaCredit::range_lower_bound_stroops(&range);
        let tier = ZavaCredit::weeks_to_tier(weeks);
        assert_eq!(ZavaCredit::compute_loan_eligible(weeks, bound, &tier), loan * xlm);
    }
    assert_eq!(ZavaCredit::compute_loan_eligible(7, 500_000_000, &CreditTier::NoTier), 0);
    assert_eq!(
        ZavaCredit::compute_loan_eligible(u32::MAX, u64::MAX, &CreditTier::VeryLow),
        (u32::MAX as i128) * (u64::MAX as i128) * 6
    );
}

#[test]
fn each_further_week_within_a_tier_adds_the_same_amount() {
    let bound = ZavaCredit::range_lower_bound_stroops(&SavingsRange::R20);
    for weeks in 12..23 {
        let tier = ZavaCredit::weeks_to_tier(weeks);
        let loan = ZavaCredit::compute_loan_eligible(weeks, bound, &tier);
        let next = ZavaCredit::compute_loan_eligible(weeks + 1, bound, &tier);
        assert_eq!(next - loan, 8_000_000_000);
    }
}

#[test]
fn tier_boundaries() {
    assert_eq!(ZavaCredit::weeks_to_tier(0), CreditTier::NoTier);
    assert_eq!(ZavaCredit::weeks_to_tier(7), CreditTier::NoTier);
    assert_eq!(ZavaCredit::weeks_to_tier(8), CreditTier::Medium);
    assert_eq!(ZavaCredit::weeks_to_tier(11), CreditTier::Medium);
    assert_eq!(ZavaCredit::weeks_to_tier(12), CreditTier::Low);
    assert_eq!(ZavaCredit::weeks_to_tier(23), CreditTier::Low);
    assert_eq!(ZavaCredit::weeks_to_tier(24), CreditTier::VeryLow);
    assert_eq!(ZavaCredit::weeks_to_tier(u32::MAX), CreditTier::VeryLow);
}

#[test]
fn credit_numbers_as_words() {
    let mut word = [0u8; 32];
    word[24..32].copy_from_slice(&0x0102_0304_0506_0708u64.to_be_bytes());
    assert_eq!(ZavaCredit::u64_to_bytes(0x0102_0304_0506_0708), word);
    let mut word = [0u8; 32];
    word[28..32].copy_from_slice(&0x0102_0304u32.to_be_bytes());
    assert_eq!(ZavaCredit::u32_to_bytes(0x0102_0304), word);
}

#[test]
fn credit_error_numbers() {
    let errors = [
        CreditError::AlreadyInitialized,
        CreditError::NotInitialized,
        CreditError::LengthMismatch,
        CreditError::EmptyClaim,
        CreditError::DuplicateNullifier,
        CreditError::ProofInvalid,
        CreditError::CommitmentNotInVault,
        CreditError::BindingMismatch,
        CreditError::NotEnoughActiveWeeks,
    ];
    for (i, error) in errors.iter().enumerate() {
        assert_eq!(error.code(), i as u32 + 1);
    }
}
