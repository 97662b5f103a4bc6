use soroban_sdk::address_payload::AddressPayload;
use soroban_sdk::xdr::ToXdr;
use soroban_sdk::{Bytes, BytesN, Env};
use zava::address::Address;
use zava::bytes::Bytes32;
use zava::honk_verifier::HonkVerifierInterface;
use zava::merkle::{hash_pair, CAPACITY, ROOT_HISTORY_SIZE};
use zava::zava_vault::{VaultEffect, VaultError, WithdrawPublicInputs, ZavaVault};

// ---------------------------------------------------------------------------
// Harness
// ---------------------------------------------------------------------------

/// Answers every proof the same way.
struct StubVerifier {
    answer: bool,
}

impl HonkVerifierInterface for StubVerifier {
    fn verify(&self, _env: &Env, _proof: &Vec<u8>, _public_inputs: &Vec<Bytes32>) -> bool {
        self.answer
    }

    fn get_verification_key(&self, _env: &Env) -> Vec<u8> {
        Vec::new()
    }
}

/// Accepts exactly one list of public inputs.
struct ExactVerifier {
    expected: Vec<Bytes32>,
}

impl HonkVerifierInterface for ExactVerifier {
    fn verify(&self, _env: &Env, _proof: &Vec<u8>, public_inputs: &Vec<Bytes32>) -> bool {
        *public_inputs == self.expected
    }

    fn get_verification_key(&self, _env: &Env) -> Vec<u8> {
        Vec::new()
    }
}

const VAULT_ID: Address = Address::Contract([0xC0; 32]);
const ACCEPT: StubVerifier = StubVerifier { answer: true };
const REJECT: StubVerifier = StubVerifier { answer: false };

struct Harness {
    env: Env,
    admin: Address,
    token_id: Address,
    vault_id: Address,
    vault: ZavaVault,
    balances: Vec<(Address, i128)>,
    next_address: u8,
}

impl Harness {
    fn generate(&mut self) -> Address {
        self.next_address += 1;
        Address::Account([self.next_address; 32])
    }

    fn change(&mut self, who: Address, amount: i128) {
        for entry in self.balances.iter_mut() {
            if entry.0 == who {
                entry.1 += amount;
                assert!(entry.1 >= 0, "balance too low");
                return;
            }
        }
        assert!(amount >= 0, "balance too low");
        self.balances.push((who, amount));
    }

    fn balance(&self, who: Address) -> i128 {
        self.balances.iter().find(|entry| entry.0 == who).map_or(0, |entry| entry.1)
    }

    /// Does what the vault asks for after a call that succeeded.
    fn perform(&mut self) {
        let effects: Vec<VaultEffect> = self.vault.outbox.drain(..).collect();
        for effect in effects {
            match effect {
                VaultEffect::PullTokens { token, from, amount } => {
                    assert_eq!(token, self.token_id);
                    self.change(from, -amount);
                    let vault_id = self.vault_id;
                    self.change(vault_id, amount);
                }
                VaultEffect::PayTokens { token, to, amount } => {
                    assert_eq!(token, self.token_id);
                    let vault_id = self.vault_id;
                    self.change(vault_id, -amount);
                    self.change(to, amount);
                }
                _ => {}
            }
        }
    }

    fn deposit(
        &mut self,
        depositor: Address,
        commitment: Bytes32,
        nullifier: Bytes32,
        amount: i128,
        note: &[u8],
    ) -> Result<u32, VaultError> {
        let result = self.vault.deposit(
            &self.env,
            depositor,
            commitment,
            nullifier,
            amount,
            note.to_vec(),
        );
        if result.is_ok() {
            self.perform();
        } else {
            self.vault.outbox.clear();
        }
        result
    }

    fn withdraw(
        &mut self,
        inputs: WithdrawPublicInputs,
        recipient: Address,
        amount: i128,
    ) -> Result<(), VaultError> {
        let proof = vec![0u8; 256];
        let result = self.vault.withdraw(&self.env, &ACCEPT, &proof, inputs, recipient, amount);
        if result.is_ok() {
            self.perform();
        }
        result
    }
}

fn setup() -> Harness {
    let env = Env::default();
    let vault = ZavaVault::new(&env, VAULT_ID);
    let mut h = Harness {
        env,
        admin: Address::Account([0xA0; 32]),
        token_id: Address::Contract([0xB0; 32]),
        vault_id: VAULT_ID,
        vault,
        balances: Vec::new(),
        next_address: 0,
    };
    let verifier_id = Address::Contract([0xD0; 32]);
    assert_eq!(
        h.vault.initialize(&h.env, h.admin, h.token_id, verifier_id, verifier_id),
        Ok(())
    );
    h.perform();
    h
}

fn b32(seed: u8) -> Bytes32 {
    [seed; 32]
}

fn cn_hash(env: &Env, commitment: &Bytes32, nullifier: &Bytes32) -> Bytes32 {
    let mut buf = Bytes::new(env);
    buf.extend_from_array(commitment);
    buf.extend_from_array(nullifier);
    env.crypto().sha256(&buf).to_array()
}

fn amount_bytes(amount: i128) -> Bytes32 {
    let mut buf = [0u8; 32];
    buf[16..32].copy_from_slice(&amount.to_be_bytes());
    buf
}

/// SHA-256 of the XDR form of the address, as the SDK computes both.
fn recipient_hash(env: &Env, address: &Address) -> Bytes32 {
    let payload = match address {
        Address::Account(key) => {
            AddressPayload::AccountIdPublicKeyEd25519(BytesN::from_array(env, key))
        }
        Address::Contract(id) => AddressPayload::ContractIdHash(BytesN::from_array(env, id)),
    };
    let xdr = soroban_sdk::Address::from_payload(env, payload).to_xdr(env);
    env.crypto().sha256(&xdr).to_array()
}

fn inputs_for(
    h: &Harness,
    commitment: Bytes32,
    nullifier: Bytes32,
    recipient: &Address,
    amount: i128,
) -> WithdrawPublicInputs {
    WithdrawPublicInputs {
        commitment,
        root: h.vault.get_root(),
        nullifier,
        recipient_hash: recipient_hash(&h.env, recipient),
        amount_bytes: amount_bytes(amount),
    }
}

// ---------------------------------------------------------------------------
// Initialisation
// ---------------------------------------------------------------------------

#[test]
fn initialize_sets_initial_state() {
    let h = setup();
    assert_eq!(h.vault.get_leaf_count(), 0);
    assert_eq!(h.vault.get_total_locked(), 0);
    assert!(!h.vault.is_paused());
}

#[test]
fn cannot_initialize_twice() {
    let mut h = setup();
    let result = h.vault.initialize(&h.env, h.admin, h.token_id, h.token_id, h.token_id);
    assert_eq!(result, Err(VaultError::AlreadyInitialized));
}

#[test]
fn nullifier_starts_unspent() {
    let h = setup();
    assert!(!h.vault.is_nullifier_spent(&b32(7)));
}

#[test]
fn setting_up_asks_the_admin_for_authorisation() {
    let env = Env::default();
    let mut vault = ZavaVault::new(&env, VAULT_ID);
    let admin = Address::Account([1; 32]);
    let other = Address::Contract([2; 32]);
    assert_eq!(vault.initialize(&env, admin, other, other, other), Ok(()));
    assert_eq!(vault.outbox.len(), 1);
    assert!(matches!(vault.outbox[0], VaultEffect::RequireAuth { address } if address == admin));
}

#[test]
fn nothing_works_before_setup() {
    let env = Env::default();
    let mut vault = ZavaVault::new(&env, VAULT_ID);
    let who = Address::Account([1; 32]);
    assert_eq!(
        vault.deposit(&env, who, b32(1), b32(2), 100, Vec::new()),
        Err(VaultError::NotInitialized)
    );
    assert_eq!(
        vault.transfer_shielded(&env, &ACCEPT, &Vec::new(), b32(1), b32(2), b32(3)),
        Err(VaultError::NotInitialized)
    );
    assert_eq!(
        vault.bind_change_nullifier(&env, &Vec::new(), b32(1), b32(2)),
        Err(VaultError::NotInitialized)
    );
    assert_eq!(vault.pause(who), Err(VaultError::NotInitialized));
    assert!(vault.outbox.is_empty());
}

// ---------------------------------------------------------------------------
// Deposits
// ---------------------------------------------------------------------------

#[test]
fn deposit_locks_tokens_and_updates_state() {
    let mut h = setup();
    let depositor = h.generate();
    h.change(depositor, 1_000_000_000);

    let amount: i128 = 500_000_000;
    let leaf = h.deposit(depositor, b32(1), b32(2), amount, b"encrypted-note-bytes");
    assert_eq!(leaf, Ok(0));

    assert_eq!(h.vault.get_leaf_count(), 1);
    assert_eq!(h.vault.get_total_locked(), amount);
    assert_eq!(h.balance(depositor), 500_000_000);
    assert_eq!(h.balance(h.vault_id), amount);
}

#[test]
fn deposit_with_zero_amount_rejected() {
    let mut h = setup();
    let depositor = h.generate();
    let result = h.deposit(depositor, b32(1), b32(2), 0, b"");
    assert_eq!(result, Err(VaultError::InvalidAmount));
}

#[test]
fn deposit_with_negative_amount_rejected() {
    let mut h = setup();
    let depositor = h.generate();
    let result = h.deposit(depositor, b32(1), b32(2), -100, b"");
    assert_eq!(result, Err(VaultError::InvalidAmount));
}

#[test]
fn multiple_deposits_increment_leaf_index() {
    let mut h = setup();
    let depositor = h.generate();
    h.change(depositor, 1_000_000_000);

    assert_eq!(h.deposit(depositor, b32(1), b32(2), 100, b""), Ok(0));
    assert_eq!(h.deposit(depositor, b32(3), b32(4), 200, b""), Ok(1));
    assert_eq!(h.deposit(depositor, b32(5), b32(6), 300, b""), Ok(2));
    assert_eq!(h.vault.get_leaf_count(), 3);
    assert_eq!(h.vault.get_total_locked(), 600);
}

#[test]
fn merkle_root_changes_after_deposit() {
    let mut h = setup();
    let depositor = h.generate();
    h.change(depositor, 1_000_000_000);

    let before = h.vault.get_root();
    assert_eq!(h.deposit(depositor, b32(10), b32(20), 100, b""), Ok(0));
    let after = h.vault.get_root();
    assert_ne!(before, after);
    assert!(h.vault.is_known_root(&after));
}

#[test]
fn deposit_asks_for_authorisation_tokens_and_announcement_in_order() {
    let mut h = setup();
    let depositor = h.generate();
    let result = h.vault.deposit(&h.env, depositor, b32(1), b32(2), 70, vec![9, 8]);
    assert_eq!(result, Ok(0));
    assert_eq!(h.vault.outbox.len(), 3);
    assert!(
        matches!(h.vault.outbox[0], VaultEffect::RequireAuth { address } if address == depositor)
    );
    assert!(matches!(
        h.vault.outbox[1],
        VaultEffect::PullTokens { token, from, amount }
            if token == h.token_id && from == depositor && amount == 70
    ));
    match &h.vault.outbox[2] {
        VaultEffect::Deposited { note } => {
            assert_eq!(note.leaf_index, 0);
            assert_eq!(note.commitment, b32(1));
            assert_eq!(note.encrypted_note, vec![9, 8]);
            assert_eq!(note.token, h.token_id);
        }
        other => panic!("unexpected effect {:?}", other),
    }
}

#[test]
fn full_tree_takes_no_more_deposits() {
    let mut h = setup();
    let depositor = h.generate();
    h.vault.next_leaf_index = CAPACITY;
    let result = h.vault.deposit(&h.env, depositor, b32(1), b32(2), 100, Vec::new());
    assert_eq!(result, Err(VaultError::MerkleTreeFull));
    assert!(!h.vault.commitment_exists(&b32(1)));
    assert_eq!(h.vault.get_total_locked(), 0);
    // Authorisation and tokens were asked for before the tree was looked at.
    assert_eq!(h.vault.outbox.len(), 2);
    h.vault.next_leaf_index = CAPACITY - 1;
    assert_eq!(h.deposit_unfunded(depositor), Ok(CAPACITY - 1));
}

impl Harness {
    fn deposit_unfunded(&mut self, depositor: Address) -> Result<u32, VaultError> {
        self.vault.deposit(&self.env, depositor, b32(1), b32(2), 100, Vec::new())
    }
}

#[test]
fn first_roots_are_those_of_the_full_tree() {
    let mut h = setup();
    let depositor = h.generate();
    h.change(depositor, 1_000);
    assert_eq!(h.vault.get_root(), [0u8; 32]);

    let mut zeros = vec![[0u8; 32]];
    for level in 0..20 {
        let below = zeros[level];
        zeros.push(hash_pair(&h.env, &below, &below));
    }

    assert_eq!(h.deposit(depositor, b32(1), b32(2), 1, b""), Ok(0));
    let mut one = b32(1);
    for level in 0..20 {
        one = hash_pair(&h.env, &one, &zeros[level]);
    }
    assert_eq!(h.vault.get_root(), one);

    assert_eq!(h.deposit(depositor, b32(3), b32(4), 1, b""), Ok(1));
    let pair = hash_pair(&h.env, &b32(1), &b32(3));
    let mut two = pair;
    for level in 1..20 {
        two = hash_pair(&h.env, &two, &zeros[level]);
    }
    assert_eq!(h.vault.get_root(), two);

    assert_eq!(h.deposit(depositor, b32(5), b32(6), 1, b""), Ok(2));
    let mut three = hash_pair(&h.env, &pair, &hash_pair(&h.env, &b32(5), &zeros[0]));
    for level in 2..20 {
        three = hash_pair(&h.env, &three, &zeros[level]);
    }
    assert_eq!(h.vault.get_root(), three);
}

#[test]
fn only_the_last_thirty_roots_are_known() {
    let mut h = setup();
    let depositor = h.generate();
    h.change(depositor, 1_000);
    let mut roots = Vec::new();
    for i in 0..32u8 {
        assert_eq!(h.deposit(depositor, b32(i + 1), b32(i + 101), 1, b""), Ok(i as u32));
        roots.push(h.vault.get_root());
    }
    let first_known = roots.len() - ROOT_HISTORY_SIZE as usize;
    for (i, root) in roots.iter().enumerate() {
        assert_eq!(h.vault.is_known_root(root), i >= first_known);
    }
}

// ---------------------------------------------------------------------------
// Withdrawals
// ---------------------------------------------------------------------------

#[test]
fn withdraw_releases_tokens_to_recipient() {
    let mut h = setup();
    let depositor = h.generate();
    let recipient = h.generate();
    h.change(depositor, 1_000_000_000);

    let amount: i128 = 500_000_000;
    assert_eq!(h.deposit(depositor, b32(1), b32(2), amount, b""), Ok(0));
    let inputs = inputs_for(&h, b32(1), b32(2), &recipient, amount);
    assert_eq!(h.withdraw(inputs, recipient, amount), Ok(()));

    assert_eq!(h.balance(recipient), amount);
    assert_eq!(h.vault.get_total_locked(), 0);
    assert!(h.vault.is_nullifier_spent(&b32(2)));
}

#[test]
fn withdraw_pays_contracts_too_and_publishes_the_nullifier_alone() {
    let mut h = setup();
    let depositor = h.generate();
    let recipient = Address::Contract([0x77; 32]);
    h.change(depositor, 100);
    assert_eq!(h.deposit(depositor, b32(1), b32(2), 100, b""), Ok(0));
    let inputs = inputs_for(&h, b32(1), b32(2), &recipient, 100);
    let proof = vec![0u8; 256];
    assert_eq!(h.vault.withdraw(&h.env, &ACCEPT, &proof, inputs, recipient, 100), Ok(()));
    assert_eq!(h.vault.outbox.len(), 2);
    assert!(matches!(
        h.vault.outbox[0],
        VaultEffect::PayTokens { token, to, amount }
            if token == h.token_id && to == recipient && amount == 100
    ));
    assert!(
        matches!(h.vault.outbox[1], VaultEffect::Withdrawn { nullifier } if nullifier == b32(2))
    );
}

#[test]
fn withdraw_shows_the_verifier_four_words() {
    let mut h = setup();
    let depositor = h.generate();
    let recipient = h.generate();
    h.change(depositor, 100);
    assert_eq!(h.deposit(depositor, b32(1), b32(2), 100, b""), Ok(0));
    let inputs = inputs_for(&h, b32(1), b32(2), &recipient, 100);
    let proof = vec![0u8; 256];
    let swapped = ExactVerifier {
        expected: vec![inputs.nullifier, inputs.root, inputs.recipient_hash, inputs.amount_bytes],
    };
    assert_eq!(
        h.vault.withdraw(&h.env, &swapped, &proof, inputs, recipient, 100),
        Err(VaultError::InvalidProof)
    );
    let exact = ExactVerifier {
        expected: vec![inputs.root, inputs.nullifier, inputs.recipient_hash, inputs.amount_bytes],
    };
    assert_eq!(h.vault.withdraw(&h.env, &exact, &proof, inputs, recipient, 100), Ok(()));
}

#[test]
fn withdraw_with_rejected_proof_changes_nothing() {
    let mut h = setup();
    let depositor = h.generate();
    let recipient = h.generate();
    h.change(depositor, 100);
    assert_eq!(h.deposit(depositor, b32(1), b32(2), 100, b""), Ok(0));
    let inputs = inputs_for(&h, b32(1), b32(2), &recipient, 100);
    let proof = vec![0u8; 256];
    assert_eq!(
        h.vault.withdraw(&h.env, &REJECT, &proof, inputs, recipient, 100),
        Err(VaultError::InvalidProof)
    );
    assert!(!h.vault.is_nullifier_spent(&b32(2)));
    assert_eq!(h.vault.get_total_locked(), 100);
    assert!(h.vault.outbox.is_empty());
}

#[test]
fn cannot_withdraw_with_wrong_nullifier_for_commitment() {
    let mut h = setup();
    let depositor = h.generate();
    let attacker = h.generate();
    h.change(depositor, 1_000_000_000);

    let amount: i128 = 100_000_000;
    assert_eq!(h.deposit(depositor, b32(1), b32(2), amount, b""), Ok(0));
    let inputs = inputs_for(&h, b32(1), b32(99), &attacker, amount);
    assert_eq!(h.withdraw(inputs, attacker, amount), Err(VaultError::InvalidProof));
    assert_eq!(h.balance(attacker), 0);
}

#[test]
fn cannot_withdraw_with_unknown_commitment() {
    let mut h = setup();
    let attacker = h.generate();
    let depositor = h.generate();
    h.change(depositor, 1_000_000_000);
    assert_eq!(h.deposit(depositor, b32(1), b32(2), 500_000_000, b""), Ok(0));

    let inputs = inputs_for(&h, b32(200), b32(201), &attacker, 100);
    assert_eq!(h.withdraw(inputs, attacker, 100), Err(VaultError::InvalidProof));
}

#[test]
fn cannot_double_spend_same_nullifier() {
    let mut h = setup();
    let depositor = h.generate();
    let recipient = h.generate();
    h.change(depositor, 1_000_000_000);

    let amount: i128 = 100_000_000;
    assert_eq!(h.deposit(depositor, b32(1), b32(2), amount, b""), Ok(0));
    let inputs = inputs_for(&h, b32(1), b32(2), &recipient, amount);
    assert_eq!(h.withdraw(inputs, recipient, amount), Ok(()));

    h.change(depositor, 1_000_000_000);
    assert_eq!(h.deposit(depositor, b32(50), b32(51), amount, b""), Ok(1));
    assert_eq!(h.withdraw(inputs, recipient, amount), Err(VaultError::NullifierAlreadySpent));
}

#[test]
fn cannot_withdraw_with_mismatched_amount() {
    let mut h = setup();
    let depositor = h.generate();
    let recipient = h.generate();
    h.change(depositor, 1_000_000_000);

    let deposited: i128 = 500_000_000;
    assert_eq!(h.deposit(depositor, b32(1), b32(2), deposited, b""), Ok(0));
    let inputs = inputs_for(&h, b32(1), b32(2), &recipient, deposited);
    assert_eq!(h.withdraw(inputs, recipient, deposited + 1), Err(VaultError::AmountMismatch));
}

#[test]
fn cannot_withdraw_to_wrong_recipient() {
    let mut h = setup();
    let depositor = h.generate();
    let real_recipient = h.generate();
    let attacker = h.generate();
    h.change(depositor, 1_000_000_000);

    let amount: i128 = 100_000_000;
    assert_eq!(h.deposit(depositor, b32(1), b32(2), amount, b""), Ok(0));
    let inputs = inputs_for(&h, b32(1), b32(2), &real_recipient, amount);
    assert_eq!(h.withdraw(inputs, attacker, amount), Err(VaultError::RecipientMismatch));
    assert_eq!(h.balance(attacker), 0);
}

#[test]
fn cannot_withdraw_with_unknown_root() {
    let mut h = setup();
    let depositor = h.generate();
    let recipient = h.generate();
    h.change(depositor, 1_000_000_000);

    let amount: i128 = 100_000_000;
    assert_eq!(h.deposit(depositor, b32(1), b32(2), amount, b""), Ok(0));
    let mut inputs = inputs_for(&h, b32(1), b32(2), &recipient, amount);
    inputs.root = b32(0xff);
    assert_eq!(h.withdraw(inputs, recipient, amount), Err(VaultError::UnknownRoot));
}

#[test]
fn old_root_within_the_window_still_withdraws() {
    let mut h = setup();
    let depositor = h.generate();
    let recipient = h.generate();
    h.change(depositor, 1_000);
    assert_eq!(h.deposit(depositor, b32(1), b32(2), 100, b""), Ok(0));
    let inputs = inputs_for(&h, b32(1), b32(2), &recipient, 100);
    for i in 0..29u8 {
        assert!(h.deposit(depositor, b32(i + 10), b32(i + 110), 1, b"").is_ok());
    }
    assert_eq!(h.withdraw(inputs, recipient, 100), Ok(()));
    assert_eq!(h.vault.get_total_locked(), 29);
}

#[test]
fn deposit_stays_withdrawable_whatever_happens_around_it() {
    let mut h = setup();
    let depositor = h.generate();
    let recipient = h.generate();
    h.change(depositor, 1_000);
    assert_eq!(h.deposit(depositor, b32(1), b32(2), 100, b""), Ok(0));
    for i in 0..40u8 {
        assert!(h.deposit(depositor, b32(i + 10), b32(i + 110), 1, b"").is_ok());
    }
    let other = inputs_for(&h, b32(10), b32(110), &recipient, 1);
    assert_eq!(h.withdraw(other, recipient, 1), Ok(()));
    assert_eq!(h.vault.pause(h.admin), Ok(()));
    assert_eq!(h.vault.unpause(h.admin), Ok(()));
    assert_eq!(h.vault.bind_change_nullifier(&h.env, &Vec::new(), b32(1), b32(3)), Ok(()));
    let inputs = inputs_for(&h, b32(1), b32(2), &recipient, 100);
    assert_eq!(h.withdraw(inputs, recipient, 100), Ok(()));
    assert_eq!(h.vault.get_total_locked(), 39);
    assert_eq!(h.balance(recipient), 101);
}

#[test]
fn every_leaf_hashes_up_to_the_root() {
    let mut h = setup();
    let depositor = h.generate();
    h.change(depositor, 1_000);
    let mut level: Vec<Bytes32> = Vec::new();
    for i in 0..5u8 {
        assert!(h.deposit(depositor, b32(i + 1), b32(i + 101), 1, b"").is_ok());
        level.push(b32(i + 1));
    }
    // Hash the whole tree level by level and keep the path of leaf 3.
    let mut zero = [0u8; 32];
    let mut index = 3;
    let mut path_hash = level[index];
    for _ in 0..20 {
        if level.len() % 2 == 1 {
            level.push(zero);
        }
        let sibling = level[index ^ 1];
        path_hash = if index % 2 == 0 {
            hash_pair(&h.env, &path_hash, &sibling)
        } else {
            hash_pair(&h.env, &sibling, &path_hash)
        };
        level = level.chunks(2).map(|pair| hash_pair(&h.env, &pair[0], &pair[1])).collect();
        zero = hash_pair(&h.env, &zero, &zero);
        index /= 2;
    }
    assert_eq!(level, vec![h.vault.get_root()]);
    assert_eq!(path_hash, h.vault.get_root());
}

// ---------------------------------------------------------------------------
// Transfers inside the pool
// ---------------------------------------------------------------------------

#[test]
fn transfer_spends_one_note_and_inserts_another() {
    let mut h = setup();
    let depositor = h.generate();
    h.change(depositor, 100);
    assert_eq!(h.deposit(depositor, b32(1), b32(2), 100, b""), Ok(0));
    let root = h.vault.get_root();
    let proof = vec![0u8; 256];
    let exact = ExactVerifier { expected: vec![root, b32(2), [0; 32], [0; 32]] };
    let leaf = h.vault.transfer_shielded(&h.env, &exact, &proof, b32(2), b32(9), root);
    assert_eq!(leaf, Ok(1));
    assert!(h.vault.is_nullifier_spent(&b32(2)));
    assert_eq!(h.vault.get_leaf_count(), 2);
    assert_eq!(h.vault.get_total_locked(), 100);
    assert_ne!(h.vault.get_root(), root);
    assert!(!h.vault.commitment_exists(&b32(9)));
    assert_eq!(h.vault.outbox.len(), 1);
    assert!(matches!(
        h.vault.outbox[0],
        VaultEffect::Transferred { in_nullifier, out_commitment, leaf_index }
            if in_nullifier == b32(2) && out_commitment == b32(9) && leaf_index == 1
    ));
    assert_eq!(
        h.vault.transfer_shielded(&h.env, &ACCEPT, &proof, b32(2), b32(10), root),
        Err(VaultError::NullifierAlreadySpent)
    );
    assert_eq!(
        h.vault.transfer_shielded(&h.env, &ACCEPT, &proof, b32(3), b32(10), b32(0xfe)),
        Err(VaultError::UnknownRoot)
    );
    assert_eq!(
        h.vault.transfer_shielded(&h.env, &REJECT, &proof, b32(3), b32(10), root),
        Err(VaultError::InvalidProof)
    );
}

// ---------------------------------------------------------------------------
// Partial withdrawals
// ---------------------------------------------------------------------------

#[test]
fn partial_withdraw_pays_and_keeps_the_change() {
    let mut h = setup();
    let depositor = h.generate();
    let recipient = h.generate();
    h.change(depositor, 100);
    assert_eq!(h.deposit(depositor, b32(1), b32(2), 100, b""), Ok(0));
    let root = h.vault.get_root();
    let hash = recipient_hash(&h.env, &recipient);
    let proof = vec![0u8; 256];
    let exact = ExactVerifier {
        expected: vec![b32(1), root, b32(2), hash, amount_bytes(30), b32(7)],
    };
    let leaf = h.vault.partial_withdraw(
        &h.env, &exact, &proof, b32(1), b32(2), root, recipient, hash, 30, b32(7), vec![5],
    );
    assert_eq!(leaf, Ok(1));
    assert_eq!(h.vault.outbox.len(), 2);
    match &h.vault.outbox[1] {
        VaultEffect::PartlyWithdrawn {
            in_nullifier,
            change_commitment,
            leaf_index,
            amount,
            encrypted_change_note,
        } => {
            assert_eq!(*in_nullifier, b32(2));
            assert_eq!(*change_commitment, b32(7));
            assert_eq!(*leaf_index, 1);
            assert_eq!(*amount, 30);
            assert_eq!(*encrypted_change_note, vec![5]);
        }
        other => panic!("unexpected effect {:?}", other),
    }
    h.perform();
    assert_eq!(h.balance(recipient), 30);
    assert_eq!(h.vault.get_total_locked(), 70);
    assert!(h.vault.is_nullifier_spent(&b32(2)));

    // The change can be spent once a nullifier is bound to it.
    assert!(!h.vault.commitment_exists(&b32(7)));
    assert_eq!(h.vault.bind_change_nullifier(&h.env, &proof, b32(7), b32(8)), Ok(()));
    assert!(h.vault.commitment_matches_nullifier(&h.env, &b32(7), &b32(8)));
    assert!(!h.vault.commitment_exists(&b32(7)));
    let inputs = inputs_for(&h, b32(7), b32(8), &recipient, 70);
    assert_eq!(h.withdraw(inputs, recipient, 70), Ok(()));
    assert_eq!(h.balance(recipient), 100);
    assert_eq!(h.vault.get_total_locked(), 0);
}

#[test]
fn partial_withdraw_rejections() {
    let mut h = setup();
    let depositor = h.generate();
    let recipient = h.generate();
    let other = h.generate();
    h.change(depositor, 100);
    assert_eq!(h.deposit(depositor, b32(1), b32(2), 100, b""), Ok(0));
    let root = h.vault.get_root();
    let hash = recipient_hash(&h.env, &recipient);
    let proof = vec![0u8; 256];
    let mut attempt = |verifier: &StubVerifier,
                       commitment: Bytes32,
                       nullifier: Bytes32,
                       root: Bytes32,
                       recipient: Address,
                       amount: i128| {
        h.vault.partial_withdraw(
            &h.env,
            verifier,
            &proof,
            commitment,
            nullifier,
            root,
            recipient,
            hash,
            amount,
            b32(7),
            Vec::new(),
        )
    };
    assert_eq!(
        attempt(&ACCEPT, b32(1), b32(2), root, recipient, 0),
        Err(VaultError::InvalidAmount)
    );
    assert_eq!(
        attempt(&ACCEPT, b32(1), b32(2), b32(0xee), recipient, 30),
        Err(VaultError::UnknownRoot)
    );
    assert_eq!(
        attempt(&ACCEPT, b32(1), b32(3), root, recipient, 30),
        Err(VaultError::InvalidProof)
    );
    assert_eq!(
        attempt(&ACCEPT, b32(1), b32(2), root, other, 30),
        Err(VaultError::RecipientMismatch)
    );
    assert_eq!(
        attempt(&REJECT, b32(1), b32(2), root, recipient, 30),
        Err(VaultError::InvalidProof)
    );
    assert_eq!(attempt(&ACCEPT, b32(1), b32(2), root, recipient, 30), Ok(1));
    assert_eq!(
        attempt(&ACCEPT, b32(1), b32(2), root, recipient, 30),
        Err(VaultError::NullifierAlreadySpent)
    );
}

#[test]
fn binding_a_change_nullifier_never_overwrites() {
    let mut h = setup();
    let depositor = h.generate();
    h.change(depositor, 100);
    assert_eq!(h.deposit(depositor, b32(1), b32(2), 100, b""), Ok(0));
    assert_eq!(h.vault.bind_change_nullifier(&h.env, &Vec::new(), b32(1), b32(66)), Ok(()));
    assert!(h.vault.commitment_matches_nullifier(&h.env, &b32(1), &b32(2)));
    assert!(!h.vault.commitment_matches_nullifier(&h.env, &b32(1), &b32(66)));
}

#[test]
fn only_deposits_make_a_commitment_exist() {
    let mut h = setup();
    let depositor = h.generate();
    h.change(depositor, 100);
    assert_eq!(h.vault.bind_change_nullifier(&h.env, &Vec::new(), b32(1), b32(66)), Ok(()));
    assert!(h.vault.commitment_matches_nullifier(&h.env, &b32(1), &b32(66)));
    assert!(!h.vault.commitment_exists(&b32(1)));
    assert_eq!(h.vault.get_leaf_count(), 0);
    // A deposit makes it exist and binds it anew.
    assert_eq!(h.deposit(depositor, b32(1), b32(2), 100, b""), Ok(0));
    assert!(h.vault.commitment_exists(&b32(1)));
    assert!(h.vault.commitment_matches_nullifier(&h.env, &b32(1), &b32(2)));
    assert!(!h.vault.commitment_exists(&b32(2)));
}

// ---------------------------------------------------------------------------
// Totals and positions that cannot be counted
// ---------------------------------------------------------------------------

#[test]
fn deposit_that_the_total_cannot_hold() {
    let mut h = setup();
    let depositor = h.generate();
    h.vault.total_locked = i128::MAX;
    let attempt = |vault: &mut ZavaVault, amount: i128| {
        vault.try_deposit(&h.env, depositor, b32(1), b32(2), amount, vec![])
    };
    assert_eq!(attempt(&mut h.vault, 0), Some(Err(VaultError::InvalidAmount)));
    assert_eq!(attempt(&mut h.vault, i128::MIN), Some(Err(VaultError::InvalidAmount)));
    assert_eq!(attempt(&mut h.vault, 1), None);
    assert!(!h.vault.commitment_exists(&b32(1)));
    assert_eq!(h.vault.get_leaf_count(), 0);
    assert!(h.vault.outbox.is_empty());
    h.vault.next_leaf_index = CAPACITY;
    assert_eq!(attempt(&mut h.vault, 1), Some(Err(VaultError::MerkleTreeFull)));
    h.vault.outbox.clear();
    h.vault.next_leaf_index = 0;
    h.vault.total_locked = i128::MAX - 1;
    assert_eq!(attempt(&mut h.vault, 1), Some(Ok(0)));
    assert_eq!(h.vault.get_total_locked(), i128::MAX);
    assert_eq!(h.vault.outbox.len(), 3);
}

#[test]
fn withdrawal_that_the_total_cannot_hold() {
    let mut h = setup();
    let depositor = h.generate();
    let recipient = h.generate();
    h.change(depositor, 100);
    assert_eq!(h.deposit(depositor, b32(1), b32(2), 100, b""), Ok(0));
    h.vault.total_locked = i128::MIN;
    let inputs = inputs_for(&h, b32(1), b32(2), &recipient, 100);
    let proof = vec![0u8; 256];
    // A refusal comes before the arithmetic.
    assert_eq!(
        h.vault.try_withdraw(&h.env, &REJECT, &proof, inputs, recipient, 100),
        Some(Err(VaultError::InvalidProof))
    );
    assert_eq!(
        h.vault.try_withdraw(&h.env, &ACCEPT, &proof, inputs, recipient, 101),
        Some(Err(VaultError::AmountMismatch))
    );
    assert_eq!(h.vault.try_withdraw(&h.env, &ACCEPT, &proof, inputs, recipient, 100), None);
    assert!(!h.vault.is_nullifier_spent(&b32(2)));
    assert!(h.vault.outbox.is_empty());
    h.vault.total_locked = 100;
    assert_eq!(
        h.vault.try_withdraw(&h.env, &ACCEPT, &proof, inputs, recipient, 100),
        Some(Ok(()))
    );
    assert_eq!(h.vault.get_total_locked(), 0);
}

#[test]
fn insertion_whose_position_cannot_be_counted() {
    let mut h = setup();
    let depositor = h.generate();
    let recipient = h.generate();
    h.change(depositor, 100);
    assert_eq!(h.deposit(depositor, b32(1), b32(2), 100, b""), Ok(0));
    let root = h.vault.get_root();
    let hash = recipient_hash(&h.env, &recipient);
    let proof = vec![0u8; 256];
    h.vault.next_leaf_index = u32::MAX;
    assert_eq!(
        h.vault.try_transfer_shielded(&h.env, &REJECT, &proof, b32(2), b32(9), root),
        Some(Err(VaultError::InvalidProof))
    );
    assert_eq!(
        h.vault.try_transfer_shielded(&h.env, &ACCEPT, &proof, b32(2), b32(9), root),
        None
    );
    let mut partial = |verifier: &StubVerifier, root: Bytes32| {
        h.vault.try_partial_withdraw(
            &h.env, verifier, &proof, b32(1), b32(2), root, recipient, hash, 30, b32(7), vec![],
        )
    };
    assert_eq!(partial(&ACCEPT, b32(0xee)), Some(Err(VaultError::UnknownRoot)));
    assert_eq!(partial(&REJECT, root), Some(Err(VaultError::InvalidProof)));
    assert_eq!(partial(&ACCEPT, root), None);
    assert!(!h.vault.is_nullifier_spent(&b32(2)));
    h.vault.next_leaf_index = 1;
    assert_eq!(
        h.vault.try_transfer_shielded(&h.env, &ACCEPT, &proof, b32(2), b32(9), root),
        Some(Ok(1))
    );
}

// ---------------------------------------------------------------------------
// Emergency pause
// ---------------------------------------------------------------------------

#[test]
fn admin_can_pause_and_unpause() {
    let mut h = setup();
    assert!(!h.vault.is_paused());

    assert_eq!(h.vault.pause(h.admin), Ok(()));
    assert!(h.vault.is_paused());

    assert_eq!(h.vault.unpause(h.admin), Ok(()));
    assert!(!h.vault.is_paused());
}

#[test]
fn pausing_asks_for_authorisation_and_is_published() {
    let mut h = setup();
    assert_eq!(h.vault.pause(h.admin), Ok(()));
    assert_eq!(h.vault.unpause(h.admin), Ok(()));
    assert_eq!(h.vault.outbox.len(), 4);
    assert!(matches!(h.vault.outbox[0], VaultEffect::RequireAuth { address } if address == h.admin));
    assert!(matches!(h.vault.outbox[1], VaultEffect::Paused));
    assert!(matches!(h.vault.outbox[3], VaultEffect::Unpaused));
}

#[test]
fn nothing_moves_while_paused() {
    let mut h = setup();
    let depositor = h.generate();
    let stranger = h.generate();
    h.change(depositor, 100);
    assert_eq!(h.deposit(depositor, b32(1), b32(2), 60, b""), Ok(0));
    let root = h.vault.get_root();
    assert_eq!(h.vault.pause(h.admin), Ok(()));
    assert_eq!(h.vault.pause(h.admin), Ok(()));
    assert!(h.vault.unpause(stranger).is_err());
    assert!(h.deposit(depositor, b32(3), b32(4), 40, b"").is_err());
    let proof = vec![0u8; 256];
    assert_eq!(
        h.vault.transfer_shielded(&h.env, &ACCEPT, &proof, b32(2), b32(9), root),
        Err(VaultError::ContractPaused)
    );
    assert_eq!(
        h.vault.bind_change_nullifier(&h.env, &proof, b32(9), b32(8)),
        Err(VaultError::ContractPaused)
    );
    assert!(h.vault.is_paused());
    assert_eq!(h.vault.get_root(), root);
    assert_eq!(h.vault.get_leaf_count(), 1);
    assert_eq!(h.vault.get_total_locked(), 60);
    assert!(!h.vault.is_nullifier_spent(&b32(2)));
}

#[test]
fn non_admin_cannot_pause() {
    let mut h = setup();
    let stranger = h.generate();
    assert_eq!(h.vault.pause(stranger), Err(VaultError::NotAdmin));
}

#[test]
fn non_admin_cannot_unpause() {
    let mut h = setup();
    assert_eq!(h.vault.pause(h.admin), Ok(()));
    let stranger = h.generate();
    assert_eq!(h.vault.unpause(stranger), Err(VaultError::NotAdmin));
    assert!(h.vault.is_paused());
}

#[test]
fn deposit_rejected_when_paused() {
    let mut h = setup();
    let depositor = h.generate();
    h.change(depositor, 1_000_000_000);
    assert_eq!(h.vault.pause(h.admin), Ok(()));

    let result = h.deposit(depositor, b32(1), b32(2), 100, b"");
    assert_eq!(result, Err(VaultError::ContractPaused));
}

#[test]
fn withdraw_rejected_when_paused() {
    let mut h = setup();
    let depositor = h.generate();
    let recipient = h.generate();
    h.change(depositor, 1_000_000_000);

    let amount: i128 = 100_000_000;
    assert_eq!(h.deposit(depositor, b32(1), b32(2), amount, b""), Ok(0));
    assert_eq!(h.vault.pause(h.admin), Ok(()));

    let inputs = inputs_for(&h, b32(1), b32(2), &recipient, amount);
    assert_eq!(h.withdraw(inputs, recipient, amount), Err(VaultError::ContractPaused));
}

#[test]
fn withdraw_works_again_after_unpause() {
    let mut h = setup();
    let depositor = h.generate();
    let recipient = h.generate();
    h.change(depositor, 1_000_000_000);

    let amount: i128 = 100_000_000;
    assert_eq!(h.deposit(depositor, b32(1), b32(2), amount, b""), Ok(0));
    assert_eq!(h.vault.pause(h.admin), Ok(()));
    assert_eq!(h.vault.unpause(h.admin), Ok(()));

    let inputs = inputs_for(&h, b32(1), b32(2), &recipient, amount);
    assert_eq!(h.withdraw(inputs, recipient, amount), Ok(()));
    assert_eq!(h.balance(recipient), amount);
}

// ---------------------------------------------------------------------------
// Hashes and encodings
// ---------------------------------------------------------------------------

#[test]
fn cn_hash_is_stable_and_distinct() {
    let env = Env::default();
    let c1 = b32(1);
    let n1 = b32(2);
    let n2 = b32(3);

    let h1 = cn_hash(&env, &c1, &n1);
    let h2 = cn_hash(&env, &c1, &n1);
    let h3 = cn_hash(&env, &c1, &n2);

    assert_eq!(h1, h2);
    assert_ne!(h1, h3);
    assert_eq!(ZavaVault::commitment_nullifier_hash(&env, &c1, &n1), h1);
    assert_eq!(ZavaVault::commitment_nullifier_hash(&env, &c1, &n2), h3);
}

#[test]
fn address_hashes_are_those_of_the_sdk() {
    let env = Env::default();
    for address in [Address::Account([3; 32]), Address::Contract([3; 32])] {
        assert_eq!(ZavaVault::hash_address(&env, &address), recipient_hash(&env, &address));
    }
}

#[test]
fn amounts_round_trip_through_words() {
    for amount in [0, 1, 255, 256, -1, -256, 500_000_000, i128::MAX, i128::MIN] {
        let word = ZavaVault::i128_to_bytes32(amount);
        assert_eq!(word, amount_bytes(amount));
        assert_eq!(ZavaVault::bytes32_to_i128(&word), amount);
    }
    // The high half of a word is not looked at.
    let mut word = amount_bytes(7);
    word[0] = 1;
    assert_eq!(ZavaVault::bytes32_to_i128(&word), 7);
}

#[test]
fn vault_error_numbers() {
    let errors = [
        VaultError::AlreadyInitialized,
        VaultError::NotInitialized,
        VaultError::InvalidAmount,
        VaultError::MerkleTreeFull,
        VaultError::NullifierAlreadySpent,
        VaultError::UnknownRoot,
        VaultError::InvalidProof,
        VaultError::AmountMismatch,
        VaultError::RecipientMismatch,
        VaultError::ContractPaused,
        VaultError::NotAdmin,
    ];
    for (i, error) in errors.iter().enumerate() {
        assert_eq!(error.code(), i as u32 + 1);
    }
}
