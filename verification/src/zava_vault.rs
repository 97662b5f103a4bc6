//! Shielded payment pool.
//!
//! A depositor locks tokens in the pool together with a commitment. Whoever can
//! prove to know the secret behind a commitment in the note tree later releases
//! the tokens to an address of their choice. A nullifier, bound to the
//! commitment when it is deposited, keeps a note from being spent twice.
//!
//! The vault does not touch tokens, authorisations or events itself: it puts
//! what has to be done into its outbox, in order. A call that fails is rolled
//! back as a whole, together with whatever it had asked for.
use crate::address::{address_xdr, Address};
use crate::bytes::{
    amount_of, concat_words, decode_low_half, encode_word, same_word, twos_complement,
    word_of, zero32, Bytes32,
};
use crate::honk_verifier::HonkVerifierInterface;
use crate::host::{new_slots, sha256, sha256_digest, slot, slots, Slots};
use crate::merkle::{
    insert, path_node, remembered_after, root_in_ring, CAPACITY, LEVELS, ROOT_HISTORY_SIZE,
};
use crate::table::Table;
use soroban_sdk::Env;
use vstd::prelude::*;

verus! {

/// Ledgers that an entry is kept alive for, about 30 days.
pub const PERSISTENT_TTL: u32 = 518_400;

#[derive(Clone, Copy, Debug, PartialEq, Eq, Structural)]
pub enum VaultError {
    AlreadyInitialized,
    NotInitialized,
    InvalidAmount,
    MerkleTreeFull,
    NullifierAlreadySpent,
    UnknownRoot,
    InvalidProof,
    AmountMismatch,
    RecipientMismatch,
    /// Emergency pause: no deposits or withdrawals.
    ContractPaused,
    /// The caller is not the admin.
    NotAdmin,
}

impl VaultError {
    pub open spec fn number(self) -> u32 {
        match self {
            VaultError::AlreadyInitialized => 1,
            VaultError::NotInitialized => 2,
            VaultError::InvalidAmount => 3,
            VaultError::MerkleTreeFull => 4,
            VaultError::NullifierAlreadySpent => 5,
            VaultError::UnknownRoot => 6,
            VaultError::InvalidProof => 7,
            VaultError::AmountMismatch => 8,
            VaultError::RecipientMismatch => 9,
            VaultError::ContractPaused => 10,
            VaultError::NotAdmin => 11,
        }
    }

    /// The number by which a contract reports this error.
    pub fn code(self) -> (r: u32)
        ensures
            r == self.number(),
    {
        match self {
            VaultError::AlreadyInitialized => 1,
            VaultError::NotInitialized => 2,
            VaultError::InvalidAmount => 3,
            VaultError::MerkleTreeFull => 4,
            VaultError::NullifierAlreadySpent => 5,
            VaultError::UnknownRoot => 6,
            VaultError::InvalidProof => 7,
            VaultError::AmountMismatch => 8,
            VaultError::RecipientMismatch => 9,
            VaultError::ContractPaused => 10,
            VaultError::NotAdmin => 11,
        }
    }
}

/// What a withdrawal proof is about.
#[derive(Clone, Copy, Debug)]
pub struct WithdrawPublicInputs {
    /// The commitment that was deposited.
    pub commitment: Bytes32,
    /// The root that the proof was made against.
    pub root: Bytes32,
    /// The nullifier that was bound to the commitment.
    pub nullifier: Bytes32,
    /// The hash of the address that the tokens go to.
    pub recipient_hash: Bytes32,
    /// The amount to release, big-endian.
    pub amount_bytes: Bytes32,
}

impl WithdrawPublicInputs {
    /// What the verifier of withdrawals is shown, in the order of its circuit.
    /// The commitment is not among it.
    pub open spec fn words(self) -> Seq<Bytes32> {
        seq![self.root, self.nullifier, self.recipient_hash, self.amount_bytes]
    }
}

/// Announces a deposit, so that its recipient can find it.
#[derive(Debug)]
pub struct DepositNote {
    /// Position of the commitment in the tree.
    pub leaf_index: u32,
    pub commitment: Bytes32,
    /// Only the intended recipient can decrypt it.
    pub encrypted_note: Vec<u8>,
    /// The contract of the deposited token.
    pub token: Address,
}

/// What is fixed when the vault is set up.
#[derive(Clone, Copy, Debug)]
pub struct VaultConfig {
    /// May pause and resume the vault.
    pub admin: Address,
    /// The contract of the accepted token.
    pub token: Address,
    /// Verifier of withdrawals and transfers.
    pub shielded_verifier: Address,
    /// Verifier of partial withdrawals.
    pub partial_verifier: Address,
}

/// Something that the ledger has to do for the vault.
#[derive(Debug)]
pub enum VaultEffect {
    /// Fail unless `address` has authorised the call.
    RequireAuth { address: Address },
    /// Move tokens from `from` into the vault.
    PullTokens { token: Address, from: Address, amount: i128 },
    /// Move tokens from the vault to `to`.
    PayTokens { token: Address, to: Address, amount: i128 },
    /// Publish a deposit.
    Deposited { note: DepositNote },
    /// Publish a withdrawal: only its nullifier.
    Withdrawn { nullifier: Bytes32 },
    /// Publish a transfer inside the pool.
    Transferred { in_nullifier: Bytes32, out_commitment: Bytes32, leaf_index: u32 },
    /// Publish a partial withdrawal, with the note of the change.
    PartlyWithdrawn {
        in_nullifier: Bytes32,
        change_commitment: Bytes32,
        leaf_index: u32,
        amount: i128,
        encrypted_change_note: Vec<u8>,
    },
    /// Publish that the vault was paused.
    Paused,
    /// Publish that the vault was resumed.
    Unpaused,
}

// ---------------------------------------------------------------------------
// The vault as a state machine
// ---------------------------------------------------------------------------

/// What ties a nullifier to a commitment.
pub open spec fn binding_of(commitment: Bytes32, nullifier: Bytes32) -> Bytes32 {
    sha256_digest(commitment@ + nullifier@)
}

/// What ties a proof to the address that it pays.
pub open spec fn address_hash(address: Address) -> Bytes32 {
    sha256_digest(address_xdr(address))
}

/// The state of a vault.
#[verifier::ext_equal]
pub struct VaultState {
    /// Where the vault is deployed.
    pub address: Address,
    pub config: Option<VaultConfig>,
    pub paused: bool,
    /// Number of leaves in the tree.
    pub leaf_count: nat,
    /// Slot of the latest root.
    pub current_root: u32,
    /// Recent roots by slot.
    pub roots: Map<u32, Bytes32>,
    /// Left siblings by level.
    pub filled: Map<u32, Bytes32>,
    /// Nullifiers and whether they are spent.
    pub spent: Map<Bytes32, bool>,
    /// The commitments that were deposited.
    pub deposits: Set<Bytes32>,
    /// The binding of each commitment: of the deposited ones, and of change that a
    /// nullifier was bound to.
    pub bindings: Map<Bytes32, Bytes32>,
    pub total_locked: int,
}

impl VaultState {
    /// Why the vault turns down every operation on notes at the moment, if it
    /// does.
    pub open spec fn gate(self) -> Option<VaultError> {
        if self.config is None {
            Some(VaultError::NotInitialized)
        } else if self.paused {
            Some(VaultError::ContractPaused)
        } else {
            None
        }
    }

    pub open spec fn is_spent(self, nullifier: Bytes32) -> bool {
        self.spent.contains_key(nullifier) && self.spent[nullifier]
    }

    pub open spec fn knows_root(self, root: Bytes32) -> bool {
        root_in_ring(self.roots, root)
    }

    /// The latest root; zero before the first insertion.
    pub open spec fn root(self) -> Bytes32 {
        if self.roots.contains_key(self.current_root) {
            self.roots[self.current_root]
        } else {
            zero32()
        }
    }

    /// `nullifier` is the one that `commitment` was bound to.
    pub open spec fn binds(self, commitment: Bytes32, nullifier: Bytes32) -> bool {
        self.bindings.contains_key(commitment) && self.bindings[commitment] == binding_of(
            commitment,
            nullifier,
        )
    }

    /// The root that inserting `leaf` leads to.
    pub open spec fn root_with(self, leaf: Bytes32) -> Bytes32 {
        path_node(self.filled, leaf, self.leaf_count, LEVELS as nat)
    }

    /// After `leaf` was inserted into the tree.
    pub open spec fn with_leaf(self, leaf: Bytes32) -> VaultState {
        let next_slot = ((self.current_root + 1) % (ROOT_HISTORY_SIZE as int)) as u32;
        VaultState {
            leaf_count: self.leaf_count + 1,
            current_root: next_slot,
            roots: self.roots.insert(next_slot, self.root_with(leaf)),
            filled: remembered_after(self.filled, leaf, self.leaf_count, LEVELS as nat),
            ..self
        }
    }

    /// After `nullifier` was marked spent.
    pub open spec fn with_spent(self, nullifier: Bytes32) -> VaultState {
        VaultState { spent: self.spent.insert(nullifier, true), ..self }
    }

    /// After `commitment` was bound to `nullifier`.
    pub open spec fn with_binding(self, commitment: Bytes32, nullifier: Bytes32) -> VaultState {
        VaultState {
            bindings: self.bindings.insert(commitment, binding_of(commitment, nullifier)),
            ..self
        }
    }

    /// After `commitment` was recorded as deposited.
    pub open spec fn with_deposit(self, commitment: Bytes32) -> VaultState {
        VaultState { deposits: self.deposits.insert(commitment), ..self }
    }

    /// After the locked total changed by `change`.
    pub open spec fn with_change(self, change: int) -> VaultState {
        VaultState { total_locked: self.total_locked + change, ..self }
    }

    /// Why a deposit is turned down, if it is.
    pub open spec fn deposit_fault(self, amount: i128) -> Option<VaultError> {
        if self.gate() is Some {
            self.gate()
        } else if amount <= 0 {
            Some(VaultError::InvalidAmount)
        } else if self.leaf_count >= CAPACITY {
            Some(VaultError::MerkleTreeFull)
        } else {
            None
        }
    }

    /// After a deposit.
    pub open spec fn deposited(
        self,
        commitment: Bytes32,
        nullifier: Bytes32,
        amount: i128,
    ) -> VaultState {
        self.with_binding(commitment, nullifier).with_deposit(commitment).with_leaf(
            commitment,
        ).with_change(amount as int)
    }

    /// Why a withdrawal is turned down, if it is; `proof_ok` is the verdict of
    /// the verifier.
    pub open spec fn withdraw_fault(
        self,
        inputs: WithdrawPublicInputs,
        recipient: Address,
        amount: i128,
        proof_ok: bool,
    ) -> Option<VaultError> {
        if self.gate() is Some {
            self.gate()
        } else if self.is_spent(inputs.nullifier) {
            Some(VaultError::NullifierAlreadySpent)
        } else if !self.knows_root(inputs.root) {
            Some(VaultError::UnknownRoot)
        } else if !self.binds(inputs.commitment, inputs.nullifier) {
            Some(VaultError::InvalidProof)
        } else if amount_of(inputs.amount_bytes) != amount {
            Some(VaultError::AmountMismatch)
        } else if inputs.recipient_hash != address_hash(recipient) {
            Some(VaultError::RecipientMismatch)
        } else if !proof_ok {
            Some(VaultError::InvalidProof)
        } else {
            None
        }
    }

    /// After a withdrawal.
    pub open spec fn withdrawn(self, inputs: WithdrawPublicInputs, amount: i128) -> VaultState {
        self.with_spent(inputs.nullifier).with_change(-amount)
    }

    /// Why a transfer is turned down, if it is.
    pub open spec fn transfer_fault(
        self,
        in_nullifier: Bytes32,
        root: Bytes32,
        proof_ok: bool,
    ) -> Option<VaultError> {
        if self.gate() is Some {
            self.gate()
        } else if self.is_spent(in_nullifier) {
            Some(VaultError::NullifierAlreadySpent)
        } else if !self.knows_root(root) {
            Some(VaultError::UnknownRoot)
        } else if !proof_ok {
            Some(VaultError::InvalidProof)
        } else {
            None
        }
    }

    /// After a transfer.
    pub open spec fn transferred(
        self,
        in_nullifier: Bytes32,
        out_commitment: Bytes32,
    ) -> VaultState {
        self.with_spent(in_nullifier).with_leaf(out_commitment)
    }

    /// Why a partial withdrawal is turned down, if it is.
    pub open spec fn partial_fault(
        self,
        in_commitment: Bytes32,
        in_nullifier: Bytes32,
        in_root: Bytes32,
        recipient: Address,
        recipient_hash: Bytes32,
        withdraw_amount: i128,
        proof_ok: bool,
    ) -> Option<VaultError> {
        if self.gate() is Some {
            self.gate()
        } else if withdraw_amount <= 0 {
            Some(VaultError::InvalidAmount)
        } else if self.is_spent(in_nullifier) {
            Some(VaultError::NullifierAlreadySpent)
        } else if !self.knows_root(in_root) {
            Some(VaultError::UnknownRoot)
        } else if !self.binds(in_commitment, in_nullifier) {
            Some(VaultError::InvalidProof)
        } else if recipient_hash != address_hash(recipient) {
            Some(VaultError::RecipientMismatch)
        } else if !proof_ok {
            Some(VaultError::InvalidProof)
        } else {
            None
        }
    }

    /// After a partial withdrawal.
    pub open spec fn partly_withdrawn(
        self,
        in_nullifier: Bytes32,
        withdraw_amount: i128,
        change_commitment: Bytes32,
    ) -> VaultState {
        self.with_spent(in_nullifier).with_leaf(change_commitment).with_change(-withdraw_amount)
    }

    /// After a nullifier was bound to a change commitment; one that is bound
    /// already stays as it is.
    pub open spec fn change_bound(self, commitment: Bytes32, nullifier: Bytes32) -> VaultState {
        if self.bindings.contains_key(commitment) {
            self
        } else {
            self.with_binding(commitment, nullifier)
        }
    }

    /// Why pausing or resuming is turned down, if it is.
    pub open spec fn admin_fault(self, caller: Address) -> Option<VaultError> {
        match self.config {
            None => Some(VaultError::NotInitialized),
            Some(config) => if caller != config.admin {
                Some(VaultError::NotAdmin)
            } else {
                None
            },
        }
    }
}

/// What a transfer shows the verifier: no recipient and no amount.
pub open spec fn transfer_words(root: Bytes32, in_nullifier: Bytes32) -> Seq<Bytes32> {
    seq![root, in_nullifier, zero32(), zero32()]
}

/// What a partial withdrawal shows the verifier, in the order of its circuit.
pub open spec fn partial_words(
    in_commitment: Bytes32,
    in_root: Bytes32,
    in_nullifier: Bytes32,
    recipient_hash: Bytes32,
    withdraw_amount: i128,
    change_commitment: Bytes32,
) -> Seq<Bytes32> {
    seq![
        in_commitment,
        in_root,
        in_nullifier,
        recipient_hash,
        word_of(twos_complement(withdraw_amount)),
        change_commitment,
    ]
}

/// The outcome that a fault stands for.
pub open spec fn outcome<T>(fault: Option<VaultError>, value: T) -> Result<T, VaultError> {
    match fault {
        Some(error) => Err(error),
        None => Ok(value),
    }
}

// ---------------------------------------------------------------------------
// The contract
// ---------------------------------------------------------------------------

/// A vault.
pub struct ZavaVault {
    /// Where the vault is deployed.
    pub address: Address,
    /// Set once, by [`ZavaVault::initialize`].
    pub config: Option<VaultConfig>,
    pub paused: bool,
    pub next_leaf_index: u32,
    /// Slot of `roots` that holds the latest root.
    pub current_root_index: u32,
    /// Ring of recent roots.
    pub roots: Slots,
    /// Left siblings of the next path, by level.
    pub filled_subtrees: Slots,
    pub nullifier_spent: Table<Bytes32, bool>,
    /// The commitments that were deposited.
    pub deposits: Table<Bytes32, ()>,
    /// For each commitment, the hash of it and of its nullifier.
    pub commitment_nullifier_hash: Table<Bytes32, Bytes32>,
    pub total_locked: i128,
    /// What the ledger has to do, in order.
    pub outbox: Vec<VaultEffect>,
}

impl View for ZavaVault {
    type V = VaultState;

    open spec fn view(&self) -> VaultState {
        VaultState {
            address: self.address,
            config: self.config,
            paused: self.paused,
            leaf_count: self.next_leaf_index as nat,
            current_root: self.current_root_index,
            roots: slots(self.roots),
            filled: slots(self.filled_subtrees),
            spent: self.nullifier_spent@,
            deposits: self.deposits@.dom(),
            bindings: self.commitment_nullifier_hash@,
            total_locked: self.total_locked as int,
        }
    }
}

impl ZavaVault {
    /// The slot of the latest root lies in the ring.
    pub open spec fn wf(self) -> bool {
        self.current_root_index < ROOT_HISTORY_SIZE
    }

    /// A vault that is not set up yet.
    pub fn new(env: &Env, address: Address) -> (r: Self)
        ensures
            r.wf(),
            r@ == (VaultState {
                address,
                config: None,
                paused: false,
                leaf_count: 0,
                current_root: 0,
                roots: Map::empty(),
                filled: Map::empty(),
                spent: Map::empty(),
                deposits: Set::empty(),
                bindings: Map::empty(),
                total_locked: 0,
            }),
            r.outbox@.len() == 0,
    {
        ZavaVault {
            address,
            config: None,
            paused: false,
            next_leaf_index: 0,
            current_root_index: 0,
            roots: new_slots(env),
            filled_subtrees: new_slots(env),
            nullifier_spent: Table::new(),
            deposits: Table::new(),
            commitment_nullifier_hash: Table::new(),
            total_locked: 0,
            outbox: Vec::new(),
        }
    }

    /// Sets the vault up. Succeeds exactly once.
    pub fn initialize(
        &mut self,
        env: &Env,
        admin: Address,
        token: Address,
        shielded_verifier: Address,
        partial_verifier: Address,
    ) -> (r: Result<(), VaultError>)
        requires
            old(self).wf(),
        ensures
            final(self).wf(),
            r == (if old(self)@.config is Some {
                Err(VaultError::AlreadyInitialized)
            } else {
                Ok(())
            }),
            final(self)@ == (if old(self)@.config is Some {
                old(self)@
            } else {
                VaultState {
                    config: Some(
                        VaultConfig { admin, token, shielded_verifier, partial_verifier },
                    ),
                    leaf_count: 0,
                    current_root: 0,
                    roots: Map::empty(),
                    filled: Map::empty(),
                    total_locked: 0,
                    ..old(self)@
                }
            }),
            final(self).outbox@ == (if r is Ok {
                old(self).outbox@.push(VaultEffect::RequireAuth { address: admin })
            } else {
                old(self).outbox@
            }),
    {
        if self.config.is_some() {
            return Err(VaultError::AlreadyInitialized);
        }
        self.outbox.push(VaultEffect::RequireAuth { address: admin });
        self.config = Some(VaultConfig { admin, token, shielded_verifier, partial_verifier });
        self.next_leaf_index = 0;
        self.current_root_index = 0;
        self.total_locked = 0;
        self.roots = new_slots(env);
        self.filled_subtrees = new_slots(env);
        Ok(())
    }

    /// Locks `amount` tokens under `commitment` and returns the position of the
    /// commitment in the tree.
    pub fn deposit(
        &mut self,
        env: &Env,
        depositor: Address,
        commitment: Bytes32,
        nullifier: Bytes32,
        amount: i128,
        encrypted_note: Vec<u8>,
    ) -> (r: Result<u32, VaultError>)
        requires
            old(self).wf(),
            old(self)@.deposit_fault(amount) is None ==> old(self).total_locked + amount
                <= i128::MAX,
        ensures
            final(self).wf(),
            r == outcome(old(self)@.deposit_fault(amount), old(self).next_leaf_index),
            final(self)@ == (if r is Ok {
                old(self)@.deposited(commitment, nullifier, amount)
            } else {
                old(self)@
            }),
            ({
                let token = old(self).config->0.token;
                let before = old(self).outbox@;
                let funded = before.push(VaultEffect::RequireAuth { address: depositor }).push(
                    VaultEffect::PullTokens { token, from: depositor, amount },
                );
                final(self).outbox@ == (match r {
                    Ok(leaf_index) => funded.push(
                        VaultEffect::Deposited {
                            note: DepositNote { leaf_index, commitment, encrypted_note, token },
                        },
                    ),
                    Err(VaultError::MerkleTreeFull) => funded,
                    Err(_) => before,
                })
            }),
    {
        self.check_initialized()?;
        self.check_not_paused()?;
        if amount <= 0 {
            return Err(VaultError::InvalidAmount);
        }
        let token = match &self.config {
            Some(config) => config.token,
            None => {
                return Err(VaultError::NotInitialized);
            },
        };
        self.outbox.push(VaultEffect::RequireAuth { address: depositor });
        self.outbox.push(VaultEffect::PullTokens { token, from: depositor, amount });
        let leaf_index: u32 = self.next_leaf_index;
        if leaf_index >= CAPACITY {
            return Err(VaultError::MerkleTreeFull);
        }
        let binding = Self::commitment_nullifier_hash(env, &commitment, &nullifier);
        self.commitment_nullifier_hash.set(commitment, binding);
        self.deposits.set(commitment, ());
        self.add_leaf(env, commitment);
        self.total_locked = self.total_locked + amount;
        self.outbox.push(
            VaultEffect::Deposited {
                note: DepositNote { leaf_index, commitment, encrypted_note, token },
            },
        );
        Ok(leaf_index)
    }

    /// Like [`ZavaVault::deposit`], for any locked total: where the deposit would go
    /// through but the total cannot hold the sum, nothing is returned and nothing
    /// changes.
    pub fn try_deposit(
        &mut self,
        env: &Env,
        depositor: Address,
        commitment: Bytes32,
        nullifier: Bytes32,
        amount: i128,
        encrypted_note: Vec<u8>,
    ) -> (r: Option<Result<u32, VaultError>>)
        requires
            old(self).wf(),
        ensures
            final(self).wf(),
            ({
                let fault = old(self)@.deposit_fault(amount);
                let fits = old(self).total_locked + amount <= i128::MAX;
                r == (if fault is None && !fits {
                    None
                } else {
                    Some(outcome(fault, old(self).next_leaf_index))
                })
            }),
            final(self)@ == (if r matches Some(Ok(_)) {
                old(self)@.deposited(commitment, nullifier, amount)
            } else {
                old(self)@
            }),
            ({
                let token = old(self).config->0.token;
                let before = old(self).outbox@;
                let funded = before.push(VaultEffect::RequireAuth { address: depositor }).push(
                    VaultEffect::PullTokens { token, from: depositor, amount },
                );
                final(self).outbox@ == (match r {
                    Some(Ok(leaf_index)) => funded.push(
                        VaultEffect::Deposited {
                            note: DepositNote { leaf_index, commitment, encrypted_note, token },
                        },
                    ),
                    Some(Err(VaultError::MerkleTreeFull)) => funded,
                    _ => before,
                })
            }),
    {
        let goes_through = self.config.is_some() && !self.paused && amount > 0
            && self.next_leaf_index < CAPACITY;
        if goes_through && self.total_locked.checked_add(amount).is_none() {
            return None;
        }
        Some(self.deposit(env, depositor, commitment, nullifier, amount, encrypted_note))
    }

    /// Releases `amount` tokens to `recipient`.
    ///
    /// The nullifier has to be fresh, the root recent, the nullifier the one that
    /// the commitment is bound to, the amount and the recipient those of the
    /// proof, and the proof valid. `verifier` is the configured verifier of
    /// withdrawals.
    pub fn withdraw<V: HonkVerifierInterface>(
        &mut self,
        env: &Env,
        verifier: &V,
        proof: &Vec<u8>,
        public_inputs: WithdrawPublicInputs,
        recipient: Address,
        amount: i128,
    ) -> (r: Result<(), VaultError>)
        requires
            old(self).wf(),
            old(self).config is Some ==> verifier.id() == old(self).config->0.shielded_verifier,
            old(self)@.withdraw_fault(
                public_inputs,
                recipient,
                amount,
                verifier.accepts(proof@, public_inputs.words()),
            ) is None ==> i128::MIN <= old(self).total_locked - amount <= i128::MAX,
        ensures
            final(self).wf(),
            r == outcome(
                old(self)@.withdraw_fault(
                    public_inputs,
                    recipient,
                    amount,
                    verifier.accepts(proof@, public_inputs.words()),
                ),
                (),
            ),
            final(self)@ == (if r is Ok {
                old(self)@.withdrawn(public_inputs, amount)
            } else {
                old(self)@
            }),
            final(self).outbox@ == (if r is Ok {
                old(self).outbox@.push(
                    VaultEffect::PayTokens {
                        token: old(self).config->0.token,
                        to: recipient,
                        amount,
                    },
                ).push(VaultEffect::Withdrawn { nullifier: public_inputs.nullifier })
            } else {
                old(self).outbox@
            }),
    {
        self.check_withdraw(env, verifier, proof, &public_inputs, &recipient, amount)?;
        let token = match &self.config {
            Some(config) => config.token,
            None => {
                return Err(VaultError::NotInitialized);
            },
        };
        self.nullifier_spent.set(public_inputs.nullifier, true);
        self.total_locked = self.total_locked - amount;
        self.outbox.push(VaultEffect::PayTokens { token, to: recipient, amount });
        self.outbox.push(VaultEffect::Withdrawn { nullifier: public_inputs.nullifier });
        Ok(())
    }

    /// Like [`ZavaVault::withdraw`], for any locked total: where the withdrawal would
    /// go through but the total cannot hold the difference, nothing is returned and
    /// nothing changes.
    pub fn try_withdraw<V: HonkVerifierInterface>(
        &mut self,
        env: &Env,
        verifier: &V,
        proof: &Vec<u8>,
        public_inputs: WithdrawPublicInputs,
        recipient: Address,
        amount: i128,
    ) -> (r: Option<Result<(), VaultError>>)
        requires
            old(self).wf(),
            old(self).config is Some ==> verifier.id() == old(self).config->0.shielded_verifier,
        ensures
            final(self).wf(),
            ({
                let fault = old(self)@.withdraw_fault(
                    public_inputs,
                    recipient,
                    amount,
                    verifier.accepts(proof@, public_inputs.words()),
                );
                let fits = i128::MIN <= old(self).total_locked - amount <= i128::MAX;
                r == (if fault is None && !fits {
                    None
                } else {
                    Some(outcome(fault, ()))
                })
            }),
            final(self)@ == (if r == Some(Ok::<(), VaultError>(())) {
                old(self)@.withdrawn(public_inputs, amount)
            } else {
                old(self)@
            }),
            final(self).outbox@ == (if r == Some(Ok::<(), VaultError>(())) {
                old(self).outbox@.push(
                    VaultEffect::PayTokens {
                        token: old(self).config->0.token,
                        to: recipient,
                        amount,
                    },
                ).push(VaultEffect::Withdrawn { nullifier: public_inputs.nullifier })
            } else {
                old(self).outbox@
            }),
    {
        if self.total_locked.checked_sub(amount).is_some() {
            return Some(self.withdraw(env, verifier, proof, public_inputs, recipient, amount));
        }
        match self.check_withdraw(env, verifier, proof, &public_inputs, &recipient, amount) {
            Ok(()) => None,
            Err(error) => Some(Err(error)),
        }
    }

    /// Why a withdrawal is turned down, if it is.
    fn check_withdraw<V: HonkVerifierInterface>(
        &self,
        env: &Env,
        verifier: &V,
        proof: &Vec<u8>,
        public_inputs: &WithdrawPublicInputs,
        recipient: &Address,
        amount: i128,
    ) -> (r: Result<(), VaultError>)
        requires
            self.config is Some ==> verifier.id() == self.config->0.shielded_verifier,
        ensures
            r == outcome(
                self@.withdraw_fault(
                    *public_inputs,
                    *recipient,
                    amount,
                    verifier.accepts(proof@, public_inputs.words()),
                ),
                (),
            ),
    {
        self.check_initialized()?;
        self.check_not_paused()?;
        if self.is_nullifier_spent(&public_inputs.nullifier) {
            return Err(VaultError::NullifierAlreadySpent);
        }
        if !self.is_known_root(&public_inputs.root) {
            return Err(VaultError::UnknownRoot);
        }
        if !self.commitment_matches_nullifier(
            env,
            &public_inputs.commitment,
            &public_inputs.nullifier,
        ) {
            return Err(VaultError::InvalidProof);
        }
        if Self::bytes32_to_i128(&public_inputs.amount_bytes) != amount {
            return Err(VaultError::AmountMismatch);
        }
        let expected_hash = Self::hash_address(env, recipient);
        if !same_word(&expected_hash, &public_inputs.recipient_hash) {
            return Err(VaultError::RecipientMismatch);
        }
        let mut words: Vec<Bytes32> = Vec::new();
        words.push(public_inputs.root);
        words.push(public_inputs.nullifier);
        words.push(public_inputs.recipient_hash);
        words.push(public_inputs.amount_bytes);
        assert(words@ =~= public_inputs.words());
        if !verifier.verify(env, proof, &words) {
            return Err(VaultError::InvalidProof);
        }
        Ok(())
    }

    /// Spends one note and puts another one into the tree; no tokens move.
    /// Returns the position of the new commitment. `verifier` is the configured
    /// verifier of withdrawals.
    pub fn transfer_shielded<V: HonkVerifierInterface>(
        &mut self,
        env: &Env,
        verifier: &V,
        proof: &Vec<u8>,
        in_nullifier: Bytes32,
        out_commitment: Bytes32,
        root: Bytes32,
    ) -> (r: Result<u32, VaultError>)
        requires
            old(self).wf(),
            old(self).config is Some ==> verifier.id() == old(self).config->0.shielded_verifier,
            old(self)@.transfer_fault(
                in_nullifier,
                root,
                verifier.accepts(proof@, transfer_words(root, in_nullifier)),
            ) is None ==> old(self).next_leaf_index < u32::MAX,
        ensures
            final(self).wf(),
            r == outcome(
                old(self)@.transfer_fault(
                    in_nullifier,
                    root,
                    verifier.accepts(proof@, transfer_words(root, in_nullifier)),
                ),
                old(self).next_leaf_index,
            ),
            final(self)@ == (if r is Ok {
                old(self)@.transferred(in_nullifier, out_commitment)
            } else {
                old(self)@
            }),
            final(self).outbox@ == (match r {
                Ok(leaf_index) => old(self).outbox@.push(
                    VaultEffect::Transferred { in_nullifier, out_commitment, leaf_index },
                ),
                Err(_) => old(self).outbox@,
            }),
    {
        self.check_transfer(env, verifier, proof, &in_nullifier, &root)?;
        self.nullifier_spent.set(in_nullifier, true);
        let leaf_index: u32 = self.next_leaf_index;
        self.add_leaf(env, out_commitment);
        self.outbox.push(VaultEffect::Transferred { in_nullifier, out_commitment, leaf_index });
        Ok(leaf_index)
    }

    /// Like [`ZavaVault::transfer_shielded`], for any number of leaves: where the
    /// transfer would go through but the leaves cannot be counted any more, nothing
    /// is returned and nothing changes.
    pub fn try_transfer_shielded<V: HonkVerifierInterface>(
        &mut self,
        env: &Env,
        verifier: &V,
        proof: &Vec<u8>,
        in_nullifier: Bytes32,
        out_commitment: Bytes32,
        root: Bytes32,
    ) -> (r: Option<Result<u32, VaultError>>)
        requires
            old(self).wf(),
            old(self).config is Some ==> verifier.id() == old(self).config->0.shielded_verifier,
        ensures
            final(self).wf(),
            ({
                let fault = old(self)@.transfer_fault(
                    in_nullifier,
                    root,
                    verifier.accepts(proof@, transfer_words(root, in_nullifier)),
                );
                r == (if fault is None && old(self).next_leaf_index == u32::MAX {
                    None
                } else {
                    Some(outcome(fault, old(self).next_leaf_index))
                })
            }),
            final(self)@ == (if r matches Some(Ok(_)) {
                old(self)@.transferred(in_nullifier, out_commitment)
            } else {
                old(self)@
            }),
            final(self).outbox@ == (match r {
                Some(Ok(leaf_index)) => old(self).outbox@.push(
                    VaultEffect::Transferred { in_nullifier, out_commitment, leaf_index },
                ),
                _ => old(self).outbox@,
            }),
    {
        if self.next_leaf_index < u32::MAX {
            return Some(
                self.transfer_shielded(env, verifier, proof, in_nullifier, out_commitment, root),
            );
        }
        match self.check_transfer(env, verifier, proof, &in_nullifier, &root) {
            Ok(()) => None,
            Err(error) => Some(Err(error)),
        }
    }

    /// Why a transfer is turned down, if it is.
    fn check_transfer<V: HonkVerifierInterface>(
        &self,
        env: &Env,
        verifier: &V,
        proof: &Vec<u8>,
        in_nullifier: &Bytes32,
        root: &Bytes32,
    ) -> (r: Result<(), VaultError>)
        requires
            self.config is Some ==> verifier.id() == self.config->0.shielded_verifier,
        ensures
            r == outcome(
                self@.transfer_fault(
                    *in_nullifier,
                    *root,
                    verifier.accepts(proof@, transfer_words(*root, *in_nullifier)),
                ),
                (),
            ),
    {
        self.check_initialized()?;
        self.check_not_paused()?;
        if self.is_nullifier_spent(in_nullifier) {
            return Err(VaultError::NullifierAlreadySpent);
        }
        if !self.is_known_root(root) {
            return Err(VaultError::UnknownRoot);
        }
        let zero: Bytes32 = [0u8; 32];
        assert(zero =~= zero32());
        let mut words: Vec<Bytes32> = Vec::new();
        words.push(*root);
        words.push(*in_nullifier);
        words.push(zero);
        words.push(zero);
        assert(words@ =~= transfer_words(*root, *in_nullifier));
        if !verifier.verify(env, proof, &words) {
            return Err(VaultError::InvalidProof);
        }
        Ok(())
    }

    /// Releases part of a note to `recipient` and puts the remainder back into
    /// the tree as `change_commitment`, whose position is returned. `verifier` is
    /// the configured verifier of partial withdrawals.
    pub fn partial_withdraw<V: HonkVerifierInterface>(
        &mut self,
        env: &Env,
        verifier: &V,
        proof: &Vec<u8>,
        in_commitment: Bytes32,
        in_nullifier: Bytes32,
        in_root: Bytes32,
        recipient: Address,
        recipient_hash: Bytes32,
        withdraw_amount: i128,
        change_commitment: Bytes32,
        encrypted_change_note: Vec<u8>,
    ) -> (r: Result<u32, VaultError>)
        requires
            old(self).wf(),
            old(self).config is Some ==> verifier.id() == old(self).config->0.partial_verifier,
            old(self)@.partial_fault(
                in_commitment,
                in_nullifier,
                in_root,
                recipient,
                recipient_hash,
                withdraw_amount,
                verifier.accepts(
                    proof@,
                    partial_words(
                        in_commitment,
                        in_root,
                        in_nullifier,
                        recipient_hash,
                        withdraw_amount,
                        change_commitment,
                    ),
                ),
            ) is None ==> old(self).next_leaf_index < u32::MAX && old(self).total_locked
                - withdraw_amount >= i128::MIN,
        ensures
            final(self).wf(),
            r == outcome(
                old(self)@.partial_fault(
                    in_commitment,
                    in_nullifier,
                    in_root,
                    recipient,
                    recipient_hash,
                    withdraw_amount,
                    verifier.accepts(
                        proof@,
                        partial_words(
                            in_commitment,
                            in_root,
                            in_nullifier,
                            recipient_hash,
                            withdraw_amount,
                            change_commitment,
                        ),
                    ),
                ),
                old(self).next_leaf_index,
            ),
            final(self)@ == (if r is Ok {
                old(self)@.partly_withdrawn(in_nullifier, withdraw_amount, change_commitment)
            } else {
                old(self)@
            }),
            final(self).outbox@ == (match r {
                Ok(leaf_index) => old(self).outbox@.push(
                    VaultEffect::PayTokens {
                        token: old(self).config->0.token,
                        to: recipient,
                        amount: withdraw_amount,
                    },
                ).push(
                    VaultEffect::PartlyWithdrawn {
                        in_nullifier,
                        change_commitment,
                        leaf_index,
                        amount: withdraw_amount,
                        encrypted_change_note,
                    },
                ),
                Err(_) => old(self).outbox@,
            }),
    {
        self.check_partial(
            env,
            verifier,
            proof,
            &in_commitment,
            &in_nullifier,
            &in_root,
            &recipient,
            &recipient_hash,
            withdraw_amount,
            &change_commitment,
        )?;
        let token = match &self.config {
            Some(config) => config.token,
            None => {
                return Err(VaultError::NotInitialized);
            },
        };
        self.nullifier_spent.set(in_nullifier, true);
        let leaf_index: u32 = self.next_leaf_index;
        self.add_leaf(env, change_commitment);
        self.total_locked = self.total_locked - withdraw_amount;
        self.outbox.push(
            VaultEffect::PayTokens { token, to: recipient, amount: withdraw_amount },
        );
        self.outbox.push(
            VaultEffect::PartlyWithdrawn {
                in_nullifier,
                change_commitment,
                leaf_index,
                amount: withdraw_amount,
                encrypted_change_note,
            },
        );
        Ok(leaf_index)
    }

    /// Like [`ZavaVault::partial_withdraw`], for any locked total and number of
    /// leaves: where the withdrawal would go through but the difference or the leaves
    /// cannot be counted, nothing is returned and nothing changes.
    pub fn try_partial_withdraw<V: HonkVerifierInterface>(
        &mut self,
        env: &Env,
        verifier: &V,
        proof: &Vec<u8>,
        in_commitment: Bytes32,
        in_nullifier: Bytes32,
        in_root: Bytes32,
        recipient: Address,
        recipient_hash: Bytes32,
        withdraw_amount: i128,
        change_commitment: Bytes32,
        encrypted_change_note: Vec<u8>,
    ) -> (r: Option<Result<u32, VaultError>>)
        requires
            old(self).wf(),
            old(self).config is Some ==> verifier.id() == old(self).config->0.partial_verifier,
        ensures
            final(self).wf(),
            ({
                let fault = old(self)@.partial_fault(
                    in_commitment,
                    in_nullifier,
                    in_root,
                    recipient,
                    recipient_hash,
                    withdraw_amount,
                    verifier.accepts(
                        proof@,
                        partial_words(
                            in_commitment,
                            in_root,
                            in_nullifier,
                            recipient_hash,
                            withdraw_amount,
                            change_commitment,
                        ),
                    ),
                );
                let fits = old(self).next_leaf_index < u32::MAX && old(self).total_locked
                    - withdraw_amount >= i128::MIN;
                r == (if fault is None && !fits {
                    None
                } else {
                    Some(outcome(fault, old(self).next_leaf_index))
                })
            }),
            final(self)@ == (if r matches Some(Ok(_)) {
                old(self)@.partly_withdrawn(in_nullifier, withdraw_amount, change_commitment)
            } else {
                old(self)@
            }),
            final(self).outbox@ == (match r {
                Some(Ok(leaf_index)) => old(self).outbox@.push(
                    VaultEffect::PayTokens {
                        token: old(self).config->0.token,
                        to: recipient,
                        amount: withdraw_amount,
                    },
                ).push(
                    VaultEffect::PartlyWithdrawn {
                        in_nullifier,
                        change_commitment,
                        leaf_index,
                        amount: withdraw_amount,
                        encrypted_change_note,
                    },
                ),
                _ => old(self).outbox@,
            }),
    {
        if self.next_leaf_index < u32::MAX && self.total_locked.checked_sub(
            withdraw_amount,
        ).is_some() {
            return Some(
                self.partial_withdraw(
                    env,
                    verifier,
                    proof,
                    in_commitment,
                    in_nullifier,
                    in_root,
                    recipient,
                    recipient_hash,
                    withdraw_amount,
                    change_commitment,
                    encrypted_change_note,
                ),
            );
        }
        match self.check_partial(
            env,
            verifier,
            proof,
            &in_commitment,
            &in_nullifier,
            &in_root,
            &recipient,
            &recipient_hash,
            withdraw_amount,
            &change_commitment,
        ) {
            Ok(()) => None,
            Err(error) => Some(Err(error)),
        }
    }

    /// Why a partial withdrawal is turned down, if it is.
    fn check_partial<V: HonkVerifierInterface>(
        &self,
        env: &Env,
        verifier: &V,
        proof: &Vec<u8>,
        in_commitment: &Bytes32,
        in_nullifier: &Bytes32,
        in_root: &Bytes32,
        recipient: &Address,
        recipient_hash: &Bytes32,
        withdraw_amount: i128,
        change_commitment: &Bytes32,
    ) -> (r: Result<(), VaultError>)
        requires
            self.config is Some ==> verifier.id() == self.config->0.partial_verifier,
        ensures
            r == outcome(
                self@.partial_fault(
                    *in_commitment,
                    *in_nullifier,
                    *in_root,
                    *recipient,
                    *recipient_hash,
                    withdraw_amount,
                    verifier.accepts(
                        proof@,
                        partial_words(
                            *in_commitment,
                            *in_root,
                            *in_nullifier,
                            *recipient_hash,
                            withdraw_amount,
                            *change_commitment,
                        ),
                    ),
                ),
                (),
            ),
    {
        self.check_initialized()?;
        self.check_not_paused()?;
        if withdraw_amount <= 0 {
            return Err(VaultError::InvalidAmount);
        }
        if self.is_nullifier_spent(in_nullifier) {
            return Err(VaultError::NullifierAlreadySpent);
        }
        if !self.is_known_root(in_root) {
            return Err(VaultError::UnknownRoot);
        }
        if !self.commitment_matches_nullifier(env, in_commitment, in_nullifier) {
            return Err(VaultError::InvalidProof);
        }
        let expected_hash = Self::hash_address(env, recipient);
        if !same_word(&expected_hash, recipient_hash) {
            return Err(VaultError::RecipientMismatch);
        }
        let mut words: Vec<Bytes32> = Vec::new();
        words.push(*in_commitment);
        words.push(*in_root);
        words.push(*in_nullifier);
        words.push(*recipient_hash);
        words.push(Self::i128_to_bytes32(withdraw_amount));
        words.push(*change_commitment);
        assert(words@ =~= partial_words(
            *in_commitment,
            *in_root,
            *in_nullifier,
            *recipient_hash,
            withdraw_amount,
            *change_commitment,
        ));
        if !verifier.verify(env, proof, &words) {
            return Err(VaultError::InvalidProof);
        }
        Ok(())
    }

    /// Binds a nullifier to a change commitment, so that it can be spent like a
    /// deposit. A commitment that is bound already keeps its binding. The proof
    /// is not looked at, and the commitment does not become a deposit.
    pub fn bind_change_nullifier(
        &mut self,
        env: &Env,
        _proof: &Vec<u8>,
        change_commitment: Bytes32,
        change_nullifier: Bytes32,
    ) -> (r: Result<(), VaultError>)
        requires
            old(self).wf(),
        ensures
            final(self).wf(),
            r == outcome(old(self)@.gate(), ()),
            final(self)@ == (if r is Ok {
                old(self)@.change_bound(change_commitment, change_nullifier)
            } else {
                old(self)@
            }),
            final(self).outbox@ == old(self).outbox@,
    {
        self.check_initialized()?;
        self.check_not_paused()?;
        if self.commitment_nullifier_hash.has(&change_commitment) {
            return Ok(());
        }
        let binding = Self::commitment_nullifier_hash(env, &change_commitment, &change_nullifier);
        self.commitment_nullifier_hash.set(change_commitment, binding);
        Ok(())
    }

    /// The latest root.
    pub fn get_root(&self) -> (r: Bytes32)
        ensures
            r == self@.root(),
    {
        match slot(&self.roots, self.current_root_index) {
            Some(root) => root,
            None => {
                let zero: Bytes32 = [0u8; 32];
                assert(zero =~= zero32());
                zero
            },
        }
    }

    /// The tokens that the vault holds for its notes.
    pub fn get_total_locked(&self) -> (r: i128)
        ensures
            r == self@.total_locked,
    {
        self.total_locked
    }

    /// The number of commitments in the tree.
    pub fn get_leaf_count(&self) -> (r: u32)
        ensures
            r == self@.leaf_count,
    {
        self.next_leaf_index
    }

    /// Whether `root` is recent enough to prove against.
    pub fn is_known_root(&self, root: &Bytes32) -> (r: bool)
        ensures
            r == self@.knows_root(*root),
            r <==> exists|k: u32|
                k < 30 && #[trigger] self@.roots.contains_key(k) && self@.roots[k] == *root,
    {
        let known = crate::merkle::is_known_root(&self.roots, root);
        assert(known == self@.knows_root(*root));
        known
    }

    /// Whether `nullifier` was spent.
    pub fn is_nullifier_spent(&self, nullifier: &Bytes32) -> (r: bool)
        ensures
            r == self@.is_spent(*nullifier),
            r == (self@.spent.contains_key(*nullifier) && self@.spent[*nullifier]),
    {
        match self.nullifier_spent.get(nullifier) {
            Some(spent) => *spent,
            None => false,
        }
    }

    /// Whether `commitment` was ever deposited.
    pub fn commitment_exists(&self, commitment: &Bytes32) -> (r: bool)
        ensures
            r == self@.deposits.contains(*commitment),
    {
        self.deposits.has(commitment)
    }

    /// Whether `nullifier` is the one that `commitment` was bound to.
    pub fn commitment_matches_nullifier(
        &self,
        env: &Env,
        commitment: &Bytes32,
        nullifier: &Bytes32,
    ) -> (r: bool)
        ensures
            r == self@.binds(*commitment, *nullifier),
            r == (self@.bindings.contains_key(*commitment) && self@.bindings[*commitment]
                == sha256_digest(commitment@ + nullifier@)),
    {
        match self.commitment_nullifier_hash.get(commitment) {
            None => false,
            Some(stored) => {
                let claimed = Self::commitment_nullifier_hash(env, commitment, nullifier);
                same_word(&claimed, stored)
            },
        }
    }

    /// Halts all operations on notes. Only the admin may.
    pub fn pause(&mut self, admin: Address) -> (r: Result<(), VaultError>)
        requires
            old(self).wf(),
        ensures
            final(self).wf(),
            r == outcome(old(self)@.admin_fault(admin), ()),
            final(self)@ == (if r is Ok {
                VaultState { paused: true, ..old(self)@ }
            } else {
                old(self)@
            }),
            final(self).outbox@ == (if r is Ok {
                old(self).outbox@.push(VaultEffect::RequireAuth { address: admin }).push(
                    VaultEffect::Paused,
                )
            } else {
                old(self).outbox@
            }),
    {
        self.check_admin(&admin)?;
        self.outbox.push(VaultEffect::RequireAuth { address: admin });
        self.paused = true;
        self.outbox.push(VaultEffect::Paused);
        Ok(())
    }

    /// Resumes normal operation. Only the admin may.
    pub fn unpause(&mut self, admin: Address) -> (r: Result<(), VaultError>)
        requires
            old(self).wf(),
        ensures
            final(self).wf(),
            r == outcome(old(self)@.admin_fault(admin), ()),
            final(self)@ == (if r is Ok {
                VaultState { paused: false, ..old(self)@ }
            } else {
                old(self)@
            }),
            final(self).outbox@ == (if r is Ok {
                old(self).outbox@.push(VaultEffect::RequireAuth { address: admin }).push(
                    VaultEffect::Unpaused,
                )
            } else {
                old(self).outbox@
            }),
    {
        self.check_admin(&admin)?;
        self.outbox.push(VaultEffect::RequireAuth { address: admin });
        self.paused = false;
        self.outbox.push(VaultEffect::Unpaused);
        Ok(())
    }

    /// Whether the vault is paused.
    pub fn is_paused(&self) -> (r: bool)
        ensures
            r == self@.paused,
    {
        self.paused
    }

    fn check_initialized(&self) -> (r: Result<(), VaultError>)
        ensures
            r == (if self@.config is None {
                Err(VaultError::NotInitialized)
            } else {
                Ok(())
            }),
    {
        if self.config.is_none() {
            return Err(VaultError::NotInitialized);
        }
        Ok(())
    }

    fn check_not_paused(&self) -> (r: Result<(), VaultError>)
        ensures
            r == (if self@.paused {
                Err(VaultError::ContractPaused)
            } else {
                Ok(())
            }),
    {
        if self.paused {
            return Err(VaultError::ContractPaused);
        }
        Ok(())
    }

    fn check_admin(&self, caller: &Address) -> (r: Result<(), VaultError>)
        ensures
            r == outcome(self@.admin_fault(*caller), ()),
    {
        match &self.config {
            None => Err(VaultError::NotInitialized),
            Some(config) => {
                if !caller.is(&config.admin) {
                    return Err(VaultError::NotAdmin);
                }
                Ok(())
            },
        }
    }

    /// Inserts a leaf into the tree and its root into the ring.
    fn add_leaf(&mut self, env: &Env, leaf: Bytes32)
        requires
            old(self).wf(),
            old(self).next_leaf_index < u32::MAX,
        ensures
            final(self).wf(),
            final(self)@ == old(self)@.with_leaf(leaf),
            final(self).outbox == old(self).outbox,
            final(self).total_locked == old(self).total_locked,
    {
        let (_root, next, slot_index) = insert(
            env,
            leaf,
            &mut self.filled_subtrees,
            &mut self.roots,
            self.next_leaf_index,
            self.current_root_index,
        );
        self.next_leaf_index = next;
        self.current_root_index = slot_index;
    }

    /// SHA-256 of the commitment followed by the nullifier.
    pub fn commitment_nullifier_hash(
        env: &Env,
        commitment: &Bytes32,
        nullifier: &Bytes32,
    ) -> (r: Bytes32)
        ensures
            r == binding_of(*commitment, *nullifier),
            r == sha256_digest(commitment@ + nullifier@),
    {
        let buf = concat_words(commitment, nullifier);
        sha256(env, &buf)
    }

    /// SHA-256 of the XDR form of an address.
    pub fn hash_address(env: &Env, address: &Address) -> (r: Bytes32)
        ensures
            r == address_hash(*address),
            r == sha256_digest(address_xdr(*address)),
    {
        let xdr = address.to_xdr(env);
        sha256(env, &xdr)
    }

    /// The signed number in the low half of a word.
    pub fn bytes32_to_i128(b: &Bytes32) -> (r: i128)
        ensures
            r == amount_of(*b),
    {
        let n: u128 = decode_low_half(b);
        if n < 0x8000_0000_0000_0000_0000_0000_0000_0000 {
            n as i128
        } else {
            -1 - (u128::MAX - n) as i128
        }
    }

    /// The word whose low half is the two's-complement pattern of `v`.
    pub fn i128_to_bytes32(v: i128) -> (r: Bytes32)
        ensures
            r == word_of(twos_complement(v)),
            amount_of(r) == v,
            forall|i: int| 0 <= i < 16 ==> r[i] == 0,
    {
        let n: u128 = if v >= 0 {
            v as u128
        } else {
            u128::MAX - (-1 - v) as u128
        };
        encode_word(n)
    }
}

} // verus!
