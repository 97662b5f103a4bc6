//! What each call of a vault accepts, what it shows the verifier and what it changes, in
//! terms of what the vault stores.
use crate::address::{address_xdr, Address};
use crate::bytes::{
    amount_of, be_value, law_amounts_are_written_in_twos_complement, Bytes32,
};
use crate::host::{sha256_digest, slots};
use crate::merkle::{path_node, remembered_after, tree_root};
use crate::vault_laws::{
    inserted, law_roots_of_the_last_insertions_are_known, law_tree_is_over_all_insertions, run,
    tree_over, VaultCall,
};
use crate::zava_credit::VaultInterface;
use crate::zava_vault::{
    outcome, partial_words, transfer_words, VaultError, VaultState, WithdrawPublicInputs, ZavaVault,
};
use vstd::prelude::*;

verus! {

// ---------------------------------------------------------------------------
// What the vault answers
// ---------------------------------------------------------------------------

/// A fault is reported as that error, and a call without one gives its value.
pub proof fn law_faults_are_reported<T>(error: VaultError, value: T)
    ensures
        outcome(None, value) == Ok::<T, VaultError>(value),
        outcome(Some(error), value) == Err::<T, VaultError>(error),
{
}

/// A nullifier is spent where it is marked so; a root is known where one of the 30 slots
/// holds it; the latest root is what the current slot holds, and zero where it holds
/// nothing; a nullifier belongs to a commitment where the stored binding is the SHA-256
/// of the commitment followed by the nullifier.
pub proof fn law_vault_answers_from_its_storage(
    s: VaultState,
    nullifier: Bytes32,
    commitment: Bytes32,
    root: Bytes32,
)
    ensures
        s.is_spent(nullifier) <==> s.spent.contains_key(nullifier) && s.spent[nullifier],
        s.knows_root(root) <==> exists|k: u32|
            k < 30 && #[trigger] s.roots.contains_key(k) && s.roots[k] == root,
        s.roots.contains_key(s.current_root) ==> s.root() == s.roots[s.current_root],
        !s.roots.contains_key(s.current_root) ==> forall|j: int|
            0 <= j < 32 ==> #[trigger] s.root()@[j] == 0,
        s.binds(commitment, nullifier) <==> s.bindings.contains_key(commitment)
            && s.bindings[commitment] == sha256_digest(commitment@ + nullifier@),
{
}

/// The state of a vault is what its fields hold.
pub proof fn law_vault_state_is_what_is_stored(vault: ZavaVault)
    ensures
        vault@.address == vault.address,
        vault@.config == vault.config,
        vault@.paused == vault.paused,
        vault@.leaf_count == vault.next_leaf_index,
        vault@.current_root == vault.current_root_index,
        vault@.roots == slots(vault.roots),
        vault@.filled == slots(vault.filled_subtrees),
        vault@.spent == vault.nullifier_spent@,
        vault@.deposits == vault.deposits@.dom(),
        vault@.bindings == vault.commitment_nullifier_hash@,
        vault@.total_locked == vault.total_locked,
{
}

/// Other contracts are told what the vault stores.
pub proof fn law_others_see_the_vault(vault: ZavaVault, commitment: Bytes32, nullifier: Bytes32)
    ensures
        vault.id() == vault.address,
        vault.holds(commitment) <==> vault.deposits@.contains_key(commitment),
        vault.spent(nullifier) <==> vault.nullifier_spent@.contains_key(nullifier)
            && vault.nullifier_spent@[nullifier],
        vault.pairs(commitment, nullifier) <==> vault.commitment_nullifier_hash@.contains_key(
            commitment,
        ) && vault.commitment_nullifier_hash@[commitment] == sha256_digest(
            commitment@ + nullifier@,
        ),
{
}

// ---------------------------------------------------------------------------
// What is accepted
// ---------------------------------------------------------------------------

/// Each error of a deposit with the inputs on which it comes. A deposit is accepted
/// exactly when the vault is set up and not paused, the amount is positive and there are
/// fewer than 1,048,576 leaves.
pub proof fn law_each_error_of_a_deposit(s: VaultState, amount: i128)
    ensures
        ({
            let f = s.deposit_fault(amount);
            let open = s.config is Some && !s.paused;
            &&& f == Some(VaultError::NotInitialized) <==> s.config is None
            &&& f == Some(VaultError::ContractPaused) <==> s.config is Some && s.paused
            &&& f == Some(VaultError::InvalidAmount) <==> open && amount <= 0
            &&& f == Some(VaultError::MerkleTreeFull) <==> open && amount > 0 && s.leaf_count
                >= 1_048_576
            &&& f is None <==> open && amount > 0 && s.leaf_count < 1_048_576
        }),
{
}

/// Each error of a withdrawal with the inputs on which it comes.
pub proof fn law_each_error_of_a_withdrawal(
    s: VaultState,
    inputs: WithdrawPublicInputs,
    recipient: Address,
    amount: i128,
    proof_ok: bool,
)
    ensures
        ({
            let f = s.withdraw_fault(inputs, recipient, amount, proof_ok);
            let open = s.config is Some && !s.paused;
            let fresh = !(s.spent.contains_key(inputs.nullifier) && s.spent[inputs.nullifier]);
            let known = exists|k: u32|
                k < 30 && #[trigger] s.roots.contains_key(k) && s.roots[k] == inputs.root;
            let bound = s.bindings.contains_key(inputs.commitment) && s.bindings[inputs.commitment]
                == sha256_digest(inputs.commitment@ + inputs.nullifier@);
            let same_amount = amount_of(inputs.amount_bytes) == amount;
            let same_recipient = inputs.recipient_hash == sha256_digest(address_xdr(recipient));
            &&& f == Some(VaultError::NotInitialized) <==> s.config is None
            &&& f == Some(VaultError::ContractPaused) <==> s.config is Some && s.paused
            &&& f == Some(VaultError::NullifierAlreadySpent) <==> open && !fresh
            &&& f == Some(VaultError::UnknownRoot) <==> open && fresh && !known
            &&& f == Some(VaultError::AmountMismatch) <==> open && fresh && known && bound
                && !same_amount
            &&& f == Some(VaultError::RecipientMismatch) <==> open && fresh && known && bound
                && same_amount && !same_recipient
            &&& f == Some(VaultError::InvalidProof) <==> open && fresh && known && (!bound
                || same_amount && same_recipient && !proof_ok)
            &&& f is None <==> open && fresh && known && bound && same_amount && same_recipient
                && proof_ok
        }),
{
}

/// Each error of a transfer with the inputs on which it comes. A transfer goes through
/// exactly when the vault is set up and not paused, the nullifier is fresh, one of the 30
/// slots holds the root, and the proof is valid.
pub proof fn law_each_error_of_a_transfer(
    s: VaultState,
    in_nullifier: Bytes32,
    root: Bytes32,
    proof_ok: bool,
)
    ensures
        ({
            let f = s.transfer_fault(in_nullifier, root, proof_ok);
            let open = s.config is Some && !s.paused;
            let fresh = !(s.spent.contains_key(in_nullifier) && s.spent[in_nullifier]);
            let known = exists|k: u32|
                k < 30 && #[trigger] s.roots.contains_key(k) && s.roots[k] == root;
            &&& f == Some(VaultError::NotInitialized) <==> s.config is None
            &&& f == Some(VaultError::ContractPaused) <==> s.config is Some && s.paused
            &&& f == Some(VaultError::NullifierAlreadySpent) <==> open && !fresh
            &&& f == Some(VaultError::UnknownRoot) <==> open && fresh && !known
            &&& f == Some(VaultError::InvalidProof) <==> open && fresh && known && !proof_ok
            &&& f is None <==> open && fresh && known && proof_ok
        }),
{
}

/// Each error of a partial withdrawal with the inputs on which it comes.
pub proof fn law_each_error_of_a_partial_withdrawal(
    s: VaultState,
    in_commitment: Bytes32,
    in_nullifier: Bytes32,
    in_root: Bytes32,
    recipient: Address,
    recipient_hash: Bytes32,
    amount: i128,
    proof_ok: bool,
)
    ensures
        ({
            let f = s.partial_fault(
                in_commitment,
                in_nullifier,
                in_root,
                recipient,
                recipient_hash,
                amount,
                proof_ok,
            );
            let open = s.config is Some && !s.paused;
            let fresh = !(s.spent.contains_key(in_nullifier) && s.spent[in_nullifier]);
            let known = exists|k: u32|
                k < 30 && #[trigger] s.roots.contains_key(k) && s.roots[k] == in_root;
            let bound = s.bindings.contains_key(in_commitment) && s.bindings[in_commitment]
                == sha256_digest(in_commitment@ + in_nullifier@);
            let same_recipient = recipient_hash == sha256_digest(address_xdr(recipient));
            &&& f == Some(VaultError::NotInitialized) <==> s.config is None
            &&& f == Some(VaultError::ContractPaused) <==> s.config is Some && s.paused
            &&& f == Some(VaultError::InvalidAmount) <==> open && amount <= 0
            &&& f == Some(VaultError::NullifierAlreadySpent) <==> open && amount > 0 && !fresh
            &&& f == Some(VaultError::UnknownRoot) <==> open && amount > 0 && fresh && !known
            &&& f == Some(VaultError::RecipientMismatch) <==> open && amount > 0 && fresh && known
                && bound && !same_recipient
            &&& f == Some(VaultError::InvalidProof) <==> open && amount > 0 && fresh && known && (
            !bound || same_recipient && !proof_ok)
            &&& f is None <==> open && amount > 0 && fresh && known && bound && same_recipient
                && proof_ok
        }),
{
}

/// Notes are dealt with by a vault that is set up and not paused; pausing and resuming is
/// for the admin of a vault that is set up, whether it is paused or not.
pub proof fn law_gate_and_admin(s: VaultState, caller: Address)
    ensures
        s.gate() == Some(VaultError::NotInitialized) <==> s.config is None,
        s.gate() == Some(VaultError::ContractPaused) <==> s.config is Some && s.paused,
        s.gate() is None <==> s.config is Some && !s.paused,
        s.admin_fault(caller) == Some(VaultError::NotInitialized) <==> s.config is None,
        s.admin_fault(caller) == Some(VaultError::NotAdmin) <==> s.config is Some && caller
            != s.config->0.admin,
        s.admin_fault(caller) is None <==> s.config is Some && caller == s.config->0.admin,
{
}

/// The three calls that spend accept the same roots: those of the tree as it was after one
/// of the last 30 insertions. Where nothing else stands against it, each of them goes
/// through exactly for those.
pub proof fn law_spending_accepts_the_roots_of_the_last_insertions(
    s: VaultState,
    leaves: Seq<Bytes32>,
    inputs: WithdrawPublicInputs,
    recipient: Address,
    amount: i128,
    proof_ok: bool,
)
    requires
        tree_over(s, leaves),
    ensures
        ({
            let open = s.config is Some && !s.paused;
            let fresh = !(s.spent.contains_key(inputs.nullifier) && s.spent[inputs.nullifier]);
            let recent_root = exists|n: int|
                #![trigger leaves.take(n)]
                0 < n <= leaves.len() && leaves.len() - n < 30 && inputs.root == tree_root(
                    leaves.take(n),
                );
            let bound = s.bindings.contains_key(inputs.commitment) && s.bindings[inputs.commitment]
                == sha256_digest(inputs.commitment@ + inputs.nullifier@);
            let same_recipient = inputs.recipient_hash == sha256_digest(address_xdr(recipient));
            &&& s.transfer_fault(inputs.nullifier, inputs.root, proof_ok) is None <==> open && fresh
                && recent_root && proof_ok
            &&& s.withdraw_fault(inputs, recipient, amount, proof_ok) is None <==> open && fresh
                && recent_root && bound && amount_of(inputs.amount_bytes) == amount
                && same_recipient && proof_ok
            &&& s.partial_fault(
                inputs.commitment,
                inputs.nullifier,
                inputs.root,
                recipient,
                inputs.recipient_hash,
                amount,
                proof_ok,
            ) is None <==> open && amount > 0 && fresh && recent_root && bound && same_recipient
                && proof_ok
        }),
{
    law_roots_of_the_last_insertions_are_known(s, leaves, inputs.root);
}

/// From its set-up on, whatever was called, a vault lets a transfer through exactly when it
/// is set up and not paused, the nullifier is not spent, the root is that of the tree after
/// one of the last 30 insertions, and the proof is valid.
pub proof fn law_transfers_go_through_for_recent_roots(
    s: VaultState,
    calls: Seq<VaultCall>,
    in_nullifier: Bytes32,
    root: Bytes32,
    proof_ok: bool,
)
    requires
        s.config is None,
        inserted(s, calls).len() <= 1_048_576,
    ensures
        ({
            let now = run(s, calls);
            let leaves = inserted(s, calls);
            now.transfer_fault(in_nullifier, root, proof_ok) is None <==> {
                &&& now.config is Some
                &&& !now.paused
                &&& !(now.spent.contains_key(in_nullifier) && now.spent[in_nullifier])
                &&& exists|n: int|
                    #![trigger leaves.take(n)]
                    0 < n <= leaves.len() && leaves.len() - n < 30 && root == tree_root(
                        leaves.take(n),
                    )
                &&& proof_ok
            }
        }),
{
    law_tree_is_over_all_insertions(s, calls);
    let now = run(s, calls);
    if now.config is Some {
        law_roots_of_the_last_insertions_are_known(now, inserted(s, calls), root);
    }
}

// ---------------------------------------------------------------------------
// What the verifier is shown
// ---------------------------------------------------------------------------

/// A withdrawal shows four words: the root, the nullifier, the recipient's hash and the
/// amount.
pub proof fn law_words_of_a_withdrawal(inputs: WithdrawPublicInputs)
    ensures
        inputs.words().len() == 4,
        inputs.words()[0] == inputs.root,
        inputs.words()[1] == inputs.nullifier,
        inputs.words()[2] == inputs.recipient_hash,
        inputs.words()[3] == inputs.amount_bytes,
{
}

/// A transfer shows four words: the root, the nullifier and two zero words.
pub proof fn law_words_of_a_transfer(root: Bytes32, in_nullifier: Bytes32, j: int)
    ensures
        ({
            let words = transfer_words(root, in_nullifier);
            &&& words.len() == 4
            &&& words[0] == root
            &&& words[1] == in_nullifier
            &&& 0 <= j < 32 ==> words[2]@[j] == 0 && words[3]@[j] == 0
        }),
{
}

/// A partial withdrawal shows six words: the commitment, the root, the nullifier, the
/// recipient's hash, the amount and the commitment of the change.
pub proof fn law_words_of_a_partial_withdrawal(
    in_commitment: Bytes32,
    in_root: Bytes32,
    in_nullifier: Bytes32,
    recipient_hash: Bytes32,
    amount: i128,
    change_commitment: Bytes32,
)
    ensures
        ({
            let words = partial_words(
                in_commitment,
                in_root,
                in_nullifier,
                recipient_hash,
                amount,
                change_commitment,
            );
            &&& words.len() == 6
            &&& words[0] == in_commitment
            &&& words[1] == in_root
            &&& words[2] == in_nullifier
            &&& words[3] == recipient_hash
            &&& amount >= 0 ==> be_value(words[4]@) == amount
            &&& amount_of(words[4]) == amount
            &&& words[5] == change_commitment
        }),
{
    law_amounts_are_written_in_twos_complement(amount);
}

// ---------------------------------------------------------------------------
// What is changed
// ---------------------------------------------------------------------------

/// What a deposit changes: one leaf more, whose root goes to the next of the 30 slots; the
/// commitment is deposited and bound to its nullifier; the total grows by the amount. No
/// nullifier is touched.
pub proof fn law_what_a_deposit_changes(
    s: VaultState,
    commitment: Bytes32,
    nullifier: Bytes32,
    amount: i128,
)
    requires
        s.current_root < 30,
    ensures
        ({
            let t = s.deposited(commitment, nullifier, amount);
            let slot = if s.current_root == 29 {
                0u32
            } else {
                (s.current_root + 1) as u32
            };
            &&& t.address == s.address && t.config == s.config && t.paused == s.paused
            &&& t.spent == s.spent
            &&& t.deposits == s.deposits.insert(commitment)
            &&& t.bindings == s.bindings.insert(
                commitment,
                sha256_digest(commitment@ + nullifier@),
            )
            &&& t.total_locked == s.total_locked + amount
            &&& t.leaf_count == s.leaf_count + 1
            &&& t.current_root == slot
            &&& t.roots == s.roots.insert(
                slot,
                path_node(s.filled, commitment, s.leaf_count, 20),
            )
            &&& t.filled == remembered_after(s.filled, commitment, s.leaf_count, 20)
        }),
{
}

/// What a withdrawal changes: its nullifier is spent and the total falls by the amount.
pub proof fn law_what_a_withdrawal_changes(
    s: VaultState,
    inputs: WithdrawPublicInputs,
    amount: i128,
)
    ensures
        ({
            let t = s.withdrawn(inputs, amount);
            &&& t.address == s.address && t.config == s.config && t.paused == s.paused
            &&& t.spent == s.spent.insert(inputs.nullifier, true)
            &&& t.total_locked == s.total_locked - amount
            &&& t.leaf_count == s.leaf_count && t.current_root == s.current_root
            &&& t.roots == s.roots && t.filled == s.filled
            &&& t.deposits == s.deposits && t.bindings == s.bindings
        }),
{
}

/// What a transfer changes: its nullifier is spent, and one leaf more, whose root goes to
/// the next of the 30 slots. The total stays, and nothing is deposited or bound.
pub proof fn law_what_a_transfer_changes(
    s: VaultState,
    in_nullifier: Bytes32,
    out_commitment: Bytes32,
)
    requires
        s.current_root < 30,
    ensures
        ({
            let t = s.transferred(in_nullifier, out_commitment);
            let slot = if s.current_root == 29 {
                0u32
            } else {
                (s.current_root + 1) as u32
            };
            &&& t.address == s.address && t.config == s.config && t.paused == s.paused
            &&& t.spent == s.spent.insert(in_nullifier, true)
            &&& t.deposits == s.deposits && t.bindings == s.bindings
            &&& t.total_locked == s.total_locked
            &&& t.leaf_count == s.leaf_count + 1
            &&& t.current_root == slot
            &&& t.roots == s.roots.insert(
                slot,
                path_node(s.filled, out_commitment, s.leaf_count, 20),
            )
            &&& t.filled == remembered_after(s.filled, out_commitment, s.leaf_count, 20)
        }),
{
}

/// What a partial withdrawal changes: its nullifier is spent, the total falls by the
/// amount, and one leaf more, the change, whose root goes to the next of the 30 slots.
/// Nothing is deposited or bound.
pub proof fn law_what_a_partial_withdrawal_changes(
    s: VaultState,
    in_nullifier: Bytes32,
    amount: i128,
    change_commitment: Bytes32,
)
    requires
        s.current_root < 30,
    ensures
        ({
            let t = s.partly_withdrawn(in_nullifier, amount, change_commitment);
            let slot = if s.current_root == 29 {
                0u32
            } else {
                (s.current_root + 1) as u32
            };
            &&& t.address == s.address && t.config == s.config && t.paused == s.paused
            &&& t.spent == s.spent.insert(in_nullifier, true)
            &&& t.deposits == s.deposits && t.bindings == s.bindings
            &&& t.total_locked == s.total_locked - amount
            &&& t.leaf_count == s.leaf_count + 1
            &&& t.current_root == slot
            &&& t.roots == s.roots.insert(
                slot,
                path_node(s.filled, change_commitment, s.leaf_count, 20),
            )
            &&& t.filled == remembered_after(s.filled, change_commitment, s.leaf_count, 20)
        }),
{
}

/// What binding a change nullifier changes: a commitment without a binding gets the
/// SHA-256 of it followed by the nullifier; one with a binding keeps it; nothing else
/// happens, and nothing is deposited.
pub proof fn law_what_binding_a_nullifier_changes(
    s: VaultState,
    commitment: Bytes32,
    nullifier: Bytes32,
)
    ensures
        ({
            let t = s.change_bound(commitment, nullifier);
            &&& t.address == s.address && t.config == s.config && t.paused == s.paused
            &&& t.spent == s.spent && t.deposits == s.deposits
            &&& t.total_locked == s.total_locked && t.leaf_count == s.leaf_count
            &&& t.current_root == s.current_root
            &&& t.roots == s.roots && t.filled == s.filled
            &&& s.bindings.contains_key(commitment) ==> t.bindings == s.bindings
            &&& !s.bindings.contains_key(commitment) ==> t.bindings == s.bindings.insert(
                commitment,
                sha256_digest(commitment@ + nullifier@),
            )
        }),
{
}

/// The number that each error is reported by.
pub proof fn law_vault_error_numbers(e: VaultError)
    ensures
        1 <= e.number() <= 11,
        e == VaultError::AlreadyInitialized <==> e.number() == 1,
        e == VaultError::NotInitialized <==> e.number() == 2,
        e == VaultError::InvalidAmount <==> e.number() == 3,
        e == VaultError::MerkleTreeFull <==> e.number() == 4,
        e == VaultError::NullifierAlreadySpent <==> e.number() == 5,
        e == VaultError::UnknownRoot <==> e.number() == 6,
        e == VaultError::InvalidProof <==> e.number() == 7,
        e == VaultError::AmountMismatch <==> e.number() == 8,
        e == VaultError::RecipientMismatch <==> e.number() == 9,
        e == VaultError::ContractPaused <==> e.number() == 10,
        e == VaultError::NotAdmin <==> e.number() == 11,
{
}

} // verus!
