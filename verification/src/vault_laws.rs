//! What holds of a vault over any sequence of calls.
use crate::address::Address;
use crate::bytes::{amount_of, Bytes32};
use crate::merkle::{
    law_empty_ring, law_empty_tree_remembers, law_insert_builds_tree,
    law_known_roots_are_the_recent_ones, law_ring_advances, recent, remembers, ring_holds,
    ring_slot, tree_root, CAPACITY, ROOT_HISTORY_SIZE,
};
use crate::zava_vault::{
    address_hash, binding_of, VaultConfig, VaultError, VaultState, WithdrawPublicInputs,
};
use vstd::prelude::*;

verus! {

/// A call of a vault. `proof_ok` is the verdict of the verifier on what the call
/// shows it.
pub enum VaultCall {
    Initialize { config: VaultConfig },
    Deposit { commitment: Bytes32, nullifier: Bytes32, amount: i128 },
    Withdraw { inputs: WithdrawPublicInputs, recipient: Address, amount: i128, proof_ok: bool },
    Transfer { in_nullifier: Bytes32, out_commitment: Bytes32, root: Bytes32, proof_ok: bool },
    Partial {
        in_commitment: Bytes32,
        in_nullifier: Bytes32,
        in_root: Bytes32,
        recipient: Address,
        recipient_hash: Bytes32,
        amount: i128,
        change_commitment: Bytes32,
        proof_ok: bool,
    },
    BindChange { commitment: Bytes32, nullifier: Bytes32 },
    Pause { caller: Address },
    Unpause { caller: Address },
}

impl VaultCall {
    /// The call deals with notes: it is none of those that run the vault.
    pub open spec fn on_notes(self) -> bool {
        match self {
            VaultCall::Initialize { .. } => false,
            VaultCall::Pause { .. } => false,
            VaultCall::Unpause { .. } => false,
            _ => true,
        }
    }

    /// The nullifier that the call spends, if it spends one.
    pub open spec fn spends(self) -> Option<Bytes32> {
        match self {
            VaultCall::Withdraw { inputs, .. } => Some(inputs.nullifier),
            VaultCall::Transfer { in_nullifier, .. } => Some(in_nullifier),
            VaultCall::Partial { in_nullifier, .. } => Some(in_nullifier),
            _ => None,
        }
    }

    /// The commitment that the call puts into the tree, if it puts one.
    pub open spec fn inserts(self) -> Option<Bytes32> {
        match self {
            VaultCall::Deposit { commitment, .. } => Some(commitment),
            VaultCall::Transfer { out_commitment, .. } => Some(out_commitment),
            VaultCall::Partial { change_commitment, .. } => Some(change_commitment),
            _ => None,
        }
    }

    /// The commitment whose deposit and binding the call looks at or writes, if it does.
    pub open spec fn names(self) -> Option<Bytes32> {
        match self {
            VaultCall::Deposit { commitment, .. } => Some(commitment),
            VaultCall::Withdraw { inputs, .. } => Some(inputs.commitment),
            VaultCall::Partial { in_commitment, .. } => Some(in_commitment),
            VaultCall::BindChange { commitment, .. } => Some(commitment),
            _ => None,
        }
    }

    /// The tokens that the call moves into the vault, less those that it moves out.
    pub open spec fn inflow(self) -> int {
        match self {
            VaultCall::Deposit { amount, .. } => amount as int,
            VaultCall::Withdraw { amount, .. } => -amount,
            VaultCall::Partial { amount, .. } => -amount,
            _ => 0,
        }
    }
}

/// Why `call` is turned down in state `s`, if it is.
pub open spec fn fault(s: VaultState, call: VaultCall) -> Option<VaultError> {
    match call {
        VaultCall::Initialize { .. } => if s.config is Some {
            Some(VaultError::AlreadyInitialized)
        } else {
            None
        },
        VaultCall::Deposit { amount, .. } => s.deposit_fault(amount),
        VaultCall::Withdraw { inputs, recipient, amount, proof_ok } => s.withdraw_fault(
            inputs,
            recipient,
            amount,
            proof_ok,
        ),
        VaultCall::Transfer { in_nullifier, root, proof_ok, .. } => s.transfer_fault(
            in_nullifier,
            root,
            proof_ok,
        ),
        VaultCall::Partial {
            in_commitment,
            in_nullifier,
            in_root,
            recipient,
            recipient_hash,
            amount,
            proof_ok,
            ..
        } => s.partial_fault(
            in_commitment,
            in_nullifier,
            in_root,
            recipient,
            recipient_hash,
            amount,
            proof_ok,
        ),
        VaultCall::BindChange { .. } => s.gate(),
        VaultCall::Pause { caller } => s.admin_fault(caller),
        VaultCall::Unpause { caller } => s.admin_fault(caller),
    }
}

/// The state that a successful `call` leads to.
pub open spec fn effect(s: VaultState, call: VaultCall) -> VaultState {
    match call {
        VaultCall::Initialize { config } => VaultState {
            config: Some(config),
            leaf_count: 0,
            current_root: 0,
            roots: Map::empty(),
            filled: Map::empty(),
            total_locked: 0,
            ..s
        },
        VaultCall::Deposit { commitment, nullifier, amount } => s.deposited(
            commitment,
            nullifier,
            amount,
        ),
        VaultCall::Withdraw { inputs, amount, .. } => s.withdrawn(inputs, amount),
        VaultCall::Transfer { in_nullifier, out_commitment, .. } => s.transferred(
            in_nullifier,
            out_commitment,
        ),
        VaultCall::Partial { in_nullifier, amount, change_commitment, .. } => s.partly_withdrawn(
            in_nullifier,
            amount,
            change_commitment,
        ),
        VaultCall::BindChange { commitment, nullifier } => s.change_bound(commitment, nullifier),
        VaultCall::Pause { .. } => VaultState { paused: true, ..s },
        VaultCall::Unpause { .. } => VaultState { paused: false, ..s },
    }
}

/// The state after `call`; a call that is turned down changes nothing.
pub open spec fn step(s: VaultState, call: VaultCall) -> VaultState {
    if fault(s, call) is None {
        effect(s, call)
    } else {
        s
    }
}

/// The state after `calls`.
pub open spec fn run(s: VaultState, calls: Seq<VaultCall>) -> VaultState
    decreases calls.len(),
{
    if calls.len() == 0 {
        s
    } else {
        step(run(s, calls.drop_last()), calls.last())
    }
}

// ---------------------------------------------------------------------------
// Spending
// ---------------------------------------------------------------------------

proof fn lemma_step_keeps_spent(s: VaultState, call: VaultCall, nullifier: Bytes32)
    requires
        s.is_spent(nullifier),
    ensures
        step(s, call).is_spent(nullifier),
{
}

/// A nullifier that is spent stays spent, whatever is called.
pub proof fn law_spent_stays_spent(s: VaultState, calls: Seq<VaultCall>, nullifier: Bytes32)
    requires
        s.is_spent(nullifier),
    ensures
        run(s, calls).is_spent(nullifier),
    decreases calls.len(),
{
    if calls.len() > 0 {
        law_spent_stays_spent(s, calls.drop_last(), nullifier);
        lemma_step_keeps_spent(run(s, calls.drop_last()), calls.last(), nullifier);
    }
}

/// No note is spent twice: once a call has spent a nullifier, every call that
/// spends it again is turned down, no matter what is called in between and what
/// the verifier says. Where nothing else stands against the second call, it is
/// turned down because the nullifier is spent.
pub proof fn law_no_double_spend(
    s: VaultState,
    first: VaultCall,
    between: Seq<VaultCall>,
    second: VaultCall,
)
    requires
        fault(s, first) is None,
        first.spends() is Some,
        second.spends() == first.spends(),
    ensures
        ({
            let later = run(step(s, first), between);
            &&& fault(later, second) is Some
            &&& step(later, second) == later
            &&& later.gate() is None && (second matches VaultCall::Partial { amount, .. } ==> amount
                > 0) ==> fault(later, second) == Some(VaultError::NullifierAlreadySpent)
        }),
{
    let nullifier = first.spends()->0;
    law_spent_stays_spent(step(s, first), between, nullifier);
}

/// A call that spends succeeds only with a nullifier that is fresh, and leaves it
/// spent; no other nullifier is touched.
pub proof fn law_spending_marks_its_nullifier_alone(
    s: VaultState,
    call: VaultCall,
    other: Bytes32,
)
    ensures
        fault(s, call) is None && call.spends() is Some ==> !s.is_spent(call.spends()->0) && step(
            s,
            call,
        ).is_spent(call.spends()->0),
        call.spends() != Some(other) ==> step(s, call).is_spent(other) == s.is_spent(other),
{
}

/// A withdrawal goes through exactly when the vault is set up and not paused and
/// all six checks pass: the nullifier is fresh, the root is recent, the binding
/// of the commitment is the one made with this nullifier, the amount and the
/// recipient are those of the proof, and the proof is valid.
pub proof fn law_withdrawal_passes_all_checks(
    s: VaultState,
    inputs: WithdrawPublicInputs,
    recipient: Address,
    amount: i128,
    proof_ok: bool,
)
    ensures
        s.withdraw_fault(inputs, recipient, amount, proof_ok) is None <==> {
            &&& s.config is Some
            &&& !s.paused
            &&& !s.is_spent(inputs.nullifier)
            &&& s.knows_root(inputs.root)
            &&& s.bindings.contains_key(inputs.commitment)
            &&& s.bindings[inputs.commitment] == binding_of(inputs.commitment, inputs.nullifier)
            &&& amount_of(inputs.amount_bytes) == amount
            &&& inputs.recipient_hash == address_hash(recipient)
            &&& proof_ok
        },
{
}

/// A partial withdrawal passes the same checks, with a positive amount.
pub proof fn law_partial_withdrawal_passes_all_checks(
    s: VaultState,
    in_commitment: Bytes32,
    in_nullifier: Bytes32,
    in_root: Bytes32,
    recipient: Address,
    recipient_hash: Bytes32,
    amount: i128,
    proof_ok: bool,
)
    ensures
        s.partial_fault(
            in_commitment,
            in_nullifier,
            in_root,
            recipient,
            recipient_hash,
            amount,
            proof_ok,
        ) is None <==> {
            &&& s.config is Some
            &&& !s.paused
            &&& amount > 0
            &&& !s.is_spent(in_nullifier)
            &&& s.knows_root(in_root)
            &&& s.bindings.contains_key(in_commitment)
            &&& s.bindings[in_commitment] == binding_of(in_commitment, in_nullifier)
            &&& recipient_hash == address_hash(recipient)
            &&& proof_ok
        },
{
}

/// A withdrawal cannot be redirected: with the public inputs of one recipient it
/// is refused for every address that hashes differently.
pub proof fn law_payout_cannot_be_redirected(
    s: VaultState,
    inputs: WithdrawPublicInputs,
    recipient: Address,
    other: Address,
    amount: i128,
    proof_ok: bool,
    other_ok: bool,
)
    requires
        s.withdraw_fault(inputs, recipient, amount, proof_ok) is None,
        address_hash(other) != address_hash(recipient),
    ensures
        s.withdraw_fault(inputs, other, amount, other_ok) == Some(VaultError::RecipientMismatch),
{
}

/// Whoever does not know the nullifier of a commitment cannot spend it: with a
/// nullifier that binds differently the withdrawal is refused even where the
/// verifier accepts.
pub proof fn law_wrong_nullifier_is_refused(
    s: VaultState,
    commitment: Bytes32,
    nullifier: Bytes32,
    inputs: WithdrawPublicInputs,
    recipient: Address,
    amount: i128,
    proof_ok: bool,
)
    requires
        s.binds(commitment, nullifier),
        inputs.commitment == commitment,
        binding_of(commitment, inputs.nullifier) != binding_of(commitment, nullifier),
    ensures
        s.withdraw_fault(inputs, recipient, amount, proof_ok) is Some,
        s.gate() is None && !s.is_spent(inputs.nullifier) && s.knows_root(inputs.root)
            ==> s.withdraw_fault(inputs, recipient, amount, proof_ok) == Some(
            VaultError::InvalidProof,
        ),
{
}

// ---------------------------------------------------------------------------
// Depositing
// ---------------------------------------------------------------------------

/// After a deposit the commitment exists, matches its nullifier, and the new root
/// is the latest one and known.
pub proof fn law_deposit_is_recorded(
    s: VaultState,
    commitment: Bytes32,
    nullifier: Bytes32,
    amount: i128,
)
    ensures
        ({
            let after = s.deposited(commitment, nullifier, amount);
            &&& after.deposits.contains(commitment)
            &&& after.binds(commitment, nullifier)
            &&& after.leaf_count == s.leaf_count + 1
            &&& after.root() == s.root_with(commitment)
            &&& after.knows_root(after.root())
            &&& after.total_locked == s.total_locked + amount
        }),
{
    let after = s.deposited(commitment, nullifier, amount);
    assert(after.roots.contains_key(after.current_root));
}

/// What was deposited can be withdrawn: right after a deposit with a fresh
/// nullifier, the withdrawal of the same amount against the latest root passes
/// every check but the proof's, and leaves the locked total as it was before.
pub proof fn law_deposit_then_withdraw(
    s: VaultState,
    commitment: Bytes32,
    nullifier: Bytes32,
    amount: i128,
    amount_bytes: Bytes32,
    recipient: Address,
    proof_ok: bool,
)
    requires
        s.deposit_fault(amount) is None,
        !s.is_spent(nullifier),
        amount_of(amount_bytes) == amount,
    ensures
        ({
            let after = s.deposited(commitment, nullifier, amount);
            let inputs = WithdrawPublicInputs {
                commitment,
                root: after.root(),
                nullifier,
                recipient_hash: address_hash(recipient),
                amount_bytes,
            };
            let end = after.withdrawn(inputs, amount);
            &&& after.withdraw_fault(inputs, recipient, amount, proof_ok) == (if proof_ok {
                None
            } else {
                Some(VaultError::InvalidProof)
            })
            &&& end.total_locked == s.total_locked
            &&& end.is_spent(nullifier)
        }),
{
    law_deposit_is_recorded(s, commitment, nullifier, amount);
}

/// Call number `i` is a deposit of `commitment` that goes through.
pub open spec fn deposits_at(
    s: VaultState,
    calls: Seq<VaultCall>,
    i: int,
    commitment: Bytes32,
) -> bool {
    &&& 0 <= i < calls.len()
    &&& calls[i] matches VaultCall::Deposit { commitment: c, .. } && c == commitment
    &&& fault(run(s, calls.take(i)), calls[i]) is None
}

/// The vault counts as deposited exactly what was deposited: a commitment is there
/// after `calls` if and only if it was there before or one of the calls is a deposit
/// of it that went through. Binding a nullifier, transferring or leaving change
/// makes no deposit.
pub proof fn law_deposited_means_deposited(
    s: VaultState,
    calls: Seq<VaultCall>,
    commitment: Bytes32,
)
    ensures
        run(s, calls).deposits.contains(commitment) <==> s.deposits.contains(commitment) || exists|
            i: int,
        |
            #[trigger] deposits_at(s, calls, i, commitment),
    decreases calls.len(),
{
    if calls.len() > 0 {
        let earlier = calls.drop_last();
        let last = calls.len() - 1;
        law_deposited_means_deposited(s, earlier, commitment);
        assert(calls.take(last) =~= earlier);
        assert forall|i: int| 0 <= i < last implies deposits_at(s, earlier, i, commitment)
            == #[trigger] deposits_at(s, calls, i, commitment) by {
            assert(earlier.take(i) =~= calls.take(i));
        }
        if exists|i: int| #[trigger] deposits_at(s, earlier, i, commitment) {
            let i = choose|i: int| #[trigger] deposits_at(s, earlier, i, commitment);
            assert(deposits_at(s, calls, i, commitment));
        }
        if exists|i: int| #[trigger] deposits_at(s, calls, i, commitment) {
            let i = choose|i: int| #[trigger] deposits_at(s, calls, i, commitment);
            if i < last {
                assert(deposits_at(s, earlier, i, commitment));
            }
        }
        if run(s, calls).deposits.contains(commitment) && !run(s, earlier).deposits.contains(
            commitment,
        ) {
            assert(deposits_at(s, calls, last, commitment));
        }
    }
}

/// Call number `i` is a deposit of `commitment` with `nullifier` that goes through.
pub open spec fn deposits_pair_at(
    s: VaultState,
    calls: Seq<VaultCall>,
    i: int,
    commitment: Bytes32,
    nullifier: Bytes32,
) -> bool {
    &&& deposits_at(s, calls, i, commitment)
    &&& calls[i] matches VaultCall::Deposit { nullifier: n, .. } && n == nullifier
}

/// From a vault without deposits on, a deposited commitment is bound as one of its
/// deposits bound it: no other call replaces that binding.
pub proof fn law_deposits_are_bound_by_their_deposit(
    s: VaultState,
    calls: Seq<VaultCall>,
    commitment: Bytes32,
)
    requires
        s.deposits == Set::<Bytes32>::empty(),
        run(s, calls).deposits.contains(commitment),
    ensures
        exists|i: int, nullifier: Bytes32| #[trigger]
            deposits_pair_at(s, calls, i, commitment, nullifier) && run(s, calls).binds(
                commitment,
                nullifier,
            ),
    decreases calls.len(),
{
    if calls.len() > 0 {
        let earlier = calls.drop_last();
        let last = calls.len() - 1;
        let t = run(s, earlier);
        assert(calls.take(last) =~= earlier);
        let deposits_now = fault(t, calls[last]) is None && (calls[last] matches
            VaultCall::Deposit { commitment: c, .. } && c == commitment);
        if deposits_now {
            let nullifier = calls[last]->Deposit_nullifier;
            assert(deposits_at(s, calls, last, commitment));
            assert(deposits_pair_at(s, calls, last, commitment, nullifier));
        } else {
            assert(t.deposits.contains(commitment));
            law_deposits_are_bound_by_their_deposit(s, earlier, commitment);
            let (i, nullifier) = choose|i: int, nullifier: Bytes32| #[trigger]
                deposits_pair_at(s, earlier, i, commitment, nullifier) && t.binds(
                    commitment,
                    nullifier,
                );
            assert(earlier.take(i) =~= calls.take(i));
            assert(deposits_at(s, calls, i, commitment));
            assert(deposits_pair_at(s, calls, i, commitment, nullifier));
            law_bindings_are_kept(t, calls[last], commitment);
        }
    }
}

/// None of `calls` spends `nullifier` or deposits `commitment` again.
pub open spec fn leave_alone(
    calls: Seq<VaultCall>,
    commitment: Bytes32,
    nullifier: Bytes32,
) -> bool {
    forall|i: int|
        0 <= i < calls.len() ==> {
            &&& (#[trigger] calls[i]).spends() != Some(nullifier)
            &&& calls[i] matches VaultCall::Deposit { commitment: c, .. } ==> c != commitment
        }
}

proof fn lemma_deposit_survives(
    s: VaultState,
    calls: Seq<VaultCall>,
    commitment: Bytes32,
    nullifier: Bytes32,
)
    requires
        s.config is Some,
        s.binds(commitment, nullifier),
        !s.is_spent(nullifier),
        s.current_root < ROOT_HISTORY_SIZE,
        s.roots.contains_key(s.current_root),
        leave_alone(calls, commitment, nullifier),
    ensures
        ({
            let later = run(s, calls);
            &&& later.config is Some
            &&& later.binds(commitment, nullifier)
            &&& !later.is_spent(nullifier)
            &&& later.current_root < ROOT_HISTORY_SIZE
            &&& later.roots.contains_key(later.current_root)
        }),
    decreases calls.len(),
{
    if calls.len() > 0 {
        let earlier = calls.drop_last();
        assert(leave_alone(earlier, commitment, nullifier)) by {
            assert forall|i: int| 0 <= i < earlier.len() implies earlier[i] == calls[i] by {}
        }
        lemma_deposit_survives(s, earlier, commitment, nullifier);
        let t = run(s, earlier);
        let call = calls[calls.len() - 1];
        law_bindings_are_kept(t, call, commitment);
        law_spending_marks_its_nullifier_alone(t, call, nullifier);
    }
}

/// A deposit stays withdrawable: whatever is called after it, as long as nothing
/// spends its nullifier or deposits its commitment again and the vault is not
/// paused, the withdrawal against the latest root passes every check but the
/// proof's.
pub proof fn law_deposit_stays_withdrawable(
    s: VaultState,
    commitment: Bytes32,
    nullifier: Bytes32,
    amount: i128,
    between: Seq<VaultCall>,
    amount_bytes: Bytes32,
    recipient: Address,
    proof_ok: bool,
)
    requires
        s.deposit_fault(amount) is None,
        !s.is_spent(nullifier),
        leave_alone(between, commitment, nullifier),
        amount_of(amount_bytes) == amount,
        !run(s.deposited(commitment, nullifier, amount), between).paused,
    ensures
        ({
            let later = run(s.deposited(commitment, nullifier, amount), between);
            let inputs = WithdrawPublicInputs {
                commitment,
                root: later.root(),
                nullifier,
                recipient_hash: address_hash(recipient),
                amount_bytes,
            };
            later.withdraw_fault(inputs, recipient, amount, proof_ok) == (if proof_ok {
                None
            } else {
                Some(VaultError::InvalidProof)
            })
        }),
{
    let after = s.deposited(commitment, nullifier, amount);
    law_deposit_is_recorded(s, commitment, nullifier, amount);
    lemma_deposit_survives(after, between, commitment, nullifier);
    let later = run(after, between);
    assert(later.roots.contains_key(later.current_root));
}

/// A binding, once made, is never removed, and only another deposit of the same
/// commitment replaces it: binding a change nullifier does not.
pub proof fn law_bindings_are_kept(s: VaultState, call: VaultCall, commitment: Bytes32)
    requires
        s.bindings.contains_key(commitment),
    ensures
        step(s, call).bindings.contains_key(commitment),
        step(s, call).bindings[commitment] != s.bindings[commitment] ==> (call matches
            VaultCall::Deposit { commitment: c, .. } && c == commitment),
{
}

/// A binding outlasts any calls that do not deposit its commitment again.
pub proof fn law_bindings_outlast_other_calls(
    s: VaultState,
    calls: Seq<VaultCall>,
    commitment: Bytes32,
)
    requires
        s.bindings.contains_key(commitment),
    ensures
        run(s, calls).bindings.contains_key(commitment),
        (forall|i: int|
            0 <= i < calls.len() ==> (#[trigger] calls[i] matches VaultCall::Deposit {
                commitment: c,
                ..
            } ==> c != commitment)) ==> run(s, calls).bindings[commitment]
            == s.bindings[commitment],
    decreases calls.len(),
{
    if calls.len() > 0 {
        let earlier = calls.drop_last();
        let last = calls.len() - 1;
        law_bindings_outlast_other_calls(s, earlier, commitment);
        law_bindings_are_kept(run(s, earlier), calls[last], commitment);
        assert forall|i: int| 0 <= i < earlier.len() implies earlier[i] == calls[i] by {}
    }
}

/// A note that a transfer or a partial withdrawal puts into the tree is bound to no
/// nullifier, unless its commitment was bound before.
pub proof fn law_new_notes_are_not_bound(s: VaultState, call: VaultCall, nullifier: Bytes32)
    requires
        call is Transfer || call is Partial,
    ensures
        step(s, call).bindings == s.bindings,
        step(s, call).deposits == s.deposits,
        !s.bindings.contains_key(call.inserts()->0) ==> !step(s, call).binds(
            call.inserts()->0,
            nullifier,
        ),
{
}

/// Binding a change nullifier twice does what binding it once does, whatever the
/// second nullifier is.
pub proof fn law_binding_change_is_idempotent(
    s: VaultState,
    commitment: Bytes32,
    first: Bytes32,
    second: Bytes32,
)
    ensures
        s.change_bound(commitment, first).change_bound(commitment, second) == s.change_bound(
            commitment,
            first,
        ),
        s.change_bound(commitment, first).bindings.contains_key(commitment),
{
}

// ---------------------------------------------------------------------------
// Accounting
// ---------------------------------------------------------------------------

/// The tokens that `calls` move into the vault, less those that they move out;
/// calls that are turned down move nothing.
pub open spec fn net_inflow(s: VaultState, calls: Seq<VaultCall>) -> int
    decreases calls.len(),
{
    if calls.len() == 0 {
        0
    } else {
        let earlier = calls.drop_last();
        net_inflow(s, earlier) + (if fault(run(s, earlier), calls.last()) is None {
            calls.last().inflow()
        } else {
            0
        })
    }
}

/// What the vault was set up with never changes.
pub proof fn law_config_is_fixed(s: VaultState, calls: Seq<VaultCall>)
    requires
        s.config is Some,
    ensures
        run(s, calls).config == s.config,
        forall|config: VaultConfig|
            #[trigger] fault(run(s, calls), VaultCall::Initialize { config }) == Some(
                VaultError::AlreadyInitialized,
            ),
    decreases calls.len(),
{
    if calls.len() > 0 {
        law_config_is_fixed(s, calls.drop_last());
    }
}

/// Once the vault is set up, the locked total is what came in less what went out.
/// A transfer inside the pool does not change it.
pub proof fn law_locked_total_is_what_came_in_less_what_went_out(
    s: VaultState,
    calls: Seq<VaultCall>,
)
    requires
        s.config is Some,
    ensures
        run(s, calls).total_locked == s.total_locked + net_inflow(s, calls),
    decreases calls.len(),
{
    if calls.len() > 0 {
        law_locked_total_is_what_came_in_less_what_went_out(s, calls.drop_last());
        law_config_is_fixed(s, calls.drop_last());
    }
}

// ---------------------------------------------------------------------------
// Running the vault
// ---------------------------------------------------------------------------

/// While the vault is paused, every call on notes is turned down as paused and
/// changes nothing.
pub proof fn law_pause_halts_everything(s: VaultState, call: VaultCall)
    requires
        s.config is Some,
        s.paused,
        call.on_notes(),
    ensures
        fault(s, call) == Some(VaultError::ContractPaused),
        step(s, call) == s,
{
}

/// A paused vault stays exactly as it is until the admin resumes it, whatever else is
/// called.
pub proof fn law_nothing_moves_while_paused(s: VaultState, calls: Seq<VaultCall>)
    requires
        s.config is Some,
        s.paused,
        forall|i: int|
            0 <= i < calls.len() ==> #[trigger] calls[i] != (VaultCall::Unpause {
                caller: s.config->0.admin,
            }),
    ensures
        run(s, calls) == s,
    decreases calls.len(),
{
    if calls.len() > 0 {
        let earlier = calls.drop_last();
        let call = calls[calls.len() - 1];
        assert forall|i: int| 0 <= i < earlier.len() implies #[trigger] earlier[i]
            != (VaultCall::Unpause { caller: s.config->0.admin }) by {
            assert(earlier[i] == calls[i]);
        }
        law_nothing_moves_while_paused(s, earlier);
        if call.on_notes() {
            law_pause_halts_everything(s, call);
        }
        assert(step(s, call) =~= s);
    }
}

/// Only a call in the name of the admin pauses or resumes the vault.
pub proof fn law_only_the_admin_pauses(s: VaultState, call: VaultCall)
    requires
        step(s, call).paused != s.paused,
    ensures
        s.config is Some,
        call == (VaultCall::Pause { caller: s.config->0.admin }) || call == (VaultCall::Unpause {
            caller: s.config->0.admin,
        }),
{
}

/// Pausing and resuming touches nothing else: afterwards the vault is as before.
pub proof fn law_unpause_undoes_pause(s: VaultState)
    requires
        s.config is Some,
        !s.paused,
    ensures
        ({
            let admin = s.config->0.admin;
            step(
                step(s, VaultCall::Pause { caller: admin }),
                VaultCall::Unpause { caller: admin },
            ) == s
        }),
{
}

/// A vault that is not set up turns every other call down.
pub proof fn law_nothing_before_setup(s: VaultState, call: VaultCall)
    requires
        s.config is None,
        !(call is Initialize),
    ensures
        fault(s, call) == Some(VaultError::NotInitialized),
        step(s, call) == s,
{
}

// ---------------------------------------------------------------------------
// The tree
// ---------------------------------------------------------------------------

/// The vault's tree is the tree over `leaves`, and its ring holds the roots of the
/// last insertions.
pub open spec fn tree_over(s: VaultState, leaves: Seq<Bytes32>) -> bool {
    &&& s.leaf_count == leaves.len()
    &&& remembers(s.filled, leaves)
    &&& ring_holds(s.roots, s.current_root, roots_of(leaves))
}

/// The roots that inserting `leaves` one by one goes through.
pub open spec fn roots_of(leaves: Seq<Bytes32>) -> Seq<Bytes32> {
    Seq::new(leaves.len(), |j: int| tree_root(leaves.take(j + 1)))
}

/// The leaves after `call`.
pub open spec fn leaves_after(
    s: VaultState,
    call: VaultCall,
    leaves: Seq<Bytes32>,
) -> Seq<Bytes32> {
    if fault(s, call) is None && call.inserts() is Some {
        leaves.push(call.inserts()->0)
    } else {
        leaves
    }
}

proof fn lemma_with_leaf(s: VaultState, leaves: Seq<Bytes32>, leaf: Bytes32)
    requires
        tree_over(s, leaves),
        leaves.len() < CAPACITY,
    ensures
        tree_over(s.with_leaf(leaf), leaves.push(leaf)),
        s.root_with(leaf) == tree_root(leaves.push(leaf)),
{
    let grown = leaves.push(leaf);
    law_insert_builds_tree(s.filled, leaves, leaf);
    law_ring_advances(s.roots, s.current_root, roots_of(leaves), tree_root(grown));
    assert(roots_of(grown) =~= roots_of(leaves).push(tree_root(grown))) by {
        assert(grown.take(grown.len() as int) =~= grown);
        assert forall|j: int| 0 <= j < leaves.len() implies #[trigger] roots_of(grown)[j]
            == roots_of(leaves)[j] by {
            assert(grown.take(j + 1) =~= leaves.take(j + 1));
        }
    }
}

/// A vault that has just been set up has an empty tree.
pub proof fn law_setup_starts_an_empty_tree(s: VaultState, config: VaultConfig)
    requires
        s.config is None,
    ensures
        tree_over(step(s, VaultCall::Initialize { config }), Seq::empty()),
{
    let filled = Map::<u32, Bytes32>::empty();
    law_empty_tree_remembers(filled);
    law_empty_ring();
    assert(roots_of(Seq::empty()) =~= Seq::<Bytes32>::empty());
}

/// As long as the tree has room, every call keeps the vault's tree in step with
/// the commitments inserted so far: deposits, transfers and partial withdrawals
/// append theirs, and nothing else changes it.
pub proof fn law_tree_follows_the_insertions(
    s: VaultState,
    call: VaultCall,
    leaves: Seq<Bytes32>,
)
    requires
        s.config is Some,
        tree_over(s, leaves),
        fault(s, call) is None && call.inserts() is Some ==> leaves.len() < CAPACITY,
    ensures
        tree_over(step(s, call), leaves_after(s, call, leaves)),
{
    if fault(s, call) is None && call.inserts() is Some {
        let leaf = call.inserts()->0;
        match call {
            VaultCall::Deposit { commitment, nullifier, amount } => {
                lemma_with_leaf(
                    s.with_binding(commitment, nullifier).with_deposit(commitment),
                    leaves,
                    leaf,
                );
            },
            _ => {
                lemma_with_leaf(s.with_spent(call.spends()->0), leaves, leaf);
            },
        }
    }
}

/// The commitments that `calls` put into the tree, in order; calls that are turned down
/// put none.
pub open spec fn inserted(s: VaultState, calls: Seq<VaultCall>) -> Seq<Bytes32>
    decreases calls.len(),
{
    if calls.len() == 0 {
        Seq::empty()
    } else {
        let earlier = calls.drop_last();
        leaves_after(run(s, earlier), calls.last(), inserted(s, earlier))
    }
}

/// From its set-up on, a vault's tree is the tree over all commitments inserted by calls
/// that went through, in order, as long as it has room for them; and its root is the
/// root of that tree.
pub proof fn law_tree_is_over_all_insertions(s: VaultState, calls: Seq<VaultCall>)
    requires
        s.config is None,
        inserted(s, calls).len() <= CAPACITY,
    ensures
        run(s, calls).config is Some ==> tree_over(run(s, calls), inserted(s, calls)),
        run(s, calls).config is Some && inserted(s, calls).len() > 0 ==> run(s, calls).root()
            == tree_root(inserted(s, calls)),
        run(s, calls).config is None ==> run(s, calls) == s && inserted(s, calls).len() == 0,
    decreases calls.len(),
{
    if calls.len() > 0 {
        let earlier = calls.drop_last();
        let call = calls.last();
        let t = run(s, earlier);
        law_tree_is_over_all_insertions(s, earlier);
        if t.config is Some {
            law_tree_follows_the_insertions(t, call, inserted(s, earlier));
            assert(step(t, call).config is Some);
        } else {
            match call {
                VaultCall::Initialize { config } => {
                    law_setup_starts_an_empty_tree(t, config);
                    assert(inserted(s, earlier) =~= Seq::<Bytes32>::empty());
                },
                _ => {
                    law_nothing_before_setup(t, call);
                },
            }
        }
        if run(s, calls).config is Some && inserted(s, calls).len() > 0 {
            law_latest_root_is_the_tree_root(run(s, calls), inserted(s, calls));
        }
    }
}

/// The position that an insertion returns and publishes is where its commitment
/// stands in the tree, and no earlier commitment moves: from the published
/// positions and commitments the leaves can be rebuilt.
pub proof fn law_published_positions_are_those_of_the_tree(
    s: VaultState,
    call: VaultCall,
    leaves: Seq<Bytes32>,
    i: int,
)
    requires
        tree_over(s, leaves),
        fault(s, call) is None,
        call.inserts() is Some,
    ensures
        leaves_after(s, call, leaves)[s.leaf_count as int] == call.inserts()->0,
        0 <= i < s.leaf_count ==> leaves_after(s, call, leaves)[i] == leaves[i],
        step(s, call).leaf_count == s.leaf_count + 1,
{
}

/// The root that the vault shows is the root of the full tree over all its
/// leaves.
pub proof fn law_latest_root_is_the_tree_root(s: VaultState, leaves: Seq<Bytes32>)
    requires
        tree_over(s, leaves),
        leaves.len() > 0,
    ensures
        s.root() == tree_root(leaves),
        s.knows_root(tree_root(leaves)),
{
    let history = roots_of(leaves);
    let last = leaves.len() - 1;
    assert(recent(history, last));
    assert(leaves.take(last + 1) =~= leaves);
    assert(history[last] == tree_root(leaves));
    assert(ring_slot(last) == s.current_root);
    assert(s.roots.contains_key(s.current_root));
}

/// The vault accepts exactly the roots of the last 30 insertions: a proof made
/// against the tree as it was can still be used until 30 more commitments have
/// been inserted.
pub proof fn law_roots_of_the_last_insertions_are_known(
    s: VaultState,
    leaves: Seq<Bytes32>,
    root: Bytes32,
)
    requires
        tree_over(s, leaves),
    ensures
        s.knows_root(root) <==> exists|n: int|
            #![trigger leaves.take(n)]
            0 < n <= leaves.len() && leaves.len() - n < 30 && root == tree_root(
                leaves.take(n),
            ),
{
    let history = roots_of(leaves);
    law_known_roots_are_the_recent_ones(s.roots, s.current_root, history, root);
    if s.knows_root(root) {
        let j = choose|j: int|
            #![trigger recent(history, j)]
            recent(history, j) && history[j] == root;
        assert(root == tree_root(leaves.take(j + 1)));
    }
    if exists|n: int|
        #![trigger leaves.take(n)]
        0 < n <= leaves.len() && leaves.len() - n < 30 && root == tree_root(
            leaves.take(n),
        ) {
        let n = choose|n: int|
            #![trigger leaves.take(n)]
            0 < n <= leaves.len() && leaves.len() - n < 30 && root == tree_root(
                leaves.take(n),
            );
        assert(recent(history, n - 1));
        assert(history[n - 1] == tree_root(leaves.take(n)));
    }
}

// ---------------------------------------------------------------------------
// Which entries a call looks at
// ---------------------------------------------------------------------------

/// Two states agree on everything but the entries of nullifiers and commitments; of
/// those, on the given ones.
pub open spec fn agree_on(
    s: VaultState,
    t: VaultState,
    nullifier: Option<Bytes32>,
    commitment: Option<Bytes32>,
) -> bool {
    &&& s.address == t.address
    &&& s.config == t.config
    &&& s.paused == t.paused
    &&& s.leaf_count == t.leaf_count
    &&& s.current_root == t.current_root
    &&& s.roots == t.roots
    &&& s.filled == t.filled
    &&& s.total_locked == t.total_locked
    &&& nullifier matches Some(n) ==> s.is_spent(n) == t.is_spent(n)
    &&& commitment matches Some(c) ==> {
        &&& s.deposits.contains(c) == t.deposits.contains(c)
        &&& s.bindings.contains_key(c) == t.bindings.contains_key(c)
        &&& s.bindings.contains_key(c) ==> s.bindings[c] == t.bindings[c]
    }
}

/// A call looks at the flag of the nullifier that it spends and at the entries of the
/// commitment that it names alone, and changes no others: the rest of the storage need
/// not be loaded for it.
pub proof fn law_calls_are_local(s: VaultState, t: VaultState, call: VaultCall)
    requires
        agree_on(s, t, call.spends(), call.names()),
    ensures
        fault(s, call) == fault(t, call),
        agree_on(step(s, call), step(t, call), call.spends(), call.names()),
        forall|n: Bytes32|
            call.spends() != Some(n) ==> #[trigger] step(s, call).is_spent(n) == s.is_spent(n),
        forall|c: Bytes32|
            call.names() != Some(c) ==> #[trigger] step(s, call).deposits.contains(c)
                == s.deposits.contains(c),
        forall|c: Bytes32|
            call.names() != Some(c) ==> #[trigger] step(s, call).bindings.contains_key(c)
                == s.bindings.contains_key(c),
        forall|c: Bytes32|
            call.names() != Some(c) && s.bindings.contains_key(c) ==> #[trigger] step(
                s,
                call,
            ).bindings[c] == s.bindings[c],
{
}

} // verus!
