//! Verifier for UltraHonk proofs.
//!
//! It has no business logic: it takes a proof and public inputs and answers
//! whether the proof holds. The verification key is supplied once and cannot be
//! changed afterwards; another circuit needs another instance.
use crate::address::Address;
use crate::bytes::{append_word, be_value, Bytes32};
use soroban_sdk::{Bytes, Env};
use ultrahonk_soroban_verifier::{UltraHonkVerifier, VkLoadError};
use vstd::arithmetic::power2::pow2;
use vstd::prelude::*;

verus! {

/// Exact size of a proof.
pub const PROOF_BYTES: usize = 14_592;

/// Exact size of a verification key.
pub const KEY_BYTES: usize = 1_760;

/// Greatest base-2 logarithm of a circuit's size.
pub const MAX_LOG_CIRCUIT_SIZE: u64 = 28;

/// Public inputs that every circuit carries for the pairing check, beside its own.
pub const PAIRING_INPUTS: u64 = 16;

/// Commitments in a verification key.
pub const KEY_POINTS: usize = 27;

/// Greatest number of public inputs. The verifier hashes 992 more bytes together
/// with them, and the host counts the length of a byte string in 32 bits.
pub const MAX_PUBLIC_INPUTS: usize = 134_217_696;

/// Ledgers that the contract's storage is kept alive for, about 30 days.
pub const PERSISTENT_TTL_LEDGERS: u32 = 518_400;

/// A serialised verification key and the number of public inputs of its circuit.
pub struct VerificationKey {
    pub bytes: Vec<u8>,
    pub num_public_inputs: u32,
}

#[derive(Clone, Copy, Debug, PartialEq, Eq, Structural)]
pub enum HonkVerifierError {
    AlreadyInitialized,
    NotInitialized,
    PublicInputCountMismatch,
    InvalidProofLength,
    /// The key does not have the exact expected length.
    VkInvalidLength,
    /// The key holds out-of-range parameters or a malformed commitment.
    VkInvalidParameters,
}

impl HonkVerifierError {
    /// The number by which a contract reports this error.
    pub fn code(self) -> (r: u32)
        ensures
            r == self.number(),
    {
        match self {
            HonkVerifierError::AlreadyInitialized => 1,
            HonkVerifierError::NotInitialized => 2,
            HonkVerifierError::PublicInputCountMismatch => 3,
            HonkVerifierError::InvalidProofLength => 4,
            HonkVerifierError::VkInvalidLength => 5,
            HonkVerifierError::VkInvalidParameters => 6,
        }
    }

    pub open spec fn number(self) -> u32 {
        match self {
            HonkVerifierError::AlreadyInitialized => 1,
            HonkVerifierError::NotInitialized => 2,
            HonkVerifierError::PublicInputCountMismatch => 3,
            HonkVerifierError::InvalidProofLength => 4,
            HonkVerifierError::VkInvalidLength => 5,
            HonkVerifierError::VkInvalidParameters => 6,
        }
    }
}

// ---------------------------------------------------------------------------
// Keys
// ---------------------------------------------------------------------------

/// How parsing a verification key ends.
#[derive(Clone, Copy, Debug, PartialEq, Eq, Structural)]
pub enum KeyCheck {
    Loads,
    WrongLength,
    InvalidParameters,
    InvalidPoint,
}

/// Field number `i` of a key's header: four big-endian 64-bit numbers, which are
/// the circuit's size, its logarithm, the number of public inputs and the offset
/// of the public inputs.
pub open spec fn header_field(key: Seq<u8>, i: int) -> nat {
    be_value(key.subrange(8 * i, 8 * i + 8))
}

/// The header of `key` is consistent and within range.
pub open spec fn header_valid(key: Seq<u8>) -> bool {
    &&& 0 < header_field(key, 1) <= MAX_LOG_CIRCUIT_SIZE
    &&& header_field(key, 2) >= PAIRING_INPUTS
    &&& header_field(key, 0) == pow2(header_field(key, 1))
    &&& header_field(key, 3) <= header_field(key, 0)
}

/// The number of public inputs of a key's circuit, as its header gives it.
pub open spec fn declared_inputs(key: Seq<u8>) -> int {
    header_field(key, 2) - PAIRING_INPUTS
}

/// Modulus of the field that the coordinates of the BN254 curve are taken from.
pub open spec fn base_modulus() -> nat {
    0x30644e72e131a029b85045b68181585d97816a916871ca8d3c208c16d87cfd47nat
}

/// `(x, y)` is a point of the curve `y^2 = x^3 + 3`, with both coordinates below
/// the modulus; two zeros stand for the point at infinity.
pub open spec fn on_curve(x: nat, y: nat) -> bool {
    &&& x < base_modulus()
    &&& y < base_modulus()
    &&& (x == 0 && y == 0) || (y * y) % base_modulus() == (x * x * x + 3) % base_modulus()
}

/// Commitment number `i` of a key, two big-endian coordinates behind the header, is
/// a point of the curve.
pub open spec fn point_valid(key: Seq<u8>, i: int) -> bool {
    let start = 32 + 64 * i;
    on_curve(
        be_value(key.subrange(start, start + 32)),
        be_value(key.subrange(start + 32, start + 64)),
    )
}

/// Every commitment in the key is a point of the curve.
pub open spec fn points_valid(key: Seq<u8>) -> bool {
    forall|i: int| 0 <= i < KEY_POINTS ==> #[trigger] point_valid(key, i)
}

/// How parsing `key` ends: its length is tested first, then its header, then its
/// commitments.
pub open spec fn key_check(key: Seq<u8>) -> KeyCheck {
    if key.len() != KEY_BYTES {
        KeyCheck::WrongLength
    } else if !header_valid(key) {
        KeyCheck::InvalidParameters
    } else if !points_valid(key) {
        KeyCheck::InvalidPoint
    } else {
        KeyCheck::Loads
    }
}

/// `UltraHonkVerifier::new`: claimed to reject a key by its length first, then by
/// its header, then by a commitment that is no point of the curve, and to load every
/// other key. Keys longer than the host can hold are left out.
#[verifier::external_body]
fn load_key(env: &Env, key: &Vec<u8>) -> (r: KeyCheck)
    requires
        key@.len() <= u32::MAX,
    ensures
        r == key_check(key@),
{
    match UltraHonkVerifier::new(env, &Bytes::from_slice(env, key)) {
        Ok(_) => KeyCheck::Loads,
        Err(VkLoadError::WrongLength) => KeyCheck::WrongLength,
        Err(VkLoadError::InvalidParameters) => KeyCheck::InvalidParameters,
        Err(VkLoadError::InvalidPoint) => KeyCheck::InvalidPoint,
    }
}

/// The proof holds for the given public inputs under the given key.
pub uninterp spec fn proof_holds(key: Seq<u8>, proof: Seq<u8>, public_inputs: Seq<u8>) -> bool;

/// `UltraHonkVerifier::verify` on the verifier that the key loads to: claimed to
/// give an answer exactly when the key loads, to depend on the three byte strings
/// alone, and to accept only a proof of the exact length and as many public
/// inputs as the key's header declares. Public inputs that leave the host no room
/// for the 992 bytes that are hashed with them are left out.
#[verifier::external_body]
fn check_proof(env: &Env, key: &Vec<u8>, proof: &Vec<u8>, public_inputs: &Vec<u8>) -> (r: Option<
    bool,
>)
    requires
        key@.len() <= u32::MAX,
        proof@.len() <= u32::MAX,
        public_inputs@.len() <= u32::MAX - 992,
    ensures
        r is Some <==> key_check(key@) == KeyCheck::Loads,
        r matches Some(valid) ==> valid == proof_holds(key@, proof@, public_inputs@),
        r == Some(true) ==> proof@.len() == PROOF_BYTES,
        r == Some(true) ==> public_inputs@.len() == 32 * declared_inputs(key@),
{
    let verifier = UltraHonkVerifier::new(env, &Bytes::from_slice(env, key)).ok()?;
    let proof = Bytes::from_slice(env, proof);
    let public_inputs = Bytes::from_slice(env, public_inputs);
    Some(verifier.verify(&proof, &public_inputs).is_ok())
}

// ---------------------------------------------------------------------------
// The contract
// ---------------------------------------------------------------------------

/// What other contracts ask of a verifier.
///
/// An implementation says what it answers. Of one that leaves the functions below as
/// they are, it is only known that the same question gets the same answer.
pub trait HonkVerifierInterface: Sized {
    /// The address that this verifier is deployed at.
    open spec fn id(&self) -> Address {
        let answer: spec_fn(Self) -> Address = arbitrary();
        answer(*self)
    }

    /// Whether this verifier accepts the proof for the public inputs.
    open spec fn accepts(&self, proof: Seq<u8>, public_inputs: Seq<Bytes32>) -> bool {
        let answer: spec_fn(Self, Seq<u8>, Seq<Bytes32>) -> bool = arbitrary();
        answer(*self, proof, public_inputs)
    }

    /// The verification key, once there is one.
    open spec fn key(&self) -> Option<Seq<u8>> {
        let answer: spec_fn(Self) -> Option<Seq<u8>> = arbitrary();
        answer(*self)
    }

    fn verify(&self, env: &Env, proof: &Vec<u8>, public_inputs: &Vec<Bytes32>) -> (r: bool)
        ensures
            r == self.accepts(proof@, public_inputs@),
    ;

    fn get_verification_key(&self, env: &Env) -> (r: Vec<u8>)
        requires
            self.key() is Some,
        ensures
            self.key() == Some(r@),
    ;
}

/// How a verification ended.
#[derive(Clone, Copy, Debug, PartialEq, Eq, Structural)]
pub enum Verification {
    /// There is no key, or the proof or the public inputs have the wrong size.
    Refused,
    /// The sizes were right but the key could not be parsed.
    KeyRejected,
    /// The proof was checked; `valid` is what is announced.
    Checked { valid: bool },
}

/// The words of `words`, one after the other.
pub open spec fn flatten(words: Seq<Bytes32>) -> Seq<u8>
    decreases words.len(),
{
    if words.len() == 0 {
        Seq::empty()
    } else {
        flatten(words.drop_last()) + words.last()@
    }
}

proof fn lemma_flatten_len(words: Seq<Bytes32>)
    ensures
        flatten(words).len() == 32 * words.len(),
    decreases words.len(),
{
    if words.len() > 0 {
        lemma_flatten_len(words.drop_last());
    }
}

/// A verifier for one circuit.
pub struct HonkVerifierContract {
    /// Where the contract is deployed.
    pub address: Address,
    pub vk: Option<VerificationKey>,
}

impl HonkVerifierContract {
    /// The sizes of the proof and of the public inputs are right: the proof has
    /// its exact length, and there are as many public inputs as were declared and
    /// no more than can be checked.
    pub open spec fn sizes_fit(self, proof: Seq<u8>, public_inputs: Seq<Bytes32>) -> bool {
        &&& self.vk is Some
        &&& proof.len() == PROOF_BYTES
        &&& public_inputs.len() == self.vk->0.num_public_inputs
        &&& public_inputs.len() <= MAX_PUBLIC_INPUTS
    }

    /// How checking the proof ends.
    pub open spec fn verification(
        self,
        proof: Seq<u8>,
        public_inputs: Seq<Bytes32>,
    ) -> Verification {
        if !self.sizes_fit(proof, public_inputs) {
            Verification::Refused
        } else if key_check(self.vk->0.bytes@) != KeyCheck::Loads {
            Verification::KeyRejected
        } else {
            Verification::Checked {
                valid: proof_holds(self.vk->0.bytes@, proof, flatten(public_inputs)),
            }
        }
    }

    /// A key, once embedded, is one that parses.
    pub open spec fn key_loads(self) -> bool {
        self.vk matches Some(vk) ==> key_check(vk.bytes@) == KeyCheck::Loads
    }

    /// A verifier without a key.
    pub fn new(address: Address) -> (r: Self)
        ensures
            r.address == address,
            r.vk is None,
            r.key_loads(),
    {
        HonkVerifierContract { address, vk: None }
    }

    /// Embeds the verification key. Succeeds exactly once, and only with a key
    /// that parses.
    pub fn initialize(&mut self, env: &Env, vk_bytes: Vec<u8>, num_public_inputs: u32) -> (r: Result<
        (),
        HonkVerifierError,
    >)
        ensures
            r == (if old(self).vk is Some {
                Err(HonkVerifierError::AlreadyInitialized)
            } else {
                match key_check(vk_bytes@) {
                    KeyCheck::Loads => Ok(()),
                    KeyCheck::WrongLength => Err(HonkVerifierError::VkInvalidLength),
                    KeyCheck::InvalidParameters => Err(HonkVerifierError::VkInvalidParameters),
                    KeyCheck::InvalidPoint => Err(HonkVerifierError::VkInvalidParameters),
                }
            }),
            r is Ok ==> final(self).vk == Some(
                (VerificationKey { bytes: vk_bytes, num_public_inputs }),
            ),
            final(self).address == old(self).address,
            r is Err ==> *final(self) == *old(self),
            old(self).key_loads() ==> final(self).key_loads(),
    {
        if self.vk.is_some() {
            return Err(HonkVerifierError::AlreadyInitialized);
        }
        if vk_bytes.len() > 0xffff_ffff {
            return Err(HonkVerifierError::VkInvalidLength);
        }
        match load_key(env, &vk_bytes) {
            KeyCheck::Loads => {},
            KeyCheck::WrongLength => {
                return Err(HonkVerifierError::VkInvalidLength);
            },
            KeyCheck::InvalidParameters | KeyCheck::InvalidPoint => {
                return Err(HonkVerifierError::VkInvalidParameters);
            },
        }
        self.vk = Some(VerificationKey { bytes: vk_bytes, num_public_inputs });
        Ok(())
    }

    /// Checks a proof and says how far the check came.
    pub fn run(&self, env: &Env, proof: &Vec<u8>, public_inputs: &Vec<Bytes32>) -> (r: Verification)
        ensures
            r == self.verification(proof@, public_inputs@),
            r == (Verification::Checked { valid: true }) ==> public_inputs@.len()
                == declared_inputs(self.vk->0.bytes@),
    {
        match &self.vk {
            None => Verification::Refused,
            Some(vk) => {
                if proof.len() != PROOF_BYTES {
                    return Verification::Refused;
                }
                if public_inputs.len() as u64 != vk.num_public_inputs as u64 {
                    return Verification::Refused;
                }
                if public_inputs.len() > MAX_PUBLIC_INPUTS {
                    return Verification::Refused;
                }
                if vk.bytes.len() > 0xffff_ffff {
                    return Verification::KeyRejected;
                }
                let mut bytes: Vec<u8> = Vec::new();
                let mut i: usize = 0;
                assert(public_inputs@.subrange(0, 0) =~= Seq::<Bytes32>::empty());
                while i < public_inputs.len()
                    invariant
                        i <= public_inputs@.len(),
                        bytes@ == flatten(public_inputs@.subrange(0, i as int)),
                    decreases public_inputs@.len() - i,
                {
                    append_word(&mut bytes, &public_inputs[i]);
                    i += 1;
                    proof {
                        let seen = public_inputs@.subrange(0, i as int);
                        assert(seen.drop_last() =~= public_inputs@.subrange(0, i - 1));
                    }
                }
                proof {
                    assert(public_inputs@.subrange(0, i as int) =~= public_inputs@);
                    lemma_flatten_len(public_inputs@);
                }
                match check_proof(env, &vk.bytes, proof, &bytes) {
                    None => Verification::KeyRejected,
                    Some(valid) => Verification::Checked { valid },
                }
            },
        }
    }

    /// Whether the proof holds under the embedded key.
    ///
    /// False, and never a failure, for a contract without a key and for a proof
    /// or public inputs of the wrong size.
    pub fn verify(&self, env: &Env, proof: &Vec<u8>, public_inputs: &Vec<Bytes32>) -> (r: bool)
        ensures
            r == (self.verification(proof@, public_inputs@) == Verification::Checked {
                valid: true,
            }),
            r ==> self.vk is Some,
            r ==> proof@.len() == PROOF_BYTES,
            r ==> public_inputs@.len() == self.vk->0.num_public_inputs,
            r ==> public_inputs@.len() == declared_inputs(self.vk->0.bytes@),
    {
        match self.run(env, proof, public_inputs) {
            Verification::Checked { valid } => valid,
            _ => false,
        }
    }

    /// The embedded key.
    pub fn get_verification_key(&self) -> (r: Vec<u8>)
        requires
            self.vk is Some,
        ensures
            r@ == self.vk->0.bytes@,
    {
        match &self.vk {
            Some(vk) => copy_bytes(&vk.bytes),
            None => Vec::new(),
        }
    }

    /// The number of public inputs that the key was embedded for.
    pub fn get_num_public_inputs(&self) -> (r: u32)
        requires
            self.vk is Some,
        ensures
            r == self.vk->0.num_public_inputs,
    {
        match &self.vk {
            Some(vk) => vk.num_public_inputs,
            None => 0,
        }
    }

    /// The embedded key, or the error for a contract without one.
    pub fn try_get_verification_key(&self) -> (r: Result<Vec<u8>, HonkVerifierError>)
        ensures
            match self.vk {
                Some(vk) => r matches Ok(bytes) && bytes@ == vk.bytes@,
                None => r == Err::<Vec<u8>, _>(HonkVerifierError::NotInitialized),
            },
    {
        if self.vk.is_none() {
            return Err(HonkVerifierError::NotInitialized);
        }
        Ok(self.get_verification_key())
    }

    /// The number of public inputs, or the error for a contract without a key.
    pub fn try_get_num_public_inputs(&self) -> (r: Result<u32, HonkVerifierError>)
        ensures
            r == (match self.vk {
                Some(vk) => Ok(vk.num_public_inputs),
                None => Err(HonkVerifierError::NotInitialized),
            }),
    {
        if self.vk.is_none() {
            return Err(HonkVerifierError::NotInitialized);
        }
        Ok(self.get_num_public_inputs())
    }
}

impl HonkVerifierInterface for HonkVerifierContract {
    open spec fn id(&self) -> Address {
        self.address
    }

    open spec fn accepts(&self, proof: Seq<u8>, public_inputs: Seq<Bytes32>) -> bool {
        self.verification(proof, public_inputs) == (Verification::Checked { valid: true })
    }

    open spec fn key(&self) -> Option<Seq<u8>> {
        match self.vk {
            Some(vk) => Some(vk.bytes@),
            None => None,
        }
    }

    fn verify(&self, env: &Env, proof: &Vec<u8>, public_inputs: &Vec<Bytes32>) -> (r: bool) {
        HonkVerifierContract::verify(self, env, proof, public_inputs)
    }

    fn get_verification_key(&self, env: &Env) -> (r: Vec<u8>) {
        HonkVerifierContract::get_verification_key(self)
    }
}

/// A contract whose key parses checks every proof of the right size: a key that
/// was accepted once is never turned down later.
pub proof fn law_embedded_key_is_never_rejected(
    contract: HonkVerifierContract,
    proof: Seq<u8>,
    public_inputs: Seq<Bytes32>,
)
    requires
        contract.key_loads(),
    ensures
        contract.verification(proof, public_inputs) != Verification::KeyRejected,
        contract.sizes_fit(proof, public_inputs) <==> contract.verification(
            proof,
            public_inputs,
        ) is Checked,
{
}

/// The bytes of a list of words stand in the order of the list.
proof fn lemma_flatten_index(words: Seq<Bytes32>, i: int, j: int)
    requires
        0 <= i < words.len(),
        0 <= j < 32,
    ensures
        flatten(words).len() == 32 * words.len(),
        flatten(words)[32 * i + j] == words[i][j],
    decreases words.len(),
{
    let rest = words.drop_last();
    lemma_flatten_len(words);
    lemma_flatten_len(rest);
    if i < rest.len() {
        lemma_flatten_index(rest, i, j);
        assert(rest[i] == words[i]);
    }
}

/// The proof is checked against the public inputs in the order given: where there is a
/// key that parses and the sizes are right, the answer is whether the proof holds for
/// the byte string of 32 bytes for each input whose bytes `32 * i` to `32 * i + 32` are
/// those of input number `i`.
pub proof fn law_inputs_are_checked_in_the_order_given(
    contract: HonkVerifierContract,
    proof: Seq<u8>,
    public_inputs: Seq<Bytes32>,
    bytes: Seq<u8>,
)
    requires
        contract.vk is Some,
        key_check(contract.vk->0.bytes@) == KeyCheck::Loads,
        proof.len() == 14_592,
        public_inputs.len() == contract.vk->0.num_public_inputs,
        public_inputs.len() <= 134_217_696,
        bytes.len() == 32 * public_inputs.len(),
        forall|i: int, j: int|
            0 <= i < public_inputs.len() && 0 <= j < 32 ==> bytes[32 * i + j]
                == #[trigger] public_inputs[i]@[j],
    ensures
        contract.verification(proof, public_inputs) == (Verification::Checked {
            valid: proof_holds(contract.vk->0.bytes@, proof, bytes),
        }),
        contract.accepts(proof, public_inputs) == proof_holds(
            contract.vk->0.bytes@,
            proof,
            bytes,
        ),
{
    lemma_flatten_len(public_inputs);
    assert forall|k: int| 0 <= k < bytes.len() implies bytes[k] == flatten(public_inputs)[k] by {
        let i = k / 32;
        let j = k % 32;
        assert(k == 32 * i + j);
        lemma_flatten_index(public_inputs, i, j);
        assert(bytes[32 * i + j] == public_inputs[i]@[j]);
    }
    assert(bytes =~= flatten(public_inputs));
}

/// A proof is accepted only where there is a key that parses, the proof has its exact
/// length and there are as many public inputs as the key was embedded for. Of these, a
/// wrong size is a refusal, whatever the key is.
pub proof fn law_only_well_sized_proofs_are_checked(
    contract: HonkVerifierContract,
    proof: Seq<u8>,
    public_inputs: Seq<Bytes32>,
)
    ensures
        contract.verification(proof, public_inputs) is Checked <==> {
            &&& contract.vk is Some
            &&& key_check(contract.vk->0.bytes@) == KeyCheck::Loads
            &&& proof.len() == 14_592
            &&& public_inputs.len() == contract.vk->0.num_public_inputs
            &&& public_inputs.len() <= 134_217_696
        },
        contract.verification(proof, public_inputs) == Verification::Refused <==> {
            ||| contract.vk is None
            ||| proof.len() != 14_592
            ||| public_inputs.len() != contract.vk->0.num_public_inputs
            ||| public_inputs.len() > 134_217_696
        },
        contract.accepts(proof, public_inputs) ==> contract.verification(
            proof,
            public_inputs,
        ) is Checked,
        contract.key() == (match contract.vk {
            Some(vk) => Some(vk.bytes@),
            None => None,
        }),
        contract.id() == contract.address,
{
}

/// A pair of coordinates is a point exactly when both are below the modulus of the field
/// and they are both zero or solve the equation of the curve.
pub proof fn law_points_solve_the_curve_equation(x: nat, y: nat)
    ensures
        ({
            let p =
                21888242871839275222246405745257275088696311157297823662689037894645226208583nat;
            on_curve(x, y) <==> x < p && y < p && (x == 0 && y == 0 || (y * y) % p == (x * x * x
                + 3) % p)
        }),
{
}

/// A key loads exactly when it has 1760 bytes, its logarithm is from 1 to 28, it declares
/// at least the 16 inputs of the pairing check, its size is the power of two of its
/// logarithm, its offset is no greater than its size, and the 27 pairs of coordinates
/// behind the header are points of the curve. A wrong length is
/// reported before anything else, and a wrong header before a wrong point.
pub proof fn law_keys_load_exactly_when_well_formed(key: Seq<u8>)
    ensures
        ({
            let size = be_value(key.subrange(0, 8));
            let log = be_value(key.subrange(8, 16));
            let inputs = be_value(key.subrange(16, 24));
            let offset = be_value(key.subrange(24, 32));
            let header_ok = 1 <= log <= 28 && inputs >= 16 && size == pow2(log) && offset <= size;
            let points_ok = forall|at: int, mid: int, end: int|
                32 <= at && end <= 1760 && (at - 32) % 64 == 0 && mid == at + 32 && end == mid
                    + 32 ==> on_curve(
                    be_value(#[trigger] key.subrange(at, mid)),
                    be_value(#[trigger] key.subrange(mid, end)),
                );
            &&& key_check(key) == KeyCheck::WrongLength <==> key.len() != 1760
            &&& key_check(key) == KeyCheck::InvalidParameters <==> key.len() == 1760 && !header_ok
            &&& key_check(key) == KeyCheck::InvalidPoint <==> key.len() == 1760 && header_ok
                && !points_ok
            &&& key_check(key) == KeyCheck::Loads <==> key.len() == 1760 && header_ok && points_ok
        }),
{
    let points_ok = forall|at: int, mid: int, end: int|
        32 <= at && end <= 1760 && (at - 32) % 64 == 0 && mid == at + 32 && end == mid + 32
            ==> on_curve(
            be_value(#[trigger] key.subrange(at, mid)),
            be_value(#[trigger] key.subrange(mid, end)),
        );
    if points_ok {
        assert forall|i: int| 0 <= i < KEY_POINTS implies #[trigger] point_valid(key, i) by {
            let at = 32 + 64 * i;
            let mid = at + 32;
            let end = mid + 32;
            assert((at - 32) % 64 == 0);
            assert(on_curve(be_value(key.subrange(at, mid)), be_value(key.subrange(mid, end))));
            assert(end == at + 64);
        }
    }
    if points_valid(key) {
        assert forall|at: int, mid: int, end: int|
            32 <= at && end <= 1760 && (at - 32) % 64 == 0 && mid == at + 32 && end == mid
                + 32 implies on_curve(
            be_value(#[trigger] key.subrange(at, mid)),
            be_value(#[trigger] key.subrange(mid, end)),
        ) by {
            let i = (at - 32) / 64;
            assert(at == 32 + 64 * i);
            assert(end == at + 64);
            assert(point_valid(key, i));
        }
        assert(points_ok);
    }
    assert(points_ok == points_valid(key));
    assert(header_field(key, 0) == be_value(key.subrange(0, 8)));
    assert(header_field(key, 1) == be_value(key.subrange(8, 16)));
    assert(header_field(key, 2) == be_value(key.subrange(16, 24)));
    assert(header_field(key, 3) == be_value(key.subrange(24, 32)));
}

/// The number that each error is reported by.
pub proof fn law_error_numbers(e: HonkVerifierError)
    ensures
        1 <= e.number() <= 6,
        e == HonkVerifierError::AlreadyInitialized <==> e.number() == 1,
        e == HonkVerifierError::NotInitialized <==> e.number() == 2,
        e == HonkVerifierError::PublicInputCountMismatch <==> e.number() == 3,
        e == HonkVerifierError::InvalidProofLength <==> e.number() == 4,
        e == HonkVerifierError::VkInvalidLength <==> e.number() == 5,
        e == HonkVerifierError::VkInvalidParameters <==> e.number() == 6,
{
}

/// A copy of a byte string.
pub(crate) fn copy_bytes(bytes: &Vec<u8>) -> (r: Vec<u8>)
    ensures
        r@ == bytes@,
{
    let mut out: Vec<u8> = Vec::new();
    let mut i: usize = 0;
    while i < bytes.len()
        invariant
            i <= bytes@.len(),
            out@ == bytes@.subrange(0, i as int),
        decreases bytes@.len() - i,
    {
        out.push(bytes[i]);
        i += 1;
        assert(bytes@.subrange(0, i as int) =~= bytes@.subrange(0, i - 1).push(bytes@[i - 1]));
    }
    assert(bytes@.subrange(0, i as int) =~= bytes@);
    out
}

} // verus!
