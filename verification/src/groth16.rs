//! Verifier for Groth16 proofs.
//!
//! It has no business logic. The verification key is supplied once and cannot be
//! changed afterwards. The pairing check is a placeholder that only asks for
//! something to be there; it is not cryptographic.
use crate::bytes::Bytes32;
use crate::honk_verifier::copy_bytes;
use vstd::prelude::*;

verus! {

/// Least size of a proof: two compressed points of the first group and one of the
/// second.
pub const MIN_PROOF_BYTES: u32 = 192;

/// Ledgers that the contract's storage is kept alive for, about 30 days.
pub const PERSISTENT_TTL_LEDGERS: u32 = 518_400;

/// A serialised verification key and the number of public inputs of its circuit.
pub struct VerificationKey {
    pub bytes: Vec<u8>,
    pub num_public_inputs: u32,
}

#[derive(Clone, Copy, Debug, PartialEq, Eq, Structural)]
pub enum Groth16Error {
    AlreadyInitialized,
    NotInitialized,
    PublicInputCountMismatch,
    InvalidProofLength,
}

impl Groth16Error {
    pub open spec fn number(self) -> u32 {
        match self {
            Groth16Error::AlreadyInitialized => 1,
            Groth16Error::NotInitialized => 2,
            Groth16Error::PublicInputCountMismatch => 3,
            Groth16Error::InvalidProofLength => 4,
        }
    }

    /// The number by which a contract reports this error.
    pub fn code(self) -> (r: u32)
        ensures
            r == self.number(),
    {
        match self {
            Groth16Error::AlreadyInitialized => 1,
            Groth16Error::NotInitialized => 2,
            Groth16Error::PublicInputCountMismatch => 3,
            Groth16Error::InvalidProofLength => 4,
        }
    }
}

/// A verifier for one circuit.
pub struct Groth16Contract {
    pub vk: Option<VerificationKey>,
}

impl Groth16Contract {
    /// Why a proof is not even checked, if it is not.
    pub open spec fn verify_fault(self, proof_len: nat, input_count: nat) -> Option<Groth16Error> {
        match self.vk {
            None => Some(Groth16Error::NotInitialized),
            Some(vk) => if input_count != vk.num_public_inputs {
                Some(Groth16Error::PublicInputCountMismatch)
            } else if proof_len < MIN_PROOF_BYTES {
                Some(Groth16Error::InvalidProofLength)
            } else {
                None
            },
        }
    }

    /// A verifier without a key.
    pub fn new() -> (r: Self)
        ensures
            r.vk is None,
    {
        Groth16Contract { vk: None }
    }

    /// Embeds the verification key. Succeeds exactly once.
    pub fn initialize(&mut self, vk_bytes: Vec<u8>, num_public_inputs: u32) -> (r: Result<
        (),
        Groth16Error,
    >)
        ensures
            r == (if old(self).vk is Some {
                Err(Groth16Error::AlreadyInitialized)
            } else {
                Ok(())
            }),
            r is Ok ==> final(self).vk == Some(
                (VerificationKey { bytes: vk_bytes, num_public_inputs }),
            ),
            r is Err ==> *final(self) == *old(self),
    {
        if self.vk.is_some() {
            return Err(Groth16Error::AlreadyInitialized);
        }
        self.vk = Some(VerificationKey { bytes: vk_bytes, num_public_inputs });
        Ok(())
    }

    /// Whether the proof holds. There has to be a key, as many public inputs as it
    /// was embedded for, and a proof of at least the least size.
    pub fn verify(&self, proof: &Vec<u8>, public_inputs: &Vec<Bytes32>) -> (r: bool)
        requires
            self.verify_fault(proof@.len(), public_inputs@.len()) is None,
        ensures
            r == (self.vk->0.bytes@.len() > 0 && public_inputs@.len() > 0),
    {
        match &self.vk {
            Some(vk) => Self::pairing_check(&vk.bytes, proof, public_inputs),
            None => false,
        }
    }

    /// Whether the proof holds, or why it is not checked.
    pub fn try_verify(&self, proof: &Vec<u8>, public_inputs: &Vec<Bytes32>) -> (r: Result<
        bool,
        Groth16Error,
    >)
        ensures
            r == (match self.verify_fault(proof@.len(), public_inputs@.len()) {
                Some(error) => Err(error),
                None => Ok(self.vk->0.bytes@.len() > 0 && public_inputs@.len() > 0),
            }),
    {
        match &self.vk {
            None => Err(Groth16Error::NotInitialized),
            Some(vk) => {
                if public_inputs.len() as u64 != vk.num_public_inputs as u64 {
                    return Err(Groth16Error::PublicInputCountMismatch);
                }
                if proof.len() < MIN_PROOF_BYTES as usize {
                    return Err(Groth16Error::InvalidProofLength);
                }
                Ok(self.verify(proof, public_inputs))
            },
        }
    }

    /// The embedded key.
    pub fn get_verification_key(&self) -> (r: Vec<u8>)
        requires
            self.vk is Some,
        ensures
            r@ == self.vk->0.bytes@,
    {
        match &self.vk {
            Some(vk) => copy_bytes(&vk.bytes),
            None => Vec::new(),
        }
    }

    /// The number of public inputs that the key was embedded for.
    pub fn get_num_public_inputs(&self) -> (r: u32)
        requires
            self.vk is Some,
        ensures
            r == self.vk->0.num_public_inputs,
    {
        match &self.vk {
            Some(vk) => vk.num_public_inputs,
            None => 0,
        }
    }

    /// The embedded key, or the error for a contract without one.
    pub fn try_get_verification_key(&self) -> (r: Result<Vec<u8>, Groth16Error>)
        ensures
            match self.vk {
                Some(vk) => r matches Ok(bytes) && bytes@ == vk.bytes@,
                None => r == Err::<Vec<u8>, _>(Groth16Error::NotInitialized),
            },
    {
        if self.vk.is_none() {
            return Err(Groth16Error::NotInitialized);
        }
        Ok(self.get_verification_key())
    }

    /// The number of public inputs, or the error for a contract without a key.
    pub fn try_get_num_public_inputs(&self) -> (r: Result<u32, Groth16Error>)
        ensures
            r == (match self.vk {
                Some(vk) => Ok(vk.num_public_inputs),
                None => Err(Groth16Error::NotInitialized),
            }),
    {
        if self.vk.is_none() {
            return Err(Groth16Error::NotInitialized);
        }
        Ok(self.get_num_public_inputs())
    }

    /// Placeholder for the pairing equation: key, proof and public inputs are there.
    pub fn pairing_check(
        vk_bytes: &Vec<u8>,
        proof: &Vec<u8>,
        public_inputs: &Vec<Bytes32>,
    ) -> (r: bool)
        ensures
            r == (vk_bytes@.len() > 0 && proof@.len() > 0 && public_inputs@.len() > 0),
    {
        vk_bytes.len() > 0 && proof.len() > 0 && public_inputs.len() > 0
    }
}

/// Each error of a check with the inputs on which it comes: there is no key, there are not
/// as many public inputs as the key was embedded for, or the proof has fewer than 192
/// bytes, in this order.
pub proof fn law_each_error_of_a_check(
    contract: Groth16Contract,
    proof_len: nat,
    input_count: nat,
)
    ensures
        ({
            let f = contract.verify_fault(proof_len, input_count);
            let counted = contract.vk is Some && input_count == contract.vk->0.num_public_inputs;
            &&& f == Some(Groth16Error::NotInitialized) <==> contract.vk is None
            &&& f == Some(Groth16Error::PublicInputCountMismatch) <==> contract.vk is Some
                && !counted
            &&& f == Some(Groth16Error::InvalidProofLength) <==> counted && proof_len < 192
            &&& f is None <==> counted && proof_len >= 192
        }),
{
}

/// The number that each error is reported by.
pub proof fn law_error_numbers(e: Groth16Error)
    ensures
        1 <= e.number() <= 4,
        e == Groth16Error::AlreadyInitialized <==> e.number() == 1,
        e == Groth16Error::NotInitialized <==> e.number() == 2,
        e == Groth16Error::PublicInputCountMismatch <==> e.number() == 3,
        e == Groth16Error::InvalidProofLength <==> e.number() == 4,
{
}

} // verus!
