use soroban_sdk::Env;
use zava::address::Address;
use zava::bytes::Bytes32;
use zava::groth16::{Groth16Contract, Groth16Error};
use zava::honk_verifier::{
    HonkVerifierContract, HonkVerifierError, HonkVerifierInterface, Verification, KEY_BYTES,
    PROOF_BYTES,
};

// ---------------------------------------------------------------------------
// UltraHonk
// ---------------------------------------------------------------------------

const HONK_ID: Address = Address::Contract([0x61; 32]);

/// Modulus of the field of the coordinates, big-endian.
const BASE_MODULUS: [u8; 32] = [
    0x30, 0x64, 0x4e, 0x72, 0xe1, 0x31, 0xa0, 0x29, 0xb8, 0x50, 0x45, 0xb6, 0x81, 0x81, 0x58, 0x5d,
    0x97, 0x81, 0x6a, 0x91, 0x68, 0x71, 0xca, 0x8d, 0x3c, 0x20, 0x8c, 0x16, 0xd8, 0x7c, 0xfd, 0x47,
];

/// A key with the given header whose commitments are all the point `(1, y)`.
fn key(circuit_size: u64, log_size: u64, inputs: u64, offset: u64, y: u8) -> Vec<u8> {
    let mut bytes = Vec::new();
    for field in [circuit_size, log_size, inputs, offset] {
        bytes.extend_from_slice(&field.to_be_bytes());
    }
    for _ in 0..27 {
        let mut point = [0u8; 64];
        point[31] = 1;
        point[63] = y;
        bytes.extend_from_slice(&point);
    }
    assert_eq!(bytes.len(), KEY_BYTES);
    bytes
}

/// A key for a circuit of size 64 with four public inputs of its own.
fn good_key() -> Vec<u8> {
    key(64, 6, 20, 1, 2)
}

#[test]
fn initialize_rejects_empty_vk() {
    let env = Env::default();
    let mut contract = HonkVerifierContract::new(HONK_ID);
    let res = contract.initialize(&env, Vec::new(), 4);
    assert!(res.is_err(), "empty VK must be rejected at initialize");
    assert_eq!(res, Err(HonkVerifierError::VkInvalidLength));
}

#[test]
fn verify_uninitialised_returns_false_gracefully() {
    let env = Env::default();
    let contract = HonkVerifierContract::new(HONK_ID);
    let proof: Vec<u8> = Vec::new();
    let inputs: Vec<Bytes32> = Vec::new();
    assert!(!contract.verify(&env, &proof, &inputs));
    assert_eq!(contract.run(&env, &proof, &inputs), Verification::Refused);
}

#[test]
fn sizes_are_those_of_the_verifier_crate() {
    assert_eq!(PROOF_BYTES, ultrahonk_soroban_verifier::PROOF_BYTES);
    assert_eq!(good_key().len(), KEY_BYTES);
}

#[test]
fn a_well_formed_key_is_embedded_once() {
    let env = Env::default();
    let mut contract = HonkVerifierContract::new(HONK_ID);
    assert_eq!(contract.try_get_verification_key(), Err(HonkVerifierError::NotInitialized));
    assert_eq!(contract.try_get_num_public_inputs(), Err(HonkVerifierError::NotInitialized));
    assert_eq!(contract.initialize(&env, good_key(), 4), Ok(()));
    assert_eq!(contract.get_verification_key(), good_key());
    assert_eq!(contract.get_num_public_inputs(), 4);
    assert_eq!(contract.try_get_verification_key(), Ok(good_key()));
    assert_eq!(contract.try_get_num_public_inputs(), Ok(4));
    assert_eq!(HonkVerifierInterface::get_verification_key(&contract, &env), good_key());
    assert_eq!(
        contract.initialize(&env, key(64, 6, 21, 1, 2), 5),
        Err(HonkVerifierError::AlreadyInitialized)
    );
    assert_eq!(contract.get_num_public_inputs(), 4);
}

#[test]
fn malformed_keys_are_rejected() {
    let env = Env::default();
    let mut short = good_key();
    short.pop();
    let mut long = good_key();
    long.push(0);
    for bytes in [short, long, vec![0xAB; 64]] {
        let mut contract = HonkVerifierContract::new(HONK_ID);
        assert_eq!(
            contract.initialize(&env, bytes, 4),
            Err(HonkVerifierError::VkInvalidLength)
        );
    }
    let bad = [
        key(1, 0, 20, 1, 2),               // no rounds
        key(1 << 29, 29, 20, 1, 2),        // too many rounds
        key(63, 6, 20, 1, 2),              // size is not the power of two
        key(64, 6, 15, 1, 2),              // fewer inputs than the pairing check needs
        key(64, 6, 20, 65, 2),             // offset behind the end
        key(64, 6, 20, 1, 3),              // points that are not on the curve
    ];
    for bytes in bad {
        let mut contract = HonkVerifierContract::new(HONK_ID);
        assert_eq!(
            contract.initialize(&env, bytes, 4),
            Err(HonkVerifierError::VkInvalidParameters)
        );
        assert!(contract.vk.is_none());
    }
    // The bounds themselves are fine.
    for bytes in [key(2, 1, 16, 2, 2), key(1 << 28, 28, 16, 0, 2)] {
        let mut contract = HonkVerifierContract::new(HONK_ID);
        assert_eq!(contract.initialize(&env, bytes, 0), Ok(()));
    }
}

#[test]
fn commitments_are_points_with_canonical_coordinates() {
    let env = Env::default();
    let last_point = 32 + 64 * 26;
    let attempt = |bytes: Vec<u8>| {
        HonkVerifierContract::new(HONK_ID).initialize(&env, bytes, 4)
    };
    // Two zeros are the point at infinity.
    let mut infinity = good_key();
    infinity[last_point..].fill(0);
    assert_eq!(attempt(infinity), Ok(()));
    // The negative of the point is on the curve too.
    let mut negated = good_key();
    negated[last_point + 32..].copy_from_slice(&BASE_MODULUS);
    negated[last_point + 63] -= 2;
    assert_eq!(attempt(negated), Ok(()));
    // A coordinate at the modulus, or the modulus above a good one, is not canonical.
    let mut zero_again = good_key();
    zero_again[last_point..].fill(0);
    zero_again[last_point..last_point + 32].copy_from_slice(&BASE_MODULUS);
    assert_eq!(attempt(zero_again), Err(HonkVerifierError::VkInvalidParameters));
    let mut shifted = good_key();
    shifted[last_point..last_point + 32].copy_from_slice(&BASE_MODULUS);
    shifted[last_point + 31] += 1;
    assert_eq!(attempt(shifted), Err(HonkVerifierError::VkInvalidParameters));
    // One bad commitment among good ones is enough.
    let mut off = good_key();
    off[last_point + 63] = 4;
    assert_eq!(attempt(off), Err(HonkVerifierError::VkInvalidParameters));
}

#[test]
fn proofs_of_the_wrong_size_are_refused() {
    let env = Env::default();
    let mut contract = HonkVerifierContract::new(HONK_ID);
    assert_eq!(contract.initialize(&env, good_key(), 4), Ok(()));
    let inputs = vec![[0u8; 32]; 4];
    let proof = vec![0u8; PROOF_BYTES];
    let short = vec![0u8; PROOF_BYTES - 1];
    let long = vec![0u8; PROOF_BYTES + 1];
    assert_eq!(contract.run(&env, &short, &inputs), Verification::Refused);
    assert_eq!(contract.run(&env, &long, &inputs), Verification::Refused);
    assert_eq!(contract.run(&env, &proof, &inputs[..3].to_vec()), Verification::Refused);
    assert!(!contract.verify(&env, &short, &inputs));
}

#[test]
fn a_made_up_proof_does_not_hold() {
    let env = Env::default();
    let mut contract = HonkVerifierContract::new(HONK_ID);
    assert_eq!(contract.initialize(&env, good_key(), 4), Ok(()));
    let inputs = vec![[0u8; 32]; 4];
    for byte in [0u8, 1, 0xff] {
        let proof = vec![byte; PROOF_BYTES];
        assert_eq!(contract.run(&env, &proof, &inputs), Verification::Checked { valid: false });
        assert!(!contract.verify(&env, &proof, &inputs));
        assert!(!HonkVerifierInterface::verify(&contract, &env, &proof, &inputs));
    }
}

#[test]
fn a_key_that_does_not_parse_checks_nothing() {
    let env = Env::default();
    let contract = HonkVerifierContract {
        address: HONK_ID,
        vk: Some(zava::honk_verifier::VerificationKey {
            bytes: vec![0xAB; 64],
            num_public_inputs: 0,
        }),
    };
    let proof = vec![0u8; PROOF_BYTES];
    assert_eq!(contract.run(&env, &proof, &Vec::new()), Verification::KeyRejected);
    assert!(!contract.verify(&env, &proof, &Vec::new()));
}

#[test]
fn honk_error_numbers() {
    let errors = [
        HonkVerifierError::AlreadyInitialized,
        HonkVerifierError::NotInitialized,
        HonkVerifierError::PublicInputCountMismatch,
        HonkVerifierError::InvalidProofLength,
        HonkVerifierError::VkInvalidLength,
        HonkVerifierError::VkInvalidParameters,
    ];
    for (i, error) in errors.iter().enumerate() {
        assert_eq!(error.code(), i as u32 + 1);
    }
}

// ---------------------------------------------------------------------------
// Groth16
// ---------------------------------------------------------------------------

#[test]
fn groth16_key_is_embedded_once() {
    let mut contract = Groth16Contract::new();
    assert_eq!(contract.try_get_verification_key(), Err(Groth16Error::NotInitialized));
    assert_eq!(contract.try_get_num_public_inputs(), Err(Groth16Error::NotInitialized));
    assert_eq!(contract.initialize(vec![1, 2], 3), Ok(()));
    assert_eq!(contract.initialize(vec![9], 1), Err(Groth16Error::AlreadyInitialized));
    assert_eq!(contract.get_verification_key(), vec![1, 2]);
    assert_eq!(contract.get_num_public_inputs(), 3);
    assert_eq!(contract.try_get_verification_key(), Ok(vec![1, 2]));
    assert_eq!(contract.try_get_num_public_inputs(), Ok(3));
}

#[test]
fn groth16_structural_checks() {
    let mut contract = Groth16Contract::new();
    let proof = vec![0u8; 192];
    let inputs = vec![[0u8; 32]; 2];
    assert_eq!(contract.try_verify(&proof, &inputs), Err(Groth16Error::NotInitialized));
    assert_eq!(contract.initialize(vec![7], 2), Ok(()));
    assert_eq!(
        contract.try_verify(&proof, &vec![[0u8; 32]]),
        Err(Groth16Error::PublicInputCountMismatch)
    );
    assert_eq!(
        contract.try_verify(&vec![0u8; 191], &inputs),
        Err(Groth16Error::InvalidProofLength)
    );
    assert_eq!(
        contract.try_verify(&Vec::new(), &Vec::new()),
        Err(Groth16Error::PublicInputCountMismatch)
    );
    assert_eq!(contract.try_verify(&proof, &inputs), Ok(true));
    assert!(contract.verify(&proof, &inputs));
}

#[test]
fn groth16_needs_a_key_and_inputs() {
    let proof = vec![0u8; 192];
    let mut no_key = Groth16Contract::new();
    assert_eq!(no_key.initialize(Vec::new(), 1), Ok(()));
    assert_eq!(no_key.try_verify(&proof, &vec![[0u8; 32]]), Ok(false));
    let mut no_inputs = Groth16Contract::new();
    assert_eq!(no_inputs.initialize(vec![7], 0), Ok(()));
    assert_eq!(no_inputs.try_verify(&proof, &Vec::new()), Ok(false));
    assert!(!Groth16Contract::pairing_check(&vec![7], &Vec::new(), &vec![[0u8; 32]]));
}

#[test]
fn groth16_error_numbers() {
    assert_eq!(Groth16Error::AlreadyInitialized.code(), 1);
    assert_eq!(Groth16Error::NotInitialized.code(), 2);
    assert_eq!(Groth16Error::PublicInputCountMismatch.code(), 3);
    assert_eq!(Groth16Error::InvalidProofLength.code(), 4);
}
