//! Privacy-preserving savings, credit and payments.
//!
//! Six contracts are modelled as state machines over plain values: the shielded
//! vault ([`zava_vault`]), credit backed by it ([`zava_credit`]), the savings
//! ledger ([`savings`]), credit backed by that ([`credit_verifier`]), and the two proof
//! verifiers ([`honk_verifier`], [`groth16`]).
pub mod address;
pub mod bytes;
pub mod claim_words;
pub mod credit_laws;
pub mod credit_rules;
pub mod credit_verifier;
pub mod groth16;
pub mod honk_verifier;
pub mod host;
pub mod merkle;
pub mod savings;
pub mod table;
pub mod vault_laws;
pub mod vault_rules;
pub mod zava_credit;
pub mod zava_vault;
