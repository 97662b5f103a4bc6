//! The calls that this library makes into the Soroban SDK: the hash and the
//! keyed slots that the note tree is kept in.
//!
//! Nothing here is proved. Each item says what it claims of the function that
//! it calls; the rest of the library is verified against those claims. They speak
//! of calls that return: the host may abort any call once the resource budget of
//! its transaction is spent.
use crate::bytes::Bytes32;
use soroban_sdk::{Bytes, BytesN, Env};
use vstd::prelude::*;

verus! {

/// The host environment. The library only hands it on to the calls below.
#[verifier::external_type_specification]
#[verifier::external_body]
pub struct ExEnv(soroban_sdk::Env);

/// A host-held byte string of fixed length.
#[verifier::external_type_specification]
#[verifier::external_body]
pub struct ExBytesN<const N: usize>(soroban_sdk::BytesN<N>);

/// A host-held ordered dictionary.
#[verifier::external_type_specification]
#[verifier::external_body]
#[verifier::reject_recursive_types(K)]
#[verifier::reject_recursive_types(V)]
pub struct ExMap<K, V>(soroban_sdk::Map<K, V>);

/// Numbered slots that each hold at most one word.
pub type Slots = soroban_sdk::Map<u32, BytesN<32>>;

/// What a set of slots holds: for each number whose entry is a 32-byte string,
/// that string.
pub uninterp spec fn slots(m: soroban_sdk::Map<u32, BytesN<32>>) -> Map<u32, Bytes32>;

/// The SHA-256 digest of a byte string.
pub uninterp spec fn sha256_digest(data: Seq<u8>) -> Bytes32;

/// `Crypto::sha256`: claimed to depend on the bytes alone. The host counts
/// lengths in 32 bits, so longer inputs are left out.
#[verifier::external_body]
pub(crate) fn sha256(env: &Env, data: &Vec<u8>) -> (digest: Bytes32)
    requires
        data@.len() <= u32::MAX,
    ensures
        digest == sha256_digest(data@),
{
    env.crypto().sha256(&Bytes::from_slice(env, data)).to_array()
}

/// `Map::new`: claimed to hold nothing.
#[verifier::external_body]
pub(crate) fn new_slots(env: &Env) -> (m: Slots)
    ensures
        (slots(m) == Map::<u32, Bytes32>::empty()),
{
    soroban_sdk::Map::new(env)
}

/// `Map::try_get`: claimed to return the word that slot `k` holds, and nothing
/// where the slot is empty or its entry is no 32-byte string.
#[verifier::external_body]
pub(crate) fn slot(m: &Slots, k: u32) -> (r: Option<Bytes32>)
    ensures
        r == (if slots(*m).contains_key(k) {
            Some(slots(*m)[k])
        } else {
            None::<Bytes32>
        }),
{
    m.try_get(k).ok().flatten().map(|word| word.to_array())
}

/// `Map::set`: claimed to put `word` into slot `k`, in place of what was there,
/// and to leave every other slot alone.
#[verifier::external_body]
pub(crate) fn set_slot(m: &mut Slots, k: u32, word: &Bytes32)
    ensures
        slots(*final(m)) == slots(*old(m)).insert(k, *word),
{
    let entry = BytesN::from_array(m.env(), word);
    m.set(k, entry);
}

} // verus!
