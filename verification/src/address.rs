//! Ledger addresses and the bytes that they serialise to.
use crate::bytes::{same_word, Bytes32};
use soroban_sdk::address_payload::AddressPayload;
use soroban_sdk::xdr::ToXdr;
use soroban_sdk::{BytesN, Env};
use vstd::prelude::*;

verus! {

/// The address of an account or of a contract.
#[derive(Clone, Copy, Debug, PartialEq, Eq)]
pub enum Address {
    /// An account, by its Ed25519 public key.
    Account(Bytes32),
    /// A contract, by its identifier.
    Contract(Bytes32),
}

/// The XDR form of an address value: the value's type, the kind of address, for
/// an account the kind of key, and the 32 bytes of the key or identifier.
pub open spec fn address_xdr(address: Address) -> Seq<u8> {
    match address {
        Address::Account(key) => seq![0u8, 0, 0, 18, 0, 0, 0, 0, 0, 0, 0, 0] + key@,
        Address::Contract(id) => seq![0u8, 0, 0, 18, 0, 0, 0, 1] + id@,
    }
}

/// `ToXdr::to_xdr` on the address that `Address::from_payload` makes of the same
/// key or identifier: claimed to write the layout of [`address_xdr`].
#[verifier::external_body]
fn serialize(env: &Env, address: &Address) -> (r: Vec<u8>)
    ensures
        r@ == address_xdr(*address),
{
    let payload = match address {
        Address::Account(key) => AddressPayload::AccountIdPublicKeyEd25519(
            BytesN::from_array(env, key),
        ),
        Address::Contract(id) => AddressPayload::ContractIdHash(BytesN::from_array(env, id)),
    };
    soroban_sdk::Address::from_payload(env, payload).to_xdr(env).iter().collect()
}

impl Address {
    /// The XDR form of this address.
    pub fn to_xdr(&self, env: &Env) -> (r: Vec<u8>)
        ensures
            r@ == address_xdr(*self),
    {
        serialize(env, self)
    }

    /// Whether two addresses are the same.
    pub fn is(&self, other: &Address) -> (r: bool)
        ensures
            r == (*self == *other),
    {
        match (self, other) {
            (Address::Account(a), Address::Account(b)) => same_word(a, b),
            (Address::Contract(a), Address::Contract(b)) => same_word(a, b),
            _ => false,
        }
    }
}

/// Different addresses serialise to different bytes.
pub proof fn law_address_xdr_is_injective(a: Address, b: Address)
    requires
        address_xdr(a) == address_xdr(b),
    ensures
        a == b,
{
    let x = address_xdr(a);
    let y = address_xdr(b);
    assert(x.len() == y.len());
    match (a, b) {
        (Address::Account(k), Address::Account(l)) => {
            assert(k@ =~= x.subrange(12, 44));
            assert(l@ =~= y.subrange(12, 44));
            assert(k =~= l);
        },
        (Address::Contract(k), Address::Contract(l)) => {
            assert(k@ =~= x.subrange(8, 40));
            assert(l@ =~= y.subrange(8, 40));
            assert(k =~= l);
        },
        _ => {
            assert(false);
        },
    }
}

} // verus!
