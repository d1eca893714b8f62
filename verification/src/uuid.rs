//! A universally unique identifier, held as its 128 bits.

use vstd::prelude::*;

verus! {

/// A UUID, as the protocol sends it: 128 bits.
#[derive(Clone, Copy, PartialEq, Eq, Debug, Hash)]
pub struct Uuid {
    bits: u128,
}

impl View for Uuid {
    type V = u128;

    closed spec fn view(&self) -> u128 {
        self.bits
    }
}

impl DeepView for Uuid {
    type V = u128;

    open spec fn deep_view(&self) -> u128 {
        self@
    }
}

impl Uuid {
    /// The UUID with these 128 bits.
    pub fn from_u128(bits: u128) -> (u: Uuid)
        ensures
            u@ == bits,
    {
        Uuid { bits }
    }

    /// The 128 bits of this UUID.
    pub fn as_u128(&self) -> (bits: u128)
        ensures
            bits == self@,
    {
        self.bits
    }
}

/// What `uuid::Uuid::new_v3` gives for a namespace and a name (an MD5-based
/// UUID), both UUIDs taken as their 128 bits.
pub uninterp spec fn uuid_v3(namespace: u128, name: Seq<u8>) -> u128;

/// `uuid::Uuid::new_v3`: the name-based UUID of `name` in `namespace`; its
/// bits are a function of the namespace's bits and the name's bytes alone.
#[verifier::external_body]
fn new_v3_bits(namespace: u128, name: &[u8]) -> (r: u128)
    ensures
        r == uuid_v3(namespace, name@),
{
    ::uuid::Uuid::new_v3(&::uuid::Uuid::from_u128(namespace), name).as_u128()
}

impl Uuid {
    /// The name-based (version 3, MD5) UUID of `name` in `namespace`.
    pub fn new_v3(namespace: &Uuid, name: &[u8]) -> (u: Uuid)
        ensures
            u@ == uuid_v3(namespace@, name@),
    {
        Uuid { bits: new_v3_bits(namespace.bits, name) }
    }
}

} // verus!
