//! Identities and market identifiers: fixed-width byte strings compared
//! byte for byte.

use vstd::prelude::*;

verus! {

/// Whether two byte strings of the same width hold the same bytes.
pub fn bytes_equal<const N: usize>(a: &[u8; N], b: &[u8; N]) -> (same: bool)
    ensures
        same == (*a == *b),
{
    let mut i: usize = 0;
    while i < N
        invariant
            i <= N,
            forall|j: int| 0 <= j < i ==> a@[j] == b@[j],
        decreases N - i,
    {
        if a[i] != b[i] {
            return false;
        }
        i += 1;
    }
    assert(*a =~= *b);
    true
}

/// A participant or authority, named by a 32-byte public key.
#[derive(Clone, Copy, Debug, PartialEq, Eq)]
pub struct Identity {
    pub key: [u8; 32],
}

impl Identity {
    /// Whether `self` and `other` name the same party.
    pub fn same_as(&self, other: &Identity) -> (same: bool)
        ensures
            same == (*self == *other),
    {
        bytes_equal(&self.key, &other.key)
    }
}

/// An identity that the host's authorization gate has vouched for. The engine
/// takes the authority of a caller only in this form; it never checks a
/// signature or another proof of identity itself.
#[derive(Clone, Copy, Debug, PartialEq, Eq)]
pub struct VerifiedIdentity {
    identity: Identity,
}

impl View for VerifiedIdentity {
    type V = Identity;

    closed spec fn view(&self) -> Identity {
        self.identity
    }
}

impl VerifiedIdentity {
    /// Records that the authorization gate accepted `identity`.
    pub fn attest(identity: Identity) -> (token: VerifiedIdentity)
        ensures
            token@ == identity,
    {
        VerifiedIdentity { identity }
    }

    /// The identity that was vouched for.
    pub fn identity(&self) -> (identity: Identity)
        ensures
            identity == self@,
    {
        self.identity
    }
}

/// The name of a market: the 8-byte tag of the asset it is about. One market
/// exists per tag.
#[derive(Clone, Copy, Debug, PartialEq, Eq)]
pub struct MarketId {
    pub asset: [u8; 8],
}

impl MarketId {
    /// Whether `self` and `other` name the same market.
    pub fn same_as(&self, other: &MarketId) -> (same: bool)
        ensures
            same == (*self == *other),
    {
        bytes_equal(&self.asset, &other.asset)
    }
}

/// The name of a position: its place in the order in which the ledger
/// recorded the stakes, counted from zero.
pub type PositionId = u64;

} // verus!
