//! Identifiers: 128-bit values rendered in the hyphenated UUID form.
use vstd::prelude::*;

verus! {

/// The lowercase hexadecimal digit for `d` (`d < 16`).
pub open spec fn hex_digit(d: nat) -> char {
    if d < 10 {
        (d + 48) as char
    } else {
        (d + 87) as char
    }
}

/// The 32 lowercase hex digits of `v`, most significant first.
pub open spec fn uuid_simple(v: u128) -> Seq<char> {
    Seq::new(32, |i: int| hex_digit(((v as nat) / vstd::arithmetic::power::pow(16, (31 - i) as nat) as nat) % 16))
}

/// The hyphenated form `xxxxxxxx-xxxx-xxxx-xxxx-xxxxxxxxxxxx` of `v`.
pub open spec fn uuid_hyphenated(v: u128) -> Seq<char> {
    let s = uuid_simple(v);
    s.subrange(0, 8) + seq!['-'] + s.subrange(8, 12) + seq!['-'] + s.subrange(12, 16) + seq!['-']
        + s.subrange(16, 20) + seq!['-'] + s.subrange(20, 32)
}

/// `v` has the version and variant bits of a random (version 4) UUID.
pub open spec fn is_random_uuid(v: u128) -> bool {
    &&& (v >> 76u128) & 0xfu128 == 4
    &&& (v >> 62u128) & 0x3u128 == 2
}

/// Calls `uuid::Uuid::new_v4()` and returns its 128-bit value. Claimed of the
/// result only what uuid's source sets on every outcome: the version nibble is 4
/// and the variant bits are `10`.
#[verifier::external_body]
pub(crate) fn random_uuid() -> (v: u128)
    ensures
        is_random_uuid(v),
{
    uuid::Uuid::new_v4().as_u128()
}

/// Calls `uuid::Uuid::from_u128(v).to_string()`. uuid formats a value as 32
/// lowercase hex digits, most significant first, with hyphens after the 8th,
/// 12th, 16th and 20th digit; the contract states exactly that.
#[verifier::external_body]
pub(crate) fn uuid_to_string(v: u128) -> (s: String)
    ensures
        s@ == uuid_hyphenated(v),
{
    uuid::Uuid::from_u128(v).to_string()
}

/// Opaque identifier for any node in the document tree.
#[derive(Debug, Clone, Copy, PartialEq, Eq, Hash, Structural)]
pub struct NodeId(pub u128);

impl NodeId {
    /// A fresh random identifier.
    pub fn new() -> (r: Self)
        ensures
            is_random_uuid(r.0),
    {
        NodeId(random_uuid())
    }

    /// The hyphenated UUID text of this identifier.
    pub fn to_string(&self) -> (s: String)
        ensures
            s@ == uuid_hyphenated(self.0),
    {
        uuid_to_string(self.0)
    }
}

impl Default for NodeId {
    fn default() -> (r: Self)
        ensures
            is_random_uuid(r.0),
    {
        NodeId::new()
    }
}

} // verus!
