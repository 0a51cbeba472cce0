//! The 128-bit identifier value and the fields read from its bytes.
use vstd::prelude::*;

verus! {

/// A 128-bit identifier, held as its 16 bytes in big-endian order.
#[derive(Clone, Copy, Debug, PartialEq, Eq, Hash)]
pub struct Uuid {
    pub bytes: [u8; 16],
}

/// The version tag: the high nibble of byte 6.
pub open spec fn version_nibble(b: Seq<u8>) -> u8 {
    b[6] / 16
}

/// The variant bits of byte 8 are `10`, as for RFC 4122 identifiers.
pub open spec fn has_rfc_variant(b: Seq<u8>) -> bool {
    b[8] / 64 == 2
}

/// The big-endian value of the first `n` bytes.
pub open spec fn be_prefix(b: Seq<u8>, n: nat) -> nat
    decreases n,
{
    if n == 0 {
        0
    } else {
        be_prefix(b, (n - 1) as nat) * 256 + b[n - 1] as nat
    }
}

/// The 48-bit millisecond timestamp held in bytes 0 to 5.
pub open spec fn timestamp_of(b: Seq<u8>) -> nat {
    be_prefix(b, 6)
}

/// The big-endian value of a prefix depends only on the bytes in it.
pub proof fn lemma_be_prefix_same(a: Seq<u8>, b: Seq<u8>, n: nat)
    requires
        n <= a.len(),
        n <= b.len(),
        forall|i: int| 0 <= i < n ==> a[i] == b[i],
    ensures
        be_prefix(a, n) == be_prefix(b, n),
    decreases n,
{
    if n > 0 {
        lemma_be_prefix_same(a, b, (n - 1) as nat);
    }
}

pub proof fn lemma_high_nibble(b: u8)
    ensures
        b >> 4u8 == b / 16,
{
    assert(b >> 4u8 == b / 16) by (bit_vector);
}

impl Uuid {
    /// Wraps 16 bytes.
    pub fn from_bytes(bytes: [u8; 16]) -> (r: Uuid)
        ensures
            r.bytes == bytes,
    {
        Uuid { bytes }
    }

    /// The 16 bytes of the identifier.
    pub fn as_bytes(&self) -> (r: &[u8; 16])
        ensures
            *r == self.bytes,
    {
        &self.bytes
    }

    /// The version tag of the identifier.
    pub fn get_version_num(&self) -> (r: u8)
        ensures
            r == version_nibble(self.bytes@),
    {
        proof {
            lemma_high_nibble(self.bytes[6]);
        }
        self.bytes[6] >> 4
    }
}

} // verus!
