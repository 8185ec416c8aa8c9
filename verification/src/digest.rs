//! Identifiers of blocks and fragments: 32-byte digests.

use vstd::prelude::*;

verus! {

/// The number of bytes in a digest.
pub const DIGEST_SIZE: usize = 32;

/// A 32-byte digest that identifies a block or a fragment.
#[derive(Clone, Copy, Debug)]
pub struct Digest {
    bytes: [u8; 32],
}

impl View for Digest {
    type V = Seq<u8>;

    closed spec fn view(&self) -> Seq<u8> {
        self.bytes@
    }
}

impl Digest {
    /// The digest made of the given bytes.
    pub fn from_bytes(bytes: [u8; 32]) -> (digest: Digest)
        ensures
            digest@ == bytes@,
    {
        Digest { bytes }
    }

    /// The bytes of the digest.
    pub fn as_bytes(&self) -> (bytes: &[u8; 32])
        ensures
            bytes@ == self@,
    {
        &self.bytes
    }

    /// Whether the two digests hold the same bytes.
    pub fn same(&self, other: &Digest) -> (equal: bool)
        ensures
            equal == (self@ == other@),
    {
        let mut i: usize = 0;
        while i < DIGEST_SIZE
            invariant
                i <= DIGEST_SIZE,
                forall|k: int| 0 <= k < i ==> self.bytes@[k] == other.bytes@[k],
            decreases DIGEST_SIZE - i,
        {
            if self.bytes[i] != other.bytes[i] {
                return false;
            }
            i = i + 1;
        }
        assert(self.bytes@ =~= other.bytes@);
        true
    }
}

/// The views of two sequences of digests.
pub open spec fn digests_view(digests: Seq<Digest>) -> Seq<Seq<u8>> {
    digests.map_values(|digest: Digest| digest@)
}

/// Whether the two lists hold the same digests in the same order.
pub fn same_digests(left: &Vec<Digest>, right: &Vec<Digest>) -> (equal: bool)
    ensures
        equal == (digests_view(left@) == digests_view(right@)),
{
    if left.len() != right.len() {
        assert(digests_view(left@).len() != digests_view(right@).len());
        return false;
    }
    let mut i: usize = 0;
    while i < left.len()
        invariant
            i <= left.len(),
            left.len() == right.len(),
            forall|k: int| 0 <= k < i ==> left@[k]@ == right@[k]@,
        decreases left.len() - i,
    {
        if !left[i].same(&right[i]) {
            assert(digests_view(left@)[i as int] == left@[i as int]@);
            assert(digests_view(right@)[i as int] == right@[i as int]@);
            return false;
        }
        i = i + 1;
    }
    assert(digests_view(left@) =~= digests_view(right@));
    true
}

} // verus!
