//! Binary digests: transaction ids, block hashes and state roots.
use vstd::prelude::*;

verus! {

/// A digest held as its bytes.
#[derive(Debug, Clone, PartialEq, Eq)]
pub struct Digest {
    pub bytes: Vec<u8>,
}

/// Id of a Bitcoin transaction.
pub type TxId = Digest;

impl View for Digest {
    type V = Seq<u8>;

    open spec fn view(&self) -> Seq<u8> {
        self.bytes@
    }
}

impl Digest {
    /// The digest with the given bytes.
    pub fn new(bytes: Vec<u8>) -> (r: Digest)
        ensures
            r@ == bytes@,
    {
        Digest { bytes }
    }

    /// An independent copy of the digest.
    pub fn copy(&self) -> (r: Digest)
        ensures
            r@ == self@,
    {
        let bytes = self.bytes.clone();
        assert(bytes@ =~= self.bytes@);
        Digest { bytes }
    }

    /// Byte-wise equality of two digests.
    pub fn equals(&self, other: &Digest) -> (r: bool)
        ensures
            r == (self@ == other@),
    {
        if self.bytes.len() != other.bytes.len() {
            return false;
        }
        let mut i: usize = 0;
        while i < self.bytes.len()
            invariant
                self.bytes.len() == other.bytes.len(),
                i <= self.bytes.len(),
                forall|k: int| 0 <= k < i ==> self@[k] == other@[k],
            decreases self.bytes.len() - i,
        {
            if self.bytes[i] != other.bytes[i] {
                assert(self@[i as int] != other@[i as int]);
                return false;
            }
            i += 1;
        }
        assert(self@ =~= other@);
        true
    }
}

/// The bytes `s[start..end]` as a new vector.
pub fn copy_range(s: &Vec<u8>, start: usize, end: usize) -> (r: Vec<u8>)
    requires
        start <= end <= s.len(),
    ensures
        r@ == s@.subrange(start as int, end as int),
{
    let mut r: Vec<u8> = Vec::new();
    let mut i: usize = start;
    while i < end
        invariant
            start <= i <= end <= s.len(),
            r@ == s@.subrange(start as int, i as int),
        decreases end - i,
    {
        r.push(s[i]);
        assert(r@ =~= s@.subrange(start as int, i + 1));
        i += 1;
    }
    r
}

} // verus!
