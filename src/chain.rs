//! Indexes keyed by ledger height, kept in strictly increasing order of
//! height and searched by bisection: the chain of anchoring transactions and
//! the table of anchored block hashes.
use vstd::prelude::*;
use crate::digest::Digest;
use crate::transactions::AnchoringTx;

verus! {

/// Why an entry was not appended.
#[derive(Debug, Clone, Copy, PartialEq, Eq)]
pub enum ChainError {
    /// The height is not above the highest height already indexed.
    HeightNotIncreasing,
    /// The anchor commits to a ledger height above its own height.
    PayloadAboveEntry,
}

pub open spec fn strictly_increasing(s: Seq<u64>) -> bool {
    forall|i: int, j: int| 0 <= i < j < s.len() ==> s[i] < s[j]
}

/// Index of the first height at or above `h`, found by bisection.
pub fn lower_bound(heights: &Vec<u64>, h: u64) -> (r: usize)
    requires
        strictly_increasing(heights@),
    ensures
        r <= heights.len(),
        forall|k: int| 0 <= k < r ==> heights@[k] < h,
        forall|k: int| r <= k < heights.len() ==> heights@[k] >= h,
{
    let mut lo: usize = 0;
    let mut hi: usize = heights.len();
    while lo < hi
        invariant
            lo <= hi <= heights.len(),
            strictly_increasing(heights@),
            forall|k: int| 0 <= k < lo ==> heights@[k] < h,
            forall|k: int| hi <= k < heights.len() ==> heights@[k] >= h,
        decreases hi - lo,
    {
        let mid = lo + (hi - lo) / 2;
        if heights[mid] < h {
            lo = mid + 1;
        } else {
            hi = mid;
        }
    }
    lo
}

/// Values keyed by height, in strictly increasing order of height.
#[derive(Debug)]
pub struct HeightIndex<V> {
    heights: Vec<u64>,
    values: Vec<V>,
}

impl<V> HeightIndex<V> {
    /// The heights, in order.
    pub closed spec fn keys(&self) -> Seq<u64> {
        self.heights@
    }

    /// The values, in the order of their heights.
    pub closed spec fn vals(&self) -> Seq<V> {
        self.values@
    }

    /// As many heights as values, in strictly increasing order.
    pub open spec fn wf(&self) -> bool {
        &&& self.keys().len() == self.vals().len()
        &&& strictly_increasing(self.keys())
    }

    #[verifier::type_invariant]
    spec fn inv(&self) -> bool {
        self.wf()
    }

    /// An empty index.
    pub fn new() -> (r: Self)
        ensures
            r.keys() == Seq::<u64>::empty(),
            r.vals() == Seq::<V>::empty(),
    {
        HeightIndex { heights: Vec::new(), values: Vec::new() }
    }

    /// Number of entries; every index is well formed.
    pub fn len(&self) -> (r: usize)
        ensures
            r == self.keys().len(),
            self.wf(),
    {
        proof {
            use_type_invariant(self);
        }
        self.heights.len()
    }

    /// The highest height indexed, if any.
    pub fn max_height(&self) -> (r: Option<u64>)
        ensures
            r == (if self.keys().len() == 0 {
                None
            } else {
                Some(self.keys().last())
            }),
    {
        proof {
            use_type_invariant(self);
        }
        if self.heights.len() == 0 {
            None
        } else {
            Some(self.heights[self.heights.len() - 1])
        }
    }

    /// Adds a value at a height above every height indexed so far; any other
    /// height is refused and the index is left as it was.
    pub fn append(&mut self, height: u64, value: V) -> (r: Result<(), ChainError>)
        ensures
            r is Ok <==> (old(self).keys().len() == 0 || old(self).keys().last() < height),
            r is Ok ==> final(self).keys() == old(self).keys().push(height) && final(self).vals()
                == old(self).vals().push(value),
            r is Err ==> r == Err::<(), ChainError>(ChainError::HeightNotIncreasing)
                && final(self).keys() == old(self).keys() && final(self).vals() == old(self).vals(),
    {
        proof {
            use_type_invariant(&*self);
        }
        let n = self.heights.len();
        if n > 0 && self.heights[n - 1] >= height {
            return Err(ChainError::HeightNotIncreasing);
        }
        let mut taken = HeightIndex::new();
        std::mem::swap(self, &mut taken);
        proof {
            use_type_invariant(&taken);
        }
        let HeightIndex { mut heights, mut values } = taken;
        heights.push(height);
        values.push(value);
        *self = HeightIndex { heights, values };
        Ok(())
    }

    /// The value with the smallest height at or above `h`, if any.
    pub fn nearest(&self, h: u64) -> (r: Option<&V>)
        ensures
            match r {
                Some(v) => exists|k: int|
                    0 <= k < self.keys().len() && self.keys()[k] >= h && (forall|j: int|
                        0 <= j < k ==> self.keys()[j] < h) && *v == self.vals()[k],
                None => forall|k: int| 0 <= k < self.keys().len() ==> self.keys()[k] < h,
            },
    {
        proof {
            use_type_invariant(self);
        }
        let k = lower_bound(&self.heights, h);
        if k < self.values.len() {
            Some(&self.values[k])
        } else {
            None
        }
    }

    /// The value at exactly height `h`, if there is one.
    pub fn get(&self, h: u64) -> (r: Option<&V>)
        ensures
            match r {
                Some(v) => exists|k: int|
                    0 <= k < self.keys().len() && self.keys()[k] == h && *v == self.vals()[k],
                None => forall|k: int| 0 <= k < self.keys().len() ==> self.keys()[k] != h,
            },
    {
        proof {
            use_type_invariant(self);
        }
        let k = lower_bound(&self.heights, h);
        if k < self.values.len() && self.heights[k] == h {
            Some(&self.values[k])
        } else {
            None
        }
    }
}

/// The anchoring transactions that the ledger committed to, keyed by the
/// ledger height at which each was recorded. An anchor commits to a ledger
/// height no later than its own.
#[derive(Debug)]
pub struct AnchoringChain {
    index: HeightIndex<AnchoringTx>,
}

impl AnchoringChain {
    /// The entries' heights, in order.
    pub closed spec fn keys(&self) -> Seq<u64> {
        self.index.keys()
    }

    /// The entries' transactions, in order.
    pub closed spec fn txs(&self) -> Seq<AnchoringTx> {
        self.index.vals()
    }

    /// Heights strictly increasing, and each anchor commits to a ledger
    /// height no later than its own.
    pub open spec fn wf(&self) -> bool {
        &&& self.keys().len() == self.txs().len()
        &&& strictly_increasing(self.keys())
        &&& forall|k: int|
            0 <= k < self.keys().len() ==> self.txs()[k].payload.block_height <= self.keys()[k]
    }

    #[verifier::type_invariant]
    spec fn inv(&self) -> bool {
        forall|k: int|
            0 <= k < self.index.keys().len() ==> self.index.vals()[k].payload.block_height
                <= self.index.keys()[k]
    }

    /// An empty chain.
    pub fn new() -> (r: Self)
        ensures
            r.keys() == Seq::<u64>::empty(),
            r.txs() == Seq::<AnchoringTx>::empty(),
    {
        AnchoringChain { index: HeightIndex::new() }
    }

    /// Number of anchors; every chain is well formed.
    pub fn len(&self) -> (r: usize)
        ensures
            r == self.keys().len(),
            self.wf(),
    {
        proof {
            use_type_invariant(self);
            use_type_invariant(&self.index);
        }
        self.index.len()
    }

    /// Appends an anchor recorded at `height`. It is refused when `height` is
    /// not above the current maximum, or when the anchor commits to a ledger
    /// height above `height`; the chain is then left as it was.
    pub fn append(&mut self, height: u64, tx: AnchoringTx) -> (r: Result<(), ChainError>)
        ensures
            match r {
                Ok(()) => {
                    &&& tx.payload.block_height <= height
                    &&& (old(self).keys().len() == 0 || old(self).keys().last() < height)
                    &&& final(self).keys() == old(self).keys().push(height)
                    &&& final(self).txs() == old(self).txs().push(tx)
                },
                Err(e) => {
                    &&& final(self).keys() == old(self).keys()
                    &&& final(self).txs() == old(self).txs()
                    &&& (e == ChainError::PayloadAboveEntry <==> tx.payload.block_height > height)
                    &&& (e == ChainError::HeightNotIncreasing <==> (tx.payload.block_height
                        <= height && old(self).keys().len() > 0 && old(self).keys().last()
                        >= height))
                },
            },
    {
        proof {
            use_type_invariant(&*self);
        }
        if tx.payload.block_height > height {
            return Err(ChainError::PayloadAboveEntry);
        }
        let ghost tx0 = tx;
        let mut taken = AnchoringChain::new();
        std::mem::swap(self, &mut taken);
        proof {
            use_type_invariant(&taken);
        }
        let ghost before = taken;
        let AnchoringChain { mut index } = taken;
        proof {
            use_type_invariant(&index);
        }
        let r = index.append(height, tx);
        proof {
            if r is Ok {
                assert forall|k: int| 0 <= k < index.keys().len() implies index.vals()[k].payload.block_height
                    <= index.keys()[k] by {
                    if k < before.keys().len() {
                        assert(index.vals()[k] == before.txs()[k]);
                    } else {
                        assert(index.vals()[k] == tx0);
                    }
                }
            }
        }
        *self = AnchoringChain { index };
        proof {
            use_type_invariant(&*self);
        }
        r
    }

    /// The anchor with the smallest height at or above `min_height`; `None`
    /// when the chain is empty or every anchor stands below `min_height`.
    pub fn nearest_anchor(&self, min_height: u64) -> (r: Option<&AnchoringTx>)
        ensures
            match r {
                Some(t) => exists|k: int|
                    0 <= k < self.keys().len() && self.keys()[k] >= min_height && (forall|j: int|
                        0 <= j < k ==> self.keys()[j] < min_height) && *t == self.txs()[k],
                None => forall|k: int|
                    0 <= k < self.keys().len() ==> self.keys()[k] < min_height,
            },
    {
        let r = self.index.nearest(min_height);
        proof {
            if let Some(t) = r {
                let k = choose|k: int|
                    0 <= k < self.index.keys().len() && self.index.keys()[k] >= min_height
                        && (forall|j: int| 0 <= j < k ==> self.index.keys()[j] < min_height) && *t
                        == self.index.vals()[k];
                assert(self.keys()[k] >= min_height && *t == self.txs()[k]);
            }
        }
        r
    }
}

/// Block hashes of the anchored ledger blocks, keyed by ledger height.
pub type AnchoredBlocks = HeightIndex<Digest>;

} // verus!
