//! Queries over one immutable snapshot of the ledger: the transaction that the
//! validators agree on, each validator's latest report, the anchoring
//! addresses, the nearest anchor to a height, and the proof that binds a
//! ledger block to the anchoring chain.
use vstd::prelude::*;
use crate::chain::{AnchoredBlocks, AnchoringChain};
use crate::config::{address_of, Address, AnchoringConfig};
use crate::digest::{Digest, TxId};
use crate::quorum::{lemma_two_quorums_overlap, threshold, threshold_spec};
use crate::transactions::{classify, is_lect_kind, tx_payload, AnchoringTx, BitcoinTx, Payload, TxKind};

verus! {

/// Id of the anchoring service within the ledger's state.
pub const ANCHORING_SERVICE_ID: u16 = 3;

/// Index of the anchored-blocks table within the service's state.
pub const ANCHORED_BLOCKS_TABLE: u32 = 0;

/// Why a query failed.
#[derive(Debug, Clone, Copy, PartialEq, Eq)]
pub enum ApiError {
    /// The validator index is not one of the active configuration.
    UnknownValidatorId(u32),
    /// The height is above the highest committed ledger block.
    HeightOutOfRange(u64),
    /// A transaction that validators reported is neither an anchoring nor a
    /// funding transaction.
    ProtocolViolation,
}

/// Public information about an anchoring or funding transaction.
#[derive(Debug, Clone, PartialEq, Eq)]
pub struct AnchoringInfo {
    pub txid: TxId,
    /// The payload of an anchoring transaction; `None` for a funding one.
    pub payload: Option<Payload>,
}

/// A validator's report, with the ledger message that carried it.
#[derive(Debug, Clone, PartialEq, Eq)]
pub struct LectInfo {
    pub hash: Digest,
    pub content: AnchoringInfo,
}

/// One report of a validator: its latest anchoring transaction, the hash of
/// the ledger message that carried it and the ledger height it was recorded at.
#[derive(Debug, Clone, PartialEq, Eq)]
pub struct LectRecord {
    pub msg_hash: Digest,
    pub tx: BitcoinTx,
    pub height: u64,
}

/// Inclusion proof of a ledger block.
#[derive(Debug, Clone, PartialEq, Eq)]
pub struct BlockProof {
    pub height: u64,
    pub block_hash: Digest,
    pub state_root: Digest,
}

/// Proof that a table of a service is part of the committed state.
#[derive(Debug, Clone, PartialEq, Eq)]
pub struct TableProof {
    pub service_id: u16,
    pub table_index: u32,
    pub state_root: Digest,
}

/// Proof for one height of the anchored-blocks table: the block hash stored
/// there, or `None` when the height holds no entry.
#[derive(Debug, Clone, PartialEq, Eq)]
pub struct EntryProof {
    pub height: u64,
    pub block_hash: Option<Digest>,
    pub state_root: Digest,
}

/// A ledger block bound to the anchoring state: the latest block, the
/// anchoring table within the state, and the entry within the table.
#[derive(Debug, Clone, PartialEq, Eq)]
pub struct AnchoredBlockHeaderProof {
    pub latest_authorized_block: BlockProof,
    pub to_table: TableProof,
    pub to_block_header: EntryProof,
}

/// An immutable view of the ledger's storage.
#[derive(Debug)]
pub struct LedgerSnapshot {
    pub state_root: Digest,
    /// Hashes of the committed blocks, by height.
    pub block_hashes: Vec<Digest>,
    pub actual_config: AnchoringConfig,
    /// The configuration that takes over when a key rotation is under way.
    pub following_config: Option<AnchoringConfig>,
    /// Each validator's reports, by validator index, oldest first.
    pub lects: Vec<Vec<LectRecord>>,
    pub tx_chain: AnchoringChain,
    pub anchored_blocks: AnchoredBlocks,
}

/// Queries over a snapshot.
#[derive(Debug)]
pub struct PublicApi {
    pub snapshot: LedgerSnapshot,
}

/// `info` describes `tx`, which is an anchoring or a funding transaction.
pub open spec fn info_matches(info: AnchoringInfo, tx: BitcoinTx) -> bool {
    &&& is_lect_kind(tx)
    &&& info.txid@ == tx.id@
    &&& match info.payload {
        Some(p) => tx_payload(tx) == Some(p@),
        None => tx_payload(tx) is None,
    }
}

/// The latest report of validator `i`, if it made one.
pub open spec fn latest_lect(s: LedgerSnapshot, i: int) -> Option<LectRecord> {
    if 0 <= i < s.lects@.len() && s.lects@[i]@.len() > 0 {
        Some(s.lects@[i]@.last())
    } else {
        None
    }
}

/// Number of validators below index `k` whose latest report has the id `id`.
pub open spec fn votes(s: LedgerSnapshot, id: Seq<u8>, k: int) -> nat
    decreases k,
{
    if k <= 0 {
        0
    } else {
        votes(s, id, k - 1) + if latest_lect(s, k - 1) is Some && latest_lect(
            s,
            k - 1,
        ).unwrap().tx.id@ == id {
            1nat
        } else {
            0nat
        }
    }
}

/// The latest report of validator `i` is shared by a quorum of the active
/// configuration.
pub open spec fn in_quorum(s: LedgerSnapshot, i: int) -> bool {
    let n = s.actual_config@.len();
    &&& 0 <= i < n
    &&& latest_lect(s, i) is Some
    &&& votes(s, latest_lect(s, i).unwrap().tx.id@, n as int) >= threshold_spec(n)
}

/// `i` is the lowest validator index whose latest report a quorum shares.
pub open spec fn first_in_quorum(s: LedgerSnapshot, i: int) -> bool {
    in_quorum(s, i) && forall|j: int| 0 <= j < i ==> !in_quorum(s, j)
}

proof fn lemma_votes_bound(s: LedgerSnapshot, a: Seq<u8>, b: Seq<u8>, k: int)
    requires
        a != b,
        k >= 0,
    ensures
        votes(s, a, k) + votes(s, b, k) <= k,
    decreases k,
{
    if k > 0 {
        lemma_votes_bound(s, a, b, k - 1);
    }
}

/// All validators whose latest reports reach a quorum report the same
/// transaction id: two quorums of more than two thirds always overlap.
pub proof fn lemma_agreed_lect_unique(s: LedgerSnapshot, i: int, j: int)
    requires
        in_quorum(s, i),
        in_quorum(s, j),
    ensures
        latest_lect(s, i).unwrap().tx.id@ == latest_lect(s, j).unwrap().tx.id@,
{
    let n = s.actual_config@.len();
    let a = latest_lect(s, i).unwrap().tx.id@;
    let b = latest_lect(s, j).unwrap().tx.id@;
    if a != b {
        lemma_votes_bound(s, a, b, n as int);
        lemma_two_quorums_overlap(n, votes(s, a, n as int), votes(s, b, n as int));
    }
}

impl AnchoringInfo {
    /// Describes an anchoring or a funding transaction; any other transaction
    /// is a protocol violation.
    pub fn from_tx(tx: &BitcoinTx) -> (r: Result<AnchoringInfo, ApiError>)
        ensures
            match r {
                Ok(info) => info_matches(info, *tx),
                Err(e) => e == ApiError::ProtocolViolation && !is_lect_kind(*tx),
            },
    {
        match classify(tx) {
            TxKind::Anchoring(p) => Ok(AnchoringInfo { txid: tx.id.copy(), payload: Some(p) }),
            TxKind::FundingTx => Ok(AnchoringInfo { txid: tx.id.copy(), payload: None }),
            TxKind::Other => Err(ApiError::ProtocolViolation),
        }
    }
}

impl LectInfo {
    /// Describes a validator's report.
    pub fn from_record(rec: &LectRecord) -> (r: Result<LectInfo, ApiError>)
        ensures
            match r {
                Ok(info) => info.hash@ == rec.msg_hash@ && info_matches(info.content, rec.tx),
                Err(e) => e == ApiError::ProtocolViolation && !is_lect_kind(rec.tx),
            },
    {
        match AnchoringInfo::from_tx(&rec.tx) {
            Ok(content) => Ok(LectInfo { hash: rec.msg_hash.copy(), content }),
            Err(e) => Err(e),
        }
    }
}

impl PublicApi {
    /// The latest report of validator `i`.
    fn latest(&self, i: usize) -> (r: Option<&LectRecord>)
        ensures
            match r {
                Some(rec) => latest_lect(self.snapshot, i as int) == Some(*rec),
                None => latest_lect(self.snapshot, i as int) is None,
            },
    {
        let lects = &self.snapshot.lects;
        if i < lects.len() && lects[i].len() > 0 {
            Some(&lects[i][lects[i].len() - 1])
        } else {
            None
        }
    }

    /// Number of validators below `n` whose latest report has the id `id`.
    fn count_votes(&self, id: &TxId, n: usize) -> (r: usize)
        ensures
            r == votes(self.snapshot, id@, n as int),
    {
        let mut count: usize = 0;
        let mut k: usize = 0;
        while k < n
            invariant
                k <= n,
                count <= k,
                count == votes(self.snapshot, id@, k as int),
            decreases n - k,
        {
            if let Some(rec) = self.latest(k) {
                if rec.tx.id.equals(id) {
                    count += 1;
                }
            }
            k += 1;
        }
        count
    }

    /// The transaction that a quorum of the active validators reports as
    /// their latest: `None` while no quorum agrees, and a protocol violation
    /// when the agreed transaction is neither an anchoring nor a funding one.
    pub fn actual_lect(&self) -> (r: Result<Option<AnchoringInfo>, ApiError>)
        ensures
            match r {
                Ok(None) => forall|i: int| !in_quorum(self.snapshot, i),
                Ok(Some(info)) => {
                    &&& exists|i: int|
                        first_in_quorum(self.snapshot, i) && info_matches(
                            info,
                            latest_lect(self.snapshot, i).unwrap().tx,
                        )
                    &&& forall|i: int|
                        #[trigger] in_quorum(self.snapshot, i) ==> latest_lect(
                            self.snapshot,
                            i,
                        ).unwrap().tx.id@ == info.txid@
                },
                Err(e) => e == ApiError::ProtocolViolation && exists|i: int|
                    first_in_quorum(self.snapshot, i) && !is_lect_kind(
                        latest_lect(self.snapshot, i).unwrap().tx,
                    ),
            },
    {
        let n = self.snapshot.actual_config.len();
        let thr = threshold(n as u64);
        let mut i: usize = 0;
        while i < n
            invariant
                i <= n,
                n == self.snapshot.actual_config@.len(),
                thr == threshold_spec(n as nat),
                forall|j: int| 0 <= j < i ==> !in_quorum(self.snapshot, j),
            decreases n - i,
        {
            if let Some(rec) = self.latest(i) {
                let count = self.count_votes(&rec.tx.id, n);
                if count as u64 >= thr {
                    assert(first_in_quorum(self.snapshot, i as int));
                    proof {
                        assert forall|j: int| #[trigger]
                            in_quorum(self.snapshot, j) implies latest_lect(
                            self.snapshot,
                            j,
                        ).unwrap().tx.id@ == rec.tx.id@ by {
                            lemma_agreed_lect_unique(self.snapshot, i as int, j);
                        }
                    }
                    return match AnchoringInfo::from_tx(&rec.tx) {
                        Ok(info) => Ok(Some(info)),
                        Err(e) => Err(e),
                    };
                }
            }
            i += 1;
        }
        Ok(None)
    }

    /// The latest report of validator `id` of the active configuration;
    /// `None` when it has made none.
    pub fn current_lect_of_validator(&self, id: u32) -> (r: Result<Option<LectInfo>, ApiError>)
        ensures
            id >= self.snapshot.actual_config@.len() ==> r == Err::<Option<LectInfo>, ApiError>(
                ApiError::UnknownValidatorId(id),
            ),
            id < self.snapshot.actual_config@.len() ==> match latest_lect(
                self.snapshot,
                id as int,
            ) {
                None => r == Ok::<Option<LectInfo>, ApiError>(None),
                Some(rec) => match r {
                    Ok(Some(info)) => info.hash@ == rec.msg_hash@ && info_matches(
                        info.content,
                        rec.tx,
                    ),
                    Ok(None) => false,
                    Err(e) => e == ApiError::ProtocolViolation && !is_lect_kind(rec.tx),
                },
            },
    {
        if id as usize >= self.snapshot.actual_config.len() {
            return Err(ApiError::UnknownValidatorId(id));
        }
        match self.latest(id as usize) {
            None => Ok(None),
            Some(rec) => match LectInfo::from_record(rec) {
                Ok(info) => Ok(Some(info)),
                Err(e) => Err(e),
            },
        }
    }

    /// The address of the active configuration.
    pub fn actual_address(&self) -> (r: Address)
        ensures
            r@ == address_of(self.snapshot.actual_config@),
    {
        self.snapshot.actual_config.redeem_script().1
    }

    /// The address of the following configuration, while a key rotation is
    /// under way.
    pub fn following_address(&self) -> (r: Option<Address>)
        ensures
            match self.snapshot.following_config {
                Some(c) => r matches Some(a) && a@ == address_of(c@),
                None => r is None,
            },
    {
        match &self.snapshot.following_config {
            Some(c) => Some(c.redeem_script().1),
            None => None,
        }
    }

    /// The anchoring transaction recorded at the smallest height at or above
    /// `height`, if any.
    pub fn nearest_lect(&self, height: u64) -> (r: Option<&AnchoringTx>)
        ensures
            match r {
                Some(t) => exists|k: int|
                    0 <= k < self.snapshot.tx_chain.keys().len() && self.snapshot.tx_chain.keys()[k]
                        >= height && (forall|j: int|
                        0 <= j < k ==> self.snapshot.tx_chain.keys()[j] < height) && *t
                        == self.snapshot.tx_chain.txs()[k],
                None => forall|k: int|
                    0 <= k < self.snapshot.tx_chain.keys().len()
                        ==> self.snapshot.tx_chain.keys()[k] < height,
            },
    {
        self.snapshot.tx_chain.nearest_anchor(height)
    }

    /// Proof for the ledger block at `height`: the latest committed block, the
    /// anchoring table within the state and the table's entry at `height`,
    /// all taken from this one snapshot. Heights above the latest committed
    /// block are refused.
    pub fn anchored_block_header_proof(&self, height: u64) -> (r: Result<
        AnchoredBlockHeaderProof,
        ApiError,
    >)
        ensures
            ({
                let s = self.snapshot;
                let len = s.block_hashes@.len();
                match r {
                    Err(e) => e == ApiError::HeightOutOfRange(height) && height >= len,
                    Ok(p) => {
                        &&& height < len
                        &&& p.latest_authorized_block.height == len - 1
                        &&& p.latest_authorized_block.block_hash@ == s.block_hashes@[len - 1]@
                        &&& p.latest_authorized_block.state_root@ == s.state_root@
                        &&& p.to_table.service_id == ANCHORING_SERVICE_ID
                        &&& p.to_table.table_index == ANCHORED_BLOCKS_TABLE
                        &&& p.to_table.state_root@ == s.state_root@
                        &&& p.to_block_header.height == height
                        &&& p.to_block_header.state_root@ == s.state_root@
                        &&& match p.to_block_header.block_hash {
                            Some(h) => exists|k: int|
                                0 <= k < s.anchored_blocks.keys().len()
                                    && s.anchored_blocks.keys()[k] == height && h@
                                    == s.anchored_blocks.vals()[k]@,
                            None => forall|k: int|
                                0 <= k < s.anchored_blocks.keys().len()
                                    ==> s.anchored_blocks.keys()[k] != height,
                        }
                    },
                }
            }),
    {
        let s = &self.snapshot;
        let len = s.block_hashes.len();
        if len == 0 || height as usize >= len || height >= len as u64 {
            return Err(ApiError::HeightOutOfRange(height));
        }
        let max_height = len - 1;
        let latest_authorized_block = BlockProof {
            height: max_height as u64,
            block_hash: s.block_hashes[max_height].copy(),
            state_root: s.state_root.copy(),
        };
        let to_table = TableProof {
            service_id: ANCHORING_SERVICE_ID,
            table_index: ANCHORED_BLOCKS_TABLE,
            state_root: s.state_root.copy(),
        };
        let block_hash = match s.anchored_blocks.get(height) {
            Some(h) => Some(h.copy()),
            None => None,
        };
        let to_block_header = EntryProof { height, block_hash, state_root: s.state_root.copy() };
        Ok(AnchoredBlockHeaderProof { latest_authorized_block, to_table, to_block_header })
    }
}

impl EntryProof {
    /// The proof shows that the height holds no entry.
    pub fn is_non_membership(&self) -> (r: bool)
        ensures
            r == self.block_hash is None,
    {
        self.block_hash.is_none()
    }
}

impl AnchoredBlockHeaderProof {
    /// The three parts of the proof were taken against one state root.
    pub fn is_consistent(&self) -> (r: bool)
        ensures
            r == (self.latest_authorized_block.state_root@ == self.to_table.state_root@
                && self.to_table.state_root@ == self.to_block_header.state_root@),
    {
        self.latest_authorized_block.state_root.equals(&self.to_table.state_root)
            && self.to_table.state_root.equals(&self.to_block_header.state_root)
    }
}

} // verus!
