//! Bitcoin transactions as the anchoring protocol reads them, and their
//! classification into anchoring, funding and other transactions.
//!
//! An anchoring payload stands in the script of output 1:
//! `OP_RETURN`, one push of the data, and the data is the magic `EXONUM`,
//! the version byte 1, a kind byte (0: regular, 1: recovery), the ledger
//! height as 8 little-endian bytes and the 32-byte block hash; a recovery
//! payload ends with the 32-byte id of the previous anchoring transaction.
use vstd::prelude::*;
use crate::digest::{copy_range, Digest, TxId};

verus! {

pub const OP_RETURN: u8 = 0x6a;

pub const PAYLOAD_VERSION: u8 = 1;

pub const KIND_REGULAR: u8 = 0;

pub const KIND_RECOVER: u8 = 1;

/// Length of a regular payload script: opcode, push length and 48 data bytes.
pub const REGULAR_SCRIPT_LEN: usize = 50;

/// Length of a recovery payload script: opcode, push length and 80 data bytes.
pub const RECOVER_SCRIPT_LEN: usize = 82;

/// One output of a transaction.
#[derive(Debug, Clone, PartialEq, Eq)]
pub struct TxOut {
    pub value: u64,
    pub script: Vec<u8>,
}

/// A Bitcoin transaction: its id and its outputs.
#[derive(Debug, Clone, PartialEq, Eq)]
pub struct BitcoinTx {
    pub id: TxId,
    pub outputs: Vec<TxOut>,
}

/// What an anchoring transaction commits to.
#[derive(Debug, Clone, PartialEq, Eq)]
pub struct Payload {
    pub block_height: u64,
    pub block_hash: Digest,
    /// Set in a recovery payload: the previous anchoring transaction.
    pub prev_tx_chain: Option<TxId>,
}

/// The plain value of a payload.
pub struct PayloadModel {
    pub block_height: u64,
    pub block_hash: Seq<u8>,
    pub prev_tx_chain: Option<Seq<u8>>,
}

impl View for Payload {
    type V = PayloadModel;

    open spec fn view(&self) -> PayloadModel {
        PayloadModel {
            block_height: self.block_height,
            block_hash: self.block_hash@,
            prev_tx_chain: match self.prev_tx_chain {
                Some(h) => Some(h@),
                None => None,
            },
        }
    }
}

/// A transaction together with the payload found in it.
#[derive(Debug, Clone, PartialEq, Eq)]
pub struct AnchoringTx {
    pub tx: BitcoinTx,
    pub payload: Payload,
}

/// The role of a transaction in the protocol.
#[derive(Debug, Clone, PartialEq, Eq)]
pub enum TxKind {
    Anchoring(Payload),
    FundingTx,
    Other,
}

pub open spec fn magic() -> Seq<u8> {
    seq![0x45u8, 0x58u8, 0x4fu8, 0x4eu8, 0x55u8, 0x4du8]
}

/// Little-endian value of a byte sequence.
pub open spec fn le_value(s: Seq<u8>) -> nat
    decreases s.len(),
{
    if s.len() == 0 {
        0
    } else {
        s[0] as nat + 256 * le_value(s.drop_first())
    }
}

pub open spec fn pow256(k: nat) -> nat
    decreases k,
{
    if k == 0 {
        1
    } else {
        256 * pow256((k - 1) as nat)
    }
}

/// The script is `OP_RETURN` with one push of a well-formed payload.
pub open spec fn is_payload_script(s: Seq<u8>) -> bool {
    &&& s.len() >= 10
    &&& s[0] == OP_RETURN
    &&& s[1] as int == s.len() - 2
    &&& s.subrange(2, 8) == magic()
    &&& s[8] == PAYLOAD_VERSION
    &&& ((s[9] == KIND_REGULAR && s.len() == REGULAR_SCRIPT_LEN) || (s[9] == KIND_RECOVER
        && s.len() == RECOVER_SCRIPT_LEN))
}

/// The payload that a script holds, if it holds one.
pub open spec fn payload_of_script(s: Seq<u8>) -> Option<PayloadModel> {
    if is_payload_script(s) {
        Some(
            PayloadModel {
                block_height: le_value(s.subrange(10, 18)) as u64,
                block_hash: s.subrange(18, 50),
                prev_tx_chain: if s[9] == KIND_RECOVER {
                    Some(s.subrange(50, 82))
                } else {
                    None
                },
            },
        )
    } else {
        None
    }
}

/// The payload of a transaction: the one in the script of output 1.
pub open spec fn tx_payload(tx: BitcoinTx) -> Option<PayloadModel> {
    if tx.outputs@.len() > 1 {
        payload_of_script(tx.outputs@[1].script@)
    } else {
        None
    }
}

/// A pay-to-script-hash output script: `OP_HASH160 <20 bytes> OP_EQUAL`.
pub open spec fn is_p2sh_script(s: Seq<u8>) -> bool {
    s.len() == 23 && s[0] == 0xa9 && s[1] == 0x14 && s[22] == 0x87
}

/// Number of pay-to-script-hash outputs.
pub open spec fn p2sh_count(outs: Seq<TxOut>) -> nat
    decreases outs.len(),
{
    if outs.len() == 0 {
        0
    } else {
        p2sh_count(outs.drop_last()) + if is_p2sh_script(outs.last().script@) {
            1nat
        } else {
            0nat
        }
    }
}

/// A funding transaction carries no payload and pays exactly one script-hash output.
pub open spec fn is_funding_tx(tx: BitcoinTx) -> bool {
    tx_payload(tx) is None && p2sh_count(tx.outputs@) == 1
}

/// A transaction may stand as a validator's latest anchoring transaction.
pub open spec fn is_lect_kind(tx: BitcoinTx) -> bool {
    tx_payload(tx) is Some || is_funding_tx(tx)
}

/// Reads 8 bytes at `start` as a little-endian integer.
fn read_u64_le(s: &Vec<u8>, start: usize) -> (r: u64)
    requires
        start + 8 <= s.len(),
    ensures
        r as nat == le_value(s@.subrange(start as int, start + 8)),
{
    let mut acc: u64 = 0;
    let mut i: usize = 8;
    assert(pow256(8) == 0x1_0000_0000_0000_0000nat) by {
        reveal_with_fuel(pow256, 9);
    }
    while i > 0
        invariant
            i <= 8,
            start + 8 <= s.len(),
            acc as nat == le_value(s@.subrange(start + i, start + 8)),
            (acc as nat) < pow256((8 - i) as nat),
            pow256(8) == 0x1_0000_0000_0000_0000nat,
        decreases i,
    {
        i -= 1;
        let b = s[start + i];
        let ghost p = pow256((8 - i - 1) as nat);
        assert(s@.subrange(start + i, start + 8).drop_first() =~= s@.subrange(
            start + i + 1,
            start + 8,
        ));
        proof {
            lemma_pow256_monotone((8 - i) as nat, 8);
            assert((acc as nat) * 256 + (b as nat) < p * 256) by (nonlinear_arith)
                requires
                    (acc as nat) < p,
                    (b as nat) < 256,
            ;
        }
        acc = acc * 256 + b as u64;
    }
    acc
}

proof fn lemma_pow256_monotone(a: nat, b: nat)
    requires
        a <= b,
    ensures
        pow256(a) <= pow256(b),
    decreases b,
{
    if a < b {
        lemma_pow256_monotone(a, (b - 1) as nat);
    }
}

/// Parses the payload out of an output script; `None` for any script that is
/// not a well-formed payload.
pub fn parse_payload(s: &Vec<u8>) -> (r: Option<Payload>)
    ensures
        match r {
            Some(p) => payload_of_script(s@) == Some(p@),
            None => payload_of_script(s@) is None,
        },
{
    if s.len() < 10 || s[0] != OP_RETURN || s[1] as usize != s.len() - 2 {
        return None;
    }
    if s[2] != 0x45 || s[3] != 0x58 || s[4] != 0x4f || s[5] != 0x4e || s[6] != 0x55 || s[7]
        != 0x4d {
        assert(s@.subrange(2, 8) != magic()) by {
            assert(s@.subrange(2, 8)[0] == s@[2]);
            assert(s@.subrange(2, 8)[1] == s@[3]);
            assert(s@.subrange(2, 8)[2] == s@[4]);
            assert(s@.subrange(2, 8)[3] == s@[5]);
            assert(s@.subrange(2, 8)[4] == s@[6]);
            assert(s@.subrange(2, 8)[5] == s@[7]);
        }
        return None;
    }
    assert(s@.subrange(2, 8) =~= magic());
    if s[8] != PAYLOAD_VERSION {
        return None;
    }
    let recover = if s[9] == KIND_REGULAR && s.len() == REGULAR_SCRIPT_LEN {
        false
    } else if s[9] == KIND_RECOVER && s.len() == RECOVER_SCRIPT_LEN {
        true
    } else {
        return None;
    };
    let block_height = read_u64_le(s, 10);
    let block_hash = Digest::new(copy_range(s, 18, 50));
    let prev_tx_chain = if recover {
        Some(Digest::new(copy_range(s, 50, 82)))
    } else {
        None
    };
    Some(Payload { block_height, block_hash, prev_tx_chain })
}

/// Classifies a transaction. Every transaction gets a kind: one whose output 1
/// holds a payload is an anchoring transaction, one without a payload that
/// pays exactly one script-hash output is a funding transaction, and any
/// other is `Other`.
pub fn classify(tx: &BitcoinTx) -> (r: TxKind)
    ensures
        match r {
            TxKind::Anchoring(p) => tx_payload(*tx) == Some(p@),
            TxKind::FundingTx => is_funding_tx(*tx),
            TxKind::Other => !is_lect_kind(*tx),
        },
{
    if tx.outputs.len() > 1 {
        if let Some(p) = parse_payload(&tx.outputs[1].script) {
            return TxKind::Anchoring(p);
        }
    }
    let mut count: usize = 0;
    let mut i: usize = 0;
    while i < tx.outputs.len()
        invariant
            i <= tx.outputs.len(),
            count <= i,
            count as nat == p2sh_count(tx.outputs@.subrange(0, i as int)),
        decreases tx.outputs.len() - i,
    {
        let s = &tx.outputs[i].script;
        let is_p2sh = s.len() == 23 && s[0] == 0xa9 && s[1] == 0x14 && s[22] == 0x87;
        assert(tx.outputs@.subrange(0, i + 1).drop_last() =~= tx.outputs@.subrange(0, i as int));
        if is_p2sh {
            count += 1;
        }
        i += 1;
    }
    assert(tx.outputs@.subrange(0, i as int) =~= tx.outputs@);
    if count == 1 {
        TxKind::FundingTx
    } else {
        TxKind::Other
    }
}

} // verus!
