//! The anchoring configuration: the validators' Bitcoin keys, and the
//! multisignature redeem script and pay-to-script-hash address built on them.
use vstd::prelude::*;
use crate::quorum::{threshold, threshold_spec};

verus! {

/// Length of a compressed public key.
pub const PUBLIC_KEY_LEN: usize = 33;

/// Most keys that a standard multisignature script holds.
pub const MAX_KEYS: usize = 16;

pub const OP_PUSHNUM_BASE: u8 = 0x50;

pub const OP_CHECKMULTISIG: u8 = 0xae;

/// Why a configuration was refused.
#[derive(Debug, Clone, Copy, PartialEq, Eq)]
pub enum ConfigError {
    /// No keys, or more than a multisignature script holds.
    KeyCount,
    /// A key is not a compressed public key.
    KeyLength,
}

/// The validators' anchoring keys, in validator order.
#[derive(Debug)]
pub struct AnchoringConfig {
    anchoring_keys: Vec<Vec<u8>>,
}

/// A pay-to-script-hash address: the HASH160 of a redeem script.
#[derive(Debug, Clone, PartialEq, Eq)]
pub struct Address {
    pub script_hash: Vec<u8>,
}

impl View for Address {
    type V = Seq<u8>;

    open spec fn view(&self) -> Seq<u8> {
        self.script_hash@
    }
}

/// HASH160 (RIPEMD-160 of SHA-256) of a byte string.
pub uninterp spec fn hash160_of(data: Seq<u8>) -> Seq<u8>;

/// Relies on `bitcoin_hashes::hash160::Hash::hash`: the HASH160 digest of the
/// bytes, which depends on the bytes alone and is 20 bytes long.
#[verifier::external_body]
fn hash160(data: &Vec<u8>) -> (r: Vec<u8>)
    ensures
        r@ == hash160_of(data@),
        r@.len() == 20,
{
    let h = <bitcoin_hashes::hash160::Hash as bitcoin_hashes::Hash>::hash(data.as_slice());
    <bitcoin_hashes::hash160::Hash as bitcoin_hashes::Hash>::to_byte_array(h).to_vec()
}

/// The keys as byte sequences.
pub open spec fn keys_view(keys: Seq<Vec<u8>>) -> Seq<Seq<u8>> {
    Seq::new(keys.len(), |i: int| keys[i]@)
}

pub open spec fn keys_are_valid(keys: Seq<Seq<u8>>) -> bool {
    &&& 1 <= keys.len() <= MAX_KEYS
    &&& forall|k: int| 0 <= k < keys.len() ==> keys[k].len() == PUBLIC_KEY_LEN
}

/// Each key pushed in order: its length byte, then its bytes.
pub open spec fn key_pushes(keys: Seq<Seq<u8>>) -> Seq<u8>
    decreases keys.len(),
{
    if keys.len() == 0 {
        Seq::empty()
    } else {
        key_pushes(keys.drop_last()) + seq![keys.last().len() as u8] + keys.last()
    }
}

/// `OP_m <key_1> ... <key_n> OP_n OP_CHECKMULTISIG`, where `m` is the quorum
/// threshold of the `n` keys.
pub open spec fn redeem_script_of(keys: Seq<Seq<u8>>) -> Seq<u8> {
    seq![(OP_PUSHNUM_BASE + threshold_spec(keys.len())) as u8] + key_pushes(keys) + seq![
        (OP_PUSHNUM_BASE + keys.len()) as u8,
        OP_CHECKMULTISIG,
    ]
}

/// The address that a set of keys derives.
pub open spec fn address_of(keys: Seq<Seq<u8>>) -> Seq<u8> {
    hash160_of(redeem_script_of(keys))
}

impl View for AnchoringConfig {
    type V = Seq<Seq<u8>>;

    closed spec fn view(&self) -> Seq<Seq<u8>> {
        keys_view(self.anchoring_keys@)
    }
}

impl AnchoringConfig {
    #[verifier::type_invariant]
    spec fn inv(&self) -> bool {
        keys_are_valid(keys_view(self.anchoring_keys@))
    }


    /// A configuration of the given keys: between 1 and 16 keys, each a
    /// compressed public key.
    pub fn new(anchoring_keys: Vec<Vec<u8>>) -> (r: Result<AnchoringConfig, ConfigError>)
        ensures
            match r {
                Ok(c) => c@ == keys_view(anchoring_keys@) && keys_are_valid(c@),
                Err(e) => !keys_are_valid(keys_view(anchoring_keys@)) && (e
                    == ConfigError::KeyCount <==> !(1 <= anchoring_keys.len() <= MAX_KEYS)),
            },
    {
        let ghost v = keys_view(anchoring_keys@);
        if anchoring_keys.len() < 1 || anchoring_keys.len() > MAX_KEYS {
            return Err(ConfigError::KeyCount);
        }
        let mut i: usize = 0;
        while i < anchoring_keys.len()
            invariant
                i <= anchoring_keys.len(),
                1 <= anchoring_keys.len() <= MAX_KEYS,
                v == keys_view(anchoring_keys@),
                forall|k: int| 0 <= k < i ==> v[k].len() == PUBLIC_KEY_LEN,
            decreases anchoring_keys.len() - i,
        {
            if anchoring_keys[i].len() != PUBLIC_KEY_LEN {
                assert(v[i as int].len() != PUBLIC_KEY_LEN);
                return Err(ConfigError::KeyLength);
            }
            i += 1;
        }
        assert(keys_are_valid(v));
        Ok(AnchoringConfig { anchoring_keys })
    }

    /// Number of validators; every configuration holds between 1 and 16
    /// compressed public keys.
    pub fn len(&self) -> (r: usize)
        ensures
            r == self@.len(),
            keys_are_valid(self@),
    {
        proof {
            use_type_invariant(self);
        }
        self.anchoring_keys.len()
    }

    /// The key of validator `i`.
    pub fn key(&self, i: usize) -> (r: &Vec<u8>)
        requires
            i < self@.len(),
        ensures
            r@ == self@[i as int],
    {
        &self.anchoring_keys[i]
    }

    /// The multisignature redeem script of the keys and the address it derives.
    pub fn redeem_script(&self) -> (r: (Vec<u8>, Address))
        ensures
            r.0@ == redeem_script_of(self@),
            r.1@ == address_of(self@),
    {
        proof {
            use_type_invariant(self);
        }
        let ghost v = self@;
        let n = self.anchoring_keys.len();
        let m = threshold(n as u64);
        let mut script: Vec<u8> = Vec::new();
        script.push(OP_PUSHNUM_BASE + m as u8);
        let mut i: usize = 0;
        while i < n
            invariant
                v == self@,
                keys_are_valid(v),
                n == v.len(),
                i <= n,
                m == threshold_spec(n as nat),
                script@ == seq![(OP_PUSHNUM_BASE + m) as u8] + key_pushes(v.subrange(0, i as int)),
            decreases n - i,
        {
            let key = &self.anchoring_keys[i];
            assert(key@ == v[i as int]);
            let ghost before = script@;
            script.push(PUBLIC_KEY_LEN as u8);
            let mut j: usize = 0;
            while j < key.len()
                invariant
                    j <= key.len(),
                    key.len() == PUBLIC_KEY_LEN,
                    script@ == before + seq![PUBLIC_KEY_LEN as u8] + key@.subrange(0, j as int),
                decreases key.len() - j,
            {
                script.push(key[j]);
                assert(script@ =~= before + seq![PUBLIC_KEY_LEN as u8] + key@.subrange(
                    0,
                    j + 1,
                ));
                j += 1;
            }
            assert(v.subrange(0, i + 1).drop_last() =~= v.subrange(0, i as int));
            assert(key@.subrange(0, j as int) =~= key@);
            assert(script@ =~= seq![(OP_PUSHNUM_BASE + m) as u8] + key_pushes(
                v.subrange(0, i + 1),
            ));
            i += 1;
        }
        script.push(OP_PUSHNUM_BASE + n as u8);
        script.push(OP_CHECKMULTISIG);
        assert(v.subrange(0, n as int) =~= v);
        assert(script@ =~= redeem_script_of(v));
        let hash = hash160(&script);
        (script, Address { script_hash: hash })
    }
}

impl Clone for AnchoringConfig {
    fn clone(&self) -> (r: AnchoringConfig)
        ensures
            r@ == self@,
    {
        proof {
            use_type_invariant(self);
        }
        let ghost v = self@;
        let mut keys: Vec<Vec<u8>> = Vec::new();
        let mut i: usize = 0;
        while i < self.anchoring_keys.len()
            invariant
                v == self@,
                i <= v.len(),
                v.len() == self.anchoring_keys.len(),
                keys.len() == i,
                keys_view(keys@) == v.subrange(0, i as int),
            decreases v.len() - i,
        {
            let k = self.anchoring_keys[i].clone();
            assert(k@ =~= v[i as int]);
            let ghost prev = keys@;
            keys.push(k);
            assert forall|j: int| 0 <= j < i implies keys@[j]@ == v[j] by {
                assert(keys@[j] == prev[j]);
                assert(keys_view(prev)[j] == v.subrange(0, i as int)[j]);
            }
            assert(keys_view(keys@) =~= v.subrange(0, i + 1));
            i += 1;
        }
        assert(v.subrange(0, i as int) =~= v);
        AnchoringConfig { anchoring_keys: keys }
    }
}

/// The redeem script and the address are functions of the key set: two
/// configurations with the same keys give byte-identical scripts and
/// addresses.
pub proof fn lemma_redeem_script_deterministic(a: AnchoringConfig, b: AnchoringConfig)
    requires
        a@ == b@,
    ensures
        redeem_script_of(a@) == redeem_script_of(b@),
        address_of(a@) == address_of(b@),
{
}

} // verus!
