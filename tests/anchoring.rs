use btc_anchoring::api::{
    AnchoringInfo, ApiError, LectRecord, LedgerSnapshot, PublicApi, ANCHORED_BLOCKS_TABLE,
    ANCHORING_SERVICE_ID,
};
use btc_anchoring::chain::{AnchoredBlocks, AnchoringChain, ChainError, HeightIndex};
use btc_anchoring::config::{AnchoringConfig, ConfigError};
use btc_anchoring::digest::Digest;
use btc_anchoring::quorum::threshold;
use btc_anchoring::transactions::{
    classify, parse_payload, AnchoringTx, BitcoinTx, TxKind, TxOut,
};

fn digest(fill: u8) -> Digest {
    Digest::new(vec![fill; 32])
}

fn payload_script(height: u64, block: u8, prev: Option<u8>) -> Vec<u8> {
    let mut data = b"EXONUM".to_vec();
    data.push(1);
    data.push(if prev.is_some() { 1 } else { 0 });
    data.extend_from_slice(&height.to_le_bytes());
    data.extend_from_slice(&[block; 32]);
    if let Some(p) = prev {
        data.extend_from_slice(&[p; 32]);
    }
    let mut script = vec![0x6a, data.len() as u8];
    script.extend_from_slice(&data);
    script
}

fn p2sh_script(fill: u8) -> Vec<u8> {
    let mut s = vec![0xa9, 0x14];
    s.extend_from_slice(&[fill; 20]);
    s.push(0x87);
    s
}

fn anchoring_tx(id: u8, height: u64) -> BitcoinTx {
    BitcoinTx {
        id: digest(id),
        outputs: vec![
            TxOut { value: 1000, script: p2sh_script(7) },
            TxOut { value: 0, script: payload_script(height, 0xbb, None) },
        ],
    }
}

fn funding_tx(id: u8) -> BitcoinTx {
    BitcoinTx {
        id: digest(id),
        outputs: vec![
            TxOut { value: 5000, script: p2sh_script(7) },
            TxOut { value: 300, script: vec![0x76, 0xa9, 0x14] },
        ],
    }
}

fn other_tx(id: u8) -> BitcoinTx {
    BitcoinTx { id: digest(id), outputs: vec![TxOut { value: 1, script: vec![0x51] }] }
}

fn keys(n: usize) -> Vec<Vec<u8>> {
    (0..n).map(|i| {
        let mut k = vec![0x02];
        k.extend_from_slice(&[i as u8 + 1; 32]);
        k
    }).collect()
}

fn record(tx: BitcoinTx, msg: u8, height: u64) -> LectRecord {
    LectRecord { msg_hash: digest(msg), tx, height }
}

fn snapshot(n_validators: usize, lects: Vec<Vec<LectRecord>>) -> LedgerSnapshot {
    LedgerSnapshot {
        state_root: digest(0xee),
        block_hashes: (0..=300u64).map(|h| digest((h % 251) as u8)).collect(),
        actual_config: AnchoringConfig::new(keys(n_validators)).unwrap(),
        following_config: None,
        lects,
        tx_chain: AnchoringChain::new(),
        anchored_blocks: HeightIndex::new(),
    }
}

fn anchor(height: u64, block_height: u64) -> AnchoringTx {
    let tx = anchoring_tx(height as u8, block_height);
    let payload = match classify(&tx) {
        TxKind::Anchoring(p) => p,
        _ => panic!("not an anchoring transaction"),
    };
    AnchoringTx { tx, payload }
}

#[test]
fn threshold_boundaries() {
    assert_eq!(threshold(4), 3);
    assert_eq!(threshold(1), 1);
    assert_eq!(threshold(3), 3);
    assert_eq!(threshold(6), 5);
    assert_eq!(threshold(7), 5);
    assert_eq!(threshold(16), 11);
    assert_eq!(threshold(u64::MAX), 12297829382473034411);
}

#[test]
fn threshold_more_than_two_thirds() {
    for n in 1..200u64 {
        let t = threshold(n);
        assert!(3 * t > 2 * n);
        assert!(3 * (t - 1) <= 2 * n);
        assert!(t <= n);
    }
}

#[test]
fn actual_lect_none_without_quorum() {
    let lects = vec![
        vec![record(anchoring_tx(1, 100), 1, 5)],
        vec![record(anchoring_tx(1, 100), 2, 5)],
        vec![record(anchoring_tx(2, 100), 3, 5)],
        vec![record(anchoring_tx(3, 100), 4, 5)],
    ];
    let api = PublicApi { snapshot: snapshot(4, lects) };
    assert_eq!(api.actual_lect(), Ok(None));
}

#[test]
fn actual_lect_two_halves_do_not_merge() {
    let lects = vec![
        vec![record(anchoring_tx(1, 100), 1, 5)],
        vec![record(anchoring_tx(1, 100), 2, 5)],
        vec![record(anchoring_tx(2, 100), 3, 5)],
        vec![record(anchoring_tx(2, 100), 4, 5)],
    ];
    let api = PublicApi { snapshot: snapshot(4, lects) };
    assert_eq!(api.actual_lect(), Ok(None));
}

#[test]
fn actual_lect_none_when_nobody_reported() {
    let api = PublicApi { snapshot: snapshot(4, vec![]) };
    assert_eq!(api.actual_lect(), Ok(None));
}

#[test]
fn actual_lect_agreed_anchoring_at_height_100() {
    let lects = vec![
        vec![record(anchoring_tx(1, 100), 1, 5)],
        vec![record(anchoring_tx(9, 90), 2, 4), record(anchoring_tx(1, 100), 2, 6)],
        vec![record(anchoring_tx(2, 100), 3, 5)],
        vec![record(anchoring_tx(1, 100), 4, 5)],
    ];
    let api = PublicApi { snapshot: snapshot(4, lects) };
    let info = api.actual_lect().unwrap().unwrap();
    assert_eq!(info.txid, digest(1));
    let payload = info.payload.unwrap();
    assert_eq!(payload.block_height, 100);
    assert_eq!(payload.block_hash, Digest::new(vec![0xbb; 32]));
    assert_eq!(payload.prev_tx_chain, None);
}

#[test]
fn actual_lect_only_latest_report_counts() {
    let lects = vec![
        vec![record(anchoring_tx(1, 100), 1, 5), record(anchoring_tx(2, 120), 1, 6)],
        vec![record(anchoring_tx(1, 100), 2, 5)],
        vec![record(anchoring_tx(1, 100), 3, 5), record(anchoring_tx(3, 120), 3, 6)],
        vec![record(anchoring_tx(1, 100), 4, 5)],
    ];
    let api = PublicApi { snapshot: snapshot(4, lects) };
    assert_eq!(api.actual_lect(), Ok(None));
}

#[test]
fn actual_lect_agreed_funding_tx() {
    let lects = vec![
        vec![record(funding_tx(5), 1, 5)],
        vec![record(funding_tx(5), 2, 5)],
        vec![record(funding_tx(5), 3, 5)],
    ];
    let api = PublicApi { snapshot: snapshot(3, lects) };
    assert_eq!(
        api.actual_lect(),
        Ok(Some(AnchoringInfo { txid: digest(5), payload: None }))
    );
}

#[test]
fn actual_lect_agreed_other_is_protocol_violation() {
    let lects = vec![
        vec![record(other_tx(6), 1, 5)],
        vec![record(other_tx(6), 2, 5)],
        vec![record(other_tx(6), 3, 5)],
        vec![record(anchoring_tx(1, 100), 4, 5)],
    ];
    let api = PublicApi { snapshot: snapshot(4, lects) };
    assert_eq!(api.actual_lect(), Err(ApiError::ProtocolViolation));
}

#[test]
fn current_lect_of_validator_cases() {
    let lects = vec![
        vec![record(anchoring_tx(1, 100), 1, 5), record(funding_tx(2), 7, 6)],
        vec![],
        vec![record(other_tx(3), 3, 5)],
    ];
    let api = PublicApi { snapshot: snapshot(4, lects) };
    let info = api.current_lect_of_validator(0).unwrap().unwrap();
    assert_eq!(info.hash, digest(7));
    assert_eq!(info.content, AnchoringInfo { txid: digest(2), payload: None });
    assert_eq!(api.current_lect_of_validator(1), Ok(None));
    assert_eq!(api.current_lect_of_validator(2), Err(ApiError::ProtocolViolation));
    assert_eq!(api.current_lect_of_validator(3), Ok(None));
    assert_eq!(api.current_lect_of_validator(4), Err(ApiError::UnknownValidatorId(4)));
    assert_eq!(api.current_lect_of_validator(u32::MAX), Err(ApiError::UnknownValidatorId(u32::MAX)));
}

#[test]
fn classify_is_total() {
    let empty = BitcoinTx { id: digest(1), outputs: vec![] };
    assert_eq!(classify(&empty), TxKind::Other);
    let garbage = BitcoinTx {
        id: digest(1),
        outputs: vec![
            TxOut { value: 0, script: vec![] },
            TxOut { value: 0, script: vec![0xff, 0x00, 0x6a] },
        ],
    };
    assert_eq!(classify(&garbage), TxKind::Other);
    let mut truncated = payload_script(100, 0xbb, None);
    truncated.truncate(30);
    let tx = BitcoinTx {
        id: digest(1),
        outputs: vec![TxOut { value: 0, script: vec![0x51] }, TxOut { value: 0, script: truncated }],
    };
    assert_eq!(classify(&tx), TxKind::Other);
}

#[test]
fn classify_roles() {
    match classify(&anchoring_tx(1, 100)) {
        TxKind::Anchoring(p) => assert_eq!(p.block_height, 100),
        k => panic!("unexpected kind {:?}", k),
    }
    assert_eq!(classify(&funding_tx(2)), TxKind::FundingTx);
    let two_p2sh = BitcoinTx {
        id: digest(3),
        outputs: vec![
            TxOut { value: 1, script: p2sh_script(1) },
            TxOut { value: 1, script: p2sh_script(2) },
        ],
    };
    assert_eq!(classify(&two_p2sh), TxKind::Other);
    let payload_in_output_zero = BitcoinTx {
        id: digest(4),
        outputs: vec![TxOut { value: 0, script: payload_script(5, 1, None) }],
    };
    assert_eq!(classify(&payload_in_output_zero), TxKind::Other);
}

#[test]
fn parse_payload_formats() {
    let p = parse_payload(&payload_script(0x0102030405060708, 0xcc, None)).unwrap();
    assert_eq!(p.block_height, 0x0102030405060708);
    assert_eq!(p.block_hash, Digest::new(vec![0xcc; 32]));
    assert_eq!(p.prev_tx_chain, None);
    let r = parse_payload(&payload_script(u64::MAX, 0xcc, Some(0x11))).unwrap();
    assert_eq!(r.block_height, u64::MAX);
    assert_eq!(r.prev_tx_chain, Some(Digest::new(vec![0x11; 32])));
    let mut bad_magic = payload_script(1, 0, None);
    bad_magic[2] = b'X';
    assert_eq!(parse_payload(&bad_magic), None);
    let mut bad_version = payload_script(1, 0, None);
    bad_version[8] = 2;
    assert_eq!(parse_payload(&bad_version), None);
    let mut bad_kind = payload_script(1, 0, None);
    bad_kind[9] = 1;
    assert_eq!(parse_payload(&bad_kind), None);
    let mut bad_len = payload_script(1, 0, None);
    bad_len[1] = 47;
    assert_eq!(parse_payload(&bad_len), None);
    assert_eq!(parse_payload(&vec![]), None);
}

#[test]
fn nearest_anchor_finds_minimal_height() {
    let mut chain = AnchoringChain::new();
    for h in [10u64, 50, 200] {
        assert_eq!(chain.append(h, anchor(h, h - 1)), Ok(()));
    }
    assert_eq!(chain.len(), 3);
    assert_eq!(chain.nearest_anchor(60).unwrap().tx.id, digest(200));
    assert_eq!(chain.nearest_anchor(200).unwrap().tx.id, digest(200));
    assert!(chain.nearest_anchor(201).is_none());
    assert_eq!(chain.nearest_anchor(0).unwrap().tx.id, digest(10));
    assert_eq!(chain.nearest_anchor(10).unwrap().tx.id, digest(10));
    assert_eq!(chain.nearest_anchor(11).unwrap().tx.id, digest(50));
    assert!(AnchoringChain::new().nearest_anchor(0).is_none());
}

#[test]
fn append_rejects_height_not_above_max() {
    let mut chain = AnchoringChain::new();
    assert_eq!(chain.append(10, anchor(10, 5)), Ok(()));
    assert_eq!(chain.append(50, anchor(50, 40)), Ok(()));
    assert_eq!(chain.append(50, anchor(50, 45)), Err(ChainError::HeightNotIncreasing));
    assert_eq!(chain.append(30, anchor(30, 20)), Err(ChainError::HeightNotIncreasing));
    assert_eq!(chain.len(), 2);
    assert_eq!(chain.append(60, anchor(60, 61)), Err(ChainError::PayloadAboveEntry));
    assert_eq!(chain.append(60, anchor(60, 60)), Ok(()));
    assert_eq!(chain.len(), 3);
}

#[test]
fn height_index_lookups() {
    let mut index: AnchoredBlocks = HeightIndex::new();
    assert_eq!(index.max_height(), None);
    assert_eq!(index.append(0, digest(1)), Ok(()));
    assert_eq!(index.append(100, digest(2)), Ok(()));
    assert_eq!(index.append(100, digest(3)), Err(ChainError::HeightNotIncreasing));
    assert_eq!(index.max_height(), Some(100));
    assert_eq!(index.get(100), Some(&digest(2)));
    assert_eq!(index.get(0), Some(&digest(1)));
    assert_eq!(index.get(50), None);
    assert_eq!(index.nearest(50), Some(&digest(2)));
    assert_eq!(index.nearest(101), None);
}

fn proof_api() -> PublicApi {
    let mut snap = snapshot(4, vec![]);
    snap.anchored_blocks.append(100, digest(0x42)).unwrap();
    snap.anchored_blocks.append(200, digest(0x43)).unwrap();
    PublicApi { snapshot: snap }
}

#[test]
fn proof_height_out_of_range() {
    let api = proof_api();
    assert_eq!(api.anchored_block_header_proof(301), Err(ApiError::HeightOutOfRange(301)));
    assert_eq!(api.anchored_block_header_proof(u64::MAX), Err(ApiError::HeightOutOfRange(u64::MAX)));
    let empty = PublicApi {
        snapshot: LedgerSnapshot { block_hashes: vec![], ..snapshot(4, vec![]) },
    };
    assert_eq!(empty.anchored_block_header_proof(0), Err(ApiError::HeightOutOfRange(0)));
}

#[test]
fn proof_non_membership_for_unanchored_height() {
    let api = proof_api();
    let proof = api.anchored_block_header_proof(150).unwrap();
    assert!(proof.to_block_header.is_non_membership());
    assert_eq!(proof.to_block_header.height, 150);
    assert!(proof.is_consistent());
    assert_eq!(proof.latest_authorized_block.height, 300);
    assert_eq!(proof.latest_authorized_block.block_hash, digest((300 % 251) as u8));
}

#[test]
fn proof_membership_for_anchored_height() {
    let api = proof_api();
    let proof = api.anchored_block_header_proof(300).unwrap();
    assert!(proof.to_block_header.is_non_membership());
    let proof = api.anchored_block_header_proof(100).unwrap();
    assert!(!proof.to_block_header.is_non_membership());
    assert_eq!(proof.to_block_header.block_hash, Some(digest(0x42)));
    assert_eq!(proof.to_table.service_id, ANCHORING_SERVICE_ID);
    assert_eq!(proof.to_table.table_index, ANCHORED_BLOCKS_TABLE);
    assert_eq!(proof.to_table.state_root, digest(0xee));
    assert!(proof.is_consistent());
    let mut broken = proof.clone();
    broken.to_table.state_root = digest(0xef);
    assert!(!broken.is_consistent());
}

#[test]
fn redeem_script_layout() {
    let config = AnchoringConfig::new(keys(4)).unwrap();
    let (script, address) = config.redeem_script();
    assert_eq!(script.len(), 1 + 4 * 34 + 2);
    assert_eq!(script[0], 0x53);
    assert_eq!(script[1], 33);
    assert_eq!(&script[2..35], keys(4)[0].as_slice());
    assert_eq!(&script[35 + 1..35 + 34], keys(4)[1].as_slice());
    assert_eq!(script[script.len() - 2], 0x54);
    assert_eq!(script[script.len() - 1], 0xae);
    assert_eq!(address.script_hash.len(), 20);
    assert_ne!(address.script_hash, script[..20].to_vec());
}

#[test]
fn redeem_script_is_deterministic() {
    let a = AnchoringConfig::new(keys(5)).unwrap();
    let b = AnchoringConfig::new(keys(5)).unwrap();
    assert_eq!(a.redeem_script(), a.redeem_script());
    assert_eq!(a.redeem_script(), b.redeem_script());
    let c = AnchoringConfig::new(keys(6)).unwrap();
    assert_ne!(a.redeem_script().1, c.redeem_script().1);
}

#[test]
fn config_rejects_bad_keys() {
    assert!(matches!(AnchoringConfig::new(vec![]), Err(ConfigError::KeyCount)));
    assert!(matches!(AnchoringConfig::new(keys(17)), Err(ConfigError::KeyCount)));
    let mut short = keys(3);
    short[1].pop();
    assert!(matches!(AnchoringConfig::new(short), Err(ConfigError::KeyLength)));
    let one = AnchoringConfig::new(keys(1)).unwrap();
    assert_eq!(one.len(), 1);
    assert_eq!(one.redeem_script().0[0], 0x51);
    let full = AnchoringConfig::new(keys(16)).unwrap();
    assert_eq!(full.redeem_script().0[0], 0x5b);
}

#[test]
fn addresses_of_configurations() {
    let api = PublicApi { snapshot: snapshot(4, vec![]) };
    assert_eq!(api.following_address(), None);
    assert_eq!(api.actual_address(), AnchoringConfig::new(keys(4)).unwrap().redeem_script().1);
    let mut snap = snapshot(4, vec![]);
    snap.following_config = Some(AnchoringConfig::new(keys(5)).unwrap());
    let api = PublicApi { snapshot: snap };
    assert_eq!(
        api.following_address(),
        Some(AnchoringConfig::new(keys(5)).unwrap().redeem_script().1)
    );
}

#[test]
fn nearest_lect_through_api() {
    let mut snap = snapshot(4, vec![]);
    snap.tx_chain.append(10, anchor(10, 9)).unwrap();
    snap.tx_chain.append(50, anchor(50, 49)).unwrap();
    let api = PublicApi { snapshot: snap };
    assert_eq!(api.nearest_lect(11).unwrap().payload.block_height, 49);
    assert!(api.nearest_lect(51).is_none());
}

#[test]
fn digest_equality() {
    assert!(digest(1).equals(&digest(1)));
    assert!(!digest(1).equals(&digest(2)));
    assert!(!Digest::new(vec![1, 2]).equals(&Digest::new(vec![1, 2, 3])));
    assert_eq!(digest(9).copy(), digest(9));
}
