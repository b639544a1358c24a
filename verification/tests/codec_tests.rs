use wvm_backfill::block::{Block, Transaction};

fn empty_block() -> Block {
    Block {
        base_fee_per_gas: None,
        blob_gas_used: None,
        difficulty: None,
        excess_blob_gas: None,
        extra_data: None,
        gas_limit: None,
        gas_used: None,
        hash: None,
        logs_bloom: None,
        miner: None,
        mix_hash: None,
        nonce: None,
        number: None,
        parent_beacon_block_root: None,
        parent_hash: None,
        receipts_root: None,
        sha3_uncles: None,
        size: None,
        state_root: None,
        timestamp: None,
        total_difficulty: None,
        transactions: None,
        uncles: None,
        withdrawals: None,
        withdrawals_root: None,
    }
}

fn sample_transaction() -> Transaction {
    Transaction {
        block_hash: Some("0xbeef".to_string()),
        block_number: Some("0x2a".to_string()),
        chain_id: Some("0x1".to_string()),
        from: Some("0xabc".to_string()),
        gas: None,
        gas_price: Some("0x5".to_string()),
        hash: Some("0xdead".to_string()),
        input: Some("0x".to_string()),
        nonce: None,
        r: Some("0x01".to_string()),
        s: Some("0x02".to_string()),
        to: None,
        transaction_index: Some("0x0".to_string()),
        transaction_type: Some("0x2".to_string()),
        v: Some("0x1b".to_string()),
        value: Some("0x0".to_string()),
    }
}

fn full_block() -> Block {
    Block {
        base_fee_per_gas: Some("0x7".to_string()),
        blob_gas_used: Some("0x0".to_string()),
        difficulty: Some("0x0".to_string()),
        excess_blob_gas: Some("0x0".to_string()),
        extra_data: Some("0x00".to_string()),
        gas_limit: Some("0x1c9c380".to_string()),
        gas_used: Some("0x5208".to_string()),
        hash: Some("0x1234abcd".to_string()),
        logs_bloom: Some("0x0".to_string()),
        miner: Some("0xminer".to_string()),
        mix_hash: Some("0xmix".to_string()),
        nonce: Some("0x0000000000000000".to_string()),
        number: Some("0x2a".to_string()),
        parent_beacon_block_root: Some("0xroot".to_string()),
        parent_hash: Some("0xparent".to_string()),
        receipts_root: Some("0xreceipts".to_string()),
        sha3_uncles: Some("0xsha3".to_string()),
        size: Some("0x220".to_string()),
        state_root: Some("0xstate".to_string()),
        timestamp: Some("0x66f0".to_string()),
        total_difficulty: Some("0x0".to_string()),
        transactions: Some(vec![sample_transaction()]),
        uncles: Some(vec!["0xuncle1".to_string(), "0xuncle2".to_string()]),
        withdrawals: Some(vec!["0xw1".to_string()]),
        withdrawals_root: Some("0xwroot".to_string()),
    }
}

#[test]
fn round_trip_all_absent_fields() {
    let b = empty_block();
    let bytes = Block::borsh_ser(&b);
    assert_eq!(bytes.len(), 25);
    let decoded = Block::borsh_deser(&bytes).expect("decoding the canonical bytes");
    assert_eq!(decoded, b);
}

#[test]
fn round_trip_fully_populated() {
    let b = full_block();
    let bytes = Block::borsh_ser(&b);
    let decoded = Block::borsh_deser(&bytes).expect("decoding the canonical bytes");
    assert_eq!(decoded, b);
}

#[test]
fn round_trip_unicode_field() {
    let mut b = empty_block();
    b.extra_data = Some("héllo ⛓ wörld".to_string());
    let bytes = Block::borsh_ser(&b);
    let decoded = Block::borsh_deser(&bytes).expect("decoding the canonical bytes");
    assert_eq!(decoded, b);
}

#[test]
fn encoding_is_deterministic() {
    assert_eq!(Block::borsh_ser(&full_block()), Block::borsh_ser(&full_block()));
}

#[test]
fn try_borsh_ser_accepts_rpc_blocks() {
    let b = full_block();
    let bytes = Block::try_borsh_ser(&b).expect("an RPC-sized block always encodes");
    assert_eq!(bytes, Block::borsh_ser(&b));
}

#[test]
fn deser_rejects_garbage() {
    assert!(Block::borsh_deser(&[]).is_none());
    assert!(Block::borsh_deser(&[2u8]).is_none());
    assert!(Block::borsh_deser(&[1u8, 255, 255, 255, 255]).is_none());
    let mut bytes = Block::borsh_ser(&empty_block());
    bytes.push(0);
    assert!(Block::borsh_deser(&bytes).is_none(), "trailing bytes must be rejected");
}

#[test]
fn wire_format_matches_borsh() {
    // The canonical encoding is the Borsh layout of the record: the
    // concatenation of each field's own Borsh serialization, in
    // declaration order.
    let b = full_block();
    let mut expected: Vec<u8> = Vec::new();
    expected.extend(borsh::to_vec(&b.base_fee_per_gas).unwrap());
    expected.extend(borsh::to_vec(&b.blob_gas_used).unwrap());
    expected.extend(borsh::to_vec(&b.difficulty).unwrap());
    expected.extend(borsh::to_vec(&b.excess_blob_gas).unwrap());
    expected.extend(borsh::to_vec(&b.extra_data).unwrap());
    expected.extend(borsh::to_vec(&b.gas_limit).unwrap());
    expected.extend(borsh::to_vec(&b.gas_used).unwrap());
    expected.extend(borsh::to_vec(&b.hash).unwrap());
    expected.extend(borsh::to_vec(&b.logs_bloom).unwrap());
    expected.extend(borsh::to_vec(&b.miner).unwrap());
    expected.extend(borsh::to_vec(&b.mix_hash).unwrap());
    expected.extend(borsh::to_vec(&b.nonce).unwrap());
    expected.extend(borsh::to_vec(&b.number).unwrap());
    expected.extend(borsh::to_vec(&b.parent_beacon_block_root).unwrap());
    expected.extend(borsh::to_vec(&b.parent_hash).unwrap());
    expected.extend(borsh::to_vec(&b.receipts_root).unwrap());
    expected.extend(borsh::to_vec(&b.sha3_uncles).unwrap());
    expected.extend(borsh::to_vec(&b.size).unwrap());
    expected.extend(borsh::to_vec(&b.state_root).unwrap());
    expected.extend(borsh::to_vec(&b.timestamp).unwrap());
    expected.extend(borsh::to_vec(&b.total_difficulty).unwrap());
    // transactions: Some(vec![tx]) is tag 1, u32 count 1, then the
    // transaction's 16 optional strings in order.
    expected.push(1u8);
    expected.extend(borsh::to_vec(&1u32).unwrap());
    let tx = sample_transaction();
    expected.extend(borsh::to_vec(&tx.block_hash).unwrap());
    expected.extend(borsh::to_vec(&tx.block_number).unwrap());
    expected.extend(borsh::to_vec(&tx.chain_id).unwrap());
    expected.extend(borsh::to_vec(&tx.from).unwrap());
    expected.extend(borsh::to_vec(&tx.gas).unwrap());
    expected.extend(borsh::to_vec(&tx.gas_price).unwrap());
    expected.extend(borsh::to_vec(&tx.hash).unwrap());
    expected.extend(borsh::to_vec(&tx.input).unwrap());
    expected.extend(borsh::to_vec(&tx.nonce).unwrap());
    expected.extend(borsh::to_vec(&tx.r).unwrap());
    expected.extend(borsh::to_vec(&tx.s).unwrap());
    expected.extend(borsh::to_vec(&tx.to).unwrap());
    expected.extend(borsh::to_vec(&tx.transaction_index).unwrap());
    expected.extend(borsh::to_vec(&tx.transaction_type).unwrap());
    expected.extend(borsh::to_vec(&tx.v).unwrap());
    expected.extend(borsh::to_vec(&tx.value).unwrap());
    expected.extend(borsh::to_vec(&b.uncles).unwrap());
    expected.extend(borsh::to_vec(&b.withdrawals).unwrap());
    expected.extend(borsh::to_vec(&b.withdrawals_root).unwrap());

    assert_eq!(Block::borsh_ser(&b), expected);
}
