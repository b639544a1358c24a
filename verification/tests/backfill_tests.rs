use wvm_backfill::backfill::{prepare_block_upload, BackfillPass, PassAction};
use wvm_backfill::block::Block;
use wvm_backfill::errors::PipelineError;
use wvm_backfill::planetscale::{make_archive_record, strip_hex_prefix};

fn retrieved_block(number_hex: &str, hash: &str) -> Block {
    Block {
        base_fee_per_gas: None,
        blob_gas_used: None,
        difficulty: None,
        excess_blob_gas: None,
        extra_data: None,
        gas_limit: None,
        gas_used: None,
        hash: Some(hash.to_string()),
        logs_bloom: None,
        miner: None,
        mix_hash: None,
        nonce: None,
        number: Some(number_hex.to_string()),
        parent_beacon_block_root: None,
        parent_hash: None,
        receipts_root: None,
        sha3_uncles: None,
        size: None,
        state_root: None,
        timestamp: None,
        total_difficulty: None,
        transactions: None,
        uncles: None,
        withdrawals: None,
        withdrawals_root: None,
    }
}

#[test]
fn prepare_builds_payload_and_tags() {
    let b = retrieved_block("0x2a", "0xfeed");
    let job = prepare_block_upload(42, &b).expect("a valid block prepares");
    assert_eq!(job.block_number, 42);
    assert_eq!(job.block_number_dec, "42");
    assert_eq!(job.block_hash, "0xfeed");
    assert!(!job.number_mismatch);
    let names: Vec<&str> = job.tags.iter().map(|t| t.name.as_str()).collect();
    assert_eq!(
        names,
        vec![
            "Content-Type",
            "WeaveVM:Encoding",
            "Block-Number",
            "Block-Hash",
            "Client-Version",
            "Network",
            "WeaveVM:Backfill"
        ]
    );
    assert_eq!(job.tags[0].value, "application/octet-stream");
    assert_eq!(job.tags[1].value, "Borsh-Brotli");
    assert_eq!(job.tags[2].value, "42");
    assert_eq!(job.tags[3].value, "0xfeed");
    assert_eq!(job.tags[6].value, "true");
    // The payload is the compressed canonical encoding of the block.
    let decompressed = Block::brotli_decompress(&job.payload).expect("payload is a brotli stream");
    assert_eq!(decompressed, Block::borsh_ser(&b));
    let decoded = Block::borsh_deser(&decompressed).expect("payload decodes to the block");
    assert_eq!(decoded, b);
}

#[test]
fn prepare_flags_number_mismatch() {
    let b = retrieved_block("0x2b", "0xfeed");
    let job = prepare_block_upload(42, &b).expect("a valid block prepares");
    assert_eq!(job.block_number, 43, "the block's own number is trusted");
    assert!(job.number_mismatch);
}

#[test]
fn prepare_rejects_block_without_number_or_hash() {
    let mut b = retrieved_block("0x1", "0xfeed");
    b.number = None;
    assert!(matches!(prepare_block_upload(1, &b), Err(PipelineError::MalformedResponse)));
    let mut b = retrieved_block("0x1", "0xfeed");
    b.hash = None;
    assert!(matches!(prepare_block_upload(1, &b), Err(PipelineError::MalformedResponse)));
    let b = retrieved_block("nothex", "0xfeed");
    assert!(matches!(prepare_block_upload(1, &b), Err(PipelineError::MalformedResponse)));
}

#[test]
fn pass_walks_missing_blocks_in_order() {
    let mut pass = BackfillPass::start(vec![3, 6]);
    assert_eq!(pass.current_action(), PassAction::Fetch(3));
    pass.on_persist_result(Ok(()));
    assert_eq!(pass.current_action(), PassAction::Fetch(6));
    pass.on_persist_result(Ok(()));
    assert_eq!(pass.current_action(), PassAction::Finished);
}

#[test]
fn upload_twice_yields_two_distinct_archive_identifiers() {
    // The uploader provides no idempotency: archiving the same block twice
    // produces two records with distinct identifiers, and nothing in the
    // pass deduplicates them.
    let b = retrieved_block("0x7", "0xabcd");
    let job = prepare_block_upload(7, &b).expect("a valid block prepares");
    let mut pass = BackfillPass::start(vec![7]);
    let first = pass
        .on_upload_result(&job, Ok("archive-id-one".to_string()))
        .expect("an accepted upload yields a record");
    let second = pass
        .on_upload_result(&job, Ok("archive-id-two".to_string()))
        .expect("an accepted upload yields a record");
    assert_eq!(first.block_number, second.block_number);
    assert_eq!(first.block_hash, second.block_hash);
    assert_ne!(first.arweave_hash, second.arweave_hash);
}

#[test]
fn upload_failure_aborts_the_pass() {
    let b = retrieved_block("0x7", "0xabcd");
    let job = prepare_block_upload(7, &b).expect("a valid block prepares");
    let mut pass = BackfillPass::start(vec![7, 8]);
    let r = pass.on_upload_result(&job, Err(PipelineError::TransportError));
    assert_eq!(r, Err(PipelineError::UploadRejected));
    assert_eq!(pass.current_action(), PassAction::Finished, "no block is retried");
}

#[test]
fn persistence_failure_is_swallowed_and_the_pass_continues() {
    // A persistence failure after a successful upload must not raise an
    // error to the pass's caller; the pass proceeds to the next block.
    let mut pass = BackfillPass::start(vec![1, 2]);
    assert_eq!(pass.current_action(), PassAction::Fetch(1));
    pass.on_persist_result(Err(PipelineError::PersistenceError));
    assert!(!pass.aborted);
    assert_eq!(pass.current_action(), PassAction::Fetch(2));
}

#[test]
fn archive_record_strips_wire_prefix() {
    let rec = make_archive_record(9, "0xdeadbeef", "ar-tx-id");
    assert_eq!(rec.block_number, 9);
    assert_eq!(rec.block_hash, "deadbeef");
    assert_eq!(rec.arweave_hash, "ar-tx-id");
    let rec = make_archive_record(9, "nakedhash", "ar-tx-id");
    assert_eq!(rec.block_hash, "nakedhash");
}

#[test]
fn strip_hex_prefix_cases() {
    assert_eq!(strip_hex_prefix("0xabc"), "abc");
    assert_eq!(strip_hex_prefix("abc"), "abc");
    assert_eq!(strip_hex_prefix("0x"), "");
    assert_eq!(strip_hex_prefix(""), "");
}
