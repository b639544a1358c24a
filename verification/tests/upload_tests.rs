use wvm_backfill::arweave_upload::{prepare_upload_tags, ArweaveRequest, UploaderProvider};
use wvm_backfill::tags::Tag;
use wvm_backfill::wvm_client::validate_retrieved_block;
use wvm_backfill::block::Block;
use wvm_backfill::errors::PipelineError;

#[test]
fn fixed_tags_are_injected_ahead_of_caller_tags() {
    let caller = vec![Tag::new("Block-Number", "5"), Tag::new("Network", "test")];
    let tags = prepare_upload_tags(caller);
    assert_eq!(tags.len(), 4);
    assert_eq!(tags[0].name, "Protocol");
    assert_eq!(tags[0].value, "WeaveVM-ExEx");
    assert_eq!(tags[1].name, "ExEx-Type");
    assert_eq!(tags[1].value, "Arweave-Data-Uploader");
    assert_eq!(tags[2].name, "Block-Number");
    assert_eq!(tags[3].name, "Network");
}

#[test]
fn fixed_tags_alone_on_empty_caller_tags() {
    let tags = prepare_upload_tags(Vec::new());
    assert_eq!(tags.len(), 2);
    assert_eq!(tags[0].name, "Protocol");
    assert_eq!(tags[1].name, "ExEx-Type");
}

#[test]
fn uploader_provider_keeps_its_key() {
    let p = UploaderProvider::new(Some("test-signing-key".to_string()));
    assert_eq!(p.private_key.as_deref(), Some("test-signing-key"));
    let p = UploaderProvider::new(None);
    assert!(p.private_key.is_none());
}

#[test]
fn request_builder_accumulates_in_order() {
    let req = ArweaveRequest::new()
        .set_tag("Content-Type", "application/octet-stream")
        .set_tag("WeaveVM:Backfill", "true")
        .set_data(vec![1, 2, 3])
        .set_private_key("test-signing-key".to_string());
    assert_eq!(req.tags.len(), 2);
    assert_eq!(req.tags[0].name, "Content-Type");
    assert_eq!(req.tags[1].name, "WeaveVM:Backfill");
    assert_eq!(req.data, vec![1, 2, 3]);
    assert_eq!(req.private_key.as_deref(), Some("test-signing-key"));
}

#[test]
fn retrieval_validation_requires_number_and_hash() {
    let b = Block {
        base_fee_per_gas: None,
        blob_gas_used: None,
        difficulty: None,
        excess_blob_gas: None,
        extra_data: None,
        gas_limit: None,
        gas_used: None,
        hash: Some("0xh".to_string()),
        logs_bloom: None,
        miner: None,
        mix_hash: None,
        nonce: None,
        number: Some("0x10".to_string()),
        parent_beacon_block_root: None,
        parent_hash: None,
        receipts_root: None,
        sha3_uncles: None,
        size: None,
        state_root: None,
        timestamp: None,
        total_difficulty: None,
        transactions: None,
        uncles: None,
        withdrawals: None,
        withdrawals_root: None,
    };
    assert_eq!(validate_retrieved_block(&b), Ok(()));
    let mut missing_number = b.clone();
    missing_number.number = None;
    assert_eq!(
        validate_retrieved_block(&missing_number),
        Err(PipelineError::MalformedResponse)
    );
    let mut bad_number = b.clone();
    bad_number.number = Some("16".to_string());
    assert_eq!(
        validate_retrieved_block(&bad_number),
        Err(PipelineError::MalformedResponse)
    );
    let mut missing_hash = b;
    missing_hash.hash = None;
    assert_eq!(
        validate_retrieved_block(&missing_hash),
        Err(PipelineError::MalformedResponse)
    );
}
