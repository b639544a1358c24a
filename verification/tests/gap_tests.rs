use wvm_backfill::arweave_gql::detect_missing_blocks;
use wvm_backfill::gap::{contains_block, merge_block_numbers, missing_blocks, sort_dedup};

#[test]
fn missing_blocks_scenario_archived_5_7_latest_8() {
    let archived: Vec<u64> = vec![5, 7];
    let missing = missing_blocks(&archived, 8);
    assert_eq!(missing, vec![0, 1, 2, 3, 4, 6, 8]);
}

#[test]
fn missing_blocks_of_empty_is_full_range() {
    let archived: Vec<u64> = Vec::new();
    let missing = missing_blocks(&archived, 4);
    assert_eq!(missing, vec![0, 1, 2, 3, 4]);
}

#[test]
fn missing_blocks_of_empty_zero_height() {
    let archived: Vec<u64> = Vec::new();
    let missing = missing_blocks(&archived, 0);
    assert_eq!(missing, vec![0]);
}

#[test]
fn missing_blocks_disjoint_subset_cover() {
    let archived: Vec<u64> = vec![0, 2, 9];
    let latest: u64 = 9;
    let missing = missing_blocks(&archived, latest);
    for m in missing.iter() {
        assert!(!archived.contains(m));
        assert!(*m <= latest);
    }
    for n in 0..=latest {
        assert!(missing.contains(&n) || archived.contains(&n));
    }
}

#[test]
fn missing_blocks_ignores_archived_beyond_range() {
    let archived: Vec<u64> = vec![1, 50];
    let missing = missing_blocks(&archived, 3);
    assert_eq!(missing, vec![0, 2, 3]);
}

#[test]
fn merge_overlapping_sources_no_duplicates_ascending() {
    let a: Vec<u64> = vec![1, 3, 5];
    let b: Vec<u64> = vec![3, 4, 5, 9];
    let merged = merge_block_numbers(&a, &b);
    assert_eq!(merged, vec![1, 3, 4, 5, 9]);
}

#[test]
fn sort_dedup_arbitrary_order() {
    let v: Vec<u64> = vec![7, 1, 7, 0, 3, 1];
    assert_eq!(sort_dedup(&v), vec![0, 1, 3, 7]);
}

#[test]
fn contains_block_finds_members_only() {
    let v: Vec<u64> = vec![2, 4, 8];
    assert!(contains_block(&v, 4));
    assert!(!contains_block(&v, 5));
}

#[test]
fn detect_missing_blocks_merges_both_sources() {
    let archiver: Vec<u64> = vec![5];
    let backfiller: Vec<u64> = vec![7];
    let missing = detect_missing_blocks(&archiver, &backfiller, 8);
    assert_eq!(missing, vec![0, 1, 2, 3, 4, 6, 8]);
}
