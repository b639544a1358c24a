use wvm_backfill::arweave_gql::{
    extract_block_number, generate_empty_gql_server_res, ScanEdge, ScanPage, ScanState,
};
use wvm_backfill::tags::Tag;

fn edge(block_number: &str, cursor: &str) -> ScanEdge {
    ScanEdge {
        tags: vec![
            Tag::new("Protocol", "WeaveVM-ExEx"),
            Tag::new("Block-Number", block_number),
        ],
        cursor: cursor.to_string(),
    }
}

#[test]
fn extract_first_parseable_block_number_tag() {
    let tags = vec![
        Tag::new("Protocol", "WeaveVM-ExEx"),
        Tag::new("Block-Number", "not-a-number"),
        Tag::new("Block-Number", "17"),
        Tag::new("Block-Number", "99"),
    ];
    assert_eq!(extract_block_number(&tags), Some(17));
}

#[test]
fn extract_none_without_block_number_tag() {
    let tags = vec![Tag::new("Protocol", "WeaveVM-ExEx")];
    assert_eq!(extract_block_number(&tags), None);
    assert_eq!(extract_block_number(&Vec::new()), None);
}

#[test]
fn page_count_guard_stops_after_three_fetches_with_max_pages_two() {
    // A source that reports a continuation on every page: with a cap of 2
    // the guard trips on page 3, after page 3's results are absorbed.
    let mut scan = ScanState::begin(2);
    let mut fetches = 0u32;
    let mut next_block = 0u64;
    while !scan.finished {
        let page = ScanPage {
            edges: vec![edge(&next_block.to_string(), "cursor")],
            has_next_page: true,
        };
        next_block += 1;
        fetches += 1;
        scan.absorb_page(page);
        assert!(fetches <= 3, "the page-count guard must trip on page 3");
    }
    assert_eq!(fetches, 3);
    assert_eq!(scan.pages_fetched, 3);
    assert_eq!(scan.block_numbers, vec![0, 1, 2], "page 3's results are used");
}

#[test]
fn scan_stops_when_no_next_page() {
    let mut scan = ScanState::begin(10);
    scan.absorb_page(ScanPage {
        edges: vec![edge("5", "c1"), edge("3", "c2")],
        has_next_page: false,
    });
    assert!(scan.finished);
    assert_eq!(scan.pages_fetched, 1);
    assert_eq!(scan.finish(), vec![3, 5]);
}

#[test]
fn scan_cursor_follows_last_edge() {
    let mut scan = ScanState::begin(10);
    scan.absorb_page(ScanPage {
        edges: vec![edge("1", "first"), edge("2", "last")],
        has_next_page: true,
    });
    assert!(!scan.finished);
    assert_eq!(scan.cursor.as_deref(), Some("last"));
}

#[test]
fn finish_sorts_and_dedups_across_pages() {
    let mut scan = ScanState::begin(10);
    scan.absorb_page(ScanPage {
        edges: vec![edge("9", "c1"), edge("4", "c2")],
        has_next_page: true,
    });
    scan.absorb_page(ScanPage {
        edges: vec![edge("4", "c3"), edge("1", "c4")],
        has_next_page: false,
    });
    assert_eq!(scan.finish(), vec![1, 4, 9]);
}

#[test]
fn empty_server_response_ends_the_scan_leniently() {
    let page = generate_empty_gql_server_res();
    assert!(page.edges.is_empty());
    assert!(!page.has_next_page);
    let mut scan = ScanState::begin(5);
    scan.absorb_page(page);
    assert!(scan.finished);
    assert_eq!(scan.finish(), Vec::<u64>::new());
}

#[test]
fn nodes_without_parseable_tag_are_skipped_not_errored() {
    let mut scan = ScanState::begin(5);
    scan.absorb_page(ScanPage {
        edges: vec![
            ScanEdge { tags: vec![Tag::new("Block-Number", "oops")], cursor: "c".to_string() },
            edge("8", "c2"),
        ],
        has_next_page: false,
    });
    assert_eq!(scan.finish(), vec![8]);
}
