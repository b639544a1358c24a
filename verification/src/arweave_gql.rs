use crate::gap::{merge_block_numbers, missing_blocks, sort_dedup, sorted_strict};
use crate::numeric::{dec_val, parse_u64_decimal, parses_as_u64_dec};
use crate::tags::Tag;
use vstd::prelude::*;
use vstd::string::StrSliceExecFns;

verus! {

/// One edge of a paged archive-index response: the node's tags and the
/// edge's continuation cursor.
pub struct ScanEdge {
    pub tags: Vec<Tag>,
    pub cursor: String,
}

/// One page of a paged archive-index response.
pub struct ScanPage {
    pub edges: Vec<ScanEdge>,
    pub has_next_page: bool,
}

/// Character-wise string equality.
fn str_eq(a: &str, b: &str) -> (r: bool)
    ensures
        r == (a@ == b@),
{
    let n = a.unicode_len();
    if n != b.unicode_len() {
        proof {
            assert(a@ != b@);
        }
        return false;
    }
    let mut i: usize = 0;
    while i < n
        invariant
            n == a@.len(),
            n == b@.len(),
            i <= n,
            forall|j: int| 0 <= j < i ==> a@[j] == b@[j],
        decreases n - i,
    {
        if a.get_char(i) != b.get_char(i) {
            proof {
                assert(a@ != b@);
            }
            return false;
        }
        i += 1;
    }
    proof {
        assert(a@ =~= b@);
    }
    true
}

/// A tag that carries a node's archived block number: named
/// `Block-Number`, with a value that parses as an unsigned decimal.
pub open spec fn tag_is_block_number(t: Tag) -> bool {
    t.name@ == "Block-Number"@ && parses_as_u64_dec(t.value@)
}

/// The block number a node's tag list reports: the first `Block-Number`
/// tag with a parseable value, skipping unparseable ones.
pub open spec fn block_number_of_tags(tags: Seq<Tag>) -> Option<u64>
    decreases tags.len(),
{
    if tags.len() == 0 {
        None
    } else if tag_is_block_number(tags[0]) {
        Some((dec_val(tags[0].value@) as u64))
    } else {
        block_number_of_tags(tags.drop_first())
    }
}

/// The block numbers one page reports, in edge order; edges without a
/// parseable `Block-Number` tag are skipped, not errored.
pub open spec fn blocks_of_page(edges: Seq<ScanEdge>) -> Seq<u64>
    decreases edges.len(),
{
    if edges.len() == 0 {
        Seq::<u64>::empty()
    } else {
        blocks_of_page(edges.drop_last()) + match block_number_of_tags(edges.last().tags@) {
            Some(n) => seq![n],
            None => Seq::<u64>::empty(),
        }
    }
}

/// The cursor to continue from after a page: the last edge's cursor, or
/// none on an empty page.
pub open spec fn page_cursor(edges: Seq<ScanEdge>) -> Option<String> {
    if edges.len() == 0 {
        None
    } else {
        Some(edges.last().cursor)
    }
}

/// Extracts a node's block number from its tag list.
pub fn extract_block_number(tags: &Vec<Tag>) -> (r: Option<u64>)
    ensures
        r == block_number_of_tags(tags@),
{
    let mut i: usize = 0;
    proof {
        assert(tags@.skip(0) =~= tags@);
    }
    while i < tags.len()
        invariant
            i <= tags@.len(),
            block_number_of_tags(tags@) == block_number_of_tags(tags@.skip(i as int)),
        decreases tags@.len() - i,
    {
        proof {
            assert(tags@.skip(i as int)[0] == tags@[i as int]);
            assert(tags@.skip(i as int).drop_first() =~= tags@.skip(i + 1));
        }
        if str_eq(tags[i].name.as_str(), "Block-Number") {
            if let Some(n) = parse_u64_decimal(tags[i].value.as_str()) {
                return Some(n);
            }
        }
        i += 1;
    }
    proof {
        assert(tags@.skip(tags@.len() as int) =~= Seq::<Tag>::empty());
    }
    None
}

/// The scanner's pagination state for one source identity.  Pagination
/// stops when a page reports no continuation or when the page counter
/// exceeds `max_pages` — a page-count cap, not a result-count cap, so a
/// caller must choose `max_pages` large enough to reach full chain depth.
pub struct ScanState {
    pub max_pages: u32,
    pub pages_fetched: u32,
    pub block_numbers: Vec<u64>,
    pub cursor: Option<String>,
    pub finished: bool,
}

impl ScanState {
    /// A fresh scan with the given page-count cap.
    pub fn begin(max_pages: u32) -> (s: ScanState)
        ensures
            s.max_pages == max_pages,
            s.pages_fetched == 0,
            s.block_numbers@ == Seq::<u64>::empty(),
            s.cursor is None,
            !s.finished,
    {
        ScanState {
            max_pages,
            pages_fetched: 0,
            block_numbers: Vec::new(),
            cursor: None,
            finished: false,
        }
    }

    /// Absorbs one fetched page: counts it, appends every block number it
    /// reports, and decides whether to continue.  The page's results are
    /// used even on the page that trips the page-count guard.
    pub fn absorb_page(&mut self, page: ScanPage)
        requires
            old(self).pages_fetched < u32::MAX,
            !old(self).finished,
        ensures
            final(self).max_pages == old(self).max_pages,
            final(self).pages_fetched == old(self).pages_fetched + 1,
            final(self).block_numbers@ == old(self).block_numbers@ + blocks_of_page(page.edges@),
            final(self).finished == (!page.has_next_page || old(self).pages_fetched + 1
                > old(self).max_pages),
            page.has_next_page ==> final(self).cursor == page_cursor(page.edges@),
            !page.has_next_page ==> final(self).cursor == old(self).cursor,
    {
        self.pages_fetched = self.pages_fetched + 1;
        let ghost base = self.block_numbers@;
        let mut i: usize = 0;
        while i < page.edges.len()
            invariant
                i <= page.edges@.len(),
                self.block_numbers@ == base + blocks_of_page(page.edges@.take(i as int)),
                self.max_pages == old(self).max_pages,
                self.pages_fetched == old(self).pages_fetched + 1,
                self.cursor == old(self).cursor,
                self.finished == old(self).finished,
            decreases page.edges@.len() - i,
        {
            proof {
                assert(page.edges@.take(i + 1).drop_last() =~= page.edges@.take(i as int));
                assert(page.edges@.take(i + 1).last() == page.edges@[i as int]);
            }
            if let Some(n) = extract_block_number(&page.edges[i].tags) {
                self.block_numbers.push(n);
                proof {
                    assert(base + blocks_of_page(page.edges@.take(i + 1)) =~= (base
                        + blocks_of_page(page.edges@.take(i as int))).push(n));
                }
            } else {
                proof {
                    assert(base + blocks_of_page(page.edges@.take(i + 1)) =~= base
                        + blocks_of_page(page.edges@.take(i as int)));
                }
            }
            i += 1;
        }
        proof {
            assert(page.edges@.take(page.edges@.len() as int) =~= page.edges@);
        }
        if !page.has_next_page {
            self.finished = true;
        } else {
            if page.edges.len() > 0 {
                let last = page.edges.len() - 1;
                self.cursor = Some(page.edges[last].cursor.clone());
            } else {
                self.cursor = None;
            }
            if self.pages_fetched > self.max_pages {
                self.finished = true;
            }
        }
    }

    /// Ends the scan for this identity: its de-duplicated ascending set of
    /// block numbers.
    pub fn finish(&self) -> (r: Vec<u64>)
        ensures
            sorted_strict(r@),
            forall|m: u64| #![trigger r@.contains(m)]
                r@.contains(m) <==> self.block_numbers@.contains(m),
    {
        sort_dedup(&self.block_numbers)
    }
}

/// The page a lenient scan substitutes for one whose fetch failed: no
/// edges and no continuation.
pub fn generate_empty_gql_server_res() -> (p: ScanPage)
    ensures
        p.edges@ == Seq::<ScanEdge>::empty(),
        !p.has_next_page,
        blocks_of_page(p.edges@) == Seq::<u64>::empty(),
{
    ScanPage { edges: Vec::new(), has_next_page: false }
}

/// The reconciliation core: merges the block numbers scanned for the two
/// publisher identities and returns every block number in
/// `[0, latest_block]` that neither reported, in ascending order.
pub fn detect_missing_blocks(
    archiver_blocks: &Vec<u64>,
    backfiller_blocks: &Vec<u64>,
    latest_block: u64,
) -> (r: Vec<u64>)
    ensures
        sorted_strict(r@),
        forall|m: u64| #![trigger r@.contains(m)]
            r@.contains(m) <==> (m <= latest_block && !archiver_blocks@.contains(m)
                && !backfiller_blocks@.contains(m)),
{
    let merged = merge_block_numbers(archiver_blocks, backfiller_blocks);
    missing_blocks(&merged, latest_block)
}

} // verus!
