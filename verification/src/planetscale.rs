use crate::block::PlanetScaleBlock;
use vstd::prelude::*;
use vstd::string::StrSliceExecFns;

verus! {

/// Whether a string starts with the `0x` wire prefix.
pub open spec fn has_hex_prefix(s: Seq<char>) -> bool {
    s.len() >= 2 && s[0] == '0' && s[1] == 'x'
}

/// Removes a leading `0x` if present: the index store keys block hashes
/// without the wire prefix.
pub fn strip_hex_prefix(s: &str) -> (r: String)
    ensures
        has_hex_prefix(s@) ==> r@ == s@.skip(2),
        !has_hex_prefix(s@) ==> r@ == s@,
{
    let n = s.unicode_len();
    if n >= 2 && s.get_char(0) == '0' && s.get_char(1) == 'x' {
        let rest = s.substring_char(2, n);
        proof {
            assert(rest@ =~= s@.skip(2));
        }
        rest.to_owned()
    } else {
        s.to_owned()
    }
}

/// Builds the archive record persisted after a successful upload: the
/// block number, the block hash without its `0x` prefix, and the archive
/// identifier the network returned.
pub fn make_archive_record(block_number: u64, block_hash: &str, arweave_hash: &str) -> (r:
    PlanetScaleBlock)
    ensures
        r.block_number == block_number,
        r.arweave_hash@ == arweave_hash@,
        has_hex_prefix(block_hash@) ==> r.block_hash@ == block_hash@.skip(2),
        !has_hex_prefix(block_hash@) ==> r.block_hash@ == block_hash@,
{
    PlanetScaleBlock {
        block_hash: strip_hex_prefix(block_hash),
        block_number,
        arweave_hash: arweave_hash.to_owned(),
    }
}

} // verus!
