use crate::block::Block;
use crate::errors::PipelineError;
use crate::numeric::{
    block_hex_val, dec_digits_of, hex_digits_of, parse_block_hex, parses_as_block_hex,
    u64_to_dec_string, u64_to_hex_string,
};
use vstd::prelude::*;

verus! {

/// Converts a `0x`-prefixed hexadecimal block number to its canonical
/// decimal string.  The wire value must be valid; use
/// [`try_block_hex_to_decimal`] on unvalidated input.
pub fn block_hex_to_decimal(hex_str: &str) -> (r: String)
    requires
        parses_as_block_hex(hex_str@),
    ensures
        r@ == dec_digits_of(block_hex_val(hex_str@)),
{
    let v = match parse_block_hex(hex_str) {
        Some(v) => v,
        None => {
            proof {
                assert(false);
            }
            0
        },
    };
    u64_to_dec_string(v)
}

/// Checked form of [`block_hex_to_decimal`]: rejects exactly the payloads
/// that are not `0x`-prefixed 64-bit hexadecimal numbers.
pub fn try_block_hex_to_decimal(hex_str: &str) -> (r: Option<String>)
    ensures
        parses_as_block_hex(hex_str@) ==> (r matches Some(s) && s@ == dec_digits_of(
            block_hex_val(hex_str@),
        )),
        !parses_as_block_hex(hex_str@) ==> r is None,
{
    match parse_block_hex(hex_str) {
        Some(v) => Some(u64_to_dec_string(v)),
        None => None,
    }
}

/// Renders a block number in the RPC request convention
/// (`0x`-prefixed lowercase hexadecimal), as `eth_getBlockByNumber` takes
/// it.
pub fn block_number_to_hex(n: u64) -> (r: String)
    ensures
        r@ == seq!['0', 'x'] + hex_digits_of(n as nat),
        parses_as_block_hex(r@),
        block_hex_val(r@) == n as nat,
{
    u64_to_hex_string(n)
}

/// Decodes the `result` field of an `eth_blockNumber` response: a
/// `0x`-prefixed hexadecimal height.  Anything else is a malformed
/// response.
pub fn parse_latest_block_number(result_field: &str) -> (r: Result<u64, PipelineError>)
    ensures
        parses_as_block_hex(result_field@) ==> r == Result::<u64, PipelineError>::Ok(
            (block_hex_val(result_field@) as u64),
        ),
        !parses_as_block_hex(result_field@) ==> r == Result::<u64, PipelineError>::Err(
            PipelineError::MalformedResponse,
        ),
{
    match parse_block_hex(result_field) {
        Some(v) => Ok(v),
        None => Err(PipelineError::MalformedResponse),
    }
}

/// A retrieved block may enter the pipeline only with its `number` and
/// `hash` present and the number in wire convention.
pub open spec fn block_retrieval_valid(b: Block) -> bool {
    &&& b.number matches Some(n) && parses_as_block_hex(n@)
    &&& b.hash is Some
}

/// Validates a block fresh from retrieval: absence of `number` or `hash`,
/// or a non-hex `number`, is a malformed response.
pub fn validate_retrieved_block(b: &Block) -> (r: Result<(), PipelineError>)
    ensures
        r is Ok <==> block_retrieval_valid(*b),
        r is Err ==> r == Result::<(), PipelineError>::Err(PipelineError::MalformedResponse),
{
    let number_ok = match &b.number {
        Some(n) => parse_block_hex(n.as_str()).is_some(),
        None => false,
    };
    if !number_ok {
        return Err(PipelineError::MalformedResponse);
    }
    if b.hash.is_none() {
        return Err(PipelineError::MalformedResponse);
    }
    Ok(())
}

} // verus!
