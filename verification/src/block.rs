use crate::errors::PipelineError;
use std::io::Read;
use std::io::Write;
use vstd::prelude::*;

verus! {

/// One chain block as returned by the RPC: every scalar field is an
/// optional hex-encoded string, plus the inlined transactions and the
/// uncle/withdrawal references.
#[derive(Clone, Debug, PartialEq)]
pub struct Block {
    pub base_fee_per_gas: Option<String>,
    pub blob_gas_used: Option<String>,
    pub difficulty: Option<String>,
    pub excess_blob_gas: Option<String>,
    pub extra_data: Option<String>,
    pub gas_limit: Option<String>,
    pub gas_used: Option<String>,
    pub hash: Option<String>,
    pub logs_bloom: Option<String>,
    pub miner: Option<String>,
    pub mix_hash: Option<String>,
    pub nonce: Option<String>,
    pub number: Option<String>,
    pub parent_beacon_block_root: Option<String>,
    pub parent_hash: Option<String>,
    pub receipts_root: Option<String>,
    pub sha3_uncles: Option<String>,
    pub size: Option<String>,
    pub state_root: Option<String>,
    pub timestamp: Option<String>,
    pub total_difficulty: Option<String>,
    pub transactions: Option<Vec<Transaction>>,
    pub uncles: Option<Vec<String>>,
    pub withdrawals: Option<Vec<String>>,
    pub withdrawals_root: Option<String>,
}

/// One transaction: a flat record of optional scalar strings.
#[derive(Clone, Debug, PartialEq)]
pub struct Transaction {
    pub block_hash: Option<String>,
    pub block_number: Option<String>,
    pub chain_id: Option<String>,
    pub from: Option<String>,
    pub gas: Option<String>,
    pub gas_price: Option<String>,
    pub hash: Option<String>,
    pub input: Option<String>,
    pub nonce: Option<String>,
    pub r: Option<String>,
    pub s: Option<String>,
    pub to: Option<String>,
    pub transaction_index: Option<String>,
    pub transaction_type: Option<String>,
    pub v: Option<String>,
    pub value: Option<String>,
}

/// The mathematical value of a `Block`: each string as its character
/// sequence.
#[verifier::ext_equal]
pub struct BlockModel {
    pub base_fee_per_gas: Option<Seq<char>>,
    pub blob_gas_used: Option<Seq<char>>,
    pub difficulty: Option<Seq<char>>,
    pub excess_blob_gas: Option<Seq<char>>,
    pub extra_data: Option<Seq<char>>,
    pub gas_limit: Option<Seq<char>>,
    pub gas_used: Option<Seq<char>>,
    pub hash: Option<Seq<char>>,
    pub logs_bloom: Option<Seq<char>>,
    pub miner: Option<Seq<char>>,
    pub mix_hash: Option<Seq<char>>,
    pub nonce: Option<Seq<char>>,
    pub number: Option<Seq<char>>,
    pub parent_beacon_block_root: Option<Seq<char>>,
    pub parent_hash: Option<Seq<char>>,
    pub receipts_root: Option<Seq<char>>,
    pub sha3_uncles: Option<Seq<char>>,
    pub size: Option<Seq<char>>,
    pub state_root: Option<Seq<char>>,
    pub timestamp: Option<Seq<char>>,
    pub total_difficulty: Option<Seq<char>>,
    pub transactions: Option<Seq<TransactionModel>>,
    pub uncles: Option<Seq<Seq<char>>>,
    pub withdrawals: Option<Seq<Seq<char>>>,
    pub withdrawals_root: Option<Seq<char>>,
}

/// The mathematical value of a `Transaction`.
#[verifier::ext_equal]
pub struct TransactionModel {
    pub block_hash: Option<Seq<char>>,
    pub block_number: Option<Seq<char>>,
    pub chain_id: Option<Seq<char>>,
    pub from: Option<Seq<char>>,
    pub gas: Option<Seq<char>>,
    pub gas_price: Option<Seq<char>>,
    pub hash: Option<Seq<char>>,
    pub input: Option<Seq<char>>,
    pub nonce: Option<Seq<char>>,
    pub r: Option<Seq<char>>,
    pub s: Option<Seq<char>>,
    pub to: Option<Seq<char>>,
    pub transaction_index: Option<Seq<char>>,
    pub transaction_type: Option<Seq<char>>,
    pub v: Option<Seq<char>>,
    pub value: Option<Seq<char>>,
}

impl DeepView for Transaction {
    type V = TransactionModel;

    open spec fn deep_view(&self) -> TransactionModel {
        TransactionModel {
            block_hash: self.block_hash.deep_view(),
            block_number: self.block_number.deep_view(),
            chain_id: self.chain_id.deep_view(),
            from: self.from.deep_view(),
            gas: self.gas.deep_view(),
            gas_price: self.gas_price.deep_view(),
            hash: self.hash.deep_view(),
            input: self.input.deep_view(),
            nonce: self.nonce.deep_view(),
            r: self.r.deep_view(),
            s: self.s.deep_view(),
            to: self.to.deep_view(),
            transaction_index: self.transaction_index.deep_view(),
            transaction_type: self.transaction_type.deep_view(),
            v: self.v.deep_view(),
            value: self.value.deep_view(),
        }
    }
}

impl DeepView for Block {
    type V = BlockModel;

    open spec fn deep_view(&self) -> BlockModel {
        BlockModel {
            base_fee_per_gas: self.base_fee_per_gas.deep_view(),
            blob_gas_used: self.blob_gas_used.deep_view(),
            difficulty: self.difficulty.deep_view(),
            excess_blob_gas: self.excess_blob_gas.deep_view(),
            extra_data: self.extra_data.deep_view(),
            gas_limit: self.gas_limit.deep_view(),
            gas_used: self.gas_used.deep_view(),
            hash: self.hash.deep_view(),
            logs_bloom: self.logs_bloom.deep_view(),
            miner: self.miner.deep_view(),
            mix_hash: self.mix_hash.deep_view(),
            nonce: self.nonce.deep_view(),
            number: self.number.deep_view(),
            parent_beacon_block_root: self.parent_beacon_block_root.deep_view(),
            parent_hash: self.parent_hash.deep_view(),
            receipts_root: self.receipts_root.deep_view(),
            sha3_uncles: self.sha3_uncles.deep_view(),
            size: self.size.deep_view(),
            state_root: self.state_root.deep_view(),
            timestamp: self.timestamp.deep_view(),
            total_difficulty: self.total_difficulty.deep_view(),
            transactions: self.transactions.deep_view(),
            uncles: self.uncles.deep_view(),
            withdrawals: self.withdrawals.deep_view(),
            withdrawals_root: self.withdrawals_root.deep_view(),
        }
    }
}

/// The bytes a brotli stream decodes to.
pub uninterp spec fn unbrotli_of(data: Seq<u8>) -> Seq<u8>;

/// Whether a byte sequence is a well-formed brotli stream.
pub uninterp spec fn brotli_stream_ok(data: Seq<u8>) -> bool;

impl Block {
    /// Relies on brotli::CompressorWriter (buffer 4096, quality 11, window
    /// 22): the produced stream is well formed and decompresses back to
    /// exactly the input bytes.  Writing into an in-memory buffer cannot
    /// fail.
    #[verifier::external_body]
    pub fn brotli_compress(input: &[u8]) -> (r: Vec<u8>)
        ensures
            brotli_stream_ok(r@),
            unbrotli_of(r@) == input@,
    {
        let mut writer: brotli::CompressorWriter<Vec<u8>> =
            brotli::CompressorWriter::new(Vec::new(), 4096, 11, 22);
        writer.write_all(input).unwrap();
        writer.into_inner()
    }

    /// Relies on brotli::Decompressor: decodes a well-formed brotli stream
    /// to the bytes it encodes and fails on a malformed one.
    #[verifier::external_body]
    pub fn brotli_decompress(input: &[u8]) -> (r: Result<Vec<u8>, PipelineError>)
        ensures
            brotli_stream_ok(input@) ==> r is Ok,
            r is Ok ==> r->Ok_0@ == unbrotli_of(input@),
    {
        let mut out: Vec<u8> = Vec::new();
        let mut dec = brotli::Decompressor::new(input, 4096);
        match dec.read_to_end(&mut out) {
            Ok(_) => Ok(out),
            Err(_) => Err(PipelineError::EncodingError),
        }
    }
}

/// The persisted archive record: one row of the index the serving layer
/// reads.
#[derive(Clone, Debug, PartialEq, Eq)]
pub struct PlanetScaleBlock {
    pub block_hash: String,
    pub block_number: u64,
    pub arweave_hash: String,
}

} // verus!
