//! The backfill orchestrator's decision core: one pass over the missing
//! set, `Idle -> Scanning -> Diffing -> (per block: Retrieving -> Encoding
//! -> Uploading -> Persisting) -> Done`.  The outside work — page fetches,
//! RPC retrievals, uploads and store writes — happens at the call
//! boundary; each result is handed back to these functions, which decide
//! what follows.
use crate::block::{brotli_stream_ok, unbrotli_of, Block, PlanetScaleBlock};
use crate::codec::{block_wf, enc_block};
use crate::constants::{RETH_CLIENT_VERSION, WVM_NETWORK_TAG};
use crate::errors::PipelineError;
use crate::numeric::{block_hex_val, dec_digits_of, parse_block_hex};
use crate::planetscale::{has_hex_prefix, make_archive_record};
use crate::tags::Tag;
use crate::wvm_client::block_retrieval_valid;
use vstd::prelude::*;

verus! {

/// Everything needed to archive one retrieved block: the upload payload
/// and its descriptive tags, and the fields for the index record.
pub struct UploadJob {
    pub block_number: u64,
    pub block_number_dec: String,
    pub block_hash: String,
    pub payload: Vec<u8>,
    pub tags: Vec<Tag>,
    pub number_mismatch: bool,
}

/// The descriptive tags of a backfill upload: encoding scheme, block
/// number and hash, client and network identifiers, and the marker that
/// distinguishes backfilled archives from live-ingested ones.
pub open spec fn backfill_tags_ok(tags: Seq<Tag>, number_dec: Seq<char>, hash: Seq<char>) -> bool {
    &&& tags.len() == 7
    &&& tags[0].name@ == "Content-Type"@ && tags[0].value@ == "application/octet-stream"@
    &&& tags[1].name@ == "WeaveVM:Encoding"@ && tags[1].value@ == "Borsh-Brotli"@
    &&& tags[2].name@ == "Block-Number"@ && tags[2].value@ == number_dec
    &&& tags[3].name@ == "Block-Hash"@ && tags[3].value@ == hash
    &&& tags[4].name@ == "Client-Version"@ && tags[4].value@ == RETH_CLIENT_VERSION@
    &&& tags[5].name@ == "Network"@ && tags[5].value@ == WVM_NETWORK_TAG@
    &&& tags[6].name@ == "WeaveVM:Backfill"@ && tags[6].value@ == "true"@
}

/// A retrieved block the pipeline can archive: `number` and `hash`
/// present, the number in wire convention, every length within the
/// codec's bounds.
pub open spec fn block_uploadable(b: Block) -> bool {
    block_retrieval_valid(b) && block_wf(b.deep_view())
}

/// Prepares the archival of one retrieved block: trusts the block's own
/// `number` and `hash` over the requested number, encodes and compresses
/// the block, and assembles the upload tags.  A block without `number` or
/// `hash`, or with a non-hex number, is a malformed response; an encoding
/// overflow — unreachable for RPC-returned blocks — is an encoding error.
/// A disagreement between the requested and the reported number is
/// flagged for the caller to surface, not silently ignored.
pub fn prepare_block_upload(requested_number: u64, wvm_block: &Block) -> (r: Result<
    UploadJob,
    PipelineError,
>)
    ensures
        r is Ok <==> block_uploadable(*wvm_block),
        r matches Ok(job) ==> ({
            &&& job.block_number as nat == block_hex_val(wvm_block.number.unwrap()@)
            &&& job.block_number_dec@ == dec_digits_of(block_hex_val(wvm_block.number.unwrap()@))
            &&& job.block_hash@ == wvm_block.hash.unwrap()@
            &&& brotli_stream_ok(job.payload@)
            &&& unbrotli_of(job.payload@) == enc_block(wvm_block.deep_view())
            &&& backfill_tags_ok(job.tags@, job.block_number_dec@, job.block_hash@)
            &&& job.number_mismatch == (job.block_number != requested_number)
        }),
        r matches Err(e) ==> ((e == PipelineError::MalformedResponse && !block_retrieval_valid(
            *wvm_block,
        )) || (e == PipelineError::EncodingError && block_retrieval_valid(*wvm_block) && !block_wf(
            wvm_block.deep_view(),
        ))),
{
    let number_hex = match &wvm_block.number {
        Some(n) => n,
        None => {
            return Err(PipelineError::MalformedResponse);
        },
    };
    let number_val = match parse_block_hex(number_hex.as_str()) {
        Some(v) => v,
        None => {
            return Err(PipelineError::MalformedResponse);
        },
    };
    let block_hash = match &wvm_block.hash {
        Some(h) => h,
        None => {
            return Err(PipelineError::MalformedResponse);
        },
    };
    let encoded = match Block::try_borsh_ser(wvm_block) {
        Some(p) => p,
        None => {
            return Err(PipelineError::EncodingError);
        },
    };
    let payload = Block::brotli_compress(encoded.as_slice());
    let number_dec = crate::numeric::u64_to_dec_string(number_val);
    let mut tags: Vec<Tag> = Vec::new();
    tags.push(Tag::new("Content-Type", "application/octet-stream"));
    tags.push(Tag::new("WeaveVM:Encoding", "Borsh-Brotli"));
    tags.push(Tag::new("Block-Number", number_dec.as_str()));
    tags.push(Tag::new("Block-Hash", block_hash.as_str()));
    tags.push(Tag::new("Client-Version", RETH_CLIENT_VERSION));
    tags.push(Tag::new("Network", WVM_NETWORK_TAG));
    tags.push(Tag::new("WeaveVM:Backfill", "true"));
    let number_mismatch = number_val != requested_number;
    Ok(
        UploadJob {
            block_number: number_val,
            block_number_dec: number_dec,
            block_hash: block_hash.clone(),
            payload,
            tags,
            number_mismatch,
        },
    )
}

/// What a backfill pass does next.
#[derive(Clone, Debug, PartialEq, Eq, Structural)]
pub enum PassAction {
    /// Retrieve this block from the chain and archive it.
    Fetch(u64),
    /// The pass is over: every missing block was handled, or an upload
    /// failure aborted it.
    Finished,
}

/// One backfill pass: the missing blocks to archive, in order, the
/// position reached, and whether an upload failure aborted the pass.
pub struct BackfillPass {
    pub missing: Vec<u64>,
    pub next_index: usize,
    pub aborted: bool,
}

impl BackfillPass {
    /// Starts one pass over a computed missing set.
    pub fn start(missing: Vec<u64>) -> (r: BackfillPass)
        ensures
            r.missing == missing,
            r.next_index == 0,
            !r.aborted,
    {
        BackfillPass { missing, next_index: 0, aborted: false }
    }

    pub fn current_action(&self) -> (r: PassAction)
        ensures
            (self.aborted || self.next_index >= self.missing@.len()) ==> r
                == PassAction::Finished,
            (!self.aborted && self.next_index < self.missing@.len()) ==> r == PassAction::Fetch(
                self.missing@[self.next_index as int],
            ),
    {
        if self.aborted || self.next_index >= self.missing.len() {
            PassAction::Finished
        } else {
            PassAction::Fetch(self.missing[self.next_index])
        }
    }

    /// Decides after an upload.  A rejected upload is fatal to the whole
    /// pass: no block is skipped and retried later.  An accepted upload
    /// yields the record to persist; nothing guards against archiving the
    /// same block twice — each upload bills one write and returns a fresh
    /// identifier, so the caller must not re-run a pass concurrently.
    pub fn on_upload_result(&mut self, job: &UploadJob, outcome: Result<String, PipelineError>) -> (r:
        Result<PlanetScaleBlock, PipelineError>)
        ensures
            outcome is Err ==> ({
                &&& final(self).aborted
                &&& final(self).missing == old(self).missing
                &&& final(self).next_index == old(self).next_index
                &&& r == Result::<PlanetScaleBlock, PipelineError>::Err(
                    PipelineError::UploadRejected,
                )
            }),
            outcome matches Ok(id) ==> ({
                &&& *final(self) == *old(self)
                &&& r matches Ok(rec)
                &&& rec.block_number == job.block_number
                &&& rec.arweave_hash@ == id@
                &&& has_hex_prefix(job.block_hash@) ==> rec.block_hash@ == job.block_hash@.skip(2)
                &&& !has_hex_prefix(job.block_hash@) ==> rec.block_hash@ == job.block_hash@
            }),
    {
        match outcome {
            Ok(id) => Ok(
                make_archive_record(job.block_number, job.block_hash.as_str(), id.as_str()),
            ),
            Err(_) => {
                self.aborted = true;
                Err(PipelineError::UploadRejected)
            },
        }
    }

    /// Decides after a store write.  A persistence failure is recovered,
    /// never raised to the pass's caller: whatever the outcome, the pass
    /// is not aborted and moves to the next missing block.  An uploaded
    /// block can therefore exist on the archival network without an index
    /// record; callers should surface the failure for out-of-band
    /// reconciliation.
    pub fn on_persist_result(&mut self, outcome: Result<(), PipelineError>)
        requires
            old(self).next_index < old(self).missing@.len(),
        ensures
            final(self).next_index == old(self).next_index + 1,
            final(self).aborted == old(self).aborted,
            final(self).missing == old(self).missing,
    {
        let _ = outcome;
        let bound = self.missing.len();
        proof {
            assert(self.next_index < bound);
        }
        self.next_index = self.next_index + 1;
    }
}

} // verus!
