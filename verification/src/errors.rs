use vstd::prelude::*;

verus! {

/// The pipeline's error taxonomy, one variant per failure class.
///
/// `TransportError` covers network failures on any external call;
/// `MalformedResponse` a schema violation in an external payload;
/// `EncodingError` a serialization or compression failure (unreachable for
/// well-formed blocks); `UploadRejected` a refusal by the archival network;
/// `PersistenceError` a failed store write.
#[derive(Clone, Copy, Debug, PartialEq, Eq, Structural)]
pub enum PipelineError {
    TransportError,
    MalformedResponse,
    EncodingError,
    UploadRejected,
    PersistenceError,
}

impl PipelineError {
    /// A short stable description, usable where `Display` would be.
    pub fn describe(&self) -> (r: &'static str)
        ensures
            r@ == match self {
                PipelineError::TransportError => "transport error"@,
                PipelineError::MalformedResponse => "malformed response"@,
                PipelineError::EncodingError => "encoding error"@,
                PipelineError::UploadRejected => "upload rejected"@,
                PipelineError::PersistenceError => "persistence error"@,
            },
    {
        match self {
            PipelineError::TransportError => "transport error",
            PipelineError::MalformedResponse => "malformed response",
            PipelineError::EncodingError => "encoding error",
            PipelineError::UploadRejected => "upload rejected",
            PipelineError::PersistenceError => "persistence error",
        }
    }
}

} // verus!
