use vstd::prelude::*;

verus! {

/// Failures that the library reports.
///
/// The validation variants are raised locally, before any request exists;
/// `Status` carries a non-success HTTP status answered by the service, and
/// `MalformedResponse` a response body that could not be decoded.
#[derive(Debug, Clone, Copy, PartialEq, Eq, Structural)]
pub enum Error {
    InvalidBucketName,
    InvalidObjectKey,
    InvalidUploadId,
    InvalidPartNumber,
    InvalidBase64,
    InvalidFilePath,
    Status(u16),
    MalformedResponse,
}

} // verus!
