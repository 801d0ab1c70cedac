//! The ways in which a transfer ends early.

use vstd::prelude::*;

verus! {

/// One of the six response headers that describe the rate-limit window.
#[derive(Clone, Copy, Debug, PartialEq, Eq, Structural)]
pub enum RateLimitHeader {
    /// Ceiling on the bytes that may be sent within the window.
    ByteMax,
    /// Bytes already sent within the window.
    SentBytes,
    /// Ceiling on the number of requests within the window.
    Max,
    /// Requests already made within the window.
    RequestCount,
    /// Length of the window in milliseconds, counted from its start.
    Reset,
    /// Start of the window in milliseconds since the Unix epoch.
    LastReset,
}

impl RateLimitHeader {
    /// The header's name as the service writes it.
    pub open spec fn text(self) -> Seq<char> {
        match self {
            RateLimitHeader::ByteMax => "X-RateLimit-Byte-Max"@,
            RateLimitHeader::SentBytes => "X-RateLimit-Sent-Bytes"@,
            RateLimitHeader::Max => "X-RateLimit-Max"@,
            RateLimitHeader::RequestCount => "X-RateLimit-Request-Count"@,
            RateLimitHeader::Reset => "X-RateLimit-Reset"@,
            RateLimitHeader::LastReset => "X-RateLimit-Last-Reset"@,
        }
    }

    /// The header's name as the service writes it.
    pub fn name(self) -> (r: &'static str)
        ensures
            r@ == self.text(),
    {
        match self {
            RateLimitHeader::ByteMax => "X-RateLimit-Byte-Max",
            RateLimitHeader::SentBytes => "X-RateLimit-Sent-Bytes",
            RateLimitHeader::Max => "X-RateLimit-Max",
            RateLimitHeader::RequestCount => "X-RateLimit-Request-Count",
            RateLimitHeader::Reset => "X-RateLimit-Reset",
            RateLimitHeader::LastReset => "X-RateLimit-Last-Reset",
        }
    }
}

/// Why a transfer stopped. Every error ends the run: nothing is retried and
/// nothing already stored or written is taken back.
#[derive(Debug, PartialEq, Eq)]
pub enum TransferError {
    /// The instance did not answer the request for its description.
    InstanceUnreachable,
    /// The instance's description lacks a field, or its ceiling of zero bytes
    /// leaves no way to cut the file into parts.
    InstanceInfoMalformed,
    /// The file already fits into one object.
    FileTooSmallForSplitting,
    /// Storing the part with this index failed.
    PartUploadFailed { index: u64 },
    /// Storing the manifest failed.
    ManifestUploadFailed,
    /// A response came without this rate-limit header.
    RateLimitHeaderMissing { header: RateLimitHeader },
    /// This rate-limit header of a response is not an unsigned number.
    RateLimitHeaderUnparseable { header: RateLimitHeader },
    /// The manifest could not be fetched.
    ManifestFetchFailed,
    /// A file name or an identifier cannot be told apart from the separator.
    ManifestMalformed,
    /// The part with this identifier could not be fetched.
    PartFetchFailed { id: Vec<u8> },
}

/// A transfer error as contracts speak of it: the identifier it may carry is
/// taken as a byte sequence.
pub enum TransferErrorView {
    InstanceUnreachable,
    InstanceInfoMalformed,
    FileTooSmallForSplitting,
    PartUploadFailed { index: u64 },
    ManifestUploadFailed,
    RateLimitHeaderMissing { header: RateLimitHeader },
    RateLimitHeaderUnparseable { header: RateLimitHeader },
    ManifestFetchFailed,
    ManifestMalformed,
    PartFetchFailed { id: Seq<u8> },
}

impl View for TransferError {
    type V = TransferErrorView;

    open spec fn view(&self) -> TransferErrorView {
        match *self {
            TransferError::InstanceUnreachable => TransferErrorView::InstanceUnreachable,
            TransferError::InstanceInfoMalformed => TransferErrorView::InstanceInfoMalformed,
            TransferError::FileTooSmallForSplitting => TransferErrorView::FileTooSmallForSplitting,
            TransferError::PartUploadFailed { index } => TransferErrorView::PartUploadFailed {
                index,
            },
            TransferError::ManifestUploadFailed => TransferErrorView::ManifestUploadFailed,
            TransferError::RateLimitHeaderMissing {
                header,
            } => TransferErrorView::RateLimitHeaderMissing { header },
            TransferError::RateLimitHeaderUnparseable {
                header,
            } => TransferErrorView::RateLimitHeaderUnparseable { header },
            TransferError::ManifestFetchFailed => TransferErrorView::ManifestFetchFailed,
            TransferError::ManifestMalformed => TransferErrorView::ManifestMalformed,
            TransferError::PartFetchFailed { id } => TransferErrorView::PartFetchFailed { id: id@ },
        }
    }
}

} // verus!
