//! The ways in which a run can fail.

use vstd::prelude::*;

verus! {

/// Why a run stopped. Every failure is final: nothing is retried and no
/// partial result is produced.
#[derive(Debug, Clone, PartialEq, Eq)]
pub enum Error {
    /// A listed file could not be read; holds what the file system reported.
    FileReadError(String),
    /// A document opens with the marker but lacks the marker that closes its
    /// metadata.
    MalformedDocument,
    /// The request did not reach the service or no answer came back; holds
    /// the underlying cause.
    TransportError(String),
    /// The service answered with a status outside the success range.
    GenerationRequestFailed,
    /// The service reported success but its answer does not have the agreed
    /// shape; holds what the decoder reported.
    ResponseDecodeError(String),
}

/// The mathematical value of an [`Error`].
pub enum ErrorView {
    FileReadError(Seq<char>),
    MalformedDocument,
    TransportError(Seq<char>),
    GenerationRequestFailed,
    ResponseDecodeError(Seq<char>),
}

impl View for Error {
    type V = ErrorView;

    open spec fn view(&self) -> ErrorView {
        match self {
            Error::FileReadError(cause) => ErrorView::FileReadError(cause@),
            Error::MalformedDocument => ErrorView::MalformedDocument,
            Error::TransportError(cause) => ErrorView::TransportError(cause@),
            Error::GenerationRequestFailed => ErrorView::GenerationRequestFailed,
            Error::ResponseDecodeError(cause) => ErrorView::ResponseDecodeError(cause@),
        }
    }
}

} // verus!
