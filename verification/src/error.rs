//! What can go wrong in the library's own decisions.

use vstd::prelude::*;

verus! {

/// `base64::DecodeError`, what the reader of base64 text says of a text
/// that it refuses. The library hands it on and looks at nothing in it.
#[verifier::external_type_specification]
#[verifier::external_body]
pub struct ExTransportError(base64::DecodeError);

/// The failures that the library's own decisions end in.
#[derive(Debug)]
pub enum Error {
    /// A cursor that is no URL-safe base64 text.
    AnchorDecodeError(base64::DecodeError),
    /// A cursor whose bytes do not spell an anchor, with what the reader
    /// said of them.
    AnchorParseError(String),
    /// An answer of the search index that does not have the shape agreed on,
    /// with what is wrong with it.
    IndexQueryError(String),
    /// The search index took a batch and reported an error for some of its
    /// operations.
    IndexQueryPartialError,
}

impl Error {
    /// The error lies in what the caller sent, not in the service: it is to
    /// be answered as a bad request, and never retried.
    pub open spec fn client_input(self) -> bool {
        self is AnchorDecodeError || self is AnchorParseError
    }

    /// Whether the error lies in what the caller sent.
    pub fn is_client_input(&self) -> (r: bool)
        ensures
            r == self.client_input(),
    {
        match self {
            Error::AnchorDecodeError(_) => true,
            Error::AnchorParseError(_) => true,
            Error::IndexQueryError(_) => false,
            Error::IndexQueryPartialError => false,
        }
    }
}

} // verus!
