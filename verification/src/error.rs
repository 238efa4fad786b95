//! How a request can fail, and how a failure is reported to the client.

use vstd::prelude::*;
use crate::codec::ConvertError;

verus! {

/// Why a request was not answered with an archive.
#[derive(Clone, Copy, Debug, PartialEq, Eq, Structural)]
pub enum UploadError {
    /// The requested format is none of the supported ones.
    UnknownFormat,
    /// The image at this position of the request is not a recognised or
    /// valid image.
    Decode { index: usize },
    /// The image at this position of the request could not be written in
    /// the requested format.
    Encode { index: usize },
    /// The archive writer failed.
    Archive,
}

/// The request error that a failed conversion of the image at `index` becomes.
pub open spec fn failure(index: usize, error: ConvertError) -> UploadError {
    match error {
        ConvertError::Decode => UploadError::Decode { index },
        ConvertError::Encode => UploadError::Encode { index },
    }
}

/// The request error that a failed conversion of the image at `index` becomes.
pub fn failure_at(index: usize, error: ConvertError) -> (r: UploadError)
    ensures
        r == failure(index, error),
{
    match error {
        ConvertError::Decode => UploadError::Decode { index },
        ConvertError::Encode => UploadError::Encode { index },
    }
}

impl UploadError {
    /// The HTTP status the error is reported with: 400 for a request the
    /// client got wrong, 500 for everything that failed afterwards.
    pub open spec fn spec_status(self) -> u16 {
        match self {
            UploadError::UnknownFormat => 400,
            _ => 500,
        }
    }

    /// The plain-text body the error is reported with.
    pub open spec fn spec_message(self) -> Seq<char> {
        match self {
            UploadError::UnknownFormat => "unknown format type"@,
            UploadError::Decode { .. } => "image could not be decoded"@,
            UploadError::Encode { .. } => "image could not be encoded"@,
            UploadError::Archive => "archive could not be written"@,
        }
    }

    /// The HTTP status the error is reported with.
    pub fn status(&self) -> (r: u16)
        ensures
            r == self.spec_status(),
    {
        match self {
            UploadError::UnknownFormat => 400,
            _ => 500,
        }
    }

    /// The plain-text body the error is reported with.
    pub fn message(&self) -> (r: &'static str)
        ensures
            r@ == self.spec_message(),
    {
        match self {
            UploadError::UnknownFormat => "unknown format type",
            UploadError::Decode { .. } => "image could not be decoded",
            UploadError::Encode { .. } => "image could not be encoded",
            UploadError::Archive => "archive could not be written",
        }
    }
}

} // verus!
