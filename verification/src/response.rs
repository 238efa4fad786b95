//! What a handler hands back to the HTTP layer: a content type and a body
//! wrapped with its `content-disposition` header.

use vstd::prelude::*;

verus! {

/// The content types the service answers with.
#[derive(Clone, Copy, Debug, PartialEq, Eq, Structural)]
pub enum ContentType {
    HTML,
    ZIP,
}

impl ContentType {
    /// The media type as it appears in the `content-type` header.
    pub open spec fn spec_media_type(self) -> Seq<char> {
        match self {
            ContentType::HTML => "text/html"@,
            ContentType::ZIP => "application/zip"@,
        }
    }

    /// The media type as it appears in the `content-type` header.
    pub fn media_type(self) -> (r: &'static str)
        ensures
            r@ == self.spec_media_type(),
    {
        match self {
            ContentType::HTML => "text/html",
            ContentType::ZIP => "application/zip",
        }
    }
}

/// One response header.
#[derive(Clone, Debug, PartialEq, Eq)]
pub struct Header {
    pub name: String,
    pub value: String,
}

/// A header as a pair of strings.
pub struct HeaderView {
    pub name: Seq<char>,
    pub value: Seq<char>,
}

impl View for Header {
    type V = HeaderView;

    open spec fn view(&self) -> HeaderView {
        HeaderView { name: self.name@, value: self.value@ }
    }
}

/// The name of the header that tells a client how to present a body.
pub open spec fn content_disposition_name() -> Seq<char> {
    "content-disposition"@
}

/// The disposition under which the archive is sent: a download named
/// `images.zip`.
pub open spec fn attachment_value() -> Seq<char> {
    "attachment; filename=\"images.zip\""@
}

/// A body together with the `content-disposition` header it is sent under.
#[derive(Clone, Debug, PartialEq, Eq)]
pub struct ContentDisposition<T> {
    pub inner: T,
    pub value: Header,
}

impl<T> ContentDisposition<T> {
    /// Wraps `inner` with a `content-disposition` header of the given value.
    pub fn new(inner: T, value: &str) -> (r: ContentDisposition<T>)
        ensures
            r.inner == inner,
            r.value@ == (HeaderView { name: content_disposition_name(), value: value@ }),
    {
        ContentDisposition {
            inner,
            value: Header {
                name: String::from_str("content-disposition"),
                value: String::from_str(value),
            },
        }
    }
}

/// The response that carries a finished archive: content type
/// `application/zip`, sent as an attachment named `images.zip`.
pub fn archive_response(archive: Vec<u8>) -> (r: (ContentType, ContentDisposition<Vec<u8>>))
    ensures
        r.0 == ContentType::ZIP,
        r.1.inner == archive,
        r.1.value@ == (HeaderView { name: content_disposition_name(), value: attachment_value() }),
{
    (ContentType::ZIP, ContentDisposition::new(archive, "attachment; filename=\"images.zip\""))
}

} // verus!
