//! The request pipeline: decode the request, fan the images out into
//! conversion tasks, join their outcomes, pack the archive, and answer.

use vstd::prelude::*;
use crate::archive::{archive_bytes, archive_of, assemble, entries_of, ArchiveError, Entry, METHOD};
use crate::batch::{all_converted, joined, outcomes_in, Batch, Outcome};
use crate::codec::converted;
use crate::convert::{
    conversion, lemma_output_name_injective, output_name, ConversionTask, ResultView,
    UploadedImage,
};
use crate::error::UploadError;
use crate::format::{eq_ignore_ascii_case, Format};
use crate::response::{
    archive_response, attachment_value, content_disposition_name, ContentDisposition, ContentType,
    HeaderView,
};

verus! {

/// What a handler answers with: the content type and the body under its
/// `content-disposition` header.
pub type Response = (ContentType, ContentDisposition<Vec<u8>>);

/// A decoded request: the uploaded images in submission order and the format
/// they are to be converted to. A request may hold no image at all.
#[derive(Clone, Debug, PartialEq, Eq)]
pub struct UploadRequest {
    pub images: Vec<UploadedImage>,
    pub format: Format,
}

/// The outcomes of converting the images of a request, in submission order.
pub open spec fn outcomes_of(images: Seq<UploadedImage>, format: Format) -> Seq<Outcome> {
    images.map_values(|image: UploadedImage| conversion(image@, format))
}

/// Whether a response carries the given archive: content type
/// `application/zip`, the archive as body, sent as an attachment named
/// `images.zip`.
pub open spec fn carries(response: Response, archive: Seq<u8>) -> bool {
    &&& response.0 == ContentType::ZIP
    &&& response.1.inner@ == archive
    &&& response.1.value@ == (HeaderView {
        name: content_disposition_name(),
        value: attachment_value(),
    })
}

/// The elements of `v` in reverse order.
fn reversed<T>(v: Vec<T>) -> (r: Vec<T>)
    ensures
        r@ == v@.reverse(),
{
    let ghost all = v@;
    let mut rest = v;
    let mut r: Vec<T> = Vec::new();
    while rest.len() > 0
        invariant
            rest@ == all.take(rest@.len() as int),
            r@.len() + rest@.len() == all.len(),
            forall|j: int| 0 <= j < r@.len() ==> r@[j] == all[all.len() - 1 - j],
        decreases rest.len(),
    {
        let last = rest.pop().unwrap();
        assert(rest@ =~= all.take(rest@.len() as int));
        r.push(last);
    }
    assert(r@ =~= all.reverse());
    r
}

impl UploadRequest {
    /// Decodes a request from the uploaded images and the `format` field of
    /// the form. The field is validated against the supported formats
    /// without regard to case; the images are taken as they are.
    pub fn decode(images: Vec<UploadedImage>, format: &str) -> (r: Result<UploadRequest, UploadError>)
        ensures
            match Format::parse(format@) {
                Some(f) => r matches Ok(request) && request.images == images && request.format == f,
                None => r matches Err(e) && e == UploadError::UnknownFormat,
            },
    {
        match Format::try_from(format) {
            Ok(format) => Ok(UploadRequest { images, format }),
            Err(_) => Err(UploadError::UnknownFormat),
        }
    }

    /// Fans the request out: one task per image, in submission order, each
    /// with the format of the request.
    pub fn tasks(self) -> (tasks: Vec<ConversionTask>)
        ensures
            tasks@.len() == self.images@.len(),
            forall|i: int|
                0 <= i < tasks@.len() ==> (#[trigger] tasks@[i]).image == self.images@[i]
                    && tasks@[i].format == self.format,
    {
        let format = self.format;
        let ghost images = self.images@;
        let mut rest = reversed(self.images);
        let mut tasks: Vec<ConversionTask> = Vec::new();
        while rest.len() > 0
            invariant
                rest@ == images.reverse().take(rest@.len() as int),
                tasks@.len() + rest@.len() == images.len(),
                forall|j: int|
                    0 <= j < tasks@.len() ==> (#[trigger] tasks@[j]).image == images[j]
                        && tasks@[j].format == format,
            decreases rest.len(),
        {
            let image = rest.pop().unwrap();
            assert(rest@ =~= images.reverse().take(rest@.len() as int));
            assert(image == images[tasks@.len() as int]);
            tasks.push(ConversionTask::new(image, format));
        }
        tasks
    }
}

/// Turns the outcome of the archive writer into the answer of the request.
pub fn respond(archived: Result<Vec<u8>, ArchiveError>) -> (r: Result<Response, UploadError>)
    ensures
        match archived {
            Ok(archive) => r matches Ok(response) && carries(response, archive@),
            Err(_) => r matches Err(e) && e == UploadError::Archive,
        },
{
    match archived {
        Ok(archive) => Ok(archive_response(archive)),
        Err(_) => Err(UploadError::Archive),
    }
}

/// Handles one upload: validates the requested format, converts every image
/// to it, and answers with one archive that holds the converted images in
/// submission order.
///
/// A format that is not supported is refused whatever the images are. A
/// single image that cannot be converted fails the whole request with the
/// failure of the first such image; no partial archive is returned. Where
/// all images are converted, the answer carries the archive the writer
/// makes of them, or reports that the writer failed.
pub fn upload(images: Vec<UploadedImage>, format: &str) -> (r: Result<Response, UploadError>)
    ensures
        match Format::parse(format@) {
            None => r matches Err(e) && e == UploadError::UnknownFormat,
            Some(f) => match joined(outcomes_of(images@, f)) {
                Err(failed) => r matches Err(e) && e == failed,
                Ok(results) => match archive_of(entries_of(results)) {
                    Some(archive) => r matches Ok(response) && carries(response, archive),
                    None => r matches Err(e) && e == UploadError::Archive,
                },
            },
        },
{
    let request = match UploadRequest::decode(images, format) {
        Ok(request) => request,
        Err(e) => {
            return Err(e);
        },
    };
    let ghost outcomes = outcomes_of(images@, request.format);
    let tasks = request.tasks();
    let n: usize = tasks.len();
    let mut batch = Batch::new(n);
    let mut i: usize = 0;
    while i < n
        invariant
            i <= n,
            n == tasks@.len(),
            n == outcomes.len(),
            batch@.len() == n,
            forall|j: int| 0 <= j < n ==> (#[trigger] tasks@[j]).outcome() == outcomes[j],
            forall|j: int| 0 <= j < i ==> (#[trigger] batch@[j]) == Some(outcomes[j]),
            forall|j: int| i <= j < n ==> (#[trigger] batch@[j]) is None,
        decreases n - i,
    {
        let outcome = tasks[i].run();
        batch.record(i, outcome);
        i += 1;
    }
    assert(outcomes_in(batch@) =~= outcomes);
    match batch.finish() {
        Some(Ok(results)) => respond(assemble(&results)),
        Some(Err(e)) => Err(e),
        None => vstd::pervasive::unreached(),
    }
}

/// A format field that spells none of the supported names is refused with
/// status 400 and the fixed message, whatever the request holds besides.
pub proof fn lemma_unknown_format_refused(format: Seq<char>)
    requires
        forall|f: Format| !eq_ignore_ascii_case(format, f.spec_name()),
    ensures
        Format::parse(format) is None,
        UploadError::UnknownFormat.spec_status() == 400,
        UploadError::UnknownFormat.spec_message() == "unknown format type"@,
{
    assert(!eq_ignore_ascii_case(format, Format::JPEG.spec_name()));
    assert(!eq_ignore_ascii_case(format, Format::PNG.spec_name()));
    assert(!eq_ignore_ascii_case(format, Format::GIF.spec_name()));
}

/// Where every image of a request can be converted, the archive of the
/// answer holds exactly one entry per image, in submission order: the entry
/// is named after the image's stem with the extension of the format, holds
/// the image as the codec encoded it, and is deflated.
pub proof fn lemma_archive_entries(images: Seq<UploadedImage>, format: Format)
    requires
        all_converted(outcomes_of(images, format)),
    ensures
        joined(outcomes_of(images, format)) is Ok,
        entries_of(joined(outcomes_of(images, format))->Ok_0).len() == images.len(),
        forall|i: int|
            0 <= i < images.len() ==> (#[trigger] entries_of(
                joined(outcomes_of(images, format))->Ok_0,
            )[i]) == (Entry {
                name: output_name(images[i].name@, format),
                method: METHOD,
                data: converted(images[i].bytes@, format)->Ok_0,
            }),
{
    let outcomes = outcomes_of(images, format);
    assert forall|i: int| 0 <= i < images.len() implies (#[trigger] outcomes[i]) is Ok
        && converted(images[i].bytes@, format) is Ok by {}
}

/// A request without images and with a supported format converts nothing
/// and fails on no image: its answer carries the archive that the writer
/// makes of no entry at all.
pub proof fn lemma_empty_request(format: Format)
    ensures
        joined(outcomes_of(Seq::<UploadedImage>::empty(), format)) == Ok::<
            Seq<ResultView>,
            UploadError,
        >(Seq::empty()),
        entries_of(Seq::<ResultView>::empty()) == Seq::<Entry>::empty(),
        archive_of(Seq::<Entry>::empty()) == archive_bytes(Seq::<Entry>::empty()),
{
    let outcomes = outcomes_of(Seq::<UploadedImage>::empty(), format);
    assert(outcomes.map_values(|o: Outcome| o->Ok_0) =~= Seq::<ResultView>::empty());
    assert(entries_of(Seq::<ResultView>::empty()) =~= Seq::<Entry>::empty());
}

/// The entries of two requests never get mixed up: the name of an entry
/// tells the stem and the format it was made from, so an entry of one
/// request carries the name of an entry of the other only where both
/// requests ask for the same format and hold an image of the same stem.
pub proof fn lemma_requests_do_not_mix(
    images: Seq<UploadedImage>,
    format: Format,
    others: Seq<UploadedImage>,
    other_format: Format,
    i: int,
    j: int,
)
    requires
        all_converted(outcomes_of(images, format)),
        all_converted(outcomes_of(others, other_format)),
        0 <= i < images.len(),
        0 <= j < others.len(),
        entries_of(joined(outcomes_of(images, format))->Ok_0)[i].name == entries_of(
            joined(outcomes_of(others, other_format))->Ok_0,
        )[j].name,
    ensures
        format == other_format,
        images[i].name@ == others[j].name@,
{
    lemma_archive_entries(images, format);
    lemma_archive_entries(others, other_format);
    lemma_output_name_injective(images[i].name@, format, others[j].name@, other_format);
}

} // verus!
