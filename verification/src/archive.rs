//! The archive assembler: the ZIP container is written by the `zip` crate;
//! this module states what its writer records and fills it entry by entry.
//!
//! The `zip` crate is built with its `deflate` feature alone. Without its
//! `time` feature the writer stamps every entry with the fixed date
//! 1980-01-01 and reads no clock. The writer works on a buffer in memory, so
//! what it does, and whether it fails, is determined by the entries it is
//! given.

use vstd::prelude::*;
use crate::convert::{ConversionResult, ResultView};

verus! {

/// An archive under construction: a `zip::ZipWriter` over an in-memory
/// buffer. Only the functions of this module make and fill one.
#[verifier::external_body]
pub struct ArchiveWriter {
    inner: zip::ZipWriter<std::io::Cursor<Vec<u8>>>,
}

/// `zip::result::ZipError`, the writer's error. The library only tells it
/// from success.
#[verifier::external_type_specification]
#[verifier::external_body]
pub struct ExZipError(zip::result::ZipError);

/// How the bytes of an archive entry are stored.
#[derive(Clone, Copy, Debug, PartialEq, Eq, Structural)]
pub enum Compression {
    Stored,
    Deflated,
}

/// One entry of an archive: its name, how it is stored, and its bytes before
/// compression.
pub struct Entry {
    pub name: Seq<char>,
    pub method: Compression,
    pub data: Seq<u8>,
}

/// The entries a writer has recorded so far, in the order they were started.
pub uninterp spec fn archive_entries(writer: ArchiveWriter) -> Seq<Entry>;

/// Whether `zip::ZipWriter::start_file` succeeds on a writer that has
/// recorded `entries`, for a new entry of the given name and method.
pub uninterp spec fn entry_started(entries: Seq<Entry>, name: Seq<char>, method: Compression) -> bool;

/// Whether writing `data` to the entry started last succeeds on a writer
/// that has recorded `entries`.
pub uninterp spec fn entry_written(entries: Seq<Entry>, data: Seq<u8>) -> bool;

/// The bytes of the archive that `zip::ZipWriter::finish` makes of a writer
/// that has recorded `entries`, or `None` where it fails.
pub uninterp spec fn archive_bytes(entries: Seq<Entry>) -> Option<Seq<u8>>;

/// An entry as it stands when it has been started and nothing written to it.
pub open spec fn started(entry: Entry) -> Entry {
    Entry { data: Seq::empty(), ..entry }
}

/// The entries after `data` has been written to the entry started last.
pub open spec fn written(entries: Seq<Entry>, data: Seq<u8>) -> Seq<Entry>
    recommends
        entries.len() > 0,
{
    entries.update(
        entries.len() - 1,
        Entry { data: entries.last().data + data, ..entries.last() },
    )
}

/// Calls `zip::ZipWriter::new` on an empty in-memory buffer. The new writer
/// has recorded no entry.
#[verifier::external_body]
fn new_writer() -> (writer: ArchiveWriter)
    ensures
        archive_entries(writer) == Seq::<Entry>::empty(),
{
    ArchiveWriter { inner: zip::ZipWriter::new(std::io::Cursor::new(Vec::new())) }
}

/// Calls `zip::ZipWriter::start_file` with the crate's default options and
/// the given compression method, and hands the writer back where the call
/// succeeded. The writer has then closed the entry before and recorded a
/// new, still empty entry of that name and method after those it had. The
/// call touches nothing but the writer's own buffer, so whether it succeeds
/// depends on the recorded entries and the arguments alone; that is named
/// `entry_started` and not described further. A writer on which the call
/// failed is dropped.
#[verifier::external_body]
fn start_file(writer: ArchiveWriter, name: &str, method: Compression) -> (r: Result<
    ArchiveWriter,
    zip::result::ZipError,
>)
    ensures
        match r {
            Ok(next) => entry_started(archive_entries(writer), name@, method) && archive_entries(
                next,
            ) == archive_entries(writer).push(Entry { name: name@, method, data: Seq::empty() }),
            Err(_) => !entry_started(archive_entries(writer), name@, method),
        },
{
    let mut writer = writer;
    let method = match method {
        Compression::Stored => zip::CompressionMethod::Stored,
        Compression::Deflated => zip::CompressionMethod::Deflated,
    };
    let options = zip::write::FileOptions::default().compression_method(method);
    writer.inner.start_file(name, options).map(|_| writer)
}

/// Calls `std::io::Write::write_all` on the writer, which feeds `data` to the
/// entry started last, and hands the writer back where the call succeeded.
/// All of `data` has then been added to that entry and nothing else has
/// changed. The call is made on an entry that holds nothing yet, so every
/// entry is written in one piece. Whether it succeeds depends on the
/// recorded entries and `data` alone; that is named `entry_written` and not
/// described further. A writer on which the call failed is dropped.
#[verifier::external_body]
fn write_all(writer: ArchiveWriter, data: &[u8]) -> (r: Result<ArchiveWriter, zip::result::ZipError>)
    requires
        archive_entries(writer).len() > 0,
        archive_entries(writer).last().data.len() == 0,
    ensures
        match r {
            Ok(next) => entry_written(archive_entries(writer), data@) && archive_entries(next)
                == written(archive_entries(writer), data@),
            Err(_) => !entry_written(archive_entries(writer), data@),
        },
{
    let mut writer = writer;
    let done = std::io::Write::write_all(&mut writer.inner, data);
    done.map(|_| writer).map_err(zip::result::ZipError::Io)
}

/// Calls `zip::ZipWriter::finish`, which closes the last entry, writes the
/// central directory and hands back the buffer. A writer exists only as
/// `new_writer`, `start_file` and `write_all` hand it out: every option but
/// the compression method is the crate's default, every entry was written
/// in one piece, and no clock is read. So the outcome depends on the
/// recorded entries alone; it is named `archive_bytes` and not described
/// further.
#[verifier::external_body]
fn finish(writer: ArchiveWriter) -> (r: Result<Vec<u8>, zip::result::ZipError>)
    ensures
        match r {
            Ok(bytes) => archive_bytes(archive_entries(writer)) == Some(bytes@),
            Err(_) => archive_bytes(archive_entries(writer)) is None,
        },
{
    let mut inner = writer.inner;
    inner.finish().map(|buffer| buffer.into_inner())
}

/// Returned when the archive writer fails.
#[derive(Clone, Copy, Debug, PartialEq, Eq, Structural)]
pub struct ArchiveError;

/// The compression method of every entry the assembler writes.
pub const METHOD: Compression = Compression::Deflated;

/// The archive entry a conversion result becomes.
pub open spec fn entry_of(result: ResultView) -> Entry {
    Entry { name: result.filename, method: METHOD, data: result.bytes }
}

/// The entries of the archive built from a list of results: one per result,
/// in the same order.
pub open spec fn entries_of(results: Seq<ResultView>) -> Seq<Entry> {
    results.map_values(|r: ResultView| entry_of(r))
}

/// The results of a request as plain values.
pub open spec fn views_of(results: Seq<ConversionResult>) -> Seq<ResultView> {
    results.map_values(|r: ConversionResult| r@)
}

/// Whether the writer, holding the entries before position `k`, takes the
/// entry at `k`: starts it and writes its bytes.
pub open spec fn entry_accepted(entries: Seq<Entry>, k: int) -> bool {
    &&& entry_started(entries.take(k), entries[k].name, entries[k].method)
    &&& entry_written(entries.take(k).push(started(entries[k])), entries[k].data)
}

/// The archive the writer makes of the entries, handed to it one after the
/// other: its bytes, or `None` where the writer fails on one of the entries
/// or on finishing.
pub open spec fn archive_of(entries: Seq<Entry>) -> Option<Seq<u8>> {
    if forall|k: int| 0 <= k < entries.len() ==> #[trigger] entry_accepted(entries, k) {
        archive_bytes(entries)
    } else {
        None
    }
}

/// Packs the results into one archive: for each result in order, an entry
/// named by its file name that holds its bytes, deflated. Any failure of
/// the writer fails the whole archive; no part of it is returned.
pub fn assemble(results: &Vec<ConversionResult>) -> (r: Result<Vec<u8>, ArchiveError>)
    ensures
        match r {
            Ok(archive) => archive_of(entries_of(views_of(results@))) == Some(archive@),
            Err(_) => archive_of(entries_of(views_of(results@))) is None,
        },
{
    let ghost entries = entries_of(views_of(results@));
    let mut writer = new_writer();
    let mut i: usize = 0;
    while i < results.len()
        invariant
            i <= results.len(),
            entries == entries_of(views_of(results@)),
            archive_entries(writer) == entries.take(i as int),
            forall|k: int| 0 <= k < i ==> #[trigger] entry_accepted(entries, k),
        decreases results.len() - i,
    {
        let result = &results[i];
        assert(entries[i as int] == entry_of(result@));
        assert(started(entries[i as int]) == (Entry {
            name: result.filename@,
            method: METHOD,
            data: Seq::empty(),
        }));
        writer = match start_file(writer, result.filename.as_str(), METHOD) {
            Ok(next) => next,
            Err(_) => {
                assert(!entry_accepted(entries, i as int));
                return Err(ArchiveError);
            },
        };
        writer = match write_all(writer, result.bytes.as_slice()) {
            Ok(next) => next,
            Err(_) => {
                assert(!entry_accepted(entries, i as int));
                return Err(ArchiveError);
            },
        };
        proof {
            assert(Seq::<u8>::empty() + result.bytes@ =~= result.bytes@);
            assert(archive_entries(writer) =~= entries.take(i + 1));
            assert(entry_accepted(entries, i as int));
        }
        i += 1;
    }
    assert(entries.take(i as int) =~= entries);
    match finish(writer) {
        Ok(archive) => Ok(archive),
        Err(_) => Err(ArchiveError),
    }
}

} // verus!
