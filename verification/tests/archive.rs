use imgzip::archive::{assemble, Compression, METHOD};
use imgzip::convert::ConversionResult;
use std::io::{Cursor, Read};

fn entry(name: &str, bytes: &[u8]) -> ConversionResult {
    ConversionResult { filename: name.to_string(), bytes: bytes.to_vec() }
}

fn read_back(archive: Vec<u8>) -> Vec<(String, zip::CompressionMethod, Vec<u8>)> {
    let mut reader = zip::ZipArchive::new(Cursor::new(archive)).unwrap();
    let mut entries = Vec::new();
    for i in 0..reader.len() {
        let mut file = reader.by_index(i).unwrap();
        let mut data = Vec::new();
        file.read_to_end(&mut data).unwrap();
        entries.push((file.name().to_string(), file.compression(), data));
    }
    entries
}

#[test]
fn every_entry_is_deflated() {
    assert_eq!(METHOD, Compression::Deflated);
    let archive = assemble(&vec![entry("a.png", b"aaaa"), entry("b.png", b"")]).unwrap();
    for (_, method, _) in read_back(archive) {
        assert_eq!(method, zip::CompressionMethod::Deflated);
    }
}

#[test]
fn no_results_give_an_empty_archive() {
    let archive = assemble(&vec![]).unwrap();
    assert_eq!(read_back(archive.clone()), vec![]);
    // An archive without entries is the end-of-central-directory record alone.
    assert_eq!(archive.len(), 22);
    assert_eq!(&archive[..4], b"PK\x05\x06");
}

#[test]
fn entries_keep_names_bytes_and_order() {
    let results = vec![
        entry("zebra.gif", b"last in the alphabet, first in the request"),
        entry("apple.gif", &[0u8; 1000]),
        entry("mango.gif", &[7, 7, 7]),
    ];
    let entries = read_back(assemble(&results).unwrap());
    assert_eq!(entries.len(), 3);
    for (read, written) in entries.iter().zip(results.iter()) {
        assert_eq!(read.0, written.filename);
        assert_eq!(read.2, written.bytes);
    }
}

#[test]
fn entries_of_the_same_name_are_both_written() {
    let results = vec![entry("same.png", b"first"), entry("same.png", b"second")];
    let archive = assemble(&results).unwrap();
    let entries = read_back(archive.clone());
    assert_eq!(entries.len(), 2);
    assert_eq!(entries[0].2, b"first");
    assert_eq!(entries[1].2, b"second");
    // Looked up by name, the entry written last is the one found.
    let mut reader = zip::ZipArchive::new(Cursor::new(archive)).unwrap();
    let mut data = Vec::new();
    reader.by_name("same.png").unwrap().read_to_end(&mut data).unwrap();
    assert_eq!(data, b"second");
}

#[test]
fn the_archive_depends_on_the_entries_alone() {
    let results = vec![entry("a.jpeg", &[1, 2, 3, 4, 5]), entry("b.jpeg", &[9; 300])];
    assert_eq!(assemble(&results), assemble(&results.clone()));
    let other = vec![entry("a.jpeg", &[1, 2, 3, 4, 5]), entry("b.jpeg", &[8; 300])];
    assert_ne!(assemble(&results), assemble(&other));
    let swapped = vec![entry("b.jpeg", &[9; 300]), entry("a.jpeg", &[1, 2, 3, 4, 5])];
    assert_ne!(assemble(&results), assemble(&swapped));
}

#[test]
fn the_archive_is_not_the_bytes_handed_in() {
    let payload = vec![42u8; 4096];
    let archive = assemble(&vec![entry("big.png", &payload)]).unwrap();
    assert_ne!(archive, payload);
    assert!(archive.len() < payload.len());
    assert_eq!(&archive[..4], b"PK\x03\x04");
}

#[test]
fn entries_carry_the_fixed_time_stamp() {
    let archive = assemble(&vec![entry("a.png", b"a"), entry("b.png", b"b")]).unwrap();
    let mut reader = zip::ZipArchive::new(Cursor::new(archive)).unwrap();
    for i in 0..reader.len() {
        let stamp = reader.by_index(i).unwrap().last_modified();
        assert_eq!((stamp.year(), stamp.month(), stamp.day()), (1980, 1, 1));
        assert_eq!((stamp.hour(), stamp.minute(), stamp.second()), (0, 0, 0));
    }
}
