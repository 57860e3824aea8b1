use std::io::Read;

use log_zipper::zipc::zip_read_single;
use log_zipper::zipc::ZipStream;

#[test]
fn round_trip_small_entry() {
    let mut z = ZipStream::begin("app.log");
    z.append(&b"hello".to_vec());
    let archive = z.finish();
    let (name, bytes) = zip_read_single(&archive).expect("archive should read back");
    assert_eq!(name, "app.log");
    assert_eq!(bytes, b"hello".to_vec());
}

#[test]
fn round_trip_chunked_entry() {
    let mut z = ZipStream::begin("app.log");
    z.append(&b"he".to_vec());
    z.append(&b"llo".to_vec());
    let archive = z.finish();
    let (name, bytes) = zip_read_single(&archive).expect("archive should read back");
    assert_eq!(name, "app.log");
    assert_eq!(bytes, b"hello".to_vec());
}

#[test]
fn round_trip_empty_entry() {
    let z = ZipStream::begin("empty.log");
    let archive = z.finish();
    let (name, bytes) = zip_read_single(&archive).expect("archive should read back");
    assert_eq!(name, "empty.log");
    assert_eq!(bytes.len(), 0);
}

#[test]
fn round_trip_large_entry() {
    let mut data = Vec::new();
    for i in 0..200_000u32 {
        data.push((i % 251) as u8);
    }
    let mut z = ZipStream::begin("big.log");
    for chunk in data.chunks(4096) {
        z.append(&chunk.to_vec());
    }
    let archive = z.finish();
    assert!(archive.len() < data.len());
    let (name, bytes) = zip_read_single(&archive).expect("archive should read back");
    assert_eq!(name, "big.log");
    assert_eq!(bytes, data);
}

#[test]
fn produced_archive_is_readable_by_the_zip_crate_itself() {
    let mut z = ZipStream::begin("app.log");
    z.append(&b"hello".to_vec());
    let archive = z.finish();
    let cursor = std::io::Cursor::new(archive.as_slice());
    let mut za = zip::read::ZipArchive::new(cursor).expect("valid container");
    assert_eq!(za.len(), 1);
    let mut entry = za.by_index(0).expect("sole entry");
    assert_eq!(entry.name(), "app.log");
    let mut bytes = Vec::new();
    entry.read_to_end(&mut bytes).expect("entry decompresses");
    assert_eq!(bytes, b"hello".to_vec());
}

#[test]
fn garbage_bytes_are_not_an_archive() {
    let garbage = b"this is not a zip container".to_vec();
    assert!(zip_read_single(&garbage).is_none());
}
