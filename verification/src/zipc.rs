//! Trusted boundary to the `zip` crate: streaming a single entry into an
//! archive held in memory, and reading one back.
//!
//! The container's byte layout is not restated here; instead the sole
//! entry that the `zip` reader finds in an archive is given a name,
//! `sole_entry_of`, and what a builder has been fed is given the names
//! `entry_name_of` and `entry_bytes_of`. Every wrapper's contract speaks
//! over these three.

use vstd::prelude::*;

verus! {

/// What the `zip` crate's reader finds in an archive: the name and the
/// uncompressed bytes of its sole entry, or nothing when the bytes are not
/// a readable archive holding exactly one entry. Reading is a function of
/// the archive bytes alone.
pub uninterp spec fn sole_entry_of(archive: Seq<u8>) -> Option<(Seq<char>, Seq<u8>)>;

/// The entry name a builder was started with.
pub uninterp spec fn entry_name_of(z: ZipStream) -> Seq<char>;

/// The uncompressed bytes streamed into a builder so far.
pub uninterp spec fn entry_bytes_of(z: ZipStream) -> Seq<u8>;

/// A single-entry archive under construction: the `zip` writer over an
/// in-memory cursor. Each chunk is handed to the compressor as it
/// arrives, so the source is never held in memory whole; only the
/// compressed container accumulates.
#[verifier::external_body]
pub struct ZipStream {
    inner: zip::write::ZipWriter<std::io::Cursor<Vec<u8>>>,
}

impl ZipStream {
    /// Relies on `zip::write::ZipWriter::new` and `start_file` over an
    /// in-memory cursor, with deflate compression and the large-file mode
    /// for entries past 4 GiB. The container stores the entry name's byte
    /// length in a sixteen-bit field without checking it, so the name is
    /// bounded here: at most four bytes per character keeps it under that
    /// field's range. Cursor writes cannot fail and `start_file` has no
    /// other failing path for one deflate entry.
    #[verifier::external_body]
    pub fn begin(name: &str) -> (z: ZipStream)
        requires
            name@.len() <= 16383,
        ensures
            entry_name_of(z) == name@,
            entry_bytes_of(z) == Seq::<u8>::empty(),
    {
        let mut inner = zip::write::ZipWriter::new(std::io::Cursor::new(Vec::new()));
        let options = zip::write::FileOptions::default().compression_method(
            zip::CompressionMethod::Deflated,
        ).large_file(true);
        inner.start_file(name, options).unwrap();
        ZipStream { inner }
    }

    /// Relies on the `Write` impl of `zip::write::ZipWriter`: `write_all`
    /// appends the chunk's bytes to the current entry's uncompressed
    /// content. Writes go to the in-memory cursor and cannot fail.
    #[verifier::external_body]
    pub fn append(&mut self, chunk: &Vec<u8>)
        ensures
            entry_name_of(*final(self)) == entry_name_of(*old(self)),
            entry_bytes_of(*final(self)) == entry_bytes_of(*old(self)) + chunk@,
    {
        std::io::Write::write_all(&mut self.inner, chunk.as_slice()).unwrap();
    }

    /// Relies on `zip::write::ZipWriter::finish`: flushes the compressor
    /// and writes the central directory, after which the bytes are a
    /// complete archive whose sole entry carries the started name over
    /// exactly the appended bytes. The writer stores the name it was
    /// given, raising the UTF-8 flag for non-ASCII names, and the reader
    /// decodes it back unchanged. On the in-memory cursor finalizing has
    /// no failing path.
    #[verifier::external_body]
    pub fn finish(self) -> (r: Vec<u8>)
        ensures
            sole_entry_of(r@) == Some((entry_name_of(self), entry_bytes_of(self))),
    {
        let mut w = self;
        w.inner.finish().unwrap().into_inner()
    }
}

/// Relies on `zip::read::ZipArchive` over an in-memory cursor: opening the
/// archive, requiring exactly one entry, and decompressing it with
/// `read_to_end`. Returns the entry's stored name and uncompressed bytes,
/// or `None` when the bytes are not a readable single-entry archive. The
/// entry is fetched with `by_index_decrypt` under an empty password, which
/// the reader discards for an unencrypted entry, so an encrypted or
/// malformed entry comes back as an error mapped to `None` where
/// `by_index` would unwrap it.
#[verifier::external_body]
pub fn zip_read_single(archive: &Vec<u8>) -> (r: Option<(String, Vec<u8>)>)
    ensures
        r matches Some(p) ==> sole_entry_of(archive@) == Some((p.0@, p.1@)),
        r is None ==> sole_entry_of(archive@) is None,
{
    let cursor = std::io::Cursor::new(archive.as_slice());
    let mut za = zip::read::ZipArchive::new(cursor).ok()?;
    if za.len() != 1 {
        return None;
    }
    let mut entry = match za.by_index_decrypt(0, b"") {
        Ok(Ok(entry)) => entry,
        _ => return None,
    };
    let name = entry.name().to_string();
    let mut data = Vec::new();
    std::io::Read::read_to_end(&mut entry, &mut data).ok()?;
    Some((name, data))
}

} // verus!
