//! The archive codec: the `zip` crate, as far as this library uses it.
//!
//! Everything in this module is taken on trust. The contracts state what
//! the source of `zip` shows of the calls made here; no proof stands behind
//! them.

use std::io::Cursor;
use std::io::Write;
use vstd::prelude::*;
use zip::result::ZipError;
use zip::write::FileOptions;
use zip::write::ZipWriter;
use zip::CompressionMethod;
use zip::DateTime;

verus! {

/// The longest content that one entry may have. The format without its
/// 64-bit extension holds sizes up to `0xffff_ffff`, of the content and of
/// its deflated form alike; deflating adds a few bytes per block at most, so
/// a content within this limit stays within the format either way.
pub const ENTRY_LIMIT: usize = 0x7fff_ffff;

/// An archive under construction in memory: `zip::write::ZipWriter` over a
/// `std::io::Cursor<Vec<u8>>`. Nothing of its inside is visible to proofs;
/// [`archive_entries`] and [`archive_open`] name what the contracts need of
/// it.
#[verifier::external_body]
pub struct ArchiveWriter {
    inner: ZipWriter<Cursor<Vec<u8>>>,
}

/// `zip::result::ZipError`, carried from the codec to the place where it is
/// turned into an error of this library.
#[verifier::external_type_specification]
#[verifier::external_body]
pub struct ExZipError(ZipError);

/// `std::io::Error`, as `std::io::Write::write_all` returns it.
#[verifier::external_type_specification]
#[verifier::external_body]
pub struct ExIoError(std::io::Error);

/// The entries that an archive under construction holds, in the order in
/// which they were started: the name, the permission bits, and the content
/// written so far.
pub uninterp spec fn archive_entries(writer: ArchiveWriter) -> Seq<(Seq<char>, u32, Seq<u8>)>;

/// Whether an archive under construction still takes entries: it has not
/// been closed, no step on it has failed, and its last entry, if it has
/// one, is the one that content is written to.
pub uninterp spec fn archive_open(writer: ArchiveWriter) -> bool;

/// The bytes of the finished archive whose entries, each deflated, dated
/// 1980-01-01 and written in one piece, are `entries`.
pub uninterp spec fn archive_image(entries: Seq<(Seq<char>, u32, Seq<u8>)>) -> Seq<u8>;

/// Whether the content of every entry is within [`ENTRY_LIMIT`].
pub open spec fn within_limit(entries: Seq<(Seq<char>, u32, Seq<u8>)>) -> bool {
    forall|i: int| 0 <= i < entries.len() ==> (#[trigger] entries[i]).2.len() <= ENTRY_LIMIT
}

/// `ZipWriter::new` over an empty cursor: the new archive is open and holds
/// no entry.
#[verifier::external_body]
pub(crate) fn new_archive() -> (writer: ArchiveWriter)
    ensures
        archive_open(writer),
        archive_entries(writer) == Seq::<(Seq<char>, u32, Seq<u8>)>::empty(),
{
    ArchiveWriter { inner: ZipWriter::new(Cursor::new(Vec::new())) }
}

/// `ZipWriter::start_file` with options that fix the method to deflate, the
/// date to `DateTime::default()` and the permission bits to `mode`. On an
/// open archive whose entries are within the limit the call closes the
/// entry before, which cannot fail for a deflated size that the format
/// holds, and writes a header into memory: it succeeds, and the archive has
/// gained one entry of that name, still empty.
#[verifier::external_body]
pub(crate) fn start_entry(writer: &mut ArchiveWriter, name: &str, mode: u32) -> (started: Result<
    (),
    ZipError,
>)
    requires
        archive_open(*old(writer)),
        within_limit(archive_entries(*old(writer))),
        mode <= 0o777,
    ensures
        started is Ok,
        archive_open(*final(writer)),
        archive_entries(*final(writer)) == archive_entries(*old(writer)).push(
            (name@, mode, Seq::<u8>::empty()),
        ),
{
    let options = FileOptions::default().compression_method(CompressionMethod::Deflated);
    let options = options.last_modified_time(DateTime::default()).unix_permissions(mode);
    writer.inner.start_file(name, options)
}

/// `std::io::Write::write_all` on the `ZipWriter`, for an entry that is
/// still empty and a content within the limit. Writing fails only where no
/// entry is started, the archive is closed, or an entry grows beyond
/// `0xffff_ffff` bytes; none of these holds here, so it succeeds, `content`
/// is the content of the last entry, and no other entry has changed.
#[verifier::external_body]
pub(crate) fn write_entry(writer: &mut ArchiveWriter, content: &[u8]) -> (written: Result<
    (),
    std::io::Error,
>)
    requires
        archive_open(*old(writer)),
        archive_entries(*old(writer)).len() > 0,
        archive_entries(*old(writer)).last().2.len() == 0,
        content@.len() <= ENTRY_LIMIT,
    ensures
        written is Ok,
        archive_open(*final(writer)),
        archive_entries(*final(writer)) == archive_entries(*old(writer)).drop_last().push(
            (
                archive_entries(*old(writer)).last().0,
                archive_entries(*old(writer)).last().1,
                content@,
            ),
        ),
{
    writer.inner.write_all(content)
}

/// `ZipWriter::finish`, then `Cursor::into_inner`. On an open archive whose
/// entries are within the limit it closes the last entry and writes the
/// directory into memory: it succeeds, and the bytes are the archive of the
/// entries held. The codec reads no clock and no random value, so equal
/// entries give equal bytes.
#[verifier::external_body]
pub(crate) fn finish_archive(writer: ArchiveWriter) -> (image: Result<Vec<u8>, ZipError>)
    requires
        archive_open(writer),
        within_limit(archive_entries(writer)),
    ensures
        image is Ok,
        image matches Ok(bytes) ==> bytes@ == archive_image(archive_entries(writer)),
{
    let mut writer = writer;
    writer.inner.finish().map(|cursor| cursor.into_inner())
}

} // verus!
