//! Rune archives: ZIP archives, read and written by the `zip` crate.

use std::io::{Cursor, Read, Write};
use vstd::prelude::*;
use zip::result::ZipError;

verus! {

/// Why the `zip` crate could not read or write an archive.
#[derive(Clone, Copy, Debug, PartialEq, Eq, Structural)]
pub enum ArchiveFault {
    /// Reading an entry or writing to the archive failed.
    Io,
    /// The bytes are no ZIP archive.
    InvalidArchive,
    /// The archive uses something that is not supported.
    UnsupportedArchive,
    /// The archive has no entry of that name.
    FileNotFound,
    /// The entry is protected by a password.
    InvalidPassword,
    /// Any other failure.
    Other,
}

/// An archive in the making, in memory: a `zip::ZipWriter` over a cursor.
#[verifier::external_body]
pub struct ArchiveWriter {
    inner: zip::ZipWriter<Cursor<Vec<u8>>>,
}

/// The entries that have been written to an archive in the making, in their
/// order: each with its name and its content.
pub uninterp spec fn written(w: ArchiveWriter) -> Seq<(Seq<char>, Seq<u8>)>;

/// The bytes of the finished archive that holds `entries`.
pub uninterp spec fn archive_of(entries: Seq<(Seq<char>, Seq<u8>)>) -> Seq<u8>;

/// The text of the entry `name` of the archive `bytes`, or why it cannot be
/// had.
pub uninterp spec fn entry_text(bytes: Seq<u8>, name: Seq<char>) -> Result<Seq<char>, ArchiveFault>;

/// The view of what reading an entry came to.
pub open spec fn text_view(r: Result<String, ArchiveFault>) -> Result<Seq<char>, ArchiveFault> {
    match r {
        Ok(text) => Ok(text@),
        Err(fault) => Err(fault),
    }
}

/// Starts an archive in memory with `zip::ZipWriter::new`. Nothing has been
/// written to it.
#[verifier::external_body]
pub(crate) fn start_archive() -> (w: ArchiveWriter)
    ensures
        written(w) == Seq::<(Seq<char>, Seq<u8>)>::empty(),
{
    ArchiveWriter { inner: zip::ZipWriter::new(Cursor::new(Vec::new())) }
}

/// Whether an entry of `entries` carries the name `name`.
pub open spec fn has_name(entries: Seq<(Seq<char>, Seq<u8>)>, name: Seq<char>) -> bool {
    exists|i: int| 0 <= i < entries.len() && (#[trigger] entries[i]).0 == name
}

/// What entries weigh: for each entry the bytes of its content and four bytes
/// for each character of its name, which is at least what the name takes.
pub open spec fn weight(entries: Seq<(Seq<char>, Seq<u8>)>) -> nat
    decreases entries.len(),
{
    if entries.len() == 0 {
        0
    } else {
        weight(entries.drop_last()) + 4 * entries.last().0.len() + entries.last().1.len()
    }
}

/// The longest name that an entry can have, in characters: its bytes must be
/// counted in sixteen bits.
pub const MAX_NAME: usize = 16383;

/// The weight up to which an archive is small.
pub const MAX_WEIGHT: usize = 0x4000_0000;

/// Whether entries make a small archive: at most 1024 entries that weigh at
/// most one GiB together. Such an archive stays far below the four GiB at
/// which the format changes.
pub open spec fn small(entries: Seq<(Seq<char>, Seq<u8>)>) -> bool {
    entries.len() <= 1024 && weight(entries) <= MAX_WEIGHT
}

/// Writes one entry with `start_file` and `write_all` of `zip::ZipWriter`,
/// under fixed options and the fixed date that the crate writes where it has
/// no clock, and hands the writer on. A writer that failed is not handed on.
/// `start_file` counts the bytes of the name in sixteen bits without a test:
/// longer names are left out. On a writer in memory the two calls fail only
/// for a name that was written before, for an entry past four GiB, and for an
/// entry that starts past four GiB; the contract claims success for a new name
/// in a small archive only.
#[verifier::external_body]
pub(crate) fn add_file(w: ArchiveWriter, name: &str, content: &[u8]) -> (r: Result<ArchiveWriter, ArchiveFault>)
    requires
        name@.len() <= MAX_NAME,
    ensures
        r matches Ok(next) ==> written(next) == written(w).push((name@, content@)),
        !has_name(written(w), name@) && small(written(w).push((name@, content@))) ==> r is Ok,
{
    let mut w = w;
    let options = zip::write::SimpleFileOptions::default().last_modified_time(zip::DateTime::default());
    let done = w.inner.start_file(name, options).and_then(
        |_| w.inner.write_all(content).map_err(ZipError::Io),
    );
    match done {
        Ok(_) => Ok(w),
        Err(ZipError::Io(_)) => Err(ArchiveFault::Io),
        Err(ZipError::InvalidArchive(_)) => Err(ArchiveFault::InvalidArchive),
        Err(ZipError::UnsupportedArchive(_)) => Err(ArchiveFault::UnsupportedArchive),
        Err(ZipError::FileNotFound) => Err(ArchiveFault::FileNotFound),
        Err(ZipError::InvalidPassword) => Err(ArchiveFault::InvalidPassword),
        Err(_) => Err(ArchiveFault::Other),
    }
}

/// Finishes an archive with `zip::ZipWriter::finish` and hands out its bytes.
/// The contract names them: with the options and the date fixed, they depend
/// on the entries alone. On a writer in memory finishing fails only where the
/// last entry has grown past four GiB; the contract claims success for a
/// small archive only.
#[verifier::external_body]
pub(crate) fn finish_archive(w: ArchiveWriter) -> (r: Result<Vec<u8>, ArchiveFault>)
    ensures
        r matches Ok(bytes) ==> bytes@ == archive_of(written(w)),
        small(written(w)) ==> r is Ok,
{
    match w.inner.finish() {
        Ok(cursor) => Ok(cursor.into_inner()),
        Err(ZipError::Io(_)) => Err(ArchiveFault::Io),
        Err(ZipError::InvalidArchive(_)) => Err(ArchiveFault::InvalidArchive),
        Err(ZipError::UnsupportedArchive(_)) => Err(ArchiveFault::UnsupportedArchive),
        Err(ZipError::FileNotFound) => Err(ArchiveFault::FileNotFound),
        Err(ZipError::InvalidPassword) => Err(ArchiveFault::InvalidPassword),
        Err(_) => Err(ArchiveFault::Other),
    }
}

/// Reads the entry `name` of the archive `bytes` as text: `zip::ZipArchive::new`
/// on the bytes, `by_name` for the entry, `read_to_string` on it. The contract
/// names the result: it depends on the bytes and the name alone.
#[verifier::external_body]
pub(crate) fn read_entry(bytes: &[u8], name: &str) -> (r: Result<String, ArchiveFault>)
    ensures
        text_view(r) == entry_text(bytes@, name@),
{
    let mut text = String::new();
    let read = zip::ZipArchive::new(Cursor::new(bytes)).and_then(
        |mut a| a.by_name(name).and_then(
            |mut f| f.read_to_string(&mut text).map_err(ZipError::Io),
        ),
    );
    match read {
        Ok(_) => Ok(text),
        Err(ZipError::Io(_)) => Err(ArchiveFault::Io),
        Err(ZipError::InvalidArchive(_)) => Err(ArchiveFault::InvalidArchive),
        Err(ZipError::UnsupportedArchive(_)) => Err(ArchiveFault::UnsupportedArchive),
        Err(ZipError::FileNotFound) => Err(ArchiveFault::FileNotFound),
        Err(ZipError::InvalidPassword) => Err(ArchiveFault::InvalidPassword),
        Err(_) => Err(ArchiveFault::Other),
    }
}

} // verus!
