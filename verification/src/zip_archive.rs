//! The calls into the `zip` crate that reading a module archive needs,
//! over an archive held in memory.

use std::io::Cursor;
use std::io::Read;
use vstd::prelude::*;

verus! {

#[verifier::external_type_specification]
#[verifier::external_body]
#[verifier::reject_recursive_types(T)]
pub struct ExCursor<T>(Cursor<T>);

#[verifier::external_type_specification]
#[verifier::external_body]
#[verifier::reject_recursive_types(R)]
pub struct ExZipArchive<R>(zip::ZipArchive<R>);

/// What `zip::ZipArchive::new` makes of the bytes `data`: the entries it
/// keeps (name, uncompressed size and whether the entry is a symbolic link),
/// in the order in which each name first appears in the central directory,
/// a repeated name keeping the record of its last occurrence; or the display
/// text of its error when it refuses the bytes as an archive.
pub uninterp spec fn zip_listing(data: Seq<u8>) -> Result<Seq<(Seq<char>, u64, bool)>, Seq<char>>;

/// The bytes that an archive was opened on.
pub uninterp spec fn zip_archive_bytes(archive: zip::ZipArchive<Cursor<&[u8]>>) -> Seq<u8>;

/// What `zip::ZipArchive::by_index` makes of entry `index` of the archive
/// held in `data`: `None` when it opens the entry, else the display text of
/// its error (it refuses, for instance, an encrypted entry, an unsupported
/// compression method or a damaged local header).
pub uninterp spec fn zip_entry_open_error(data: Seq<u8>, index: nat) -> Option<Seq<char>>;

/// What `Read::read_to_end` gives on entry `index` of the archive held in
/// `data`, once opened: its decompressed bytes, or the display text of the
/// error.
pub uninterp spec fn zip_entry_content(data: Seq<u8>, index: nat) -> Result<Seq<u8>, Seq<char>>;

/// What `zip::ZipArchive::by_name` makes of the entry called `name` in the
/// archive held in `data`: `None` when it finds and opens it, else the
/// display text of its error.
pub uninterp spec fn zip_by_name_error(data: Seq<u8>, name: Seq<char>) -> Option<Seq<char>>;

/// What `Read::read_to_string` gives on the entry called `name` of the
/// archive held in `data`, once opened: its decompressed text, or the display
/// text of the error (for instance when the content is not UTF-8).
pub uninterp spec fn zip_entry_text(data: Seq<u8>, name: Seq<char>) -> Result<Seq<char>, Seq<char>>;

/// Why an archive could not be read to the end.
#[derive(Debug, Clone)]
pub enum ArchiveReadError {
    /// Entry `index` could not be opened; holds the `zip` error text.
    EntryUnreadable(usize, String),
    /// The link target of the symbolic link at entry `index` could not be
    /// read; holds the error text.
    LinkTargetUnreadable(usize, String),
    /// `module.prop` could not be opened; holds the `zip` error text.
    ModulePropUnreadable(String),
    /// `module.prop` could not be read as text; holds the I/O error text.
    ModulePropContentUnreadable(String),
}

/// `zip::ZipArchive::new` on a cursor over `data`. It succeeds exactly when
/// the bytes hold an archive that the crate accepts, and the archive keeps
/// the bytes it was opened on; on failure the `zip` error is returned as its
/// display text.
#[verifier::external_body]
pub(crate) fn zip_open<'a>(data: &'a [u8]) -> (r: Result<zip::ZipArchive<Cursor<&'a [u8]>>, String>)
    ensures
        match zip_listing(data@) {
            Ok(_) => r matches Ok(a) && zip_archive_bytes(a) == data@,
            Err(e) => r matches Err(m) && m@ == e,
        },
{
    match zip::ZipArchive::new(Cursor::new(data)) {
        Ok(a) => Ok(a),
        Err(e) => Err(format!("{e}")),
    }
}

/// `zip::ZipArchive::len`: the number of entries in the central directory.
#[verifier::external_body]
pub(crate) fn zip_len(archive: &zip::ZipArchive<Cursor<&[u8]>>) -> (n: usize)
    requires
        zip_listing(zip_archive_bytes(*archive)) is Ok,
    ensures
        n == zip_listing(zip_archive_bytes(*archive))->Ok_0.len(),
{
    archive.len()
}

/// `zip::ZipArchive::by_index`, keeping the entry's `name()`, `size()` and
/// `is_symlink()`, which are those of entry `i` of the listing. On failure
/// the `zip` error is returned as its display text. The archive keeps its
/// bytes.
#[verifier::external_body]
pub(crate) fn zip_entry(archive: &mut zip::ZipArchive<Cursor<&[u8]>>, i: usize) -> (r: Result<
    (String, u64, bool),
    String,
>)
    requires
        zip_listing(zip_archive_bytes(*old(archive))) is Ok,
        i < zip_listing(zip_archive_bytes(*old(archive)))->Ok_0.len(),
    ensures
        zip_archive_bytes(*final(archive)) == zip_archive_bytes(*old(archive)),
        match zip_entry_open_error(zip_archive_bytes(*old(archive)), i as nat) {
            None => r matches Ok(e) && (e.0@, e.1, e.2) == zip_listing(
                zip_archive_bytes(*old(archive)),
            )->Ok_0[i as int],
            Some(m) => r matches Err(t) && t@ == m,
        },
{
    match archive.by_index(i) {
        Ok(f) => Ok((f.name().to_string(), f.size(), f.is_symlink())),
        Err(e) => Err(format!("{e}")),
    }
}

/// `zip::ZipArchive::by_index` followed by `Read::read_to_end` on the entry:
/// the entry's decompressed bytes, or the error's display text. The archive
/// keeps its bytes.
#[verifier::external_body]
pub(crate) fn zip_entry_bytes(archive: &mut zip::ZipArchive<Cursor<&[u8]>>, i: usize) -> (r: Result<
    Vec<u8>,
    String,
>)
    requires
        zip_listing(zip_archive_bytes(*old(archive))) is Ok,
        i < zip_listing(zip_archive_bytes(*old(archive)))->Ok_0.len(),
        zip_entry_open_error(zip_archive_bytes(*old(archive)), i as nat) is None,
    ensures
        zip_archive_bytes(*final(archive)) == zip_archive_bytes(*old(archive)),
        match zip_entry_content(zip_archive_bytes(*old(archive)), i as nat) {
            Ok(c) => r matches Ok(v) && v@ == c,
            Err(m) => r matches Err(t) && t@ == m,
        },
{
    let mut file = match archive.by_index(i) {
        Ok(f) => f,
        Err(e) => return Err(format!("{e}")),
    };
    let mut bytes = Vec::new();
    match file.read_to_end(&mut bytes) {
        Ok(_) => Ok(bytes),
        Err(e) => Err(format!("{e}")),
    }
}

/// `zip::ZipArchive::by_name` followed by `Read::read_to_string` on the
/// entry: the entry's text, or the error of whichever step failed, with its
/// display text. The archive keeps its bytes.
#[verifier::external_body]
pub(crate) fn zip_read_text(archive: &mut zip::ZipArchive<Cursor<&[u8]>>, name: &str) -> (r: Result<
    String,
    ArchiveReadError,
>)
    ensures
        zip_archive_bytes(*final(archive)) == zip_archive_bytes(*old(archive)),
        match zip_by_name_error(zip_archive_bytes(*old(archive)), name@) {
            Some(m) => r matches Err(ArchiveReadError::ModulePropUnreadable(t)) && t@ == m,
            None => match zip_entry_text(zip_archive_bytes(*old(archive)), name@) {
                Ok(text) => r matches Ok(s) && s@ == text,
                Err(m) => r matches Err(ArchiveReadError::ModulePropContentUnreadable(t)) && t@ == m,
            },
        },
{
    let mut file = match archive.by_name(name) {
        Ok(f) => f,
        Err(e) => return Err(ArchiveReadError::ModulePropUnreadable(format!("{e}"))),
    };
    let mut text = String::new();
    match file.read_to_string(&mut text) {
        Ok(_) => Ok(text),
        Err(e) => Err(ArchiveReadError::ModulePropContentUnreadable(format!("{e}"))),
    }
}

} // verus!
