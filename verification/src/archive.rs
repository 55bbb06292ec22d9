//! Zip archives held in memory, read through the `zip` crate.

use std::io::Cursor;
use vstd::prelude::*;
use zip::result::ZipError;
use zip::ZipArchive;

verus! {

#[verifier::external_type_specification]
#[verifier::external_body]
#[verifier::reject_recursive_types(R)]
pub struct ExZipArchive<R>(ZipArchive<R>);

#[verifier::external_type_specification]
#[verifier::external_body]
#[verifier::reject_recursive_types(T)]
pub struct ExCursor<T>(Cursor<T>);

/// What `zip::ZipArchive::new` makes of an archive held in `bytes`: the
/// text of its error where it refuses them, else the archive's contents as
/// `archive_files` and `archive_failures` describe them.
pub uninterp spec fn zip_archive(bytes: Seq<u8>) -> Result<
    (Map<Seq<char>, Seq<u8>>, Map<Seq<char>, (bool, Seq<char>, Seq<u8>)>),
    Seq<char>,
>;

/// The entries of an opened archive that open and read to their end
/// without error, each name mapped to the bytes read.
pub uninterp spec fn archive_files(archive: ZipArchive<Cursor<Vec<u8>>>) -> Map<Seq<char>, Seq<u8>>;

/// For every other name, how reading it fails: whether the entry opened
/// (so that reading its data failed), the text of the error met, and the
/// bytes read before the failure.
pub uninterp spec fn archive_failures(archive: ZipArchive<Cursor<Vec<u8>>>) -> Map<
    Seq<char>,
    (bool, Seq<char>, Seq<u8>),
>;

/// Why an entry could not be read, with the underlying failure's text.
pub enum EntryError {
    /// No such entry, or one that cannot be opened.
    Lookup(String),
    /// The entry was opened but reading its data failed; the bytes read
    /// before the failure are kept.
    Read(String, Vec<u8>),
}

/// Opens the archive held in `bytes`: calls `zip::ZipArchive::new` on a
/// cursor over them, which reads the central directory and is a function of
/// the bytes alone; on failure it returns the error's text.
#[verifier::external_body]
pub(crate) fn open_archive(bytes: Vec<u8>) -> (res: Result<ZipArchive<Cursor<Vec<u8>>>, String>)
    ensures
        match zip_archive(bytes@) {
            Ok(contents) => res matches Ok(archive) && archive_files(archive) == contents.0
                && archive_failures(archive) == contents.1,
            Err(text) => res matches Err(message) && message@ == text,
        },
{
    match ZipArchive::new(Cursor::new(bytes)) {
        Ok(archive) => Ok(archive),
        Err(e) => Err(e.to_string()),
    }
}

/// Reads the entry called `name` to its end with `zip::ZipArchive::by_name`.
/// `by_name` unwraps a password check that fails for an unencrypted entry
/// carrying AES data, so the entry is first tried with
/// `zip::ZipArchive::by_name_decrypt`, whose source discards the password
/// for an entry not flagged as encrypted. Where that answers a failed
/// password check, the entry is either encrypted, for which `by_name`
/// answers `UnsupportedArchive(PASSWORD_REQUIRED)`, or one on which `by_name`
/// would panic; that answer is returned as a lookup failure. In every other
/// case `by_name` takes the same path for an unencrypted entry and returns
/// before its unwrap for an encrypted one, so it is called and its answer
/// used. A failed read keeps the bytes `read_to_end` had appended, as std
/// documents. Reading moves only the reader's position, so the archive's
/// entries and failures are unchanged.
#[verifier::external_body]
pub(crate) fn read_entry(archive: &mut ZipArchive<Cursor<Vec<u8>>>, name: &str) -> (res: Result<Vec<u8>, EntryError>)
    ensures
        archive_files(*final(archive)) == archive_files(*old(archive)),
        archive_failures(*final(archive)) == archive_failures(*old(archive)),
        archive_files(*old(archive)).dom().contains(name@) ==> (res matches Ok(bytes) && bytes@
            == archive_files(*old(archive))[name@]),
        !archive_files(*old(archive)).dom().contains(name@) ==> archive_failures(
            *old(archive),
        ).dom().contains(name@) && match res {
            Err(EntryError::Read(text, partial)) => archive_failures(*old(archive))[name@].0
                && text@ == archive_failures(*old(archive))[name@].1 && partial@
                == archive_failures(*old(archive))[name@].2,
            Err(EntryError::Lookup(text)) => !archive_failures(*old(archive))[name@].0 && text@
                == archive_failures(*old(archive))[name@].1,
            Ok(_) => false,
        },
{
    if let Ok(Err(_)) = archive.by_name_decrypt(name, b"") {
        let refused = ZipError::UnsupportedArchive(ZipError::PASSWORD_REQUIRED);
        return Err(EntryError::Lookup(refused.to_string()));
    }
    let mut file = match archive.by_name(name) {
        Ok(file) => file,
        Err(e) => return Err(EntryError::Lookup(e.to_string())),
    };
    let mut bytes: Vec<u8> = Vec::new();
    match std::io::Read::read_to_end(&mut file, &mut bytes) {
        Ok(_) => Ok(bytes),
        Err(e) => Err(EntryError::Read(e.to_string(), bytes)),
    }
}

} // verus!
