//! Reading entries out of the bytes of a zip archive.

use vstd::prelude::*;
use vstd::utf8::{decode_utf8, valid_utf8};
use crate::result::EpubError;

verus! {

/// What the `zip` crate makes of the entry `name` of the archive whose bytes
/// are `archive`, read without a password: the entry's uncompressed content,
/// or the message of the error with which opening the archive, finding the
/// entry by its name or reading it ended.
pub uninterp spec fn archive_entry(archive: Seq<u8>, name: Seq<char>) -> Result<
    Seq<u8>,
    Seq<char>,
>;

/// The mathematical value of what reading an entry gave.
pub open spec fn outcome_view(entry: Result<Vec<u8>, String>) -> Result<Seq<u8>, Seq<char>> {
    match entry {
        Ok(bytes) => Ok(bytes@),
        Err(cause) => Err(cause@),
    }
}

/// Opens the archive with `zip::ZipArchive::new` over an in-memory cursor,
/// looks the entry up with `ZipArchive::by_name_decrypt` and an empty
/// password, so that an entry that wants a password is an error like any
/// other, and reads the entry to its end. Trusted: that the outcome is
/// `archive_entry` of the two arguments, which says no more than that it
/// depends on the archive's bytes and the name alone.
#[verifier::external_body]
fn read_zip_entry(archive: &Vec<u8>, name: &str) -> (entry: Result<Vec<u8>, String>)
    ensures
        outcome_view(entry) == archive_entry(archive@, name@),
{
    let cursor = std::io::Cursor::new(archive.as_slice());
    let mut zip = zip::ZipArchive::new(cursor).map_err(|e| e.to_string())?;
    let found = zip.by_name_decrypt(name, &[]).map_err(|e| e.to_string())?;
    let mut file = found.map_err(|e| e.to_string())?;
    let mut bytes = Vec::new();
    std::io::Read::read_to_end(&mut file, &mut bytes).map_err(|e| e.to_string())?;
    Ok(bytes)
}

/// `String::from_utf8` accepts exactly the byte sequences that are valid
/// UTF-8, and the string it gives holds the characters that they encode.
#[verifier::external_body]
fn string_from_utf8(bytes: Vec<u8>) -> (text: Option<String>)
    ensures
        text is Some <==> valid_utf8(bytes@),
        text matches Some(t) ==> t@ == decode_utf8(bytes@),
{
    String::from_utf8(bytes).ok()
}

/// The text of the entry `name` of `archive`: nothing where the entry cannot
/// be read or is not valid UTF-8.
pub open spec fn entry_text(archive: Seq<u8>, name: Seq<char>) -> Option<Seq<char>> {
    match archive_entry(archive, name) {
        Ok(bytes) => if valid_utf8(bytes) {
            Some(decode_utf8(bytes))
        } else {
            None
        },
        Err(_) => None,
    }
}

/// The content of the entry `name` of the zip archive `archive`.
///
/// Every failure, whether the bytes are no archive, the entry is missing or
/// its data is corrupt, is an archive-format failure.
pub fn read_entry(archive: &Vec<u8>, name: &str) -> (entry: Result<Vec<u8>, EpubError>)
    ensures
        entry matches Ok(bytes) ==> archive_entry(archive@, name@) matches Ok(content)
            && content == bytes@,
        entry matches Err(e) ==> e matches EpubError::InvalidEpub(cause) && archive_entry(
            archive@,
            name@,
        ) matches Err(message) && message == cause@,
{
    match read_zip_entry(archive, name) {
        Ok(bytes) => Ok(bytes),
        Err(cause) => Err(EpubError::InvalidEpub(cause)),
    }
}

/// The content of the entry `name` of the zip archive `archive` as text;
/// `None` where the entry cannot be read or is not valid UTF-8.
pub fn read_entry_text(archive: &Vec<u8>, name: &str) -> (text: Option<String>)
    ensures
        text matches Some(t) ==> entry_text(archive@, name@) == Some(t@),
        text is None ==> entry_text(archive@, name@) is None,
{
    match read_zip_entry(archive, name) {
        Ok(bytes) => string_from_utf8(bytes),
        Err(_) => None,
    }
}

} // verus!
