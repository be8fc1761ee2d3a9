//! Jars as zip archives, read with the `zip` crate.

use crate::text::outcome;
use vstd::prelude::*;

verus! {

/// `std::io::Cursor`, which reads from bytes in memory.
#[verifier::external_type_specification]
#[verifier::external_body]
#[verifier::reject_recursive_types(T)]
pub struct ExCursor<T>(std::io::Cursor<T>);

/// `zip::ZipArchive`, an archive that is open.
#[verifier::external_type_specification]
#[verifier::external_body]
#[verifier::reject_recursive_types(R)]
pub struct ExZipArchive<R>(zip::ZipArchive<R>);

/// The bytes that an archive is read from.
pub uninterp spec fn zip_bytes(a: zip::ZipArchive<std::io::Cursor<Vec<u8>>>) -> Seq<u8>;

/// Why `zip::ZipArchive::new` does not open some bytes, where it does not.
pub uninterp spec fn zip_fault(bytes: Seq<u8>) -> Option<Seq<char>>;

/// How many entries the archive that some bytes are has.
pub uninterp spec fn zip_count(bytes: Seq<u8>) -> nat;

/// The name of an entry, by its place, or why it cannot be had.
pub uninterp spec fn zip_name(bytes: Seq<u8>, i: nat) -> Result<Seq<char>, Seq<char>>;

/// The text of an entry, by its place, or why it cannot be read.
pub uninterp spec fn zip_text(bytes: Seq<u8>, i: nat) -> Result<Seq<char>, Seq<char>>;

/// `zip::ZipArchive::new` over bytes in memory. The claim is that whether it
/// succeeds, and with what message it does not, depends on the bytes alone,
/// and that the archive is the bytes'; which bytes are an archive is not
/// stated.
#[verifier::external_body]
pub(crate) fn open_archive(bytes: Vec<u8>) -> (r: Result<
    zip::ZipArchive<std::io::Cursor<Vec<u8>>>,
    String,
>)
    ensures
        zip_fault(bytes@) == (match r {
            Ok(_) => None::<Seq<char>>,
            Err(e) => Some(e@),
        }),
        r matches Ok(a) ==> zip_bytes(a) == bytes@,
{
    match zip::ZipArchive::new(std::io::Cursor::new(bytes)) {
        Ok(a) => Ok(a),
        Err(e) => Err(e.to_string()),
    }
}

/// `zip::ZipArchive::len`: the number of entries, which depends on the bytes
/// alone.
#[verifier::external_body]
pub(crate) fn entry_count(a: &zip::ZipArchive<std::io::Cursor<Vec<u8>>>) -> (r: usize)
    ensures
        r == zip_count(zip_bytes(*a)),
{
    a.len()
}

/// The name of the entry that `zip::ZipArchive::by_index` gives. The claim is
/// that it, or the message where there is none, depends on the bytes and the
/// place alone, and that the archive stays the bytes'.
#[verifier::external_body]
pub(crate) fn entry_name(a: &mut zip::ZipArchive<std::io::Cursor<Vec<u8>>>, i: usize) -> (r: Result<
    String,
    String,
>)
    ensures
        outcome(r) == zip_name(zip_bytes(*old(a)), i as nat),
        zip_bytes(*final(a)) == zip_bytes(*old(a)),
{
    match a.by_index(i) {
        Ok(entry) => match entry.name() {
            Ok(name) => Ok(name.into_owned()),
            Err(e) => Err(e.to_string()),
        },
        Err(e) => Err(e.to_string()),
    }
}

/// The contents of the entry that `zip::ZipArchive::by_index` gives, as UTF-8.
/// The claim is that they, or the message where they cannot be read, depend on
/// the bytes and the place alone, and that the archive stays the bytes'.
#[verifier::external_body]
pub(crate) fn entry_text(a: &mut zip::ZipArchive<std::io::Cursor<Vec<u8>>>, i: usize) -> (r: Result<
    String,
    String,
>)
    ensures
        outcome(r) == zip_text(zip_bytes(*old(a)), i as nat),
        zip_bytes(*final(a)) == zip_bytes(*old(a)),
{
    let mut text = String::new();
    match a.by_index(i) {
        Ok(mut entry) => match std::io::Read::read_to_string(&mut entry, &mut text) {
            Ok(_) => Ok(text),
            Err(e) => Err(e.to_string()),
        },
        Err(e) => Err(e.to_string()),
    }
}

} // verus!
