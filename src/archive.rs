//! The zip reader that the library relies on, and what it is trusted to do.
use vstd::prelude::*;
use std::io::Cursor;
use zip::read::ZipArchive;
use zip::result::ZipError;

verus! {

#[verifier::external_type_specification]
#[verifier::external_body]
#[verifier::reject_recursive_types(T)]
pub struct ExCursor<T>(Cursor<T>);

#[verifier::external_type_specification]
#[verifier::external_body]
#[verifier::reject_recursive_types(R)]
pub struct ExZipArchive<R>(ZipArchive<R>);

#[verifier::external_type_specification]
#[verifier::external_body]
pub struct ExZipError(ZipError);

/// An archive read from bytes held in memory.
pub type MemArchive = ZipArchive<Cursor<Vec<u8>>>;

/// The entry names of an opened archive, in the order of its central directory.
pub uninterp spec fn archive_names(z: MemArchive) -> Seq<Seq<char>>;

/// The entry names that the central directory of the bytes `b` lists, in order.
pub uninterp spec fn zip_listing(b: Seq<u8>) -> Seq<Seq<char>>;

/// Relies on `ZipArchive::new`: it reads the central directory of the bytes,
/// so the entries of the archive are those that the bytes list.
#[verifier::external_body]
pub(crate) fn open_archive(bytes: Vec<u8>) -> (r: Result<MemArchive, ZipError>)
    ensures
        r matches Ok(z) ==> archive_names(z) == zip_listing(bytes@),
{
    ZipArchive::new(Cursor::new(bytes))
}

/// Relies on `ZipArchive::len`: the number of entries of the central directory.
#[verifier::external_body]
pub(crate) fn entry_count(z: &MemArchive) -> (r: usize)
    ensures
        r == archive_names(*z).len(),
{
    z.len()
}

/// Relies on `ZipArchive::name_for_index`: the name of entry `i`, present
/// exactly when `i` is below the number of entries; it fails only when the raw
/// name cannot be decoded.
#[verifier::external_body]
pub(crate) fn entry_name(z: &MemArchive, i: usize) -> (r: Option<Result<String, ZipError>>)
    ensures
        r is Some <==> i < archive_names(*z).len(),
        r matches Some(Ok(n)) ==> n@ == archive_names(*z)[i as int],
{
    z.name_for_index(i).map(|n| n.map(|c| c.into_owned()))
}

} // verus!
