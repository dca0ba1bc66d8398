//! A thin, specified boundary around the ZIP reading library.

use vstd::prelude::*;

verus! {

/// `zip::ZipArchive`, taken as an opaque value.
#[verifier::external_type_specification]
#[verifier::external_body]
#[verifier::reject_recursive_types(R)]
pub struct ExZipArchive<R>(zip::ZipArchive<R>);

/// `std::io::Cursor`, the in-memory reader a container is opened on.
#[verifier::external_type_specification]
#[verifier::external_body]
#[verifier::reject_recursive_types(T)]
pub struct ExCursor<T>(std::io::Cursor<T>);

/// `zip::result::ZipError`, the reader's error; only its presence is used.
#[verifier::external_type_specification]
#[verifier::external_body]
pub struct ExZipError(zip::result::ZipError);

/// An opened ZIP container held in memory.
pub struct ZipSource {
    archive: zip::ZipArchive<std::io::Cursor<Vec<u8>>>,
}

/// The bytes a container was opened on.
pub uninterp spec fn zip_bytes(z: ZipSource) -> Seq<u8>;

/// The number of entries in the central directory of `bytes`, if `bytes` form
/// a readable ZIP container.
pub uninterp spec fn zip_entry_count(bytes: Seq<u8>) -> Option<nat>;

/// The name of entry `i` of the container `bytes`; `None` where there is no
/// such entry or its name cannot be read.
pub uninterp spec fn zip_entry_name(bytes: Seq<u8>, i: nat) -> Option<Seq<char>>;

/// The decompressed bytes of entry `i` of the container `bytes`; `None` where
/// they cannot be read in full and checked.
pub uninterp spec fn zip_entry_content(bytes: Seq<u8>, i: nat) -> Option<Seq<u8>>;

/// Opens a container with `zip::ZipArchive::new`, which reads the central
/// directory and fails on anything that is not a ZIP structure.
#[verifier::external_body]
pub(crate) fn open_zip(bytes: Vec<u8>) -> (r: Result<ZipSource, zip::result::ZipError>)
    ensures
        r is Ok <==> zip_entry_count(bytes@) is Some,
        r matches Ok(z) ==> zip_bytes(z) == bytes@,
{
    zip::ZipArchive::new(std::io::Cursor::new(bytes)).map(|archive| ZipSource { archive })
}

/// The number of entries, from `zip::ZipArchive::len`.
#[verifier::external_body]
pub(crate) fn entry_count(z: &ZipSource) -> (n: usize)
    ensures
        zip_entry_count(zip_bytes(*z)) == Some(n as nat),
{
    z.archive.len()
}

/// The stored name of entry `i`, from `zip::ZipArchive::by_index_data` and
/// the entry's `name`.
#[verifier::external_body]
pub(crate) fn entry_name(z: &ZipSource, i: usize) -> (r: Result<String, zip::result::ZipError>)
    ensures
        r matches Ok(name) ==> zip_entry_name(zip_bytes(*z), i as nat) == Some(name@),
        r is Err ==> zip_entry_name(zip_bytes(*z), i as nat) is None,
{
    z.archive.by_index_data(i)?.name().map(|name| name.into_owned())
}

/// The name of entry `i` as the entry's `mangled_name` rewrites it: without
/// root, drive prefix and parent-directory components, and cut at a NUL.
/// The result is joined with the separator of the platform, so nothing is
/// promised of it here; callers check it.
#[verifier::external_body]
pub(crate) fn entry_path(z: &ZipSource, i: usize) -> (r: Result<String, zip::result::ZipError>)
{
    z.archive.by_index_data(i)?.mangled_name().map(|p| p.to_string_lossy().into_owned())
}

/// The bytes of entry `i`, from `zip::ZipArchive::by_index` and the reader
/// it returns, read to its end. Reading needs the container mutably but
/// does not change what it holds.
#[verifier::external_body]
pub(crate) fn entry_content(z: &mut ZipSource, i: usize) -> (r: Result<
    Vec<u8>,
    zip::result::ZipError,
>)
    ensures
        zip_bytes(*final(z)) == zip_bytes(*old(z)),
        r matches Ok(content) ==> zip_entry_content(zip_bytes(*old(z)), i as nat) == Some(
            content@,
        ),
        r is Err ==> zip_entry_content(zip_bytes(*old(z)), i as nat) is None,
{
    let mut content = Vec::new();
    std::io::Read::read_to_end(&mut z.archive.by_index(i)?, &mut content)?;
    Ok(content)
}

} // verus!
