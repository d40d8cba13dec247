use vstd::prelude::*;

use crate::error::Error;

verus! {

// Access to zip archives held in memory. The archive bytes fully determine
// the central directory, the entry names and the entry contents, so those
// results are given names that the extraction contracts speak of.

/// Whether the bytes parse as a zip archive.
pub uninterp spec fn zip_parse_ok(data: Seq<u8>) -> bool;

/// How many entries the archive in `data` holds.
pub uninterp spec fn zip_entry_count(data: Seq<u8>) -> nat;

/// The sanitised relative path of entry `i` of the archive in `data`.
pub uninterp spec fn zip_entry_name(data: Seq<u8>, i: int) -> Seq<char>;

/// Whether entry `i` of the archive in `data` is a directory entry.
pub uninterp spec fn zip_entry_is_dir(data: Seq<u8>, i: int) -> bool;

/// The decompressed contents of entry `i` of the archive in `data`.
pub uninterp spec fn zip_entry_bytes(data: Seq<u8>, i: int) -> Seq<u8>;

/// Whether entry `i` of the archive in `data` can be opened: its local
/// header is intact and its compression method is supported, so looking the
/// entry up succeeds.
pub uninterp spec fn zip_entry_located(data: Seq<u8>, i: int) -> bool;

/// Whether entry `i` of the archive in `data` can be opened and its contents
/// decompressed to the end without error. Stronger than being located: a
/// corrupt compressed stream is only found while reading.
pub uninterp spec fn zip_entry_readable(data: Seq<u8>, i: int) -> bool;

/// Whether looking entry `i` up in the archive succeeds: the bytes parse,
/// the index is in range, and the entry opens.
pub open spec fn zip_entry_open_ok(data: Seq<u8>, i: int) -> bool {
    zip_parse_ok(data) && i < zip_entry_count(data) && zip_entry_located(data, i)
}

/// Whether reading entry `i` out of the archive succeeds: the bytes parse,
/// the index is in range, and the entry decompresses cleanly.
pub open spec fn zip_entry_read_ok(data: Seq<u8>, i: int) -> bool {
    zip_parse_ok(data) && i < zip_entry_count(data) && zip_entry_readable(data, i)
}

/// Relies on zip's ZipArchive::new and ZipArchive::len: the central
/// directory read from a byte buffer, and with it the entry count, are
/// functions of the bytes alone.
#[verifier::external_body]
pub(crate) fn zip_count(data: &[u8]) -> (r: Result<usize, Error>)
    ensures
        r is Ok <==> zip_parse_ok(data@),
        r is Ok ==> r->Ok_0 as nat == zip_entry_count(data@),
{
    match zip::ZipArchive::new(std::io::Cursor::new(data)) {
        Ok(archive) => Ok(archive.len()),
        Err(e) => Err(Error::Zip(e.to_string())),
    }
}

/// Relies on zip's ZipArchive::by_index, ZipFile::mangled_name and
/// ZipFile::is_dir: an entry's sanitised name and directory flag are
/// functions of the bytes alone, and the lookup succeeds exactly when the
/// archive parses, the index is in range and the entry opens. The sanitised
/// name is rendered with the path separator of the build target, fixed
/// within any one build; the directory flag also accepts a name ending in a
/// backslash.
#[verifier::external_body]
pub(crate) fn zip_entry_meta(data: &[u8], i: usize) -> (r: Result<(String, bool), Error>)
    ensures
        r is Ok <==> zip_entry_open_ok(data@, i as int),
        r is Ok ==> r->Ok_0.0@ == zip_entry_name(data@, i as int) && r->Ok_0.1 == zip_entry_is_dir(
            data@,
            i as int,
        ),
{
    let mut archive = zip::ZipArchive::new(std::io::Cursor::new(data)).map_err(
        |e| Error::Zip(e.to_string()),
    )?;
    let entry = archive.by_index(i).map_err(|e| Error::Zip(e.to_string()))?;
    let name = entry.mangled_name().to_string_lossy().into_owned();
    let is_dir = entry.is_dir();
    Ok((name, is_dir))
}

/// Relies on zip's ZipArchive::by_index and the Read impl of ZipFile: an
/// entry's decompressed contents are a function of the bytes alone, and
/// reading them out succeeds exactly when the archive parses, the index is
/// in range and the entry opens and decompresses cleanly.
#[verifier::external_body]
pub(crate) fn zip_entry_contents(data: &[u8], i: usize) -> (r: Result<Vec<u8>, Error>)
    ensures
        r is Ok <==> zip_entry_read_ok(data@, i as int),
        r is Ok ==> zip_entry_readable(data@, i as int),
        r is Ok ==> zip_entry_located(data@, i as int),
        r is Ok ==> r->Ok_0@ == zip_entry_bytes(data@, i as int),
{
    let mut archive = zip::ZipArchive::new(std::io::Cursor::new(data)).map_err(
        |e| Error::Zip(e.to_string()),
    )?;
    let mut entry = archive.by_index(i).map_err(|e| Error::Zip(e.to_string()))?;
    let mut out = Vec::new();
    std::io::Read::read_to_end(&mut entry, &mut out).map_err(|e| Error::Io(e.to_string()))?;
    Ok(out)
}

} // verus!
