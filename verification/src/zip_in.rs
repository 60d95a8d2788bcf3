//! Reading a zip archive. The archive and its entries are the work of the
//! crate zip; nothing in this file is proved.

use crate::zip_tar::ZipEntryMetadata;
use vstd::prelude::*;

verus! {

#[verifier::external_type_specification]
#[verifier::external_body]
#[verifier::reject_recursive_types(T)]
pub struct ExCursor<T>(std::io::Cursor<T>);

#[verifier::external_type_specification]
#[verifier::external_body]
#[verifier::reject_recursive_types(R)]
pub struct ExZipArchive<R>(zip::read::ZipArchive<R>);

#[verifier::external_type_specification]
#[verifier::external_body]
pub struct ExZipFile<'a>(zip::read::ZipFile<'a>);

#[verifier::external_type_specification]
#[verifier::external_body]
pub struct ExZipError(zip::result::ZipError);

/// One entry of a zip archive, as a value: what the directory says of it,
/// its uncompressed bytes, and whether it can be had.
pub ghost struct ZipEntryView {
    pub path: Seq<char>,
    pub size: u64,
    pub mode: Option<u32>,
    pub data: Seq<u8>,
    /// Whether the entry opens without a password.
    pub opens: bool,
    /// Whether the bytes of the entry can be read to their end without a
    /// failure.
    pub intact: bool,
}

/// Whether `zip::read::ZipArchive::new` reads the directory of the archive
/// that `input` is.
pub uninterp spec fn zip_readable(input: Seq<u8>) -> bool;

/// The entries of the zip archive that `input` is, in the order of its directory.
pub uninterp spec fn zip_directory(input: Seq<u8>) -> Seq<ZipEntryView>;

/// The entries of an open archive, in the order of its directory.
pub uninterp spec fn zip_entries(
    archive: zip::read::ZipArchive<std::io::Cursor<&[u8]>>,
) -> Seq<ZipEntryView>;

/// What an open entry holds: what the directory says of it, and the
/// uncompressed bytes that it has yet to hand out.
pub uninterp spec fn zip_file_view(entry: zip::read::ZipFile<'_>) -> ZipEntryView;

/// `zip::read::ZipArchive::new`, over the bytes of an archive in memory:
/// reads the directory. Whether it succeeds depends on `input` alone. The
/// entries of the archive are those of `input`.
#[verifier::external_body]
pub(crate) fn zip_open<'a>(input: &'a [u8]) -> (r: Result<
    zip::read::ZipArchive<std::io::Cursor<&'a [u8]>>,
    zip::result::ZipError,
>)
    ensures
        r is Ok <==> zip_readable(input@),
        r matches Ok(archive) ==> zip_entries(archive) == zip_directory(input@),
{
    zip::read::ZipArchive::new(std::io::Cursor::new(input))
}

/// `zip::read::ZipArchive::len`: the number of entries.
#[verifier::external_body]
pub(crate) fn zip_len(archive: &zip::read::ZipArchive<std::io::Cursor<&[u8]>>) -> (count: usize)
    ensures
        count == zip_entries(*archive).len(),
{
    archive.len()
}

/// `zip::read::ZipArchive::by_index_decrypt`, with an empty password: opens
/// the entry of an index. The archive's entries stay as they are. What comes
/// back is the entry of that index with all of its bytes yet to be read;
/// `None` where the entry is encrypted and does not open. Whether an entry
/// opens depends on the archive and the index alone.
///
/// `by_index` is not called: it ends the process on an entry that carries
/// the mark of AES encryption without the flag of encryption. With the empty
/// password such an entry is refused instead. The price is that an entry
/// encrypted with the empty password opens, which `by_index` refuses.
#[verifier::external_body]
pub(crate) fn zip_open_entry<'a>(
    archive: &'a mut zip::read::ZipArchive<std::io::Cursor<&[u8]>>,
    index: usize,
) -> (r: Result<Option<zip::read::ZipFile<'a>>, zip::result::ZipError>)
    ensures
        zip_entries(*final(archive)) == zip_entries(*old(archive)),
        r matches Ok(Some(entry)) ==> index < zip_entries(*old(archive)).len() && zip_file_view(
            entry,
        ) == zip_entries(*old(archive))[index as int],
        index < zip_entries(*old(archive)).len() ==> (r matches Ok(Some(_)) <==> zip_entries(
            *old(archive),
        )[index as int].opens),
{
    archive.by_index_decrypt(index, &[]).map(|opened| opened.ok())
}

/// `name`, `size` and `unix_mode` of `zip::read::ZipFile`: what the directory
/// says of an open entry.
#[verifier::external_body]
pub(crate) fn zip_file_meta(entry: &zip::read::ZipFile<'_>) -> (meta: ZipEntryMetadata)
    ensures
        meta.path@ == zip_file_view(*entry).path,
        meta.size == zip_file_view(*entry).size,
        meta.mode == zip_file_view(*entry).mode,
{
    ZipEntryMetadata { path: entry.name().to_string(), size: entry.size(), mode: entry.unix_mode() }
}

} // verus!
