//! From a zip archive to a tar stream: one tar entry for each zip entry, in
//! the order of the zip directory.

use crate::error::ConvertError;
use crate::tar_out::{
    block_with_cksum, block_with_gid, block_with_mode, block_with_mtime, block_with_path,
    block_with_size, block_with_uid, gnu_blank, header_block, header_new_gnu, header_set_cksum,
    header_set_gid, header_set_mode, header_set_mtime, header_set_path, header_set_size,
    header_set_uid, padding, path_fits, tar_append, tar_into_inner, tar_new, tar_written, zeros,
};
use crate::zip_in::{
    zip_directory, zip_entries, zip_file_meta, zip_file_view, zip_len, zip_open, zip_open_entry,
    zip_readable, ZipEntryView,
};
use vstd::prelude::*;

verus! {

/// What the directory of a zip archive says of one entry.
#[derive(Debug)]
pub struct ZipEntryMetadata {
    /// The stored path of the entry, relative to the archive's root.
    pub path: String,
    /// The size of the entry's data once uncompressed, as the directory states it.
    pub size: u64,
    /// The unix permissions of the entry, where the directory holds them.
    pub mode: Option<u32>,
}

/// What the header of a tar entry is to say.
#[derive(Debug)]
pub struct TarFields {
    /// The path of the entry, relative to the archive's root.
    pub path: String,
    /// The number of bytes of the entry's data.
    pub size: u64,
    /// The unix permissions.
    pub mode: u32,
    /// The time of the last change, in seconds since 1970.
    pub mtime: u64,
    /// The id of the owning user.
    pub uid: u64,
    /// The id of the owning group.
    pub gid: u64,
}

/// What the header of a tar entry is to say, as a value.
pub ghost struct HeaderFields {
    pub path: Seq<char>,
    pub size: u64,
    pub mode: u32,
    pub mtime: u64,
    pub uid: u64,
    pub gid: u64,
}

impl View for TarFields {
    type V = HeaderFields;

    open spec fn view(&self) -> HeaderFields {
        HeaderFields {
            path: self.path@,
            size: self.size,
            mode: self.mode,
            mtime: self.mtime,
            uid: self.uid,
            gid: self.gid,
        }
    }
}

/// What the file system says of the archive file itself. A zip entry does not
/// reliably say when it was changed or whose it is, so every tar entry takes
/// these from the file that held it.
#[derive(Clone, Copy, Debug, PartialEq, Eq, Structural)]
pub struct ContainerMetadata {
    /// The time of the last change, in seconds since 1970.
    pub mtime: u64,
    /// The id of the owning user.
    pub uid: u64,
    /// The id of the owning group.
    pub gid: u64,
}

impl ContainerMetadata {
    /// From the values as unix reports them. A time before 1970 is a
    /// negative number there; it is kept as the unsigned number with the
    /// same 64 bits.
    pub fn from_unix(mtime: i64, uid: u32, gid: u32) -> (owner: ContainerMetadata)
        ensures
            owner.mtime == if mtime >= 0 {
                mtime as int
            } else {
                mtime + 0x1_0000_0000_0000_0000
            },
            owner.uid == uid,
            owner.gid == gid,
    {
        let seconds: u64 = if mtime >= 0 {
            mtime as u64
        } else {
            u64::MAX - ((-(mtime + 1)) as u64)
        };
        ContainerMetadata { mtime: seconds, uid: uid as u64, gid: gid as u64 }
    }
}

/// The fields of the tar header of a zip entry: the path, the size and the
/// permissions are the entry's own; the time, the user and the group are
/// those of the archive file. There are none where the entry carries no
/// unix permissions.
pub open spec fn fields_of(
    path: Seq<char>,
    size: u64,
    mode: Option<u32>,
    owner: ContainerMetadata,
) -> Option<HeaderFields> {
    match mode {
        Some(mode) => Some(
            HeaderFields { path, size, mode, mtime: owner.mtime, uid: owner.uid, gid: owner.gid },
        ),
        None => None,
    }
}

/// The header block that says `fields`: the blank GNU header in which the
/// size, the path, the permissions, the time, the user and the group were
/// set, in this order, and then the checksum.
pub open spec fn stamped_block(fields: HeaderFields) -> Seq<u8> {
    block_with_cksum(
        block_with_gid(
            block_with_uid(
                block_with_mtime(
                    block_with_mode(
                        block_with_path(block_with_size(gnu_blank(), fields.size), fields.path),
                        fields.mode,
                    ),
                    fields.mtime,
                ),
                fields.uid,
            ),
            fields.gid,
        ),
    )
}

/// What one zip entry becomes in the tar stream: its header block, its
/// bytes, and zero bytes up to the end of the last block.
pub open spec fn entry_record(entry: ZipEntryView, owner: ContainerMetadata) -> Seq<u8> {
    stamped_block(fields_of(entry.path, entry.size, entry.mode, owner).unwrap()) + entry.data
        + zeros(padding(entry.data.len()))
}

/// The records of the entries, one after the other, in their order.
pub open spec fn tar_body(entries: Seq<ZipEntryView>, owner: ContainerMetadata) -> Seq<u8>
    decreases entries.len(),
{
    if entries.len() == 0 {
        Seq::empty()
    } else {
        tar_body(entries.drop_last(), owner) + entry_record(entries.last(), owner)
    }
}

/// The tar stream of the entries: their records, and two blocks of zero bytes.
pub open spec fn tar_image(entries: Seq<ZipEntryView>, owner: ContainerMetadata) -> Seq<u8> {
    tar_body(entries, owner) + zeros(1024)
}

/// What the tar header of a zip entry is to say. It fails with `Metadata`,
/// and the entry's index, where the entry carries no unix permissions.
pub fn header_fields(meta: &ZipEntryMetadata, owner: &ContainerMetadata, index: usize) -> (r: Result<
    TarFields,
    ConvertError,
>)
    ensures
        match r {
            Ok(fields) => fields_of(meta.path@, meta.size, meta.mode, *owner) == Some(fields@),
            Err(e) => meta.mode is None && e == (ConvertError::Metadata { entry: index }),
        },
{
    match meta.mode {
        Some(mode) => Ok(
            TarFields {
                path: meta.path.clone(),
                size: meta.size,
                mode,
                mtime: owner.mtime,
                uid: owner.uid,
                gid: owner.gid,
            },
        ),
        None => Err(ConvertError::Metadata { entry: index }),
    }
}

/// Whether a tar header holds the path of an entry of this size: whether
/// the path can be set in the blank header in which the size was set.
pub open spec fn header_holds(path: Seq<char>, size: u64) -> bool {
    path_fits(block_with_size(gnu_blank(), size), path)
}

/// The tar header that says `fields`, with its checksum. It fails, with
/// `Io`, exactly where the header cannot hold the path.
pub fn stamp_header(fields: &TarFields) -> (r: Result<tar::Header, ConvertError>)
    ensures
        r is Ok <==> header_holds(fields.path@, fields.size),
        match r {
            Ok(header) => header_block(header) == stamped_block(fields@),
            Err(e) => e == ConvertError::Io,
        },
{
    let mut header = header_new_gnu();
    header_set_size(&mut header, fields.size);
    match header_set_path(&mut header, fields.path.as_str()) {
        Ok(()) => {},
        Err(_) => {
            return Err(ConvertError::Io);
        },
    }
    header_set_mode(&mut header, fields.mode);
    header_set_mtime(&mut header, fields.mtime);
    header_set_uid(&mut header, fields.uid);
    header_set_gid(&mut header, fields.gid);
    header_set_cksum(&mut header);
    Ok(header)
}

/// The tar header of one zip entry. It fails with `Metadata` exactly where
/// the entry carries no unix permissions; else it fails, with `Io`, exactly
/// where the header cannot hold the path.
pub fn entry_header(meta: &ZipEntryMetadata, owner: &ContainerMetadata, index: usize) -> (r: Result<
    tar::Header,
    ConvertError,
>)
    ensures
        r is Ok <==> meta.mode is Some && header_holds(meta.path@, meta.size),
        match r {
            Ok(header) => header_block(header) == stamped_block(
                fields_of(meta.path@, meta.size, meta.mode, *owner).unwrap(),
            ),
            Err(e) => e == if meta.mode is None {
                ConvertError::Metadata { entry: index }
            } else {
                ConvertError::Io
            },
        },
{
    match header_fields(meta, owner, index) {
        Ok(fields) => stamp_header(&fields),
        Err(e) => Err(e),
    }
}

/// Why a zip entry cannot be converted, if it cannot. The first of these
/// tells: the entry does not open (`Decode`); it carries no unix
/// permissions (`Metadata`, with its index); the tar header cannot hold its
/// path (`Io`); its bytes cannot be read to their end (`Decode`).
pub open spec fn entry_failure(entry: ZipEntryView, index: usize) -> Option<ConvertError> {
    if !entry.opens {
        Some(ConvertError::Decode)
    } else if entry.mode is None {
        Some(ConvertError::Metadata { entry: index })
    } else if !header_holds(entry.path, entry.size) {
        Some(ConvertError::Io)
    } else if !entry.intact {
        Some(ConvertError::Decode)
    } else {
        None
    }
}

/// The failure of the first entry that cannot be converted, if there is one.
pub open spec fn first_failure(entries: Seq<ZipEntryView>) -> Option<ConvertError>
    decreases entries.len(),
{
    if entries.len() == 0 {
        None
    } else {
        match first_failure(entries.drop_last()) {
            Some(e) => Some(e),
            None => entry_failure(entries.last(), (entries.len() - 1) as usize),
        }
    }
}

/// What converting the zip archive that `input` is gives: `Decode` where its
/// directory cannot be read; else the failure of the first entry that cannot
/// be converted; else the tar stream of its entries.
pub open spec fn zip_outcome(input: Seq<u8>, owner: ContainerMetadata) -> Result<
    Seq<u8>,
    ConvertError,
> {
    if !zip_readable(input) {
        Err(ConvertError::Decode)
    } else {
        match first_failure(zip_directory(input)) {
            Some(e) => Err(e),
            None => Ok(tar_image(zip_directory(input), owner)),
        }
    }
}

/// A failure among the first entries of a list is the first failure of the
/// whole list.
pub proof fn lemma_failure_stays(entries: Seq<ZipEntryView>, upto: int)
    requires
        0 <= upto <= entries.len(),
        first_failure(entries.take(upto)) is Some,
    ensures
        first_failure(entries) == first_failure(entries.take(upto)),
    decreases entries.len() - upto,
{
    if upto < entries.len() {
        let longer = entries.take(upto + 1);
        assert(longer.drop_last() =~= entries.take(upto));
        lemma_failure_stays(entries, upto + 1);
    } else {
        assert(entries.take(upto) =~= entries);
    }
}

/// `first_failure` is the failure of an entry before which every entry
/// converts; there is none exactly where every entry converts.
pub proof fn lemma_first_failure(entries: Seq<ZipEntryView>)
    ensures
        first_failure(entries) is None <==> forall|i: int|
            0 <= i < entries.len() ==> entry_failure(#[trigger] entries[i], i as usize) is None,
        first_failure(entries) is Some ==> exists|k: int|
            {
                &&& 0 <= k < entries.len()
                &&& entry_failure(#[trigger] entries[k], k as usize) == first_failure(entries)
                &&& forall|j: int|
                    0 <= j < k ==> entry_failure(#[trigger] entries[j], j as usize) is None
            },
    decreases entries.len(),
{
    if entries.len() > 0 {
        let before = entries.drop_last();
        let last = entries.len() - 1;
        lemma_first_failure(before);
        assert forall|i: int| 0 <= i < before.len() implies before[i] == entries[i] by {}
        if first_failure(before) is Some {
            let k = choose|k: int|
                {
                    &&& 0 <= k < before.len()
                    &&& entry_failure(#[trigger] before[k], k as usize) == first_failure(before)
                    &&& forall|j: int|
                        0 <= j < k ==> entry_failure(#[trigger] before[j], j as usize) is None
                };
            assert(entries[k] == before[k]);
            assert forall|j: int| 0 <= j < k implies entry_failure(
                #[trigger] entries[j],
                j as usize,
            ) is None by {
                assert(entries[j] == before[j]);
            }
        } else {
            assert forall|j: int| 0 <= j < last implies entry_failure(
                #[trigger] entries[j],
                j as usize,
            ) is None by {
                assert(entries[j] == before[j]);
            }
            if first_failure(entries) is Some {
                assert(entry_failure(entries[last], last as usize) == first_failure(entries));
            }
        }
    }
}

/// Turns the zip archive that `input` is into a tar stream. The entries keep
/// their order; none is left out and none is merged with another of the same
/// name. It ends at the first entry that cannot be converted, with the
/// failure of that entry.
pub fn zip_to_tar(input: &[u8], owner: &ContainerMetadata) -> (r: Result<Vec<u8>, ConvertError>)
    ensures
        match r {
            Ok(out) => zip_outcome(input@, *owner) == Ok::<Seq<u8>, ConvertError>(out@),
            Err(e) => zip_outcome(input@, *owner) == Err::<Seq<u8>, ConvertError>(e),
        },
{
    let mut archive = match zip_open(input) {
        Ok(archive) => archive,
        Err(_) => {
            return Err(ConvertError::Decode);
        },
    };
    let ghost entries = zip_entries(archive);
    let count: usize = zip_len(&archive);
    let mut writer = tar_new();
    let mut i: usize = 0;
    proof {
        assert(entries.take(0) =~= Seq::<ZipEntryView>::empty());
    }
    while i < count
        invariant
            i <= count,
            count == entries.len(),
            zip_readable(input@),
            entries == zip_directory(input@),
            zip_entries(archive) == entries,
            first_failure(entries.take(i as int)) is None,
            tar_written(writer) == tar_body(entries.take(i as int), *owner),
        decreases count - i,
    {
        proof {
            let next = entries.take(i + 1);
            assert(next.drop_last() =~= entries.take(i as int));
            assert(next.last() == entries[i as int]);
            assert(first_failure(next) == entry_failure(entries[i as int], i));
            if first_failure(next) is Some {
                lemma_failure_stays(entries, i + 1);
            }
        }
        let entry = match zip_open_entry(&mut archive, i) {
            Ok(Some(entry)) => entry,
            Ok(None) => {
                return Err(ConvertError::Decode);
            },
            Err(_) => {
                return Err(ConvertError::Decode);
            },
        };
        let meta = zip_file_meta(&entry);
        let header = match entry_header(&meta, owner, i) {
            Ok(header) => header,
            Err(e) => {
                return Err(e);
            },
        };
        match tar_append(&mut writer, &header, entry) {
            Ok(()) => {},
            Err(_) => {
                return Err(ConvertError::Decode);
            },
        }
        i += 1;
    }
    proof {
        assert(entries.take(count as int) =~= entries);
    }
    match tar_into_inner(writer) {
        Ok(out) => Ok(out),
        Err(_) => Err(ConvertError::Io),
    }
}

} // verus!
