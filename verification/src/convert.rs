//! The conversion: from the type set to one way of decoding, and from the
//! bytes of the source to the bytes of the destination.

use crate::classify::{classified, get_archive_type, tar_in_name, SniffReport};
use crate::codecs::{
    bzip2_intact, bzip2_payload, gzip_intact, gzip_payload, xz_intact, xz_payload,
};
use crate::error::ConvertError;
use crate::kinds::{ArchiveKind, ArchiveType};
use crate::source::{chunked, Source};
use crate::zip_tar::{zip_outcome, zip_to_tar, ContainerMetadata};
use vstd::prelude::*;
use vstd::utf8::encode_utf8;

verus! {

/// One way of decoding a source.
#[derive(Clone, Copy, Debug, PartialEq, Eq, Structural)]
pub enum Format {
    Gzip,
    Bzip2,
    Xz,
    Zip,
    Tar,
}

/// The way of decoding for a type set. A file can be of several kinds at
/// once, so the kinds have a rank: gzip before bzip2 before xz before zip
/// before tar. The empty set has no way.
pub open spec fn chosen(kinds: Set<ArchiveKind>) -> Option<Format> {
    if kinds.contains(ArchiveKind::Gzip) {
        Some(Format::Gzip)
    } else if kinds.contains(ArchiveKind::Bzip2) {
        Some(Format::Bzip2)
    } else if kinds.contains(ArchiveKind::Xz) {
        Some(Format::Xz)
    } else if kinds.contains(ArchiveKind::Zip) {
        Some(Format::Zip)
    } else if kinds.contains(ArchiveKind::Tar) {
        Some(Format::Tar)
    } else {
        None
    }
}

/// The type set that a conversion goes by: the caller's, unless it is
/// empty; else the detected one; and the empty set where detection failed.
pub open spec fn effective(
    explicit: Set<ArchiveKind>,
    report: Option<&SniffReport>,
    path: Seq<u8>,
) -> Set<ArchiveKind> {
    if explicit != Set::<ArchiveKind>::empty() {
        explicit
    } else {
        match report {
            Some(r) if r.success => classified(encode_utf8(r.output@), path),
            _ => Set::empty(),
        }
    }
}

/// What draining `bytes` through a buffer of `block_size` bytes brings: all
/// of them, or nothing where the buffer is empty.
pub open spec fn drained(bytes: Seq<u8>, block_size: usize) -> Seq<u8> {
    if block_size > 0 {
        bytes
    } else {
        Seq::empty()
    }
}

/// What uncompressing gives: on success the payload, as far as the buffer
/// lets it through; a failure is `Decode` and comes only where the source
/// is not intact.
pub open spec fn uncompressed(
    r: Result<Vec<u8>, ConvertError>,
    payload: Seq<u8>,
    intact: bool,
    block_size: usize,
) -> bool {
    match r {
        Ok(out) => out@ == drained(payload, block_size),
        Err(e) => e == ConvertError::Decode && !intact,
    }
}

impl Format {
    /// The words that name the format to a user.
    pub fn label(self) -> (words: &'static str)
        ensures
            words@ == match self {
                Format::Gzip => "GZip file"@,
                Format::Bzip2 => "BZip2 file"@,
                Format::Xz => "XZ file"@,
                Format::Zip => "Zip file"@,
                Format::Tar => "Tar file"@,
            },
    {
        match self {
            Format::Gzip => "GZip file",
            Format::Bzip2 => "BZip2 file",
            Format::Xz => "XZ file",
            Format::Zip => "Zip file",
            Format::Tar => "Tar file",
        }
    }
}

/// Whether a write to the destination took its whole block. `written` is
/// what the write reported: the number of bytes taken, or `None` where it
/// failed, which counts as no byte. A block that was not taken whole ends
/// the conversion.
pub fn confirm_write(block_len: usize, written: Option<usize>) -> (r: Result<(), ConvertError>)
    ensures
        r == if written.unwrap_or(0) == block_len {
            Ok::<(), ConvertError>(())
        } else {
            Err::<(), ConvertError>(ConvertError::Io)
        },
{
    let taken: usize = match written {
        Some(count) => count,
        None => 0,
    };
    if taken == block_len {
        Ok(())
    } else {
        Err(ConvertError::Io)
    }
}

/// The way of decoding for a type set, by the rank of the kinds.
pub fn select_format(typ: ArchiveType) -> (format: Option<Format>)
    ensures
        format == chosen(typ@),
{
    if typ.has(ArchiveKind::Gzip) {
        Some(Format::Gzip)
    } else if typ.has(ArchiveKind::Bzip2) {
        Some(Format::Bzip2)
    } else if typ.has(ArchiveKind::Xz) {
        Some(Format::Xz)
    } else if typ.has(ArchiveKind::Zip) {
        Some(Format::Zip)
    } else if typ.has(ArchiveKind::Tar) {
        Some(Format::Tar)
    } else {
        None
    }
}

/// The type set that a conversion goes by. The content report is looked at
/// only where the caller named no kind.
pub fn effective_type(archive_type: ArchiveType, report: Option<&SniffReport>, path: &str) -> (typ:
    ArchiveType)
    ensures
        typ@ == effective(archive_type@, report, encode_utf8(path@)),
{
    if archive_type.is_empty() {
        match get_archive_type(report, path) {
            Some(typ) => typ,
            None => ArchiveType::empty(),
        }
    } else {
        archive_type
    }
}

/// Drains `decoder` through `buffer` into `dst`: after success `dst` holds,
/// after what it held, all that the source had to hand out. A sound source
/// is drained with success.
pub fn decode_file_into(buffer: &mut Vec<u8>, dst: &mut Vec<u8>, decoder: Source) -> (r: Result<
    (),
    ConvertError,
>)
    ensures
        final(buffer)@.len() == old(buffer)@.len(),
        match r {
            Ok(()) => final(dst)@ == old(dst)@ + drained(
                decoder.pending(),
                old(buffer)@.len() as usize,
            ),
            Err(e) => {
                &&& e == ConvertError::Decode
                &&& !decoder.sound()
                &&& exists|got: int|
                    0 <= got <= decoder.pending().len() && final(dst)@ == old(dst)@
                        + decoder.pending().take(got)
            },
        },
{
    let mut decoder = decoder;
    proof {
        vstd::std_specs::vec::axiom_spec_len(buffer);
    }
    match chunked(&mut decoder, buffer, dst) {
        Ok(_) => {
            proof {
                assert(old(dst)@ + Seq::<u8>::empty() =~= old(dst)@);
            }
            Ok(())
        },
        Err(e) => Err(e),
    }
}

/// Converts the bytes of a source file into the bytes of the destination.
///
/// The type set is the caller's or, where that is empty, the detected one.
/// By the first of gzip, bzip2, xz, zip and tar that is in it, the source is
/// uncompressed, turned from zip to tar, or copied as it is. Compressed
/// sources and copies go through a buffer of `block_size` bytes; with an
/// empty buffer nothing gets through. An intact compressed source is
/// uncompressed with success, and a copy never fails.
pub fn stream_file_into(
    src: &[u8],
    path: &str,
    archive_type: ArchiveType,
    report: Option<&SniffReport>,
    owner: &ContainerMetadata,
    block_size: usize,
) -> (r: Result<Vec<u8>, ConvertError>)
    ensures
        match chosen(effective(archive_type@, report, encode_utf8(path@))) {
            None => r == Err::<Vec<u8>, ConvertError>(ConvertError::UnresolvedType),
            Some(Format::Gzip) => uncompressed(
                r,
                gzip_payload(src@),
                gzip_intact(src@),
                block_size,
            ),
            Some(Format::Bzip2) => uncompressed(
                r,
                bzip2_payload(src@),
                bzip2_intact(src@),
                block_size,
            ),
            Some(Format::Xz) => uncompressed(r, xz_payload(src@), xz_intact(src@), block_size),
            Some(Format::Zip) => match r {
                Ok(out) => zip_outcome(src@, *owner) == Ok::<Seq<u8>, ConvertError>(out@),
                Err(e) => zip_outcome(src@, *owner) == Err::<Seq<u8>, ConvertError>(e),
            },
            Some(Format::Tar) => r matches Ok(out) && out@ == drained(src@, block_size),
        },
{
    let typ = effective_type(archive_type, report, path);
    let format = match select_format(typ) {
        Some(format) => format,
        None => {
            return Err(ConvertError::UnresolvedType);
        },
    };
    if format == Format::Zip {
        return zip_to_tar(src, owner);
    }
    let mut target: Vec<u8> = Vec::new();
    let mut buffer: Vec<u8> = vec![0u8; block_size];
    let decoder = match format {
        Format::Gzip => Source::gzip(src),
        Format::Bzip2 => Source::bzip2(src),
        Format::Xz => Source::xz(src),
        _ => Source::plain(src),
    };
    match decode_file_into(&mut buffer, &mut target, decoder) {
        Ok(()) => {
            proof {
                assert(Seq::<u8>::empty() + drained(decoder.pending(), block_size) =~= drained(
                    decoder.pending(),
                    block_size,
                ));
            }
            Ok(target)
        },
        Err(e) => Err(e),
    }
}

/// Where the caller named a kind, detection has no say: the type set is the
/// caller's, whatever the content report and the name of the file are.
pub proof fn lemma_named_type_wins(
    explicit: Set<ArchiveKind>,
    report: Option<&SniffReport>,
    path: Seq<u8>,
)
    requires
        explicit != Set::<ArchiveKind>::empty(),
    ensures
        effective(explicit, report, path) == explicit,
{
}

/// Where the caller named no kind and the content report could be had, a
/// file whose name holds ".tar" or ".tgz" is converted: at the least it is
/// copied as a tar archive.
pub proof fn lemma_tar_name_is_converted(report: &SniffReport, path: Seq<u8>)
    requires
        report.success,
        tar_in_name(path),
    ensures
        chosen(effective(Set::<ArchiveKind>::empty(), Some(report), path)) is Some,
{
    crate::classify::lemma_tar_name_is_tar(encode_utf8(report.output@), path);
}

/// Gzip outranks every other kind: a type set with gzip in it is decoded as
/// gzip, whatever else is in it.
pub proof fn lemma_gzip_outranks(kinds: Set<ArchiveKind>)
    requires
        kinds.contains(ArchiveKind::Gzip),
    ensures
        chosen(kinds) == Some(Format::Gzip),
{
}

/// The kind that a format decodes.
pub open spec fn kind_of(format: Format) -> ArchiveKind {
    match format {
        Format::Gzip => ArchiveKind::Gzip,
        Format::Bzip2 => ArchiveKind::Bzip2,
        Format::Xz => ArchiveKind::Xz,
        Format::Zip => ArchiveKind::Zip,
        Format::Tar => ArchiveKind::Tar,
    }
}

/// The rank of a format: the lower, the earlier it is chosen.
pub open spec fn rank(format: Format) -> int {
    match format {
        Format::Gzip => 0,
        Format::Bzip2 => 1,
        Format::Xz => 2,
        Format::Zip => 3,
        Format::Tar => 4,
    }
}

/// The chosen format is that of a kind in the set, and no kind in the set
/// has a format of lower rank. Only the empty set has no format.
pub proof fn lemma_chosen_is_first(kinds: Set<ArchiveKind>)
    ensures
        chosen(kinds) is None <==> kinds == Set::<ArchiveKind>::empty(),
        chosen(kinds) matches Some(format) ==> {
            &&& kinds.contains(kind_of(format))
            &&& forall|other: Format|
                kinds.contains(#[trigger] kind_of(other)) ==> rank(format) <= rank(other)
        },
{
    if chosen(kinds) is None {
        assert forall|kind: ArchiveKind| !kinds.contains(kind) by {
            match kind {
                ArchiveKind::Tar => {},
                ArchiveKind::Gzip => {},
                ArchiveKind::Zip => {},
                ArchiveKind::Xz => {},
                ArchiveKind::Bzip2 => {},
            }
        }
        assert(kinds =~= Set::<ArchiveKind>::empty());
    }
}

} // verus!
