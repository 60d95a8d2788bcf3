//! The decoders of the compressed formats. They are the work of the crates
//! flate2, bzip2 and xz2; nothing in this file is proved.
//!
//! A decoder is taken as a stream: it holds the uncompressed bytes that it
//! has yet to hand out, and each read takes some of them from the front. A
//! decoder is sound when no read of it will ever fail, whatever the sizes of
//! the buffers: it hands out all that is pending and then reports the end. A
//! decoder works on bytes in memory, so both follow from those bytes alone.

use vstd::prelude::*;

verus! {

#[verifier::external_type_specification]
#[verifier::external_body]
pub struct ExIoError(std::io::Error);

#[verifier::external_type_specification]
#[verifier::external_body]
#[verifier::reject_recursive_types(R)]
pub struct ExGzDecoder<R>(flate2::read::GzDecoder<R>);

#[verifier::external_type_specification]
#[verifier::external_body]
#[verifier::reject_recursive_types(R)]
pub struct ExBzDecoder<R>(bzip2::read::BzDecoder<R>);

/// An `xz2::read::XzDecoder` over bytes in memory.
#[verifier::external_body]
pub struct XzStream<'a> {
    inner: xz2::read::XzDecoder<&'a [u8]>,
}

/// The uncompressed bytes of the gzip member that `input` starts with, as
/// `flate2::read::GzDecoder` decodes them.
pub uninterp spec fn gzip_payload(input: Seq<u8>) -> Seq<u8>;

/// The uncompressed bytes of the bzip2 stream that `input` starts with, as
/// `bzip2::read::BzDecoder` decodes them.
pub uninterp spec fn bzip2_payload(input: Seq<u8>) -> Seq<u8>;

/// The uncompressed bytes of the xz stream that `input` starts with, as
/// `xz2::read::XzDecoder` decodes them.
pub uninterp spec fn xz_payload(input: Seq<u8>) -> Seq<u8>;

/// Whether `input` starts with a gzip member that
/// `flate2::read::GzDecoder` decodes to its end without a failure, however
/// it is read.
pub uninterp spec fn gzip_intact(input: Seq<u8>) -> bool;

/// Whether `input` starts with a bzip2 stream that
/// `bzip2::read::BzDecoder` decodes to its end without a failure, however
/// it is read.
pub uninterp spec fn bzip2_intact(input: Seq<u8>) -> bool;

/// Whether `input` starts with an xz stream that `xz2::read::XzDecoder`
/// decodes to its end without a failure, however it is read.
pub uninterp spec fn xz_intact(input: Seq<u8>) -> bool;

/// Whether no read of a gzip decoder will fail, now or later.
pub uninterp spec fn gz_sound(decoder: flate2::read::GzDecoder<&[u8]>) -> bool;

/// Whether no read of a bzip2 decoder will fail, now or later.
pub uninterp spec fn bz_sound(decoder: bzip2::read::BzDecoder<&[u8]>) -> bool;

/// Whether no read of an xz decoder will fail, now or later.
pub uninterp spec fn xz_sound(decoder: XzStream) -> bool;

/// The uncompressed bytes that a gzip decoder has yet to hand out.
pub uninterp spec fn gz_pending(decoder: flate2::read::GzDecoder<&[u8]>) -> Seq<u8>;

/// The uncompressed bytes that a bzip2 decoder has yet to hand out.
pub uninterp spec fn bz_pending(decoder: bzip2::read::BzDecoder<&[u8]>) -> Seq<u8>;

/// The uncompressed bytes that an xz decoder has yet to hand out.
pub uninterp spec fn xz_pending(decoder: XzStream) -> Seq<u8>;

/// What one read of a stream does: `count` bytes leave the front of what was
/// pending and stand at the front of the buffer, whose length stays. Nothing
/// is read only where the buffer is empty or nothing is pending.
pub open spec fn took(
    before: Seq<u8>,
    after: Seq<u8>,
    old_buf: Seq<u8>,
    new_buf: Seq<u8>,
    count: usize,
) -> bool {
    &&& new_buf.len() == old_buf.len()
    &&& count <= old_buf.len()
    &&& count <= before.len()
    &&& new_buf.subrange(0, count as int) == before.subrange(0, count as int)
    &&& after == before.skip(count as int)
    &&& (count == 0 ==> old_buf.len() == 0 || before.len() == 0)
}

/// `flate2::read::GzDecoder::new`: a decoder of the gzip member at the start
/// of `input`. All of the member's bytes are pending, and the decoder is
/// sound where the member is intact.
#[verifier::external_body]
pub(crate) fn gz_open<'a>(input: &'a [u8]) -> (decoder: flate2::read::GzDecoder<&'a [u8]>)
    ensures
        gz_pending(decoder) == gzip_payload(input@),
        gz_sound(decoder) == gzip_intact(input@),
{
    flate2::read::GzDecoder::new(input)
}

/// `read` of `flate2::read::GzDecoder`. On success it hands out the next
/// pending bytes, at most as many as the buffer holds, and none only at the
/// end of the member or into an empty buffer. A sound decoder does not fail
/// and stays sound. Of a failed read nothing more is claimed.
#[verifier::external_body]
pub(crate) fn gz_read(decoder: &mut flate2::read::GzDecoder<&[u8]>, buf: &mut Vec<u8>) -> (r:
    Result<usize, std::io::Error>)
    ensures
        final(buf)@.len() == old(buf)@.len(),
        r matches Ok(count) ==> took(
            gz_pending(*old(decoder)),
            gz_pending(*final(decoder)),
            old(buf)@,
            final(buf)@,
            count,
        ),
        gz_sound(*old(decoder)) ==> r is Ok && gz_sound(*final(decoder)),
{
    std::io::Read::read(decoder, buf.as_mut_slice())
}

/// `bzip2::read::BzDecoder::new`: a decoder of the bzip2 stream at the start
/// of `input`. All of the stream's bytes are pending, and the decoder is
/// sound where the stream is intact.
#[verifier::external_body]
pub(crate) fn bz_open<'a>(input: &'a [u8]) -> (decoder: bzip2::read::BzDecoder<&'a [u8]>)
    ensures
        bz_pending(decoder) == bzip2_payload(input@),
        bz_sound(decoder) == bzip2_intact(input@),
{
    bzip2::read::BzDecoder::new(input)
}

/// `read` of `bzip2::read::BzDecoder`. On success it hands out the next
/// pending bytes, at most as many as the buffer holds, and none only at the
/// end of the stream or into an empty buffer. A sound decoder does not fail
/// and stays sound. Of a failed read nothing more is claimed.
#[verifier::external_body]
pub(crate) fn bz_read(decoder: &mut bzip2::read::BzDecoder<&[u8]>, buf: &mut Vec<u8>) -> (r:
    Result<usize, std::io::Error>)
    ensures
        final(buf)@.len() == old(buf)@.len(),
        r matches Ok(count) ==> took(
            bz_pending(*old(decoder)),
            bz_pending(*final(decoder)),
            old(buf)@,
            final(buf)@,
            count,
        ),
        bz_sound(*old(decoder)) ==> r is Ok && bz_sound(*final(decoder)),
{
    std::io::Read::read(decoder, buf.as_mut_slice())
}

/// `xz2::read::XzDecoder::new`: a decoder of the xz stream at the start of
/// `input`. All of the stream's bytes are pending, and the decoder is sound
/// where the stream is intact.
#[verifier::external_body]
pub(crate) fn xz_open<'a>(input: &'a [u8]) -> (decoder: XzStream<'a>)
    ensures
        xz_pending(decoder) == xz_payload(input@),
        xz_sound(decoder) == xz_intact(input@),
{
    XzStream { inner: xz2::read::XzDecoder::new(input) }
}

/// `read` of `xz2::read::XzDecoder`. On success it hands out the next pending
/// bytes, at most as many as the buffer holds, and none only at the end of
/// the stream or into an empty buffer. A sound decoder does not fail and
/// stays sound. Of a failed read nothing more is claimed.
#[verifier::external_body]
pub(crate) fn xz_read(decoder: &mut XzStream, buf: &mut Vec<u8>) -> (r: Result<
    usize,
    std::io::Error,
>)
    ensures
        final(buf)@.len() == old(buf)@.len(),
        r matches Ok(count) ==> took(
            xz_pending(*old(decoder)),
            xz_pending(*final(decoder)),
            old(buf)@,
            final(buf)@,
            count,
        ),
        xz_sound(*old(decoder)) ==> r is Ok && xz_sound(*final(decoder)),
{
    std::io::Read::read(&mut decoder.inner, buf.as_mut_slice())
}

} // verus!
