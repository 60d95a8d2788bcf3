//! Writing a tar stream. The headers and the stream are the work of the crate
//! tar; nothing in this file is proved.

use vstd::arithmetic::power::pow;
use vstd::prelude::*;

verus! {

#[verifier::external_type_specification]
#[verifier::external_body]
pub struct ExTarHeader(tar::Header);

/// A `tar::Builder` that writes into memory. It is made by `tar_new` alone
/// and is never finished before it is taken apart.
#[verifier::external_body]
pub struct TarWriter {
    inner: tar::Builder<Vec<u8>>,
}

/// `count` zero bytes.
pub open spec fn zeros(count: nat) -> Seq<u8> {
    Seq::new(count, |i: int| 0u8)
}

/// How many zero bytes fill the last block of `len` bytes of data. A tar
/// stream is made of blocks of 512 bytes.
pub open spec fn padding(len: nat) -> nat {
    ((512 - len % 512) % 512) as nat
}

/// The blank header in the GNU format: all zero, but for the magic "ustar "
/// with the version " ", and the field of the modification time, which
/// holds the number 0 in octal digits.
pub open spec fn gnu_blank() -> Seq<u8> {
    Seq::new(
        512,
        |i: int|
            if 136 <= i < 147 {
                0x30u8
            } else if i == 257 {
                0x75u8
            } else if i == 258 {
                0x73u8
            } else if i == 259 {
                0x74u8
            } else if i == 260 {
                0x61u8
            } else if i == 261 {
                0x72u8
            } else if i == 262 || i == 263 {
                0x20u8
            } else {
                0u8
            },
    )
}

/// The 512 bytes of a header.
pub uninterp spec fn header_block(header: tar::Header) -> Seq<u8>;

/// `block` with `field` written over its bytes from the index `at` on.
pub open spec fn with_field(block: Seq<u8>, at: int, field: Seq<u8>) -> Seq<u8> {
    Seq::new(
        block.len(),
        |i: int|
            if at <= i < at + field.len() {
                field[i - at]
            } else {
                block[i]
            },
    )
}

/// A number as a field of `width` bytes in octal digits: the low `width - 1`
/// digits of the number, the highest first, and a zero byte after them.
/// Higher digits are left out.
pub open spec fn octal_field(value: nat, width: nat) -> Seq<u8> {
    Seq::new(
        width,
        |i: int|
            if i == width - 1 {
                0u8
            } else {
                (0x30 + (value / (pow(8, (width - 2 - i) as nat) as nat)) % 8) as u8
            },
    )
}

/// A number as a field of `width` bytes in binary: its eight bytes, the
/// highest first, at the end of the field, zero bytes before them, and the
/// highest bit of the first byte of the field set.
pub open spec fn binary_field(value: u64, width: nat) -> Seq<u8> {
    Seq::new(
        width,
        |i: int|
            {
                let byte = if i < width - 8 {
                    0u8
                } else {
                    ((value as nat / (pow(256, (width - 1 - i) as nat) as nat)) % 256) as u8
                };
                if i == 0 {
                    byte | 0x80u8
                } else {
                    byte
                }
            },
    )
}

/// A number as a field of 8 or 12 bytes: in octal digits where they hold
/// it, in binary where the number is too large for them.
pub open spec fn number_field(value: u64, width: nat) -> Seq<u8> {
    if value >= 8589934592 || (value >= 2097152 && width == 8) {
        binary_field(value, width)
    } else {
        octal_field(value as nat, width)
    }
}

/// The sum of the bytes.
pub open spec fn byte_sum(bytes: Seq<u8>) -> nat
    decreases bytes.len(),
{
    if bytes.len() == 0 {
        0
    } else {
        byte_sum(bytes.drop_last()) + bytes.last() as nat
    }
}

/// The checksum of a header block: the sum of its bytes, with a space taken
/// for each of the eight bytes of the checksum field itself.
pub open spec fn cksum_of(block: Seq<u8>) -> nat {
    byte_sum(block.subrange(0, 148)) + 8 * 0x20 + byte_sum(block.subrange(156, block.len() as int))
}

/// A header block after `tar::Header::set_size`: the size stands in the 12
/// bytes from 124 on.
pub open spec fn block_with_size(block: Seq<u8>, size: u64) -> Seq<u8> {
    with_field(block, 124, number_field(size, 12))
}

/// Whether `tar::Header::set_path` takes a path into a header block.
pub uninterp spec fn path_fits(block: Seq<u8>, path: Seq<char>) -> bool;

/// A header block after a `tar::Header::set_path` that succeeded.
pub uninterp spec fn block_with_path(block: Seq<u8>, path: Seq<char>) -> Seq<u8>;

/// A header block after `tar::Header::set_mode`: the permissions stand in
/// the 8 bytes from 100 on, in octal digits.
pub open spec fn block_with_mode(block: Seq<u8>, mode: u32) -> Seq<u8> {
    with_field(block, 100, octal_field(mode as nat, 8))
}

/// A header block after `tar::Header::set_mtime`: the time stands in the 12
/// bytes from 136 on.
pub open spec fn block_with_mtime(block: Seq<u8>, mtime: u64) -> Seq<u8> {
    with_field(block, 136, number_field(mtime, 12))
}

/// A header block after `tar::Header::set_uid`: the user id stands in the 8
/// bytes from 108 on.
pub open spec fn block_with_uid(block: Seq<u8>, uid: u64) -> Seq<u8> {
    with_field(block, 108, number_field(uid, 8))
}

/// A header block after `tar::Header::set_gid`: the group id stands in the 8
/// bytes from 116 on.
pub open spec fn block_with_gid(block: Seq<u8>, gid: u64) -> Seq<u8> {
    with_field(block, 116, number_field(gid, 8))
}

/// A header block after `tar::Header::set_cksum`: the checksum of the block
/// stands in the 8 bytes from 148 on, in octal digits.
pub open spec fn block_with_cksum(block: Seq<u8>) -> Seq<u8> {
    with_field(block, 148, octal_field(cksum_of(block), 8))
}

/// The bytes that a writer has written.
pub uninterp spec fn tar_written(writer: TarWriter) -> Seq<u8>;

/// `tar::Header::new_gnu`: the blank GNU header.
#[verifier::external_body]
pub(crate) fn header_new_gnu() -> (header: tar::Header)
    ensures
        header_block(header) == gnu_blank(),
{
    tar::Header::new_gnu()
}

/// `tar::Header::set_size`: writes the size into its field, in octal digits
/// or, from 8589934592 on, in binary. All else stays.
#[verifier::external_body]
pub(crate) fn header_set_size(header: &mut tar::Header, size: u64)
    ensures
        header_block(*final(header)) == block_with_size(header_block(*old(header)), size),
{
    header.set_size(size)
}

/// `tar::Header::set_path`: writes the path into the name field, or fails
/// where the header cannot hold it (too long, absolute, with `..`, empty).
/// Whether it succeeds, and the new block after success, depend on the old
/// block and the path alone. Of the block after a failure nothing is
/// claimed.
#[verifier::external_body]
pub(crate) fn header_set_path(header: &mut tar::Header, path: &str) -> (r: Result<
    (),
    std::io::Error,
>)
    ensures
        r is Ok <==> path_fits(header_block(*old(header)), path@),
        r is Ok ==> header_block(*final(header)) == block_with_path(
            header_block(*old(header)),
            path@,
        ),
{
    header.set_path(std::path::Path::new(path))
}

/// `tar::Header::set_mode`: writes the low seven octal digits of the
/// permissions into their field. All else stays.
#[verifier::external_body]
pub(crate) fn header_set_mode(header: &mut tar::Header, mode: u32)
    ensures
        header_block(*final(header)) == block_with_mode(header_block(*old(header)), mode),
{
    header.set_mode(mode)
}

/// `tar::Header::set_mtime`: writes the modification time into its field, in
/// octal digits or, from 8589934592 on, in binary. All else stays.
#[verifier::external_body]
pub(crate) fn header_set_mtime(header: &mut tar::Header, mtime: u64)
    ensures
        header_block(*final(header)) == block_with_mtime(header_block(*old(header)), mtime),
{
    header.set_mtime(mtime)
}

/// `tar::Header::set_uid`: writes the owner's user id into its field, in
/// octal digits or, from 2097152 on, in binary. All else stays.
#[verifier::external_body]
pub(crate) fn header_set_uid(header: &mut tar::Header, uid: u64)
    ensures
        header_block(*final(header)) == block_with_uid(header_block(*old(header)), uid),
{
    header.set_uid(uid)
}

/// `tar::Header::set_gid`: writes the owner's group id into its field, in
/// octal digits or, from 2097152 on, in binary. All else stays.
#[verifier::external_body]
pub(crate) fn header_set_gid(header: &mut tar::Header, gid: u64)
    ensures
        header_block(*final(header)) == block_with_gid(header_block(*old(header)), gid),
{
    header.set_gid(gid)
}

/// `tar::Header::set_cksum`: writes the low seven octal digits of the
/// checksum of the block into its field. All else stays.
#[verifier::external_body]
pub(crate) fn header_set_cksum(header: &mut tar::Header)
    ensures
        header_block(*final(header)) == block_with_cksum(header_block(*old(header))),
{
    header.set_cksum()
}

/// `tar::Builder::new`, over an empty `Vec`: nothing is written yet.
#[verifier::external_body]
pub(crate) fn tar_new() -> (writer: TarWriter)
    ensures
        tar_written(writer) == Seq::<u8>::empty(),
{
    TarWriter { inner: tar::Builder::new(Vec::new()) }
}

/// `tar::Builder::append`, with an open zip entry as the data. It writes the
/// header's block, then all the bytes that the entry holds, then zero bytes
/// up to the end of the last block. Writing into memory does not fail, so it
/// succeeds exactly where the entry can be read to its end. Of what was
/// written before a failure nothing is claimed.
#[verifier::external_body]
pub(crate) fn tar_append(
    writer: &mut TarWriter,
    header: &tar::Header,
    entry: zip::read::ZipFile<'_>,
) -> (r: Result<(), std::io::Error>)
    ensures
        r is Ok <==> crate::zip_in::zip_file_view(entry).intact,
        r is Ok ==> tar_written(*final(writer)) == tar_written(*old(writer)) + header_block(*header)
            + crate::zip_in::zip_file_view(entry).data + zeros(
            padding(crate::zip_in::zip_file_view(entry).data.len()),
        ),
{
    writer.inner.append(header, entry)
}

/// `tar::Builder::into_inner`: ends the stream with two blocks of zero bytes
/// and hands out all that was written. Writing into memory does not fail.
#[verifier::external_body]
pub(crate) fn tar_into_inner(writer: TarWriter) -> (r: Result<Vec<u8>, std::io::Error>)
    ensures
        r is Ok,
        r matches Ok(bytes) ==> bytes@ == tar_written(writer) + zeros(1024),
{
    writer.inner.into_inner()
}

} // verus!
