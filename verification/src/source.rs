//! Byte sources, and the loop that drains one through a buffer of fixed size.

use crate::codecs::{
    bz_open, bz_pending, bz_read, bz_sound, bzip2_intact, bzip2_payload, gz_open, gz_pending,
    gz_read, gz_sound, gzip_intact, gzip_payload, took, xz_intact, xz_open, xz_payload,
    xz_pending, xz_read, xz_sound, XzStream,
};
use crate::error::ConvertError;
use vstd::prelude::*;
use vstd::slice::slice_subrange;

verus! {

/// Reads bytes that lie in memory, from the first to the last.
pub struct SliceReader<'a> {
    data: &'a [u8],
    pos: usize,
}

impl<'a> SliceReader<'a> {
    #[verifier::type_invariant]
    closed spec fn wf(self) -> bool {
        self.pos <= self.data@.len()
    }

    /// The bytes that are yet to be read.
    pub closed spec fn remaining(self) -> Seq<u8> {
        self.data@.skip(self.pos as int)
    }

    /// A reader at the start of `data`.
    pub fn new(data: &'a [u8]) -> (reader: SliceReader<'a>)
        ensures
            reader.remaining() == data@,
    {
        SliceReader { data, pos: 0 }
    }

    /// Copies the next bytes to the front of `buf`: as many as it holds, or
    /// all that remain where they are fewer. Returns their number. What
    /// `buf` held behind them stays.
    pub fn read(&mut self, buf: &mut Vec<u8>) -> (count: usize)
        ensures
            took(old(self).remaining(), final(self).remaining(), old(buf)@, final(buf)@, count),
            count == if old(buf)@.len() <= old(self).remaining().len() {
                old(buf)@.len()
            } else {
                old(self).remaining().len()
            },
            final(buf)@.skip(count as int) == old(buf)@.skip(count as int),
    {
        proof {
            use_type_invariant(&*self);
        }
        let len: usize = self.data.len();
        let left: usize = len - self.pos;
        let room: usize = buf.len();
        let count: usize = if room <= left {
            room
        } else {
            left
        };
        let start: usize = self.pos;
        let mut i: usize = 0;
        while i < count
            invariant
                i <= count,
                count <= buf@.len(),
                buf@.len() == old(buf)@.len(),
                start + count <= len,
                len == self.data@.len(),
                start == self.pos,
                self.data == old(self).data,
                forall|k: int| 0 <= k < i ==> buf@[k] == self.data@[start + k],
                forall|k: int| i <= k < buf@.len() ==> buf@[k] == old(buf)@[k],
            decreases count - i,
        {
            buf[i] = self.data[start + i];
            i += 1;
        }
        self.pos = start + count;
        proof {
            assert(buf@.subrange(0, count as int) =~= old(self).remaining().subrange(
                0,
                count as int,
            ));
            assert(self.remaining() =~= old(self).remaining().skip(count as int));
            assert(buf@.skip(count as int) =~= old(buf)@.skip(count as int));
        }
        count
    }
}

/// A source of bytes: bytes in memory as they are, or a decoder over them.
pub enum Source<'a> {
    Plain(SliceReader<'a>),
    Gzip(flate2::read::GzDecoder<&'a [u8]>),
    Bzip2(bzip2::read::BzDecoder<&'a [u8]>),
    Xz(XzStream<'a>),
}

impl<'a> Source<'a> {
    /// The bytes that the source has yet to hand out.
    pub open spec fn pending(self) -> Seq<u8> {
        match self {
            Source::Plain(reader) => reader.remaining(),
            Source::Gzip(decoder) => gz_pending(decoder),
            Source::Bzip2(decoder) => bz_pending(decoder),
            Source::Xz(decoder) => xz_pending(decoder),
        }
    }

    /// Whether no read of the source will fail, now or later. Bytes in
    /// memory never fail.
    pub open spec fn sound(self) -> bool {
        match self {
            Source::Plain(_) => true,
            Source::Gzip(decoder) => gz_sound(decoder),
            Source::Bzip2(decoder) => bz_sound(decoder),
            Source::Xz(decoder) => xz_sound(decoder),
        }
    }

    /// A source that hands out `data` as it is.
    pub fn plain(data: &'a [u8]) -> (source: Source<'a>)
        ensures
            source is Plain,
            source.pending() == data@,
    {
        Source::Plain(SliceReader::new(data))
    }

    /// A source that hands out what the gzip member in `data` holds.
    pub fn gzip(data: &'a [u8]) -> (source: Source<'a>)
        ensures
            source is Gzip,
            source.pending() == gzip_payload(data@),
            source.sound() == gzip_intact(data@),
    {
        Source::Gzip(gz_open(data))
    }

    /// A source that hands out what the bzip2 stream in `data` holds.
    pub fn bzip2(data: &'a [u8]) -> (source: Source<'a>)
        ensures
            source is Bzip2,
            source.pending() == bzip2_payload(data@),
            source.sound() == bzip2_intact(data@),
    {
        Source::Bzip2(bz_open(data))
    }

    /// A source that hands out what the xz stream in `data` holds.
    pub fn xz(data: &'a [u8]) -> (source: Source<'a>)
        ensures
            source is Xz,
            source.pending() == xz_payload(data@),
            source.sound() == xz_intact(data@),
    {
        Source::Xz(xz_open(data))
    }

    /// Reads the next bytes to the front of `buf` and returns their number.
    /// It is 0 only at the end of the source or where `buf` is empty. A sound
    /// source does not fail and stays sound; a decoder that is not sound may
    /// fail, on input that it cannot decode. Bytes in memory leave the rest
    /// of `buf` as it was.
    pub fn read(&mut self, buf: &mut Vec<u8>) -> (r: Result<usize, ConvertError>)
        ensures
            final(buf)@.len() == old(buf)@.len(),
            match r {
                Ok(count) => {
                    &&& took(
                        old(self).pending(),
                        final(self).pending(),
                        old(buf)@,
                        final(buf)@,
                        count,
                    )
                    &&& *old(self) is Plain ==> final(buf)@.skip(count as int) == old(buf)@.skip(
                        count as int,
                    )
                },
                Err(e) => e == ConvertError::Decode && !old(self).sound(),
            },
            old(self).sound() ==> r is Ok && final(self).sound(),
            *final(self) is Plain <==> *old(self) is Plain,
    {
        let read: Result<usize, std::io::Error> = match self {
            Source::Plain(reader) => {
                return Ok(reader.read(buf));
            },
            Source::Gzip(decoder) => gz_read(decoder, buf),
            Source::Bzip2(decoder) => bz_read(decoder, buf),
            Source::Xz(decoder) => xz_read(decoder, buf),
        };
        match read {
            Ok(count) => Ok(count),
            Err(_) => Err(ConvertError::Decode),
        }
    }
}

/// Drains `source` through `buffer`: reads until a read brings nothing, and
/// appends the bytes of each read to `sink`. Returns how many bytes were read
/// in all. A failed read ends the loop; nothing of it reaches `sink`. A
/// sound source is drained to its end. Where bytes in memory have nothing
/// to hand out, `buffer` stays as it was.
pub fn chunked(source: &mut Source, buffer: &mut Vec<u8>, sink: &mut Vec<u8>) -> (r: Result<
    usize,
    ConvertError,
>)
    ensures
        final(buffer)@.len() == old(buffer)@.len(),
        old(source).sound() ==> r is Ok,
        *old(source) is Plain && old(source).pending().len() == 0 ==> final(buffer)@ == old(
            buffer,
        )@,
        match r {
            Ok(total) => if old(buffer)@.len() > 0 {
                &&& final(sink)@ == old(sink)@ + old(source).pending()
                &&& total == old(source).pending().len()
                &&& final(source).pending().len() == 0
            } else {
                &&& final(sink)@ == old(sink)@
                &&& total == 0
                &&& final(source).pending() == old(source).pending()
            },
            Err(e) => {
                &&& e == ConvertError::Decode
                &&& !old(source).sound()
                &&& exists|got: int|
                    0 <= got <= old(source).pending().len() && final(sink)@ == old(sink)@ + old(
                        source,
                    ).pending().take(got)
            },
        },
{
    let ghost all = source.pending();
    let ghost start = sink@;
    let ghost plain = *source is Plain;
    let mut read_total: usize = 0;
    proof {
        assert(sink@ =~= start + all.take(0));
        assert(all.skip(0) =~= all);
    }
    loop
        invariant
            buffer@.len() == old(buffer)@.len(),
            read_total <= all.len(),
            sink@ == start + all.take(read_total as int),
            source.pending() == all.skip(read_total as int),
            plain == (*source is Plain),
            plain == (*old(source) is Plain),
            all == old(source).pending(),
            start == old(sink)@,
            buffer@.len() == 0 ==> read_total == 0,
            old(source).sound() ==> source.sound(),
            plain && read_total == 0 ==> buffer@ == old(buffer)@,
        ensures
            buffer@.len() > 0 ==> read_total == all.len(),
            buffer@.len() == 0 ==> read_total == 0,
            plain && all.len() == 0 ==> buffer@ == old(buffer)@,
        decreases all.len() - read_total,
    {
        let ghost held = buffer@;
        let read: usize = match source.read(buffer) {
            Ok(count) => count,
            Err(e) => {
                return Err(e);
            },
        };
        proof {
            if plain && read == 0 {
                assert(buffer@.skip(0) =~= buffer@);
                assert(held.skip(0) =~= held);
            }
        }
        if read > 0 {
            let ghost before = sink@;
            sink.extend_from_slice(slice_subrange(buffer.as_slice(), 0, read));
            proof {
                assert(sink@ =~= before + buffer@.subrange(0, read as int));
                assert(all.skip(read_total as int).subrange(0, read as int) =~= all.subrange(
                    read_total as int,
                    read_total + read,
                ));
                assert(sink@ =~= start + all.take(read_total + read));
                assert(all.skip(read_total as int).skip(read as int) =~= all.skip(
                    read_total + read,
                ));
                // All that was read lies in the sink, whose length fits a usize.
                vstd::std_specs::vec::axiom_spec_len(sink);
            }
            read_total += read;
        } else {
            break ;
        }
    }
    proof {
        assert(all.take(all.len() as int) =~= all);
        assert(start + all.take(0) =~= start);
    }
    Ok(read_total)
}

} // verus!
