//! What the command line decides before a conversion starts: whether the two
//! paths may be used, and how large the buffer is.

use crate::error::PathError;
use vstd::prelude::*;
use vstd::utf8::encode_utf8;

verus! {

/// The size of the buffer where the caller names none: 16 MiB.
pub const DEFAULT_BLOCK_SIZE: usize = 16777216;

/// Whether each byte is a decimal digit, and there is at least one.
pub open spec fn is_number(digits: Seq<u8>) -> bool {
    &&& digits.len() > 0
    &&& forall|i: int| 0 <= i < digits.len() ==> 0x30 <= #[trigger] digits[i] <= 0x39
}

/// The number that decimal digits write.
pub open spec fn number_of(digits: Seq<u8>) -> nat
    decreases digits.len(),
{
    if digits.len() == 0 {
        0
    } else {
        (number_of(digits.drop_last()) * 10 + (digits.last() - 0x30)) as nat
    }
}

/// The digits of a text that writes a size: the text itself, or what follows
/// a plus sign at its start.
pub open spec fn digits_of(text: Seq<u8>) -> Seq<u8> {
    if text.len() > 0 && text[0] == 0x2b {
        text.skip(1)
    } else {
        text
    }
}

/// The size that a text writes, if it writes one: decimal digits, with or
/// without a plus sign before them, of a number that fits a `usize`.
pub open spec fn size_written(text: Seq<u8>) -> Option<usize> {
    if is_number(digits_of(text)) && number_of(digits_of(text)) <= usize::MAX {
        Some(number_of(digits_of(text)) as usize)
    } else {
        None
    }
}

/// A number does not get smaller as digits are added to it.
proof fn lemma_number_grows(digits: Seq<u8>, upto: int)
    requires
        0 <= upto <= digits.len(),
        forall|i: int| 0 <= i < digits.len() ==> 0x30 <= #[trigger] digits[i] <= 0x39,
    ensures
        number_of(digits.take(upto)) <= number_of(digits),
    decreases digits.len() - upto,
{
    if upto < digits.len() {
        lemma_number_grows(digits, upto + 1);
        let longer = digits.take(upto + 1);
        assert(longer.drop_last() =~= digits.take(upto));
        assert(longer.last() == digits[upto]);
    } else {
        assert(digits.take(upto) =~= digits);
    }
}

/// Whether the two paths of an invocation may be used: the source has to be
/// a file, and the destination must not exist unless overwriting is allowed.
/// A missing source is told first.
pub fn validate_paths(source_is_file: bool, destination_exists: bool, force: bool) -> (r: Result<
    (),
    PathError,
>)
    ensures
        r == if !source_is_file {
            Err::<(), PathError>(PathError::SourceMissing)
        } else if destination_exists && !force {
            Err::<(), PathError>(PathError::DestinationExists)
        } else {
            Ok::<(), PathError>(())
        },
{
    if !source_is_file {
        Err(PathError::SourceMissing)
    } else if destination_exists && !force {
        Err(PathError::DestinationExists)
    } else {
        Ok(())
    }
}

/// Reads the size of the buffer from the text of an option. `None` where the
/// text writes no size.
pub fn parse_block_size(text: &str) -> (size: Option<usize>)
    ensures
        size == size_written(encode_utf8(text@)),
{
    let bytes = text.as_bytes();
    let len: usize = bytes.len();
    let start: usize = if len > 0 && bytes[0] == 0x2b {
        1
    } else {
        0
    };
    let ghost digits = digits_of(bytes@);
    proof {
        assert(digits =~= bytes@.skip(start as int));
    }
    if start == len {
        return None;
    }
    let mut value: usize = 0;
    let mut i: usize = start;
    while i < len
        invariant
            start <= i <= len,
            len == bytes@.len(),
            bytes@ == encode_utf8(text@),
            digits == digits_of(bytes@),
            digits == bytes@.skip(start as int),
            is_number(digits.take(i - start)) || i == start,
            value == number_of(digits.take(i - start)),
        decreases len - i,
    {
        let b: u8 = bytes[i];
        let ghost seen = digits.take(i - start);
        let ghost next = digits.take(i - start + 1);
        proof {
            assert(next.drop_last() =~= seen);
            assert(next.last() == b);
        }
        if b < 0x30 || b > 0x39 {
            proof {
                assert(digits[i - start] == b);
            }
            return None;
        }
        let digit: usize = (b - 0x30) as usize;
        let tens: usize = match value.checked_mul(10) {
            Some(tens) => tens,
            None => {
                proof {
                    if is_number(digits) {
                        lemma_number_grows(digits, i - start + 1);
                    }
                }
                return None;
            },
        };
        value = match tens.checked_add(digit) {
            Some(sum) => sum,
            None => {
                proof {
                    if is_number(digits) {
                        lemma_number_grows(digits, i - start + 1);
                    }
                }
                return None;
            },
        };
        proof {
            assert forall|k: int| 0 <= k < next.len() implies 0x30 <= #[trigger] next[k] <= 0x39 by {
                if k < seen.len() {
                    assert(seen[k] == next[k]);
                }
            }
        }
        i += 1;
    }
    proof {
        assert(digits.take(len - start) =~= digits);
    }
    Some(value)
}

} // verus!
