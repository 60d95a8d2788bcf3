//! Searching, splitting and case folding of text, taken as its UTF-8 bytes.

use vstd::prelude::*;
use vstd::utf8::{
    encode_utf8, encode_utf8_valid_utf8, is_char_boundary,
    is_char_boundary_iff_not_is_continuation_byte, is_char_boundary_start_end_of_seq, valid_utf8,
};

verus! {

/// The byte of a comma.
pub const COMMA: u8 = 0x2c;

/// Whether `needle` stands in `hay` at index `at`.
pub open spec fn occurs_at(needle: Seq<u8>, hay: Seq<u8>, at: int) -> bool {
    &&& 0 <= at
    &&& at + needle.len() <= hay.len()
    &&& hay.subrange(at, at + needle.len()) == needle
}

/// Whether `needle` stands somewhere in `hay`. The empty needle stands in every text.
pub open spec fn occurs(needle: Seq<u8>, hay: Seq<u8>) -> bool {
    exists|at: int| occurs_at(needle, hay, at)
}

/// A byte with an ASCII capital letter turned into its small letter.
pub open spec fn lower_byte(b: u8) -> u8 {
    if 0x41 <= b <= 0x5a {
        (b + 0x20) as u8
    } else {
        b
    }
}

/// `s` with every ASCII capital letter turned into its small letter.
pub open spec fn ascii_lower(s: Seq<u8>) -> Seq<u8> {
    Seq::new(s.len(), |i: int| lower_byte(s[i]))
}

/// The index of the first `sep` in `s`, or the length of `s` where it has none.
pub open spec fn first_sep(s: Seq<u8>, sep: u8) -> int
    decreases s.len(),
{
    if s.len() == 0 || s[0] == sep {
        0
    } else {
        1 + first_sep(s.drop_first(), sep)
    }
}

/// The pieces of `s` between its separators, in order. A text without a
/// separator is one piece, the empty text too; two separators in a row hold
/// an empty piece between them.
pub open spec fn split(s: Seq<u8>, sep: u8) -> Seq<Seq<u8>>
    decreases s.len(),
{
    let k: int = first_sep(s, sep);
    if 0 <= k < s.len() {
        seq![s.take(k)] + split(s.skip(k + 1), sep)
    } else {
        seq![s]
    }
}

/// `first_sep` is within the text, stands on a separator unless it is the
/// length, and no separator comes before it.
pub proof fn lemma_first_sep(s: Seq<u8>, sep: u8)
    ensures
        0 <= first_sep(s, sep) <= s.len(),
        first_sep(s, sep) < s.len() ==> s[first_sep(s, sep)] == sep,
        forall|i: int| 0 <= i < first_sep(s, sep) ==> s[i] != sep,
    decreases s.len(),
{
    if s.len() == 0 || s[0] == sep {
    } else {
        let rest = s.drop_first();
        lemma_first_sep(rest, sep);
        assert forall|i: int| 0 <= i < first_sep(s, sep) implies s[i] != sep by {
            if i > 0 {
                assert(s[i] == rest[i - 1]);
            }
        }
    }
}

/// An index that no separator comes before, and that is the length or holds a
/// separator, is `first_sep`.
pub proof fn lemma_first_sep_is(s: Seq<u8>, sep: u8, k: int)
    requires
        0 <= k <= s.len(),
        k < s.len() ==> s[k] == sep,
        forall|i: int| 0 <= i < k ==> s[i] != sep,
    ensures
        first_sep(s, sep) == k,
{
    lemma_first_sep(s, sep);
    let f: int = first_sep(s, sep);
    if f < k {
        assert(s[f] == sep);
    }
}

/// Whether `needle` stands in `hay` at index `at`.
fn matches_at(hay: &[u8], needle: &[u8], at: usize) -> (b: bool)
    requires
        at + needle@.len() <= hay@.len(),
    ensures
        b == occurs_at(needle@, hay@, at as int),
{
    let h: usize = hay.len();
    let n: usize = needle.len();
    let mut j: usize = 0;
    while j < n
        invariant
            n == needle@.len(),
            h == hay@.len(),
            at + n <= h,
            j <= n,
            forall|k: int| 0 <= k < j ==> hay@[at + k] == needle@[k],
        decreases n - j,
    {
        if hay[at + j] != needle[j] {
            proof {
                let window = hay@.subrange(at as int, at + n);
                assert(window[j as int] == hay@[at + j]);
            }
            return false;
        }
        j += 1;
    }
    proof {
        assert(hay@.subrange(at as int, at + n) =~= needle@);
    }
    true
}

/// Whether `needle` stands somewhere in `hay`.
pub fn contains_bytes(hay: &[u8], needle: &[u8]) -> (b: bool)
    ensures
        b == occurs(needle@, hay@),
{
    let h: usize = hay.len();
    let n: usize = needle.len();
    if n > h {
        return false;
    }
    if n == 0 {
        proof {
            assert(hay@.subrange(0, 0) =~= needle@);
            assert(occurs_at(needle@, hay@, 0));
        }
        return true;
    }
    let last: usize = h - n;
    let mut at: usize = 0;
    while at <= last
        invariant
            h == hay@.len(),
            n == needle@.len(),
            last == h - n,
            0 < n,
            at <= last + 1,
            forall|k: int| 0 <= k < at ==> !occurs_at(needle@, hay@, k),
        decreases last + 1 - at,
    {
        if matches_at(hay, needle, at) {
            return true;
        }
        at += 1;
    }
    false
}

/// Whether `token`, with its ASCII capitals made small, is `name`.
pub fn lowered_equals(token: &[u8], name: &[u8]) -> (b: bool)
    ensures
        b == (ascii_lower(token@) == name@),
{
    let n: usize = token.len();
    if n != name.len() {
        return false;
    }
    let mut i: usize = 0;
    while i < n
        invariant
            n == token@.len(),
            n == name@.len(),
            i <= n,
            forall|k: int| 0 <= k < i ==> lower_byte(token@[k]) == name@[k],
        decreases n - i,
    {
        let b: u8 = token[i];
        let low: u8 = if 0x41 <= b && b <= 0x5a {
            b + 0x20
        } else {
            b
        };
        if low != name[i] {
            proof {
                assert(ascii_lower(token@)[i as int] == lower_byte(token@[i as int]));
            }
            return false;
        }
        i += 1;
    }
    proof {
        assert(ascii_lower(token@) =~= name@);
    }
    true
}

/// The index of the first `sep` in `s`, or the length of `s` where it has none.
pub fn find_sep(s: &[u8], sep: u8) -> (k: usize)
    ensures
        k == first_sep(s@, sep),
        k <= s@.len(),
{
    let n: usize = s.len();
    let mut k: usize = 0;
    while k < n && s[k] != sep
        invariant
            n == s@.len(),
            k <= n,
            forall|i: int| 0 <= i < k ==> s@[i] != sep,
        decreases n - k,
    {
        k += 1;
    }
    proof {
        lemma_first_sep_is(s@, sep, k as int);
    }
    k
}

/// In valid UTF-8 that starts with an ASCII byte, a character ends after that byte.
proof fn lemma_boundary_after_ascii(bytes: Seq<u8>)
    requires
        valid_utf8(bytes),
        bytes.len() > 0,
        bytes[0] <= 0x7f,
    ensures
        is_char_boundary(bytes, 1),
{
    reveal_with_fuel(is_char_boundary, 2);
    reveal_with_fuel(valid_utf8, 2);
}

/// Cuts a text at its first comma: what stands before it, and what stands
/// after it where there is one.
pub fn cut_at_comma(s: &str) -> (parts: (&str, Option<&str>))
    ensures
        encode_utf8(parts.0@) == encode_utf8(s@).take(first_sep(encode_utf8(s@), COMMA)),
        match parts.1 {
            Some(rest) => {
                &&& first_sep(encode_utf8(s@), COMMA) < encode_utf8(s@).len()
                &&& encode_utf8(rest@) == encode_utf8(s@).skip(
                    first_sep(encode_utf8(s@), COMMA) + 1,
                )
            },
            None => first_sep(encode_utf8(s@), COMMA) == encode_utf8(s@).len(),
        },
{
    let bytes = s.as_bytes();
    let k: usize = find_sep(bytes, COMMA);
    proof {
        encode_utf8_valid_utf8(s@);
        if k < bytes@.len() {
            lemma_first_sep(bytes@, COMMA);
            is_char_boundary_iff_not_is_continuation_byte(bytes@, k as int);
        } else {
            is_char_boundary_start_end_of_seq(bytes@);
        }
    }
    let (head, tail) = s.split_at(k);
    if k == bytes.len() {
        (head, None)
    } else {
        proof {
            lemma_first_sep(bytes@, COMMA);
            encode_utf8_valid_utf8(tail@);
            assert(encode_utf8(tail@)[0] == bytes@[k as int]);
            lemma_boundary_after_ascii(encode_utf8(tail@));
        }
        let (_, rest) = tail.split_at(1);
        proof {
            assert(encode_utf8(rest@) =~= bytes@.skip(k + 1));
        }
        (head, Some(rest))
    }
}

} // verus!
