//! The fixed table of the supported kinds: for each its name, as a user
//! writes it, and the words by which a content report tells it.

use crate::kinds::ArchiveKind;
use crate::text::{ascii_lower, lowered_equals};
use vstd::prelude::*;
use vstd::utf8::{encode_utf8, is_ascii_chars, is_ascii_chars_encode_utf8};

verus! {

/// What the table holds of one kind.
#[derive(Clone, Copy, Debug)]
pub struct ArchiveClass {
    pub class: ArchiveKind,
    pub name: &'static str,
    pub file_fingerprint: &'static str,
}

/// The kinds in the order of the table.
pub open spec fn table_order() -> Seq<ArchiveKind> {
    seq![
        ArchiveKind::Tar,
        ArchiveKind::Gzip,
        ArchiveKind::Zip,
        ArchiveKind::Xz,
        ArchiveKind::Bzip2,
    ]
}

/// The name of a kind.
pub open spec fn name_of(kind: ArchiveKind) -> Seq<char> {
    match kind {
        ArchiveKind::Tar => "tar"@,
        ArchiveKind::Gzip => "gzip"@,
        ArchiveKind::Zip => "zip"@,
        ArchiveKind::Xz => "xz"@,
        ArchiveKind::Bzip2 => "bzip2"@,
    }
}

/// The words that a content report holds for a file of a kind.
pub open spec fn fingerprint_of(kind: ArchiveKind) -> Seq<char> {
    match kind {
        ArchiveKind::Tar => "tar archive"@,
        ArchiveKind::Gzip => "gzip compressed data"@,
        ArchiveKind::Zip => "Zip archive data"@,
        ArchiveKind::Xz => "XZ compressed data"@,
        ArchiveKind::Bzip2 => "bzip2 compressed data"@,
    }
}

/// Whether `class` is the table's entry for its kind.
pub open spec fn is_entry(class: ArchiveClass) -> bool {
    &&& class.name@ == name_of(class.class)
    &&& class.file_fingerprint@ == fingerprint_of(class.class)
}

/// Whether `token` is the name of `kind`, whatever the case of its ASCII letters.
pub open spec fn names(token: Seq<u8>, kind: ArchiveKind) -> bool {
    ascii_lower(token) == encode_utf8(name_of(kind))
}

/// The first kind of the table that `token` names, if it names one.
pub open spec fn kind_named(token: Seq<u8>) -> Option<ArchiveKind> {
    if names(token, ArchiveKind::Tar) {
        Some(ArchiveKind::Tar)
    } else if names(token, ArchiveKind::Gzip) {
        Some(ArchiveKind::Gzip)
    } else if names(token, ArchiveKind::Zip) {
        Some(ArchiveKind::Zip)
    } else if names(token, ArchiveKind::Xz) {
        Some(ArchiveKind::Xz)
    } else if names(token, ArchiveKind::Bzip2) {
        Some(ArchiveKind::Bzip2)
    } else {
        None
    }
}

impl ArchiveClass {
    /// The table's entry for `kind`.
    pub fn of(kind: ArchiveKind) -> (class: ArchiveClass)
        ensures
            class.class == kind,
            is_entry(class),
    {
        match kind {
            ArchiveKind::Tar => ArchiveClass {
                class: kind,
                name: "tar",
                file_fingerprint: "tar archive",
            },
            ArchiveKind::Gzip => ArchiveClass {
                class: kind,
                name: "gzip",
                file_fingerprint: "gzip compressed data",
            },
            ArchiveKind::Zip => ArchiveClass {
                class: kind,
                name: "zip",
                file_fingerprint: "Zip archive data",
            },
            ArchiveKind::Xz => ArchiveClass {
                class: kind,
                name: "xz",
                file_fingerprint: "XZ compressed data",
            },
            ArchiveKind::Bzip2 => ArchiveClass {
                class: kind,
                name: "bzip2",
                file_fingerprint: "bzip2 compressed data",
            },
        }
    }
}

/// The table: one entry for each kind, in the order tar, gzip, zip, xz, bzip2.
pub fn archives() -> (table: Vec<ArchiveClass>)
    ensures
        table@.len() == table_order().len(),
        forall|i: int|
            0 <= i < table@.len() ==> #[trigger] table@[i].class == table_order()[i] && is_entry(
                table@[i],
            ),
{
    let mut table: Vec<ArchiveClass> = Vec::new();
    table.push(ArchiveClass::of(ArchiveKind::Tar));
    table.push(ArchiveClass::of(ArchiveKind::Gzip));
    table.push(ArchiveClass::of(ArchiveKind::Zip));
    table.push(ArchiveClass::of(ArchiveKind::Xz));
    table.push(ArchiveClass::of(ArchiveKind::Bzip2));
    table
}

/// Looks a name up in the table, taking capital ASCII letters for small ones.
pub fn lookup(name: &str) -> (found: Option<ArchiveClass>)
    ensures
        match found {
            Some(class) => kind_named(encode_utf8(name@)) == Some(class.class) && is_entry(class),
            None => kind_named(encode_utf8(name@)) is None,
        },
{
    let table = archives();
    let token = name.as_bytes();
    let mut i: usize = 0;
    while i < table.len()
        invariant
            i <= table@.len(),
            table@.len() == table_order().len(),
            token@ == encode_utf8(name@),
            forall|j: int|
                0 <= j < table@.len() ==> #[trigger] table@[j].class == table_order()[j]
                    && is_entry(table@[j]),
            forall|j: int| 0 <= j < i ==> !names(token@, #[trigger] table_order()[j]),
        decreases table@.len() - i,
    {
        let class = table[i];
        if lowered_equals(token, class.name.as_bytes()) {
            proof {
                assert(table@[i as int].class == table_order()[i as int]);
                assert(forall|j: int| 0 <= j < i ==> !names(token@, #[trigger] table_order()[j]));
                assert(i > 0 ==> !names(token@, table_order()[0]));
                assert(i > 1 ==> !names(token@, table_order()[1]));
                assert(i > 2 ==> !names(token@, table_order()[2]));
                assert(i > 3 ==> !names(token@, table_order()[3]));
            }
            return Some(class);
        }
        proof {
            assert(table@[i as int].class == table_order()[i as int]);
        }
        i += 1;
    }
    proof {
        assert(!names(token@, table_order()[0]));
        assert(!names(token@, table_order()[1]));
        assert(!names(token@, table_order()[2]));
        assert(!names(token@, table_order()[3]));
        assert(!names(token@, table_order()[4]));
    }
    None
}

/// The lookup does not tell capital letters from small ones: two texts that
/// differ in the case of their ASCII letters alone name the same kind, or
/// both none.
pub proof fn lemma_lookup_ignores_case(one: Seq<u8>, other: Seq<u8>)
    requires
        ascii_lower(one) == ascii_lower(other),
    ensures
        kind_named(one) == kind_named(other),
{
}

/// Each kind has a name of its own, so a text names one kind at most.
pub proof fn lemma_names_differ(token: Seq<u8>, first: ArchiveKind, second: ArchiveKind)
    requires
        names(token, first),
        names(token, second),
    ensures
        first == second,
{
    reveal_strlit("tar");
    reveal_strlit("gzip");
    reveal_strlit("zip");
    reveal_strlit("xz");
    reveal_strlit("bzip2");
    let one = name_of(first);
    let two = name_of(second);
    assert(is_ascii_chars(one));
    assert(is_ascii_chars(two));
    is_ascii_chars_encode_utf8(one);
    is_ascii_chars_encode_utf8(two);
    assert(encode_utf8(one) == encode_utf8(two));
    assert(one.len() == two.len());
    if first != second {
        // Of the five names only "tar" and "zip" have the same length.
        assert(one[0] as u8 == encode_utf8(one)[0]);
        assert(two[0] as u8 == encode_utf8(two)[0]);
    }
}

/// A name names its own kind.
pub proof fn lemma_name_names_its_kind(kind: ArchiveKind)
    ensures
        kind_named(encode_utf8(name_of(kind))) == Some(kind),
{
    reveal_strlit("tar");
    reveal_strlit("gzip");
    reveal_strlit("zip");
    reveal_strlit("xz");
    reveal_strlit("bzip2");
    let name = name_of(kind);
    let bytes = encode_utf8(name);
    assert(is_ascii_chars(name));
    is_ascii_chars_encode_utf8(name);
    assert forall|i: int| 0 <= i < bytes.len() implies crate::text::lower_byte(bytes[i])
        == bytes[i] by {
        assert(bytes[i] == name[i] as u8);
    }
    assert(ascii_lower(bytes) =~= bytes);
    assert(names(bytes, kind));
    if kind_named(bytes) != Some(kind) {
        let other = kind_named(bytes).unwrap();
        lemma_names_differ(bytes, kind, other);
    }
}

} // verus!
