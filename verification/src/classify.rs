//! Classification: from a content report and the file's name to a set of
//! kinds, and from a user's list of names to a set of kinds.

use crate::kinds::{ArchiveKind, ArchiveType};
use crate::registry::{
    archives, fingerprint_of, is_entry, kind_named, lookup, name_of, names, table_order,
};
use crate::text::{
    ascii_lower, contains_bytes, cut_at_comma, first_sep, lemma_first_sep, occurs, split, COMMA,
};
use vstd::prelude::*;
use vstd::utf8::{encode_utf8, is_ascii_chars, is_ascii_chars_encode_utf8};

verus! {

/// What came back from the tool that looks into a file and says what it holds.
#[derive(Debug)]
pub struct SniffReport {
    /// Whether the tool ended with success.
    pub success: bool,
    /// What the tool wrote to its standard output.
    pub output: String,
}

/// What a user's list of names selects.
#[derive(Debug)]
pub struct TypeSelection {
    /// The kinds that the list names.
    pub types: ArchiveType,
    /// The pieces of the list that name no kind, in their order. It is filled
    /// only where the caller asked for them.
    pub rejected: Vec<String>,
}

/// Whether a content report tells of `kind`.
pub open spec fn told(report: Seq<u8>, kind: ArchiveKind) -> bool {
    occurs(encode_utf8(fingerprint_of(kind)), report)
}

/// Whether a file's name says that it is, or holds, a tar archive.
pub open spec fn tar_in_name(path: Seq<u8>) -> bool {
    occurs(encode_utf8(".tar"@), path) || occurs(encode_utf8(".tgz"@), path)
}

/// The kinds of a file: those that the content report tells of, and tar
/// wherever the name says so.
pub open spec fn classified(report: Seq<u8>, path: Seq<u8>) -> Set<ArchiveKind> {
    Set::new(
        |kind: ArchiveKind| told(report, kind) || (kind == ArchiveKind::Tar && tar_in_name(path)),
    )
}

/// The place of a kind in the table.
pub open spec fn place(kind: ArchiveKind) -> int {
    match kind {
        ArchiveKind::Tar => 0,
        ArchiveKind::Gzip => 1,
        ArchiveKind::Zip => 2,
        ArchiveKind::Xz => 3,
        ArchiveKind::Bzip2 => 4,
    }
}

/// The kinds that the pieces of a list name.
pub open spec fn selected(tokens: Seq<Seq<u8>>) -> Set<ArchiveKind> {
    Set::new(
        |kind: ArchiveKind|
            exists|i: int| 0 <= i < tokens.len() && kind_named(#[trigger] tokens[i]) == Some(kind),
    )
}

/// The pieces of a list that name no kind, in their order.
pub open spec fn unnamed(tokens: Seq<Seq<u8>>) -> Seq<Seq<u8>>
    decreases tokens.len(),
{
    if tokens.len() == 0 {
        Seq::empty()
    } else if kind_named(tokens.last()) is None {
        unnamed(tokens.drop_last()).push(tokens.last())
    } else {
        unnamed(tokens.drop_last())
    }
}

/// The UTF-8 bytes of each text of a list.
pub open spec fn texts(list: Seq<String>) -> Seq<Seq<u8>> {
    Seq::new(list.len(), |i: int| encode_utf8(list[i]@))
}

/// Adds the kinds of `set` to `flags` where `needle` stands in `haystack`.
pub fn find_and_set_flag(haystack: &str, needle: &str, flags: &mut ArchiveType, set: ArchiveType)
    ensures
        final(flags)@ == if occurs(encode_utf8(needle@), encode_utf8(haystack@)) {
            old(flags)@.union(set@)
        } else {
            old(flags)@
        },
{
    if contains_bytes(haystack.as_bytes(), needle.as_bytes()) {
        flags.insert(set);
    }
}

/// The kinds of a file, from the content report on it and from its name.
pub fn classify(file_output: &str, path: &str) -> (typ: ArchiveType)
    ensures
        typ@ == classified(encode_utf8(file_output@), encode_utf8(path@)),
{
    let ghost report = encode_utf8(file_output@);
    let table = archives();
    let mut typ = ArchiveType::empty();
    let mut i: usize = 0;
    while i < table.len()
        invariant
            i <= table@.len(),
            table@.len() == table_order().len(),
            report == encode_utf8(file_output@),
            forall|j: int|
                0 <= j < table@.len() ==> #[trigger] table@[j].class == table_order()[j]
                    && is_entry(table@[j]),
            forall|kind: ArchiveKind|
                #[trigger] typ@.contains(kind) <==> (place(kind) < i && told(report, kind)),
        decreases table@.len() - i,
    {
        let class = table[i];
        let ghost before = typ@;
        proof {
            assert(table@[i as int].class == table_order()[i as int]);
            assert(is_entry(table@[i as int]));
            assert(place(class.class) == i);
        }
        find_and_set_flag(file_output, class.file_fingerprint, &mut typ, ArchiveType::of(class.class));
        proof {
            assert forall|kind: ArchiveKind|
                #[trigger] typ@.contains(kind) <==> (place(kind) < i + 1 && told(report, kind)) by {
                assert(before.contains(kind) <==> (place(kind) < i && told(report, kind)));
                assert(place(kind) == i <==> kind == class.class);
            }
        }
        i += 1;
    }
    find_and_set_flag(path, ".tar", &mut typ, ArchiveType::of(ArchiveKind::Tar));
    find_and_set_flag(path, ".tgz", &mut typ, ArchiveType::of(ArchiveKind::Tar));
    proof {
        assert(typ@ =~= classified(report, encode_utf8(path@)));
    }
    typ
}

/// The kinds of a file, or `None` where the content report could not be had:
/// where the tool did not run, or did not end with success.
pub fn get_archive_type(report: Option<&SniffReport>, path: &str) -> (typ: Option<ArchiveType>)
    ensures
        match report {
            Some(r) if r.success => typ matches Some(t) && t@ == classified(
                encode_utf8(r.output@),
                encode_utf8(path@),
            ),
            _ => typ is None,
        },
{
    match report {
        Some(r) => {
            if r.success {
                Some(classify(r.output.as_str(), path))
            } else {
                None
            }
        },
        None => None,
    }
}

proof fn lemma_selected_push(done: Seq<Seq<u8>>, token: Seq<u8>)
    ensures
        selected(done.push(token)) == match kind_named(token) {
            Some(kind) => selected(done).insert(kind),
            None => selected(done),
        },
{
    let next = done.push(token);
    let goal = match kind_named(token) {
        Some(kind) => selected(done).insert(kind),
        None => selected(done),
    };
    assert forall|kind: ArchiveKind| selected(next).contains(kind) == goal.contains(kind) by {
        if selected(next).contains(kind) {
            let i = choose|i: int| 0 <= i < next.len() && kind_named(#[trigger] next[i]) == Some(kind);
            if i < done.len() {
                assert(done[i] == next[i]);
            }
        }
        if goal.contains(kind) {
            if selected(done).contains(kind) {
                let i = choose|i: int|
                    0 <= i < done.len() && kind_named(#[trigger] done[i]) == Some(kind);
                assert(next[i] == done[i]);
            } else {
                assert(next[done.len() as int] == token);
            }
        }
    }
    assert(selected(next) =~= goal);
}

/// Reads a list of kind names, separated by commas. Each piece is looked up
/// in the table, capital ASCII letters taken for small ones; a piece that
/// names no kind selects nothing. With `verbose` the pieces that name no kind
/// are handed back, for the caller to report.
pub fn opts_archive_type(typ: &str, verbose: bool) -> (sel: TypeSelection)
    ensures
        sel.types@ == selected(split(encode_utf8(typ@), COMMA)),
        texts(sel.rejected@) == if verbose {
            unnamed(split(encode_utf8(typ@), COMMA))
        } else {
            Seq::empty()
        },
{
    let ghost all = split(encode_utf8(typ@), COMMA);
    let ghost mut done: Seq<Seq<u8>> = Seq::empty();
    let mut types = ArchiveType::empty();
    let mut rejected: Vec<String> = Vec::new();
    let mut rest: &str = typ;
    proof {
        assert(selected(done) =~= Set::<ArchiveKind>::empty());
        assert(texts(rejected@) =~= Seq::<Seq<u8>>::empty());
        assert(all =~= done + split(encode_utf8(rest@), COMMA));
    }
    loop
        invariant_except_break
            all == done + split(encode_utf8(rest@), COMMA),
        invariant
            types@ == selected(done),
            texts(rejected@) == if verbose {
                unnamed(done)
            } else {
                Seq::<Seq<u8>>::empty()
            },
        ensures
            all == done,
        decreases encode_utf8(rest@).len(),
    {
        let (token, more) = cut_at_comma(rest);
        let ghost bytes = encode_utf8(rest@);
        let ghost piece = encode_utf8(token@);
        proof {
            lemma_first_sep(bytes, COMMA);
            lemma_selected_push(done, piece);
            assert(done.push(piece).drop_last() =~= done);
        }
        match lookup(token) {
            Some(class) => {
                types.insert(ArchiveType::of(class.class));
                proof {
                    assert(selected(done).insert(class.class) =~= selected(done).union(
                        set![class.class],
                    ));
                }
            },
            None => {
                if verbose {
                    let ghost before = texts(rejected@);
                    rejected.push(token.to_owned());
                    proof {
                        assert(texts(rejected@) =~= before.push(piece));
                    }
                }
            },
        }
        proof {
            let k: int = first_sep(bytes, COMMA);
            if k < bytes.len() {
                assert(split(bytes, COMMA) == seq![bytes.take(k)] + split(bytes.skip(k + 1), COMMA));
                assert(done.push(piece) + split(bytes.skip(k + 1), COMMA) =~= done + split(
                    bytes,
                    COMMA,
                ));
            } else {
                assert(bytes.take(k) =~= bytes);
                assert(split(bytes, COMMA) == seq![bytes]);
                assert(done.push(piece) =~= done + split(bytes, COMMA));
            }
            done = done.push(piece);
        }
        match more {
            Some(after) => {
                rest = after;
            },
            None => {
                break ;
            },
        }
    }
    TypeSelection { types, rejected }
}

/// A file whose name holds ".tar" or ".tgz" is classified as tar, whatever
/// the content report says.
pub proof fn lemma_tar_name_is_tar(report: Seq<u8>, path: Seq<u8>)
    requires
        tar_in_name(path),
    ensures
        classified(report, path).contains(ArchiveKind::Tar),
{
}

/// A list of which no piece names a kind selects nothing.
pub proof fn lemma_unnamed_select_nothing(tokens: Seq<Seq<u8>>)
    requires
        forall|i: int| 0 <= i < tokens.len() ==> kind_named(#[trigger] tokens[i]) is None,
    ensures
        selected(tokens) == Set::<ArchiveKind>::empty(),
{
    assert(selected(tokens) =~= Set::<ArchiveKind>::empty());
}

/// No kind has the empty name.
pub proof fn lemma_empty_names_nothing()
    ensures
        kind_named(Seq::<u8>::empty()) is None,
{
    reveal_strlit("tar");
    reveal_strlit("gzip");
    reveal_strlit("zip");
    reveal_strlit("xz");
    reveal_strlit("bzip2");
    assert forall|kind: ArchiveKind| !names(Seq::<u8>::empty(), kind) by {
        let name = name_of(kind);
        assert(is_ascii_chars(name));
        is_ascii_chars_encode_utf8(name);
        assert(ascii_lower(Seq::<u8>::empty()).len() == 0);
    }
}

/// The empty list selects nothing.
pub proof fn lemma_empty_list_selects_nothing()
    ensures
        selected(split(Seq::<u8>::empty(), COMMA)) == Set::<ArchiveKind>::empty(),
{
    let tokens = split(Seq::<u8>::empty(), COMMA);
    assert(tokens =~= seq![Seq::<u8>::empty()]);
    lemma_empty_names_nothing();
    lemma_unnamed_select_nothing(tokens);
}

} // verus!
