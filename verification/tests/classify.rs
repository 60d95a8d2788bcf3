use tarstream::classify::{
    classify, find_and_set_flag, get_archive_type, opts_archive_type, SniffReport,
};
use tarstream::kinds::{ArchiveKind, ArchiveType};
use tarstream::registry::{archives, lookup, ArchiveClass};

fn set_of(kinds: &[ArchiveKind]) -> ArchiveType {
    let mut t = ArchiveType::empty();
    for k in kinds {
        t.insert(ArchiveType::of(*k));
    }
    t
}

fn report(success: bool, output: &str) -> SniffReport {
    SniffReport { success, output: output.to_string() }
}

#[test]
fn table_lists_the_five_kinds_in_order() {
    let table = archives();
    assert_eq!(table.len(), 5);
    let names: Vec<&str> = table.iter().map(|c| c.name).collect();
    assert_eq!(names, vec!["tar", "gzip", "zip", "xz", "bzip2"]);
    let kinds: Vec<ArchiveKind> = table.iter().map(|c| c.class).collect();
    assert_eq!(
        kinds,
        vec![
            ArchiveKind::Tar,
            ArchiveKind::Gzip,
            ArchiveKind::Zip,
            ArchiveKind::Xz,
            ArchiveKind::Bzip2
        ]
    );
    let prints: Vec<&str> = table.iter().map(|c| c.file_fingerprint).collect();
    assert_eq!(
        prints,
        vec![
            "tar archive",
            "gzip compressed data",
            "Zip archive data",
            "XZ compressed data",
            "bzip2 compressed data"
        ]
    );
}

#[test]
fn entry_of_a_kind_is_the_table_entry() {
    let class = ArchiveClass::of(ArchiveKind::Xz);
    assert_eq!(class.class, ArchiveKind::Xz);
    assert_eq!(class.name, "xz");
    assert_eq!(class.file_fingerprint, "XZ compressed data");
}

#[test]
fn lookup_finds_names_in_any_case() {
    assert_eq!(lookup("tar").unwrap().class, ArchiveKind::Tar);
    assert_eq!(lookup("GZIP").unwrap().class, ArchiveKind::Gzip);
    assert_eq!(lookup("Zip").unwrap().class, ArchiveKind::Zip);
    assert_eq!(lookup("xZ").unwrap().class, ArchiveKind::Xz);
    assert_eq!(lookup("BZip2").unwrap().class, ArchiveKind::Bzip2);
    assert_eq!(lookup("bzip2").unwrap().file_fingerprint, "bzip2 compressed data");
}

#[test]
fn lookup_refuses_what_is_no_name() {
    assert!(lookup("").is_none());
    assert!(lookup("bogus").is_none());
    assert!(lookup(" gzip").is_none());
    assert!(lookup("gzip ").is_none());
    assert!(lookup("gz").is_none());
    assert!(lookup("tarr").is_none());
    assert!(lookup("t\u{e4}r").is_none());
    assert!(lookup("tar archive").is_none());
}

#[test]
fn find_and_set_flag_sets_on_a_match() {
    let mut flags = ArchiveType::empty();
    find_and_set_flag("a gzip compressed data b", "gzip compressed data", &mut flags,
        ArchiveType::of(ArchiveKind::Gzip));
    assert_eq!(flags, ArchiveType::of(ArchiveKind::Gzip));
    find_and_set_flag("x.tar", ".tar", &mut flags, ArchiveType::of(ArchiveKind::Tar));
    assert_eq!(flags, set_of(&[ArchiveKind::Gzip, ArchiveKind::Tar]));
}

#[test]
fn find_and_set_flag_leaves_alone_without_a_match() {
    let mut flags = ArchiveType::of(ArchiveKind::Zip);
    find_and_set_flag("plain text", "gzip compressed data", &mut flags,
        ArchiveType::of(ArchiveKind::Gzip));
    assert_eq!(flags, ArchiveType::of(ArchiveKind::Zip));
    find_and_set_flag("", "x", &mut flags, ArchiveType::of(ArchiveKind::Gzip));
    assert_eq!(flags, ArchiveType::of(ArchiveKind::Zip));
    find_and_set_flag("ta", "tar", &mut flags, ArchiveType::of(ArchiveKind::Tar));
    assert_eq!(flags, ArchiveType::of(ArchiveKind::Zip));
    find_and_set_flag("tXar", "tar", &mut flags, ArchiveType::of(ArchiveKind::Tar));
    assert_eq!(flags, ArchiveType::of(ArchiveKind::Zip));
}

#[test]
fn find_and_set_flag_matches_at_both_ends() {
    let mut flags = ArchiveType::empty();
    find_and_set_flag("tar", "tar", &mut flags, ArchiveType::of(ArchiveKind::Tar));
    assert_eq!(flags, ArchiveType::of(ArchiveKind::Tar));
    let mut flags = ArchiveType::empty();
    find_and_set_flag("xxtar", "tar", &mut flags, ArchiveType::of(ArchiveKind::Tar));
    assert_eq!(flags, ArchiveType::of(ArchiveKind::Tar));
    let mut flags = ArchiveType::empty();
    find_and_set_flag("tatar", "tar", &mut flags, ArchiveType::of(ArchiveKind::Tar));
    assert_eq!(flags, ArchiveType::of(ArchiveKind::Tar));
}

#[test]
fn find_and_set_flag_empty_needle_always_matches() {
    let mut flags = ArchiveType::empty();
    find_and_set_flag("", "", &mut flags, ArchiveType::of(ArchiveKind::Xz));
    assert_eq!(flags, ArchiveType::of(ArchiveKind::Xz));
}

#[test]
fn find_and_set_flag_is_case_sensitive() {
    let mut flags = ArchiveType::empty();
    find_and_set_flag("zip archive data", "Zip archive data", &mut flags,
        ArchiveType::of(ArchiveKind::Zip));
    assert!(flags.is_empty());
}

#[test]
fn classify_by_content() {
    assert_eq!(
        classify("a.bin: gzip compressed data, from Unix", "a.bin"),
        ArchiveType::of(ArchiveKind::Gzip)
    );
    assert_eq!(
        classify("a.bin: POSIX tar archive (GNU)", "a.bin"),
        ArchiveType::of(ArchiveKind::Tar)
    );
    assert_eq!(
        classify("a.bin: Zip archive data, at least v2.0 to extract", "a.bin"),
        ArchiveType::of(ArchiveKind::Zip)
    );
    assert_eq!(classify("a.bin: XZ compressed data", "a.bin"), ArchiveType::of(ArchiveKind::Xz));
    assert_eq!(
        classify("a.bin: bzip2 compressed data, block size = 900k", "a.bin"),
        ArchiveType::of(ArchiveKind::Bzip2)
    );
}

#[test]
fn classify_unknown_content_is_empty() {
    assert!(classify("a.bin: ASCII text", "a.bin").is_empty());
    assert!(classify("", "").is_empty());
}

#[test]
fn classify_sets_tar_by_name_whatever_the_content() {
    let tar = ArchiveType::of(ArchiveKind::Tar);
    assert_eq!(classify("x: data", "backup.tar"), tar);
    assert_eq!(classify("x: data", "backup.tgz"), tar);
    assert_eq!(classify("", "dir.tar.d/file"), tar);
    assert_eq!(classify("x: ASCII text", "a.tgz.bak"), tar);
    assert_eq!(
        classify("x: gzip compressed data", "backup.tar.gz"),
        set_of(&[ArchiveKind::Gzip, ArchiveKind::Tar])
    );
    assert_eq!(
        classify("x: XZ compressed data", "backup.tgz"),
        set_of(&[ArchiveKind::Xz, ArchiveKind::Tar])
    );
    assert_eq!(classify("x: POSIX tar archive", "backup.tar"), tar);
}

#[test]
fn classify_name_without_the_dot_is_no_tar() {
    assert!(classify("x: data", "tar").is_empty());
    assert!(classify("x: data", "backup.TAR").is_empty());
    assert!(classify("x: data", "backup.ta").is_empty());
}

#[test]
fn classify_can_set_several_bits_by_content() {
    assert_eq!(
        classify("x: gzip compressed data, was \"a.tar\", tar archive", "x"),
        set_of(&[ArchiveKind::Gzip, ArchiveKind::Tar])
    );
}

#[test]
fn get_archive_type_fails_without_a_report() {
    assert_eq!(get_archive_type(None, "backup.tar"), None);
}

#[test]
fn get_archive_type_fails_when_the_tool_failed() {
    let r = report(false, "x: gzip compressed data");
    assert_eq!(get_archive_type(Some(&r), "backup.tar"), None);
}

#[test]
fn get_archive_type_classifies_a_report() {
    let r = report(true, "x: gzip compressed data");
    assert_eq!(
        get_archive_type(Some(&r), "backup.tar.gz"),
        Some(set_of(&[ArchiveKind::Gzip, ArchiveKind::Tar]))
    );
    let r = report(true, "x: data");
    assert_eq!(get_archive_type(Some(&r), "x"), Some(ArchiveType::empty()));
}

#[test]
fn opts_drops_an_unknown_name_silently() {
    let sel = opts_archive_type("gzip,bogus,tar", false);
    assert_eq!(sel.types, set_of(&[ArchiveKind::Gzip, ArchiveKind::Tar]));
    assert!(sel.rejected.is_empty());
}

#[test]
fn opts_reports_an_unknown_name_when_verbose() {
    let sel = opts_archive_type("gzip,bogus,tar", true);
    assert_eq!(sel.types, set_of(&[ArchiveKind::Gzip, ArchiveKind::Tar]));
    assert_eq!(sel.rejected, vec!["bogus".to_string()]);
}

#[test]
fn opts_empty_list_is_the_empty_set() {
    assert!(opts_archive_type("", false).types.is_empty());
    assert!(opts_archive_type("", false).rejected.is_empty());
    let sel = opts_archive_type("", true);
    assert!(sel.types.is_empty());
    assert_eq!(sel.rejected, vec![String::new()]);
}

#[test]
fn opts_nothing_known_is_the_empty_set() {
    let sel = opts_archive_type("rar,7z,,lzma", true);
    assert!(sel.types.is_empty());
    assert_eq!(sel.rejected, vec!["rar", "7z", "", "lzma"]);
}

#[test]
fn opts_takes_any_case() {
    assert_eq!(
        opts_archive_type("GZIP,Tar,bZiP2", false).types,
        set_of(&[ArchiveKind::Gzip, ArchiveKind::Tar, ArchiveKind::Bzip2])
    );
}

#[test]
fn opts_single_names() {
    assert_eq!(opts_archive_type("tar", false).types, ArchiveType::of(ArchiveKind::Tar));
    assert_eq!(opts_archive_type("gzip", false).types, ArchiveType::of(ArchiveKind::Gzip));
    assert_eq!(opts_archive_type("zip", false).types, ArchiveType::of(ArchiveKind::Zip));
    assert_eq!(opts_archive_type("xz", false).types, ArchiveType::of(ArchiveKind::Xz));
    assert_eq!(opts_archive_type("bzip2", false).types, ArchiveType::of(ArchiveKind::Bzip2));
}

#[test]
fn opts_all_names() {
    assert_eq!(opts_archive_type("tar,gzip,zip,xz,bzip2", true).types, ArchiveType::all());
    assert!(opts_archive_type("tar,gzip,zip,xz,bzip2", true).rejected.is_empty());
}

#[test]
fn opts_repeated_and_empty_pieces() {
    let sel = opts_archive_type(",zip,,zip,", true);
    assert_eq!(sel.types, ArchiveType::of(ArchiveKind::Zip));
    assert_eq!(sel.rejected, vec!["", "", ""]);
}

#[test]
fn opts_does_not_trim() {
    let sel = opts_archive_type("gzip, tar", true);
    assert_eq!(sel.types, ArchiveType::of(ArchiveKind::Gzip));
    assert_eq!(sel.rejected, vec![" tar"]);
}

#[test]
fn opts_keeps_text_that_is_not_ascii() {
    let sel = opts_archive_type("t\u{e4}r,xz,\u{65e5}\u{672c}", true);
    assert_eq!(sel.types, ArchiveType::of(ArchiveKind::Xz));
    assert_eq!(sel.rejected, vec!["t\u{e4}r", "\u{65e5}\u{672c}"]);
}
