use tarstream::kinds::{ArchiveKind, ArchiveType, ALL_BITS};

#[test]
fn empty_set_holds_nothing() {
    let t = ArchiveType::empty();
    assert!(t.is_empty());
    assert_eq!(t.bits(), 0);
    assert!(!t.has(ArchiveKind::Tar));
    assert!(!t.has(ArchiveKind::Gzip));
    assert!(!t.has(ArchiveKind::Zip));
    assert!(!t.has(ArchiveKind::Xz));
    assert!(!t.has(ArchiveKind::Bzip2));
}

#[test]
fn each_kind_has_its_own_bit() {
    assert_eq!(ArchiveType::of(ArchiveKind::Tar).bits(), 0b00001);
    assert_eq!(ArchiveType::of(ArchiveKind::Gzip).bits(), 0b00010);
    assert_eq!(ArchiveType::of(ArchiveKind::Zip).bits(), 0b00100);
    assert_eq!(ArchiveType::of(ArchiveKind::Xz).bits(), 0b01000);
    assert_eq!(ArchiveType::of(ArchiveKind::Bzip2).bits(), 0b10000);
    assert_eq!(ArchiveKind::Bzip2.bit(), 16);
}

#[test]
fn all_is_the_five_bits() {
    assert_eq!(ArchiveType::all().bits(), 31);
    assert_eq!(ALL_BITS, 31);
    assert!(ArchiveType::all().contains(ArchiveType::of(ArchiveKind::Xz)));
}

#[test]
fn union_holds_the_kinds_of_both() {
    let both = ArchiveType::of(ArchiveKind::Gzip).union(ArchiveType::of(ArchiveKind::Tar));
    assert_eq!(both.bits(), 0b00011);
    assert!(both.has(ArchiveKind::Gzip));
    assert!(both.has(ArchiveKind::Tar));
    assert!(!both.has(ArchiveKind::Zip));
    assert!(both.contains(ArchiveType::of(ArchiveKind::Gzip)));
    assert!(both.contains(ArchiveType::empty()));
    assert!(!ArchiveType::of(ArchiveKind::Gzip).contains(both));
    assert!(!both.is_empty());
}

#[test]
fn insert_adds_and_keeps() {
    let mut t = ArchiveType::of(ArchiveKind::Zip);
    t.insert(ArchiveType::of(ArchiveKind::Xz));
    t.insert(ArchiveType::of(ArchiveKind::Zip));
    assert_eq!(t.bits(), 0b01100);
    t.insert(ArchiveType::empty());
    assert_eq!(t.bits(), 0b01100);
}

#[test]
fn from_bits_refuses_unknown_bits() {
    assert_eq!(ArchiveType::from_bits(0), Some(ArchiveType::empty()));
    assert_eq!(ArchiveType::from_bits(31), Some(ArchiveType::all()));
    assert_eq!(ArchiveType::from_bits(32), None);
    assert_eq!(ArchiveType::from_bits(u32::MAX), None);
    let t = ArchiveType::from_bits(0b10010).unwrap();
    assert!(t.has(ArchiveKind::Bzip2) && t.has(ArchiveKind::Gzip) && !t.has(ArchiveKind::Tar));
}

#[test]
fn sets_with_the_same_kinds_are_equal() {
    let a = ArchiveType::of(ArchiveKind::Tar).union(ArchiveType::of(ArchiveKind::Bzip2));
    let b = ArchiveType::of(ArchiveKind::Bzip2).union(ArchiveType::of(ArchiveKind::Tar));
    assert_eq!(a, b);
    assert_ne!(a, ArchiveType::of(ArchiveKind::Tar));
}
