//! The supported archive kinds and the set type that classification yields.

use vstd::prelude::*;

verus! {

/// One supported archive or compression format.
#[derive(Clone, Copy, Debug, PartialEq, Eq, Structural)]
pub enum ArchiveKind {
    Tar,
    Gzip,
    Zip,
    Xz,
    Bzip2,
}

impl ArchiveKind {
    /// The single bit that stands for this kind in an `ArchiveType`.
    pub open spec fn mask(self) -> u32 {
        match self {
            ArchiveKind::Tar => 0x01,
            ArchiveKind::Gzip => 0x02,
            ArchiveKind::Zip => 0x04,
            ArchiveKind::Xz => 0x08,
            ArchiveKind::Bzip2 => 0x10,
        }
    }

    /// The bit of this kind.
    pub fn bit(self) -> (b: u32)
        ensures
            b == self.mask(),
    {
        match self {
            ArchiveKind::Tar => 0x01,
            ArchiveKind::Gzip => 0x02,
            ArchiveKind::Zip => 0x04,
            ArchiveKind::Xz => 0x08,
            ArchiveKind::Bzip2 => 0x10,
        }
    }
}

/// Every bit that stands for a kind.
pub const ALL_BITS: u32 = 0x1f;

/// A set of archive kinds, kept as a bit mask.
///
/// The empty set is the distinguished "invalid" value: a file whose type is
/// the empty set is of no known kind.
#[derive(Clone, Copy, Debug, PartialEq, Eq, Structural)]
pub struct ArchiveType {
    bits: u32,
}

/// Whether `bits` has the bit of `kind`.
pub open spec fn bit_set(bits: u32, kind: ArchiveKind) -> bool {
    bits & kind.mask() != 0
}

/// The kinds whose bits are in `bits`.
pub open spec fn kinds_of(bits: u32) -> Set<ArchiveKind> {
    Set::new(|kind: ArchiveKind| bit_set(bits, kind))
}

impl View for ArchiveType {
    type V = Set<ArchiveKind>;

    closed spec fn view(&self) -> Set<ArchiveKind> {
        kinds_of(self.bits)
    }
}

proof fn lemma_union_bits(a: u32, b: u32)
    ensures
        kinds_of(a | b) == kinds_of(a).union(kinds_of(b)),
        a <= ALL_BITS && b <= ALL_BITS ==> (a | b) <= ALL_BITS,
{
    assert forall|kind: ArchiveKind| bit_set(a | b, kind) == (bit_set(a, kind) || bit_set(
        b,
        kind,
    )) by {
        let m: u32 = kind.mask();
        assert(((a | b) & m != 0) == ((a & m != 0) || (b & m != 0))) by (bit_vector);
    }
    assert(kinds_of(a | b) =~= kinds_of(a).union(kinds_of(b)));
    assert(a <= 0x1fu32 && b <= 0x1fu32 ==> (a | b) <= 0x1fu32) by (bit_vector);
}

proof fn lemma_subset_bits(a: u32, b: u32)
    requires
        a <= ALL_BITS,
        b <= ALL_BITS,
    ensures
        (a & b == b) <==> kinds_of(b).subset_of(kinds_of(a)),
{
    assert((a & b == b) <==> ((b & 0x01 != 0 ==> a & 0x01 != 0) && (b & 0x02 != 0 ==> a & 0x02
        != 0) && (b & 0x04 != 0 ==> a & 0x04 != 0) && (b & 0x08 != 0 ==> a & 0x08 != 0) && (b
        & 0x10 != 0 ==> a & 0x10 != 0))) by (bit_vector)
        requires
            a <= 0x1fu32,
            b <= 0x1fu32,
    ;
    if kinds_of(b).subset_of(kinds_of(a)) {
        assert(kinds_of(b).contains(ArchiveKind::Tar) ==> kinds_of(a).contains(ArchiveKind::Tar));
        assert(kinds_of(b).contains(ArchiveKind::Gzip) ==> kinds_of(a).contains(
            ArchiveKind::Gzip,
        ));
        assert(kinds_of(b).contains(ArchiveKind::Zip) ==> kinds_of(a).contains(ArchiveKind::Zip));
        assert(kinds_of(b).contains(ArchiveKind::Xz) ==> kinds_of(a).contains(ArchiveKind::Xz));
        assert(kinds_of(b).contains(ArchiveKind::Bzip2) ==> kinds_of(a).contains(
            ArchiveKind::Bzip2,
        ));
    }
}

proof fn lemma_single_bit(kind: ArchiveKind)
    ensures
        kinds_of(kind.mask()) == set![kind],
        kind.mask() <= ALL_BITS,
{
    assert forall|other: ArchiveKind| bit_set(kind.mask(), other) == (other == kind) by {
        assert(0x01u32 & 0x01 != 0 && 0x01u32 & 0x02 == 0 && 0x01u32 & 0x04 == 0 && 0x01u32 & 0x08
            == 0 && 0x01u32 & 0x10 == 0) by (bit_vector);
        assert(0x02u32 & 0x01 == 0 && 0x02u32 & 0x02 != 0 && 0x02u32 & 0x04 == 0 && 0x02u32 & 0x08
            == 0 && 0x02u32 & 0x10 == 0) by (bit_vector);
        assert(0x04u32 & 0x01 == 0 && 0x04u32 & 0x02 == 0 && 0x04u32 & 0x04 != 0 && 0x04u32 & 0x08
            == 0 && 0x04u32 & 0x10 == 0) by (bit_vector);
        assert(0x08u32 & 0x01 == 0 && 0x08u32 & 0x02 == 0 && 0x08u32 & 0x04 == 0 && 0x08u32 & 0x08
            != 0 && 0x08u32 & 0x10 == 0) by (bit_vector);
        assert(0x10u32 & 0x01 == 0 && 0x10u32 & 0x02 == 0 && 0x10u32 & 0x04 == 0 && 0x10u32 & 0x08
            == 0 && 0x10u32 & 0x10 != 0) by (bit_vector);
    }
    assert(kinds_of(kind.mask()) =~= set![kind]);
}

proof fn lemma_no_bits()
    ensures
        kinds_of(0) == Set::<ArchiveKind>::empty(),
{
    assert forall|kind: ArchiveKind| !bit_set(0, kind) by {
        let m: u32 = kind.mask();
        assert(0u32 & m == 0) by (bit_vector);
    }
    assert(kinds_of(0) =~= Set::<ArchiveKind>::empty());
}

proof fn lemma_bits_of_kinds(a: u32, b: u32)
    requires
        a <= ALL_BITS,
        b <= ALL_BITS,
        kinds_of(a) == kinds_of(b),
    ensures
        a == b,
{
    lemma_subset_bits(a, b);
    lemma_subset_bits(b, a);
    assert(kinds_of(b).subset_of(kinds_of(a)));
    assert(kinds_of(a).subset_of(kinds_of(b)));
    assert((a & b == b) && (b & a == a) ==> a == b) by (bit_vector);
}

impl ArchiveType {
    /// Only bits that stand for a kind are ever set.
    #[verifier::type_invariant]
    pub closed spec fn wf(self) -> bool {
        self.bits <= ALL_BITS
    }

    /// The mask behind the set.
    pub closed spec fn mask(self) -> u32 {
        self.bits
    }

    /// The empty set: no known kind.
    pub fn empty() -> (t: ArchiveType)
        ensures
            t@ == Set::<ArchiveKind>::empty(),
            t.wf(),
    {
        proof {
            lemma_no_bits();
        }
        ArchiveType { bits: 0 }
    }

    /// The set that holds `kind` alone.
    pub fn of(kind: ArchiveKind) -> (t: ArchiveType)
        ensures
            t@ == set![kind],
            t.mask() == kind.mask(),
            t.wf(),
    {
        proof {
            lemma_single_bit(kind);
        }
        ArchiveType { bits: kind.bit() }
    }

    /// The set of all five kinds.
    pub fn all() -> (t: ArchiveType)
        ensures
            t@ == Set::<ArchiveKind>::full(),
            t.wf(),
    {
        proof {
            assert forall|kind: ArchiveKind| bit_set(ALL_BITS, kind) by {
                assert(0x1fu32 & 0x01 != 0 && 0x1fu32 & 0x02 != 0 && 0x1fu32 & 0x04 != 0 && 0x1fu32
                    & 0x08 != 0 && 0x1fu32 & 0x10 != 0) by (bit_vector);
            }
            assert(kinds_of(ALL_BITS) =~= Set::<ArchiveKind>::full());
        }
        ArchiveType { bits: ALL_BITS }
    }

    /// The set with exactly the bits of `bits`, if each of them stands for a kind.
    pub fn from_bits(bits: u32) -> (r: Option<ArchiveType>)
        ensures
            r is Some <==> bits <= ALL_BITS,
            r matches Some(t) ==> t.mask() == bits && t@ == kinds_of(bits) && t.wf(),
    {
        if bits <= ALL_BITS {
            Some(ArchiveType { bits })
        } else {
            None
        }
    }

    /// The mask of the set: one bit for each kind in it.
    pub fn bits(&self) -> (b: u32)
        ensures
            b == self.mask(),
            b <= ALL_BITS,
            kinds_of(b) == self@,
    {
        proof {
            use_type_invariant(self);
        }
        self.bits
    }

    /// Whether no kind is in the set.
    pub fn is_empty(&self) -> (b: bool)
        ensures
            b <==> self@ == Set::<ArchiveKind>::empty(),
    {
        proof {
            use_type_invariant(self);
            lemma_no_bits();
            if self@ == Set::<ArchiveKind>::empty() {
                lemma_bits_of_kinds(self.bits, 0);
            }
        }
        self.bits == 0
    }

    /// Whether every kind of `other` is in the set.
    pub fn contains(&self, other: ArchiveType) -> (b: bool)
        ensures
            b <==> other@.subset_of(self@),
    {
        proof {
            use_type_invariant(self);
            use_type_invariant(other);
            lemma_subset_bits(self.bits, other.bits);
        }
        self.bits & other.bits == other.bits
    }

    /// Whether `kind` is in the set.
    pub fn has(&self, kind: ArchiveKind) -> (b: bool)
        ensures
            b <==> self@.contains(kind),
    {
        self.bits & kind.bit() != 0
    }

    /// The set of the kinds that are in either set.
    pub fn union(self, other: ArchiveType) -> (t: ArchiveType)
        ensures
            t@ == self@.union(other@),
            t.wf(),
    {
        proof {
            use_type_invariant(self);
            use_type_invariant(other);
            lemma_union_bits(self.bits, other.bits);
        }
        ArchiveType { bits: self.bits | other.bits }
    }

    /// Adds every kind of `other` to the set.
    pub fn insert(&mut self, other: ArchiveType)
        ensures
            final(self)@ == old(self)@.union(other@),
            final(self).wf(),
    {
        proof {
            use_type_invariant(&*self);
            use_type_invariant(other);
            lemma_union_bits(self.bits, other.bits);
        }
        self.bits = self.bits | other.bits;
    }
}

/// A set of kinds is its mask: two well-formed sets with the same kinds are the same value.
pub proof fn lemma_same_kinds_same_set(a: ArchiveType, b: ArchiveType)
    requires
        a.wf(),
        b.wf(),
        a@ == b@,
    ensures
        a == b,
{
    lemma_bits_of_kinds(a.bits, b.bits);
}

} // verus!
