//! How far a cached inode can be trusted and what of it is not written back.
use vstd::prelude::*;

verus! {

/// The stage that a cached inode is in.
#[derive(Clone, Copy, Debug, PartialEq, Eq, Structural)]
pub enum Lifecycle {
    /// As the backing file system reported it, until it is too old.
    Cached,
    /// Changed here; what the backing file system says does not count.
    Dirty,
    /// To be asked for again.
    Invalid,
}

/// The parts of an inode that are not written back, as bits.
#[derive(Clone, Copy, Debug, PartialEq, Eq, Structural)]
pub struct DirtyFlags {
    pub bits: u8,
}

impl DirtyFlags {
    /// File contents.
    pub const DATA: u8 = 1;

    /// File length.
    pub const SIZE: u8 = 2;

    /// Attributes.
    pub const ATTR: u8 = 4;

    /// The inode itself was made here.
    pub const NEW: u8 = 8;

    /// Whether some bit of `mask` is set.
    pub open spec fn spec_intersects(self, mask: u8) -> bool {
        self.bits & mask != 0
    }

    /// Whether every bit of `mask` is set.
    pub open spec fn spec_contains(self, mask: u8) -> bool {
        self.bits & mask == mask
    }

    /// No bit set.
    pub fn empty() -> (r: Self)
        ensures
            r == (DirtyFlags { bits: 0 }),
    {
        DirtyFlags { bits: 0 }
    }

    /// Whether some bit of `mask` is set.
    pub fn intersects(&self, mask: u8) -> (r: bool)
        ensures
            r == self.spec_intersects(mask),
    {
        self.bits & mask != 0
    }

    /// Whether every bit of `mask` is set.
    pub fn contains(&self, mask: u8) -> (r: bool)
        ensures
            r == self.spec_contains(mask),
    {
        self.bits & mask == mask
    }

    /// Sets every bit of `mask`.
    pub fn insert(&mut self, mask: u8)
        ensures
            *final(self) == old(self).with(mask),
    {
        self.bits = self.bits | mask;
    }

    /// The flags with every bit of `mask` set.
    pub open spec fn with(self, mask: u8) -> DirtyFlags {
        DirtyFlags { bits: self.bits | mask }
    }
}

/// Bits that were set are seen, and setting bits clears none.
pub proof fn law_dirty_bits_accumulate(flags: DirtyFlags, mask: u8, other: u8)
    ensures
        flags.with(mask).spec_contains(mask),
        flags.spec_contains(other) ==> flags.with(mask).spec_contains(other),
        flags.spec_intersects(other) ==> flags.with(mask).spec_intersects(other),
        mask & other == 0 ==> flags.with(mask).spec_intersects(other) == flags.spec_intersects(
            other,
        ),
{
    let bits = flags.bits;
    assert((bits | mask) & mask == mask) by (bit_vector);
    assert(bits & other == other ==> (bits | mask) & other == other) by (bit_vector);
    assert(bits & other != 0 ==> (bits | mask) & other != 0) by (bit_vector);
    assert(mask & other == 0 ==> ((bits | mask) & other != 0) == (bits & other != 0))
        by (bit_vector);
}

/// The four marks are told apart: setting one shows under its own question,
/// and under no other.
pub proof fn law_marks_are_told_apart(flags: DirtyFlags)
    ensures
        flags.with(1).bits & 1 != 0 && flags.with(1).bits & 254 == flags.bits & 254,
        flags.with(2).bits & 2 != 0 && flags.with(2).bits & 253 == flags.bits & 253,
        flags.with(4).bits & 4 != 0 && flags.with(4).bits & 251 == flags.bits & 251,
        flags.with(8).bits & 8 != 0 && flags.with(8).bits & 247 == flags.bits & 247,
        flags.spec_contains(4) <==> flags.bits & 4 != 0,
        flags.spec_contains(8) <==> flags.bits & 8 != 0,
        flags.spec_intersects(1) <==> flags.bits & 1 != 0,
        flags.spec_intersects(2) <==> flags.bits & 2 != 0,
        DirtyFlags::DATA == 1 && DirtyFlags::SIZE == 2 && DirtyFlags::ATTR == 4,
        DirtyFlags::NEW == 8,
{
    let b = flags.bits;
    assert((b | 1u8) & 1u8 != 0 && (b | 1u8) & 254u8 == b & 254u8) by (bit_vector);
    assert((b | 2u8) & 2u8 != 0 && (b | 2u8) & 253u8 == b & 253u8) by (bit_vector);
    assert((b | 4u8) & 4u8 != 0 && (b | 4u8) & 251u8 == b & 251u8) by (bit_vector);
    assert((b | 8u8) & 8u8 != 0 && (b | 8u8) & 247u8 == b & 247u8) by (bit_vector);
    assert((b & 4u8 == 4u8) == (b & 4u8 != 0)) by (bit_vector);
    assert((b & 8u8 == 8u8) == (b & 8u8 != 0)) by (bit_vector);
}

} // verus!
