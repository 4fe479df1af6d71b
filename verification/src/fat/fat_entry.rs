//! Entries of the file allocation table.
use vstd::prelude::*;

verus! {

/// What a FAT entry says about a cluster.
#[derive(Debug, Clone, Copy, PartialEq, Eq, Structural)]
pub enum FatEntry {
    /// The cluster is free.
    Unused,
    /// The cluster is reserved.
    Reserved,
    /// The cluster is used; the chain continues at the given cluster.
    Used(u32),
    /// The cluster is used and ends its chain (the raw value is kept).
    UsedEof(u32),
    /// The cluster is bad.
    Bad,
}

/// The meaning of a 12-bit FAT entry.
pub open spec fn spec_from_fat12(value: u16) -> FatEntry {
    if value == 0x000 {
        FatEntry::Unused
    } else if value == 0x001 {
        FatEntry::Reserved
    } else if value <= 0xff6 {
        FatEntry::Used(value as u32)
    } else if value == 0xff7 {
        FatEntry::Bad
    } else if value <= 0xfff {
        FatEntry::UsedEof(value as u32)
    } else {
        FatEntry::Bad
    }
}

/// The meaning of a 16-bit FAT entry.
pub open spec fn spec_from_fat16(value: u16) -> FatEntry {
    if value == 0x0000 {
        FatEntry::Unused
    } else if value == 0x0001 {
        FatEntry::Reserved
    } else if value <= 0xfff6 {
        FatEntry::Used(value as u32)
    } else if value == 0xfff7 {
        FatEntry::Bad
    } else {
        FatEntry::UsedEof(value as u32)
    }
}

/// The meaning of a 32-bit FAT entry.
pub open spec fn spec_from_fat32(value: u32) -> FatEntry {
    if value == 0x0000_0000 {
        FatEntry::Unused
    } else if value == 0x0000_0001 {
        FatEntry::Reserved
    } else if value <= 0x0fff_fff6 {
        FatEntry::Used(value)
    } else if value == 0x0fff_fff7 {
        FatEntry::Bad
    } else if value <= 0x0fff_ffff {
        FatEntry::UsedEof(value)
    } else {
        FatEntry::Bad
    }
}

impl FatEntry {
    /// Decodes a 12-bit FAT entry.
    pub fn from_fat12(value: u16) -> (r: FatEntry)
        ensures
            r == spec_from_fat12(value),
    {
        if value == 0x000 {
            FatEntry::Unused
        } else if value == 0x001 {
            FatEntry::Reserved
        } else if value <= 0xff6 {
            FatEntry::Used(value as u32)
        } else if value == 0xff7 {
            FatEntry::Bad
        } else if value <= 0xfff {
            FatEntry::UsedEof(value as u32)
        } else {
            FatEntry::Bad
        }
    }

    /// Decodes a 16-bit FAT entry.
    pub fn from_fat16(value: u16) -> (r: FatEntry)
        ensures
            r == spec_from_fat16(value),
    {
        if value == 0x0000 {
            FatEntry::Unused
        } else if value == 0x0001 {
            FatEntry::Reserved
        } else if value <= 0xfff6 {
            FatEntry::Used(value as u32)
        } else if value == 0xfff7 {
            FatEntry::Bad
        } else {
            FatEntry::UsedEof(value as u32)
        }
    }

    /// Decodes a 32-bit FAT entry.
    pub fn from_fat32(value: u32) -> (r: FatEntry)
        ensures
            r == spec_from_fat32(value),
    {
        if value == 0x0000_0000 {
            FatEntry::Unused
        } else if value == 0x0000_0001 {
            FatEntry::Reserved
        } else if value <= 0x0fff_fff6 {
            FatEntry::Used(value)
        } else if value == 0x0fff_fff7 {
            FatEntry::Bad
        } else if value <= 0x0fff_ffff {
            FatEntry::UsedEof(value)
        } else {
            FatEntry::Bad
        }
    }
}

} // verus!
