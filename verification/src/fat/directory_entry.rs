//! Directory entries of a FAT file system.
use vstd::prelude::*;

verus! {

/// Size of a directory entry in bytes.
pub const DIRECTORY_ENTRY_SIZE: usize = 32;

/// First name byte of a deleted entry.
pub const DELETED_ENTRY_MARK: u8 = 0xe5;
/// First name byte of the entry that ends a directory.
pub const END_OF_DIRECTORY_MARK: u8 = 0x00;

/// Attribute bit: read only.
pub const ATTR_READ_ONLY: u8 = 0x01;
/// Attribute bit: hidden.
pub const ATTR_HIDDEN: u8 = 0x02;
/// Attribute bit: system.
pub const ATTR_SYSTEM: u8 = 0x04;
/// Attribute bit: volume label.
pub const ATTR_VOLUME_ID: u8 = 0x08;
/// Attribute bit: directory.
pub const ATTR_DIRECTORY: u8 = 0x10;
/// Attribute bit: archive.
pub const ATTR_ARCHIVE: u8 = 0x20;
/// The attributes of a long file name entry.
pub const ATTR_LFN: u8 = 0x0f;
/// Every attribute bit that has a meaning.
pub const ATTR_ALL: u8 = 0x3f;

/// A 32-byte directory entry, kept as its raw bytes.
#[derive(Debug, Clone, Copy, PartialEq, Eq)]
pub struct DirectoryEntry {
    raw: [u8; 32],
}

/// The little-endian 16-bit value at `off` in `s`.
pub open spec fn entry_le16(s: Seq<u8>, off: int) -> int {
    s[off] + 256 * s[off + 1]
}

impl DirectoryEntry {
    /// The entry's bytes.
    pub closed spec fn bytes(&self) -> Seq<u8> {
        self.raw@
    }

    /// The entry stored in `bytes` at `off`.
    pub fn from_bytes(bytes: &[u8], off: usize) -> (r: DirectoryEntry)
        requires
            off + DIRECTORY_ENTRY_SIZE <= bytes@.len(),
        ensures
            r.bytes() == bytes@.subrange(off as int, off + DIRECTORY_ENTRY_SIZE),
    {
        let raw: [u8; 32] = [bytes[off + 0], bytes[off + 1], bytes[off + 2], bytes[off + 3], bytes[off + 4], bytes[off + 5], bytes[off + 6], bytes[off + 7], bytes[off + 8], bytes[off + 9], bytes[off + 10], bytes[off + 11], bytes[off + 12], bytes[off + 13], bytes[off + 14], bytes[off + 15], bytes[off + 16], bytes[off + 17], bytes[off + 18], bytes[off + 19], bytes[off + 20], bytes[off + 21], bytes[off + 22], bytes[off + 23], bytes[off + 24], bytes[off + 25], bytes[off + 26], bytes[off + 27], bytes[off + 28], bytes[off + 29], bytes[off + 30], bytes[off + 31]];
        assert(raw@ == bytes@.subrange(off as int, off + DIRECTORY_ENTRY_SIZE));
        DirectoryEntry { raw }
    }

    /// The entry's bytes.
    pub fn as_bytes(&self) -> (r: &[u8; 32])
        ensures
            r@ == self.bytes(),
    {
        &self.raw
    }

    /// The 11-byte short name: 8 bytes of base name, 3 of extension.
    pub fn name(&self) -> (r: [u8; 11])
        ensures
            r@ == self.bytes().subrange(0, 11),
    {
        let r = [
            self.raw[0],
            self.raw[1],
            self.raw[2],
            self.raw[3],
            self.raw[4],
            self.raw[5],
            self.raw[6],
            self.raw[7],
            self.raw[8],
            self.raw[9],
            self.raw[10],
        ];
        assert(r@ == self.bytes().subrange(0, 11));
        r
    }

    /// The attribute bits that have a meaning.
    pub fn attr(&self) -> (r: u8)
        ensures
            r == self.bytes()[11] & ATTR_ALL,
    {
        self.raw[11] & ATTR_ALL
    }

    /// Byte reserved for Windows NT.
    pub fn nt_res(&self) -> (r: u8)
        ensures
            r == self.bytes()[12],
    {
        self.raw[12]
    }

    /// Tenths of a second of the creation time.
    pub fn create_time_tenth(&self) -> (r: u8)
        ensures
            r == self.bytes()[13],
    {
        self.raw[13]
    }

    fn field16(&self, off: usize) -> (r: u16)
        requires
            off + 2 <= 32,
        ensures
            r == entry_le16(self.bytes(), off as int),
    {
        self.raw[off] as u16 + (self.raw[off + 1] as u16) * 256
    }

    /// Creation time.
    pub fn create_time(&self) -> (r: u16)
        ensures
            r == entry_le16(self.bytes(), 14),
    {
        self.field16(14)
    }

    /// Creation date.
    pub fn create_date(&self) -> (r: u16)
        ensures
            r == entry_le16(self.bytes(), 16),
    {
        self.field16(16)
    }

    /// Last access date.
    pub fn last_access_date(&self) -> (r: u16)
        ensures
            r == entry_le16(self.bytes(), 18),
    {
        self.field16(18)
    }

    /// High half of the first cluster number.
    pub fn first_cluster_high(&self) -> (r: u16)
        ensures
            r == entry_le16(self.bytes(), 20),
    {
        self.field16(20)
    }

    /// Last write time.
    pub fn write_time(&self) -> (r: u16)
        ensures
            r == entry_le16(self.bytes(), 22),
    {
        self.field16(22)
    }

    /// Last write date.
    pub fn write_date(&self) -> (r: u16)
        ensures
            r == entry_le16(self.bytes(), 24),
    {
        self.field16(24)
    }

    /// Low half of the first cluster number.
    pub fn first_cluster_low(&self) -> (r: u16)
        ensures
            r == entry_le16(self.bytes(), 26),
    {
        self.field16(26)
    }

    /// Size of the file in bytes.
    pub fn file_size(&self) -> (r: u32)
        ensures
            r == entry_le16(self.bytes(), 28) + 65536 * entry_le16(self.bytes(), 30),
    {
        self.field16(28) as u32 + (self.field16(30) as u32) * 65536
    }

    /// The base name: the first 8 name bytes without trailing spaces.
    pub fn basename(&self) -> (r: &[u8])
        ensures
            trimmed(self.bytes().subrange(0, 8), 0x20, r@),
    {
        trim_trailing(&self.raw[0..8], 0x20)
    }

    /// The extension: the last 3 name bytes without trailing spaces.
    pub fn extension(&self) -> (r: &[u8])
        ensures
            trimmed(self.bytes().subrange(8, 11), 0x20, r@),
    {
        trim_trailing(&self.raw[8..11], 0x20)
    }
}

/// Whether `r` is `s` without its trailing run of `byte`.
pub open spec fn trimmed(s: Seq<u8>, byte: u8, r: Seq<u8>) -> bool {
    &&& r.len() <= s.len()
    &&& r == s.subrange(0, r.len() as int)
    &&& forall|i: int| r.len() <= i < s.len() ==> #[trigger] s[i] == byte
    &&& r.len() == 0 || r.last() != byte
}

/// `bytes` without its trailing run of `byte`.
pub fn trim_trailing(bytes: &[u8], byte: u8) -> (r: &[u8])
    ensures
        trimmed(bytes@, byte, r@),
{
    let mut n = bytes.len();
    while n > 0 && bytes[n - 1] == byte
        invariant
            n <= bytes@.len(),
            forall|i: int| n <= i < bytes@.len() ==> #[trigger] bytes@[i] == byte,
        decreases n,
    {
        n = n - 1;
    }
    let r = &bytes[0..n];
    assert(r@ == bytes@.subrange(0, n as int));
    r
}

/// Whether the entry ends its directory.
pub open spec fn is_end_entry(e: DirectoryEntry) -> bool {
    e.bytes()[0] == END_OF_DIRECTORY_MARK
}

/// Whether the entry was deleted.
pub open spec fn is_deleted_entry(e: DirectoryEntry) -> bool {
    e.bytes()[0] == DELETED_ENTRY_MARK
}

/// Whether a walk of `s` from `i` finds only deleted entries up to `t`, where
/// `s` ends or holds the end mark.
pub open spec fn walk_stops_at(s: Seq<DirectoryEntry>, i: int, t: int) -> bool {
    &&& i <= t <= s.len()
    &&& t == s.len() || is_end_entry(s[t])
    &&& forall|k: int| i <= k < t ==> #[trigger] is_deleted_entry(s[k])
}

/// Walks the entries of a directory in order: deleted entries are skipped,
/// the end mark stops the walk.
#[derive(Debug)]
pub struct DirectoryEntries {
    entries: Vec<DirectoryEntry>,
    pos: usize,
}

impl DirectoryEntries {
    /// The entries walked.
    pub closed spec fn entries(&self) -> Seq<DirectoryEntry> {
        self.entries@
    }

    /// Index of the next entry to look at.
    pub closed spec fn pos(&self) -> int {
        self.pos as int
    }

    /// Starts walking `entries`.
    pub fn new(entries: &[DirectoryEntry]) -> (r: DirectoryEntries)
        ensures
            r.entries() == entries@,
            r.pos() == 0,
    {
        let mut v: Vec<DirectoryEntry> = Vec::new();
        let mut i: usize = 0;
        while i < entries.len()
            invariant
                i <= entries@.len(),
                v@ == entries@.subrange(0, i as int),
            decreases entries@.len() - i,
        {
            v.push(entries[i]);
            i = i + 1;
        }
        assert(v@ == entries@);
        DirectoryEntries { entries: v, pos: 0 }
    }

    /// The next entry that is neither deleted nor after the end mark.
    pub fn next(&mut self) -> (r: Option<DirectoryEntry>)
        requires
            old(self).pos() <= old(self).entries().len(),
        ensures
            final(self).entries() == old(self).entries(),
            final(self).pos() <= final(self).entries().len(),
            ({
                let s = old(self).entries();
                let i = old(self).pos();
                match r {
                    Some(e) => {
                        let j = final(self).pos() - 1;
                        &&& i <= j < s.len()
                        &&& e == s[j]
                        &&& !is_end_entry(e) && !is_deleted_entry(e)
                        &&& forall|k: int| i <= k < j ==> #[trigger] is_deleted_entry(s[k])
                    },
                    None => {
                        &&& final(self).pos() == s.len()
                        &&& exists|t: int| #[trigger] walk_stops_at(s, i, t)
                    },
                }
            }),
    {
        let ghost i0 = self.pos as int;
        while self.pos < self.entries.len()
            invariant
                self.entries@ == old(self).entries(),
                i0 == old(self).pos(),
                i0 <= self.pos <= self.entries@.len(),
                forall|k: int| i0 <= k < self.pos ==> #[trigger] is_deleted_entry(self.entries@[k]),
            decreases self.entries@.len() - self.pos,
        {
            let entry = self.entries[self.pos];
            if entry.raw[0] == END_OF_DIRECTORY_MARK {
                // stop iteration
                let ghost t = self.pos as int;
                self.pos = self.entries.len();
                assert(walk_stops_at(self.entries@, i0, t));
                return None;
            }
            self.pos = self.pos + 1;
            if entry.raw[0] == DELETED_ENTRY_MARK {
                continue;
            }
            return Some(entry);
        }
        let ghost t = self.entries@.len() as int;
        assert(walk_stops_at(self.entries@, i0, t));
        None
    }
}

} // verus!
