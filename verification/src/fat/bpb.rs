//! The BIOS parameter block at the start of a FAT image, and the layout of the
//! image it describes.
use vstd::prelude::*;

verus! {

use super::directory_entry::{DirectoryEntries, DirectoryEntry, DIRECTORY_ENTRY_SIZE};
use super::fat_entry::{FatEntry, spec_from_fat12, spec_from_fat16, spec_from_fat32};

/// Size of the boot sector that holds the BIOS parameter block.
pub const BPB_SIZE: usize = 512;

/// The three FAT variants.
#[derive(Debug, Clone, Copy, PartialEq, Eq, Structural)]
pub enum FatType {
    Fat12,
    Fat16,
    Fat32,
}

/// The little-endian 16-bit value at `off` in `s`.
pub open spec fn le16(s: Seq<u8>, off: int) -> int {
    s[off] + 256 * s[off + 1]
}

/// The little-endian 32-bit value at `off` in `s`.
pub open spec fn le32(s: Seq<u8>, off: int) -> int {
    s[off] + 256 * s[off + 1] + 65536 * s[off + 2] + 16777216 * s[off + 3]
}

/// Reads the byte at `off`.
pub fn read_u8(bytes: &[u8], off: usize) -> (r: u8)
    requires
        off < bytes@.len(),
    ensures
        r == bytes@[off as int],
{
    bytes[off]
}

/// Reads the little-endian 16-bit value at `off`.
pub fn read_u16(bytes: &[u8], off: usize) -> (r: u16)
    requires
        off + 2 <= bytes@.len(),
    ensures
        r == le16(bytes@, off as int),
{
    bytes[off] as u16 + (bytes[off + 1] as u16) * 256
}

/// Reads the little-endian 32-bit value at `off`.
pub fn read_u32(bytes: &[u8], off: usize) -> (r: u32)
    requires
        off + 4 <= bytes@.len(),
    ensures
        r == le32(bytes@, off as int),
{
    bytes[off] as u32 + (bytes[off + 1] as u32) * 256 + (bytes[off + 2] as u32) * 65536 + (
    bytes[off + 3] as u32) * 16777216
}

/// Bytes per sector.
pub open spec fn spec_bytes_per_sector(s: Seq<u8>) -> int {
    le16(s, 11)
}

/// Sectors per cluster.
pub open spec fn spec_sectors_per_cluster(s: Seq<u8>) -> int {
    s[13] as int
}

/// Sectors before the first FAT.
pub open spec fn spec_reserved_sector_count(s: Seq<u8>) -> int {
    le16(s, 14)
}

/// Number of FATs.
pub open spec fn spec_num_fats(s: Seq<u8>) -> int {
    s[16] as int
}

/// Number of root directory entries (FAT12/16).
pub open spec fn spec_root_entry_count(s: Seq<u8>) -> int {
    le16(s, 17)
}

/// Total sectors: the 16-bit count unless it is zero, then the 32-bit count.
pub open spec fn spec_total_sectors(s: Seq<u8>) -> int {
    if le16(s, 19) != 0 {
        le16(s, 19)
    } else {
        le32(s, 32)
    }
}

/// Sectors per FAT: the 16-bit count unless it is zero, then the 32-bit count.
pub open spec fn spec_fat_size_any(s: Seq<u8>) -> int {
    if le16(s, 22) != 0 {
        le16(s, 22)
    } else {
        le32(s, 36)
    }
}

/// Sectors the root directory of a FAT12/16 volume takes.
pub open spec fn spec_root_dir_sectors(s: Seq<u8>) -> int {
    (spec_root_entry_count(s) * 32 + spec_bytes_per_sector(s) - 1) / spec_bytes_per_sector(s)
}

/// Number of data clusters the volume has, by the FAT specification.
pub open spec fn spec_count_of_clusters(s: Seq<u8>) -> int {
    (spec_total_sectors(s) - (spec_reserved_sector_count(s) + spec_num_fats(s) * spec_fat_size_any(
        s,
    ) + spec_root_dir_sectors(s))) / spec_sectors_per_cluster(s)
}

/// The FAT variant, which the number of clusters alone decides.
pub open spec fn spec_fat_type(s: Seq<u8>) -> FatType {
    if spec_count_of_clusters(s) < 4085 {
        FatType::Fat12
    } else if spec_count_of_clusters(s) < 65525 {
        FatType::Fat16
    } else {
        FatType::Fat32
    }
}

/// The variant follows the count of data clusters as the FAT specification
/// sets it: up to 4084 clusters is FAT12, 4085 to 65524 is FAT16, and 65525
/// or more is FAT32; more clusters never give a smaller variant.
pub proof fn law_fat_type_by_cluster_count(s: Seq<u8>, t: Seq<u8>)
    ensures
        spec_fat_type(s) == FatType::Fat12 <==> spec_count_of_clusters(s) <= 4084,
        spec_fat_type(s) == FatType::Fat16 <==> 4085 <= spec_count_of_clusters(s) <= 65524,
        spec_fat_type(s) == FatType::Fat32 <==> 65525 <= spec_count_of_clusters(s),
        spec_count_of_clusters(s) <= spec_count_of_clusters(t) && spec_fat_type(t) == FatType::Fat12
            ==> spec_fat_type(s) == FatType::Fat12,
        spec_count_of_clusters(s) <= spec_count_of_clusters(t) && spec_fat_type(s) == FatType::Fat32
            ==> spec_fat_type(t) == FatType::Fat32,
{
}

/// Whether the boot sector's counts allow telling the FAT variant: a whole
/// boot sector, non-zero sector and cluster sizes, and no more metadata
/// sectors than sectors.
pub open spec fn detectable(s: Seq<u8>) -> bool {
    &&& s.len() >= BPB_SIZE
    &&& spec_bytes_per_sector(s) != 0
    &&& spec_sectors_per_cluster(s) != 0
    &&& spec_reserved_sector_count(s) + spec_num_fats(s) * spec_fat_size_any(s)
        + spec_root_dir_sectors(s) <= spec_total_sectors(s)
}

/// Whether the FAT variant of the image can be told (see `detectable`).
pub fn is_detectable(fs: &[u8]) -> (r: bool)
    ensures
        r == detectable(fs@),
{
    if fs.len() < BPB_SIZE {
        return false;
    }
    let root_entry_count = read_u16(fs, 17) as u64;
    let bytes_per_sector = read_u16(fs, 11) as u64;
    let sector_per_cluster = read_u8(fs, 13) as u64;
    if bytes_per_sector == 0 || sector_per_cluster == 0 {
        return false;
    }
    let root_dir_sectors = (root_entry_count * 32 + bytes_per_sector - 1) / bytes_per_sector;
    let fat_size_16 = read_u16(fs, 22);
    let fat_size = if fat_size_16 != 0 {
        fat_size_16 as u64
    } else {
        read_u32(fs, 36) as u64
    };
    let total_sectors_16 = read_u16(fs, 19);
    let total_sectors = if total_sectors_16 != 0 {
        total_sectors_16 as u64
    } else {
        read_u32(fs, 32) as u64
    };
    let reserved_sector_count = read_u16(fs, 14) as u64;
    let num_fats = read_u8(fs, 16) as u64;
    proof {
        assert(num_fats * fat_size <= 255 * 0xffff_ffff) by (nonlinear_arith)
            requires
                num_fats <= 255,
                fat_size <= 0xffff_ffff,
        ;
        assert(root_dir_sectors <= root_entry_count * 32 + bytes_per_sector) by (nonlinear_arith)
            requires
                bytes_per_sector >= 1,
                root_dir_sectors == (root_entry_count * 32 + bytes_per_sector - 1) / (bytes_per_sector as int),
        ;
    }
    reserved_sector_count + num_fats * fat_size + root_dir_sectors <= total_sectors
}

/// Tells the FAT variant of the image from its count of clusters.
pub fn detect_fat_type(fs: &[u8]) -> (r: FatType)
    requires
        detectable(fs@),
    ensures
        r == spec_fat_type(fs@),
{
    let root_entry_count = read_u16(fs, 17) as u64;
    let bytes_per_sector = read_u16(fs, 11) as u64;
    let sector_per_cluster = read_u8(fs, 13) as u64;

    // 32 : size of DirectoryEntry
    let root_dir_sectors = (root_entry_count * 32 + bytes_per_sector - 1) / bytes_per_sector;
    let fat_size_16 = read_u16(fs, 22);
    let fat_size = if fat_size_16 != 0 {
        fat_size_16 as u64
    } else {
        read_u32(fs, 36) as u64
    };
    let total_sectors_16 = read_u16(fs, 19);
    let total_sectors = if total_sectors_16 != 0 {
        total_sectors_16 as u64
    } else {
        read_u32(fs, 32) as u64
    };
    let reserved_sector_count = read_u16(fs, 14) as u64;
    let num_fats = read_u8(fs, 16) as u64;
    proof {
        assert(num_fats * fat_size <= 255 * 0xffff_ffff) by (nonlinear_arith)
            requires
                num_fats <= 255,
                fat_size <= 0xffff_ffff,
        ;
        assert(root_dir_sectors <= root_entry_count * 32 + bytes_per_sector) by (nonlinear_arith)
            requires
                bytes_per_sector >= 1,
                root_dir_sectors == (root_entry_count * 32 + bytes_per_sector - 1) / (bytes_per_sector as int),
        ;
    }
    let data_sectors = total_sectors - (reserved_sector_count + num_fats * fat_size
        + root_dir_sectors);
    let count_of_clusters = data_sectors / sector_per_cluster;
    if count_of_clusters < 4085 {
        FatType::Fat12
    } else if count_of_clusters < 65525 {
        FatType::Fat16
    } else {
        FatType::Fat32
    }
}

/// Sectors per FAT of a volume of type `t`.
pub open spec fn spec_fat_size(s: Seq<u8>, t: FatType) -> int {
    if t == FatType::Fat32 {
        le32(s, 36)
    } else {
        le16(s, 22)
    }
}

/// First sector of the root directory of a FAT12/16 volume.
pub open spec fn spec_root_dir_start(s: Seq<u8>, t: FatType) -> int {
    spec_reserved_sector_count(s) + spec_num_fats(s) * spec_fat_size(s, t)
}

/// First sector of the data area.
pub open spec fn spec_data_start(s: Seq<u8>, t: FatType) -> int {
    spec_root_dir_start(s, t) + spec_root_dir_sectors(s)
}

/// First sector of cluster `c`.
pub open spec fn spec_cluster_sector(s: Seq<u8>, t: FatType, c: int) -> int {
    spec_data_start(s, t) + (c - 2) * spec_sectors_per_cluster(s)
}

/// Byte offset in the image of the FAT entry of cluster `c`.
pub open spec fn spec_fat_entry_offset(s: Seq<u8>, t: FatType, c: int) -> int {
    let base = spec_reserved_sector_count(s) * spec_bytes_per_sector(s);
    match t {
        FatType::Fat12 => base + c + c / 2,
        FatType::Fat16 => base + 2 * c,
        FatType::Fat32 => base + 4 * c,
    }
}

/// The FAT entry of cluster `c`; an entry that lies outside the image counts
/// as bad.
pub open spec fn spec_fat_entry(s: Seq<u8>, t: FatType, c: u32) -> FatEntry {
    let off = spec_fat_entry_offset(s, t, c as int);
    match t {
        FatType::Fat12 => if off + 2 > s.len() {
            FatEntry::Bad
        } else {
            let v = le16(s, off) as u16;
            spec_from_fat12(
                if c % 2 == 1 {
                    v >> 4u16
                } else {
                    v & 0x0fffu16
                },
            )
        },
        FatType::Fat16 => if off + 2 > s.len() {
            FatEntry::Bad
        } else {
            spec_from_fat16(le16(s, off) as u16)
        },
        FatType::Fat32 => if off + 4 > s.len() {
            FatEntry::Bad
        } else {
            spec_from_fat32((le32(s, off) as u32) & 0x0fff_ffffu32)
        },
    }
}

/// Whether the `count` directory entries at byte `off` lie in the image.
pub open spec fn entries_in_image(s: Seq<u8>, off: int, count: int) -> bool {
    0 <= off && 0 <= count && off + count * 32 <= s.len()
}

/// Whether `entries` are the `count` directory entries at byte `off` of `s`.
pub open spec fn entries_at(entries: Seq<DirectoryEntry>, s: Seq<u8>, off: int, count: int) -> bool {
    &&& entries.len() == count
    &&& forall|k: int|
        0 <= k < count ==> (#[trigger] entries[k]).bytes() == s.subrange(
            off + k * 32,
            off + k * 32 + 32,
        )
}

/// Reads the `count` directory entries at byte `off`.
pub fn read_entries(fs: &[u8], off: usize, count: usize) -> (r: Vec<DirectoryEntry>)
    requires
        entries_in_image(fs@, off as int, count as int),
    ensures
        entries_at(r@, fs@, off as int, count as int),
{
    let mut v: Vec<DirectoryEntry> = Vec::new();
    let mut k: usize = 0;
    let len = fs.len();
    while k < count
        invariant
            k <= count,
            len == fs@.len(),
            entries_in_image(fs@, off as int, count as int),
            entries_at(v@, fs@, off as int, k as int),
        decreases count - k,
    {
        proof {
            assert(off + k * 32 + 32 <= off + count * 32) by (nonlinear_arith)
                requires
                    k < count,
            ;
        }
        let e = DirectoryEntry::from_bytes(fs, off + k * DIRECTORY_ENTRY_SIZE);
        v.push(e);
        k = k + 1;
    }
    v
}

/// First sector of the root directory.
pub open spec fn spec_root_dir_sector(s: Seq<u8>, t: FatType) -> int {
    if t == FatType::Fat32 {
        spec_cluster_sector(s, t, le32(s, 44))
    } else {
        spec_root_dir_start(s, t)
    }
}

/// Number of entries of the root directory (one cluster on FAT32).
pub open spec fn spec_root_dir_count(s: Seq<u8>, t: FatType) -> int {
    if t == FatType::Fat32 {
        spec_bytes_per_sector(s) * spec_sectors_per_cluster(s) / 32
    } else {
        spec_root_entry_count(s)
    }
}

/// Whether the root directory can be read: its sector lies in the volume and
/// its entries in the image.
pub open spec fn root_dir_readable(s: Seq<u8>, t: FatType) -> bool {
    &&& s.len() >= BPB_SIZE
    &&& spec_bytes_per_sector(s) != 0
    &&& spec_root_dir_start(s, t) <= u32::MAX
    &&& t == FatType::Fat32 ==> {
        &&& le32(s, 44) >= 2
        &&& spec_data_start(s, t) <= u32::MAX
        &&& spec_cluster_sector(s, t, le32(s, 44)) <= u32::MAX
    }
    &&& spec_root_dir_sector(s, t) < spec_total_sectors(s)
    &&& spec_root_dir_sector(s, t) * spec_bytes_per_sector(s) <= usize::MAX
    &&& entries_in_image(
        s,
        spec_root_dir_sector(s, t) * spec_bytes_per_sector(s),
        spec_root_dir_count(s, t),
    )
}

/// A FAT image seen through its BIOS parameter block.
#[derive(Debug, Clone, Copy)]
pub struct BiosParameterBlock<'a> {
    fs: &'a [u8],
    fat_type: FatType,
}

/// Reads the BIOS parameter block of the image `fs` and tells its FAT type.
pub fn get<'a>(fs: &'a [u8]) -> (r: BiosParameterBlock<'a>)
    requires
        detectable(fs@),
    ensures
        r.image() == fs@,
        r.spec_fat_type() == spec_fat_type(fs@),
        r.wf(),
{
    let fat_type = detect_fat_type(fs);
    BiosParameterBlock { fs, fat_type }
}

impl<'a> BiosParameterBlock<'a> {
    /// The image.
    pub closed spec fn image(&self) -> Seq<u8> {
        self.fs@
    }

    /// The FAT type.
    pub closed spec fn spec_fat_type(&self) -> FatType {
        self.fat_type
    }

    /// A whole boot sector is there.
    pub open spec fn wf(&self) -> bool {
        self.image().len() >= BPB_SIZE
    }

    /// The image.
    pub fn image_bytes(&self) -> (r: &'a [u8])
        ensures
            r@ == self.image(),
    {
        self.fs
    }

    /// The FAT type.
    pub fn fat_type(&self) -> (r: FatType)
        ensures
            r == self.spec_fat_type(),
    {
        self.fat_type
    }

    /// Bytes per sector.
    pub fn bytes_per_sector(&self) -> (r: u16)
        requires
            self.wf(),
        ensures
            r == spec_bytes_per_sector(self.image()),
    {
        read_u16(self.fs, 11)
    }

    /// Sectors per cluster.
    pub fn sectors_per_cluster(&self) -> (r: u8)
        requires
            self.wf(),
        ensures
            r == spec_sectors_per_cluster(self.image()),
    {
        read_u8(self.fs, 13)
    }

    /// Sectors before the first FAT.
    pub fn reserved_sector_count(&self) -> (r: u16)
        requires
            self.wf(),
        ensures
            r == spec_reserved_sector_count(self.image()),
    {
        read_u16(self.fs, 14)
    }

    /// Number of FATs.
    pub fn num_fats(&self) -> (r: u8)
        requires
            self.wf(),
        ensures
            r == spec_num_fats(self.image()),
    {
        read_u8(self.fs, 16)
    }

    /// Number of root directory entries (FAT12/16).
    pub fn root_entry_count(&self) -> (r: u16)
        requires
            self.wf(),
        ensures
            r == spec_root_entry_count(self.image()),
    {
        read_u16(self.fs, 17)
    }

    /// Media descriptor.
    pub fn media(&self) -> (r: u8)
        requires
            self.wf(),
        ensures
            r == self.image()[21],
    {
        read_u8(self.fs, 21)
    }

    /// Sectors before the volume.
    pub fn hidden_sectors(&self) -> (r: u32)
        requires
            self.wf(),
        ensures
            r == le32(self.image(), 28),
    {
        read_u32(self.fs, 28)
    }

    /// First cluster of the root directory (FAT32).
    pub fn root_cluster(&self) -> (r: u32)
        requires
            self.wf(),
        ensures
            r == le32(self.image(), 44),
    {
        read_u32(self.fs, 44)
    }

    /// Boot sector signature.
    pub fn boot_sign(&self) -> (r: u16)
        requires
            self.wf(),
        ensures
            r == le16(self.image(), 510),
    {
        read_u16(self.fs, 510)
    }

    /// Total sectors of the volume.
    pub fn total_sectors(&self) -> (r: u32)
        requires
            self.wf(),
        ensures
            r == spec_total_sectors(self.image()),
    {
        let total_sectors_16 = read_u16(self.fs, 19);
        if total_sectors_16 != 0 {
            total_sectors_16 as u32
        } else {
            read_u32(self.fs, 32)
        }
    }

    /// Sectors per FAT.
    pub fn fat_size(&self) -> (r: u32)
        requires
            self.wf(),
        ensures
            r == spec_fat_size(self.image(), self.spec_fat_type()),
    {
        match self.fat_type {
            FatType::Fat32 => read_u32(self.fs, 36),
            _ => read_u16(self.fs, 22) as u32,
        }
    }

    /// First sector of the first FAT.
    pub fn fat_start_sector(&self) -> (r: u32)
        requires
            self.wf(),
        ensures
            r == spec_reserved_sector_count(self.image()),
    {
        self.reserved_sector_count() as u32
    }

    /// First sector of the root directory of a FAT12/16 volume.
    pub fn root_dir_start_sector_16(&self) -> (r: u32)
        requires
            self.wf(),
            spec_root_dir_start(self.image(), self.spec_fat_type()) <= u32::MAX,
        ensures
            r == spec_root_dir_start(self.image(), self.spec_fat_type()),
    {
        let num_fats = self.num_fats() as u32;
        let fat_size = self.fat_size();
        proof {
            assert(0 <= num_fats * fat_size <= spec_root_dir_start(self.image(), self.spec_fat_type()))
                by (nonlinear_arith)
                requires
                    num_fats * fat_size + spec_reserved_sector_count(self.image())
                        == spec_root_dir_start(self.image(), self.spec_fat_type()),
                    spec_reserved_sector_count(self.image()) >= 0,
            ;
        }
        let fat_sectors = num_fats * fat_size;
        self.fat_start_sector() + fat_sectors
    }

    /// First sector of the data area.
    pub fn data_start_sector(&self) -> (r: u32)
        requires
            self.wf(),
            spec_bytes_per_sector(self.image()) != 0,
            spec_data_start(self.image(), self.spec_fat_type()) <= u32::MAX,
        ensures
            r == spec_data_start(self.image(), self.spec_fat_type()),
    {
        let root_entry_count = self.root_entry_count() as u32;
        let bytes_per_sector = self.bytes_per_sector() as u32;
        let root_dir_sectors = (32 * root_entry_count + bytes_per_sector - 1) / bytes_per_sector;
        proof {
            assert(root_dir_sectors >= 0);
        }
        self.root_dir_start_sector_16() + root_dir_sectors
    }

    /// First sector of cluster `cluster`.
    pub fn cluster_sector(&self, cluster: u32) -> (r: u32)
        requires
            self.wf(),
            cluster >= 2,
            spec_bytes_per_sector(self.image()) != 0,
            spec_data_start(self.image(), self.spec_fat_type()) <= u32::MAX,
            spec_cluster_sector(self.image(), self.spec_fat_type(), cluster as int) <= u32::MAX,
        ensures
            r == spec_cluster_sector(self.image(), self.spec_fat_type(), cluster as int),
    {
        let sectors_per_cluster = self.sectors_per_cluster() as u32;
        let d = self.data_start_sector();
        proof {
            assert(0 <= (cluster - 2) * sectors_per_cluster) by (nonlinear_arith)
                requires
                    cluster >= 2,
            ;
        }
        d + (cluster - 2) * sectors_per_cluster
    }

    /// Byte offset of sector `sector` in the image.
    pub fn sector_offset(&self, sector: u32) -> (r: u64)
        requires
            self.wf(),
        ensures
            r == sector * spec_bytes_per_sector(self.image()),
    {
        let sector = sector as u64;
        let bytes_per_sector = self.bytes_per_sector() as u64;
        proof {
            assert(sector * bytes_per_sector <= 0xffff_ffff * 0xffff) by (nonlinear_arith)
                requires
                    sector <= 0xffff_ffff,
                    bytes_per_sector <= 0xffff,
            ;
        }
        sector * bytes_per_sector
    }

    /// Byte offset of sector `sector`, which lies in the volume.
    pub fn sector_ptr(&self, sector: u32) -> (r: usize)
        requires
            self.wf(),
            sector < spec_total_sectors(self.image()),
            sector * spec_bytes_per_sector(self.image()) <= usize::MAX,
        ensures
            r == sector * spec_bytes_per_sector(self.image()),
    {
        let bytes_per_sector = self.bytes_per_sector() as usize;
        let sector = sector as usize;
        sector * bytes_per_sector
    }

    /// The entries of the root directory.
    pub fn root_dir_entries(&self) -> (r: DirectoryEntries)
        requires
            root_dir_readable(self.image(), self.spec_fat_type()),
        ensures
            r.pos() == 0,
            entries_at(
                r.entries(),
                self.image(),
                spec_root_dir_sector(self.image(), self.spec_fat_type()) * spec_bytes_per_sector(
                    self.image(),
                ),
                spec_root_dir_count(self.image(), self.spec_fat_type()),
            ),
    {
        let (sector, count) = match self.fat_type {
            FatType::Fat32 => {
                let bytes_per_sector = self.bytes_per_sector() as usize;
                let sectors_per_cluster = self.sectors_per_cluster() as usize;
                proof {
                    assert(bytes_per_sector * sectors_per_cluster <= 0xffff * 0xff) by (nonlinear_arith)
                        requires
                            bytes_per_sector <= 0xffff,
                            sectors_per_cluster <= 0xff,
                    ;
                }
                let root_dir_cluster = self.root_cluster();
                let sector = self.cluster_sector(root_dir_cluster);
                (sector, bytes_per_sector * sectors_per_cluster / DIRECTORY_ENTRY_SIZE)
            },
            _ => (self.root_dir_start_sector_16(), self.root_entry_count() as usize),
        };
        let off = self.sector_ptr(sector);
        let entries = read_entries(self.fs, off, count);
        DirectoryEntries::new(entries.as_slice())
    }

    /// The FAT entry of cluster `cluster` (in the first FAT); an entry that
    /// lies outside the image counts as bad.
    pub fn fat_entry(&self, cluster: u32) -> (r: FatEntry)
        requires
            self.wf(),
        ensures
            r == spec_fat_entry(self.image(), self.spec_fat_type(), cluster),
    {
        let reserved = self.reserved_sector_count() as u64;
        let bytes_per_sector = self.bytes_per_sector() as u64;
        proof {
            assert(reserved * bytes_per_sector <= 0xffff * 0xffff) by (nonlinear_arith)
                requires
                    reserved <= 0xffff,
                    bytes_per_sector <= 0xffff,
            ;
        }
        let base = reserved * bytes_per_sector;
        let len = self.fs.len() as u64;
        match self.fat_type {
            FatType::Fat12 => {
                let off = base + cluster as u64 + (cluster / 2) as u64;
                if off + 2 > len {
                    return FatEntry::Bad;
                }
                let v = read_u16(self.fs, off as usize);
                let v = if cluster % 2 == 1 {
                    v >> 4u16
                } else {
                    v & 0x0fffu16
                };
                FatEntry::from_fat12(v)
            },
            FatType::Fat16 => {
                let off = base + 2 * cluster as u64;
                if off + 2 > len {
                    return FatEntry::Bad;
                }
                FatEntry::from_fat16(read_u16(self.fs, off as usize))
            },
            FatType::Fat32 => {
                let off = base + 4 * cluster as u64;
                if off + 4 > len {
                    return FatEntry::Bad;
                }
                FatEntry::from_fat32(read_u32(self.fs, off as usize) & 0x0fff_ffffu32)
            },
        }
    }
}

} // verus!
