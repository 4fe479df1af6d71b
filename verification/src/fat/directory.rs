//! Directories: the root directory and directories stored in cluster chains.
use vstd::prelude::*;

verus! {

use super::bpb::{
    BiosParameterBlock,
    FatType,
    entries_at,
    entries_in_image,
    le32,
    spec_fat_size,
    spec_num_fats,
    spec_root_dir_start,
    spec_root_entry_count,
    spec_bytes_per_sector,
    spec_cluster_sector,
    spec_data_start,
    spec_sectors_per_cluster,
    spec_total_sectors,
    read_entries,
};
use super::cluster_chain::ClusterChain;
use super::directory_entry::{
    ATTR_LFN,
    DELETED_ENTRY_MARK,
    DIRECTORY_ENTRY_SIZE,
    DirectoryEntry,
    END_OF_DIRECTORY_MARK,
    is_deleted_entry,
    is_end_entry,
};
use super::fat_entry::FatEntry;

/// Number of clusters a directory walk follows at most: more than any FAT
/// volume has, so only a chain that loops reaches it.
pub const MAX_CHAIN_CLUSTERS: u64 = 0x1_0000_0000;

/// Whether the entry holds part of a long file name.
pub open spec fn is_lfn_entry(e: DirectoryEntry) -> bool {
    e.bytes()[11] & 0x3f == ATTR_LFN
}

/// Whether a walk shows the entry: it is neither deleted nor a long name part.
pub open spec fn is_listed_entry(e: DirectoryEntry) -> bool {
    !is_end_entry(e) && !is_deleted_entry(e) && !is_lfn_entry(e)
}

/// Whether a walk passes over the entry: a deleted or long name entry.
pub open spec fn is_skipped_entry(e: DirectoryEntry) -> bool {
    !is_end_entry(e) && !is_listed_entry(e)
}

/// Whether a walk of `s` from `i` passes over every entry up to `t`, where `s`
/// ends or holds the end mark.
pub open spec fn dir_walk_stops_at(s: Seq<DirectoryEntry>, i: int, t: int) -> bool {
    &&& i <= t <= s.len()
    &&& t == s.len() || is_end_entry(s[t])
    &&& forall|k: int| i <= k < t ==> #[trigger] is_skipped_entry(s[k])
}

/// Number of directory entries in one cluster (a partial last one counts).
pub open spec fn spec_cluster_entry_count(s: Seq<u8>) -> int {
    (spec_sectors_per_cluster(s) * spec_bytes_per_sector(s) + 31) / 32
}

/// Whether the entries of cluster `c` can be read: the cluster exists, its
/// sector lies in the volume and its entries in the image.
pub open spec fn cluster_readable(bpb: BiosParameterBlock, c: u32) -> bool {
    let s = bpb.image();
    let t = bpb.spec_fat_type();
    &&& bpb.wf()
    &&& c >= 2
    &&& spec_bytes_per_sector(s) != 0
    &&& spec_data_start(s, t) <= u32::MAX
    &&& spec_cluster_sector(s, t, c as int) <= u32::MAX
    &&& spec_cluster_sector(s, t, c as int) < spec_total_sectors(s)
    &&& spec_cluster_sector(s, t, c as int) * spec_bytes_per_sector(s) <= usize::MAX
    &&& entries_in_image(
        s,
        spec_cluster_sector(s, t, c as int) * spec_bytes_per_sector(s),
        spec_cluster_entry_count(s),
    )
}

/// The bytes of the directory entries of cluster `c`, in order; `None` when
/// they cannot be read.
pub open spec fn cluster_entry_bytes(bpb: BiosParameterBlock, c: u32) -> Option<Seq<Seq<u8>>> {
    if cluster_readable(bpb, c) {
        let s = bpb.image();
        let off = spec_cluster_sector(s, bpb.spec_fat_type(), c as int) * spec_bytes_per_sector(s);
        Some(
            Seq::new(
                spec_cluster_entry_count(s) as nat,
                |k: int| s.subrange(off + k * 32, off + k * 32 + 32),
            ),
        )
    } else {
        None
    }
}

/// The bytes of each entry.
pub open spec fn entry_bytes(es: Seq<DirectoryEntry>) -> Seq<Seq<u8>> {
    es.map_values(|e: DirectoryEntry| e.bytes())
}

/// The entries of cluster `cluster`, or `None` when they cannot be read.
pub fn read_cluster_entries(bpb: &BiosParameterBlock, cluster: u32) -> (r: Option<
    Vec<DirectoryEntry>,
>)
    requires
        bpb.wf(),
    ensures
        match cluster_entry_bytes(*bpb, cluster) {
            Some(bs) => r matches Some(v) && entry_bytes(v@) == bs,
            None => r is None,
        },
        match r {
            Some(v) => cluster_readable(*bpb, cluster) && entries_at(
                v@,
                bpb.image(),
                spec_cluster_sector(bpb.image(), bpb.spec_fat_type(), cluster as int)
                    * spec_bytes_per_sector(bpb.image()),
                spec_cluster_entry_count(bpb.image()),
            ),
            None => !cluster_readable(*bpb, cluster),
        },
{
    let bytes_per_sector = bpb.bytes_per_sector() as u64;
    let sectors_per_cluster = bpb.sectors_per_cluster() as u64;
    if cluster < 2 || bytes_per_sector == 0 {
        return None;
    }
    let reserved = bpb.reserved_sector_count() as u64;
    let num_fats = bpb.num_fats() as u64;
    let fat_size = bpb.fat_size() as u64;
    let root_entry_count = bpb.root_entry_count() as u64;
    proof {
        assert(num_fats * fat_size <= 255 * 0xffff_ffff) by (nonlinear_arith)
            requires
                num_fats <= 255,
                fat_size <= 0xffff_ffff,
        ;
        assert((cluster - 2) * sectors_per_cluster <= 0xffff_ffff * 255) by (nonlinear_arith)
            requires
                cluster <= 0xffff_ffff,
                cluster >= 2,
                sectors_per_cluster <= 255,
        ;
    }
    let root_dir_sectors = (32 * root_entry_count + bytes_per_sector - 1) / bytes_per_sector;
    let data_start = reserved + num_fats * fat_size + root_dir_sectors;
    if data_start > 0xffff_ffff {
        return None;
    }
    let sector = data_start + (cluster as u64 - 2) * sectors_per_cluster;
    if sector > 0xffff_ffff || sector >= bpb.total_sectors() as u64 {
        return None;
    }
    proof {
        assert(sector * bytes_per_sector <= 0xffff_ffff * 0xffff) by (nonlinear_arith)
            requires
                sector <= 0xffff_ffff,
                bytes_per_sector <= 0xffff,
        ;
        assert(sectors_per_cluster * bytes_per_sector <= 255 * 0xffff) by (nonlinear_arith)
            requires
                sectors_per_cluster <= 255,
                bytes_per_sector <= 0xffff,
        ;
    }
    let offset = sector * bytes_per_sector;
    let count = (sectors_per_cluster * bytes_per_sector + 31) / 32;
    let len = bpb.image_bytes().len() as u64;
    if offset > len || count * 32 > len - offset {
        return None;
    }
    let sector = bpb.cluster_sector(cluster);
    let off = bpb.sector_ptr(sector);
    let v = read_entries(bpb.image_bytes(), off, count as usize);
    proof {
        let s = bpb.image();
        assert(entry_bytes(v@) =~= Seq::new(
            spec_cluster_entry_count(s) as nat,
            |k: int| s.subrange(off + k * 32, off + k * 32 + 32),
        ));
    }
    Some(v)
}

/// A directory: the fixed root directory of FAT12/16, or a directory stored
/// in a cluster chain.
#[derive(Debug)]
pub enum Directory<'a> {
    RootDir(Vec<DirectoryEntry>),
    ClusterChain(ClusterChain<'a>),
}

impl<'a> Directory<'a> {
    /// A directory in a cluster chain reads a well-formed volume.
    pub open spec fn wf(&self) -> bool {
        match self {
            Directory::RootDir(_) => true,
            Directory::ClusterChain(c) => c.spec_bpb().wf(),
        }
    }

    /// The fixed root directory with the given entries.
    pub fn new_root_dir(sectors: &[DirectoryEntry]) -> (r: Directory<'a>)
        ensures
            r matches Directory::RootDir(v) && v@ == sectors@,
    {
        let mut v: Vec<DirectoryEntry> = Vec::new();
        let mut i: usize = 0;
        while i < sectors.len()
            invariant
                i <= sectors@.len(),
                v@ == sectors@.subrange(0, i as int),
            decreases sectors@.len() - i,
        {
            v.push(sectors[i]);
            i = i + 1;
        }
        assert(v@ == sectors@);
        Directory::RootDir(v)
    }

    /// The directory stored in the cluster chain `chain`.
    pub fn new_cluster_chain(chain: ClusterChain<'a>) -> (r: Directory<'a>)
        ensures
            r == Directory::ClusterChain(chain),
    {
        Directory::ClusterChain(chain)
    }

    /// Starts walking the directory's entries.
    pub fn entries(&self) -> (r: DirectoryEntries<'a>)
        ensures
            r.walk() == walk_start(self),
            r.pos() == 0,
            self.wf() ==> r.wf(),
            match self {
                Directory::RootDir(v) => r.entries() == v@ && r.chain() is None,
                Directory::ClusterChain(c) => r.entries().len() == 0 && r.chain() == Some(*c),
            },
    {
        match self {
            Directory::RootDir(entries) => {
                let copy = entries.clone();
                assert(copy@ =~= entries@);
                assert(entry_bytes(copy@) == entry_bytes(entries@));
                DirectoryEntries { entries: copy, pos: 0, chain: None, clusters_left: MAX_CHAIN_CLUSTERS }
            },
            Directory::ClusterChain(chain) => {
                let none: Vec<DirectoryEntry> = Vec::new();
                assert(entry_bytes(none@) =~= Seq::<Seq<u8>>::empty());
                DirectoryEntries {
                    entries: none,
                    pos: 0,
                    chain: Some(*chain),
                    clusters_left: MAX_CHAIN_CLUSTERS,
                }
            },
        }
    }
}

/// Whether the fixed root directory of a FAT12/16 volume lies in the image.
pub open spec fn fixed_root_in_image(s: Seq<u8>, t: FatType) -> bool {
    &&& spec_bytes_per_sector(s) != 0
    &&& entries_in_image(
        s,
        spec_root_dir_start(s, t) * spec_bytes_per_sector(s),
        spec_root_entry_count(s),
    )
}

/// The root directory of the volume: on FAT32 the directory in the chain
/// from the root cluster; on FAT12/16 the fixed root directory, `None` when
/// its entries do not lie in the image.
pub fn root_dir<'a>(bpb: BiosParameterBlock<'a>) -> (r: Option<Directory<'a>>)
    requires
        bpb.wf(),
    ensures
        r matches Some(d) ==> d.wf(),
        bpb.spec_fat_type() == FatType::Fat32 ==> (r matches Some(Directory::ClusterChain(c))
            && c.spec_bpb() == bpb && c.spec_next_entry() == Some(
            FatEntry::Used(le32(bpb.image(), 44) as u32),
        )),
        bpb.spec_fat_type() != FatType::Fat32 ==> match r {
            Some(d) => {
                &&& fixed_root_in_image(bpb.image(), bpb.spec_fat_type())
                &&& d matches Directory::RootDir(v) && entries_at(
                    v@,
                    bpb.image(),
                    spec_root_dir_start(bpb.image(), bpb.spec_fat_type()) * spec_bytes_per_sector(
                        bpb.image(),
                    ),
                    spec_root_entry_count(bpb.image()),
                )
            },
            None => !fixed_root_in_image(bpb.image(), bpb.spec_fat_type()),
        },
{
    match bpb.fat_type() {
        FatType::Fat32 => Some(Directory::new_cluster_chain(ClusterChain::new(bpb, bpb.root_cluster()))),
        _ => {
            let bytes_per_sector = bpb.bytes_per_sector() as u64;
            if bytes_per_sector == 0 {
                return None;
            }
            proof {
                let s = bpb.image();
                assert(spec_num_fats(s) * spec_fat_size(s, bpb.spec_fat_type()) <= 255 * 0xffff)
                    by (nonlinear_arith)
                    requires
                        spec_num_fats(s) <= 255,
                        0 <= spec_fat_size(s, bpb.spec_fat_type()) <= 0xffff,
                ;
            }
            let start = bpb.root_dir_start_sector_16() as u64;
            proof {
                assert(start * bytes_per_sector <= 0xffff_ffff * 0xffff) by (nonlinear_arith)
                    requires
                        start <= 0xffff_ffff,
                        bytes_per_sector <= 0xffff,
                ;
            }
            let off = start * bytes_per_sector;
            let count = bpb.root_entry_count() as u64;
            let len = bpb.image_bytes().len() as u64;
            if off > len || count * 32 > len - off {
                return None;
            }
            let entries = read_entries(bpb.image_bytes(), off as usize, count as usize);
            Some(Directory::new_root_dir(entries.as_slice()))
        },
    }
}

/// Where a directory walk stands: the bytes of the entries of the cluster
/// being walked, the index of the next one, the chain of the clusters still
/// to read, and how many clusters the walk may still read.
pub struct WalkView<'a> {
    pub entries: Seq<Seq<u8>>,
    pub pos: int,
    pub chain: Option<ClusterChain<'a>>,
    pub fuel: int,
}

/// Whether entry bytes `b` start a deleted entry or hold part of a long name.
pub open spec fn skipped_bytes(b: Seq<u8>) -> bool {
    b[0] == DELETED_ENTRY_MARK || b[11] & 0x3f == ATTR_LFN
}

/// One step of a directory walk from `w`: the next listed entry's bytes, an
/// error with the FAT entry that broke the chain, or `None` at the end; and
/// where the walk then stands.
pub open spec fn walk_next<'a>(w: WalkView<'a>) -> (
    Option<core::result::Result<Seq<u8>, FatEntry>>,
    WalkView<'a>,
)
    decreases w.fuel, w.entries.len() - w.pos,
{
    if w.pos < 0 || w.fuel < 0 {
        (None, w)
    } else if w.pos < w.entries.len() {
        let b = w.entries[w.pos];
        if b[0] == END_OF_DIRECTORY_MARK {
            (None, WalkView { pos: w.entries.len() as int, ..w })
        } else if skipped_bytes(b) {
            walk_next(WalkView { pos: w.pos + 1, ..w })
        } else {
            (Some(Ok(b)), WalkView { pos: w.pos + 1, ..w })
        }
    } else {
        match w.chain {
            None => (None, w),
            Some(c) => if w.fuel == 0 {
                (Some(Err(FatEntry::Bad)), w)
            } else {
                let (step, c2) = c.spec_step();
                match step {
                    None => (None, WalkView { chain: Some(c2), ..w }),
                    Some(Err(e)) => (Some(Err(e)), WalkView { chain: Some(c2), ..w }),
                    Some(Ok(cluster)) => match cluster_entry_bytes(c2.spec_bpb(), cluster) {
                        None => (
                            Some(Err(FatEntry::Bad)),
                            WalkView { chain: Some(c2), fuel: w.fuel - 1, ..w },
                        ),
                        Some(es) => walk_next(
                            WalkView { entries: es, pos: 0, chain: Some(c2), fuel: w.fuel - 1 },
                        ),
                    },
                }
            },
        }
    }
}

/// What a directory walk from `w` yields until it ends: the listed entries'
/// bytes, and at most one error, which ends the list.
pub open spec fn walk_items<'a>(w: WalkView<'a>) -> Seq<core::result::Result<Seq<u8>, FatEntry>>
    decreases w.fuel, w.entries.len() - w.pos,
{
    let (r, w2) = walk_next(w);
    match r {
        None => Seq::empty(),
        Some(Err(e)) => seq![Err(e)],
        Some(Ok(b)) => if (0 <= w2.fuel < w.fuel) || (w2.fuel == w.fuel && 0 <= w2.entries.len()
            - w2.pos < w.entries.len() - w.pos) {
            seq![Ok(b)] + walk_items(w2)
        } else {
            seq![Ok(b)]
        },
    }
}

/// Where a walk of `d` starts.
pub open spec fn walk_start<'a>(d: &Directory<'a>) -> WalkView<'a> {
    match d {
        Directory::RootDir(v) => WalkView {
            entries: entry_bytes(v@),
            pos: 0,
            chain: None,
            fuel: MAX_CHAIN_CLUSTERS as int,
        },
        Directory::ClusterChain(c) => WalkView {
            entries: Seq::empty(),
            pos: 0,
            chain: Some(*c),
            fuel: MAX_CHAIN_CLUSTERS as int,
        },
    }
}

/// What a walk of the directory `d` yields (see `walk_items`).
pub open spec fn dir_items<'a>(d: &Directory<'a>) -> Seq<core::result::Result<Seq<u8>, FatEntry>> {
    walk_items(walk_start(d))
}

/// The bytes of an entry a walk returned.
pub open spec fn item_bytes(r: Option<core::result::Result<DirectoryEntry, FatEntry>>) -> Option<
    core::result::Result<Seq<u8>, FatEntry>,
> {
    match r {
        None => None,
        Some(Ok(e)) => Some(Ok(e.bytes())),
        Some(Err(f)) => Some(Err(f)),
    }
}

/// Walks the listed entries of a directory, reading the clusters of its chain
/// one after another.
#[derive(Debug)]
pub struct DirectoryEntries<'a> {
    entries: Vec<DirectoryEntry>,
    pos: usize,
    chain: Option<ClusterChain<'a>>,
    clusters_left: u64,
}

impl<'a> DirectoryEntries<'a> {
    /// The entries of the cluster being walked.
    pub closed spec fn entries(&self) -> Seq<DirectoryEntry> {
        self.entries@
    }

    /// Index of the next entry to look at.
    pub closed spec fn pos(&self) -> int {
        self.pos as int
    }

    /// The chain that holds the clusters still to be read.
    pub closed spec fn chain(&self) -> Option<ClusterChain<'a>> {
        self.chain
    }

    /// Where the walk stands.
    pub closed spec fn walk(&self) -> WalkView<'a> {
        WalkView {
            entries: entry_bytes(self.entries@),
            pos: self.pos as int,
            chain: self.chain,
            fuel: self.clusters_left as int,
        }
    }

    /// Clusters the walk may still read.
    pub open spec fn fuel(&self) -> int {
        self.walk().fuel
    }

    /// Entries of the current cluster not yet looked at.
    pub open spec fn left(&self) -> int {
        self.walk().entries.len() - self.walk().pos
    }

    /// Whether the walk advanced from `before`: fewer clusters left, or as
    /// many and fewer entries left.
    pub open spec fn advanced_from(&self, before: &Self) -> bool {
        ||| self.fuel() < before.fuel()
        ||| (self.fuel() == before.fuel() && self.left() < before.left())
    }

    /// The walk's invariant.
    pub open spec fn wf(&self) -> bool {
        &&& 0 <= self.fuel()
        &&& 0 <= self.left()
        &&& self.pos() <= self.entries().len()
        &&& self.chain() matches Some(c) ==> c.spec_bpb().wf()
    }

    /// The next listed entry (`Ok`), or `Err` with the FAT entry that broke
    /// the directory's chain (an unreadable cluster, or a chain longer than
    /// any volume, counts as bad); `None` at the end mark or when the chain
    /// ended.
    pub fn next(&mut self) -> (r: Option<core::result::Result<DirectoryEntry, FatEntry>>)
        requires
            old(self).wf(),
        ensures
            final(self).wf(),
            (item_bytes(r), final(self).walk()) == walk_next(old(self).walk()),
            r matches Some(Ok(_)) ==> final(self).advanced_from(old(self)),
            0 <= final(self).fuel(),
            0 <= final(self).left(),
            match r {
                Some(Ok(e)) => {
                    &&& is_listed_entry(e)
                    &&& 0 < final(self).pos() <= final(self).entries().len()
                    &&& e == final(self).entries()[final(self).pos() - 1]
                },
                _ => true,
            },
            old(self).chain() is None ==> {
                let s = old(self).entries();
                let i = old(self).pos();
                &&& final(self).chain() is None
                &&& final(self).entries() == s
                &&& match r {
                    Some(Ok(e)) => {
                        let j = final(self).pos() - 1;
                        &&& i <= j < s.len()
                        &&& forall|k: int| i <= k < j ==> #[trigger] is_skipped_entry(s[k])
                    },
                    Some(Err(_)) => false,
                    None => {
                        &&& final(self).pos() == s.len()
                        &&& exists|t: int| #[trigger] dir_walk_stops_at(s, i, t)
                    },
                }
            },
    {
        let ghost i0 = self.pos as int;
        let ghost s0 = self.entries@;
        loop
            invariant
                self.wf(),
                self.clusters_left < old(self).clusters_left || (self.clusters_left
                    == old(self).clusters_left && self.entries@.len() == old(self).entries@.len()
                    && self.pos >= old(self).pos),
                i0 == old(self).pos(),
                s0 == old(self).entries(),
                old(self).chain() is None ==> {
                    &&& self.chain() is None
                    &&& self.entries() == s0
                    &&& i0 <= self.pos()
                    &&& forall|k: int| i0 <= k < self.pos() ==> #[trigger] is_skipped_entry(s0[k])
                },
                walk_next(old(self).walk()) == walk_next(self.walk()),
            decreases self.clusters_left, self.entries@.len() - self.pos,
        {
            let ghost c0 = self.clusters_left;
            while self.pos < self.entries.len()
                invariant
                    self.wf(),
                    self.clusters_left == c0,
                    self.clusters_left < old(self).clusters_left || (self.clusters_left
                        == old(self).clusters_left && self.entries@.len() == old(self).entries@.len()
                        && self.pos >= old(self).pos),
                    i0 == old(self).pos(),
                    s0 == old(self).entries(),
                    old(self).chain() is None ==> {
                        &&& self.chain() is None
                        &&& self.entries() == s0
                        &&& i0 <= self.pos()
                        &&& forall|k: int| i0 <= k < self.pos() ==> #[trigger] is_skipped_entry(s0[k])
                    },
                    walk_next(old(self).walk()) == walk_next(self.walk()),
                decreases self.entries@.len() - self.pos,
            {
                let entry = self.entries[self.pos];
                let name0 = entry.as_bytes()[0];
                let ghost p = self.pos as int;
                let ghost w = self.walk();
                assert(w.entries[p] == entry.bytes());
                if name0 == END_OF_DIRECTORY_MARK {
                    // stop iteration
                    self.pos = self.entries.len();
                    proof {
                        if old(self).chain() is None {
                            assert(is_end_entry(s0[p]));
                            assert(dir_walk_stops_at(s0, i0, p));
                        }
                    }
                    return None;
                }
                self.pos = self.pos + 1;
                if name0 == DELETED_ENTRY_MARK {
                    assert(is_skipped_entry(entry));
                    assert(self.walk() == WalkView { pos: w.pos + 1, ..w });
                    continue;
                }
                if entry.attr() == ATTR_LFN {
                    assert(is_skipped_entry(entry));
                    assert(self.walk() == WalkView { pos: w.pos + 1, ..w });
                    continue;
                }
                assert(self.walk() == WalkView { pos: w.pos + 1, ..w });
                return Some(Ok(entry));
            }
            let mut chain = match self.chain {
                Some(chain) => chain,
                None => {
                    proof {
                        if old(self).chain() is None {
                            assert(self.pos() == s0.len());
                            assert(dir_walk_stops_at(s0, i0, s0.len() as int));
                        }
                    }
                    return None;
                },
            };
            if self.clusters_left == 0 {
                return Some(Err(FatEntry::Bad));
            }
            let next = chain.next();
            self.chain = Some(chain);
            let cluster = match next {
                None => return None,
                Some(Ok(cluster)) => cluster,
                Some(Err(err)) => return Some(Err(err)),
            };
            let bpb = chain.bpb();
            self.clusters_left = self.clusters_left - 1;
            match read_cluster_entries(&bpb, cluster) {
                Some(entries) => {
                    self.entries = entries;
                    self.pos = 0;
                },
                None => {
                    return Some(Err(FatEntry::Bad));
                },
            }
        }
    }
}

} // verus!
