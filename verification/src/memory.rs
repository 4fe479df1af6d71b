//! Bitmap based physical frame manager.
use vstd::prelude::*;

verus! {

/// Number of bytes in `kib` kibibytes.
pub fn kib(n: u64) -> (r: u64)
    requires
        n * 1024 <= u64::MAX,
    ensures
        r == n * 1024,
{
    n * 1024
}

/// Number of bytes in `mib` mebibytes.
pub fn mib(n: u64) -> (r: u64)
    requires
        n * 1024 * 1024 <= u64::MAX,
    ensures
        r == n * 1024 * 1024,
{
    n * kib(1024)
}

/// Number of bytes in `gib` gibibytes.
pub fn gib(n: u64) -> (r: u64)
    requires
        n * 1024 * 1024 * 1024 <= u64::MAX,
    ensures
        r == n * 1024 * 1024 * 1024,
{
    proof {
        assert(n * (1024 * 1024 * 1024) == n * 1024 * 1024 * 1024) by (nonlinear_arith);
    }
    n * mib(1024)
}

} // verus!

verus! {

use crate::error::{Error, ErrorKind, Result};

/// Size of one physical frame in bytes.
pub const BYTES_PER_FRAME: u64 = 4096;
/// Largest amount of physical memory the manager keeps track of (128 GiB).
pub const MAX_PHYSICAL_MEMORY_BYTE: u64 = 0x20_0000_0000;
/// Number of frames the manager keeps track of.
pub const FRAME_COUNT: u64 = 0x200_0000;
/// Number of frames one word of the bitmap covers.
pub const BITS_PER_MAP_LINE: u64 = 64;
/// Number of words in the bitmap.
pub const ALLOC_MAP_LEN: usize = 0x8_0000;
/// Frame numbers from which on adding a request size could leave the physical address space.
pub const FRAME_NUMBER_LIMIT: u64 = 0x100_0000_0000;

/// Whether bit `bit` of `word` is set.
pub open spec fn word_bit(word: u64, bit: u64) -> bool {
    (word >> bit) & 1u64 == 1u64
}

/// Whether the bitmap `map` marks frame number `frame` as allocated.
pub open spec fn map_bit(map: Seq<u64>, frame: int) -> bool {
    word_bit(map[frame / 64], (frame % 64) as u64)
}

proof fn lemma_test_bit(w: u64, b: u64)
    requires
        b < 64,
    ensures
        ((w & (1u64 << b)) != 0u64) == word_bit(w, b),
{
    assert(((w & (1u64 << b)) != 0u64) == ((w >> b) & 1u64 == 1u64)) by (bit_vector)
        requires
            b < 64,
    ;
}

proof fn lemma_set_bit(w: u64, b: u64, c: u64)
    requires
        b < 64,
        c < 64,
    ensures
        word_bit(w | (1u64 << b), c) == (b == c || word_bit(w, c)),
        word_bit(w & !(1u64 << b), c) == (b != c && word_bit(w, c)),
{
    assert((((w | (1u64 << b)) >> c) & 1u64 == 1u64) == (b == c || (w >> c) & 1u64 == 1u64))
        by (bit_vector)
        requires
            b < 64,
            c < 64,
    ;
    assert((((w & !(1u64 << b)) >> c) & 1u64 == 1u64) == (b != c && (w >> c) & 1u64 == 1u64))
        by (bit_vector)
        requires
            b < 64,
            c < 64,
    ;
}

/// Kind of a physical memory region reported by the boot loader.
#[derive(Debug, Clone, Copy, PartialEq, Eq, Structural)]
pub enum MemoryRegionKind {
    Usable,
    Bootloader,
    UnknownUefi(u32),
    UnknownBios(u32),
}

/// A physical memory region `[start, end)` of the boot loader's memory map.
#[derive(Debug, Clone, Copy, PartialEq, Eq, Structural)]
pub struct MemoryRegion {
    pub start: u64,
    pub end: u64,
    pub kind: MemoryRegionKind,
}

/// Index after the last region that merges with region `i`: the following
/// regions of the same kind that start where the previous one ends.
pub open spec fn merge_end(s: Seq<MemoryRegion>, i: int) -> int
    decreases s.len() - i,
{
    if 0 <= i && i + 1 < s.len() && s[i].kind == s[i + 1].kind && s[i].end == s[i + 1].start {
        merge_end(s, i + 1)
    } else {
        i + 1
    }
}

/// The region that the regions `i .. merge_end(s, i)` merge into.
pub open spec fn merged_region(s: Seq<MemoryRegion>, i: int) -> MemoryRegion {
    MemoryRegion { start: s[i].start, end: s[merge_end(s, i) - 1].end, kind: s[i].kind }
}

proof fn lemma_merge_end(s: Seq<MemoryRegion>, i: int)
    requires
        0 <= i < s.len(),
    ensures
        i < merge_end(s, i) <= s.len(),
        forall|j: int| i <= j < merge_end(s, i) ==> #[trigger] s[j].kind == s[i].kind,
    decreases s.len() - i,
{
    if i + 1 < s.len() && s[i].kind == s[i + 1].kind && s[i].end == s[i + 1].start {
        lemma_merge_end(s, i + 1);
    }
}

/// The merged memory map from region `i` on.
pub open spec fn merged_regions(s: Seq<MemoryRegion>, i: int) -> Seq<MemoryRegion>
    decreases s.len() - i,
{
    if 0 <= i < s.len() {
        let j = merge_end(s, i);
        if i < j <= s.len() {
            seq![merged_region(s, i)] + merged_regions(s, j)
        } else {
            Seq::empty()
        }
    } else {
        Seq::empty()
    }
}

/// Frame number of the frame that holds address `addr`.
pub open spec fn frame_floor(addr: int) -> int {
    addr / 4096
}

/// Frame number of the first frame that starts at or after address `addr`.
pub open spec fn frame_ceil(addr: int) -> int {
    (addr + 4095) / 4096
}

/// The frames that a region covers: a usable region only its whole frames, any
/// other region every frame it touches.
pub open spec fn region_frames(r: MemoryRegion) -> (int, int) {
    if r.kind == MemoryRegionKind::Usable {
        (frame_ceil(r.start as int), frame_floor(r.end as int))
    } else {
        (frame_floor(r.start as int), frame_ceil(r.end as int))
    }
}

/// The frames in `[start, end)`.
pub open spec fn frame_set(start: int, end: int) -> Set<int> {
    Set::new(|f: int| start <= f < end)
}

/// One step of reading the memory map: the search range `(start, end)` so far
/// and the frames marked so far, after region `r`.
pub open spec fn init_step(st: (int, int, Set<int>), r: MemoryRegion) -> (int, int, Set<int>) {
    let (s, e) = region_frames(r);
    if s >= e {
        st
    } else {
        let marked = if st.1 < s {
            st.2.union(frame_set(st.1, s))
        } else {
            st.2
        };
        if r.kind == MemoryRegionKind::Usable {
            (
                if s < st.0 {
                    s
                } else {
                    st.0
                },
                if e > st.1 {
                    e
                } else {
                    st.1
                },
                marked,
            )
        } else {
            (st.0, st.1, marked.union(frame_set(s, e)))
        }
    }
}

/// Reading the regions `rs` in order from state `st`.
pub open spec fn init_fold(rs: Seq<MemoryRegion>, st: (int, int, Set<int>)) -> (
    int,
    int,
    Set<int>,
)
    decreases rs.len(),
{
    if rs.len() == 0 {
        st
    } else {
        init_step(init_fold(rs.drop_last(), st), rs.last())
    }
}


/// Walks a memory map, merging neighbouring regions of the same kind.
#[derive(Debug)]
pub struct MergedMemoryRegion {
    regions: Vec<MemoryRegion>,
    pos: usize,
}

impl MergedMemoryRegion {
    /// The merged regions not handed out yet.
    pub closed spec fn remaining(&self) -> Seq<MemoryRegion> {
        merged_regions(self.regions@, self.pos as int)
    }

    /// The memory map that is walked.
    pub closed spec fn source(&self) -> Seq<MemoryRegion> {
        self.regions@
    }

    /// Starts walking the memory map `regions`.
    pub fn new(regions: &[MemoryRegion]) -> (r: MergedMemoryRegion)
        ensures
            r.source() == regions@,
            r.remaining() == merged_regions(regions@, 0),
    {
        let mut v: Vec<MemoryRegion> = Vec::new();
        let mut i: usize = 0;
        while i < regions.len()
            invariant
                i <= regions@.len(),
                v@ == regions@.subrange(0, i as int),
            decreases regions@.len() - i,
        {
            v.push(regions[i]);
            i = i + 1;
        }
        assert(v@ == regions@);
        MergedMemoryRegion { regions: v, pos: 0 }
    }

    /// The next merged region: the current region, with its end moved to the
    /// end of each following region of the same kind that starts where it ends.
    pub fn next(&mut self) -> (r: Option<MemoryRegion>)
        ensures
            final(self).source() == old(self).source(),
            old(self).remaining().len() == 0 ==> r is None && final(self).remaining().len() == 0,
            old(self).remaining().len() > 0 ==> r == Some(old(self).remaining()[0])
                && final(self).remaining() == old(self).remaining().drop_first(),
    {
        let ghost s = self.regions@;
        let ghost pos0 = self.pos as int;
        if self.pos >= self.regions.len() {
            return None;
        }
        proof {
            lemma_merge_end(s, pos0);
        }
        proof {
            assert(merged_regions(s, pos0) == seq![merged_region(s, pos0)] + merged_regions(
                s,
                merge_end(s, pos0),
            ));
        }
        let mut current = self.regions[self.pos];
        self.pos = self.pos + 1;
        loop
            invariant
                self.regions@ == s,
                old(self).regions@ == s,
                old(self).pos == pos0,
                pos0 < self.pos <= s.len(),
                0 <= pos0 < s.len(),
                merge_end(s, pos0) == merge_end(s, self.pos - 1),
                current.start == s[pos0].start,
                current.end == s[self.pos - 1].end,
                current.kind == s[pos0].kind,
                s[self.pos - 1].kind == s[pos0].kind,
            decreases s.len() - self.pos,
        {
            if self.pos < self.regions.len() {
                let next = self.regions[self.pos];
                if current.kind == next.kind && current.end == next.start {
                    current.end = next.end;
                    self.pos = self.pos + 1;
                    continue;
                }
            }
            proof {
                assert(merge_end(s, self.pos - 1) == self.pos);
                assert(self.remaining() == merged_regions(s, merge_end(s, pos0)));
                assert(old(self).remaining() == merged_regions(s, pos0));
                assert(old(self).remaining().drop_first() == merged_regions(s, merge_end(s, pos0)));
                assert(current == merged_region(s, pos0));
            }
            return Some(current);
        }
    }
}


/// Whether a region lies below the tracked physical memory limit.
pub open spec fn region_in_limit(r: MemoryRegion) -> bool {
    r.start <= MAX_PHYSICAL_MEMORY_BYTE && r.end <= MAX_PHYSICAL_MEMORY_BYTE
}

proof fn lemma_merged_in_limit(s: Seq<MemoryRegion>, i: int)
    requires
        forall|j: int| 0 <= j < s.len() ==> #[trigger] region_in_limit(s[j]),
    ensures
        forall|k: int|
            0 <= k < merged_regions(s, i).len() ==> #[trigger] region_in_limit(
                merged_regions(s, i)[k],
            ),
    decreases s.len() - i,
{
    if 0 <= i < s.len() {
        lemma_merge_end(s, i);
        let j = merge_end(s, i);
        lemma_merged_in_limit(s, j);
        assert(region_in_limit(s[i]));
        assert(region_in_limit(s[j - 1]));
        assert forall|k: int|
            0 <= k < merged_regions(s, i).len() implies #[trigger] region_in_limit(
                merged_regions(s, i)[k],
            ) by {
            if k > 0 {
                assert(merged_regions(s, i)[k] == merged_regions(s, j)[k - 1]);
            }
        }
    }
}

/// Calls `x86_64::PhysAddr::align_up` on the physical address `addr`: the
/// crate rounds up with `(addr | (align - 1)) + 1` unless `addr` is aligned.
#[verifier::external_body]
fn phys_align_up(addr: u64, align: u64) -> (r: u64)
    requires
        addr < 0x10_0000_0000_0000,
        align != 0,
        align & ((align - 1) as u64) == 0,
        addr & ((align - 1) as u64) == 0 || (addr | ((align - 1) as u64)) < 0xF_FFFF_FFFF_FFFF,
    ensures
        r == if addr & ((align - 1) as u64) == 0 {
            addr
        } else {
            ((addr | ((align - 1) as u64)) + 1) as u64
        },
{
    x86_64::PhysAddr::new(addr).align_up(align).as_u64()
}

/// Calls `x86_64::PhysAddr::align_down` on the physical address `addr`: the
/// crate clears the low bits with `addr & !(align - 1)`.
#[verifier::external_body]
fn phys_align_down(addr: u64, align: u64) -> (r: u64)
    requires
        addr < 0x10_0000_0000_0000,
        align != 0,
        align & ((align - 1) as u64) == 0,
    ensures
        r == addr & !((align - 1) as u64),
{
    x86_64::PhysAddr::new(addr).align_down(align).as_u64()
}

proof fn lemma_frame_align(addr: u64)
    requires
        addr <= 0x20_0000_0000,
    ensures
        4096u64 & 4095u64 == 0,
        addr & 4095u64 == 0 || (addr | 4095u64) < 0xF_FFFF_FFFF_FFFF,
        (if addr & 4095u64 == 0 {
            addr as int
        } else {
            (addr | 4095u64) + 1
        }) == frame_ceil(addr as int) * 4096,
        (addr & !4095u64) as int == frame_floor(addr as int) * 4096,
{
    assert(4096u64 & 4095u64 == 0) by (bit_vector);
    assert(addr & 4095u64 == 0 || (addr | 4095u64) < 0xF_FFFF_FFFF_FFFF)
        by (bit_vector)
        requires
            addr <= 0x20_0000_0000,
    ;
    assert((if addr & 4095u64 == 0 {
        addr as int
    } else {
        (addr | 4095u64) + 1
    }) == ((addr + 4095) / 4096) * 4096) by (bit_vector)
        requires
            addr <= 0x20_0000_0000,
    ;
    assert((addr & !4095u64) == (addr / 4096) * 4096) by (bit_vector);
}

/// What a successful allocation of `num_frames` frames does to manager
/// `pre`, giving `post` and `range`: the range is the first run of that many
/// free frames in the search range, and it is now marked as allocated.
pub open spec fn allocation(
    pre: BitmapMemoryManager,
    post: BitmapMemoryManager,
    num_frames: usize,
    range: FrameRange,
) -> bool {
    let old_range = pre.search_range();
    &&& range.end == range.start + num_frames
    &&& old_range.start <= range.start
    &&& range.end <= old_range.end
    &&& pre.fits(range.start as int, num_frames as int)
    &&& forall|s: int| old_range.start <= s < range.start ==> !#[trigger] pre.fits(s, num_frames as int)
    &&& forall|f: int|
        0 <= f < FRAME_COUNT ==> #[trigger] post.is_allocated(f) == (pre.is_allocated(f) || range.contains(f))
    &&& post.search_range().end == old_range.end
}

/// Two allocations in a row hand out disjoint frames: what the first marked
/// as allocated, the second does not take.
pub proof fn law_allocations_disjoint(
    m0: BitmapMemoryManager,
    m1: BitmapMemoryManager,
    m2: BitmapMemoryManager,
    n1: usize,
    r1: FrameRange,
    n2: usize,
    r2: FrameRange,
)
    requires
        m0.wf(),
        allocation(m0, m1, n1, r1),
        allocation(m1, m2, n2, r2),
    ensures
        forall|f: int| r1.contains(f) ==> !#[trigger] r2.contains(f),
{
    assert forall|f: int| r1.contains(f) implies !#[trigger] r2.contains(f) by {
        assert(m1.is_allocated(f));
        if r2.contains(f) {
            assert(!m1.is_allocated(f));
        }
    }
}

/// A half-open range `[start, end)` of physical frame numbers.
#[derive(Debug, Clone, Copy, PartialEq, Eq, Structural)]
pub struct FrameRange {
    pub start: u64,
    pub end: u64,
}

impl FrameRange {
    /// The range `[start, end)` of frame numbers.
    pub fn new(start: u64, end: u64) -> (r: FrameRange)
        ensures
            r.start == start,
            r.end == end,
    {
        FrameRange { start, end }
    }

    /// Whether frame number `frame` lies in the range.
    pub open spec fn contains(self, frame: int) -> bool {
        self.start <= frame < self.end
    }
}

/// Keeps one bit per physical frame: set when the frame is in use.
pub struct BitmapMemoryManager {
    alloc_map: Vec<u64>,
    range: FrameRange,
}

impl BitmapMemoryManager {
    /// The manager's well-formedness: a full bitmap and a range inside it.
    pub closed spec fn wf(&self) -> bool {
        &&& self.alloc_map@.len() == ALLOC_MAP_LEN
        &&& self.range.start <= FRAME_COUNT
        &&& self.range.end <= FRAME_COUNT
    }

    /// Whether frame number `frame` is marked as allocated.
    pub closed spec fn is_allocated(&self, frame: int) -> bool {
        map_bit(self.alloc_map@, frame)
    }

    /// The range of frame numbers that allocation searches.
    pub closed spec fn search_range(&self) -> FrameRange {
        self.range
    }

    /// Whether the `n` frames from `s` on are all free.
    pub open spec fn fits(&self, s: int, n: int) -> bool {
        forall|f: int| s <= f < s + n ==> !#[trigger] self.is_allocated(f)
    }

    /// A manager with every frame free and an empty search range.
    pub fn new() -> (r: BitmapMemoryManager)
        ensures
            r.wf(),
            forall|f: int| 0 <= f < FRAME_COUNT ==> !#[trigger] r.is_allocated(f),
            r.search_range() == (FrameRange { start: FRAME_COUNT, end: 0 }),
    {
        let mut alloc_map: Vec<u64> = Vec::new();
        while alloc_map.len() < ALLOC_MAP_LEN
            invariant
                alloc_map@.len() <= ALLOC_MAP_LEN,
                forall|i: int| 0 <= i < alloc_map@.len() ==> alloc_map@[i] == 0u64,
            decreases ALLOC_MAP_LEN - alloc_map@.len(),
        {
            alloc_map.push(0);
        }
        let r = BitmapMemoryManager { alloc_map, range: FrameRange { start: FRAME_COUNT, end: 0 } };
        assert forall|f: int| 0 <= f < FRAME_COUNT implies !#[trigger] r.is_allocated(f) by {
            let w = r.alloc_map@[f / 64];
            let b = (f % 64) as u64;
            assert(w == 0u64);
            assert((0u64 >> b) & 1u64 == 0u64) by (bit_vector);
        }
        r
    }

    /// Whether frame number `frame` is marked as allocated.
    pub fn get_bit(&self, frame: u64) -> (r: bool)
        requires
            self.wf(),
            frame < FRAME_COUNT,
        ensures
            r == self.is_allocated(frame as int),
    {
        let line_index = (frame / BITS_PER_MAP_LINE) as usize;
        let bit_index = frame % BITS_PER_MAP_LINE;
        proof {
            lemma_test_bit(self.alloc_map@[line_index as int], bit_index);
        }
        (self.alloc_map[line_index] & (1u64 << bit_index)) != 0
    }

    /// Marks frame number `frame` as allocated or free.
    pub fn set_bit(&mut self, frame: u64, allocated: bool)
        requires
            old(self).wf(),
            frame < FRAME_COUNT,
        ensures
            final(self).wf(),
            final(self).search_range() == old(self).search_range(),
            forall|f: int|
                0 <= f < FRAME_COUNT ==> #[trigger] final(self).is_allocated(f) == if f
                    == frame {
                    allocated
                } else {
                    old(self).is_allocated(f)
                },
    {
        let line_index = (frame / BITS_PER_MAP_LINE) as usize;
        let bit_index = frame % BITS_PER_MAP_LINE;
        let old_word = self.alloc_map[line_index];
        let new_word = if allocated {
            old_word | (1u64 << bit_index)
        } else {
            old_word & !(1u64 << bit_index)
        };
        self.alloc_map.set(line_index, new_word);
        proof {
            assert forall|f: int| 0 <= f < FRAME_COUNT implies #[trigger] self.is_allocated(f)
                == if f == frame {
                allocated
            } else {
                old(self).is_allocated(f)
            } by {
                let c = (f % 64) as u64;
                if f / 64 == line_index as int {
                    lemma_set_bit(old_word, bit_index, c);
                    assert(f == frame <==> c == bit_index);
                }
            }
        }
    }

    /// Marks every frame of `range` as allocated. When `range` starts where
    /// the search range starts, the search range then starts at the first
    /// free frame from `range.end` on.
    pub fn mark_allocated(&mut self, range: FrameRange)
        requires
            old(self).wf(),
            range.start <= FRAME_COUNT,
            range.end <= FRAME_COUNT,
        ensures
            final(self).wf(),
            forall|f: int|
                0 <= f < FRAME_COUNT ==> #[trigger] final(self).is_allocated(f) == (old(
                    self,
                ).is_allocated(f) || range.contains(f)),
            final(self).search_range().end == old(self).search_range().end,
            old(self).search_range().start != range.start ==> final(self).search_range().start
                == old(self).search_range().start,
            old(self).search_range().start == range.start ==> {
                let s = final(self).search_range().start;
                &&& range.end <= s
                &&& s <= range.end || s <= old(self).search_range().end
                &&& forall|f: int| range.end <= f < s ==> #[trigger] final(self).is_allocated(f)
                &&& s < old(self).search_range().end ==> !final(self).is_allocated(s as int)
            },
    {
        let mut frame = range.start;
        while frame < range.end
            invariant
                self.wf(),
                range.start <= frame,
                range.end <= FRAME_COUNT,
                frame <= range.end || frame == range.start,
                self.search_range() == old(self).search_range(),
                forall|f: int|
                    0 <= f < FRAME_COUNT ==> #[trigger] self.is_allocated(f) == (old(
                        self,
                    ).is_allocated(f) || (range.start <= f < frame)),
            decreases range.end - frame,
        {
            self.set_bit(frame, true);
            frame = frame + 1;
        }
        assert forall|f: int| 0 <= f < FRAME_COUNT implies #[trigger] self.is_allocated(f) == (old(
            self,
        ).is_allocated(f) || range.contains(f)) by {
            if frame > range.end {
                assert(range.start > range.end);
            }
        }
        // update range for faster allocation
        if self.range.start == range.start {
            let ghost pre = *self;
            self.range.start = range.end;
            assert forall|f: int| 0 <= f < FRAME_COUNT implies #[trigger] self.is_allocated(f) == (old(
                self,
            ).is_allocated(f) || range.contains(f)) by {
                assert(self.is_allocated(f) == pre.is_allocated(f));
            }
            while self.range.start < self.range.end && self.get_bit(self.range.start)
                invariant
                    self.wf(),
                    range.end <= self.range.start,
                    self.range.start <= range.end || self.range.start <= self.range.end,
                    self.range.end == old(self).search_range().end,
                    forall|f: int|
                        0 <= f < FRAME_COUNT ==> #[trigger] self.is_allocated(f) == (old(
                            self,
                        ).is_allocated(f) || range.contains(f)),
                    forall|f: int| range.end <= f < self.range.start ==> #[trigger] self.is_allocated(f),
                decreases self.range.end - self.range.start,
            {
                let ghost pre = *self;
                let ghost prev = self.range.start;
                assert(pre.is_allocated(prev as int));
                self.range.start = self.range.start + 1;
                assert forall|f: int| 0 <= f < FRAME_COUNT implies #[trigger] self.is_allocated(f)
                    == pre.is_allocated(f) by {}
                assert forall|f: int| range.end <= f < self.range.start implies #[trigger] self.is_allocated(f) by {
                    assert(pre.is_allocated(f));
                }
            }
        }
    }

    /// Allocates `num_frames` contiguous free frames: the first such run in the
    /// search range, which it marks as allocated.
    pub fn allocate(&mut self, num_frames: usize) -> (r: Result<FrameRange>)
        requires
            old(self).wf(),
            num_frames + FRAME_COUNT <= FRAME_NUMBER_LIMIT,
        ensures
            final(self).wf(),
            match r {
                Ok(range) => allocation(*old(self), *final(self), num_frames, range),
                Err(e) => {
                    &&& e.kind == ErrorKind::NoEnoughMemory
                    &&& forall|s: int|
                        old(self).search_range().start <= s && s + num_frames <= old(
                            self,
                        ).search_range().end ==> !#[trigger] old(self).fits(s, num_frames as int)
                    &&& *final(self) == *old(self)
                },
            },
    {
        let mut start_frame = self.range.start;
        loop
            invariant
                self.wf(),
                self == old(self),
                self.range.start <= start_frame <= FRAME_COUNT,
                num_frames + FRAME_COUNT <= FRAME_NUMBER_LIMIT,
                forall|s: int|
                    self.range.start <= s < start_frame ==> !#[trigger] self.fits(
                        s,
                        num_frames as int,
                    ),
            decreases FRAME_COUNT - start_frame,
        {
            let end_frame = start_frame + num_frames as u64;
            if end_frame > self.range.end {
                proof {
                    assert forall|s: int|
                        self.range.start <= s && s + num_frames <= self.range.end
                            implies !#[trigger] self.fits(s, num_frames as int) by {
                        assert(s < start_frame);
                    }
                }
                return Err(Error::new(ErrorKind::NoEnoughMemory));
            }
            // look for an allocated frame in [start_frame, end_frame)
            let mut frame = start_frame;
            while frame < end_frame
                invariant
                    self.wf(),
                    start_frame <= frame <= end_frame,
                    end_frame <= self.range.end,
                    self.range.end <= FRAME_COUNT,
                    forall|f: int| start_frame <= f < frame ==> !#[trigger] self.is_allocated(f),
                ensures
                    start_frame <= frame <= end_frame,
                    forall|f: int| start_frame <= f < frame ==> !#[trigger] self.is_allocated(f),
                    frame < end_frame ==> self.is_allocated(frame as int),
                decreases end_frame - frame,
            {
                if self.get_bit(frame) {
                    break;
                }
                frame = frame + 1;
            }
            if frame < end_frame {
                // frame is allocated: no run can start at or before it
                proof {
                    assert forall|s: int|
                        self.range.start <= s < frame + 1 implies !#[trigger] self.fits(
                            s,
                            num_frames as int,
                        ) by {
                        if s >= start_frame {
                            assert(self.is_allocated(frame as int));
                        }
                    }
                }
                start_frame = frame + 1;
                continue;
            }
            let range = FrameRange { start: start_frame, end: end_frame };
            proof {
                assert(self.fits(start_frame as int, num_frames as int));
            }
            self.mark_allocated(range);
            return Ok(range);
        }
    }

    /// Reads the boot loader's memory map: marks every frame that a usable
    /// region does not cover below the highest usable frame, and every frame a
    /// non-usable region touches, as allocated; the search range becomes the
    /// span of the usable regions.
    pub fn init(&mut self, regions: &[MemoryRegion]) -> (r: Result<()>)
        requires
            old(self).wf(),
            forall|i: int| 0 <= i < regions@.len() ==> #[trigger] region_in_limit(regions@[i]),
        ensures
            r is Ok,
            final(self).wf(),
            ({
                let st = init_fold(
                    merged_regions(regions@, 0),
                    (
                        old(self).search_range().start as int,
                        old(self).search_range().end as int,
                        Set::empty(),
                    ),
                );
                &&& final(self).search_range().start == st.0
                &&& final(self).search_range().end == st.1
                &&& forall|f: int|
                    0 <= f < FRAME_COUNT ==> #[trigger] final(self).is_allocated(f) == (old(
                        self,
                    ).is_allocated(f) || st.2.contains(f))
            }),
    {
        let mut regions_iter = MergedMemoryRegion::new(regions);
        let frame_size = BYTES_PER_FRAME;
        let ghost s = regions@;
        let ghost st0: (int, int, Set<int>) = (
            self.range.start as int,
            self.range.end as int,
            Set::empty(),
        );
        let ghost mut done: Seq<MemoryRegion> = Seq::empty();
        proof {
            lemma_merged_in_limit(s, 0);
            assert(done + regions_iter.remaining() == regions_iter.remaining());
        }
        let mut available_start = self.range.start;
        let mut available_end = self.range.end;
        loop
            invariant
                self.wf(),
                frame_size == BYTES_PER_FRAME,
                regions_iter.source() == s,
                s == regions@,
                forall|i: int|
                    0 <= i < regions_iter.remaining().len() ==> #[trigger] region_in_limit(
                        regions_iter.remaining()[i],
                    ),
                done + regions_iter.remaining() == merged_regions(s, 0),
                st0 == (
                    old(self).search_range().start as int,
                    old(self).search_range().end as int,
                    Set::<int>::empty(),
                ),
                available_start <= FRAME_COUNT,
                available_end <= FRAME_COUNT,
                init_fold(done, st0).0 == available_start,
                init_fold(done, st0).1 == available_end,
                forall|f: int|
                    0 <= f < FRAME_COUNT ==> #[trigger] self.is_allocated(f) == (old(
                        self,
                    ).is_allocated(f) || init_fold(done, st0).2.contains(f)),
            ensures
                self.wf(),
                done == merged_regions(s, 0),
                available_start <= FRAME_COUNT,
                available_end <= FRAME_COUNT,
                init_fold(done, st0).0 == available_start,
                init_fold(done, st0).1 == available_end,
                forall|f: int|
                    0 <= f < FRAME_COUNT ==> #[trigger] self.is_allocated(f) == (old(
                        self,
                    ).is_allocated(f) || init_fold(done, st0).2.contains(f)),
            decreases regions_iter.remaining().len(),
        {
            let ghost rem = regions_iter.remaining();
            let region = match regions_iter.next() {
                Some(region) => region,
                None => {
                    assert(done + rem == done);
                    break;
                },
            };
            proof {
                assert(region == rem[0]);
                assert(region_in_limit(rem[0]));
                assert forall|i: int|
                    0 <= i < regions_iter.remaining().len() implies #[trigger] region_in_limit(
                        regions_iter.remaining()[i],
                    ) by {
                    assert(regions_iter.remaining()[i] == rem[i + 1]);
                }
                assert(frame_size & ((frame_size - 1) as u64) == 0) by (bit_vector)
                    requires
                        frame_size == 4096u64,
                ;
                assert(done.push(region) + regions_iter.remaining() == done + rem);
                assert(done.push(region).drop_last() == done);
                lemma_frame_align(region.start);
                lemma_frame_align(region.end);
            }
            let ghost prev = init_fold(done, st0);
            proof {
                done = done.push(region);
            }
            let usable = region.kind == MemoryRegionKind::Usable;
            let (start_addr, end_addr) = if usable {
                (phys_align_up(region.start, frame_size), phys_align_down(region.end, frame_size))
            } else {
                (phys_align_down(region.start, frame_size), phys_align_up(region.end, frame_size))
            };
            let ghost fr = region_frames(region);
            assert(start_addr == fr.0 * 4096 && end_addr == fr.1 * 4096);
            if start_addr >= end_addr {
                continue;
            }
            let start = start_addr / BYTES_PER_FRAME;
            let end = end_addr / BYTES_PER_FRAME;
            assert(start == fr.0 && end == fr.1);
            let ghost marked1 = if (available_end as int) < fr.0 {
                prev.2.union(frame_set(available_end as int, fr.0))
            } else {
                prev.2
            };
            if available_end < start {
                self.mark_allocated(FrameRange { start: available_end, end: start });
            }
            assert forall|f: int| 0 <= f < FRAME_COUNT implies #[trigger] self.is_allocated(f) == (old(
                self,
            ).is_allocated(f) || marked1.contains(f)) by {}
            if usable {
                if start < available_start {
                    available_start = start;
                }
                if end > available_end {
                    available_end = end;
                }
            } else {
                self.mark_allocated(FrameRange { start, end });
            }
        }
        let ghost pre = *self;
        self.range = FrameRange { start: available_start, end: available_end };
        assert forall|f: int| 0 <= f < FRAME_COUNT implies #[trigger] self.is_allocated(f)
            == pre.is_allocated(f) by {}
        Ok(())
    }
}


impl BitmapMemoryManager {
    /// Allocates one frame (see `allocate`); its frame number, or `None`
    /// when no frame is free.
    pub fn allocate_frame(&mut self) -> (r: Option<u64>)
        requires
            old(self).wf(),
        ensures
            final(self).wf(),
            match r {
                Some(f) => {
                    let old_range = old(self).search_range();
                    &&& old_range.start <= f < old_range.end
                    &&& old(self).fits(f as int, 1)
                    &&& forall|s: int| old_range.start <= s < f ==> !#[trigger] old(self).fits(s, 1)
                    &&& forall|g: int|
                        0 <= g < FRAME_COUNT ==> #[trigger] final(self).is_allocated(g) == (old(
                            self,
                        ).is_allocated(g) || g == f)
                },
                None => {
                    &&& forall|s: int|
                        old(self).search_range().start <= s && s + 1 <= old(
                            self,
                        ).search_range().end ==> !#[trigger] old(self).fits(s, 1)
                    &&& *final(self) == *old(self)
                },
            },
    {
        match self.allocate(1) {
            Ok(range) => {
                assert forall|g: int| 0 <= g < FRAME_COUNT implies #[trigger] self.is_allocated(g) == (old(
                    self,
                ).is_allocated(g) || g == range.start) by {
                    assert(range.contains(g) == (g == range.start));
                }
                Some(range.start)
            },
            Err(_) => None,
        }
    }
}

} // verus!
