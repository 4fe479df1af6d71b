//! The kernel heap's fixed-size block lists: blocks of a few power-of-two
//! sizes are kept in free lists, larger requests go to a general allocator.
use vstd::prelude::*;

verus! {

/// Start of the kernel heap.
pub const HEAP_START: u64 = 0x_4444_4444_0000;
/// Size of the kernel heap (128 MiB).
pub const HEAP_SIZE: usize = 0x800_0000;

/// The block sizes, each a power of two so that it also serves as the
/// block's alignment.
pub const BLOCK_SIZES: [usize; 9] = [8, 16, 32, 64, 128, 256, 512, 1024, 2048];

/// Number of block sizes.
pub const NUM_BLOCK_SIZES: usize = 9;

/// The size and alignment of an allocation request.
#[derive(Debug, Clone, Copy, PartialEq, Eq, Structural)]
pub struct Layout {
    pub size: usize,
    pub align: usize,
}

/// The index of the smallest block size that holds `layout`: at least its
/// size and its alignment; `None` when no block size is that large.
pub open spec fn spec_list_index(layout: Layout) -> Option<int> {
    let required = if layout.size >= layout.align { layout.size } else { layout.align };
    if exists|i: int| 0 <= i < NUM_BLOCK_SIZES && BLOCK_SIZES[i] >= required {
        Some(choose|i: int| 0 <= i < NUM_BLOCK_SIZES && BLOCK_SIZES[i] >= required && forall|j: int| 0 <= j < i ==> BLOCK_SIZES[j] < required)
    } else {
        None
    }
}

/// The block size a layout needs: its size or its alignment, whichever is
/// larger.
pub open spec fn required_size(layout: Layout) -> int {
    if layout.size >= layout.align {
        layout.size as int
    } else {
        layout.align as int
    }
}

/// Whether `i` is the first index of a block size at least `required`.
pub open spec fn first_fit(i: int, required: int) -> bool {
    &&& 0 <= i < NUM_BLOCK_SIZES
    &&& BLOCK_SIZES[i] >= required
    &&& forall|j: int| 0 <= j < i ==> BLOCK_SIZES[j] < required
}

/// Chooses the block size for `layout`: the index of the smallest block
/// size at least its size and its alignment, `None` when there is none.
pub fn list_index(layout: &Layout) -> (r: Option<usize>)
    ensures
        match r {
            Some(k) => first_fit(k as int, required_size(*layout)),
            None => forall|j: int| 0 <= j < NUM_BLOCK_SIZES ==> BLOCK_SIZES[j] < required_size(*layout),
        },
{
    let required = if layout.size >= layout.align { layout.size } else { layout.align };
    let mut i: usize = 0;
    while i < NUM_BLOCK_SIZES
        invariant
            i <= NUM_BLOCK_SIZES,
            required as int == required_size(*layout),
            forall|j: int| 0 <= j < i ==> BLOCK_SIZES[j] < required,
        decreases NUM_BLOCK_SIZES - i,
    {
        let s = BLOCK_SIZES[i];
        if s >= required {
            return Some(i);
        }
        i = i + 1;
    }
    None
}

/// Where an allocation comes from.
#[derive(Debug, Clone, Copy, PartialEq, Eq, Structural)]
pub enum AllocSource {
    /// A free block of the list, at this address.
    Block(usize),
    /// The general allocator, with this layout.
    Fallback(Layout),
}

/// The free blocks of each block size, by address, the most recently freed
/// last.
pub struct BlockLists {
    heads: Vec<Vec<usize>>,
}

impl BlockLists {
    /// The free addresses of each block size.
    pub closed spec fn lists(&self) -> Seq<Seq<usize>> {
        self.heads@.map_values(|l: Vec<usize>| l@)
    }

    /// A list per block size.
    pub open spec fn wf(&self) -> bool {
        self.lists().len() == NUM_BLOCK_SIZES
    }

    /// No free blocks.
    pub fn new() -> (r: BlockLists)
        ensures
            r.wf(),
            forall|i: int| 0 <= i < NUM_BLOCK_SIZES ==> (#[trigger] r.lists()[i]).len() == 0,
    {
        let mut heads: Vec<Vec<usize>> = Vec::new();
        let mut i: usize = 0;
        while i < NUM_BLOCK_SIZES
            invariant
                i <= NUM_BLOCK_SIZES,
                heads@.len() == i,
                forall|k: int| 0 <= k < i ==> (#[trigger] heads@[k])@.len() == 0,
            decreases NUM_BLOCK_SIZES - i,
        {
            heads.push(Vec::new());
            i = i + 1;
        }
        BlockLists { heads }
    }

    /// Decides where an allocation of `layout` comes from: the most
    /// recently freed block of its block size, taken off the list; with none
    /// there, the general allocator with the block size as size and
    /// alignment; for a layout larger than every block size, the general
    /// allocator with the layout itself.
    pub fn allocate(&mut self, layout: Layout) -> (r: AllocSource)
        requires
            old(self).wf(),
        ensures
            final(self).wf(),
            match spec_list_index(layout) {
                None => r == AllocSource::Fallback(layout) && final(self).lists() == old(self).lists(),
                Some(i) => if old(self).lists()[i].len() > 0 {
                    &&& r == AllocSource::Block(old(self).lists()[i].last())
                    &&& final(self).lists() == old(self).lists().update(i, old(self).lists()[i].drop_last())
                } else {
                    &&& r == AllocSource::Fallback(Layout { size: BLOCK_SIZES[i], align: BLOCK_SIZES[i] })
                    &&& final(self).lists() == old(self).lists()
                },
            },
    {
        let ghost v = self.lists();
        match list_index(&layout) {
            Some(index) => {
                proof {
                    lemma_list_index_unique(layout, index as int);
                }
                if self.heads[index].len() > 0 {
                    let mut list = self.heads.remove(index);
                    let addr = list.pop().unwrap();
                    self.heads.insert(index, list);
                    assert(self.lists() =~= v.update(index as int, v[index as int].drop_last()));
                    AllocSource::Block(addr)
                } else {
                    let block_size = BLOCK_SIZES[index];
                    AllocSource::Fallback(Layout { size: block_size, align: block_size })
                }
            },
            None => {
                proof {
                    lemma_list_index_none(layout);
                }
                AllocSource::Fallback(layout)
            },
        }
    }

    /// Frees the block at `addr` of `layout`: onto the list of its block
    /// size (`true`), or, for a layout larger than every block size, back to
    /// the general allocator (`false`, nothing kept).
    pub fn dealloc(&mut self, addr: usize, layout: Layout) -> (r: bool)
        requires
            old(self).wf(),
        ensures
            final(self).wf(),
            r == spec_list_index(layout) is Some,
            match spec_list_index(layout) {
                None => final(self).lists() == old(self).lists(),
                Some(i) => final(self).lists() == old(self).lists().update(i, old(self).lists()[i].push(addr)),
            },
    {
        let ghost v = self.lists();
        match list_index(&layout) {
            Some(index) => {
                proof {
                    lemma_list_index_unique(layout, index as int);
                }
                let mut list = self.heads.remove(index);
                list.push(addr);
                self.heads.insert(index, list);
                assert(self.lists() =~= v.update(index as int, v[index as int].push(addr)));
                true
            },
            None => {
                proof {
                    lemma_list_index_none(layout);
                }
                false
            },
        }
    }
}

/// The first fit is what `spec_list_index` chooses.
proof fn lemma_list_index_unique(layout: Layout, i: int)
    requires
        first_fit(i, required_size(layout)),
    ensures
        spec_list_index(layout) == Some(i),
{
    let required = if layout.size >= layout.align { layout.size } else { layout.align };
    assert(0 <= i < NUM_BLOCK_SIZES && BLOCK_SIZES[i] >= required);
    let c = choose|k: int| 0 <= k < NUM_BLOCK_SIZES && BLOCK_SIZES[k] >= required && forall|j: int| 0 <= j < k ==> BLOCK_SIZES[j] < required;
    assert(first_fit(c, required as int));
    if c < i {
        assert(BLOCK_SIZES[c] < required);
    }
    if i < c {
        assert(BLOCK_SIZES[i] < required);
    }
}

/// Without a fit `spec_list_index` is `None`.
proof fn lemma_list_index_none(layout: Layout)
    requires
        forall|j: int| 0 <= j < NUM_BLOCK_SIZES ==> BLOCK_SIZES[j] < required_size(layout),
    ensures
        spec_list_index(layout) is None,
{
}


/// Freeing a block and then allocating the same layout gives that block
/// back and leaves the free lists as they were.
pub proof fn law_dealloc_then_allocate(lists: Seq<Seq<usize>>, addr: usize, layout: Layout)
    requires
        lists.len() == NUM_BLOCK_SIZES,
        spec_list_index(layout) is Some,
    ensures
        ({
            let i = spec_list_index(layout).unwrap();
            let freed = lists.update(i, lists[i].push(addr));
            &&& freed[i].len() > 0
            &&& freed[i].last() == addr
            &&& freed.update(i, freed[i].drop_last()) == lists
        }),
{
    let i = spec_list_index(layout).unwrap();
    let required = required_size(layout);
    assert(0 <= i < NUM_BLOCK_SIZES) by {
        assert(exists|k: int| 0 <= k < NUM_BLOCK_SIZES && BLOCK_SIZES[k] >= required);
        let k0 = choose|k: int| 0 <= k < NUM_BLOCK_SIZES && BLOCK_SIZES[k] >= required;
        lemma_first_fit_exists(required, k0);
    }
    let freed = lists.update(i, lists[i].push(addr));
    assert(freed[i].drop_last() =~= lists[i]);
    assert(freed.update(i, freed[i].drop_last()) =~= lists);
}

/// When some block size fits, a first fit exists.
proof fn lemma_first_fit_exists(required: int, k: int)
    requires
        0 <= k < NUM_BLOCK_SIZES,
        BLOCK_SIZES[k] >= required,
    ensures
        exists|i: int| #[trigger] first_fit(i, required),
    decreases k,
{
    if forall|j: int| 0 <= j < k ==> BLOCK_SIZES[j] < required {
        assert(first_fit(k, required));
    } else {
        let j = choose|j: int| 0 <= j < k && BLOCK_SIZES[j] >= required;
        lemma_first_fit_exists(required, j);
    }
}

} // verus!
