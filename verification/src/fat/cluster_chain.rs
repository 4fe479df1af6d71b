//! Following a chain of clusters through the FAT.
use vstd::prelude::*;

verus! {

use super::bpb::{BiosParameterBlock, spec_fat_entry};
use super::fat_entry::FatEntry;

/// The clusters of a file or directory, in order, read from the FAT.
#[derive(Debug, Clone, Copy)]
pub struct ClusterChain<'a> {
    bpb: BiosParameterBlock<'a>,
    next_entry: Option<FatEntry>,
}

impl<'a> ClusterChain<'a> {
    /// The parameter block of the volume.
    pub closed spec fn spec_bpb(&self) -> BiosParameterBlock<'a> {
        self.bpb
    }

    /// The entry that decides the next step, or `None` when the chain ended.
    pub closed spec fn spec_next_entry(&self) -> Option<FatEntry> {
        self.next_entry
    }

    /// One step along the chain: what `next` returns and the chain after it.
    pub closed spec fn spec_step(self) -> (Option<core::result::Result<u32, FatEntry>>, ClusterChain<'a>) {
        match self.next_entry {
            None => (None, self),
            Some(FatEntry::Used(c)) => (
                Some(Ok(c)),
                ClusterChain {
                    bpb: self.bpb,
                    next_entry: Some(spec_fat_entry(self.bpb.image(), self.bpb.spec_fat_type(), c)),
                },
            ),
            Some(FatEntry::UsedEof(c)) => (Some(Ok(c)), ClusterChain { bpb: self.bpb, next_entry: None }),
            Some(e) => (Some(Err(e)), ClusterChain { bpb: self.bpb, next_entry: None }),
        }
    }

    /// The chain that starts at cluster `cluster`.
    pub fn new(bpb: BiosParameterBlock<'a>, cluster: u32) -> (r: ClusterChain<'a>)
        ensures
            r.spec_bpb() == bpb,
            r.spec_next_entry() == Some(FatEntry::Used(cluster)),
    {
        ClusterChain { bpb, next_entry: Some(FatEntry::Used(cluster)) }
    }

    /// The parameter block of the volume.
    pub fn bpb(&self) -> (r: BiosParameterBlock<'a>)
        ensures
            r == self.spec_bpb(),
    {
        self.bpb
    }

    /// The next cluster of the chain: `Ok` with its number, or `Err` with the
    /// entry that broke the chain (free, reserved or bad); `None` once the
    /// chain ended.
    pub fn next(&mut self) -> (r: Option<core::result::Result<u32, FatEntry>>)
        requires
            old(self).spec_bpb().wf(),
        ensures
            final(self).spec_bpb() == old(self).spec_bpb(),
            (r, *final(self)) == old(self).spec_step(),
            match old(self).spec_next_entry() {
                None => r is None && final(self).spec_next_entry() is None,
                Some(FatEntry::Used(c)) => {
                    &&& r == Some(Ok::<u32, FatEntry>(c))
                    &&& final(self).spec_next_entry() == Some(
                        spec_fat_entry(
                            old(self).spec_bpb().image(),
                            old(self).spec_bpb().spec_fat_type(),
                            c,
                        ),
                    )
                },
                Some(FatEntry::UsedEof(c)) => r == Some(Ok::<u32, FatEntry>(c))
                    && final(self).spec_next_entry() is None,
                Some(e) => r == Some(Err::<u32, FatEntry>(e)) && final(self).spec_next_entry() is None,
            },
    {
        let next_entry = match self.next_entry {
            Some(e) => e,
            None => return None,
        };
        let res = match next_entry {
            FatEntry::Used(next_cluster) => {
                self.next_entry = Some(self.bpb.fat_entry(next_cluster));
                Ok(next_cluster)
            },
            FatEntry::UsedEof(next_cluster) => {
                self.next_entry = None;
                Ok(next_cluster)
            },
            FatEntry::Unused | FatEntry::Reserved | FatEntry::Bad => {
                self.next_entry = None;
                Err(next_entry)
            },
        };
        Some(res)
    }
}

} // verus!
