//! Append-only ROM banks.
//!
//! Real hardware ROMs are loaded incrementally, so a ROM region grows by
//! appending byte ranges over the chip's lifetime; ranges are never
//! rewritten. A [`RomSet`] is one region; a [`RomSetBank`] groups the
//! regions a device owns, keyed by [`RomIndex`], and is what a chip reads
//! from while synthesizing.

use vstd::prelude::*;

use crate::chip::RomIndex;

verus! {

/// One appended byte range: `data` mapped at addresses
/// `start_address..=end_address`.
pub struct RomBlock {
    pub start_address: usize,
    pub end_address: usize,
    pub data: Vec<u8>,
}

/// One append-only ROM region.
pub struct RomSet {
    blocks: Vec<RomBlock>,
}

/// The byte the first block of `blocks` that maps `address` holds there,
/// or `0` when no block maps it (an open bus reads as zero).
pub open spec fn spec_rom_read(blocks: Seq<RomBlock>, address: int) -> u8
    decreases blocks.len(),
{
    if blocks.len() == 0 {
        0u8
    } else if blocks[0].start_address <= address <= blocks[0].end_address
        && address - blocks[0].start_address < blocks[0].data@.len() {
        blocks[0].data@[address - blocks[0].start_address]
    } else {
        spec_rom_read(blocks.skip(1), address)
    }
}

/// One past the highest address any block of `blocks` maps, at most
/// `usize::MAX`.
pub open spec fn spec_address_limit(blocks: Seq<RomBlock>) -> int
    decreases blocks.len(),
{
    if blocks.len() == 0 {
        0
    } else {
        let rest = spec_address_limit(blocks.skip(1));
        let here = if blocks[0].end_address == usize::MAX {
            usize::MAX as int
        } else {
            blocks[0].end_address + 1
        };
        if here > rest {
            here
        } else {
            rest
        }
    }
}

impl RomSet {
    /// The appended ranges, oldest first.
    pub closed spec fn view(&self) -> Seq<RomBlock> {
        self.blocks@
    }

    /// An empty region.
    pub fn new() -> (r: RomSet)
        ensures
            r@.len() == 0,
    {
        RomSet { blocks: Vec::new() }
    }

    /// Append one byte range; the returned index identifies the range
    /// within this region, in insertion order.
    pub fn add_rom(&mut self, memory: &[u8], start_address: usize, end_address: usize) -> (index_no:
        usize)
        ensures
            index_no == old(self)@.len(),
            final(self)@.len() == old(self)@.len() + 1,
            forall|i: int| 0 <= i < old(self)@.len() ==> final(self)@[i] == old(self)@[i],
            final(self)@[index_no as int].start_address == start_address,
            final(self)@[index_no as int].end_address == end_address,
            final(self)@[index_no as int].data@ == memory@,
    {
        let index_no = self.blocks.len();
        let data = vstd::slice::slice_to_vec(memory);
        self.blocks.push(RomBlock { start_address, end_address, data });
        index_no
    }

    /// The number of appended ranges.
    pub fn len(&self) -> (r: usize)
        ensures
            r == self@.len(),
    {
        self.blocks.len()
    }

    /// Read one byte; an address no range maps reads as `0`.
    pub fn read(&self, address: usize) -> (r: u8)
        ensures
            r == spec_rom_read(self@, address as int),
    {
        let n = self.blocks.len();
        let mut i: usize = 0;
        assert(self@.skip(0) =~= self@);
        while i < n
            invariant
                i <= n,
                n == self@.len(),
                spec_rom_read(self@, address as int) == spec_rom_read(
                    self@.skip(i as int),
                    address as int,
                ),
            decreases n - i,
        {
            assert(self@.skip(i as int)[0] == self@[i as int]);
            assert(self@.skip(i as int).skip(1) =~= self@.skip(i as int + 1));
            let block = &self.blocks[i];
            if block.start_address <= address && address <= block.end_address {
                let offset = address - block.start_address;
                if offset < block.data.len() {
                    return block.data[offset];
                }
            }
            i = i + 1;
        }
        assert(self@.skip(n as int) =~= Seq::<RomBlock>::empty());
        0
    }

    /// One past the highest mapped address (saturating at `usize::MAX`);
    /// the region's total addressable length.
    pub fn address_limit(&self) -> (r: usize)
        ensures
            r == spec_address_limit(self@),
    {
        let n = self.blocks.len();
        let mut limit: usize = 0;
        let mut i: usize = n;
        assert(self@.skip(n as int) =~= Seq::<RomBlock>::empty());
        while i > 0
            invariant
                i <= n,
                n == self@.len(),
                limit == spec_address_limit(self@.skip(i as int)),
            decreases i,
        {
            i = i - 1;
            assert(self@.skip(i as int)[0] == self@[i as int]);
            assert(self@.skip(i as int).skip(1) =~= self@.skip(i as int + 1));
            let block = &self.blocks[i];
            let here: usize = if block.end_address == usize::MAX {
                usize::MAX
            } else {
                block.end_address + 1
            };
            if here > limit {
                limit = here;
            }
        }
        assert(self@.skip(0) =~= self@);
        limit
    }
}

/// The ROM regions one device owns, keyed by [`RomIndex`].
pub struct RomSetBank {
    entries: Vec<(RomIndex, RomSet)>,
}

/// The position of `rom_index` in `entries`, or `None`.
pub open spec fn spec_bank_find(entries: Seq<(RomIndex, RomSet)>, rom_index: RomIndex) -> Option<
    int,
>
    decreases entries.len(),
{
    if entries.len() == 0 {
        None
    } else if entries[0].0 == rom_index {
        Some(0int)
    } else {
        match spec_bank_find(entries.skip(1), rom_index) {
            Some(i) => Some(i + 1),
            None => None,
        }
    }
}

/// An index `spec_bank_find` returns is in range and names an entry with
/// the looked-up key.
pub proof fn lemma_bank_find_range(entries: Seq<(RomIndex, RomSet)>, rom_index: RomIndex)
    ensures
        spec_bank_find(entries, rom_index) matches Some(i) ==> 0 <= i < entries.len()
            && entries[i].0 == rom_index,
    decreases entries.len(),
{
    if entries.len() > 0 && entries[0].0 != rom_index {
        lemma_bank_find_range(entries.skip(1), rom_index);
    }
}

/// Pushing a new entry does not disturb where existing keys are found; a
/// key found nowhere is afterwards found at the end exactly when the new
/// entry carries it.
proof fn lemma_bank_find_push(
    entries: Seq<(RomIndex, RomSet)>,
    rom_index: RomIndex,
    pushed: (RomIndex, RomSet),
)
    ensures
        spec_bank_find(entries, rom_index) matches Some(i) ==> spec_bank_find(
            entries.push(pushed),
            rom_index,
        ) == Some(i),
        spec_bank_find(entries, rom_index) is None && pushed.0 == rom_index ==> spec_bank_find(
            entries.push(pushed),
            rom_index,
        ) == Some(entries.len() as int),
        spec_bank_find(entries, rom_index) is None && pushed.0 != rom_index ==> spec_bank_find(
            entries.push(pushed),
            rom_index,
        ) is None,
    decreases entries.len(),
{
    let p = entries.push(pushed);
    if entries.len() == 0 {
        assert(p[0] == pushed);
        if pushed.0 != rom_index {
            assert(p.skip(1) =~= Seq::<(RomIndex, RomSet)>::empty());
        }
    } else {
        assert(p[0] == entries[0]);
        assert(p.skip(1) =~= entries.skip(1).push(pushed));
        lemma_bank_find_push(entries.skip(1), rom_index, pushed);
        if entries[0].0 != rom_index {
            assert(spec_bank_find(entries, rom_index) == match spec_bank_find(
                entries.skip(1),
                rom_index,
            ) {
                Some(i) => Some(i + 1),
                None => None,
            });
            assert(spec_bank_find(p, rom_index) == match spec_bank_find(p.skip(1), rom_index) {
                Some(i) => Some(i + 1),
                None => None,
            });
        }
    }
}

/// Replacing the set stored at one position, keeping its key, moves no
/// entry: every key is found where it was found before.
proof fn lemma_bank_find_update(pre: Seq<(RomIndex, RomSet)>, post: Seq<(RomIndex, RomSet)>, at: int)
    requires
        pre.len() == post.len(),
        0 <= at < pre.len(),
        forall|i: int| 0 <= i < pre.len() && i != at ==> post[i] == pre[i],
        post[at].0 == pre[at].0,
    ensures
        forall|ri: RomIndex| #[trigger] spec_bank_find(post, ri) == spec_bank_find(pre, ri),
    decreases pre.len(),
{
    if at == 0 {
        assert(post.skip(1) =~= pre.skip(1));
    } else {
        assert(post[0] == pre[0]);
        assert forall|i: int| 0 <= i < pre.skip(1).len() && i != at - 1 implies post.skip(1)[i]
            == pre.skip(1)[i] by {
            assert(post.skip(1)[i] == post[i + 1]);
            assert(pre.skip(1)[i] == pre[i + 1]);
        }
        assert(post.skip(1)[at - 1].0 == pre.skip(1)[at - 1].0);
        lemma_bank_find_update(pre.skip(1), post.skip(1), at - 1);
    }
    assert(post[0].0 == pre[0].0);
    assert forall|ri: RomIndex| #[trigger]
        spec_bank_find(post, ri) == spec_bank_find(pre, ri) by {
        assert(spec_bank_find(post.skip(1), ri) == spec_bank_find(pre.skip(1), ri));
    }
}

impl RomSetBank {
    /// The regions, in the order they were registered.
    pub closed spec fn view(&self) -> Seq<(RomIndex, RomSet)> {
        self.entries@
    }

    /// Whether a region is registered for `rom_index`.
    pub open spec fn spec_contains(&self, rom_index: RomIndex) -> bool {
        spec_bank_find(self@, rom_index) is Some
    }

    /// The region registered for `rom_index` (meaningful when present).
    pub open spec fn spec_set(&self, rom_index: RomIndex) -> RomSet
        recommends
            self.spec_contains(rom_index),
    {
        self@[spec_bank_find(self@, rom_index).unwrap()].1
    }

    /// An empty bank.
    pub fn new() -> (r: RomSetBank)
        ensures
            r@.len() == 0,
    {
        RomSetBank { entries: Vec::new() }
    }

    /// Find the position of `rom_index` among the registered regions.
    fn find(&self, rom_index: RomIndex) -> (r: Option<usize>)
        ensures
            r matches Some(i) ==> i < self@.len() && spec_bank_find(self@, rom_index) == Some(
                i as int,
            ),
            r is None ==> spec_bank_find(self@, rom_index) is None,
    {
        let n = self.entries.len();
        let mut i: usize = 0;
        assert(self@.skip(0) =~= self@);
        while i < n
            invariant
                i <= n,
                n == self@.len(),
                spec_bank_find(self@, rom_index) matches Some(j) ==> spec_bank_find(
                    self@.skip(i as int),
                    rom_index,
                ) == Some(j - i),
                spec_bank_find(self@, rom_index) is None ==> spec_bank_find(
                    self@.skip(i as int),
                    rom_index,
                ) is None,
                spec_bank_find(self@.skip(i as int), rom_index) matches Some(j)
                    ==> spec_bank_find(self@, rom_index) == Some(j + i),
            decreases n - i,
        {
            assert(self@.skip(i as int)[0] == self@[i as int]);
            assert(self@.skip(i as int).skip(1) =~= self@.skip(i as int + 1));
            if self.entries[i].0 == rom_index {
                assert(spec_bank_find(self@.skip(i as int), rom_index) == Some(0int));
                return Some(i);
            }
            i = i + 1;
        }
        assert(self@.skip(n as int) =~= Seq::<(RomIndex, RomSet)>::empty());
        None
    }

    /// Register an empty region for `rom_index` if none exists yet: no
    /// other key appears or disappears, existing regions are untouched,
    /// and a region registered here starts with no ranges.
    pub fn register(&mut self, rom_index: RomIndex)
        ensures
            final(self).spec_contains(rom_index),
            old(self).spec_contains(rom_index) ==> *final(self) == *old(self),
            !old(self).spec_contains(rom_index) ==> final(self)@.len() == old(self)@.len() + 1,
            !old(self).spec_contains(rom_index) ==> final(self).spec_set(rom_index)@.len() == 0,
            forall|ri: RomIndex| #[trigger]
                final(self).spec_contains(ri) == (old(self).spec_contains(ri) || ri == rom_index),
            forall|ri: RomIndex|
                old(self).spec_contains(ri) ==> final(self).spec_contains(ri)
                    && final(self).spec_set(ri) == old(self).spec_set(ri),
    {
        match self.find(rom_index) {
            Some(_) => {
            },
            None => {
                let ghost pre = self@;
                let fresh = RomSet::new();
                let ghost entry = (rom_index, fresh);
                self.entries.push((rom_index, fresh));
                proof {
                    assert(self@ == pre.push(entry));
                    lemma_bank_find_push(pre, rom_index, entry);
                    assert(self@[pre.len() as int] == entry);
                    assert forall|ri: RomIndex|
                        spec_bank_find(pre, ri) is Some implies spec_bank_find(self@, ri)
                        == spec_bank_find(pre, ri) && self@[spec_bank_find(pre, ri).unwrap()]
                        == pre[spec_bank_find(pre, ri).unwrap()] by {
                        lemma_bank_find_push(pre, ri, entry);
                        lemma_bank_find_range(pre, ri);
                    }
                    assert forall|ri: RomIndex|
                        ri != rom_index && spec_bank_find(pre, ri) is None implies spec_bank_find(
                        self@,
                        ri,
                    ) is None by {
                        lemma_bank_find_push(pre, ri, entry);
                    }
                }
            },
        }
    }

    /// Whether a region is registered for `rom_index`.
    pub fn contains(&self, rom_index: RomIndex) -> (r: bool)
        ensures
            r == self.spec_contains(rom_index),
    {
        self.find(rom_index).is_some()
    }

    /// Append a byte range to the region registered for `rom_index` and
    /// return the assigned range index; `None` (and no change) when no
    /// region is registered for `rom_index`.
    pub fn add_rom(
        &mut self,
        rom_index: RomIndex,
        memory: &[u8],
        start_address: usize,
        end_address: usize,
    ) -> (r: Option<usize>)
        ensures
            !old(self).spec_contains(rom_index) ==> r is None && *final(self) == *old(self),
            old(self).spec_contains(rom_index) ==> {
                let pre = old(self).spec_set(rom_index)@;
                let post = final(self).spec_set(rom_index)@;
                &&& r == Some(pre.len() as usize)
                &&& post.len() == pre.len() + 1
                &&& (forall|i: int| 0 <= i < pre.len() ==> post[i] == pre[i])
                &&& post[pre.len() as int].start_address == start_address
                &&& post[pre.len() as int].end_address == end_address
                &&& post[pre.len() as int].data@ == memory@
            },
            forall|ri: RomIndex| #[trigger]
                final(self).spec_contains(ri) == old(self).spec_contains(ri),
            forall|ri: RomIndex|
                ri != rom_index && old(self).spec_contains(ri) ==> final(self).spec_set(ri) == old(
                    self,
                ).spec_set(ri),
    {
        match self.find(rom_index) {
            Some(i) => {
                let ghost pre = self@;
                let index_no = self.entries[i].1.add_rom(memory, start_address, end_address);
                proof {
                    lemma_bank_find_range(pre, rom_index);
                    lemma_bank_find_update(pre, self@, i as int);
                    assert forall|ri: RomIndex|
                        ri != rom_index && spec_bank_find(pre, ri) is Some implies self@[
                        spec_bank_find(pre, ri).unwrap()].1 == pre[spec_bank_find(
                        pre,
                        ri,
                    ).unwrap()].1 by {
                        lemma_bank_find_range(pre, ri);
                    }
                }
                Some(index_no)
            },
            None => None,
        }
    }

    /// Read one byte from the region registered for `rom_index`; a missing
    /// region (or unmapped address) reads as `0`.
    pub fn read(&self, rom_index: RomIndex, address: usize) -> (r: u8)
        ensures
            self.spec_contains(rom_index) ==> r == spec_rom_read(
                self.spec_set(rom_index)@,
                address as int,
            ),
            !self.spec_contains(rom_index) ==> r == 0,
    {
        match self.find(rom_index) {
            Some(i) => self.entries[i].1.read(address),
            None => 0,
        }
    }
}

} // verus!
