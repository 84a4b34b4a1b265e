//! The memory offsets `MMAP` buffers are known by, the guest mappings made of them, and the
//! buffers a device is done with while the guest still maps them.
use vstd::prelude::*;

use crate::errno::EINVAL;
use crate::host::{
    continued, HostBuffer, MapperCall, MapperPort, PoolCall, PoolPort, VirtioMediaBufferAllocator,
    VirtioMediaHostMemoryMapper,
};

verus! {

/// Offsets are multiples of a page, so that the guest can map them.
pub const PAGE_SIZE: u64 = 4096;

/// One past the last offset a 32-bit number names.
pub const OFFSET_END: u64 = 0x1_0000_0000;

/// The offsets a registered buffer occupies.
#[derive(Clone, Copy, Debug, PartialEq, Eq, Structural)]
pub struct MmapRange {
    pub offset: u32,
    pub size: u32,
}

/// Offsets a buffer of `size` bytes occupies: at least one, so that no two buffers share one.
pub open spec fn extent(size: u32) -> int {
    if size == 0 {
        1
    } else {
        size as int
    }
}

impl MmapRange {
    /// One past the last occupied offset.
    pub open spec fn end(self) -> int {
        self.offset + extent(self.size)
    }
}

/// A guest mapping of a buffer.
#[derive(Clone, Copy, Debug, PartialEq, Eq, Structural)]
pub struct MmapMapping {
    /// Where the guest sees it.
    pub addr: u64,
    /// The buffer's offset.
    pub offset: u32,
}

/// Whether `n` offsets at `at` are page-aligned, in range and occupied by no buffer.
pub open spec fn free_at(ranges: Set<MmapRange>, at: int, n: int) -> bool {
    &&& at >= 0
    &&& at % (PAGE_SIZE as int) == 0
    &&& at + n <= OFFSET_END
    &&& forall|r: MmapRange| #[trigger] ranges.contains(r) ==> at + n <= r.offset || r.end() <= at
}

/// Whether ranges are sorted and disjoint.
pub open spec fn disjoint(ranges: Seq<MmapRange>) -> bool {
    &&& forall|i: int, j: int| 0 <= i < j < ranges.len() ==> ranges[i].end() <= ranges[j].offset
    &&& forall|i: int| 0 <= i < ranges.len() ==> (#[trigger] ranges[i]).end() <= OFFSET_END
}

/// Whether every range begins a page.
pub open spec fn on_pages(ranges: Seq<MmapRange>) -> bool {
    forall|i: int| 0 <= i < ranges.len() ==> (#[trigger] ranges[i]).offset as int % 4096 == 0
}

/// Whether some guest mapping is of the buffer at `offset`.
pub open spec fn mapped(mappings: Seq<MmapMapping>, offset: u32) -> bool {
    exists|i: int| 0 <= i < mappings.len() && (#[trigger] mappings[i]).offset == offset
}

/// Whether a buffer is registered at `offset`.
pub open spec fn registered(ranges: Set<MmapRange>, offset: u32) -> bool {
    exists|r: MmapRange| #[trigger] ranges.contains(r) && r.offset == offset
}

/// The ranges without the one at `offset`.
pub open spec fn without(ranges: Set<MmapRange>, offset: u32) -> Set<MmapRange> {
    Set::new(|r: MmapRange| ranges.contains(r) && r.offset != offset)
}

/// Keeps track of the offsets and guest mappings of a device's `MMAP` buffers.
pub struct MmapMappingManager<HM: VirtioMediaHostMemoryMapper> {
    pub mapper: MapperPort<HM>,
    /// The registered buffers, by offset.
    pub ranges: Vec<MmapRange>,
    /// The guest mappings, oldest first.
    pub mappings: Vec<MmapMapping>,
}

impl<HM: VirtioMediaHostMemoryMapper> MmapMappingManager<HM> {
    /// No two buffers share an offset, each begins a page, and the mapper was asked for just what
    /// is on record.
    pub open spec fn wf(&self) -> bool {
        &&& disjoint(self.ranges@)
        &&& on_pages(self.ranges@)
        &&& self.mapper.faithful()
    }

    /// The offsets in use.
    pub open spec fn taken(&self) -> Set<MmapRange> {
        self.ranges@.to_set()
    }

    /// Nothing is registered, nothing is mapped.
    pub fn new(mapper: HM) -> (r: Self)
        ensures
            r.wf(),
            r.taken() == Set::<MmapRange>::empty(),
            r.mappings@ == Seq::<MmapMapping>::empty(),
            r.mapper.calls@ == Seq::<MapperCall<HM::Handle>>::empty(),
            r.mapper.mapper == mapper,
    {
        let r = MmapMappingManager {
            mapper: MapperPort::new(mapper),
            ranges: Vec::new(),
            mappings: Vec::new(),
        };
        assert(r.taken() =~= Set::<MmapRange>::empty());
        r
    }

    /// Registers a buffer of `size` bytes at the lowest free offset, or `EINVAL` where none is
    /// left.
    pub fn register_buffer(&mut self, size: u32) -> (r: Result<u32, i32>)
        requires
            old(self).wf(),
        ensures
            final(self).wf(),
            final(self).mappings == old(self).mappings,
            final(self).mapper == old(self).mapper,
            match r {
                Ok(offset) => {
                    &&& free_at(old(self).taken(), offset as int, extent(size))
                    &&& forall|p: int| #[trigger]
                        free_at(old(self).taken(), p, extent(size)) ==> offset <= p
                    &&& final(self).taken() == old(self).taken().insert(
                        MmapRange { offset, size },
                    )
                },
                Err(e) => {
                    &&& e == EINVAL
                    &&& forall|p: int| !#[trigger] free_at(old(self).taken(), p, extent(size))
                    &&& final(self).ranges == old(self).ranges
                },
            },
    {
        let n: u64 = if size == 0 {
            1
        } else {
            size as u64
        };
        let mut cursor: u64 = 0;
        let mut i: usize = 0;
        while i < self.ranges.len()
            invariant
                *self == *old(self),
                self.wf(),
                n == extent(size),
                i <= self.ranges@.len(),
                cursor <= OFFSET_END,
                cursor as int % 4096 == 0,
                forall|j: int| 0 <= j < i ==> (#[trigger] self.ranges@[j]).end() <= cursor,
                forall|p: int| #[trigger] free_at(self.taken(), p, n as int) ==> p >= cursor,
            decreases self.ranges@.len() - i,
        {
            let range: MmapRange = self.ranges[i];
            if cursor + n <= range.offset as u64 {
                let at: u32 = cursor as u32;
                let ghost before = self.ranges@;
                assert(free_at(self.taken(), at as int, n as int));
                let new: MmapRange = MmapRange { offset: at, size };
                self.ranges.insert(i, new);
                proof {
                    inserting_adds_one(before, i as int, new);
                }
                return Ok(at);
            }
            let end: u64 = range.offset as u64 + if range.size == 0 {
                1
            } else {
                range.size as u64
            };
            let next: u64 = (end + 4095) / 4096 * 4096;
            assert forall|p: int| #[trigger] free_at(self.taken(), p, n as int) implies p
                >= next by {
                assert(self.taken().contains(self.ranges@[i as int]));
            }
            if next > cursor {
                cursor = next;
            }
            i = i + 1;
        }
        if cursor + n <= OFFSET_END {
            let at: u32 = cursor as u32;
            let ghost before = self.ranges@;
            assert(free_at(self.taken(), at as int, n as int));
            let new: MmapRange = MmapRange { offset: at, size };
            self.ranges.push(new);
            proof {
                assert(self.ranges@ == before.insert(before.len() as int, new));
                inserting_adds_one(before, before.len() as int, new);
            }
            Ok(at)
        } else {
            assert forall|p: int| !#[trigger] free_at(self.taken(), p, n as int) by {
                if free_at(self.taken(), p, n as int) {
                    assert(p >= cursor);
                }
            }
            Err(EINVAL)
        }
    }

    /// Whether some guest mapping is of the buffer at `offset`.
    pub fn is_mapped(&self, offset: u32) -> (r: bool)
        ensures
            r == mapped(self.mappings@, offset),
    {
        let mut i: usize = 0;
        while i < self.mappings.len()
            invariant
                i <= self.mappings@.len(),
                forall|j: int| 0 <= j < i ==> (#[trigger] self.mappings@[j]).offset != offset,
            decreases self.mappings@.len() - i,
        {
            if self.mappings[i].offset == offset {
                return true;
            }
            i = i + 1;
        }
        false
    }

    /// Forgets the buffer at `offset`; the offset may be given out again.
    pub fn unregister_buffer(&mut self, offset: u32)
        requires
            old(self).wf(),
        ensures
            final(self).wf(),
            final(self).mappings == old(self).mappings,
            final(self).mapper == old(self).mapper,
            final(self).taken() == without(old(self).taken(), offset),
    {
        let ghost all = self.ranges@;
        let mut i: usize = 0;
        while i < self.ranges.len()
            invariant
                *self == *old(self),
                self.wf(),
                all == self.ranges@,
                i <= self.ranges@.len(),
                forall|j: int| 0 <= j < i ==> (#[trigger] self.ranges@[j]).offset != offset,
            decreases self.ranges@.len() - i,
        {
            if self.ranges[i].offset == offset {
                self.ranges.remove(i);
                proof {
                    removing_drops_one(all, i as int);
                }
                return;
            }
            i = i + 1;
        }
        assert(without(self.taken(), offset) =~= self.taken()) by {
            assert forall|r: MmapRange| self.taken().contains(r) implies r.offset != offset by {
                let j = choose|j: int| 0 <= j < all.len() && all[j] == r;
                assert(self.ranges@[j].offset != offset);
            }
        }
    }

    /// Makes the buffer at `offset` visible to the guest: the address the guest sees it at and
    /// the buffer's length. `EINVAL` for an offset no buffer is registered at, and whatever the
    /// mapper refuses with.
    pub fn create_mapping(
        &mut self,
        offset: u32,
        buffer: &HostBuffer<HM::Handle>,
        rw: bool,
    ) -> (r: Result<(u64, u64), i32>)
        requires
            old(self).wf(),
        ensures
            final(self).wf(),
            continued(old(self).mapper.path@, final(self).mapper.path@),
            final(self).ranges == old(self).ranges,
            !registered(old(self).taken(), offset) ==> r == Err::<(u64, u64), i32>(EINVAL)
                && *final(self) == *old(self),
            registered(old(self).taken(), offset) ==> exists|at: Result<u64, i32>|
                {
                    &&& final(self).mapper.calls@ == #[trigger] old(self).mapper.calls@.push(
                        MapperCall::Add { buffer: *buffer, offset: offset as u64, rw, at },
                    )
                    &&& match at {
                        Ok(addr) => {
                            &&& r == Ok::<(u64, u64), i32>((addr, buffer.len))
                            &&& final(self).mappings@ == old(self).mappings@.push(
                                MmapMapping { addr, offset },
                            )
                        },
                        Err(e) => {
                            &&& r == Err::<(u64, u64), i32>(e)
                            &&& final(self).mappings == old(self).mappings
                        },
                    }
                },
    {
        let mut i: usize = 0;
        while i < self.ranges.len()
            invariant
                *self == *old(self),
                self.wf(),
                i <= self.ranges@.len(),
                forall|j: int| 0 <= j < i ==> (#[trigger] self.ranges@[j]).offset != offset,
            decreases self.ranges@.len() - i,
        {
            if self.ranges[i].offset == offset {
                assert(self.taken().contains(self.ranges@[i as int]));
                let at = self.mapper.add_mapping(buffer, offset as u64, rw);
                return match at {
                    Ok(addr) => {
                        self.mappings.push(MmapMapping { addr, offset });
                        Ok((addr, buffer.len))
                    },
                    Err(e) => Err(e),
                };
            }
            i = i + 1;
        }
        assert(!registered(self.taken(), offset)) by {
            if registered(self.taken(), offset) {
                let r = choose|r: MmapRange| #[trigger]
                    self.taken().contains(r) && r.offset == offset;
                let j = choose|j: int| 0 <= j < self.ranges@.len() && self.ranges@[j] == r;
                assert(self.ranges@[j].offset != offset);
            }
        }
        Err(EINVAL)
    }

    /// Removes the guest mapping at `addr`: `EINVAL` if there is none, and whatever the mapper
    /// refuses with.
    pub fn remove_mapping(&mut self, addr: u64) -> (r: Result<(), i32>)
        requires
            old(self).wf(),
        ensures
            final(self).wf(),
            continued(old(self).mapper.path@, final(self).mapper.path@),
            final(self).ranges == old(self).ranges,
            (forall|i: int|
                0 <= i < old(self).mappings@.len() ==> (#[trigger] old(self).mappings@[i]).addr
                    != addr) ==> r == Err::<(), i32>(EINVAL) && *final(self) == *old(self),
            forall|i: int|
                #![trigger old(self).mappings@[i]]
                0 <= i < old(self).mappings@.len() && old(self).mappings@[i].addr == addr && (
                forall|j: int| 0 <= j < i ==> (#[trigger] old(self).mappings@[j]).addr != addr)
                    ==> final(self).mapper.calls@ == old(self).mapper.calls@.push(
                    MapperCall::Remove { shm_offset: addr, done: r },
                ) && final(self).mappings@ == (if r is Ok {
                    old(self).mappings@.remove(i)
                } else {
                    old(self).mappings@
                }),
    {
        let mut i: usize = 0;
        while i < self.mappings.len()
            invariant
                *self == *old(self),
                self.wf(),
                i <= self.mappings@.len(),
                forall|j: int| 0 <= j < i ==> (#[trigger] self.mappings@[j]).addr != addr,
            decreases self.mappings@.len() - i,
        {
            if self.mappings[i].addr == addr {
                let done = self.mapper.remove_mapping(addr);
                if done.is_ok() {
                    self.mappings.remove(i);
                }
                return done;
            }
            i = i + 1;
        }
        Err(EINVAL)
    }
}

/// Inserting into a list adds one member.
proof fn inserting_adds_one(ranges: Seq<MmapRange>, k: int, new: MmapRange)
    requires
        0 <= k <= ranges.len(),
    ensures
        ranges.insert(k, new).to_set() == ranges.to_set().insert(new),
{
    let after = ranges.insert(k, new);
    assert forall|r: MmapRange| after.contains(r) <==> ranges.contains(r) || r == new by {
        if after.contains(r) {
            let j = choose|j: int| 0 <= j < after.len() && after[j] == r;
            if j < k {
                assert(ranges[j] == r);
            } else if j > k {
                assert(ranges[j - 1] == r);
            }
        }
        if ranges.contains(r) {
            let j = choose|j: int| 0 <= j < ranges.len() && ranges[j] == r;
            if j < k {
                assert(after[j] == r);
            } else {
                assert(after[j + 1] == r);
            }
        }
        assert(after[k] == new);
    }
    assert(after.to_set() =~= ranges.to_set().insert(new));
}

/// In disjoint ranges one offset names one range, and removing it drops that range alone.
proof fn removing_drops_one(ranges: Seq<MmapRange>, i: int)
    requires
        disjoint(ranges),
        0 <= i < ranges.len(),
    ensures
        ranges.remove(i).to_set() == without(ranges.to_set(), ranges[i].offset),
        disjoint(ranges.remove(i)),
{
    let after = ranges.remove(i);
    assert forall|r: MmapRange|
        after.contains(r) <==> ranges.contains(r) && r.offset != ranges[i].offset by {
        if after.contains(r) {
            let j = choose|j: int| 0 <= j < after.len() && after[j] == r;
            let k = if j < i {
                j
            } else {
                j + 1
            };
            assert(ranges[k] == r);
            if k < i {
                assert(ranges[k].end() <= ranges[i].offset);
            } else {
                assert(ranges[i].end() <= ranges[k].offset);
            }
        }
        if ranges.contains(r) && r.offset != ranges[i].offset {
            let k = choose|k: int| 0 <= k < ranges.len() && ranges[k] == r;
            if k < i {
                assert(after[k] == r);
            } else {
                assert(after[k - 1] == r);
            }
        }
    }
    assert(after.to_set() =~= without(ranges.to_set(), ranges[i].offset));
}

/// A buffer a device is done with.
pub struct Retired<H> {
    pub offset: u32,
    pub buffer: HostBuffer<H>,
}

/// Freed `MMAP` buffers the guest still maps: they go back to the allocator when it no longer
/// does.
pub struct RetiredBuffers<H> {
    pub held: Vec<Retired<H>>,
}

/// The retired buffers the guest still maps.
pub open spec fn still_held<H>(held: Seq<Retired<H>>, mappings: Seq<MmapMapping>) -> Seq<
    Retired<H>,
>
    decreases held.len(),
{
    if held.len() == 0 {
        Seq::empty()
    } else if mapped(mappings, held.last().offset) {
        still_held(held.drop_last(), mappings).push(held.last())
    } else {
        still_held(held.drop_last(), mappings)
    }
}

/// The releases of the retired buffers the guest no longer maps, in order.
pub open spec fn let_go<H>(held: Seq<Retired<H>>, mappings: Seq<MmapMapping>) -> Seq<PoolCall<H>>
    decreases held.len(),
{
    if held.len() == 0 {
        Seq::empty()
    } else if mapped(mappings, held.last().offset) {
        let_go(held.drop_last(), mappings)
    } else {
        let_go(held.drop_last(), mappings).push(PoolCall::Release { buffer: held.last().buffer })
    }
}

/// The registered ranges without those of the retired buffers the guest no longer maps.
pub open spec fn ranges_after<H>(
    held: Seq<Retired<H>>,
    mappings: Seq<MmapMapping>,
    ranges: Set<MmapRange>,
) -> Set<MmapRange>
    decreases held.len(),
{
    if held.len() == 0 {
        ranges
    } else {
        let before = ranges_after(held.drop_last(), mappings, ranges);
        if mapped(mappings, held.last().offset) {
            before
        } else {
            without(before, held.last().offset)
        }
    }
}

impl<H> RetiredBuffers<H> {
    /// Nothing is held.
    pub fn new() -> (r: Self)
        ensures
            r.held@ == Seq::<Retired<H>>::empty(),
    {
        RetiredBuffers { held: Vec::new() }
    }

    /// Takes a buffer the device is done with: held while the guest maps it, else unregistered
    /// and given back to the allocator.
    pub fn retire<
        HM: VirtioMediaHostMemoryMapper<Handle = H>,
        A: VirtioMediaBufferAllocator<Handle = H>,
    >(
        &mut self,
        manager: &mut MmapMappingManager<HM>,
        pool: &mut PoolPort<A>,
        offset: u32,
        buffer: HostBuffer<H>,
    )
        requires
            old(manager).wf(),
            old(pool).faithful(),
        ensures
            final(manager).wf(),
            final(pool).faithful(),
            continued(old(pool).path@, final(pool).path@),
            final(manager).mappings == old(manager).mappings,
            final(manager).mapper == old(manager).mapper,
            mapped(old(manager).mappings@, offset) ==> {
                &&& final(self).held@ == old(self).held@.push(Retired { offset, buffer })
                &&& final(manager).ranges == old(manager).ranges
                &&& *final(pool) == *old(pool)
            },
            !mapped(old(manager).mappings@, offset) ==> {
                &&& final(self).held == old(self).held
                &&& final(manager).taken() == without(old(manager).taken(), offset)
                &&& final(pool).calls@ == old(pool).calls@.push(PoolCall::Release { buffer })
            },
    {
        if manager.is_mapped(offset) {
            self.held.push(Retired { offset, buffer });
        } else {
            manager.unregister_buffer(offset);
            pool.release(buffer);
        }
    }

    /// Gives back every held buffer the guest no longer maps.
    pub fn reap<
        HM: VirtioMediaHostMemoryMapper<Handle = H>,
        A: VirtioMediaBufferAllocator<Handle = H>,
    >(&mut self, manager: &mut MmapMappingManager<HM>, pool: &mut PoolPort<A>)
        requires
            old(manager).wf(),
            old(pool).faithful(),
        ensures
            final(manager).wf(),
            final(pool).faithful(),
            continued(old(pool).path@, final(pool).path@),
            final(manager).mappings == old(manager).mappings,
            final(manager).mapper == old(manager).mapper,
            final(self).held@ == still_held(old(self).held@, old(manager).mappings@),
            final(pool).calls@ == old(pool).calls@ + let_go(
                old(self).held@,
                old(manager).mappings@,
            ),
            final(manager).taken() == ranges_after(
                old(self).held@,
                old(manager).mappings@,
                old(manager).taken(),
            ),
    {
        let ghost all = self.held@;
        let mut kept: Vec<Retired<H>> = Vec::new();
        let ghost mut done: int = 0;
        while self.held.len() > 0
            invariant
                pool.faithful(),
                continued(old(pool).path@, pool.path@),
                manager.wf(),
                manager.mappings == old(manager).mappings,
                manager.mapper == old(manager).mapper,
                all == old(self).held@,
                0 <= done <= all.len(),
                self.held@ == all.skip(done),
                kept@ == still_held(all.take(done), manager.mappings@),
                pool.calls@ == old(pool).calls@ + let_go(all.take(done), manager.mappings@),
                manager.taken() == ranges_after(
                    all.take(done),
                    manager.mappings@,
                    old(manager).taken(),
                ),
            decreases self.held@.len(),
        {
            let retired = self.held.remove(0);
            proof {
                assert(all.take(done + 1).drop_last() == all.take(done));
                assert(all.take(done + 1).last() == retired);
                assert(self.held@ == all.skip(done + 1));
            }
            if manager.is_mapped(retired.offset) {
                kept.push(retired);
            } else {
                manager.unregister_buffer(retired.offset);
                pool.release(retired.buffer);
            }
            proof {
                done = done + 1;
            }
        }
        assert(all.take(done) == all);
        self.held = kept;
    }
}

/// A retired buffer the guest maps is not given back, and stays held.
pub proof fn mapped_buffers_are_never_released<H>(
    held: Seq<Retired<H>>,
    mappings: Seq<MmapMapping>,
    i: int,
)
    requires
        0 <= i < held.len(),
        mapped(mappings, held[i].offset),
    ensures
        still_held(held, mappings).contains(held[i]),
        still_held(held, mappings).len() + let_go(held, mappings).len() == held.len(),
    decreases held.len(),
{
    retired_are_held_or_let_go(held, mappings);
    if i == held.len() - 1 {
        let s = still_held(held, mappings);
        assert(s[s.len() - 1] == held[i]);
    } else {
        mapped_buffers_are_never_released(held.drop_last(), mappings, i);
        let s = still_held(held.drop_last(), mappings);
        let k = choose|k: int| 0 <= k < s.len() && s[k] == held[i];
        assert(still_held(held, mappings)[k] == held[i]);
    }
}

/// Once reaped, only buffers the guest maps are held.
pub proof fn only_mapped_buffers_stay_held<H>(
    held: Seq<Retired<H>>,
    mappings: Seq<MmapMapping>,
    i: int,
)
    requires
        0 <= i < still_held(held, mappings).len(),
    ensures
        mapped(mappings, still_held(held, mappings)[i].offset),
    decreases held.len(),
{
    if held.len() > 0 {
        let before = still_held(held.drop_last(), mappings);
        if i < before.len() {
            only_mapped_buffers_stay_held(held.drop_last(), mappings, i);
        }
    }
}

/// Every retired buffer is either still held or given back.
proof fn retired_are_held_or_let_go<H>(held: Seq<Retired<H>>, mappings: Seq<MmapMapping>)
    ensures
        still_held(held, mappings).len() + let_go(held, mappings).len() == held.len(),
    decreases held.len(),
{
    if held.len() > 0 {
        retired_are_held_or_let_go(held.drop_last(), mappings);
    }
}

/// The offsets of two buffers are pages of their own: the one behind begins no earlier than the
/// other ends, and the guest can map each alone.
pub proof fn offsets_are_apart<HM: VirtioMediaHostMemoryMapper>(
    manager: MmapMappingManager<HM>,
    i: int,
    j: int,
)
    requires
        manager.wf(),
        0 <= i < j < manager.ranges@.len(),
    ensures
        manager.ranges@[i].offset as int % 4096 == 0,
        manager.ranges@[j].offset as int % 4096 == 0,
        manager.ranges@[i].offset + manager.ranges@[i].size <= manager.ranges@[j].offset,
        manager.ranges@[i].offset < manager.ranges@[j].offset,
        manager.ranges@[j].offset + manager.ranges@[j].size <= 0x1_0000_0000,
{
}

/// A place is free where a page begins, the buffer lies below the end, and no buffer is.
pub proof fn free_places_are_pages(ranges: Set<MmapRange>, at: int, n: int, r: MmapRange)
    requires
        free_at(ranges, at, n),
        ranges.contains(r),
        n >= 1,
    ensures
        at >= 0 && at % 4096 == 0 && at + n <= 0x1_0000_0000,
        at + n <= r.offset || r.offset + r.size <= at,
        at != r.offset,
{
}

/// A retired buffer that the guest no longer maps is given back, and its offset is free again.
pub proof fn unmapped_buffers_are_given_back<H>(
    held: Seq<Retired<H>>,
    mappings: Seq<MmapMapping>,
    ranges: Set<MmapRange>,
    i: int,
)
    requires
        0 <= i < held.len(),
        !mapped(mappings, held[i].offset),
    ensures
        let_go(held, mappings).contains(PoolCall::Release { buffer: held[i].buffer }),
        !registered(ranges_after(held, mappings, ranges), held[i].offset),
    decreases held.len(),
{
    let rest = held.drop_last();
    let all = let_go(held, mappings);
    let released = PoolCall::Release { buffer: held[i].buffer };
    if i < rest.len() {
        unmapped_buffers_are_given_back(rest, mappings, ranges, i);
        let before = let_go(rest, mappings);
        let j = choose|j: int| 0 <= j < before.len() && before[j] == released;
        assert(all[j] == released);
    } else {
        assert(all[all.len() - 1] == released);
    }
}

} // verus!
