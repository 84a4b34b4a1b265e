//! Allocating and freeing the buffers of a queue.
use vstd::prelude::*;

use super::backend::VideoEncoderBackend;
use super::controls::MAX_BUFFERS;
use super::device::{DeviceView, VideoEncoder};
use super::queue::{empty_queue, none_lent, Backing, Buffer, Queue, QueueView};
use super::session::SessionView;
use crate::errno::EINVAL;
use crate::host::{
    HostBuffer, PoolCall, VirtioMediaBufferAllocator, VirtioMediaEventQueue,
    VirtioMediaGuestMemoryMapper, VirtioMediaHostMemoryMapper,
};
use crate::mmap::{extent, free_at, mapped, registered, without, MmapRange, Retired};
use crate::v4l2::{
    MemoryType, QueueDirection, QueueType, Timeval, V4l2Buffer, V4l2Plane, FIELD_NONE,
    FLAG_TIMESTAMP_COPY,
};

verus! {

/// What freeing a list of buffers does to the device: each host buffer is unregistered and goes
/// back to the allocator, or is held while the guest maps it.
pub open spec fn freed<GM, H, S, K>(
    d: DeviceView<GM, H, S, K>,
    buffers: Seq<Buffer<GM, H>>,
) -> DeviceView<GM, H, S, K>
    decreases buffers.len(),
{
    if buffers.len() == 0 {
        d
    } else {
        let e = freed(d, buffers.drop_last());
        match buffers.last().backing {
            Backing::Host { buffer, offset } => if mapped(e.mappings, offset) {
                DeviceView { retired: e.retired.push(Retired { offset, buffer }), ..e }
            } else {
                DeviceView {
                    ranges: without(e.ranges, offset),
                    pool: e.pool.push(PoolCall::Release { buffer }),
                    ..e
                }
            },
            Backing::Guest(_) => e,
        }
    }
}

/// A queue that does not stream has no buffer with the codec: freeing its buffers takes nothing
/// from under it.
pub proof fn idle_queues_lend_nothing<GM, H, S, K>(
    d: DeviceView<GM, H, S, K>,
    s: SessionView<GM, H>,
    direction: QueueDirection,
)
    requires
        d.fits(s),
        !s.streaming(direction),
    ensures
        none_lent(s.queue(direction)),
{
    let q = s.queue(direction);
    assert forall|i: int| 0 <= i < q.buffers.len() implies !(#[trigger] q.buffers[i]).lent by {
        if q.buffers[i].lent {
            assert(q.buffers[i as usize as int].lent);
            assert(q.lending.contains(i as usize));
        }
    }
}

/// Freeing buffers that were all returned to the guest is freeing them as they were.
pub proof fn returning_before_freeing<GM, H, S, K>(
    d: DeviceView<GM, H, S, K>,
    q: QueueView<GM, H>,
)
    ensures
        freed(d, q.all_returned().buffers) == freed(d, q.buffers),
        none_lent(q.all_returned()),
    decreases q.buffers.len(),
{
    if q.buffers.len() > 0 {
        let before = QueueView { buffers: q.buffers.drop_last(), ..q };
        returning_before_freeing(d, before);
        assert(q.all_returned().buffers.drop_last() =~= before.all_returned().buffers);
    }
}

/// Freeing buffers touches only the offsets, the allocator and the retired buffers.
pub proof fn freeing_leaves_the_rest<GM, H, S, K>(
    d: DeviceView<GM, H, S, K>,
    buffers: Seq<Buffer<GM, H>>,
)
    ensures
        freed(d, buffers) == (DeviceView {
            ranges: freed(d, buffers).ranges,
            pool: freed(d, buffers).pool,
            retired: freed(d, buffers).retired,
            ..d
        }),
    decreases buffers.len(),
{
    if buffers.len() > 0 {
        freeing_leaves_the_rest(d, buffers.drop_last());
    }
}

/// The offset a host buffer is known by.
pub open spec fn offset_of<GM, H>(b: Buffer<GM, H>) -> u32 {
    match b.backing {
        Backing::Host { offset, .. } => offset,
        Backing::Guest(_) => 0,
    }
}

/// The host buffer behind a buffer.
pub open spec fn host_of<GM, H>(b: Buffer<GM, H>) -> HostBuffer<H> {
    b.backing->buffer
}

/// Whether a buffer is new, as number `i` of a queue: with the guest, sized, with a copied
/// timestamp, and backed as its memory type says.
pub open spec fn is_fresh<GM, H>(
    b: Buffer<GM, H>,
    i: int,
    queue: QueueType,
    memory: MemoryType,
    size: u32,
) -> bool {
    let v = b.v4l2_buffer;
    &&& v.index == i
    &&& v.queue == queue
    &&& v.memory == memory
    &&& v.flags == FLAG_TIMESTAMP_COPY
    &&& v.field == FIELD_NONE
    &&& v.timestamp == (Timeval { sec: 0, usec: 0 })
    &&& v.timecode == (0u64, 0u64)
    &&& v.sequence == 0
    &&& v.bytesused == 0
    &&& v.m == 0
    &&& v.length == 1
    &&& v.reserved2 == 0
    &&& v.request_fd == 0
    &&& v.plane0 == (V4l2Plane {
        length: size,
        m: if memory == MemoryType::Mmap {
            offset_of(b) as u64
        } else {
            0
        },
        ..V4l2Plane::zero()
    })
    &&& forall|k: int| 1 <= k < 8 ==> #[trigger] v.plane(k) == V4l2Plane::zero()
    &&& !b.queued && !b.lent && b.prepared is None
    &&& b.size == size
    &&& match b.backing {
        Backing::Host { .. } => memory == MemoryType::Mmap,
        Backing::Guest(m) => memory == MemoryType::UserPtr && m is None,
    }
}

/// The allocations that gave the host buffers of a list.
pub open spec fn allocations<GM, H>(added: Seq<Buffer<GM, H>>, size: u32) -> Seq<PoolCall<H>> {
    Seq::new(
        added.len(),
        |k: int| PoolCall::Allocate { len: size as u64, answer: Ok(host_of(added[k])) },
    )
}

/// The releases of the host buffers of a list.
pub open spec fn releases<GM, H>(added: Seq<Buffer<GM, H>>) -> Seq<PoolCall<H>> {
    Seq::new(added.len(), |k: int| PoolCall::Release { buffer: host_of(added[k]) })
}

/// The offsets in use with those of a list of host buffers.
pub open spec fn with_new<GM, H>(
    ranges: Set<MmapRange>,
    added: Seq<Buffer<GM, H>>,
    size: u32,
) -> Set<MmapRange> {
    Set::new(
        |r: MmapRange|
            ranges.contains(r) || (r.size == size && exists|k: int|
                0 <= k < added.len() && offset_of(#[trigger] added[k]) == r.offset),
    )
}

/// Whether the offsets of a list of host buffers are new and all different.
pub open spec fn offsets_are_new<GM, H>(
    ranges: Set<MmapRange>,
    added: Seq<Buffer<GM, H>>,
) -> bool {
    &&& forall|k: int|
        0 <= k < added.len() ==> !registered(ranges, offset_of(#[trigger] added[k]))
    &&& forall|j: int, k: int|
        0 <= j < k < added.len() ==> offset_of(#[trigger] added[j]) != offset_of(
            #[trigger] added[k],
        )
}

/// Whether each of a list of host buffers was put at a place that was free of all before it.
pub open spec fn places_are_free<GM, H>(
    ranges: Set<MmapRange>,
    added: Seq<Buffer<GM, H>>,
    size: u32,
) -> bool {
    forall|k: int|
        0 <= k < added.len() ==> free_at(
            with_new(ranges, added.take(k), size),
            offset_of(#[trigger] added[k]) as int,
            extent(size),
        )
}

/// What adding buffers does to the device when it succeeds.
pub open spec fn added_to<GM, H, S, K>(
    d: DeviceView<GM, H, S, K>,
    added: Seq<Buffer<GM, H>>,
    memory: MemoryType,
    size: u32,
) -> DeviceView<GM, H, S, K> {
    if memory == MemoryType::Mmap {
        DeviceView {
            pool: d.pool + allocations(added, size),
            ranges: with_new(d.ranges, added, size),
            ..d
        }
    } else {
        d
    }
}

/// The calls of an attempt to add buffers that failed: the host buffers allocated so far, the
/// attempt that failed, and every one of them given back.
pub open spec fn attempt<GM, H>(
    added: Seq<Buffer<GM, H>>,
    size: u32,
    last: Result<HostBuffer<H>, i32>,
) -> Seq<PoolCall<H>> {
    let tried = allocations(added, size).push(
        PoolCall::Allocate { len: size as u64, answer: last },
    );
    match last {
        Ok(h) => tried.push(PoolCall::Release { buffer: h }) + releases(added),
        Err(_) => tried + releases(added),
    }
}

/// Whether no offset is left for a buffer of `size` bytes.
pub open spec fn no_place(ranges: Set<MmapRange>, size: u32) -> bool {
    forall|p: int| !#[trigger] free_at(ranges, p, extent(size))
}

/// What adding buffers does to the device when it fails with `errno`: everything allocated is
/// given back, and no offset stays in use. The allocator's own refusal is the errno; `EINVAL`
/// where no offset was left, or for a memory type no buffer can have.
pub open spec fn add_failed<GM, H, S, K>(
    d: DeviceView<GM, H, S, K>,
    memory: MemoryType,
    count: int,
    size: u32,
    errno: i32,
    d2: DeviceView<GM, H, S, K>,
) -> bool {
    if memory == MemoryType::Mmap {
        exists|added: Seq<Buffer<GM, H>>, last: Result<HostBuffer<H>, i32>|
            {
                &&& added.len() < count
                &&& d2 == (DeviceView { pool: d.pool + #[trigger] attempt(added, size, last), ..d })
                &&& match last {
                    Ok(_) => {
                        &&& errno == EINVAL
                        &&& offsets_are_new(d.ranges, added)
                        &&& no_place(with_new(d.ranges, added, size), size)
                    },
                    Err(e) => errno == e,
                }
            }
    } else {
        memory != MemoryType::UserPtr && errno == EINVAL && d2 == d
    }
}

/// A free place is at an offset no buffer has.
proof fn free_places_are_unregistered(ranges: Set<MmapRange>, at: u32, size: u32)
    requires
        free_at(ranges, at as int, extent(size)),
    ensures
        !registered(ranges, at),
{
}

/// A buffer from the guest or the host, not yet used.
fn fresh_buffer<GM, H>(
    queue: QueueType,
    index: usize,
    memory: MemoryType,
    size: u32,
    backing: Backing<GM, H>,
) -> (r: Buffer<GM, H>)
    requires
        queue.multiplanar(),
        index < 32,
        match backing {
            Backing::Host { .. } => memory == MemoryType::Mmap,
            Backing::Guest(m) => memory == MemoryType::UserPtr && m is None,
        },
    ensures
        is_fresh(r, index as int, queue, memory, size),
        r.backing == backing,
{
    let mut v: V4l2Buffer = V4l2Buffer::new(queue, index as u32, memory);
    let ghost z = v;
    v.field = FIELD_NONE;
    v.flags = FLAG_TIMESTAMP_COPY;
    v.set_first_length(size);
    if let Backing::Host { offset, .. } = &backing {
        v.set_first_offset(*offset);
    }
    assert forall|k: int| 1 <= k < 8 implies #[trigger] v.plane(k) == V4l2Plane::zero() by {
        assert(z.plane(k) == V4l2Plane::zero());
    }
    assert(z.plane(0) == V4l2Plane::zero());
    Buffer { v4l2_buffer: v, backing, queued: false, lent: false, size, prepared: None }
}

/// A queue with fresh buffers at its end is consistent.
proof fn added_is_wf<GM, H>(
    q: QueueView<GM, H>,
    added: Seq<Buffer<GM, H>>,
    queue: QueueType,
    memory: MemoryType,
    size: u32,
)
    requires
        q.wf(queue),
        q.memory matches Some(m) ==> m == memory,
        added.len() > 0,
        q.buffers.len() + added.len() <= MAX_BUFFERS,
        forall|k: int|
            0 <= k < added.len() ==> is_fresh(
                #[trigger] added[k],
                q.buffers.len() + k,
                queue,
                memory,
                size,
            ),
    ensures
        (QueueView { memory: Some(memory), buffers: q.buffers + added, ..q }).wf(queue),
{
    let r = QueueView { memory: Some(memory), buffers: q.buffers + added, ..q };
    assert forall|i: int| 0 <= i < r.buffers.len() implies (#[trigger] r.buffers[i]).wf(
        i,
        queue,
        memory,
    ) by {
        if i < q.buffers.len() {
            assert(q.buffers[i].wf(i, queue, memory));
        } else {
            assert(is_fresh(added[i - q.buffers.len()], i, queue, memory, size));
        }
    }
    assert forall|i: usize|
        i < r.buffers.len() && (#[trigger] r.buffers[i as int]).lent implies r.lending.contains(
        i,
    ) by {
        if i >= q.buffers.len() {
            assert(is_fresh(added[i - q.buffers.len()], i as int, queue, memory, size));
        } else {
            assert(q.buffers[i as int].lent);
        }
    }
    assert forall|i: usize|
        i < r.buffers.len() && (#[trigger] r.buffers[i as int]).queued
            && !r.buffers[i as int].lent implies r.pending.contains(i) by {
        if i >= q.buffers.len() {
            assert(is_fresh(added[i - q.buffers.len()], i as int, queue, memory, size));
        } else {
            assert(q.buffers[i as int].queued);
        }
    }
}

impl<B, Q, M, HM, A> VideoEncoder<B, Q, M, HM, A> where
    B: VideoEncoderBackend,
    Q: VirtioMediaEventQueue,
    M: VirtioMediaGuestMemoryMapper,
    A: VirtioMediaBufferAllocator,
    HM: VirtioMediaHostMemoryMapper<Handle = A::Handle>,
 {
    /// Drops every buffer of a queue, returning host buffers to the allocator (or holding them
    /// until the guest unmaps them) and releasing guest mappings. No buffer may be with the codec.
    pub(crate) fn free_buffers(&mut self, queue: &mut Queue<M::GuestMemoryMapping, A::Handle>)
        requires
            old(self).wf(),
            none_lent(old(queue)@),
        ensures
            final(self).wf(),
            final(self).continues(old(self)),
            final(queue)@ == empty_queue::<M::GuestMemoryMapping, A::Handle>(),
            final(self)@ == freed(old(self)@, old(queue)@.buffers),
    {
        let ghost all = queue.buffers@;
        let ghost d = self@;
        let ghost mut done: int = 0;
        queue.pending.clear();
        queue.lending.clear();
        queue.memory = None;
        while queue.buffers.len() > 0
            invariant
                self.wf(),
                self.continues(old(self)),
                queue.pending@ == Seq::<usize>::empty(),
                queue.lending@ == Seq::<usize>::empty(),
                queue.memory is None,
                0 <= done <= all.len(),
                queue.buffers@ == all.skip(done),
                self@ == freed(d, all.take(done)),
            decreases queue.buffers@.len(),
        {
            let entry = queue.buffers.remove(0);
            proof {
                assert(all.take(done + 1).drop_last() == all.take(done));
                assert(all.take(done + 1).last() == entry);
                assert(queue.buffers@ == all.skip(done + 1));
            }
            match entry.backing {
                Backing::Host { buffer, offset } => {
                    self.retired.retire(
                        &mut self.mmap_manager,
                        &mut self.allocator,
                        offset,
                        buffer,
                    );
                },
                Backing::Guest(_) => {},
            }
            proof {
                done = done + 1;
            }
        }
        assert(all.take(done) == all);
    }

    /// Gives back what `add_buffers` allocated before it failed.
    fn undo_added(
        &mut self,
        added: Vec<Buffer<M::GuestMemoryMapping, A::Handle>>,
        Ghost(ranges): Ghost<Set<MmapRange>>,
        Ghost(size): Ghost<u32>,
    )
        requires
            old(self).wf(),
            forall|k: int| 0 <= k < added@.len() ==> (#[trigger] added@[k]).backing is Host,
            offsets_are_new(ranges, added@),
            old(self)@.ranges == with_new(ranges, added@, size),
        ensures
            final(self).wf(),
            final(self).continues(old(self)),
            final(self)@ == (DeviceView {
                ranges,
                pool: old(self)@.pool + releases(added@),
                ..old(self)@
            }),
    {
        let ghost all = added@;
        let ghost d = self@;
        let mut added = added;
        let ghost mut done: int = 0;
        assert(releases(all.take(0)) =~= Seq::<PoolCall<A::Handle>>::empty());
        assert(all.skip(0) == all);
        while added.len() > 0
            invariant
                self.wf(),
                self.continues(old(self)),
                0 <= done <= all.len(),
                added@ == all.skip(done),
                forall|k: int| 0 <= k < all.len() ==> (#[trigger] all[k]).backing is Host,
                offsets_are_new(ranges, all),
                self@ == (DeviceView {
                    ranges: with_new(ranges, all.skip(done), size),
                    pool: d.pool + releases(all.take(done)),
                    ..d
                }),
            decreases added@.len(),
        {
            let entry = added.remove(0);
            let ghost left = all.skip(done);
            let ghost rest = all.skip(done + 1);
            proof {
                assert(added@ == rest);
                assert(entry == all[done]);
                assert(releases(all.take(done + 1)) =~= releases(all.take(done)).push(
                    PoolCall::Release { buffer: host_of(all[done]) },
                ));
            }
            match entry.backing {
                Backing::Host { buffer, offset } => {
                    self.mmap_manager.unregister_buffer(offset);
                    self.allocator.release(buffer);
                    proof {
                        assert(without(with_new(ranges, left, size), offset) =~= with_new(
                            ranges,
                            rest,
                            size,
                        )) by {
                            assert forall|r: MmapRange|
                                with_new(ranges, left, size).contains(r) && r.offset
                                    != offset <==> with_new(ranges, rest, size).contains(r) by {
                                offset_gone(ranges, all, done, size, r);
                            }
                        }
                        assert((d.pool + releases(all.take(done))).push(
                            PoolCall::Release { buffer },
                        ) =~= d.pool + releases(all.take(done + 1)));
                    }
                },
                Backing::Guest(_) => {},
            }
            proof {
                done = done + 1;
            }
        }
        proof {
            assert(all.take(done) == all);
            assert(with_new(ranges, all.skip(done), size) =~= ranges);
        }
    }

    /// Appends `count` buffers of `size` bytes to `queue`. All or nothing.
    pub(crate) fn add_buffers(
        &mut self,
        queue: &mut Queue<M::GuestMemoryMapping, A::Handle>,
        queue_type: QueueType,
        memory: MemoryType,
        count: usize,
        size: u32,
    ) -> (r: Result<(), i32>)
        requires
            old(self).wf(),
            old(queue)@.wf(queue_type),
            queue_type.multiplanar(),
            old(queue)@.memory matches Some(m) ==> m == memory,
            0 < count,
            old(queue)@.buffers.len() + count <= MAX_BUFFERS,
        ensures
            final(self).wf(),
            final(self).continues(old(self)),
            final(queue)@.wf(queue_type),
            match r {
                Ok(_) => {
                    let added = final(queue)@.buffers.skip(old(queue)@.buffers.len() as int);
                    &&& added.len() == count
                    &&& final(queue)@ == (QueueView {
                        memory: Some(memory),
                        buffers: old(queue)@.buffers + added,
                        ..old(queue)@
                    })
                    &&& forall|k: int|
                        0 <= k < count ==> is_fresh(
                            #[trigger] added[k],
                            old(queue)@.buffers.len() + k,
                            queue_type,
                            memory,
                            size,
                        )
                    &&& memory == MemoryType::Mmap ==> offsets_are_new(old(self)@.ranges, added)
                        && places_are_free(old(self)@.ranges, added, size)
                    &&& final(self)@ == added_to(old(self)@, added, memory, size)
                },
                Err(e) => {
                    &&& final(queue)@ == old(queue)@
                    &&& add_failed(old(self)@, memory, count as int, size, e, final(self)@)
                },
            },
    {
        let ghost d = self@;
        let ghost q = queue@;
        let first: usize = queue.buffers.len();
        let mut added: Vec<Buffer<M::GuestMemoryMapping, A::Handle>> = Vec::new();
        proof {
            assert(with_new(d.ranges, added@, size) =~= d.ranges);
            assert(d.pool + allocations(added@, size) =~= d.pool);
        }
        let mut n: usize = 0;
        while n < count
            invariant
                self.wf(),
                self.continues(old(self)),
                d == old(self)@,
                q == old(queue)@,
                queue@ == q,
                q.wf(queue_type),
                queue_type.multiplanar(),
                first == q.buffers.len(),
                first + count <= 32,
                n <= count,
                added@.len() == n,
                n > 0 ==> memory == MemoryType::Mmap || memory == MemoryType::UserPtr,
                forall|k: int|
                    0 <= k < n ==> is_fresh(
                        #[trigger] added@[k],
                        first + k,
                        queue_type,
                        memory,
                        size,
                    ),
                memory == MemoryType::Mmap ==> offsets_are_new(d.ranges, added@)
                    && places_are_free(d.ranges, added@, size),
                self@ == added_to(d, added@, memory, size),
            decreases count - n,
        {
            let ghost before = added@;
            let backing: Backing<M::GuestMemoryMapping, A::Handle> = match memory {
                MemoryType::Mmap => {
                    let host_buffer = match self.allocator.allocate(size as u64) {
                        Ok(b) => b,
                        Err(e) => {
                            self.undo_added(added, Ghost(d.ranges), Ghost(size));
                            proof {
                                assert(self@.pool =~= d.pool + attempt(
                                    before,
                                    size,
                                    Err::<HostBuffer<A::Handle>, i32>(e),
                                ));
                            }
                            return Err(e);
                        },
                    };
                    let ghost host = host_buffer;
                    let offset: u32 = match self.mmap_manager.register_buffer(size) {
                        Ok(offset) => offset,
                        Err(_) => {
                            self.allocator.release(host_buffer);
                            self.undo_added(added, Ghost(d.ranges), Ghost(size));
                            proof {
                                assert(self@.pool =~= d.pool + attempt(
                                    before,
                                    size,
                                    Ok::<HostBuffer<A::Handle>, i32>(host),
                                ));
                            }
                            return Err(EINVAL);
                        },
                    };
                    proof {
                        free_places_are_unregistered(
                            with_new(d.ranges, before, size),
                            offset,
                            size,
                        );
                    }
                    Backing::Host { buffer: host_buffer, offset }
                },
                MemoryType::UserPtr => Backing::Guest(None),
                _ => {
                    return Err(EINVAL);
                },
            };
            let entry = fresh_buffer(queue_type, first + n, memory, size, backing);
            let ghost e = entry;
            added.push(entry);
            proof {
                if memory == MemoryType::Mmap {
                    new_offset_joins(d.ranges, before, e, size);
                    assert forall|k: int| 0 <= k < added@.len() implies free_at(
                        with_new(d.ranges, added@.take(k), size),
                        offset_of(#[trigger] added@[k]) as int,
                        extent(size),
                    ) by {
                        assert(added@.take(k) =~= before.take(k));
                        if k < before.len() {
                            assert(added@[k] == before[k]);
                        } else {
                            assert(before.take(k) =~= before);
                        }
                    }
                    assert(allocations(added@, size) =~= allocations(before, size).push(
                        PoolCall::Allocate { len: size as u64, answer: Ok(host_of(e)) },
                    ));
                    assert(self@.pool =~= d.pool + allocations(added@, size));
                    assert(self@.ranges =~= with_new(d.ranges, added@, size));
                }
            }
            n = n + 1;
        }
        proof {
            added_is_wf(q, added@, queue_type, memory, size);
        }
        let ghost new = added@;
        queue.buffers.append(&mut added);
        queue.memory = Some(memory);
        assert(queue@.buffers.skip(first as int) =~= new);
        Ok(())
    }
}

/// Dropping the first of a list of new offsets leaves the others.
proof fn offset_gone<GM, H>(
    ranges: Set<MmapRange>,
    all: Seq<Buffer<GM, H>>,
    done: int,
    size: u32,
    r: MmapRange,
)
    requires
        0 <= done < all.len(),
        offsets_are_new(ranges, all),
    ensures
        with_new(ranges, all.skip(done), size).contains(r) && r.offset != offset_of(all[done])
            <==> with_new(ranges, all.skip(done + 1), size).contains(r),
{
    let left = all.skip(done);
    let rest = all.skip(done + 1);
    let gone = offset_of(all[done]);
    if with_new(ranges, left, size).contains(r) && r.offset != gone {
        if !ranges.contains(r) {
            let k = choose|k: int|
                0 <= k < left.len() && offset_of(#[trigger] left[k]) == r.offset;
            assert(left[0] == all[done]);
            assert(rest[k - 1] == left[k]);
        }
    }
    if with_new(ranges, rest, size).contains(r) {
        if ranges.contains(r) {
            assert(!registered(ranges, offset_of(all[done])));
        } else {
            let k = choose|k: int|
                0 <= k < rest.len() && offset_of(#[trigger] rest[k]) == r.offset;
            assert(rest[k] == all[done + 1 + k]);
            assert(left[k + 1] == rest[k]);
        }
    }
}

/// A newly registered offset joins those of a list.
proof fn new_offset_joins<GM, H>(
    ranges: Set<MmapRange>,
    before: Seq<Buffer<GM, H>>,
    b: Buffer<GM, H>,
    size: u32,
)
    requires
        offsets_are_new(ranges, before),
        !registered(with_new(ranges, before, size), offset_of(b)),
    ensures
        offsets_are_new(ranges, before.push(b)),
        with_new(ranges, before.push(b), size) == with_new(ranges, before, size).insert(
            MmapRange { offset: offset_of(b), size },
        ),
{
    let after = before.push(b);
    assert(!registered(ranges, offset_of(b))) by {
        if registered(ranges, offset_of(b)) {
            let r = choose|r: MmapRange| #[trigger] ranges.contains(r) && r.offset == offset_of(b);
            assert(with_new(ranges, before, size).contains(r));
        }
    }
    assert forall|j: int| 0 <= j < before.len() implies offset_of(#[trigger] before[j])
        != offset_of(b) by {
        if offset_of(before[j]) == offset_of(b) {
            assert(with_new(ranges, before, size).contains(
                MmapRange { offset: offset_of(b), size },
            ));
        }
    }
    assert forall|r: MmapRange|
        with_new(ranges, after, size).contains(r) <==> with_new(ranges, before, size).insert(
            MmapRange { offset: offset_of(b), size },
        ).contains(r) by {
        if with_new(ranges, after, size).contains(r) && !ranges.contains(r) {
            let k = choose|k: int|
                0 <= k < after.len() && offset_of(#[trigger] after[k]) == r.offset;
            if k < before.len() {
                assert(before[k] == after[k]);
            }
        }
        if with_new(ranges, before, size).contains(r) && !ranges.contains(r) {
            let k = choose|k: int|
                0 <= k < before.len() && offset_of(#[trigger] before[k]) == r.offset;
            assert(after[k] == before[k]);
        }
        if r == (MmapRange { offset: offset_of(b), size }) {
            assert(after[before.len() as int] == b);
        }
    }
    assert(with_new(ranges, after, size) =~= with_new(ranges, before, size).insert(
        MmapRange { offset: offset_of(b), size },
    ));
}

} // verus!
