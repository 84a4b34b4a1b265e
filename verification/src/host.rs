//! The traits a VMM implements, and the ports through which a device reaches the implementations.
//!
//! A port owns the implementation and keeps a ghost record of every request it was given with the
//! answer it made, so that a contract can say which calls an operation makes, in which order, and
//! what it does for every answer. Beside each call the port keeps the implementation as the call
//! found it: a port is faithful when every call on record took the implementation from one of
//! these states to the next, and the last of them is the present one.
use vstd::prelude::*;

use crate::errno::{EINVAL, ENOMEM, ENOTTY};
use crate::protocol::{SgEntry, V4l2Event};

verus! {

/// Whether some states are those of before with more behind them.
pub open spec fn continued<T>(before: Seq<T>, after: Seq<T>) -> bool {
    &&& before.len() <= after.len()
    &&& forall|k: int| 0 <= k < before.len() ==> #[trigger] after[k] == before[k]
}

/// Sends V4L2 events to the driver.
pub trait VirtioMediaEventQueue {
    /// What sending an event does to the queue. It holds of anything where an implementation does
    /// not say.
    open spec fn sends(&self, event: V4l2Event, after: &Self) -> bool {
        true
    }

    /// Waits until an event descriptor becomes available and sends `event` to the guest.
    fn send_event(&mut self, event: V4l2Event)
        ensures
            old(self).sends(event, final(self)),
    ;

    /// Sends `errno` as an error event to the guest.
    fn send_error(&mut self, session_id: u32, errno: i32)
        ensures
            old(self).sends(V4l2Event::Error { session_id, errno }, final(self)),
    {
        self.send_event(V4l2Event::Error { session_id, errno });
    }
}

/// The port to the event queue.
pub struct EventPort<Q> {
    pub queue: Q,
    /// Every event sent, oldest first.
    pub sent: Ghost<Seq<V4l2Event>>,
    /// The queue before each event was sent, and as it is now.
    pub path: Ghost<Seq<Q>>,
}

impl<Q: VirtioMediaEventQueue> EventPort<Q> {
    /// A port over a queue nothing has been sent on.
    pub fn new(queue: Q) -> (r: Self)
        ensures
            r.sent@ == Seq::<V4l2Event>::empty(),
            r.queue == queue,
            r.path@ == seq![queue],
            r.faithful(),
    {
        let ghost path = seq![queue];
        EventPort { queue, sent: Ghost(Seq::empty()), path: Ghost(path) }
    }

    /// Whether each event on record was sent on the queue, one after the other, and nothing else
    /// was.
    pub open spec fn faithful(&self) -> bool {
        &&& self.path@.len() == self.sent@.len() + 1
        &&& self.path@.last() == self.queue
        &&& forall|k: int|
            #![trigger self.sent@[k]]
            0 <= k < self.sent@.len() ==> self.path@[k].sends(self.sent@[k], &self.path@[k + 1])
    }

    /// Sends an event.
    pub fn send_event(&mut self, event: V4l2Event)
        ensures
            final(self).sent@ == old(self).sent@.push(event),
            old(self).queue.sends(event, &final(self).queue),
            final(self).path@ == old(self).path@.push(final(self).queue),
            old(self).faithful() ==> final(self).faithful(),
    {
        self.queue.send_event(event);
        self.sent = Ghost(self.sent@.push(event));
        self.path = Ghost(self.path@.push(self.queue));
    }

    /// Sends an error event.
    pub fn send_error(&mut self, session_id: u32, errno: i32)
        ensures
            final(self).sent@ == old(self).sent@.push(V4l2Event::Error { session_id, errno }),
            old(self).queue.sends(V4l2Event::Error { session_id, errno }, &final(self).queue),
            final(self).path@ == old(self).path@.push(final(self).queue),
            old(self).faithful() ==> final(self).faithful(),
    {
        self.queue.send_error(session_id, errno);
        self.sent = Ghost(self.sent@.push(V4l2Event::Error { session_id, errno }));
        self.path = Ghost(self.path@.push(self.queue));
    }
}

/// A range of guest memory mapped linearly into the host's address space.
pub trait GuestMemoryRange {
    /// Whether the first byte lies at this host address.
    open spec fn lies_at(&self, addr: usize) -> bool {
        true
    }

    /// What asking for the address to write through gives.
    open spec fn leads_to(&self, addr: usize, after: &Self) -> bool {
        true
    }

    /// Whether this many bytes are mapped.
    open spec fn spans(&self, len: usize) -> bool {
        true
    }

    /// The host address of the first byte.
    fn as_ptr(&self) -> (r: usize)
        ensures
            self.lies_at(r),
    ;

    /// The host address of the first byte, to write through.
    fn as_mut_ptr(&mut self) -> (r: usize)
        ensures
            old(self).leads_to(r, final(self)),
    ;

    /// How many bytes are mapped.
    fn len(&self) -> (r: usize)
        ensures
            self.spans(r),
    ;
}

/// Names the errno the guest should get for a failed mapping.
#[derive(Clone, Copy, Debug, PartialEq, Eq, Structural)]
pub struct GuestMappingError(pub i32);

/// The errno a failed mapping answers the guest with: the one the mapper named, or `EINVAL` when
/// it did not say.
pub fn guest_mapping_errno(e: &Option<GuestMappingError>) -> (r: i32)
    ensures
        r == (match *e {
            Some(e) => e.0,
            None => EINVAL,
        }),
{
    match e {
        Some(e) => e.0,
        None => EINVAL,
    }
}

/// Gives the device linear access to sparse guest memory.
///
/// A mapping is held for as long as the device, or a codec it lent the memory to, might access
/// it: some implementations write back into the guest memory when it is dropped.
pub trait VirtioMediaGuestMemoryMapper {
    /// Host-side linear mapping of sparse guest memory.
    type GuestMemoryMapping: GuestMemoryRange;

    /// What mapping a scatter list gives, to be written to or only read. It holds of anything
    /// where an implementation does not say.
    open spec fn maps(
        &self,
        sgs: Seq<SgEntry>,
        writable: bool,
        r: Result<Self::GuestMemoryMapping, Option<GuestMappingError>>,
    ) -> bool {
        true
    }

    /// Maps `sgs` into a linear mapping on the host. An implementation that wants the guest to
    /// see a specific error code names it.
    fn new_mapping(&self, sgs: Vec<SgEntry>) -> (r: Result<
        Self::GuestMemoryMapping,
        Option<GuestMappingError>,
    >)
        ensures
            forall|writable: bool| self.maps(sgs@, writable, r),
    ;

    /// Maps `sgs`, saying whether the device will write to the memory. An implementation for which
    /// that makes no difference need not define it.
    fn new_mapping_for(&self, sgs: Vec<SgEntry>, writable: bool) -> (r: Result<
        Self::GuestMemoryMapping,
        Option<GuestMappingError>,
    >)
        ensures
            self.maps(sgs@, writable, r),
    {
        self.new_mapping(sgs)
    }
}

/// A guest mapping with its address and length, read when it was made.
pub struct GuestMapping<GM> {
    pub range: GM,
    pub addr: usize,
    pub len: usize,
}

/// A request to map guest memory, with its answer.
pub struct MapRequest<GM> {
    pub sgs: Seq<SgEntry>,
    pub writable: bool,
    pub answer: Result<GuestMapping<GM>, Option<GuestMappingError>>,
}

/// Whether a mapper gives this answer to a request: its own error, or the mapping it made, at the
/// address and with the length the mapping says it has.
pub open spec fn mapped<M: VirtioMediaGuestMemoryMapper>(
    mapper: M,
    request: MapRequest<M::GuestMemoryMapping>,
) -> bool {
    exists|made: Result<M::GuestMemoryMapping, Option<GuestMappingError>>| #[trigger]
        mapper.maps(request.sgs, request.writable, made) && match (made, request.answer) {
            (Ok(range), Ok(m)) => range.spans(m.len) && range.leads_to(m.addr, &m.range),
            (Err(e), Err(f)) => e == f,
            _ => false,
        }
}

/// The port to guest memory.
pub struct GuestPort<M: VirtioMediaGuestMemoryMapper> {
    pub mapper: M,
    /// Every mapping asked for, oldest first.
    pub asked: Ghost<Seq<MapRequest<M::GuestMemoryMapping>>>,
}

impl<M: VirtioMediaGuestMemoryMapper> GuestPort<M> {
    /// A port over a mapper nothing has been asked of.
    pub fn new(mapper: M) -> (r: Self)
        ensures
            r.asked@ == Seq::<MapRequest<M::GuestMemoryMapping>>::empty(),
            r.mapper == mapper,
            r.faithful(),
    {
        GuestPort { mapper, asked: Ghost(Seq::empty()) }
    }

    /// Whether each mapping on record was asked of the mapper and is what it answered.
    pub open spec fn faithful(&self) -> bool {
        forall|k: int|
            0 <= k < self.asked@.len() ==> mapped(self.mapper, #[trigger] self.asked@[k])
    }

    /// Maps a scatter list.
    pub fn map(&mut self, sgs: Vec<SgEntry>, writable: bool) -> (r: Result<
        GuestMapping<M::GuestMemoryMapping>,
        Option<GuestMappingError>,
    >)
        ensures
            final(self).asked@ == old(self).asked@.push(
                MapRequest { sgs: sgs@, writable, answer: r },
            ),
            final(self).mapper == old(self).mapper,
            mapped(old(self).mapper, MapRequest { sgs: sgs@, writable, answer: r }),
            old(self).faithful() ==> final(self).faithful(),
    {
        let ghost list = sgs@;
        let made = self.mapper.new_mapping_for(sgs, writable);
        let ghost given = made;
        let r = match made {
            Ok(mut range) => {
                let len: usize = range.len();
                let addr: usize = range.as_mut_ptr();
                Ok(GuestMapping { range, addr, len })
            },
            Err(e) => Err(e),
        };
        let ghost request = MapRequest { sgs: list, writable, answer: r };
        assert(self.mapper.maps(request.sgs, request.writable, given));
        self.asked = Ghost(self.asked@.push(request));
        r
    }
}

/// A host-owned buffer that the guest can be given `MMAP` access to.
///
/// `handle` is the VMM's own: the backing object and the host mapping, undone when it is dropped.
/// Buffers come from a [`VirtioMediaBufferAllocator`] and are handed back to the same allocator's
/// `release` once the device is done with them.
pub struct HostBuffer<H> {
    pub handle: H,
    /// Byte offset of the buffer's first byte inside the backing object.
    pub fd_offset: u64,
    /// Length of the buffer in bytes.
    pub len: u64,
    /// Host address of the buffer's first byte.
    pub ptr: usize,
    /// Offset of the buffer inside the pool the guest maps as a whole, if it lives in one.
    pub pool_offset: Option<u64>,
}

impl<H> HostBuffer<H> {
    /// A buffer over memory someone else maps.
    pub fn from_raw_parts(
        handle: H,
        fd_offset: u64,
        len: u64,
        ptr: usize,
        pool_offset: Option<u64>,
    ) -> (r: Self)
        ensures
            r == (HostBuffer { handle, fd_offset, len, ptr, pool_offset }),
    {
        HostBuffer { handle, fd_offset, len, ptr, pool_offset }
    }

    /// The host address of the first byte.
    pub fn as_ptr(&self) -> (r: usize)
        ensures
            r == self.ptr,
    {
        self.ptr
    }

    /// The host address of the first byte, to write through.
    pub fn as_mut_ptr(&mut self) -> (r: usize)
        ensures
            r == old(self).ptr,
            *final(self) == *old(self),
    {
        self.ptr
    }
}

/// What a mapping of `len` bytes at `fd_offset` of a descriptor is asked of the kernel with.
pub open spec fn fd_range(fd_offset: u64, len: u64) -> Result<(i64, usize), i32> {
    if 0 < len <= usize::MAX && fd_offset <= i64::MAX {
        Ok((fd_offset as i64, len as usize))
    } else {
        Err(EINVAL)
    }
}

/// A mapping is asked for with the offset and the length it is wanted with, neither of them changed
/// on the way; an empty one, and one at an offset that no file has, is not asked for.
pub proof fn fd_ranges_are_asked_for_as_they_are(fd_offset: u64, len: u64)
    ensures
        len == 0 ==> fd_range(fd_offset, len) == Err::<(i64, usize), i32>(EINVAL),
        fd_offset >= 0x8000_0000_0000_0000 ==> fd_range(fd_offset, len) == Err::<(i64, usize), i32>(
            EINVAL,
        ),
        0 < len <= usize::MAX && fd_offset < 0x8000_0000_0000_0000 ==> (fd_range(
            fd_offset,
            len,
        ) matches Ok((o, n)) && o == fd_offset && n == len),
{
}

/// What a mapping of `len` bytes at `fd_offset` of a descriptor is asked of the kernel with, or
/// `EINVAL`: an empty range, and an offset no file has, are refused.
pub fn map_fd_range(fd_offset: u64, len: u64) -> (r: Result<(i64, usize), i32>)
    ensures
        r == fd_range(fd_offset, len),
        r is Ok <==> 0 < len <= usize::MAX && fd_offset <= i64::MAX,
        r matches Ok((o, n)) ==> o == fd_offset && n == len,
        r matches Err(e) ==> e == EINVAL,
{
    if len == 0 || len > usize::MAX as u64 {
        return Err(EINVAL);
    }
    if fd_offset > i64::MAX as u64 {
        return Err(EINVAL);
    }
    Ok((fd_offset as i64, len as usize))
}

/// Allocates the host-owned buffers that back `MMAP` V4L2 buffers.
pub trait VirtioMediaBufferAllocator {
    /// What keeps a buffer's memory alive.
    type Handle;

    /// What allocating a buffer gives and does to the allocator. It holds of anything where an
    /// implementation does not say.
    open spec fn allocates(
        &self,
        len: u64,
        r: Result<HostBuffer<Self::Handle>, i32>,
        after: &Self,
    ) -> bool {
        true
    }

    /// What taking a buffer back does to the allocator. It holds of anything where an
    /// implementation does not say.
    open spec fn releases(&self, buf: HostBuffer<Self::Handle>, after: &Self) -> bool {
        true
    }

    /// Allocates a buffer of `len` bytes: `ENOMEM` when the backing store is exhausted, or
    /// another error code.
    fn allocate(&mut self, len: u64) -> (r: Result<HostBuffer<Self::Handle>, i32>)
        ensures
            old(self).allocates(len, r, final(self)),
    ;

    /// Takes `buf`, which came from this allocator, back.
    fn release(&mut self, buf: HostBuffer<Self::Handle>)
        ensures
            old(self).releases(buf, final(self)),
    ;
}

/// Every allocation fails with `ENOMEM`: a device using this cannot serve `MMAP` buffers.
impl VirtioMediaBufferAllocator for () {
    type Handle = ();

    open spec fn allocates(&self, len: u64, r: Result<HostBuffer<()>, i32>, after: &Self) -> bool {
        r == Err::<HostBuffer<()>, i32>(ENOMEM)
    }

    fn allocate(&mut self, len: u64) -> (r: Result<HostBuffer<()>, i32>) {
        Err(ENOMEM)
    }

    fn release(&mut self, buf: HostBuffer<()>) {
    }
}

/// A call made to an allocator.
pub enum PoolCall<H> {
    Allocate { len: u64, answer: Result<HostBuffer<H>, i32> },
    Release { buffer: HostBuffer<H> },
}

impl<H> PoolCall<H> {
    /// Whether an allocator makes this answer to the call, and is left like this by it.
    pub open spec fn takes<A: VirtioMediaBufferAllocator<Handle = H>>(
        self,
        allocator: A,
        after: A,
    ) -> bool {
        match self {
            PoolCall::Allocate { len, answer } => allocator.allocates(len, answer, &after),
            PoolCall::Release { buffer } => allocator.releases(buffer, &after),
        }
    }
}

/// The port to the allocator.
pub struct PoolPort<A: VirtioMediaBufferAllocator> {
    pub allocator: A,
    /// Every call, oldest first.
    pub calls: Ghost<Seq<PoolCall<A::Handle>>>,
    /// The allocator before each call, and as it is now.
    pub path: Ghost<Seq<A>>,
}

impl<A: VirtioMediaBufferAllocator> PoolPort<A> {
    /// A port over an allocator nothing has been asked of.
    pub fn new(allocator: A) -> (r: Self)
        ensures
            r.calls@ == Seq::<PoolCall<A::Handle>>::empty(),
            r.allocator == allocator,
            r.path@ == seq![allocator],
            r.faithful(),
    {
        let ghost path = seq![allocator];
        PoolPort { allocator, calls: Ghost(Seq::empty()), path: Ghost(path) }
    }

    /// Whether each call on record was made to the allocator, one after the other, and no other
    /// was.
    pub open spec fn faithful(&self) -> bool {
        &&& self.path@.len() == self.calls@.len() + 1
        &&& self.path@.last() == self.allocator
        &&& forall|k: int|
            0 <= k < self.calls@.len() ==> (#[trigger] self.calls@[k]).takes(
                self.path@[k],
                self.path@[k + 1],
            )
    }

    /// Allocates a buffer.
    pub fn allocate(&mut self, len: u64) -> (r: Result<HostBuffer<A::Handle>, i32>)
        ensures
            final(self).calls@ == old(self).calls@.push(PoolCall::Allocate { len, answer: r }),
            old(self).allocator.allocates(len, r, &final(self).allocator),
            final(self).path@ == old(self).path@.push(final(self).allocator),
            old(self).faithful() ==> final(self).faithful(),
    {
        let r = self.allocator.allocate(len);
        self.calls = Ghost(self.calls@.push(PoolCall::Allocate { len, answer: r }));
        self.path = Ghost(self.path@.push(self.allocator));
        r
    }

    /// Gives a buffer back.
    pub fn release(&mut self, buffer: HostBuffer<A::Handle>)
        ensures
            final(self).calls@ == old(self).calls@.push(PoolCall::Release { buffer }),
            old(self).allocator.releases(buffer, &final(self).allocator),
            final(self).path@ == old(self).path@.push(final(self).allocator),
            old(self).faithful() ==> final(self).faithful(),
    {
        let ghost given = buffer;
        self.allocator.release(buffer);
        self.calls = Ghost(self.calls@.push(PoolCall::Release { buffer: given }));
        self.path = Ghost(self.path@.push(self.allocator));
    }
}

/// Maps host buffers into the guest physical address space.
pub trait VirtioMediaHostMemoryMapper {
    /// What keeps a buffer's memory alive.
    type Handle;

    /// What making a buffer visible gives and does to the mapper. It holds of anything where an
    /// implementation does not say.
    open spec fn adds(
        &self,
        buffer: HostBuffer<Self::Handle>,
        offset: u64,
        rw: bool,
        r: Result<u64, i32>,
        after: &Self,
    ) -> bool {
        true
    }

    /// What removing a mapping gives and does to the mapper. It holds of anything where an
    /// implementation does not say.
    open spec fn removes(&self, shm_offset: u64, r: Result<(), i32>, after: &Self) -> bool {
        true
    }

    /// Makes `buffer` visible to the guest and returns the offset the guest adds to its base to
    /// reach it. `offset` is the buffer's V4L2 memory offset, `rw` whether the guest asked for a
    /// writable mapping.
    fn add_mapping(&mut self, buffer: &HostBuffer<Self::Handle>, offset: u64, rw: bool) -> (r:
        Result<u64, i32>)
        ensures
            old(self).adds(*buffer, offset, rw, r, final(self)),
    ;

    /// Removes a guest mapping previously created at `shm_offset`.
    fn remove_mapping(&mut self, shm_offset: u64) -> (r: Result<(), i32>)
        ensures
            old(self).removes(shm_offset, r, final(self)),
    ;
}

/// Answers `ENOTTY` to each attempt: `MMAP` buffers cannot be mapped into the guest.
impl VirtioMediaHostMemoryMapper for () {
    type Handle = ();

    open spec fn adds(
        &self,
        buffer: HostBuffer<()>,
        offset: u64,
        rw: bool,
        r: Result<u64, i32>,
        after: &Self,
    ) -> bool {
        r == Err::<u64, i32>(ENOTTY)
    }

    open spec fn removes(&self, shm_offset: u64, r: Result<(), i32>, after: &Self) -> bool {
        r == Err::<(), i32>(ENOTTY)
    }

    fn add_mapping(&mut self, buffer: &HostBuffer<()>, offset: u64, rw: bool) -> (r: Result<
        u64,
        i32,
    >) {
        Err(ENOTTY)
    }

    fn remove_mapping(&mut self, shm_offset: u64) -> (r: Result<(), i32>) {
        Err(ENOTTY)
    }
}

/// A call made to a host memory mapper.
pub enum MapperCall<H> {
    Add { buffer: HostBuffer<H>, offset: u64, rw: bool, at: Result<u64, i32> },
    Remove { shm_offset: u64, done: Result<(), i32> },
}

impl<H> MapperCall<H> {
    /// Whether a mapper makes this answer to the call, and is left like this by it.
    pub open spec fn takes<HM: VirtioMediaHostMemoryMapper<Handle = H>>(
        self,
        mapper: HM,
        after: HM,
    ) -> bool {
        match self {
            MapperCall::Add { buffer, offset, rw, at } => mapper.adds(
                buffer,
                offset,
                rw,
                at,
                &after,
            ),
            MapperCall::Remove { shm_offset, done } => mapper.removes(shm_offset, done, &after),
        }
    }
}

/// The port to the host memory mapper.
pub struct MapperPort<HM: VirtioMediaHostMemoryMapper> {
    pub mapper: HM,
    /// Every call, oldest first.
    pub calls: Ghost<Seq<MapperCall<HM::Handle>>>,
    /// The mapper before each call, and as it is now.
    pub path: Ghost<Seq<HM>>,
}

impl<HM: VirtioMediaHostMemoryMapper> MapperPort<HM> {
    /// A port over a mapper nothing has been asked of.
    pub fn new(mapper: HM) -> (r: Self)
        ensures
            r.calls@ == Seq::<MapperCall<HM::Handle>>::empty(),
            r.mapper == mapper,
            r.path@ == seq![mapper],
            r.faithful(),
    {
        let ghost path = seq![mapper];
        MapperPort { mapper, calls: Ghost(Seq::empty()), path: Ghost(path) }
    }

    /// Whether each call on record was made to the mapper, one after the other, and no other was.
    pub open spec fn faithful(&self) -> bool {
        &&& self.path@.len() == self.calls@.len() + 1
        &&& self.path@.last() == self.mapper
        &&& forall|k: int|
            0 <= k < self.calls@.len() ==> (#[trigger] self.calls@[k]).takes(
                self.path@[k],
                self.path@[k + 1],
            )
    }

    /// Makes a buffer visible to the guest.
    pub fn add_mapping(
        &mut self,
        buffer: &HostBuffer<HM::Handle>,
        offset: u64,
        rw: bool,
    ) -> (r: Result<u64, i32>)
        ensures
            final(self).calls@ == old(self).calls@.push(
                MapperCall::Add { buffer: *buffer, offset, rw, at: r },
            ),
            old(self).mapper.adds(*buffer, offset, rw, r, &final(self).mapper),
            final(self).path@ == old(self).path@.push(final(self).mapper),
            old(self).faithful() ==> final(self).faithful(),
    {
        let r = self.mapper.add_mapping(buffer, offset, rw);
        self.calls = Ghost(
            self.calls@.push(MapperCall::Add { buffer: *buffer, offset, rw, at: r }),
        );
        self.path = Ghost(self.path@.push(self.mapper));
        r
    }

    /// Removes a guest mapping.
    pub fn remove_mapping(&mut self, shm_offset: u64) -> (r: Result<(), i32>)
        ensures
            final(self).calls@ == old(self).calls@.push(
                MapperCall::Remove { shm_offset, done: r },
            ),
            old(self).mapper.removes(shm_offset, r, &final(self).mapper),
            final(self).path@ == old(self).path@.push(final(self).mapper),
            old(self).faithful() ==> final(self).faithful(),
    {
        let r = self.mapper.remove_mapping(shm_offset);
        self.calls = Ghost(self.calls@.push(MapperCall::Remove { shm_offset, done: r }));
        self.path = Ghost(self.path@.push(self.mapper));
        r
    }
}

} // verus!
