//! The encoder device: what it holds besides its sessions, and how it starts, feeds and stops a
//! session's codec.
use vstd::prelude::*;

use super::backend::{
    BackendCall, BackendPort, CodecCall, InputBuffer, OutputBuffer, SendPtr, VideoEncoderBackend,
};
use super::capabilities::{CapabilitiesView, EncoderCapabilities};
use super::control_table::{controls_for, is_table, CtrlDef};
use super::queue::{all_returned_is_wf, QueueView};
use super::session::{SessionView, VideoEncoderSession};
use crate::errno::ENODEV;
use crate::host::{
    continued, EventPort, GuestPort, MapRequest, MapperCall, PoolCall, PoolPort,
    VirtioMediaBufferAllocator, VirtioMediaEventQueue, VirtioMediaGuestMemoryMapper,
    VirtioMediaHostMemoryMapper,
};
use crate::mmap::{MmapMapping, MmapMappingManager, MmapRange, Retired, RetiredBuffers};
use crate::protocol::V4l2Event;
use crate::v4l2::{QueueDirection, QueueType};

verus! {

/// The sessions of an encoder over a backend, a guest memory mapper and an allocator.
pub type EncoderSession<B, M, A> = VideoEncoderSession<
    <M as VirtioMediaGuestMemoryMapper>::GuestMemoryMapping,
    <A as VirtioMediaBufferAllocator>::Handle,
    <B as VideoEncoderBackend>::Session,
>;

/// A stateful V4L2 video encoder over a [`VideoEncoderBackend`].
pub struct VideoEncoder<
    B: VideoEncoderBackend,
    Q: VirtioMediaEventQueue,
    M: VirtioMediaGuestMemoryMapper,
    HM: VirtioMediaHostMemoryMapper,
    A: VirtioMediaBufferAllocator,
> {
    pub backend: BackendPort<B>,
    /// What the backend can do.
    pub caps: EncoderCapabilities,
    pub evt_queue: EventPort<Q>,
    /// Guest memory, for `USERPTR` buffers.
    pub mem: GuestPort<M>,
    pub mmap_manager: MmapMappingManager<HM>,
    /// Where `MMAP` buffers come from.
    pub allocator: PoolPort<A>,
    /// Freed `MMAP` buffers the guest still maps.
    pub retired: RetiredBuffers<A::Handle>,
    /// The one session allowed to hold buffers.
    pub active_session: Option<u32>,
    /// The controls, sorted by id, built from the capabilities.
    pub controls: Vec<CtrlDef>,
}

/// A device as a mathematical value: its state, and every call made through its ports.
#[verifier::ext_equal]
pub struct DeviceView<GM, H, S, K> {
    pub backend: Seq<BackendCall<S, K>>,
    pub caps: CapabilitiesView,
    pub events: Seq<V4l2Event>,
    pub guest: Seq<MapRequest<GM>>,
    pub ranges: Set<MmapRange>,
    pub mappings: Seq<MmapMapping>,
    pub mapper: Seq<MapperCall<H>>,
    pub pool: Seq<PoolCall<H>>,
    pub retired: Seq<Retired<H>>,
    pub active_session: Option<u32>,
    pub controls: Seq<CtrlDef>,
}

impl<B, Q, M, HM, A> View for VideoEncoder<B, Q, M, HM, A> where
    B: VideoEncoderBackend,
    Q: VirtioMediaEventQueue,
    M: VirtioMediaGuestMemoryMapper,
    A: VirtioMediaBufferAllocator,
    HM: VirtioMediaHostMemoryMapper<Handle = A::Handle>,
 {
    type V = DeviceView<M::GuestMemoryMapping, A::Handle, B::Session, B::Sink>;

    open spec fn view(&self) -> DeviceView<
        M::GuestMemoryMapping,
        A::Handle,
        B::Session,
        B::Sink,
    > {
        DeviceView {
            backend: self.backend.calls@,
            caps: self.caps@,
            events: self.evt_queue.sent@,
            guest: self.mem.asked@,
            ranges: self.mmap_manager.taken(),
            mappings: self.mmap_manager.mappings@,
            mapper: self.mmap_manager.mapper.calls@,
            pool: self.allocator.calls@,
            retired: self.retired.held@,
            active_session: self.active_session,
            controls: self.controls@,
        }
    }
}

impl<GM, H, S, K> DeviceView<GM, H, S, K> {
    /// The device with one more event sent.
    pub open spec fn sending(self, event: V4l2Event) -> DeviceView<GM, H, S, K> {
        DeviceView { events: self.events.push(event), ..self }
    }

    /// Whether a session fits the device: its coded format is one the backend offers, its raw size
    /// one that format takes, its visible rectangle inside the frame, its control values one per
    /// control, and it is the active session while it holds buffers.
    pub open spec fn fits(self, s: SessionView<GM, H>) -> bool {
        &&& s.wf()
        &&& s.ctrl_values.len() == self.controls.len()
        &&& self.caps.format(s.coded_format) matches Some(f)
        &&& f.width.fitted(s.coded_size.0 as int) == s.coded_size.0
        &&& f.height.fitted(s.coded_size.1 as int) == s.coded_size.1
        &&& s.crop_inside()
        &&& s.has_buffers() ==> self.active_session == Some(s.id)
    }
}

impl<GM, H, S, K> DeviceView<GM, H, S, K> {
    /// Whether a change made for session `id` leaves every other session what it had: the same
    /// capabilities and controls, and its buffers.
    pub open spec fn keeps_others(self, after: DeviceView<GM, H, S, K>, id: u32) -> bool {
        &&& after.caps == self.caps
        &&& after.controls == self.controls
        &&& self.active_session is Some && self.active_session != Some(id)
            ==> after.active_session == self.active_session
    }
}

/// What is done for one session leaves the others as they were.
pub proof fn others_keep_fitting<GM, H, S, K>(
    d: DeviceView<GM, H, S, K>,
    d2: DeviceView<GM, H, S, K>,
    id: u32,
    t: SessionView<GM, H>,
)
    requires
        d.keeps_others(d2, id),
        d.fits(t),
        t.id != id,
    ensures
        d2.fits(t),
{
}

/// At most one session of a device holds buffers.
pub proof fn one_session_holds_buffers<GM, H, S, K>(
    d: DeviceView<GM, H, S, K>,
    s: SessionView<GM, H>,
    t: SessionView<GM, H>,
)
    requires
        d.fits(s),
        d.fits(t),
        s.id != t.id,
    ensures
        !(s.has_buffers() && t.has_buffers()),
{
}

/// Ending a session keeps it consistent.
pub proof fn ended_is_wf<GM, H>(s: SessionView<GM, H>)
    requires
        s.wf(),
    ensures
        s.ended().wf(),
{
    all_returned_is_wf(s.input, QueueType::VideoOutputMplane);
    all_returned_is_wf(s.output, QueueType::VideoCaptureMplane);
}

/// Lending the next pending buffer of a queue.
pub proof fn one_more_loaned<GM, H>(q: QueueView<GM, H>, k: int)
    requires
        q.buffers.len() <= 32,
        q.pending.no_duplicates(),
        0 <= k < q.pending.len(),
        q.pending[k] < q.buffers.len(),
    ensures
        ({
            let i = q.pending[k];
            let before = q.first_loaned(k);
            &&& before.buffers[i as int] == q.buffers[i as int]
            &&& before.pending[0] == i
            &&& q.first_loaned(k + 1).buffers == before.buffers.update(
                i as int,
                before.buffers[i as int].loaned(),
            )
            &&& q.first_loaned(k + 1).pending == before.pending.skip(1)
            &&& q.first_loaned(k + 1).lending == before.lending.push(i)
        }),
{
    let i = q.pending[k];
    let t = q.pending.take(k);
    let u = q.pending.take(k + 1);
    assert(u == t.push(i));
    assert(!t.contains(i)) by {
        if t.contains(i) {
            let j = choose|j: int| 0 <= j < t.len() && t[j] == i;
            assert(q.pending[j] == i);
        }
    }
    assert forall|x: usize| u.contains(x) <==> t.contains(x) || x == i by {
        if u.contains(x) {
            let j = choose|j: int| 0 <= j < u.len() && u[j] == x;
            if j < k {
                assert(t[j] == x);
            }
        }
        if t.contains(x) {
            let j = choose|j: int| 0 <= j < t.len() && t[j] == x;
            assert(u[j] == x);
        }
        assert(u[k] == i);
    }
    let before = q.first_loaned(k);
    let after = q.first_loaned(k + 1);
    assert(after.buffers =~= before.buffers.update(i as int, before.buffers[i as int].loaned()));
    assert(after.pending =~= before.pending.skip(1));
    assert(after.lending =~= before.lending.push(i));
}

/// Lending every pending buffer keeps a queue consistent.
pub proof fn loaned_is_wf<GM, H>(q: QueueView<GM, H>, queue: QueueType)
    requires
        q.wf(queue),
    ensures
        q.first_loaned(q.pending.len() as int).wf(queue),
{
    let r = q.first_loaned(q.pending.len() as int);
    let p = q.pending;
    assert(p.take(p.len() as int) == p);
    if let Some(m) = q.memory {
        assert forall|i: int| 0 <= i < r.buffers.len() implies (#[trigger] r.buffers[i]).wf(
            i,
            queue,
            m,
        ) by {
            assert(q.buffers[i].wf(i, queue, m));
            if p.contains(i as usize) {
                let k = choose|k: int| 0 <= k < p.len() && p[k] == i as usize;
                assert(q.buffers[p[k] as int].queued);
            }
        }
    }
    assert forall|k: int| 0 <= k < r.lending.len() implies (#[trigger] r.lending[k])
        < r.buffers.len() && r.buffers[r.lending[k] as int].lent by {
        if k < q.lending.len() {
            assert(r.lending[k] == q.lending[k]);
        } else {
            let x = p[k - q.lending.len()];
            assert(r.lending[k] == x);
            assert(p.contains(x));
        }
    }
    assert(r.lending.no_duplicates()) by {
        assert forall|a: int, b: int|
            0 <= a < b < r.lending.len() implies r.lending[a] != r.lending[b] by {
            if b < q.lending.len() {
                assert(q.lending[a] != q.lending[b]);
            } else if a >= q.lending.len() {
                assert(p[a - q.lending.len()] != p[b - q.lending.len()]);
            } else {
                assert(q.buffers[q.lending[a] as int].lent);
                assert(!q.buffers[p[b - q.lending.len()] as int].lent);
            }
        }
    }
    assert forall|i: usize|
        i < r.buffers.len() && (#[trigger] r.buffers[i as int]).lent implies r.lending.contains(
        i,
    ) by {
        if p.contains(i) {
            let k = choose|k: int| 0 <= k < p.len() && p[k] == i;
            assert(r.lending[q.lending.len() + k] == i);
        } else {
            assert(q.buffers[i as int].lent);
            let k = choose|k: int| 0 <= k < q.lending.len() && q.lending[k] == i;
            assert(r.lending[k] == i);
        }
    }
    assert forall|i: usize|
        i < r.buffers.len() && (#[trigger] r.buffers[i as int]).queued
            && !r.buffers[i as int].lent implies r.pending.contains(i) by {
        assert(q.buffers[i as int].queued && !q.buffers[i as int].lent);
        assert(p.contains(i));
    }
}

/// Returning every buffer forgets which were lent.
pub proof fn returning_forgets_loans<GM, H>(q: QueueView<GM, H>, k: int, r: QueueView<GM, H>)
    requires
        r.buffers == q.first_loaned(k).buffers,
        r.memory == q.memory,
    ensures
        r.all_returned() == q.all_returned(),
{
    assert(r.all_returned().buffers =~= q.all_returned().buffers);
}

impl<B, Q, M, HM, A> VideoEncoder<B, Q, M, HM, A> where
    B: VideoEncoderBackend,
    Q: VirtioMediaEventQueue,
    M: VirtioMediaGuestMemoryMapper,
    A: VirtioMediaBufferAllocator,
    HM: VirtioMediaHostMemoryMapper<Handle = A::Handle>,
 {
    /// The controls are those of the capabilities, no two buffers share an offset, and what is on
    /// record is what the backend, the event queue, the mappers and the allocator were asked for.
    pub open spec fn wf(&self) -> bool {
        &&& self.mmap_manager.wf()
        &&& is_table(self.caps@, self.controls@)
        &&& self.backend.faithful()
        &&& self.evt_queue.faithful()
        &&& self.mem.faithful()
        &&& self.allocator.faithful()
    }

    /// Whether the device is one that only its own calls made of what it was: every state that the
    /// backend, the event queue, the host mapper and the allocator went through still stands, and
    /// the guest memory mapper is the same.
    pub open spec fn continues(&self, before: &Self) -> bool {
        &&& continued(before.backend.path@, self.backend.path@)
        &&& continued(before.evt_queue.path@, self.evt_queue.path@)
        &&& continued(before.mmap_manager.mapper.path@, self.mmap_manager.mapper.path@)
        &&& continued(before.allocator.path@, self.allocator.path@)
        &&& self.mem.mapper == before.mem.mapper
    }

    /// Whether the device can serve a session: both are consistent and fit each other, and the
    /// session's codec was asked for just what is on record.
    pub open spec fn serves(&self, session: &EncoderSession<B, M, A>) -> bool {
        self.wf() && self@.fits(session@) && session.backend.faithful()
    }

    /// A device over a backend: the controls are built from what it declares, and no session
    /// holds buffers.
    pub fn new(backend: B, evt_queue: Q, mem: M, mapper: HM, allocator: A) -> (r: Self)
        ensures
            r.wf(),
            backend.declares(r@.caps),
            r.backend.backend == backend && r.evt_queue.queue == evt_queue && r.mem.mapper == mem,
            r.mmap_manager.mapper.mapper == mapper && r.allocator.allocator == allocator,
            r@.active_session is None,
            r@.backend.len() == 0 && r@.events.len() == 0 && r@.guest.len() == 0,
            r@.mapper.len() == 0 && r@.pool.len() == 0 && r@.retired.len() == 0,
            r@.mappings.len() == 0 && r@.ranges == Set::<MmapRange>::empty(),
    {
        let caps: EncoderCapabilities = backend.capabilities().copy();
        let controls: Vec<CtrlDef> = controls_for(&caps);
        VideoEncoder {
            backend: BackendPort::new(backend),
            caps,
            evt_queue: EventPort::new(evt_queue),
            mem: GuestPort::new(mem),
            mmap_manager: MmapMappingManager::new(mapper),
            allocator: PoolPort::new(allocator),
            retired: RetiredBuffers::new(),
            active_session: None,
            controls,
        }
    }

    /// What the backend can do.
    pub fn capabilities(&self) -> (r: &EncoderCapabilities)
        ensures
            r@ == self@.caps,
    {
        &self.caps
    }

    /// The codec died: it is stopped, every buffer goes back to the guest, the session is dead and
    /// the guest is told. A session dies once, whatever else goes wrong with it.
    pub(crate) fn end_session(&mut self, session: &mut EncoderSession<B, M, A>)
        ensures
            final(self).continues(old(self)),
            final(session).continues(old(session)),
            old(session)@.dead ==> final(session)@ == old(session)@ && final(self)@ == old(self)@,
            !old(session)@.dead ==> final(session)@ == old(session)@.ended() && final(self)@
                == old(self)@.sending(
                V4l2Event::Error { session_id: old(session)@.id, errno: ENODEV },
            ),
            old(self).wf() ==> final(self).wf(),
            old(session)@.wf() ==> final(session)@.wf(),
            old(session).backend.faithful() ==> final(session).backend.faithful(),
    {
        proof {
            if session@.wf() {
                ended_is_wf(session@);
            }
        }
        if session.dead {
            return;
        }
        session.backend.stop();
        session.codec_started = false;
        session.input.unqueue_all(&session.backend, QueueDirection::Output);
        session.output.unqueue_all(&session.backend, QueueDirection::Capture);
        session.dead = true;
        self.evt_queue.send_error(session.id, ENODEV);
    }

    /// Lends a queued `CAPTURE` buffer to the codec to encode into.
    pub(crate) fn lend_output(session: &mut EncoderSession<B, M, A>, index: usize) -> (r: Result<
        (),
        i32,
    >)
        requires
            index < old(session)@.output.buffers.len() <= 32,
            old(session)@.output.buffers[index as int].address() is Some,
        ensures
            final(session).continues(old(session)),
            ({
                let o = old(session)@;
                let call = CodecCall::UseAsCapture { frame: o.bitstream_buffer(index), answer: r };
                final(session)@ == SessionView {
                    codec: o.codec.push(call),
                    output: if r is Ok {
                        QueueView {
                            buffers: o.output.buffers.update(
                                index as int,
                                o.output.buffers[index as int].loaned(),
                            ),
                            lending: o.output.lending.push(index),
                            ..o.output
                        }
                    } else {
                        o.output
                    },
                    ..o
                }
            }),
            old(session).backend.faithful() ==> final(session).backend.faithful(),
    {
        let entry = &session.output.buffers[index];
        let len: usize = entry.capacity() as usize;
        let ptr: usize = match entry.data_ptr() {
            Some(p) => p,
            None => 0,
        };
        let r = session.backend.use_as_capture(
            OutputBuffer { index: index as u32, ptr: SendPtr(ptr), len },
        );
        if r.is_ok() {
            session.output.buffers[index].lent = true;
            session.output.lending.push(index);
        }
        r
    }

    /// Lends a queued `OUTPUT` buffer to the codec to encode.
    pub(crate) fn lend_input(session: &mut EncoderSession<B, M, A>, index: usize) -> (r: Result<
        (),
        i32,
    >)
        requires
            index < old(session)@.input.buffers.len() <= 32,
            old(session)@.input.buffers[index as int].address() is Some,
        ensures
            final(session).continues(old(session)),
            ({
                let o = old(session)@;
                let call = CodecCall::Encode { buffer: o.raw_frame(index), answer: r };
                final(session)@ == SessionView {
                    codec: o.codec.push(call),
                    input: if r is Ok {
                        QueueView {
                            buffers: o.input.buffers.update(
                                index as int,
                                o.input.buffers[index as int].loaned(),
                            ),
                            lending: o.input.lending.push(index),
                            ..o.input
                        }
                    } else {
                        o.input
                    },
                    ..o
                }
            }),
            old(session).backend.faithful() ==> final(session).backend.faithful(),
    {
        let entry = &session.input.buffers[index];
        let len: usize = entry.capacity() as usize;
        let timestamp = entry.v4l2_buffer.timestamp;
        let ptr: usize = match entry.data_ptr() {
            Some(p) => p,
            None => 0,
        };
        let r = session.backend.encode(
            InputBuffer { index: index as u32, ptr: SendPtr(ptr), len, timestamp },
        );
        if r.is_ok() {
            session.input.buffers[index].lent = true;
            session.input.lending.push(index);
        }
        r
    }
}

} // verus!
