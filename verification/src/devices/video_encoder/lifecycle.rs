//! Opening and closing sessions, and mapping their buffers into the guest.
use vstd::prelude::*;

use super::backend::{
    BackendCall, CodecCall, CodecPort, Colorimetry, VideoEncoderBackend, VideoEncoderBackendSession,
};
use super::buffers::{freed, freeing_leaves_the_rest, returning_before_freeing};
use super::device::{DeviceView, EncoderSession, VideoEncoder};
use super::queue::{empty_queue, Backing, Buffer, Queue};
use super::ranges::{fitted_is_in_range, fitting_is_idempotent};
use super::session::{default_colorimetry, Drain, SessionView, StreamingState, VideoEncoderSession};
use crate::errno::{EINVAL, ENODEV};
use crate::host::{
    HostBuffer, MapperCall, VirtioMediaBufferAllocator, VirtioMediaEventQueue,
    VirtioMediaGuestMemoryMapper, VirtioMediaHostMemoryMapper,
};
use crate::mmap::{let_go, ranges_after, registered, still_held, MmapMapping};
use crate::protocol::VIRTIO_MEDIA_MMAP_FLAG_RW;
use crate::v4l2::{QueueDirection, Rect};

verus! {

/// The raw size a session starts with, before it is fitted to the codec.
pub const DEFAULT_WIDTH: u32 = 640;

pub const DEFAULT_HEIGHT: u32 = 480;

/// A session as it is opened: the first coded format, the default size and frame rate fitted to
/// it, the whole frame visible, every control at its default, and nothing else.
pub open spec fn fresh_session<GM, H, S, K>(
    d: DeviceView<GM, H, S, K>,
    id: u32,
    wake: i32,
) -> SessionView<GM, H> {
    let first = d.caps.formats[0];
    let width = first.width.fitted(DEFAULT_WIDTH as int) as u32;
    let height = first.height.fitted(DEFAULT_HEIGHT as int) as u32;
    SessionView {
        id,
        wake,
        codec: Seq::empty(),
        codec_started: false,
        state: StreamingState { output_streaming: false, capture_streaming: false },
        drain: Drain::Idle,
        input: empty_queue(),
        output: empty_queue(),
        coded_format: first.fourcc,
        coded_size: (width, height),
        crop: Rect { left: 0, top: 0, width, height },
        timeperframe: (1, first.frame_rate.default_rate() as u32),
        bitstream_size: None,
        colorspace: default_colorimetry(),
        ctrl_values: Seq::new(d.controls.len(), |i: int| d.controls[i].ty@.bounds().default),
        eos_subscribed: false,
        dead: false,
        sequence: 0,
    }
}

/// What opening a session does: `ENODEV` where the backend has no coded format, and otherwise
/// whatever making its wake-up or the backend's own part fails with.
pub open spec fn opened<GM, H, S, K>(
    d: DeviceView<GM, H, S, K>,
    id: u32,
    d2: DeviceView<GM, H, S, K>,
    r: Result<VideoEncoderSession<GM, H, S>, i32>,
) -> bool {
    if d.caps.formats.len() == 0 {
        d2 == d && r is Err && r->Err_0 == ENODEV
    } else {
        exists|wake: Result<(K, i32), i32>, answer: Result<S, i32>| #[trigger]
            opened_with(d, id, wake, answer, d2, r)
    }
}

/// What opening a session does for the answers of the backend.
pub open spec fn opened_with<GM, H, S, K>(
    d: DeviceView<GM, H, S, K>,
    id: u32,
    wake: Result<(K, i32), i32>,
    answer: Result<S, i32>,
    d2: DeviceView<GM, H, S, K>,
    r: Result<VideoEncoderSession<GM, H, S>, i32>,
) -> bool {
    let asked = d.backend.push(BackendCall::NewSink { wake });
    match wake {
        Err(e) => d2 == (DeviceView { backend: asked, ..d }) && r is Err && r->Err_0 == e,
        Ok((sink, fd)) => {
            &&& d2 == (DeviceView {
                backend: asked.push(BackendCall::NewSession { id, sink, answer }),
                ..d
            })
            &&& match (answer, r) {
                (Err(e), Err(errno)) => errno == e,
                (Ok(session), Ok(opened)) => {
                    &&& opened@ == fresh_session(d, id, fd)
                    &&& opened.backend.session == session
                },
                _ => false,
            }
        },
    }
}

/// What closing a session does: its codec is stopped, its buffers are freed, and the backend is
/// given its part back. The device has no active session any more if it was this one.
pub open spec fn closed<GM, H, S, K>(
    d: DeviceView<GM, H, S, K>,
    s: SessionView<GM, H>,
    session: S,
) -> DeviceView<GM, H, S, K> {
    let d1 = DeviceView {
        active_session: if d.active_session == Some(s.id) {
            None
        } else {
            d.active_session
        },
        ..d
    };
    let d2 = freed(freed(d1, s.input.buffers), s.output.buffers);
    DeviceView {
        backend: d2.backend.push(
            BackendCall::CloseSession { session, codec: s.codec.push(CodecCall::Stop) },
        ),
        ..d2
    }
}

/// Whether a buffer is the host buffer at an offset.
pub open spec fn is_at<GM, H>(b: Buffer<GM, H>, offset: u32) -> bool {
    b.backing is Host && b.backing->offset == offset
}

/// The buffers of a session, those of `OUTPUT` first.
pub open spec fn all_buffers<GM, H>(s: SessionView<GM, H>) -> Seq<Buffer<GM, H>> {
    s.input.buffers + s.output.buffers
}

/// Whether buffer `i` of a list is the first that is the host buffer at an offset.
pub open spec fn first_at<GM, H>(buffers: Seq<Buffer<GM, H>>, offset: u32, i: int) -> bool {
    &&& 0 <= i < buffers.len()
    &&& is_at(buffers[i], offset)
    &&& forall|j: int| 0 <= j < i ==> !is_at(#[trigger] buffers[j], offset)
}

/// What mapping the buffer at an offset into the guest does. Everything that goes wrong is
/// `EINVAL`.
pub open spec fn mapping_made<GM, H, S, K>(
    d: DeviceView<GM, H, S, K>,
    buffer: HostBuffer<H>,
    offset: u32,
    rw: bool,
    d2: DeviceView<GM, H, S, K>,
    r: Result<(u64, u64), i32>,
) -> bool {
    if !registered(d.ranges, offset) {
        d2 == d && r == Err::<(u64, u64), i32>(EINVAL)
    } else {
        exists|at: Result<u64, i32>| #[trigger]
            mapping_answered(d, buffer, offset, rw, at, d2, r)
    }
}

/// What mapping a registered buffer does for the mapper's answer.
pub open spec fn mapping_answered<GM, H, S, K>(
    d: DeviceView<GM, H, S, K>,
    buffer: HostBuffer<H>,
    offset: u32,
    rw: bool,
    at: Result<u64, i32>,
    d2: DeviceView<GM, H, S, K>,
    r: Result<(u64, u64), i32>,
) -> bool {
    let mapper = d.mapper.push(MapperCall::Add { buffer, offset: offset as u64, rw, at });
    match at {
        Ok(addr) => {
            &&& d2 == (DeviceView {
                mapper,
                mappings: d.mappings.push(MmapMapping { addr, offset }),
                ..d
            })
            &&& r == Ok::<(u64, u64), i32>((addr, buffer.len))
        },
        Err(_) => d2 == (DeviceView { mapper, ..d }) && r == Err::<(u64, u64), i32>(EINVAL),
    }
}

/// What mapping the buffer of a session at an offset does: `EINVAL` where it has none. The lowest
/// bit of `flags` asks for a writable mapping.
pub open spec fn buffer_mapped<GM, H, S, K>(
    d: DeviceView<GM, H, S, K>,
    s: SessionView<GM, H>,
    flags: u32,
    offset: u32,
    d2: DeviceView<GM, H, S, K>,
    r: Result<(u64, u64), i32>,
) -> bool {
    let all = all_buffers(s);
    &&& (forall|i: int| 0 <= i < all.len() ==> !is_at(#[trigger] all[i], offset)) ==> d2 == d && r
        == Err::<(u64, u64), i32>(EINVAL)
    &&& forall|i: int| #[trigger]
        first_at(all, offset, i) ==> mapping_made(
            d,
            all[i].backing->buffer,
            offset,
            flags % 2 == 1,
            d2,
            r,
        )
}

/// The device with every retired buffer the guest no longer maps given back.
pub open spec fn reaped<GM, H, S, K>(d: DeviceView<GM, H, S, K>) -> DeviceView<GM, H, S, K> {
    DeviceView {
        retired: still_held(d.retired, d.mappings),
        pool: d.pool + let_go(d.retired, d.mappings),
        ranges: ranges_after(d.retired, d.mappings, d.ranges),
        ..d
    }
}

/// Whether guest mapping `i` is the oldest at an address.
pub open spec fn first_mapping(mappings: Seq<MmapMapping>, addr: u64, i: int) -> bool {
    &&& 0 <= i < mappings.len()
    &&& mappings[i].addr == addr
    &&& forall|j: int| 0 <= j < i ==> (#[trigger] mappings[j]).addr != addr
}

/// What unmapping what the guest sees at an address does: the mapping goes, `EINVAL` where there
/// is none or the mapper refuses, and buffers nobody uses any more are given back.
pub open spec fn unmapped<GM, H, S, K>(
    d: DeviceView<GM, H, S, K>,
    addr: u64,
    d2: DeviceView<GM, H, S, K>,
    r: Result<(), i32>,
) -> bool {
    if exists|i: int| first_mapping(d.mappings, addr, i) {
        let i = choose|i: int| first_mapping(d.mappings, addr, i);
        exists|done: Result<(), i32>| #[trigger]
            unmapped_with(d, addr, i, done, d2) && r == (match done {
                Ok(_) => Ok(()),
                Err(_) => Err(EINVAL),
            })
    } else {
        d2 == reaped(d) && r == Err::<(), i32>(EINVAL)
    }
}

/// What unmapping guest mapping `i` does for the mapper's answer.
pub open spec fn unmapped_with<GM, H, S, K>(
    d: DeviceView<GM, H, S, K>,
    addr: u64,
    i: int,
    done: Result<(), i32>,
    d2: DeviceView<GM, H, S, K>,
) -> bool {
    let d1 = DeviceView {
        mapper: d.mapper.push(MapperCall::Remove { shm_offset: addr, done }),
        mappings: if done is Ok {
            d.mappings.remove(i)
        } else {
            d.mappings
        },
        ..d
    };
    d2 == reaped(d1)
}

/// An opened session starts with a format of the backend, a frame its codec takes, and everything
/// else consistent.
pub proof fn fresh_sessions_fit<GM, H, S, K>(d: DeviceView<GM, H, S, K>, id: u32, wake: i32)
    requires
        d.caps.formats.len() > 0,
    ensures
        d.fits(fresh_session::<GM, H, S, K>(d, id, wake)),
{
    let first = d.caps.formats[0];
    fitted_is_in_range(first.width, DEFAULT_WIDTH as int);
    fitted_is_in_range(first.height, DEFAULT_HEIGHT as int);
    fitting_is_idempotent(first.width, DEFAULT_WIDTH as int);
    fitting_is_idempotent(first.height, DEFAULT_HEIGHT as int);
    super::capabilities::first_format_is_the_format(d.caps, first.fourcc, 0);
    let s = fresh_session::<GM, H, S, K>(d, id, wake);
    assert(s.input.wf(crate::v4l2::QueueType::VideoOutputMplane));
    assert(s.output.wf(crate::v4l2::QueueType::VideoCaptureMplane));
}

impl<GM, H> Queue<GM, H> {
    /// The place of the host buffer at an offset.
    fn find_host(&self, offset: u32) -> (r: Option<usize>)
        ensures
            match r {
                Some(i) => first_at(self@.buffers, offset, i as int),
                None => forall|i: int|
                    0 <= i < self@.buffers.len() ==> !is_at(#[trigger] self@.buffers[i], offset),
            },
    {
        let mut i: usize = 0;
        while i < self.buffers.len()
            invariant
                i <= self.buffers@.len(),
                forall|j: int| 0 <= j < i ==> !is_at(#[trigger] self.buffers@[j], offset),
            decreases self.buffers@.len() - i,
        {
            if let Backing::Host { offset: o, .. } = &self.buffers[i].backing {
                if *o == offset {
                    return Some(i);
                }
            }
            i = i + 1;
        }
        None
    }
}

impl<B, Q, M, HM, A> VideoEncoder<B, Q, M, HM, A> where
    B: VideoEncoderBackend,
    Q: VirtioMediaEventQueue,
    M: VirtioMediaGuestMemoryMapper,
    A: VirtioMediaBufferAllocator,
    HM: VirtioMediaHostMemoryMapper<Handle = A::Handle>,
 {
    /// The default of every control.
    fn default_values(&self) -> (r: Vec<i32>)
        ensures
            r@ == Seq::new(
                self@.controls.len(),
                |i: int| self@.controls[i].ty@.bounds().default,
            ),
    {
        let mut out: Vec<i32> = Vec::new();
        let mut i: usize = 0;
        while i < self.controls.len()
            invariant
                i <= self.controls@.len(),
                out@.len() == i,
                forall|j: int|
                    0 <= j < i ==> #[trigger] out@[j] == self.controls@[j].ty@.bounds().default,
            decreases self.controls@.len() - i,
        {
            out.push(self.controls[i].ty.bounds().default);
            i = i + 1;
        }
        out
    }

    /// Opens a session.
    pub fn new_session(&mut self, session_id: u32) -> (r: Result<EncoderSession<B, M, A>, i32>)
        requires
            old(self).wf(),
        ensures
            final(self).wf(),
            final(self).continues(old(self)),
            opened(old(self)@, session_id, final(self)@, r),
            r matches Ok(s) ==> final(self).serves(&s),
            old(self)@.keeps_others(final(self)@, session_id),
    {
        if self.caps.coded_formats.len() == 0 {
            return Err(ENODEV);
        }
        let ghost d = self@;
        let first = &self.caps.coded_formats[0];
        assert(first@ == d.caps.formats[0]);
        let coded_format = first.fourcc;
        let width: u32 = first.width.fit(DEFAULT_WIDTH);
        let height: u32 = first.height.fit(DEFAULT_HEIGHT);
        let fps: u32 = first.frame_rate.default_fps();
        let ctrl_values: Vec<i32> = self.default_values();
        let wake = self.backend.new_sink();
        match wake {
            Err(e) => {
                assert(opened_with::<M::GuestMemoryMapping, A::Handle, B::Session, B::Sink>(
                    d,
                    session_id,
                    wake,
                    Err(e),
                    self@,
                    Err(e),
                ));
                Err(e)
            },
            Ok((sink, fd)) => {
                let answer = self.backend.new_session(session_id, sink);
                match answer {
                    Err(e) => {
                        assert(opened_with::<
                            M::GuestMemoryMapping,
                            A::Handle,
                            B::Session,
                            B::Sink,
                        >(d, session_id, wake, answer, self@, Err(e)));
                        Err(e)
                    },
                    Ok(session) => {
                        let r = VideoEncoderSession {
                            id: session_id,
                            backend: CodecPort::new(session),
                            wake: fd,
                            codec_started: false,
                            state: StreamingState {
                                output_streaming: false,
                                capture_streaming: false,
                            },
                            drain: Drain::Idle,
                            input: Queue::new(),
                            output: Queue::new(),
                            coded_format,
                            coded_size: (width, height),
                            crop: Rect { left: 0, top: 0, width, height },
                            timeperframe: (1, fps),
                            bitstream_size: None,
                            colorspace: Colorimetry::initial(),
                            ctrl_values,
                            eos_subscribed: false,
                            dead: false,
                            sequence: 0,
                        };
                        assert(r@ == fresh_session(d, session_id, fd));
                        assert(opened_with(d, session_id, wake, answer, self@, Ok(r)));
                        proof {
                            fresh_sessions_fit(d, session_id, fd);
                        }
                        Ok(r)
                    },
                }
            },
        }
    }

    /// Closes a session. Its codec is stopped first, so that no thread touches a buffer that goes
    /// away.
    pub fn close_session(&mut self, session: EncoderSession<B, M, A>)
        requires
            old(self).wf(),
            session.backend.faithful(),
        ensures
            final(self).wf(),
            final(self).continues(old(self)),
            exists|s: B::Session|
                session.backend.session.stopping(&s) && final(self)@ == #[trigger] closed(
                    old(self)@,
                    session@,
                    s,
                ),
            old(self)@.keeps_others(final(self)@, session@.id),
    {
        let ghost d = self@;
        let ghost s = session@;
        if let Some(id) = self.active_session {
            if id == session.id {
                self.active_session = None;
            }
        }
        let ghost d1 = self@;
        proof {
            freeing_leaves_the_rest(d1, s.input.buffers);
            freeing_leaves_the_rest(freed(d1, s.input.buffers), s.output.buffers);
            returning_before_freeing(d1, s.input);
            returning_before_freeing(freed(d1, s.input.buffers), s.output);
        }
        let mut session = session;
        session.backend.stop();
        // Nothing is with the codec any more.
        let mut input = session.input;
        let mut output = session.output;
        input.unqueue_all(&session.backend, QueueDirection::Output);
        output.unqueue_all(&session.backend, QueueDirection::Capture);
        self.free_buffers(&mut input);
        self.free_buffers(&mut output);
        let ghost codec = session.backend.session;
        self.backend.close_session(session.backend);
        assert(self@ == closed(d, s, codec));
    }

    /// Maps the buffer at `offset` into the guest: the address the guest sees it at and its
    /// length.
    pub fn do_mmap(&mut self, session: &mut EncoderSession<B, M, A>, flags: u32, offset: u32) -> (r:
        Result<(u64, u64), i32>)
        requires
            old(self).serves(old(session)),
        ensures
            final(self).serves(final(session)),
            final(self).continues(old(self)),
            final(session).continues(old(session)),
            *final(session) == *old(session),
            buffer_mapped(old(self)@, old(session)@, flags, offset, final(self)@, r),
            old(self)@.keeps_others(final(self)@, old(session)@.id),
    {
        let ghost d = self@;
        let ghost all = all_buffers(session@);
        let ghost n = session@.input.buffers.len();
        let rw: bool = flags & VIRTIO_MEDIA_MMAP_FLAG_RW != 0;
        assert((flags & 1 != 0) == (flags % 2 == 1)) by (bit_vector);
        let (in_input, index): (bool, usize) = match session.input.find_host(offset) {
            Some(i) => {
                assert(first_at(all, offset, i as int));
                (true, i)
            },
            None => match session.output.find_host(offset) {
                Some(i) => {
                    assert forall|j: int| 0 <= j < n + i implies !is_at(
                        #[trigger] all[j],
                        offset,
                    ) by {
                        if j < n {
                            assert(all[j] == session@.input.buffers[j]);
                        } else {
                            assert(all[j] == session@.output.buffers[j - n]);
                        }
                    }
                    assert(first_at(all, offset, n + i));
                    (false, i)
                },
                None => {
                    assert forall|j: int| 0 <= j < all.len() implies !is_at(
                        #[trigger] all[j],
                        offset,
                    ) by {
                        if j < n {
                            assert(all[j] == session@.input.buffers[j]);
                        } else {
                            assert(all[j] == session@.output.buffers[j - n]);
                        }
                    }
                    return Err(EINVAL);
                },
            },
        };
        let ghost at = if in_input {
            index as int
        } else {
            n + index
        };
        let q = if in_input {
            &session.input
        } else {
            &session.output
        };
        if let Backing::Host { buffer, .. } = &q.buffers[index].backing {
            let ghost host = *buffer;
            assert(all[at].backing->buffer == host);
            let made = self.mmap_manager.create_mapping(offset, buffer, rw);
            let r: Result<(u64, u64), i32> = match made {
                Ok(m) => Ok(m),
                Err(_) => Err(EINVAL),
            };
            proof {
                if registered(d.ranges, offset) {
                    let at = choose|at: Result<u64, i32>|
                        {
                            &&& self.mmap_manager.mapper.calls@ == #[trigger] d.mapper.push(
                                MapperCall::Add { buffer: host, offset: offset as u64, rw, at },
                            )
                            &&& match at {
                                Ok(addr) => made == Ok::<(u64, u64), i32>((addr, host.len))
                                    && self.mmap_manager.mappings@ == d.mappings.push(
                                    MmapMapping { addr, offset },
                                ),
                                Err(e) => made == Err::<(u64, u64), i32>(e)
                                    && self.mmap_manager.mappings@ == d.mappings,
                            }
                        };
                    assert(mapping_answered(d, host, offset, rw, at, self@, r));
                }
            }
            assert forall|i: int| #[trigger] first_at(all, offset, i) implies i == at by {
                if i < at {
                    assert(is_at(all[i], offset));
                } else if i > at {
                    assert(is_at(all[at], offset));
                }
            }
            return r;
        }
        Err(EINVAL)
    }

    /// Unmaps what the guest sees at an address.
    pub fn do_munmap(&mut self, guest_addr: u64) -> (r: Result<(), i32>)
        requires
            old(self).wf(),
        ensures
            final(self).wf(),
            final(self).continues(old(self)),
            unmapped(old(self)@, guest_addr, final(self)@, r),
            forall|id: u32| old(self)@.keeps_others(final(self)@, id),
    {
        let ghost d = self@;
        let done = self.mmap_manager.remove_mapping(guest_addr);
        let ghost d1 = self@;
        self.retired.reap(&mut self.mmap_manager, &mut self.allocator);
        assert(self@ == reaped(d1));
        proof {
            if exists|i: int| first_mapping(d.mappings, guest_addr, i) {
                let i = choose|i: int| first_mapping(d.mappings, guest_addr, i);
                assert(d.mappings[i].addr == guest_addr);
                assert(unmapped_with(d, guest_addr, i, done, self@));
            } else {
                assert forall|i: int| 0 <= i < d.mappings.len() implies (
                #[trigger] d.mappings[i]).addr != guest_addr by {
                    if d.mappings[i].addr == guest_addr {
                        oldest_exists(d.mappings, guest_addr, i);
                    }
                }
            }
        }
        match done {
            Ok(_) => Ok(()),
            Err(_) => Err(EINVAL),
        }
    }
}

/// Where some mapping is at an address, one of them is the oldest.
proof fn oldest_exists(mappings: Seq<MmapMapping>, addr: u64, i: int)
    requires
        0 <= i < mappings.len(),
        mappings[i].addr == addr,
    ensures
        exists|k: int| first_mapping(mappings, addr, k),
    decreases i,
{
    if forall|j: int| 0 <= j < i ==> (#[trigger] mappings[j]).addr != addr {
        assert(first_mapping(mappings, addr, i));
    } else {
        let j = choose|j: int| 0 <= j < i && (#[trigger] mappings[j]).addr == addr;
        oldest_exists(mappings, addr, j);
    }
}

} // verus!
