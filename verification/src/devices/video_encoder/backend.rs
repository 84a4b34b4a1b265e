//! What a codec backend provides: the traits it implements, what it is given and what it reports.
use vstd::prelude::*;

use super::capabilities::{CapabilitiesView, EncoderCapabilities, VideoBitrateMode, VideoHeaderMode};
use crate::host::continued;
use crate::v4l2::{PixelFormat, QueueDirection, Rect, Timeval};

verus! {

/// The host address of a buffer lent to the codec.
///
/// What is there -- a host buffer from the allocator or a guest mapping held for as long as the
/// buffer is lent -- stays mapped for the life of the loan, and the loan is exclusive.
#[derive(Clone, Copy, Debug, PartialEq, Eq, Structural)]
pub struct SendPtr(pub usize);

impl SendPtr {
    /// The address.
    pub fn as_ptr(&self) -> (r: usize)
        ensures
            r == self.0,
    {
        self.0
    }
}

/// An `OUTPUT` (raw frame) buffer lent to the backend to encode: one NV12 frame of the configured
/// coded size.
#[derive(Clone, Copy, Debug, PartialEq, Eq, Structural)]
pub struct InputBuffer {
    /// The V4L2 buffer index; comes back in [`EncoderEvent::InputBufferDone`].
    pub index: u32,
    pub ptr: SendPtr,
    /// Bytes at `ptr`.
    pub len: usize,
    /// The frame's timestamp, copied to the `CAPTURE` buffers encoded from it.
    pub timestamp: Timeval,
}

/// A `CAPTURE` (bitstream) buffer lent to the backend to encode into.
#[derive(Clone, Copy, Debug, PartialEq, Eq, Structural)]
pub struct OutputBuffer {
    /// The V4L2 buffer index; comes back in [`EncoderEvent::FrameEncoded`].
    pub index: u32,
    pub ptr: SendPtr,
    /// Bytes available at `ptr`.
    pub len: usize,
}

/// What a filled `CAPTURE` buffer holds.
#[derive(Clone, Copy, Debug, PartialEq, Eq, Structural)]
pub enum FrameKind {
    /// Stream headers alone.
    Headers,
    /// A key frame.
    Key,
    /// A predicted frame.
    Inter,
    /// A bidirectionally predicted frame.
    Bidirectional,
}

/// Something the backend reports.
#[derive(Debug, PartialEq, Eq)]
pub enum EncoderEvent {
    /// The `OUTPUT` buffer at this index is done being read.
    InputBufferDone(u32),
    /// The `CAPTURE` buffer at `index` holds a coded frame (or the stream headers).
    FrameEncoded {
        index: u32,
        /// Bytes written, from the start of the buffer.
        bytesused: u32,
        /// The `OUTPUT` timestamp the frame came from.
        timestamp: Timeval,
        kind: FrameKind,
        /// The last buffer of a drain; may be empty.
        is_last: bool,
    },
    /// The session failed and produces nothing more; the string is for the log.
    Error(String),
}

/// The colorimetry of the raw frames, as raw V4L2 values.
#[derive(Clone, Copy, Debug, PartialEq, Eq, Structural)]
pub struct Colorimetry {
    pub colorspace: u32,
    pub ycbcr_enc: u32,
    pub quantization: u32,
    pub xfer_func: u32,
}

/// Frames per second as a fraction, `num / den`.
#[derive(Clone, Copy, Debug, PartialEq, Eq, Structural)]
pub struct FrameRate {
    pub num: u32,
    pub den: u32,
}

/// Everything the codec is created with, gathered when both queues start streaming. Every value
/// is one the backend declared it accepts.
#[derive(Clone, Copy, Debug, PartialEq, Eq)]
pub struct EncoderConfig {
    /// The fourcc selected by `S_FMT(CAPTURE)`.
    pub coded_format: PixelFormat,
    /// Size of the NV12 frames in every [`InputBuffer`].
    pub coded_size: (u32, u32),
    /// The part of each frame to encode.
    pub visible_rect: Rect,
    pub frame_rate: FrameRate,
    /// Bits per second.
    pub bitrate: u32,
    pub bitrate_mode: VideoBitrateMode,
    /// Frames between keyframes.
    pub gop_size: u32,
    pub header_mode: VideoHeaderMode,
    /// Headers again in front of every keyframe.
    pub prepend_sps_pps_to_idr: bool,
    /// The selected format's profile, if it has one.
    pub profile: Option<i32>,
    /// The selected format's level, if it has one.
    pub level: Option<i32>,
    /// Least and greatest quantiser of the selected format, if it has them.
    pub qp: Option<(i32, i32)>,
    pub colorimetry: Colorimetry,
}

/// An encoding session's backend: the actual codec. Every method is called on the device's worker
/// thread and must return promptly; the codec runs on a thread of its own and reports back through
/// `take_events`.
pub trait VideoEncoderBackendSession {
    /// What starting the codec gives and does. This relation, and each of those below, holds of
    /// anything where an implementation does not say.
    open spec fn starting(&self, config: EncoderConfig, r: Result<(), i32>, after: &Self) -> bool {
        true
    }

    /// What lending a raw frame gives and does.
    open spec fn encoding(&self, buffer: InputBuffer, r: Result<(), i32>, after: &Self) -> bool {
        true
    }

    /// What lending a bitstream buffer gives and does.
    open spec fn capturing(&self, buffer: OutputBuffer, r: Result<(), i32>, after: &Self) -> bool {
        true
    }

    /// What changing the bitrate gives and does.
    open spec fn rating(&self, bitrate: u32, r: Result<(), i32>, after: &Self) -> bool {
        true
    }

    /// What asking for a keyframe gives and does.
    open spec fn forcing(&self, r: Result<(), i32>, after: &Self) -> bool {
        true
    }

    /// What dropping the pending frames gives and does.
    open spec fn flushing(&self, r: Result<(), i32>, after: &Self) -> bool {
        true
    }

    /// What starting a drain gives and does.
    open spec fn draining(&self, r: Result<(), i32>, after: &Self) -> bool {
        true
    }

    /// What tearing the codec down does.
    open spec fn stopping(&self, after: &Self) -> bool {
        true
    }

    /// What taking the events gives and does.
    open spec fn taking(&self, events: Seq<EncoderEvent>, after: &Self) -> bool {
        true
    }

    /// Creates the codec for `config` and starts it. An error becomes the guest's `STREAMON`
    /// result.
    fn start(&mut self, config: &EncoderConfig) -> (r: Result<(), i32>)
        ensures
            old(self).starting(*config, r, final(self)),
    ;

    /// Lends an `OUTPUT` raw frame to be encoded. The backend owns the bytes until it reports
    /// [`EncoderEvent::InputBufferDone`] for the same index.
    fn encode(&mut self, buffer: InputBuffer) -> (r: Result<(), i32>)
        ensures
            old(self).encoding(buffer, r, final(self)),
    ;

    /// Lends a `CAPTURE` buffer to be encoded into. The backend owns the bytes until it reports
    /// an [`EncoderEvent::FrameEncoded`] for the same index, or until `stop`.
    fn use_as_capture(&mut self, buffer: OutputBuffer) -> (r: Result<(), i32>)
        ensures
            old(self).capturing(buffer, r, final(self)),
    ;

    /// The bitrate changed while the codec runs.
    fn set_bitrate(&mut self, bitrate: u32) -> (r: Result<(), i32>)
        ensures
            old(self).rating(bitrate, r, final(self)),
    ;

    /// The next frame encoded is a keyframe.
    fn force_keyframe(&mut self) -> (r: Result<(), i32>)
        ensures
            old(self).forcing(r, final(self)),
    ;

    /// Drops every pending `OUTPUT` frame. When this returns the backend touches no `OUTPUT`
    /// buffer any more, and the codec is kept.
    fn flush(&mut self) -> (r: Result<(), i32>)
        ensures
            old(self).flushing(r, final(self)),
    ;

    /// Encodes everything queued so far, then reports the last `CAPTURE` buffer with `is_last`.
    fn drain(&mut self) -> (r: Result<(), i32>)
        ensures
            old(self).draining(r, final(self)),
    ;

    /// Tears the codec down and joins its thread. When this returns the backend touches nothing;
    /// lent buffers not yet reported are forgotten.
    fn stop(&mut self)
        ensures
            old(self).stopping(final(self)),
    ;

    /// Every event since the last call, oldest first.
    fn take_events(&mut self) -> (r: Vec<EncoderEvent>)
        ensures
            old(self).taking(r@, final(self)),
    ;
}

/// An encoder, as a device sees it: what it can encode, and how to open a session.
pub trait VideoEncoderBackend {
    type Session: VideoEncoderBackendSession;

    /// How a session wakes its worker when an event is pending.
    type Sink;

    /// Whether these are the capabilities this encoder declares.
    open spec fn declares(&self, caps: CapabilitiesView) -> bool {
        true
    }

    /// What making a sink gives and does to the encoder. This relation, and each of those below,
    /// holds of anything where an implementation does not say.
    open spec fn sinking(&self, r: Result<(Self::Sink, i32), i32>, after: &Self) -> bool {
        true
    }

    /// What opening a session gives and does to the encoder.
    open spec fn opening(
        &self,
        id: u32,
        sink: Self::Sink,
        r: Result<Self::Session, i32>,
        after: &Self,
    ) -> bool {
        true
    }

    /// What closing a session does to the encoder.
    open spec fn closing(&self, session: Self::Session, after: &Self) -> bool {
        true
    }

    /// What this encoder can do. Enumerated once; must not change over the device's life.
    fn capabilities(&self) -> (r: &EncoderCapabilities)
        ensures
            self.declares(r@),
    ;

    /// Makes what a session wakes its worker with, and the descriptor that is readable while an
    /// event is pending.
    fn new_sink(&mut self) -> (r: Result<(Self::Sink, i32), i32>)
        ensures
            old(self).sinking(r, final(self)),
    ;

    /// Prepares a session with the given `id`. The codec itself is not created until
    /// [`VideoEncoderBackendSession::start`].
    fn new_session(&mut self, id: u32, sink: Self::Sink) -> (r: Result<Self::Session, i32>)
        ensures
            old(self).opening(id, sink, r, final(self)),
    ;

    /// Closes and destroys `session`, joining its thread.
    fn close_session(&mut self, session: Self::Session)
        ensures
            old(self).closing(session, final(self)),
    ;
}

/// A call made to a codec, with its answer.
pub enum CodecCall {
    Start { config: EncoderConfig, answer: Result<(), i32> },
    Encode { buffer: InputBuffer, answer: Result<(), i32> },
    UseAsCapture { frame: OutputBuffer, answer: Result<(), i32> },
    SetBitrate { bitrate: u32, answer: Result<(), i32> },
    ForceKeyframe { answer: Result<(), i32> },
    Flush { answer: Result<(), i32> },
    Drain { answer: Result<(), i32> },
    Stop,
    TakeEvents { events: Seq<EncoderEvent> },
}

impl CodecCall {
    /// Whether a session makes this answer to the call, and is left like this by it.
    pub open spec fn takes<S: VideoEncoderBackendSession>(self, session: S, after: S) -> bool {
        match self {
            CodecCall::Start { config, answer } => session.starting(config, answer, &after),
            CodecCall::Encode { buffer, answer } => session.encoding(buffer, answer, &after),
            CodecCall::UseAsCapture { frame, answer } => session.capturing(frame, answer, &after),
            CodecCall::SetBitrate { bitrate, answer } => session.rating(bitrate, answer, &after),
            CodecCall::ForceKeyframe { answer } => session.forcing(answer, &after),
            CodecCall::Flush { answer } => session.flushing(answer, &after),
            CodecCall::Drain { answer } => session.draining(answer, &after),
            CodecCall::Stop => session.stopping(&after),
            CodecCall::TakeEvents { events } => session.taking(events, &after),
        }
    }
}

/// Whether a call makes the codec let go of the buffers of a queue: once it is joined it touches
/// nothing, and once it has dropped its raw frames it touches none of them.
pub open spec fn lets_go(call: CodecCall, direction: QueueDirection) -> bool {
    match call {
        CodecCall::Stop => true,
        CodecCall::Flush { answer } => answer is Ok && direction == QueueDirection::Output,
        _ => false,
    }
}

/// Whether a call lends the codec a buffer of a queue.
pub open spec fn lends(call: CodecCall, direction: QueueDirection) -> bool {
    match call {
        CodecCall::Encode { .. } => direction == QueueDirection::Output,
        CodecCall::UseAsCapture { .. } => direction == QueueDirection::Capture,
        _ => false,
    }
}

/// Whether the codec has let go of every buffer of a queue it was lent: a call made it, and none
/// was lent since.
pub open spec fn let_go(calls: Seq<CodecCall>, direction: QueueDirection) -> bool {
    exists|k: int|
        {
            &&& 0 <= k < calls.len()
            &&& lets_go(#[trigger] calls[k], direction)
            &&& forall|j: int| k < j < calls.len() ==> !lends(#[trigger] calls[j], direction)
        }
}

/// Whether an event says that the codec is done with a buffer of a queue.
pub open spec fn reports(event: EncoderEvent, direction: QueueDirection, i: int) -> bool {
    match event {
        EncoderEvent::InputBufferDone(index) => direction == QueueDirection::Output && index == i,
        EncoderEvent::FrameEncoded { index, .. } => direction == QueueDirection::Capture && index
            == i,
        EncoderEvent::Error(_) => false,
    }
}

/// Whether these calls, one after the other, took a session through these states to the present
/// one.
pub open spec fn ran<S: VideoEncoderBackendSession>(
    path: Seq<S>,
    calls: Seq<CodecCall>,
    now: S,
) -> bool {
    &&& path.len() == calls.len() + 1
    &&& path.last() == now
    &&& forall|k: int|
        0 <= k < calls.len() ==> (#[trigger] calls[k]).takes(path[k], path[k + 1])
}

/// The port to an encoding session's codec.
pub struct CodecPort<S> {
    pub session: S,
    /// Every call, oldest first.
    pub calls: Ghost<Seq<CodecCall>>,
    /// The session before each call, and as it is now.
    pub path: Ghost<Seq<S>>,
}

impl<S: VideoEncoderBackendSession> CodecPort<S> {
    /// A port over a session nothing has been asked of.
    pub fn new(session: S) -> (r: Self)
        ensures
            r.session == session,
            r.calls@ == Seq::<CodecCall>::empty(),
            r.path@ == seq![session],
            r.faithful(),
    {
        let ghost path = seq![session];
        CodecPort { session, calls: Ghost(Seq::empty()), path: Ghost(path) }
    }

    /// Whether each call on record was made to the session, one after the other, and no other was.
    pub open spec fn faithful(&self) -> bool {
        ran(self.path@, self.calls@, self.session)
    }

    /// Creates and starts the codec.
    pub fn start(&mut self, config: &EncoderConfig) -> (r: Result<(), i32>)
        ensures
            final(self).calls@ == old(self).calls@.push(
                CodecCall::Start { config: *config, answer: r },
            ),
            old(self).session.starting(*config, r, &final(self).session),
            final(self).path@ == old(self).path@.push(final(self).session),
            old(self).faithful() ==> final(self).faithful(),
    {
        let r = self.session.start(config);
        self.calls = Ghost(self.calls@.push(CodecCall::Start { config: *config, answer: r }));
        self.path = Ghost(self.path@.push(self.session));
        r
    }

    /// Lends a raw frame.
    pub fn encode(&mut self, buffer: InputBuffer) -> (r: Result<(), i32>)
        ensures
            final(self).calls@ == old(self).calls@.push(CodecCall::Encode { buffer, answer: r }),
            old(self).session.encoding(buffer, r, &final(self).session),
            final(self).path@ == old(self).path@.push(final(self).session),
            old(self).faithful() ==> final(self).faithful(),
    {
        let r = self.session.encode(buffer);
        self.calls = Ghost(self.calls@.push(CodecCall::Encode { buffer, answer: r }));
        self.path = Ghost(self.path@.push(self.session));
        r
    }

    /// Lends a bitstream buffer.
    pub fn use_as_capture(&mut self, frame: OutputBuffer) -> (r: Result<(), i32>)
        ensures
            final(self).calls@ == old(self).calls@.push(
                CodecCall::UseAsCapture { frame, answer: r },
            ),
            old(self).session.capturing(frame, r, &final(self).session),
            final(self).path@ == old(self).path@.push(final(self).session),
            old(self).faithful() ==> final(self).faithful(),
    {
        let r = self.session.use_as_capture(frame);
        self.calls = Ghost(self.calls@.push(CodecCall::UseAsCapture { frame, answer: r }));
        self.path = Ghost(self.path@.push(self.session));
        r
    }

    /// Changes the bitrate of a running codec.
    pub fn set_bitrate(&mut self, bitrate: u32) -> (r: Result<(), i32>)
        ensures
            final(self).calls@ == old(self).calls@.push(
                CodecCall::SetBitrate { bitrate, answer: r },
            ),
            old(self).session.rating(bitrate, r, &final(self).session),
            final(self).path@ == old(self).path@.push(final(self).session),
            old(self).faithful() ==> final(self).faithful(),
    {
        let r = self.session.set_bitrate(bitrate);
        self.calls = Ghost(self.calls@.push(CodecCall::SetBitrate { bitrate, answer: r }));
        self.path = Ghost(self.path@.push(self.session));
        r
    }

    /// Asks for a keyframe.
    pub fn force_keyframe(&mut self) -> (r: Result<(), i32>)
        ensures
            final(self).calls@ == old(self).calls@.push(CodecCall::ForceKeyframe { answer: r }),
            old(self).session.forcing(r, &final(self).session),
            final(self).path@ == old(self).path@.push(final(self).session),
            old(self).faithful() ==> final(self).faithful(),
    {
        let r = self.session.force_keyframe();
        self.calls = Ghost(self.calls@.push(CodecCall::ForceKeyframe { answer: r }));
        self.path = Ghost(self.path@.push(self.session));
        r
    }

    /// Drops the pending raw frames.
    pub fn flush(&mut self) -> (r: Result<(), i32>)
        ensures
            final(self).calls@ == old(self).calls@.push(CodecCall::Flush { answer: r }),
            old(self).session.flushing(r, &final(self).session),
            final(self).path@ == old(self).path@.push(final(self).session),
            old(self).faithful() ==> final(self).faithful(),
            r is Ok ==> let_go(final(self).calls@, QueueDirection::Output),
    {
        let r = self.session.flush();
        self.calls = Ghost(self.calls@.push(CodecCall::Flush { answer: r }));
        self.path = Ghost(self.path@.push(self.session));
        assert(r is Ok ==> lets_go(
            self.calls@[self.calls@.len() - 1],
            QueueDirection::Output,
        ));
        r
    }

    /// Starts a drain.
    pub fn drain(&mut self) -> (r: Result<(), i32>)
        ensures
            final(self).calls@ == old(self).calls@.push(CodecCall::Drain { answer: r }),
            old(self).session.draining(r, &final(self).session),
            final(self).path@ == old(self).path@.push(final(self).session),
            old(self).faithful() ==> final(self).faithful(),
    {
        let r = self.session.drain();
        self.calls = Ghost(self.calls@.push(CodecCall::Drain { answer: r }));
        self.path = Ghost(self.path@.push(self.session));
        r
    }

    /// Tears the codec down.
    pub fn stop(&mut self)
        ensures
            final(self).calls@ == old(self).calls@.push(CodecCall::Stop),
            old(self).session.stopping(&final(self).session),
            final(self).path@ == old(self).path@.push(final(self).session),
            old(self).faithful() ==> final(self).faithful(),
            forall|direction: QueueDirection| #[trigger] let_go(final(self).calls@, direction),
    {
        self.session.stop();
        self.calls = Ghost(self.calls@.push(CodecCall::Stop));
        self.path = Ghost(self.path@.push(self.session));
        assert(self.calls@[self.calls@.len() - 1] == CodecCall::Stop);
    }

    /// Takes what the codec reported.
    pub fn take_events(&mut self) -> (r: Vec<EncoderEvent>)
        ensures
            final(self).calls@ == old(self).calls@.push(CodecCall::TakeEvents { events: r@ }),
            old(self).session.taking(r@, &final(self).session),
            final(self).path@ == old(self).path@.push(final(self).session),
            old(self).faithful() ==> final(self).faithful(),
            forall|direction: QueueDirection|
                let_go(old(self).calls@, direction) ==> #[trigger] let_go(
                    final(self).calls@,
                    direction,
                ),
    {
        let r = self.session.take_events();
        self.calls = Ghost(self.calls@.push(CodecCall::TakeEvents { events: r@ }));
        self.path = Ghost(self.path@.push(self.session));
        assert forall|direction: QueueDirection| let_go(old(self).calls@, direction) implies
            #[trigger] let_go(self.calls@, direction) by {
            let before = old(self).calls@;
            let k = choose|k: int|
                {
                    &&& 0 <= k < before.len()
                    &&& lets_go(#[trigger] before[k], direction)
                    &&& forall|j: int|
                        k < j < before.len() ==> !lends(#[trigger] before[j], direction)
                };
            assert(lets_go(self.calls@[k], direction));
            assert forall|j: int| k < j < self.calls@.len() implies !lends(
                #[trigger] self.calls@[j],
                direction,
            ) by {
                if j < before.len() {
                    assert(!lends(before[j], direction));
                }
            }
        }
        r
    }
}

/// What happened to a session between two moments is the calls put on record in between, and
/// nothing else: they took it from what it was to what it is.
pub proof fn sessions_change_by_their_calls<S: VideoEncoderBackendSession>(
    before: CodecPort<S>,
    after: CodecPort<S>,
)
    requires
        before.faithful(),
        after.faithful(),
        continued(before.path@, after.path@),
    ensures
        after.path@[before.calls@.len() as int] == before.session,
        ran(
            after.path@.skip(before.calls@.len() as int),
            after.calls@.skip(before.calls@.len() as int),
            after.session,
        ),
{
    let n = before.calls@.len() as int;
    let path = after.path@.skip(n);
    let calls = after.calls@.skip(n);
    assert(after.path@[n] == before.path@[n]);
    assert forall|k: int| 0 <= k < calls.len() implies (#[trigger] calls[k]).takes(
        path[k],
        path[k + 1],
    ) by {
        assert(after.calls@[n + k].takes(after.path@[n + k], after.path@[n + k + 1]));
    }
}

/// A call made to a backend, with its answer. A session is closed with every call its codec was
/// given.
pub enum BackendCall<S, K> {
    NewSink { wake: Result<(K, i32), i32> },
    NewSession { id: u32, sink: K, answer: Result<S, i32> },
    CloseSession { session: S, codec: Seq<CodecCall> },
}

/// Whether a backend makes this answer to a call, and is left like this by it. A session is closed
/// as the calls to its codec left it.
pub open spec fn called<B: VideoEncoderBackend>(
    backend: B,
    call: BackendCall<B::Session, B::Sink>,
    after: B,
) -> bool {
    match call {
        BackendCall::NewSink { wake } => backend.sinking(wake, &after),
        BackendCall::NewSession { id, sink, answer } => backend.opening(id, sink, answer, &after),
        BackendCall::CloseSession { session, codec } => backend.closing(session, &after) && exists|
            path: Seq<B::Session>,
        | #[trigger] ran(path, codec, session),
    }
}

/// The port to the backend.
pub struct BackendPort<B: VideoEncoderBackend> {
    pub backend: B,
    /// Every call, oldest first.
    pub calls: Ghost<Seq<BackendCall<B::Session, B::Sink>>>,
    /// The backend before each call, and as it is now.
    pub path: Ghost<Seq<B>>,
}

impl<B: VideoEncoderBackend> BackendPort<B> {
    /// A port over a backend no session has been asked of.
    pub fn new(backend: B) -> (r: Self)
        ensures
            r.backend == backend,
            r.calls@ == Seq::<BackendCall<B::Session, B::Sink>>::empty(),
            r.path@ == seq![backend],
            r.faithful(),
    {
        let ghost path = seq![backend];
        BackendPort { backend, calls: Ghost(Seq::empty()), path: Ghost(path) }
    }

    /// Whether each call on record was made to the backend, one after the other, and no other was.
    pub open spec fn faithful(&self) -> bool {
        &&& self.path@.len() == self.calls@.len() + 1
        &&& self.path@.last() == self.backend
        &&& forall|k: int|
            0 <= k < self.calls@.len() ==> called(
                self.path@[k],
                #[trigger] self.calls@[k],
                self.path@[k + 1],
            )
    }

    /// Makes what a session wakes its worker with.
    pub fn new_sink(&mut self) -> (r: Result<(B::Sink, i32), i32>)
        ensures
            final(self).calls@ == old(self).calls@.push(BackendCall::NewSink { wake: r }),
            old(self).backend.sinking(r, &final(self).backend),
            final(self).path@ == old(self).path@.push(final(self).backend),
            old(self).faithful() ==> final(self).faithful(),
    {
        let r = self.backend.new_sink();
        self.calls = Ghost(self.calls@.push(BackendCall::NewSink { wake: r }));
        self.path = Ghost(self.path@.push(self.backend));
        r
    }

    /// Opens a session.
    pub fn new_session(&mut self, id: u32, sink: B::Sink) -> (r: Result<B::Session, i32>)
        ensures
            final(self).calls@ == old(self).calls@.push(
                BackendCall::NewSession { id, sink, answer: r },
            ),
            old(self).backend.opening(id, sink, r, &final(self).backend),
            final(self).path@ == old(self).path@.push(final(self).backend),
            old(self).faithful() ==> final(self).faithful(),
    {
        let ghost given = sink;
        let r = self.backend.new_session(id, sink);
        self.calls = Ghost(
            self.calls@.push(BackendCall::NewSession { id, sink: given, answer: r }),
        );
        self.path = Ghost(self.path@.push(self.backend));
        r
    }

    /// Closes a session.
    pub fn close_session(&mut self, codec: CodecPort<B::Session>)
        ensures
            final(self).calls@ == old(self).calls@.push(
                BackendCall::CloseSession { session: codec.session, codec: codec.calls@ },
            ),
            old(self).backend.closing(codec.session, &final(self).backend),
            final(self).path@ == old(self).path@.push(final(self).backend),
            old(self).faithful() && codec.faithful() ==> final(self).faithful(),
    {
        let ghost call = BackendCall::CloseSession { session: codec.session, codec: codec.calls@ };
        assert(codec.faithful() ==> ran(codec.path@, call->codec, call->CloseSession_session));
        self.backend.close_session(codec.session);
        self.calls = Ghost(self.calls@.push(call));
        self.path = Ghost(self.path@.push(self.backend));
    }
}

} // verus!
