//! Streaming, draining and resuming.
use vstd::prelude::*;

use super::backend::{CodecCall, EncoderEvent, VideoEncoderBackend};
use super::codec::{feeds, stopped};
use super::config::starts;
use super::device::{DeviceView, EncoderSession, VideoEncoder};
use super::queue::{all_returned_is_wf, nothing_lent_without_a_codec, reclaimed_is_wf};
use super::session::{Drain, SessionView, StreamingState};
use crate::errno::{EBUSY, EINVAL, ENODEV};
use crate::host::{
    VirtioMediaBufferAllocator, VirtioMediaEventQueue, VirtioMediaGuestMemoryMapper,
    VirtioMediaHostMemoryMapper,
};
use crate::ioctl::types::EncoderCmd;
use crate::protocol::V4l2Event;
use crate::v4l2::{QueueDirection, QueueType};

verus! {

/// `V4L2_ENC_CMD_START`.
pub const ENC_CMD_START: u32 = 0;

/// `V4L2_ENC_CMD_STOP`.
pub const ENC_CMD_STOP: u32 = 1;

impl<GM, H> SessionView<GM, H> {
    /// The session with one of its queues streaming, or not.
    pub open spec fn with_streaming(self, d: QueueDirection, on: bool) -> SessionView<GM, H> {
        SessionView {
            state: match d {
                QueueDirection::Output => StreamingState { output_streaming: on, ..self.state },
                QueueDirection::Capture => StreamingState { capture_streaming: on, ..self.state },
            },
            ..self
        }
    }
}

/// What `STREAMON` does.
pub open spec fn stream_on<GM, H, S, K>(
    d: DeviceView<GM, H, S, K>,
    s: SessionView<GM, H>,
    queue: QueueType,
    d2: DeviceView<GM, H, S, K>,
    s2: SessionView<GM, H>,
    r: Result<(), i32>,
) -> bool {
    let unchanged = d2 == d && s2 == s;
    match queue.video_mplane_direction() {
        None => unchanged && r == Err::<(), i32>(EINVAL),
        Some(direction) => if s.dead {
            unchanged && r == Err::<(), i32>(ENODEV)
        } else if s.queue(direction).buffers.len() == 0 {
            unchanged && r == Err::<(), i32>(EINVAL)
        } else if s.streaming(direction) {
            unchanged && r is Ok
        } else {
            exists|s1: SessionView<GM, H>|
                #![trigger left_streaming(s, s1, r)]
                starts(d, s.with_streaming(direction, true), d2, s1, r) && s2 == left_streaming(
                    s,
                    s1,
                    r,
                )
        },
    }
}

/// The session after an attempt to start the codec: a codec that will not start leaves the queue
/// as it was.
pub open spec fn left_streaming<GM, H>(
    s: SessionView<GM, H>,
    s1: SessionView<GM, H>,
    r: Result<(), i32>,
) -> SessionView<GM, H> {
    if r is Err && !s1.dead {
        SessionView { state: s.state, ..s1 }
    } else {
        s1
    }
}

/// The device and session after the codec was asked to drop its raw frames: a codec that will not
/// ends the session.
pub open spec fn flushed<GM, H, S, K>(
    d: DeviceView<GM, H, S, K>,
    s: SessionView<GM, H>,
    answer: Result<(), i32>,
) -> (DeviceView<GM, H, S, K>, SessionView<GM, H>) {
    let s1 = SessionView { codec: s.codec.push(CodecCall::Flush { answer }), ..s };
    if answer is Err {
        (d.sending(V4l2Event::Error { session_id: s.id, errno: ENODEV }), s1.ended())
    } else {
        (d, s1)
    }
}

impl<GM, H> SessionView<GM, H> {
    /// The session with its raw queue stopped.
    pub open spec fn output_stopped(self) -> SessionView<GM, H> {
        SessionView {
            input: self.input.all_returned(),
            drain: Drain::Idle,
            ..self.with_streaming(QueueDirection::Output, false)
        }
    }

    /// The session with its bitstream queue stopped, its buffers back with the guest already.
    pub open spec fn capture_stopped(self) -> SessionView<GM, H> {
        SessionView { drain: Drain::Idle, ..self.with_streaming(QueueDirection::Capture, false) }
    }
}

/// What `STREAMOFF` does. On `OUTPUT` the codec drops its raw frames and is kept, unless it
/// refuses, which ends the session. On `CAPTURE` the codec is torn down. Either way the queue's
/// buffers are back with the guest.
pub open spec fn stream_off<GM, H, S, K>(
    d: DeviceView<GM, H, S, K>,
    s: SessionView<GM, H>,
    direction: QueueDirection,
    d2: DeviceView<GM, H, S, K>,
    s2: SessionView<GM, H>,
) -> bool {
    match direction {
        QueueDirection::Output => if s.codec_started && !s.dead {
            exists|answer: Result<(), i32>|
                d2 == (#[trigger] flushed(d, s, answer)).0 && s2 == flushed(
                    d,
                    s,
                    answer,
                ).1.output_stopped()
        } else {
            d2 == d && s2 == s.output_stopped()
        },
        QueueDirection::Capture => if s.codec_started && !s.dead {
            exists|events: Seq<EncoderEvent>|
                d2 == (#[trigger] stopped(d, s, events)).0 && s2 == stopped(
                    d,
                    s,
                    events,
                ).1.capture_stopped()
        } else {
            d2 == d && s2 == SessionView {
                output: s.output.all_returned(),
                ..s
            }.capture_stopped()
        },
    }
}

/// An encoder command reduced to what an encoder implements: start and stop, with their flags and
/// data cleared.
pub open spec fn normalized(cmd: EncoderCmd) -> Result<EncoderCmd, i32> {
    if cmd.cmd == ENC_CMD_STOP || cmd.cmd == ENC_CMD_START {
        Ok(EncoderCmd { cmd: cmd.cmd, flags: 0, data: (0, 0, 0, 0) })
    } else {
        Err(EINVAL)
    }
}

/// An encoder command reduced to what an encoder implements.
pub fn normalize_encoder_cmd(cmd: EncoderCmd) -> (r: Result<EncoderCmd, i32>)
    ensures
        r == normalized(cmd),
{
    if cmd.cmd == ENC_CMD_STOP || cmd.cmd == ENC_CMD_START {
        Ok(EncoderCmd { cmd: cmd.cmd, flags: 0, data: (0, 0, 0, 0) })
    } else {
        Err(EINVAL)
    }
}

/// The answer to a command that was carried out, or the errno that stopped it.
pub open spec fn command_answer(n: EncoderCmd, r: Result<(), i32>) -> Result<EncoderCmd, i32> {
    match r {
        Ok(_) => Ok(n),
        Err(e) => Err(e),
    }
}

/// What an encoder command does. `STOP` drains, only if the codec runs, and a refused drain leaves
/// none pending. `START` resumes after a finished drain: the codec drops what it held, its raw
/// frames are queued again in their order, in front of those that waited, and all are lent.
/// Either command during a drain is `EBUSY`.
pub open spec fn commanded<GM, H, S, K>(
    d: DeviceView<GM, H, S, K>,
    s: SessionView<GM, H>,
    cmd: EncoderCmd,
    d2: DeviceView<GM, H, S, K>,
    s2: SessionView<GM, H>,
    r: Result<EncoderCmd, i32>,
) -> bool {
    let unchanged = d2 == d && s2 == s;
    match normalized(cmd) {
        Err(e) => unchanged && r == Err::<EncoderCmd, i32>(e),
        Ok(n) => if s.dead {
            unchanged && r == Err::<EncoderCmd, i32>(ENODEV)
        } else if s.drain == Drain::Pending {
            unchanged && r == Err::<EncoderCmd, i32>(EBUSY)
        } else if n.cmd == ENC_CMD_STOP && s.drain == Drain::Idle && s.running()
            && s.codec_started {
            exists|answer: Result<(), i32>|
                d2 == d && s2 == #[trigger] draining(s, answer) && r == command_answer(n, answer)
        } else if n.cmd == ENC_CMD_START && s.drain == Drain::Done {
            exists|answer: Result<(), i32>|
                {
                    let s1 = #[trigger] resumed(s, answer);
                    match answer {
                        Ok(_) => exists|fed: Result<(), i32>| #[trigger]
                            feeds(d, s1, d2, s2, fed) && r == command_answer(n, fed),
                        Err(e) => r == Err::<EncoderCmd, i32>(e) && d2 == d && s2 == s1,
                    }
                }
        } else {
            unchanged && r == Ok::<EncoderCmd, i32>(n)
        },
    }
}

/// The session with its codec asked to drain.
pub open spec fn draining<GM, H>(s: SessionView<GM, H>, answer: Result<(), i32>) -> SessionView<
    GM,
    H,
> {
    SessionView {
        codec: s.codec.push(CodecCall::Drain { answer }),
        drain: if answer is Ok {
            Drain::Pending
        } else {
            s.drain
        },
        ..s
    }
}

/// The session resumed after a drain, its raw frames queued again in the order the codec had
/// them; untouched, but for the question, where the codec refuses.
pub open spec fn resumed<GM, H>(s: SessionView<GM, H>, answer: Result<(), i32>) -> SessionView<
    GM,
    H,
> {
    let s1 = SessionView { codec: s.codec.push(CodecCall::Flush { answer }), ..s };
    if answer is Ok {
        SessionView { input: s.input.all_reclaimed(), drain: Drain::Idle, ..s1 }
    } else {
        s1
    }
}

/// What `STREAMOFF` does: it never fails on a queue the device has.
pub open spec fn stream_stopped<GM, H, S, K>(
    d: DeviceView<GM, H, S, K>,
    s: SessionView<GM, H>,
    queue: QueueType,
    d2: DeviceView<GM, H, S, K>,
    s2: SessionView<GM, H>,
    r: Result<(), i32>,
) -> bool {
    match queue.video_mplane_direction() {
        None => r == Err::<(), i32>(EINVAL) && d2 == d && s2 == s,
        Some(direction) => r is Ok && stream_off(d, s, direction, d2, s2),
    }
}

impl<B, Q, M, HM, A> VideoEncoder<B, Q, M, HM, A> where
    B: VideoEncoderBackend,
    Q: VirtioMediaEventQueue,
    M: VirtioMediaGuestMemoryMapper,
    A: VirtioMediaBufferAllocator,
    HM: VirtioMediaHostMemoryMapper<Handle = A::Handle>,
 {
    /// Streaming starts on a queue; the codec is created when both stream, from the formats,
    /// frame rate and controls current at that moment.
    pub fn streamon(&mut self, session: &mut EncoderSession<B, M, A>, queue: QueueType) -> (r:
        Result<(), i32>)
        requires
            old(self).serves(old(session)),
        ensures
            final(self).serves(final(session)),
            final(self).continues(old(self)),
            final(session).continues(old(session)),
            old(self)@.keeps_others(final(self)@, old(session)@.id),
            final(session)@.id == old(session)@.id,
            stream_on(old(self)@, old(session)@, queue, final(self)@, final(session)@, r),
    {
        let direction: QueueDirection = match queue.direction_or_einval() {
            Ok(d) => d,
            Err(e) => {
                return Err(e);
            },
        };
        if session.dead {
            return Err(ENODEV);
        }
        let empty: bool = match direction {
            QueueDirection::Output => session.input.buffers.len() == 0,
            QueueDirection::Capture => session.output.buffers.len() == 0,
        };
        if empty {
            return Err(EINVAL);
        }
        if session.streaming(direction) {
            return Ok(());
        }
        let ghost s = session@;
        let before: StreamingState = session.state;
        match direction {
            QueueDirection::Output => {
                session.state.output_streaming = true;
            },
            QueueDirection::Capture => {
                session.state.capture_streaming = true;
            },
        }
        assert(session@ == s.with_streaming(direction, true));
        let r = self.maybe_start_codec(session);
        let ghost s1 = session@;
        if r.is_err() && !session.dead {
            session.state = before;
        }
        assert(session@ == left_streaming(s, s1, r));
        r
    }

    /// Streaming stops on a queue, which never fails: `EINVAL` only for a queue the device does
    /// not have.
    pub fn streamoff(&mut self, session: &mut EncoderSession<B, M, A>, queue: QueueType) -> (r:
        Result<(), i32>)
        requires
            old(self).serves(old(session)),
        ensures
            final(self).serves(final(session)),
            final(self).continues(old(self)),
            final(session).continues(old(session)),
            old(self)@.keeps_others(final(self)@, old(session)@.id),
            final(session)@.id == old(session)@.id,
            stream_stopped(old(self)@, old(session)@, queue, final(self)@, final(session)@, r),
    {
        let ghost d = self@;
        let ghost s = session@;
        let direction: QueueDirection = match queue.direction_or_einval() {
            Ok(d) => d,
            Err(e) => {
                return Err(e);
            },
        };
        proof {
            nothing_lent_without_a_codec(s.input);
            nothing_lent_without_a_codec(s.output);
        }
        match direction {
            QueueDirection::Output => {
                if session.codec_started && !session.dead {
                    let answer = session.backend.flush();
                    if answer.is_err() {
                        self.end_session(session);
                    }
                    assert((self@, session@) == flushed(d, s, answer));
                }
                proof {
                    all_returned_is_wf(session@.input, QueueType::VideoOutputMplane);
                }
                session.state.output_streaming = false;
                session.drain = Drain::Idle;
                session.input.unqueue_all(&session.backend, QueueDirection::Output);
            },
            QueueDirection::Capture => {
                if session.dead {
                    proof {
                        all_returned_is_wf(session@.output, QueueType::VideoCaptureMplane);
                    }
                    session.output.unqueue_all(&session.backend, QueueDirection::Capture);
                } else {
                    self.stop_codec(session);
                }
                session.state.capture_streaming = false;
                session.drain = Drain::Idle;
            },
        }
        Ok(())
    }

    /// Checks an encoder command without carrying it out.
    pub fn try_encoder_cmd(&mut self, session: &EncoderSession<B, M, A>, cmd: EncoderCmd) -> (r:
        Result<EncoderCmd, i32>)
        requires
            old(self).serves(session),
        ensures
            *final(self) == *old(self),
            r == normalized(cmd),
    {
        normalize_encoder_cmd(cmd)
    }

    /// Drains or resumes the codec.
    pub fn encoder_cmd(&mut self, session: &mut EncoderSession<B, M, A>, cmd: EncoderCmd) -> (r:
        Result<EncoderCmd, i32>)
        requires
            old(self).serves(old(session)),
        ensures
            final(self).serves(final(session)),
            final(self).continues(old(self)),
            final(session).continues(old(session)),
            old(self)@.keeps_others(final(self)@, old(session)@.id),
            final(session)@.id == old(session)@.id,
            commanded(old(self)@, old(session)@, cmd, final(self)@, final(session)@, r),
    {
        let ghost d = self@;
        let ghost s = session@;
        let n: EncoderCmd = match normalize_encoder_cmd(cmd) {
            Ok(n) => n,
            Err(e) => {
                return Err(e);
            },
        };
        if session.dead {
            return Err(ENODEV);
        }
        match session.drain {
            Drain::Pending => Err(EBUSY),
            Drain::Idle => {
                if n.cmd == ENC_CMD_STOP && session.running() && session.codec_started {
                    let answer = session.backend.drain();
                    if answer.is_ok() {
                        session.drain = Drain::Pending;
                    }
                    assert(session@ == draining(s, answer));
                    match answer {
                        Ok(_) => Ok(n),
                        Err(e) => Err(e),
                    }
                } else {
                    Ok(n)
                }
            },
            Drain::Done => {
                if n.cmd == ENC_CMD_START {
                    let answer = session.backend.flush();
                    if let Err(e) = answer {
                        assert(session@ == resumed(s, answer));
                        return Err(e);
                    }
                    proof {
                        reclaimed_is_wf(session@.input, QueueType::VideoOutputMplane);
                    }
                    session.input.reclaim_all(&session.backend, QueueDirection::Output);
                    session.drain = Drain::Idle;
                    let ghost s1 = session@;
                    assert(s1 == resumed(s, answer));
                    let fed = self.feed_pending(session);
                    assert(feeds(d, s1, self@, session@, fed));
                    match fed {
                        Ok(_) => Ok(n),
                        Err(e) => Err(e),
                    }
                } else {
                    Ok(n)
                }
            },
        }
    }
}

} // verus!
