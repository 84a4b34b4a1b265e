//! What stopping, draining and what the codec reports do to buffers, and what the guest is told.
use vstd::prelude::*;

use super::backend::{CodecCall, EncoderEvent, FrameKind};
use super::codec::{all_handled, handled, processed};
use super::device::DeviceView;
use super::ioctls::encoder_answers;
use super::queue::{Backing, Buffer, QueueView};
use super::queueing_laws::{lends_frame, lends_room, what_waits_is_lent_in_order};
use super::session::{Drain, SessionView};
use crate::errno::{EBUSY, EINVAL, ENODEV, ENOTTY};
use crate::ioctl::reply::IoctlReply;
use crate::ioctl::requests::IoctlRequest;
use crate::ioctl::types::EncoderCmd;
use crate::protocol::V4l2Event;
use crate::v4l2::{QueueType, Timeval, V4l2Buffer};

verus! {

/// Whether a buffer is back with the guest, as it was but for that: nothing is mapped, and it is
/// neither told as queued nor as prepared.
pub open spec fn is_returned<GM, H>(b: Buffer<GM, H>, b2: Buffer<GM, H>) -> bool {
    &&& !b2.queued && !b2.lent && b2.prepared is None
    &&& b2.size == b.size
    &&& b.backing is Host ==> b2.backing == b.backing
    &&& b.backing is Guest ==> b2.backing == Backing::<GM, H>::Guest(None)
    &&& b2.v4l2_buffer == (V4l2Buffer { flags: b2.v4l2_buffer.flags, ..b.v4l2_buffer })
    &&& b2.v4l2_buffer.flags & 0x2 == 0
    &&& b2.v4l2_buffer.flags & 0x400 == 0
    &&& b2.v4l2_buffer.flags & 0x4000 == b.v4l2_buffer.flags & 0x4000
}

/// A returned buffer is back with the guest.
proof fn returning_is_that<GM, H>(b: Buffer<GM, H>)
    ensures
        is_returned(b, b.returned()),
{
    let x = b.v4l2_buffer.flags;
    assert((x & 0x91_7d7f & !0x402u32) & 0x2 == 0) by (bit_vector);
    assert((x & 0x91_7d7f & !0x402u32) & 0x400 == 0) by (bit_vector);
    assert((x & 0x91_7d7f & !0x402u32) & 0x4000 == x & 0x4000) by (bit_vector);
}

/// Whether every buffer of a queue is back with the guest, and none waits or is lent.
pub open spec fn all_back<GM, H>(q: QueueView<GM, H>, q2: QueueView<GM, H>) -> bool {
    &&& q2.memory == q.memory
    &&& q2.pending.len() == 0 && q2.lending.len() == 0
    &&& q2.buffers.len() == q.buffers.len()
    &&& forall|i: int|
        0 <= i < q.buffers.len() ==> is_returned(q.buffers[i], #[trigger] q2.buffers[i])
}

/// Returning everything returns every buffer.
proof fn returning_all_is_that<GM, H>(q: QueueView<GM, H>)
    ensures
        all_back(q, q.all_returned()),
{
    assert forall|i: int| 0 <= i < q.buffers.len() implies is_returned(
        q.buffers[i],
        #[trigger] q.all_returned().buffers[i],
    ) by {
        returning_is_that(q.buffers[i]);
    }
}

/// Stopping `OUTPUT` gives every raw frame back. A running codec is asked to drop its frames, and
/// nothing else; it goes on, as the other queue does, unless it refuses.
pub proof fn stopping_output_returns_its_buffers<GM, H, S, K>(
    d: DeviceView<GM, H, S, K>,
    s: SessionView<GM, H>,
    d2: DeviceView<GM, H, S, K>,
    s2: SessionView<GM, H>,
    reply: IoctlReply,
)
    requires
        encoder_answers(
            d,
            s,
            IoctlRequest::StreamOff { queue: QueueType::VideoOutputMplane },
            d2,
            s2,
            reply,
        ),
    ensures
        reply is Done,
        all_back(s.input, s2.input),
        !s2.state.output_streaming,
        s2.state.capture_streaming == s.state.capture_streaming,
        s2.drain == Drain::Idle,
        !s.codec_started || s.dead ==> d2 == d && s2 == (SessionView {
            input: s2.input,
            state: s2.state,
            drain: Drain::Idle,
            ..s
        }),
        s.codec_started && !s.dead ==> {
            let n = s.codec.len() as int;
            &&& s2.codec.len() > n
            &&& s2.codec[n] is Flush
            &&& s2.codec[n]->Flush_answer is Ok ==> d2 == d && s2 == (SessionView {
                codec: s.codec.push(s2.codec[n]),
                input: s2.input,
                state: s2.state,
                drain: Drain::Idle,
                ..s
            })
            &&& s2.codec[n]->Flush_answer is Err ==> s2.dead && s2.codec.len() == n + 2
                && s2.codec[n + 1] == CodecCall::Stop && all_back(s.output, s2.output)
                && d2.events == d.events.push(
                V4l2Event::Error { session_id: s.id, errno: ENODEV },
            )
        },
{
    returning_all_is_that(s.input);
    returning_all_is_that(s.output);
    returning_all_is_that(s.input.all_returned());
    if s.codec_started && !s.dead {
        let answer = choose|answer: Result<(), i32>|
            d2 == (#[trigger] super::stream_ioctls::flushed(d, s, answer)).0 && s2
                == super::stream_ioctls::flushed(d, s, answer).1.output_stopped();
        assert forall|i: int| 0 <= i < s.input.buffers.len() implies is_returned(
            s.input.buffers[i],
            #[trigger] s2.input.buffers[i],
        ) by {
            returning_is_that(s.input.buffers[i]);
            returning_is_that(s.input.buffers[i].returned());
            let x = s.input.buffers[i].v4l2_buffer.flags;
            let y = s.input.buffers[i].returned().v4l2_buffer.flags;
            assert((y & 0x91_7d7f & !0x402u32) & 0x4000 == y & 0x4000) by (bit_vector);
        }
    }
    assert(reply is Done || reply is Refused);
}

/// Stopping `CAPTURE` joins a running codec and gives every bitstream buffer back; the raw frames
/// stay queued, but for those the codec last reported done.
pub proof fn stopping_capture_returns_its_buffers<GM, H, S, K>(
    d: DeviceView<GM, H, S, K>,
    s: SessionView<GM, H>,
    d2: DeviceView<GM, H, S, K>,
    s2: SessionView<GM, H>,
    reply: IoctlReply,
)
    requires
        encoder_answers(
            d,
            s,
            IoctlRequest::StreamOff { queue: QueueType::VideoCaptureMplane },
            d2,
            s2,
            reply,
        ),
    ensures
        reply is Done,
        all_back(s.output, s2.output),
        !s2.state.capture_streaming,
        s2.state.output_streaming == s.state.output_streaming,
        s2.drain == Drain::Idle,
        s2.input.buffers.len() == s.input.buffers.len(),
        s2 == (SessionView {
            codec: s2.codec,
            codec_started: s2.codec_started,
            input: s2.input,
            output: s2.output,
            state: s2.state,
            drain: Drain::Idle,
            ..s
        }),
        !s.codec_started || s.dead ==> d2 == d && s2.input == s.input && s2.codec == s.codec,
        s.codec_started && !s.dead ==> {
            let n = s.codec.len() as int;
            &&& !s2.codec_started
            &&& s2.codec.len() == n + 2
            &&& s2.codec[n] == CodecCall::Stop
            &&& s2.codec[n + 1] is TakeEvents
            &&& s2.input.lending.len() == 0
        },
{
    returning_all_is_that(s.output);
    if s.codec_started && !s.dead {
        let events = choose|events: Seq<EncoderEvent>|
            d2 == (#[trigger] super::codec::stopped(d, s, events)).0 && s2
                == super::codec::stopped(d, s, events).1.capture_stopped();
        super::laws::done_inputs_leave_the_rest(d, s.torn_down(events), events);
    }
    assert(reply is Done || reply is Refused);
}

/// Only the two queues of an encoder stop.
pub proof fn other_queues_do_not_stop<GM, H, S, K>(
    d: DeviceView<GM, H, S, K>,
    s: SessionView<GM, H>,
    queue: QueueType,
    d2: DeviceView<GM, H, S, K>,
    s2: SessionView<GM, H>,
    reply: IoctlReply,
)
    requires
        queue != QueueType::VideoOutputMplane,
        queue != QueueType::VideoCaptureMplane,
        encoder_answers(d, s, IoctlRequest::StreamOff { queue }, d2, s2, reply),
    ensures
        reply == (IoctlReply::Refused { errno: EINVAL }),
        s2 == s && d2 == d,
{
}

/// Whether an event gives a raw frame of a session back to the guest.
pub open spec fn gives_back_a_frame(event: V4l2Event, id: u32) -> bool {
    event matches V4l2Event::DequeueBuffer { session_id, buffer } && session_id == id
        && buffer.queue == QueueType::VideoOutputMplane
}

/// When `CAPTURE` stops, the guest hears of nothing but raw frames it gets back. Just those are
/// back that the codec had and last reported done; the others stay queued.
pub proof fn stopping_capture_tells_of_done_frames<GM, H, S, K>(
    d: DeviceView<GM, H, S, K>,
    s: SessionView<GM, H>,
    d2: DeviceView<GM, H, S, K>,
    s2: SessionView<GM, H>,
    reply: IoctlReply,
)
    requires
        d.fits(s),
        encoder_answers(
            d,
            s,
            IoctlRequest::StreamOff { queue: QueueType::VideoCaptureMplane },
            d2,
            s2,
            reply,
        ),
        s.codec_started,
        !s.dead,
    ensures
        d2.events.len() >= d.events.len(),
        forall|k: int| 0 <= k < d.events.len() ==> #[trigger] d2.events[k] == d.events[k],
        forall|k: int|
            d.events.len() <= k < d2.events.len() ==> gives_back_a_frame(
                #[trigger] d2.events[k],
                s.id,
            ),
        s2.codec.last() is TakeEvents,
        forall|i: int|
            0 <= i < s.input.buffers.len() ==> {
                let was = s.input.buffers[i];
                let reported = s2.codec.last()->events.contains(
                    EncoderEvent::InputBufferDone(i as u32),
                );
                let is = #[trigger] s2.input.buffers[i];
                &&& was.lent && reported ==> is_returned(was, is)
                &&& !was.lent || !reported ==> is == (Buffer { lent: false, ..was })
            },
{
    let events = choose|events: Seq<EncoderEvent>|
        d2 == (#[trigger] super::codec::stopped(d, s, events)).0 && s2 == super::codec::stopped(
            d,
            s,
            events,
        ).1.capture_stopped();
    let t = s.torn_down(events);
    super::laws::done_inputs_leave_the_rest(d, t, events);
    assert forall|i: int| 0 <= i < t.input.buffers.len() implies (
    #[trigger] t.input.buffers[i]).v4l2_buffer.queue == QueueType::VideoOutputMplane by {
        assert(s.input.buffers[i].wf(i, QueueType::VideoOutputMplane, s.input.memory->0));
    }
    done_frames_are_told(d, t, events);
    assert(s2.codec.last()->events == events);
    let u = super::codec::inputs_done(d, t, events).1;
    assert forall|i: int| 0 <= i < s.input.buffers.len() implies {
        let was = s.input.buffers[i];
        let reported = s2.codec.last()->events.contains(EncoderEvent::InputBufferDone(i as u32));
        let is = #[trigger] s2.input.buffers[i];
        &&& was.lent && reported ==> is_returned(was, is)
        &&& !was.lent || !reported ==> is == (Buffer { lent: false, ..was })
    } by {
        assert(s2.input.buffers[i] == u.input.buffers[i].recalled());
    }
}

/// What the frames reported done come to.
proof fn done_frames_are_told<GM, H, S, K>(
    d: DeviceView<GM, H, S, K>,
    s: SessionView<GM, H>,
    events: Seq<EncoderEvent>,
)
    requires
        s.input.buffers.len() <= 32,
        forall|i: int|
            0 <= i < s.input.buffers.len() ==> (#[trigger] s.input.buffers[i]).v4l2_buffer.queue
                == QueueType::VideoOutputMplane,
    ensures
        ({
            let (e, t) = super::codec::inputs_done(d, s, events);
            &&& e.events.len() >= d.events.len()
            &&& forall|k: int| 0 <= k < d.events.len() ==> #[trigger] e.events[k] == d.events[k]
            &&& forall|k: int|
                d.events.len() <= k < e.events.len() ==> gives_back_a_frame(
                    #[trigger] e.events[k],
                    s.id,
                )
            &&& t.input.buffers.len() == s.input.buffers.len()
            &&& forall|i: int|
                0 <= i < s.input.buffers.len() ==> {
                    let was = s.input.buffers[i];
                    let reported = events.contains(EncoderEvent::InputBufferDone(i as u32));
                    let is = #[trigger] t.input.buffers[i];
                    &&& was.lent && reported ==> is_returned(was, is)
                    &&& !was.lent || !reported ==> is == was
                }
        }),
    decreases events.len(),
{
    if events.len() > 0 {
        let (d1, s1) = if events[0] is InputBufferDone {
            handled(d, s, events[0])
        } else {
            (d, s)
        };
        let rest = events.skip(1);
        done_frames_are_told(d1, s1, rest);
        let (e, t) = super::codec::inputs_done(d, s, events);
        assert forall|i: int| 0 <= i < s.input.buffers.len() implies {
            let was = s.input.buffers[i];
            let reported = events.contains(EncoderEvent::InputBufferDone(i as u32));
            let is = #[trigger] t.input.buffers[i];
            &&& was.lent && reported ==> is_returned(was, is)
            &&& !was.lent || !reported ==> is == was
        } by {
            let x = EncoderEvent::InputBufferDone(i as u32);
            returning_is_that(s.input.buffers[i]);
            if events[0] == x {
                assert(events.contains(x));
            }
            if rest.contains(x) {
                let j = choose|j: int| 0 <= j < rest.len() && rest[j] == x;
                assert(events[j + 1] == x);
            }
            if events.contains(x) && events[0] != x {
                let j = choose|j: int| 0 <= j < events.len() && events[j] == x;
                assert(rest[j - 1] == x);
            }
        }
    }
}

/// A codec that resumes after a drain is lent every bitstream buffer that waits, then the raw
/// frames it had, in the order it got them in, and then those that wait: none is lost, and none
/// overtakes another.
pub proof fn resuming_lends_frames_in_order<GM, H, S, K>(
    d: DeviceView<GM, H, S, K>,
    s: SessionView<GM, H>,
    cmd: EncoderCmd,
    d2: DeviceView<GM, H, S, K>,
    s2: SessionView<GM, H>,
    reply: IoctlReply,
)
    requires
        d.fits(s),
        cmd.cmd == 0,
        s.drain == Drain::Done,
        !s.dead,
        s.codec_started && s.state.output_streaming && s.state.capture_streaming,
        encoder_answers(d, s, IoctlRequest::EncoderCmd { cmd }, d2, s2, reply),
        reply is EncoderCmd,
    ensures
        ({
            let n = s.codec.len() as int;
            let outs = s.output.pending;
            let (lent, waits) = (s.input.lending, s.input.pending);
            &&& s2.codec.len() == n + 1 + outs.len() + lent.len() + waits.len()
            &&& s2.codec[n] is Flush
            &&& forall|k: int|
                0 <= k < outs.len() ==> lends_room(
                    #[trigger] s2.codec[n + 1 + k],
                    outs[k] as int,
                    s.output.buffers[outs[k] as int],
                )
            &&& forall|k: int|
                0 <= k < lent.len() ==> lends_frame(
                    #[trigger] s2.codec[n + 1 + outs.len() + k],
                    lent[k] as int,
                    s.input.buffers[lent[k] as int],
                )
            &&& forall|k: int|
                0 <= k < waits.len() ==> lends_frame(
                    #[trigger] s2.codec[n + 1 + outs.len() + lent.len() + k],
                    waits[k] as int,
                    s.input.buffers[waits[k] as int],
                )
            &&& s2.input.pending.len() == 0 && s2.output.pending.len() == 0
        }),
        d2 == d,
{
    let m = super::stream_ioctls::normalized(cmd)->Ok_0;
    let r = reply.encoder_cmd();
    let answer = choose|answer: Result<(), i32>|
        {
            let s1 = #[trigger] super::stream_ioctls::resumed(s, answer);
            match answer {
                Ok(_) => exists|fed: Result<(), i32>| #[trigger]
                    super::codec::feeds(d, s1, d2, s2, fed) && r
                        == super::stream_ioctls::command_answer(m, fed),
                Err(e) => r == Err::<EncoderCmd, i32>(e) && d2 == d && s2 == s1,
            }
        };
    let s1 = super::stream_ioctls::resumed(s, answer);
    let fed = choose|fed: Result<(), i32>| #[trigger]
        super::codec::feeds(d, s1, d2, s2, fed) && r == super::stream_ioctls::command_answer(
            m,
            fed,
        );
    super::queue::reclaimed_is_wf(s.input, QueueType::VideoOutputMplane);
    what_waits_is_lent_in_order(d, s1, d2, s2, fed);
    let n = s.codec.len() as int;
    let outs = s.output.pending;
    let (lent, waits) = (s.input.lending, s.input.pending);
    let ins = s1.input.pending;
    assert forall|k: int| 0 <= k < outs.len() implies lends_room(
        #[trigger] s2.codec[n + 1 + k],
        outs[k] as int,
        s.output.buffers[outs[k] as int],
    ) by {
        assert(s2.codec[s1.codec.len() + k] == s2.codec[n + 1 + k]);
    }
    assert forall|k: int| 0 <= k < lent.len() implies lends_frame(
        #[trigger] s2.codec[n + 1 + outs.len() + k],
        lent[k] as int,
        s.input.buffers[lent[k] as int],
    ) by {
        assert(ins[k] == lent[k]);
        assert(s2.codec[s1.codec.len() + outs.len() + k] == s2.codec[n + 1 + outs.len() + k]);
    }
    assert forall|k: int| 0 <= k < waits.len() implies lends_frame(
        #[trigger] s2.codec[n + 1 + outs.len() + lent.len() + k],
        waits[k] as int,
        s.input.buffers[waits[k] as int],
    ) by {
        let j = lent.len() + k;
        assert(ins[j] == waits[k]);
        assert(s2.codec[s1.codec.len() + outs.len() + j] == s2.codec[n + 1 + outs.len()
            + lent.len() + k]);
    }
}

/// The command to stop has a running codec drain what it was lent; where none runs there is nothing
/// to drain. The command to start has it resume once a drain has ended: it drops what it held, and
/// is lent what waits. Both are refused while a drain goes on, and no other command exists.
pub proof fn commands_drain_and_resume<GM, H, S, K>(
    d: DeviceView<GM, H, S, K>,
    s: SessionView<GM, H>,
    cmd: EncoderCmd,
    d2: DeviceView<GM, H, S, K>,
    s2: SessionView<GM, H>,
    reply: IoctlReply,
)
    requires
        encoder_answers(d, s, IoctlRequest::EncoderCmd { cmd }, d2, s2, reply),
    ensures
        ({
            let n = s.codec.len() as int;
            let runs = s.codec_started && s.state.output_streaming && s.state.capture_streaming;
            let start = cmd.cmd == 0;
            let stop = cmd.cmd == 1;
            let idle = s.drain == Drain::Idle;
            let ended = s.drain == Drain::Done;
            &&& cmd.cmd >= 2 ==> reply == (IoctlReply::Refused { errno: EINVAL }) && s2 == s && d2
                == d
            &&& cmd.cmd < 2 && s.dead ==> reply == (IoctlReply::Refused { errno: ENODEV }) && s2
                == s && d2 == d
            &&& cmd.cmd < 2 && !s.dead && s.drain == Drain::Pending ==> reply == (
            IoctlReply::Refused { errno: EBUSY }) && s2 == s && d2 == d
            &&& reply matches IoctlReply::EncoderCmd { cmd: c } ==> c.cmd == cmd.cmd && c.flags == 0
                && c.data == (0u64, 0u64, 0u64, 0u64)
            &&& stop && !s.dead && idle && runs ==> {
                &&& s2.codec.len() == n + 1
                &&& s2.codec[n] is Drain
                &&& s2.codec[n]->Drain_answer is Ok ==> reply is EncoderCmd && s2 == (SessionView {
                    codec: s2.codec,
                    drain: Drain::Pending,
                    ..s
                })
                &&& s2.codec[n]->Drain_answer matches Err(e) ==> reply == (IoctlReply::Refused {
                    errno: e,
                }) && s2 == (SessionView { codec: s2.codec, ..s })
                &&& d2 == d
            }
            &&& !s.dead && ((stop && (ended || (idle && !runs))) || (start && idle))
                ==> reply is EncoderCmd && s2 == s && d2 == d
            &&& start && !s.dead && ended ==> {
                &&& s2.codec.len() > n
                &&& s2.codec[n] is Flush
                &&& s2.codec[n]->Flush_answer matches Err(e) ==> reply == (IoctlReply::Refused {
                    errno: e,
                }) && s2 == (SessionView { codec: s2.codec, ..s }) && d2 == d
                &&& s2.codec[n]->Flush_answer is Ok ==> s2.drain == Drain::Idle
            }
        }),
{
    if cmd.cmd == 0 && !s.dead && s.drain == Drain::Done {
        let m = super::stream_ioctls::normalized(cmd)->Ok_0;
        let r = reply.encoder_cmd();
        let answer = choose|answer: Result<(), i32>|
            {
                let s1 = #[trigger] super::stream_ioctls::resumed(s, answer);
                match answer {
                    Ok(_) => exists|fed: Result<(), i32>| #[trigger]
                        super::codec::feeds(d, s1, d2, s2, fed) && r
                            == super::stream_ioctls::command_answer(m, fed),
                    Err(e) => r == Err::<EncoderCmd, i32>(e) && d2 == d && s2 == s1,
                }
            };
        let s1 = super::stream_ioctls::resumed(s, answer);
        if answer is Ok {
            let fed = choose|fed: Result<(), i32>| #[trigger]
                super::codec::feeds(d, s1, d2, s2, fed) && r
                    == super::stream_ioctls::command_answer(
                    m,
                    fed,
                );
            if s1.feeding() && fed is Err {
                let (k, errno) = choose|k: int, errno: i32|
                    0 <= k < s1.waiting() && s2 == #[trigger] super::codec::refused_loan(
                        s1,
                        k,
                        errno,
                    );
            }
        }
    }
}

/// Trying a command tells what would become of it, and does nothing.
pub proof fn tried_commands_do_nothing<GM, H, S, K>(
    d: DeviceView<GM, H, S, K>,
    s: SessionView<GM, H>,
    cmd: EncoderCmd,
    d2: DeviceView<GM, H, S, K>,
    s2: SessionView<GM, H>,
    reply: IoctlReply,
)
    requires
        encoder_answers(d, s, IoctlRequest::TryEncoderCmd { cmd }, d2, s2, reply),
    ensures
        s2 == s && d2 == d,
        cmd.cmd < 2 ==> reply == (IoctlReply::EncoderCmd {
            cmd: EncoderCmd { cmd: cmd.cmd, flags: 0, data: (0, 0, 0, 0) },
        }),
        cmd.cmd >= 2 ==> reply == (IoctlReply::Refused { errno: EINVAL }),
{
}

/// A raw frame that the codec reports done goes back to the guest, which is told of it and of
/// nothing else; no other buffer changes.
pub proof fn done_frames_go_back<GM, H, S, K>(
    d: DeviceView<GM, H, S, K>,
    s: SessionView<GM, H>,
    index: u32,
)
    requires
        index < s.input.buffers.len(),
        s.input.buffers[index as int].lent,
    ensures
        ({
            let (d2, s2) = handled(d, s, EncoderEvent::InputBufferDone(index));
            let i = index as int;
            &&& d2 == (DeviceView { events: d2.events, ..d })
            &&& d2.events == d.events.push(
                V4l2Event::DequeueBuffer {
                    session_id: s.id,
                    buffer: s2.input.buffers[i].v4l2_buffer,
                },
            )
            &&& s2 == (SessionView { input: s2.input, ..s })
            &&& is_returned(s.input.buffers[i], s2.input.buffers[i])
            &&& s2.input.buffers.len() == s.input.buffers.len()
            &&& s2.input.pending == s.input.pending
            &&& forall|j: int|
                0 <= j < s.input.buffers.len() && j != i ==> #[trigger] s2.input.buffers[j]
                    == s.input.buffers[j]
        }),
{
    returning_is_that(s.input.buffers[index as int]);
}

/// A raw frame that comes back leaves the others with the codec in the order they were lent in.
pub proof fn the_other_frames_stay_in_order<GM, H, S, K>(
    d: DeviceView<GM, H, S, K>,
    s: SessionView<GM, H>,
    index: u32,
    p: int,
)
    requires
        s.input.wf(QueueType::VideoOutputMplane),
        index < s.input.buffers.len(),
        0 <= p < s.input.lending.len(),
        s.input.lending[p] == index,
    ensures
        ({
            let was = s.input.lending;
            let is = handled(d, s, EncoderEvent::InputBufferDone(index)).1.input.lending;
            &&& is.len() == was.len() - 1
            &&& forall|k: int| 0 <= k < p ==> #[trigger] is[k] == was[k]
            &&& forall|k: int| p <= k < is.len() ==> #[trigger] is[k] == was[k + 1]
        }),
{
    let was = s.input.lending;
    assert(s.input.buffers[was[p] as int].lent);
    assert(was.contains(index as usize));
    assert(was[was.index_of(index as usize)] == index);
    assert(was.index_of(index as usize) == p);
}

/// The flags of a filled buffer: it has the time of its frame, and is a key frame, a predicted one
/// or a bidirectional one if it holds a frame, and the last one if it is.
proof fn flags_say_what_it_is(kind: FrameKind, bytesused: u32, is_last: bool)
    ensures
        ({
            let f = super::codec::flags_of(kind, bytesused, is_last);
            &&& f & 0x4000 == 0x4000
            &&& f & 0x8 == 0x8 <==> bytesused > 0 && kind == FrameKind::Key
            &&& f & 0x10 == 0x10 <==> bytesused > 0 && kind == FrameKind::Inter
            &&& f & 0x20 == 0x20 <==> bytesused > 0 && kind == FrameKind::Bidirectional
            &&& f & 0x10_0000 == 0x10_0000 <==> is_last
            &&& f & 0x2 == 0
        }),
{
    assert forall|k: u32, l: u32|
        (k == 0 || k == 0x8 || k == 0x10 || k == 0x20) && (l == 0 || l == 0x10_0000) implies {
        let f = #[trigger] (0x4000u32 | k | l);
        &&& f & 0x4000 == 0x4000
        &&& f & 0x8 == k & 0x8
        &&& f & 0x10 == k & 0x10
        &&& f & 0x20 == k & 0x20
        &&& f & 0x10_0000 == l
        &&& f & 0x2 == 0
    } by {
        assert((k == 0 || k == 0x8 || k == 0x10 || k == 0x20) && (l == 0 || l == 0x10_0000) ==> (
        0x4000u32 | k | l) & 0x4000 == 0x4000 && (0x4000u32 | k | l) & 0x8 == k & 0x8 && (0x4000u32
            | k | l) & 0x10 == k & 0x10 && (0x4000u32 | k | l) & 0x20 == k & 0x20 && (0x4000u32 | k
            | l) & 0x10_0000 == l && (0x4000u32 | k | l) & 0x2 == 0) by (bit_vector);
    }
    assert(0u32 & 0x8 == 0 && 0u32 & 0x10 == 0 && 0u32 & 0x20 == 0) by (bit_vector);
    assert(0x8u32 & 0x8 == 0x8 && 0x8u32 & 0x10 == 0 && 0x8u32 & 0x20 == 0) by (bit_vector);
    assert(0x10u32 & 0x8 == 0 && 0x10u32 & 0x10 == 0x10 && 0x10u32 & 0x20 == 0) by (bit_vector);
    assert(0x20u32 & 0x8 == 0 && 0x20u32 & 0x10 == 0 && 0x20u32 & 0x20 == 0x20) by (bit_vector);
}

/// A bitstream buffer that the codec filled goes back to the guest with the bytes it holds, no more
/// than fit, the time of the frame it came from, what kind of frame it is, and the next number. The
/// last one ends the drain, and the guest hears of the end of the stream after it if it asked to.
pub proof fn filled_buffers_go_back<GM, H, S, K>(
    d: DeviceView<GM, H, S, K>,
    s: SessionView<GM, H>,
    index: u32,
    bytesused: u32,
    timestamp: Timeval,
    kind: FrameKind,
    is_last: bool,
)
    requires
        s.output.wf(QueueType::VideoCaptureMplane),
        index < s.output.buffers.len(),
        s.output.buffers[index as int].lent,
    ensures
        ({
            let (d2, s2) = handled(
                d,
                s,
                EncoderEvent::FrameEncoded { index, bytesused, timestamp, kind, is_last },
            );
            let i = index as int;
            let b = s.output.buffers[i];
            let b2 = s2.output.buffers[i];
            let v = b2.v4l2_buffer;
            let n = d.events.len() as int;
            &&& d2 == (DeviceView { events: d2.events, ..d })
            &&& d2.events.len() == (if is_last && s.eos_subscribed {
                n + 2
            } else {
                n + 1
            })
            &&& forall|k: int| 0 <= k < n ==> #[trigger] d2.events[k] == d.events[k]
            &&& d2.events[n] == (V4l2Event::DequeueBuffer { session_id: s.id, buffer: v })
            &&& is_last && s.eos_subscribed ==> (d2.events[n + 1] matches V4l2Event::Event {
                session_id,
                event,
            } && session_id == s.id && event.type_ == 2 && event.id == 0 && event.ctrl is None)
            &&& !b2.queued && !b2.lent && b2.prepared is None
            &&& v.index == index
            &&& v.timestamp == timestamp
            &&& v.sequence == s.sequence
            &&& v.plane0.bytesused <= bytesused
            &&& b.backing matches Backing::Host { buffer, .. } ==> (bytesused <= buffer.len
                ==> v.plane0.bytesused == bytesused) && (bytesused > buffer.len
                ==> v.plane0.bytesused == buffer.len)
            &&& b.backing matches Backing::Guest(Some(m)) ==> (bytesused <= m.len && bytesused
                <= b.v4l2_buffer.plane0.length ==> v.plane0.bytesused == bytesused)
                && v.plane0.bytesused <= m.len && v.plane0.bytesused <= b.v4l2_buffer.plane0.length
            &&& v.flags & 0x4000 == 0x4000
            &&& v.flags & 0x8 == 0x8 <==> bytesused > 0 && kind == FrameKind::Key
            &&& v.flags & 0x10 == 0x10 <==> bytesused > 0 && kind == FrameKind::Inter
            &&& v.flags & 0x20 == 0x20 <==> bytesused > 0 && kind == FrameKind::Bidirectional
            &&& v.flags & 0x10_0000 == 0x10_0000 <==> is_last
            &&& v.flags & 0x2 == 0
            &&& s.sequence < u32::MAX ==> s2.sequence == s.sequence + 1
            &&& s.sequence == u32::MAX ==> s2.sequence == 0
            &&& s2.drain == (if is_last {
                Drain::Done
            } else {
                s.drain
            })
            &&& s2 == (SessionView {
                output: s2.output,
                sequence: s2.sequence,
                drain: s2.drain,
                ..s
            })
            &&& s2.output.pending == s.output.pending
            &&& forall|j: int|
                0 <= j < s.output.buffers.len() && j != i ==> #[trigger] s2.output.buffers[j]
                    == s.output.buffers[j]
        }),
{
    flags_say_what_it_is(kind, bytesused, is_last);
    let b = s.output.buffers[index as int];
    assert(b.wf(index as int, QueueType::VideoCaptureMplane, s.output.memory->0));
    returning_is_that(b);
}

/// A codec that fails is joined, every buffer goes back, the session is dead, and the guest is told
/// of it.
pub proof fn a_failed_codec_ends_the_session<GM, H, S, K>(
    d: DeviceView<GM, H, S, K>,
    s: SessionView<GM, H>,
    event: EncoderEvent,
)
    requires
        event is Error,
        !s.dead,
    ensures
        ({
            let (d2, s2) = handled(d, s, event);
            &&& s2.dead && !s2.codec_started
            &&& s2.codec == s.codec.push(CodecCall::Stop)
            &&& all_back(s.input, s2.input) && all_back(s.output, s2.output)
            &&& d2.events == d.events.push(V4l2Event::Error { session_id: s.id, errno: ENODEV })
            &&& d2 == (DeviceView { events: d2.events, ..d })
        }),
{
    returning_all_is_that(s.input);
    returning_all_is_that(s.output);
}

/// What the codec reports is handled in the order it reports it.
pub proof fn reports_are_handled_in_order<GM, H, S, K>(
    d: DeviceView<GM, H, S, K>,
    s: SessionView<GM, H>,
    earlier: Seq<EncoderEvent>,
    last: EncoderEvent,
)
    requires
        !all_handled(d, s, earlier).1.dead,
    ensures
        all_handled(d, s, earlier.push(last)) == handled(
            all_handled(d, s, earlier).0,
            all_handled(d, s, earlier).1,
            last,
        ),
    decreases earlier.len(),
{
    let all = earlier.push(last);
    if earlier.len() == 0 {
        assert(all.skip(1) =~= Seq::<EncoderEvent>::empty());
        let (d1, s1) = handled(d, s, last);
        assert(all_handled(d1, s1, all.skip(1)) == (d1, s1));
    } else {
        if s.dead {
            assert(all_handled(d, s, earlier).1 == s);
        } else {
            let (d1, s1) = handled(d, s, earlier[0]);
            assert(all.skip(1) =~= earlier.skip(1).push(last));
            reports_are_handled_in_order(d1, s1, earlier.skip(1), last);
        }
    }
}

/// Collecting asks the codec for what it has to report once, before anything else, and does with it
/// what is done with each report.
pub proof fn collecting_asks_the_codec_once<GM, H, S, K>(
    d: DeviceView<GM, H, S, K>,
    s: SessionView<GM, H>,
    d2: DeviceView<GM, H, S, K>,
    s2: SessionView<GM, H>,
)
    requires
        super::codec::events_processed(d, s, d2, s2),
    ensures
        s.dead ==> s2 == s && d2 == d,
        !s.dead ==> s2.codec.len() > s.codec.len() && s2.codec[s.codec.len() as int] is TakeEvents
            && (d2, s2) == all_handled(
            d,
            SessionView { codec: s.codec.push(s2.codec[s.codec.len() as int]), ..s },
            s2.codec[s.codec.len() as int]->events,
        ),
{
    if !s.dead {
        let events = choose|events: Seq<EncoderEvent>|
            (d2, s2) == #[trigger] processed(d, s, events);
        let t = SessionView { codec: s.codec.push(CodecCall::TakeEvents { events }), ..s };
        super::loans::calls_are_only_added(d, t, events);
        assert(s2.codec[s.codec.len() as int] == t.codec[s.codec.len() as int]);
    }
}

/// When `CAPTURE` stops under a running codec, the raw frames that waited still wait, in their
/// order, and behind them, by index, wait those that the codec had and did not report done.
pub proof fn unfinished_frames_wait_again<GM, H, S, K>(
    d: DeviceView<GM, H, S, K>,
    s: SessionView<GM, H>,
    d2: DeviceView<GM, H, S, K>,
    s2: SessionView<GM, H>,
    reply: IoctlReply,
    i: int,
)
    requires
        s.wf(),
        s.codec_started,
        !s.dead,
        encoder_answers(
            d,
            s,
            IoctlRequest::StreamOff { queue: QueueType::VideoCaptureMplane },
            d2,
            s2,
            reply,
        ),
        0 <= i < s.input.buffers.len(),
    ensures
        ({
            let p = s.input.pending;
            let p2 = s2.input.pending;
            &&& p2.len() >= p.len()
            &&& forall|j: int| 0 <= j < p.len() ==> #[trigger] p2[j] == p[j]
            &&& forall|j: int, k: int| p.len() <= j < k < p2.len() ==> p2[j] < p2[k]
            &&& !s2.input.buffers[i].lent
            &&& s.input.buffers[i].queued && s2.input.buffers[i].queued ==> p2.contains(i as usize)
            &&& s.input.buffers[i].queued && s2.input.buffers[i].queued
                ==> s2.input.buffers[i].v4l2_buffer == s.input.buffers[i].v4l2_buffer
                && s2.input.buffers[i].backing == s.input.buffers[i].backing
            &&& s.input.buffers[i].queued && !s.input.buffers[i].lent ==> s2.input.buffers[i].queued
        }),
{
    let events = choose|events: Seq<EncoderEvent>|
        d2 == (#[trigger] super::codec::stopped(d, s, events)).0 && s2 == super::codec::stopped(
            d,
            s,
            events,
        ).1.capture_stopped();
    let t = s.torn_down(events);
    let (e, u) = super::codec::inputs_done(d, t, events);
    super::laws::done_inputs_leave_the_rest(d, t, events);
    done_inputs_keep_the_others(d, t, events, i);
    recalled_come_last(u.input);
    let p = s.input.pending;
    let n = u.input.buffers.len() as int;
    let tail = super::queue::lent_below(u.input.buffers, n);
    let p2 = s2.input.pending;
    assert(p2 == u.input.pending + tail);
    assert(u.input.pending == p);
    if s.input.buffers[i].queued && s2.input.buffers[i].queued {
        if s.input.buffers[i].lent {
            assert(tail.contains(i as usize));
            let j = choose|j: int| 0 <= j < tail.len() && tail[j] == i as usize;
            assert(p2[p.len() + j] == i as usize);
        } else {
            assert(s.input.buffers[i as usize as int].queued);
            assert(p.contains(i as usize));
            let j = choose|j: int| 0 <= j < p.len() && p[j] == i as usize;
            assert(p2[j] == i as usize);
        }
    }
    assert forall|j: int, k: int| p.len() <= j < k < p2.len() implies p2[j] < p2[k] by {
        assert(tail[j - p.len()] < tail[k - p.len()]);
    }
}

/// Reports of finished frames leave what waits, and every buffer but those they are about.
proof fn done_inputs_keep_the_others<GM, H, S, K>(
    d: DeviceView<GM, H, S, K>,
    s: SessionView<GM, H>,
    events: Seq<EncoderEvent>,
    i: int,
)
    requires
        0 <= i < s.input.buffers.len(),
        s.input.buffers.len() <= 32,
    ensures
        ({
            let t = super::codec::inputs_done(d, s, events).1;
            &&& t.input.pending == s.input.pending
            &&& t.input.buffers.len() == s.input.buffers.len()
            &&& t.input.buffers[i] == s.input.buffers[i] || (s.input.buffers[i].lent
                && !t.input.buffers[i].queued && !t.input.buffers[i].lent)
        }),
    decreases events.len(),
{
    if events.len() > 0 {
        let (d1, s1) = if events[0] is InputBufferDone {
            handled(d, s, events[0])
        } else {
            (d, s)
        };
        done_inputs_keep_the_others(d1, s1, events.skip(1), i);
    }
}

/// What is taken back is listed once each, by index.
proof fn recalled_come_last<GM, H>(q: QueueView<GM, H>)
    requires
        q.buffers.len() <= 32,
    ensures
        ({
            let tail = super::queue::lent_below(q.buffers, q.buffers.len() as int);
            &&& forall|i: int|
                0 <= i < q.buffers.len() && (#[trigger] q.buffers[i]).lent ==> tail.contains(
                    i as usize,
                )
            &&& forall|j: int, k: int| 0 <= j < k < tail.len() ==> tail[j] < tail[k]
        }),
{
    ascending(q.buffers, q.buffers.len() as int);
}

/// The lent buffers below a number ascend.
proof fn ascending<GM, H>(buffers: Seq<Buffer<GM, H>>, n: int)
    requires
        0 <= n <= buffers.len() <= 32,
    ensures
        ({
            let tail = super::queue::lent_below(buffers, n);
            &&& forall|j: int| 0 <= j < tail.len() ==> #[trigger] tail[j] < n
            &&& forall|i: int|
                0 <= i < n && (#[trigger] buffers[i]).lent ==> tail.contains(i as usize)
            &&& forall|j: int, k: int| 0 <= j < k < tail.len() ==> tail[j] < tail[k]
        }),
    decreases n,
{
    if n > 0 {
        ascending(buffers, n - 1);
        let before = super::queue::lent_below(buffers, n - 1);
        let tail = super::queue::lent_below(buffers, n);
        assert forall|i: int| 0 <= i < n && (#[trigger] buffers[i]).lent implies tail.contains(
            i as usize,
        ) by {
            if i < n - 1 {
                let j = choose|j: int| 0 <= j < before.len() && before[j] == i as usize;
                assert(tail[j] == i as usize);
            } else {
                assert(tail[tail.len() - 1] == i as usize);
            }
        }
    }
}

/// What an encoder has no use for is `ENOTTY`, and nothing changes: inputs, outputs, standards,
/// tuners, modulators, audio, timings, decoders and indexes.
pub proof fn what_is_no_encoders_is_enotty<GM, H, S, K>(
    d: DeviceView<GM, H, S, K>,
    s: SessionView<GM, H>,
    request: IoctlRequest,
    d2: DeviceView<GM, H, S, K>,
    s2: SessionView<GM, H>,
    reply: IoctlReply,
)
    requires
        request is GStd || request is SStd || request is EnumStd || request is QueryStd
            || request is EnumInput || request is GInput || request is SInput
                || request is EnumOutput
            || request is GOutput || request is SOutput || request is GTuner || request is STuner
            || request is GAudio || request is SAudio || request is EnumAudio || request is GAudOut
            || request is SAudOut || request is EnumAudOut || request is GModulator
            || request is SModulator || request is GFrequency || request is SFrequency
            || request is EnumFreqBands || request is GEncIndex || request is SDvTimings
            || request is GDvTimings || request is EnumDvTimings || request is QueryDvTimings
            || request is DvTimingsCap || request is DecoderCmd || request is TryDecoderCmd,
        encoder_answers(d, s, request, d2, s2, reply),
    ensures
        reply == (IoctlReply::Refused { errno: ENOTTY }),
        s2 == s && d2 == d,
{
}

} // verus!
