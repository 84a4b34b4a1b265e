//! What holds of an encoder across its operations.
use vstd::prelude::*;

use super::backend::{reports, CodecCall, EncoderEvent, FrameKind};
use super::buffer_ioctls::{
    created, declared_payload, prepared, preparing_refused, queued, queued_description, requested,
};
use super::capabilities::first_format_is_the_format;
use super::codec::{
    encoded, feeds, flags_of, handled, inputs_done, refused_loan, stopped, V4L2_EVENT_EOS,
};
use super::config::{asked_to_start, config_of, starts};
use super::device::DeviceView;
use super::format_ioctls::{
    first_index, format_told, parm_set, parm_told, selection_set, selection_told, set_format,
    tried_format,
};
use super::loans::reported;
use super::queue::Buffer;
use super::ranges::{bitstream_cap, fitted_is_in_range, nv12_bytes_fit, MIN_BITSTREAM_SIZE};
use super::session::{formats_carry_the_colorimetry, Drain, SessionView};
use super::stream_ioctls::{
    commanded, left_streaming, normalized, resumed, stream_off, stream_on, ENC_CMD_STOP,
};
use crate::errno::ENODEV;
use crate::formats::{FormatBody, SelectionTarget, SelectionType, StreamParm, V4l2Format};
use crate::ioctl::types::{CreateBuffers, EncoderCmd, RequestBuffers};
use crate::payload::PayloadValidity;
use crate::protocol::{SgEntry, V4l2Event};
use crate::v4l2::{
    MemoryType, PixelFormat, QueueDirection, QueueType, Rect, Timeval, V4l2Buffer, FLAG_LAST,
};

verus! {

/// Once its codec has died, a session answers `ENODEV` to whatever would use it, and nothing
/// happens.
pub proof fn dead_sessions_answer_enodev<GM, H, S, K>(
    d: DeviceView<GM, H, S, K>,
    s: SessionView<GM, H>,
    d2: DeviceView<GM, H, S, K>,
    s2: SessionView<GM, H>,
    queue: QueueType,
)
    requires
        s.dead,
        queue.multiplanar(),
    ensures
        forall|memory: MemoryType, count: u32, r: Result<RequestBuffers, i32>| #[trigger]
            requested(d, s, queue, memory, count, d2, s2, r) && count > 0 ==> r == Err::<
                RequestBuffers,
                i32,
            >(ENODEV) && d2 == d && s2 == s,
        forall|count: u32, memory: MemoryType, format: V4l2Format, r: Result<CreateBuffers, i32>|
         #[trigger]
            created(d, s, count, queue, memory, format, d2, s2, r) ==> r == Err::<
                CreateBuffers,
                i32,
            >(ENODEV) && d2 == d && s2 == s,
        forall|
            buffer: V4l2Buffer,
            regions: Seq<Seq<SgEntry>>,
            payload: PayloadValidity,
            r: Result<V4l2Buffer, i32>,
        | #[trigger]
            queued(d, s, buffer, regions, payload, d2, s2, r) && buffer.queue == queue ==> r
                == Err::<V4l2Buffer, i32>(ENODEV) && d2 == d && s2 == s,
        forall|buffer: V4l2Buffer, payload: PayloadValidity, r: Result<V4l2Buffer, i32>| #[trigger]
            prepared(s, buffer, payload, s2, r) && buffer.queue == queue ==> r == Err::<
                V4l2Buffer,
                i32,
            >(ENODEV) && s2 == s,
        forall|r: Result<(), i32>| #[trigger]
            stream_on(d, s, queue, d2, s2, r) ==> r == Err::<(), i32>(ENODEV) && d2 == d && s2 == s,
        forall|format: V4l2Format, r: Result<V4l2Format, i32>| #[trigger]
            set_format(d, s, queue, format, s2, r) ==> r == Err::<V4l2Format, i32>(ENODEV) && s2
                == s,
        forall|cmd: EncoderCmd, r: Result<EncoderCmd, i32>| #[trigger]
            commanded(d, s, cmd, d2, s2, r) && normalized(cmd) is Ok ==> r == Err::<
                EncoderCmd,
                i32,
            >(ENODEV) && d2 == d && s2 == s,
        forall|parm: StreamParm|
            parm.type_ == QueueType::VideoOutputMplane.code() ==> #[trigger] parm_set(d, s, parm)
                == (s, Err::<StreamParm, i32>(ENODEV)),
{
}

/// The format a client set is the one it is told afterwards.
pub proof fn a_set_format_is_told<GM, H, S, K>(
    d: DeviceView<GM, H, S, K>,
    s: SessionView<GM, H>,
    queue: QueueType,
    format: V4l2Format,
    s2: SessionView<GM, H>,
    r: Result<V4l2Format, i32>,
)
    requires
        d.fits(s),
        set_format(d, s, queue, format, s2, r),
        r is Ok,
    ensures
        format_told(s2, queue, r),
{
    if let FormatBody::PixMp(p) = format.fmt {
        let coded = if queue == QueueType::VideoOutputMplane {
            d.caps.format(s.coded_format)->0
        } else {
            d.caps.selected(PixelFormat(p.pixelformat))->0
        };
        fitted_is_in_range(coded.width, s.coded_size.0 as int);
        fitted_is_in_range(coded.height, s.coded_size.1 as int);
        fitted_is_in_range(coded.width, p.width as int);
        fitted_is_in_range(coded.height, p.height as int);
    }
}

/// The format of a queue is one the device would not change: trying it gives it back. A bitstream
/// size set for a larger raw frame than the current one is the exception.
pub proof fn the_told_format_is_kept<GM, H, S, K>(
    d: DeviceView<GM, H, S, K>,
    s: SessionView<GM, H>,
    queue: QueueType,
    f: V4l2Format,
)
    requires
        d.fits(s),
        format_told(s, queue, Ok(f)),
        queue == QueueType::VideoCaptureMplane ==> (s.bitstream_size matches Some(n)
            ==> MIN_BITSTREAM_SIZE <= n <= bitstream_cap(
            s.coded_size.0 as int,
            s.coded_size.1 as int,
        )),
    ensures
        tried_format(d, s, queue, f, Ok(f)),
{
    let p = f.fmt->PixMp_0;
    assert(PixelFormat(s.coded_format.0) == s.coded_format);
    assert(d.caps.offers(s.coded_format));
    let n = choose|n: int| 0 <= n < d.caps.formats.len() && (#[trigger] d.caps.formats[n]).fourcc
        == s.coded_format;
    let i = first_index(d.caps, s.coded_format, n);
    first_format_is_the_format(d.caps, s.coded_format, i);
    formats_carry_the_colorimetry(
        f,
        queue,
        p.pixelformat,
        p.width,
        p.height,
        p.plane0,
        s.colorspace,
    );
    let w = s.coded_size.0 as int;
    let h = s.coded_size.1 as int;
    nv12_bytes_fit(w, h);
}

/// The frame interval a client set is the one it is told afterwards.
pub proof fn a_set_interval_is_told<GM, H, S, K>(
    d: DeviceView<GM, H, S, K>,
    s: SessionView<GM, H>,
    parm: StreamParm,
)
    requires
        parm_set(d, s, parm).1 is Ok,
    ensures
        parm_told(parm_set(d, s, parm).0, QueueType::VideoOutputMplane) == parm_set(d, s, parm).1,
{
}

/// The visible rectangle a client set is the one it is told afterwards.
pub proof fn a_set_crop_is_told<GM, H, S, K>(
    d: DeviceView<GM, H, S, K>,
    s: SessionView<GM, H>,
    asked: Rect,
)
    requires
        selection_set(d, s, SelectionType::Output, SelectionTarget::Crop, asked).1 is Ok,
    ensures
        ({
            let (s2, r) = selection_set(
                d,
                s,
                SelectionType::Output,
                SelectionTarget::Crop,
                asked,
            );
            selection_told(s2, SelectionType::Output, SelectionTarget::Crop) == r
        }),
{
}

/// A buffer that was prepared is queued with the payload accepted then, whatever the client
/// declares when it queues it.
pub proof fn a_prepared_payload_is_kept<GM, H>(
    s: SessionView<GM, H>,
    buffer: V4l2Buffer,
    payload: PayloadValidity,
    s2: SessionView<GM, H>,
    again: V4l2Buffer,
    direction: QueueDirection,
)
    requires
        s.wf(),
        buffer.queue.video_mplane_direction() == Some(direction),
        preparing_refused(s, direction, buffer, payload) is None,
        prepared(
            s,
            buffer,
            payload,
            s2,
            Ok(s2.queue(direction).buffers[buffer.index as int].v4l2_buffer),
        ),
    ensures
        queued_description(
            s2.queue(direction).buffers[buffer.index as int],
            again,
            direction,
        ).first_bytesused() == declared_payload(direction, buffer.first_bytesused()),
{
    let b = s.queue(direction).buffers[buffer.index as int];
    assert(b.wf(buffer.index as int, buffer.queue, buffer.memory));
}

/// A report about a buffer the codec does not hold changes nothing and tells the guest nothing.
pub proof fn strays_do_nothing<GM, H, S, K>(
    d: DeviceView<GM, H, S, K>,
    s: SessionView<GM, H>,
    event: EncoderEvent,
)
    requires
        match event {
            EncoderEvent::InputBufferDone(i) => i >= s.input.buffers.len()
                || !s.input.buffers[i as int].lent,
            EncoderEvent::FrameEncoded { index, .. } => index >= s.output.buffers.len()
                || !s.output.buffers[index as int].lent,
            EncoderEvent::Error(_) => s.dead,
        },
    ensures
        handled(d, s, event) == (d, s),
{
}

/// No more bytes are reported of a filled buffer than it holds.
pub proof fn no_more_is_reported_than_fits<GM, H>(
    b: Buffer<GM, H>,
    bytesused: u32,
    timestamp: Timeval,
    kind: FrameKind,
    is_last: bool,
    sequence: u32,
)
    ensures
        encoded(b, bytesused, timestamp, kind, is_last, sequence).v4l2_buffer.first_bytesused()
            <= b.room(),
{
}

/// Raw frames the codec is done with leave the rest of a session as it was.
pub proof fn done_inputs_leave_the_rest<GM, H, S, K>(
    d: DeviceView<GM, H, S, K>,
    s: SessionView<GM, H>,
    events: Seq<EncoderEvent>,
)
    ensures
        ({
            let (e, t) = inputs_done(d, s, events);
            &&& t == (SessionView { input: t.input, ..s })
            &&& t.input.buffers.len() == s.input.buffers.len()
            &&& e == (DeviceView { events: e.events, ..d })
        }),
    decreases events.len(),
{
    if events.len() > 0 {
        let (d1, s1) = if events[0] is InputBufferDone {
            handled(d, s, events[0])
        } else {
            (d, s)
        };
        done_inputs_leave_the_rest(d1, s1, events.skip(1));
    }
}

/// Once a queue has stopped, every buffer of it is with the guest: none is queued, lent or
/// prepared.
pub proof fn stopping_returns_every_buffer<GM, H, S, K>(
    d: DeviceView<GM, H, S, K>,
    s: SessionView<GM, H>,
    direction: QueueDirection,
    d2: DeviceView<GM, H, S, K>,
    s2: SessionView<GM, H>,
    i: int,
)
    requires
        stream_off(d, s, direction, d2, s2),
        0 <= i < s.queue(direction).buffers.len(),
    ensures
        !s2.streaming(direction),
        s2.queue(direction).buffers.len() == s.queue(direction).buffers.len(),
        ({
            let b = s2.queue(direction).buffers[i];
            !b.queued && !b.lent && b.prepared is None
        }),
{
    if direction == QueueDirection::Capture && s.codec_started && !s.dead {
        let events = choose|events: Seq<EncoderEvent>|
            d2 == (#[trigger] stopped(d, s, events)).0 && s2 == stopped(
                d,
                s,
                events,
            ).1.capture_stopped();
        done_inputs_leave_the_rest(d, s.torn_down(events), events);
    }
}

/// A drain the codec refuses is not pending afterwards.
pub proof fn a_refused_drain_is_not_pending<GM, H, S, K>(
    d: DeviceView<GM, H, S, K>,
    s: SessionView<GM, H>,
    cmd: EncoderCmd,
    d2: DeviceView<GM, H, S, K>,
    s2: SessionView<GM, H>,
    r: Result<EncoderCmd, i32>,
)
    requires
        commanded(d, s, cmd, d2, s2, r),
        cmd.cmd == ENC_CMD_STOP,
        s.drain != Drain::Pending,
        r is Err,
    ensures
        s2.drain == s.drain,
        s2.drain != Drain::Pending,
{
}

/// A session that resumes after a drain has its raw frames waiting in the order the codec was lent
/// them, in front of those that waited.
pub proof fn resuming_keeps_the_order<GM, H>(s: SessionView<GM, H>)
    ensures
        resumed(s, Ok(())).input.pending == s.input.lending + s.input.pending,
        resumed(s, Ok(())).input.lending.len() == 0,
        resumed(s, Ok(())).drain == Drain::Idle,
{
}

/// The codec is created when the second of the two queues starts to stream, whichever that is,
/// from what the session has at that moment. The first asks nothing of it.
pub proof fn the_codec_starts_with_the_second_queue<GM, H, S, K>(
    d: DeviceView<GM, H, S, K>,
    s: SessionView<GM, H>,
    queue: QueueType,
    direction: QueueDirection,
    d2: DeviceView<GM, H, S, K>,
    s2: SessionView<GM, H>,
    r: Result<(), i32>,
)
    requires
        queue.video_mplane_direction() == Some(direction),
        stream_on(d, s, queue, d2, s2, r),
        !s.dead,
        !s.codec_started,
        !s.streaming(direction),
        s.queue(direction).buffers.len() > 0,
    ensures
        ({
            let other = match direction {
                QueueDirection::Output => QueueDirection::Capture,
                QueueDirection::Capture => QueueDirection::Output,
            };
            if s.streaming(other) {
                &&& s2.codec.len() > s.codec.len()
                &&& s2.codec[s.codec.len() as int] matches CodecCall::Start { config, .. }
                &&& config == config_of(d, s, d.caps.format(s.coded_format)->0)
            } else {
                r is Ok && d2 == d && s2 == s.with_streaming(direction, true)
            }
        }),
{
    let t = s.with_streaming(direction, true);
    let s1 = choose|s1: SessionView<GM, H>|
        #![trigger left_streaming(s, s1, r)]
        starts(d, t, d2, s1, r) && s2 == left_streaming(s, s1, r);
    if t.running() {
        let answer = choose|answer: Result<(), i32>|
            {
                let u = #[trigger] asked_to_start(d, t, answer);
                match answer {
                    Ok(_) => feeds(d, SessionView { codec_started: true, ..u }, d2, s1, r),
                    Err(e) => r == Err::<(), i32>(e) && d2 == d && s1 == u,
                }
            };
        let u = SessionView { codec_started: true, ..asked_to_start(d, t, answer) };
        if answer is Ok && u.feeding() && r is Err {
            let (k, errno) = choose|k: int, errno: i32|
                0 <= k < u.waiting() && s1 == #[trigger] refused_loan(u, k, errno);
        }
    }
}

/// Stopping `OUTPUT` keeps the codec, unless it refuses to drop its frames, which ends the session.
pub proof fn stopping_output_keeps_the_codec<GM, H, S, K>(
    d: DeviceView<GM, H, S, K>,
    s: SessionView<GM, H>,
    d2: DeviceView<GM, H, S, K>,
    s2: SessionView<GM, H>,
)
    requires
        stream_off(d, s, QueueDirection::Output, d2, s2),
    ensures
        s2.codec_started == s.codec_started || (!s.dead && s2.dead),
        s2.output == s.output || (!s.dead && s2.dead),
{
}

/// Stopping `CAPTURE` tears the codec down, so that the next stream starts afresh. The raw frames
/// it had not reported done wait for the next one.
pub proof fn stopping_capture_resets_the_codec<GM, H, S, K>(
    d: DeviceView<GM, H, S, K>,
    s: SessionView<GM, H>,
    d2: DeviceView<GM, H, S, K>,
    s2: SessionView<GM, H>,
)
    requires
        s.wf(),
        s.codec_started,
        stream_off(d, s, QueueDirection::Capture, d2, s2),
    ensures
        !s2.codec_started,
        exists|events: Seq<EncoderEvent>|
            {
                &&& s2.codec == #[trigger] s.torn_down(events).codec
                &&& forall|i: int|
                    0 <= i < s.input.buffers.len() && (#[trigger] s.input.buffers[i]).queued ==> (
                    s2.input.buffers[i].queued && !s2.input.buffers[i].lent) || reported(
                        events,
                        QueueDirection::Output,
                        i,
                    )
            },
{
    let events = choose|events: Seq<EncoderEvent>|
        d2 == (#[trigger] stopped(d, s, events)).0 && s2 == stopped(
            d,
            s,
            events,
        ).1.capture_stopped();
    let t = s.torn_down(events);
    done_inputs_leave_the_rest(d, t, events);
    assert forall|i: int|
        0 <= i < s.input.buffers.len() && (#[trigger] s.input.buffers[i]).queued implies (
    s2.input.buffers[i].queued && !s2.input.buffers[i].lent) || reported(
        events,
        QueueDirection::Output,
        i,
    ) by {
        only_reported_inputs_leave(d, t, events, i);
    }
    assert(s2.codec == s.torn_down(events).codec);
}

/// A queued raw frame stays queued unless it is reported done.
proof fn only_reported_inputs_leave<GM, H, S, K>(
    d: DeviceView<GM, H, S, K>,
    s: SessionView<GM, H>,
    events: Seq<EncoderEvent>,
    i: int,
)
    requires
        0 <= i < s.input.buffers.len(),
        s.input.buffers[i].queued,
    ensures
        ({
            let t = inputs_done(d, s, events).1;
            &&& t.input.buffers.len() == s.input.buffers.len()
            &&& t.input.buffers[i].queued || reported(events, QueueDirection::Output, i)
        }),
    decreases events.len(),
{
    if events.len() > 0 {
        let (d1, s1) = if events[0] is InputBufferDone {
            handled(d, s, events[0])
        } else {
            (d, s)
        };
        let rest = events.skip(1);
        if s1.input.buffers[i].queued {
            only_reported_inputs_leave(d1, s1, rest, i);
            if reported(rest, QueueDirection::Output, i) {
                let k = choose|k: int|
                    0 <= k < rest.len() && reports(#[trigger] rest[k], QueueDirection::Output, i);
                assert(events[k + 1] == rest[k]);
            }
        } else {
            assert(reports(events[0], QueueDirection::Output, i));
            inputs_keep_their_number(d1, s1, rest);
        }
    }
}

/// Raw frames reported done are still buffers of their queue.
proof fn inputs_keep_their_number<GM, H, S, K>(
    d: DeviceView<GM, H, S, K>,
    s: SessionView<GM, H>,
    events: Seq<EncoderEvent>,
)
    ensures
        inputs_done(d, s, events).1.input.buffers.len() == s.input.buffers.len(),
    decreases events.len(),
{
    if events.len() > 0 {
        let (d1, s1) = if events[0] is InputBufferDone {
            handled(d, s, events[0])
        } else {
            (d, s)
        };
        inputs_keep_their_number(d1, s1, events.skip(1));
    }
}

/// The last buffer of a drain ends it: the guest gets the buffer, marked as the last, and then the
/// end of the stream if it subscribed to that.
pub proof fn a_drain_ends_with_its_last_buffer<GM, H, S, K>(
    d: DeviceView<GM, H, S, K>,
    s: SessionView<GM, H>,
    index: u32,
    bytesused: u32,
    timestamp: Timeval,
    kind: FrameKind,
)
    requires
        index < s.output.buffers.len(),
        s.output.buffers[index as int].lent,
    ensures
        ({
            let n = d.events.len() as int;
            let event = EncoderEvent::FrameEncoded {
                index,
                bytesused,
                timestamp,
                kind,
                is_last: true,
            };
            let (d2, s2) = handled(d, s, event);
            &&& s2.drain == Drain::Done
            &&& d2.events[n] matches V4l2Event::DequeueBuffer { session_id, buffer }
            &&& session_id == s.id
            &&& buffer.flags & FLAG_LAST == FLAG_LAST
            &&& buffer.timestamp == timestamp
            &&& d2.events.len() == if s.eos_subscribed {
                n + 2
            } else {
                n + 1
            }
            &&& s.eos_subscribed ==> (d2.events[n + 1] matches V4l2Event::Event {
                session_id,
                event,
            } && session_id == s.id && event.type_ == V4L2_EVENT_EOS)
        }),
{
    let flags = flags_of(kind, bytesused, true);
    assert(forall|a: u32| (#[trigger] (a | FLAG_LAST)) & FLAG_LAST == FLAG_LAST) by (bit_vector);
}

} // verus!
