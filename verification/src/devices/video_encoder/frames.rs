//! What the codec is lent as a raw frame: always at least one whole frame of the coded size.
use vstd::prelude::*;

use super::backend::{CodecCall, EncoderEvent};
use super::buffer_ioctls::{
    all_freed, allocation_refused, buffers_added, enqueued, mapping_asked, prepared, queued,
    queued_description, queued_if_mapped, queueing_answer, queueing_refused, requested,
    scatter_lists,
};
use super::buffers::{allocations, freed, is_fresh};
use super::codec::{all_handled, feeds, handled, inputs_done, refused_loan, stopped};
use super::config::{asked_to_start, starts};
use super::control_ioctls::{applied_set, set_applied};
use super::controls::MAX_BUFFERS;
use super::device::DeviceView;
use super::format_ioctls::set_format;
use super::ioctls::encoder_answers;
use super::laws::done_inputs_leave_the_rest;
use super::lifecycle::fresh_session;
use super::queue::{empty_queue, Backing, Buffer, QueueView};
use super::ranges::{min, nv12_bytes_fit};
use super::session::SessionView;
use super::stream_ioctls::{
    command_answer, commanded, flushed, left_streaming, normalized, resumed, stream_off,
    ENC_CMD_START,
};
use crate::formats::V4l2Format;
use crate::host::{continued, GuestMapping, GuestMappingError, PoolCall};
use crate::ioctl::reply::IoctlReply;
use crate::ioctl::requests::IoctlRequest;
use crate::ioctl::types::{EncoderCmd, ExtControl, RequestBuffers};
use crate::payload::PayloadValidity;
use crate::protocol::SgEntry;
use crate::v4l2::{MemoryType, QueueDirection, QueueType, V4l2Buffer};

verus! {

/// Whether a buffer is known to hold `n` bytes: it was created for as many, its host memory is as
/// long as was asked for, and of the guest's memory as much is declared, and mapped while it is
/// queued.
pub open spec fn holds<GM, H>(b: Buffer<GM, H>, n: int) -> bool {
    &&& n <= b.size
    &&& match b.backing {
        Backing::Host { buffer, .. } => b.size <= buffer.len,
        Backing::Guest(_) => {
            &&& b.queued ==> n <= b.room()
            &&& b.prepared is Some ==> n <= b.v4l2_buffer.first_length()
        },
    }
}

/// Whether every raw frame buffer of a session holds a frame of its coded size.
pub open spec fn holds_frames<GM, H>(s: SessionView<GM, H>) -> bool {
    forall|i: int|
        0 <= i < s.input.buffers.len() ==> holds(
            #[trigger] s.input.buffers[i],
            s.sizeimage(QueueDirection::Output),
        )
}

/// Whether the allocator's answers after the first `from` calls are as long as was asked.
pub open spec fn allocates_in_full<H>(from: int, calls: Seq<PoolCall<H>>) -> bool {
    forall|k: int|
        from <= k < calls.len() ==> (#[trigger] calls[k] matches PoolCall::Allocate {
            len,
            answer: Ok(b),
        } ==> len <= b.len)
}

/// Whether every raw frame lent after the first `from` calls has at least `n` bytes.
pub open spec fn lends_whole_frames(from: int, calls: Seq<CodecCall>, n: int) -> bool {
    forall|k: int|
        from <= k < calls.len() ==> (#[trigger] calls[k] matches CodecCall::Encode { buffer, .. }
            ==> n <= buffer.len)
}

/// Whether an operation keeps what raw frame buffers hold, and lends whole frames only.
pub open spec fn keeps_frames<GM, H>(s: SessionView<GM, H>, s2: SessionView<GM, H>) -> bool {
    &&& holds_frames(s2)
    &&& continued(s.codec, s2.codec)
    &&& lends_whole_frames(s.codec.len() as int, s2.codec, s.sizeimage(QueueDirection::Output))
}

/// Whether the waiting raw frames are queued buffers.
pub open spec fn pending_queued<GM, H>(q: QueueView<GM, H>) -> bool {
    forall|k: int|
        0 <= k < q.pending.len() ==> (#[trigger] q.pending[k]) < q.buffers.len()
            && q.buffers[q.pending[k] as int].queued
}

/// A waiting raw frame is lent whole.
proof fn waiting_frames_are_whole<GM, H>(s: SessionView<GM, H>, k: int, answer: Result<(), i32>)
    requires
        holds_frames(s),
        pending_queued(s.input),
        0 <= k < s.waiting(),
    ensures
        s.loan(k, answer) matches CodecCall::Encode { buffer, .. } ==> s.sizeimage(
            QueueDirection::Output,
        ) <= buffer.len,
{
    if k >= s.output.pending.len() {
        let i = s.input.pending[k - s.output.pending.len()];
        let b = s.input.buffers[i as int];
        assert(holds(b, s.sizeimage(QueueDirection::Output)));
    }
}

/// Lending what waits lends whole frames.
proof fn feeding_keeps_frames<GM, H, S, K>(
    d: DeviceView<GM, H, S, K>,
    s: SessionView<GM, H>,
    d2: DeviceView<GM, H, S, K>,
    s2: SessionView<GM, H>,
    r: Result<(), i32>,
)
    requires
        feeds(d, s, d2, s2, r),
        holds_frames(s),
        pending_queued(s.input),
    ensures
        keeps_frames(s, s2),
{
    let n = s.sizeimage(QueueDirection::Output);
    if s.feeding() {
        match r {
            Ok(_) => {
                assert forall|k: int| s.codec.len() <= k < s2.codec.len() implies (
                #[trigger] s2.codec[k] matches CodecCall::Encode { buffer, .. } ==> n
                    <= buffer.len) by {
                    waiting_frames_are_whole(s, k - s.codec.len(), Ok(()));
                }
                assert forall|i: int| 0 <= i < s2.input.buffers.len() implies holds(
                    #[trigger] s2.input.buffers[i],
                    n,
                ) by {
                    assert(holds(s.input.buffers[i], n));
                }
            },
            Err(_) => {
                let (m, errno) = choose|m: int, errno: i32|
                    0 <= m < s.waiting() && s2 == #[trigger] refused_loan(s, m, errno);
                assert forall|k: int| s.codec.len() <= k < s2.codec.len() implies (
                #[trigger] s2.codec[k] matches CodecCall::Encode { buffer, .. } ==> n
                    <= buffer.len) by {
                    if k < s.codec.len() + m {
                        waiting_frames_are_whole(s, k - s.codec.len(), Ok(()));
                    } else {
                        waiting_frames_are_whole(s, m, Err(errno));
                    }
                }
                returning_keeps_frames(s.input, n);
            },
        }
    }
}

/// Buffers back with the guest hold what they did.
proof fn returning_keeps_frames<GM, H>(q: QueueView<GM, H>, n: int)
    requires
        forall|i: int| 0 <= i < q.buffers.len() ==> holds(#[trigger] q.buffers[i], n),
    ensures
        forall|i: int|
            0 <= i < q.buffers.len() ==> holds(#[trigger] q.all_returned().buffers[i], n),
{
    assert forall|i: int| 0 <= i < q.buffers.len() implies holds(
        #[trigger] q.all_returned().buffers[i],
        n,
    ) by {
        assert(holds(q.buffers[i], n));
    }
}

/// An event keeps what raw frame buffers hold.
proof fn handling_keeps_frames<GM, H, S, K>(
    d: DeviceView<GM, H, S, K>,
    s: SessionView<GM, H>,
    event: EncoderEvent,
)
    requires
        holds_frames(s),
    ensures
        holds_frames(handled(d, s, event).1),
{
    let n = s.sizeimage(QueueDirection::Output);
    let s2 = handled(d, s, event).1;
    returning_keeps_frames(s.input, n);
    assert forall|i: int| 0 <= i < s2.input.buffers.len() implies holds(
        #[trigger] s2.input.buffers[i],
        n,
    ) by {
        assert(holds(s.input.buffers[i], n));
        assert(holds(s.input.all_returned().buffers[i], n));
    }
}

/// The raw frames reported done keep what the buffers hold.
proof fn done_inputs_keep_frames<GM, H, S, K>(
    d: DeviceView<GM, H, S, K>,
    s: SessionView<GM, H>,
    events: Seq<EncoderEvent>,
)
    requires
        holds_frames(s),
    ensures
        holds_frames(inputs_done(d, s, events).1),
    decreases events.len(),
{
    if events.len() > 0 {
        handling_keeps_frames(d, s, events[0]);
        let (d1, s1) = if events[0] is InputBufferDone {
            handled(d, s, events[0])
        } else {
            (d, s)
        };
        done_inputs_keep_frames(d1, s1, events.skip(1));
    }
}

/// Stopping a queue keeps what raw frame buffers hold.
proof fn stopping_keeps_frames<GM, H, S, K>(
    d: DeviceView<GM, H, S, K>,
    s: SessionView<GM, H>,
    stopping: QueueDirection,
    d2: DeviceView<GM, H, S, K>,
    s2: SessionView<GM, H>,
)
    requires
        holds_frames(s),
        stream_off(d, s, stopping, d2, s2),
    ensures
        keeps_frames(s, s2),
{
    let n = s.sizeimage(QueueDirection::Output);
    returning_keeps_frames(s.input, n);
    returning_keeps_frames(s.input.all_returned(), n);
    if s.codec_started && !s.dead {
        match stopping {
            QueueDirection::Output => {
                let answer = choose|answer: Result<(), i32>|
                    d2 == (#[trigger] flushed(d, s, answer)).0 && s2 == flushed(
                        d,
                        s,
                        answer,
                    ).1.output_stopped();
                assert(s2.codec.len() <= s.codec.len() + 2);
            },
            QueueDirection::Capture => {
                let events = choose|events: Seq<EncoderEvent>|
                    d2 == (#[trigger] stopped(d, s, events)).0 && s2 == stopped(
                        d,
                        s,
                        events,
                    ).1.capture_stopped();
                let t = s.torn_down(events);
                done_inputs_leave_the_rest(d, t, events);
                done_inputs_keep_frames(d, t, events);
                let s1 = inputs_done(d, t, events).1;
                assert forall|i: int| 0 <= i < s2.input.buffers.len() implies holds(
                    #[trigger] s2.input.buffers[i],
                    n,
                ) by {
                    assert(holds(s1.input.buffers[i], n));
                }
            },
        }
    }
}

/// Starting the codec lends whole frames.
proof fn starting_keeps_frames<GM, H, S, K>(
    d: DeviceView<GM, H, S, K>,
    s: SessionView<GM, H>,
    d2: DeviceView<GM, H, S, K>,
    s2: SessionView<GM, H>,
    r: Result<(), i32>,
)
    requires
        starts(d, s, d2, s2, r),
        holds_frames(s),
        pending_queued(s.input),
    ensures
        keeps_frames(s, s2),
{
    if s.running() {
        if s.codec_started {
            feeding_keeps_frames(d, s, d2, s2, r);
        } else {
            let answer = choose|answer: Result<(), i32>|
                {
                    let s1 = #[trigger] asked_to_start(d, s, answer);
                    match answer {
                        Ok(_) => feeds(d, SessionView { codec_started: true, ..s1 }, d2, s2, r),
                        Err(e) => r == Err::<(), i32>(e) && d2 == d && s2 == s1,
                    }
                };
            let s1 = asked_to_start(d, s, answer);
            if answer is Ok {
                let t = SessionView { codec_started: true, ..s1 };
                feeding_keeps_frames(d, t, d2, s2, r);
                assert(s2.codec[s.codec.len() as int] == t.codec[s.codec.len() as int]);
            }
        }
    }
}

/// A queued buffer holds a frame where the queueing was not refused.
proof fn queueing_keeps_frames<GM, H, S, K>(
    d: DeviceView<GM, H, S, K>,
    s: SessionView<GM, H>,
    buffer: V4l2Buffer,
    regions: Seq<Seq<SgEntry>>,
    payload: PayloadValidity,
    d2: DeviceView<GM, H, S, K>,
    s2: SessionView<GM, H>,
    r: Result<V4l2Buffer, i32>,
)
    requires
        s.wf(),
        holds_frames(s),
        queued(d, s, buffer, regions, payload, d2, s2, r),
    ensures
        keeps_frames(s, s2),
{
    if s2 != s {
        let n = s.sizeimage(QueueDirection::Output);
        let to = buffer.queue.video_mplane_direction()->0;
        let b = s.queue(to).buffers[buffer.index as int];
        let v = queued_description(b, buffer, to);
        let (d1, backing, fed) = match b.backing {
            Backing::Host { .. } => {
                let fed = choose|fed: Result<(), i32>| #[trigger]
                    feeds(d, enqueued(s, to, buffer, b.backing), d2, s2, fed) && r
                        == queueing_answer(v, fed);
                (d, b.backing, fed)
            },
            Backing::Guest(_) => {
                let answer = choose|answer: Result<GuestMapping<GM>, Option<GuestMappingError>>|
                    #[trigger]
                    queued_if_mapped(d, s, to, buffer, regions[0], v, answer, d2, s2, r);
                let d1 = mapping_asked(d, to, regions[0], answer);
                let backing = Backing::Guest(Some(answer->Ok_0));
                let fed = choose|fed: Result<(), i32>| #[trigger]
                    feeds(d1, enqueued(s, to, buffer, backing), d2, s2, fed) && r
                        == queueing_answer(v, fed);
                (d1, backing, fed)
            },
        };
        let t = enqueued(s, to, buffer, backing);
        assert(queueing_refused(s, to, buffer, regions.len() as int, payload) is None);
        assert forall|i: int| 0 <= i < t.input.buffers.len() implies holds(
            #[trigger] t.input.buffers[i],
            n,
        ) by {
            assert(holds(s.input.buffers[i], n));
        }
        assert(pending_queued(t.input)) by {
            let q = s.input;
            let q2 = t.input;
            assert forall|k: int| 0 <= k < q2.pending.len() implies (#[trigger] q2.pending[k])
                < q2.buffers.len() && q2.buffers[q2.pending[k] as int].queued by {
                if k < q.pending.len() {
                    assert(q.pending[k] == q2.pending[k]);
                }
            }
        }
        feeding_keeps_frames(d1, t, d2, s2, fed);
    }
}

/// Resuming after a drain lends whole frames.
proof fn commanding_keeps_frames<GM, H, S, K>(
    d: DeviceView<GM, H, S, K>,
    s: SessionView<GM, H>,
    cmd: EncoderCmd,
    d2: DeviceView<GM, H, S, K>,
    s2: SessionView<GM, H>,
    r: Result<EncoderCmd, i32>,
)
    requires
        s.wf(),
        holds_frames(s),
        commanded(d, s, cmd, d2, s2, r),
    ensures
        keeps_frames(s, s2),
{
    let size = s.sizeimage(QueueDirection::Output);
    if s2 != s && cmd.cmd == ENC_CMD_START {
        let n = normalized(cmd)->Ok_0;
        let answer = choose|answer: Result<(), i32>|
            {
                let s1 = #[trigger] resumed(s, answer);
                match answer {
                    Ok(_) => exists|fed: Result<(), i32>| #[trigger]
                        feeds(d, s1, d2, s2, fed) && r == command_answer(n, fed),
                    Err(e) => r == Err::<EncoderCmd, i32>(e) && d2 == d && s2 == s1,
                }
            };
        let s1 = resumed(s, answer);
        if answer is Ok {
            let fed = choose|fed: Result<(), i32>| #[trigger]
                feeds(d, s1, d2, s2, fed) && r == command_answer(n, fed);
            assert forall|i: int| 0 <= i < s1.input.buffers.len() implies holds(
                #[trigger] s1.input.buffers[i],
                size,
            ) by {
                assert(holds(s.input.buffers[i], size));
            }
            assert(pending_queued(s1.input)) by {
                let q = s.input;
                let q2 = s1.input;
                assert forall|k: int| 0 <= k < q2.pending.len() implies (#[trigger] q2.pending[k])
                    < q2.buffers.len() && q2.buffers[q2.pending[k] as int].queued by {
                    if k < q.lending.len() {
                        assert(q2.pending[k] == q.lending[k]);
                        assert(q.buffers[q.lending[k] as int].wf(
                            q.lending[k] as int,
                            QueueType::VideoOutputMplane,
                            q.memory->0,
                        ));
                    } else {
                        assert(q2.pending[k] == q.pending[k - q.lending.len()]);
                    }
                }
            }
            feeding_keeps_frames(d, s1, d2, s2, fed);
            assert(s2.codec[s.codec.len() as int] == s1.codec[s.codec.len() as int]);
        }
    }
}

/// New buffers of `size` bytes hold a frame that is no larger.
proof fn adding_keeps_frames<GM, H, S, K>(
    d: DeviceView<GM, H, S, K>,
    s: SessionView<GM, H>,
    queue: QueueType,
    direction: QueueDirection,
    memory: MemoryType,
    count: int,
    size: u32,
    d2: DeviceView<GM, H, S, K>,
    s2: SessionView<GM, H>,
    r: Result<(), i32>,
)
    requires
        holds_frames(s),
        queue.video_mplane_direction() == Some(direction),
        s.sizeimage(direction) <= size,
        buffers_added(d, s, queue, direction, memory, count, size, d2, s2, r),
        allocates_in_full(d.pool.len() as int, d2.pool),
    ensures
        keeps_frames(s, s2),
{
    let n = s.sizeimage(QueueDirection::Output);
    if r is Ok && direction == QueueDirection::Output {
        let first = s.input.buffers.len() as int;
        let added = s2.input.buffers.skip(first);
        assert forall|i: int| 0 <= i < s2.input.buffers.len() implies holds(
            #[trigger] s2.input.buffers[i],
            n,
        ) by {
            if i < first {
                assert(holds(s.input.buffers[i], n));
            } else {
                let k = i - first;
                assert(is_fresh(added[k], first + k, queue, memory, size));
                if memory == MemoryType::Mmap {
                    assert(d2.pool[d.pool.len() + k] == allocations(added, size)[k]);
                }
            }
        }
    }
}

/// Replacing or freeing the buffers of a queue keeps what raw frame buffers hold.
proof fn requesting_keeps_frames<GM, H, S, K>(
    d: DeviceView<GM, H, S, K>,
    s: SessionView<GM, H>,
    queue: QueueType,
    memory: MemoryType,
    count: u32,
    d2: DeviceView<GM, H, S, K>,
    s2: SessionView<GM, H>,
    r: Result<RequestBuffers, i32>,
)
    requires
        holds_frames(s),
        requested(d, s, queue, memory, count, d2, s2, r),
        allocates_in_full(d.pool.len() as int, d2.pool),
    ensures
        keeps_frames(s, s2),
{
    if queue.video_mplane_direction() is Some && allocation_refused(d, s, memory, count) is None {
        let to = queue.video_mplane_direction()->0;
        if count == 0 {
            let (d1, s1) = choose|d1: DeviceView<GM, H, S, K>, s1: SessionView<GM, H>| #[trigger]
                stream_off(d, s, to, d1, s1) && (d2, s2) == all_freed(d1, s1, to);
            stopping_keeps_frames(d, s, to, d1, s1);
        } else if !s.streaming(to) {
            let d1 = freed(d, s.queue(to).buffers);
            let s1 = s.with_queue(to, empty_queue());
            freeing_only_releases(d, s.queue(to).buffers);
            let done = match r {
                Ok(_) => Ok(()),
                Err(e) => Err(e),
            };
            nv12_bytes_fit(s.coded_size.0 as int, s.coded_size.1 as int);
            adding_keeps_frames(
                d1,
                s1,
                queue,
                to,
                memory,
                min(count as int, MAX_BUFFERS as int),
                s.sizeimage(to) as u32,
                d2,
                s2,
                done,
            );
        }
    }
}

/// Freeing buffers adds to the record of what was asked of the allocator.
proof fn freeing_only_releases<GM, H, S, K>(
    d: DeviceView<GM, H, S, K>,
    buffers: Seq<Buffer<GM, H>>,
)
    ensures
        continued(d.pool, freed(d, buffers).pool),
    decreases buffers.len(),
{
    if buffers.len() > 0 {
        freeing_only_releases(d, buffers.drop_last());
    }
}

/// Preparing a buffer keeps what raw frame buffers hold.
proof fn preparing_keeps_frames<GM, H>(
    s: SessionView<GM, H>,
    buffer: V4l2Buffer,
    payload: PayloadValidity,
    s2: SessionView<GM, H>,
    r: Result<V4l2Buffer, i32>,
)
    requires
        s.wf(),
        holds_frames(s),
        prepared(s, buffer, payload, s2, r),
    ensures
        keeps_frames(s, s2),
{
    let n = s.sizeimage(QueueDirection::Output);
    assert forall|i: int| 0 <= i < s2.input.buffers.len() implies holds(
        #[trigger] s2.input.buffers[i],
        n,
    ) by {
        assert(holds(s.input.buffers[i], n));
        if s2 != s && i == buffer.index && buffer.queue == QueueType::VideoOutputMplane {
            assert(s.input.buffers[i].wf(i, QueueType::VideoOutputMplane, buffer.memory));
        }
    }
}

/// Setting a format leaves the raw frame buffers as they are: their size is only changed while
/// there are none.
proof fn formats_keep_frames<GM, H, S, K>(
    d: DeviceView<GM, H, S, K>,
    s: SessionView<GM, H>,
    queue: QueueType,
    format: V4l2Format,
    s2: SessionView<GM, H>,
    r: Result<V4l2Format, i32>,
)
    requires
        holds_frames(s),
        set_format(d, s, queue, format, s2, r),
    ensures
        keeps_frames(s, s2),
{
}

/// Every raw frame the codec is lent is at least one whole frame of the coded size, whatever the
/// guest asks for: a buffer is created no smaller, the guest's own memory is mapped no shorter, and
/// the size does not change under the buffers. The allocator is taken to give as much as it is
/// asked for.
pub proof fn whole_frames_are_lent<GM, H, S, K>(
    d: DeviceView<GM, H, S, K>,
    s: SessionView<GM, H>,
    request: IoctlRequest,
    d2: DeviceView<GM, H, S, K>,
    s2: SessionView<GM, H>,
    reply: IoctlReply,
)
    requires
        d.fits(s),
        holds_frames(s),
        encoder_answers(d, s, request, d2, s2, reply),
        allocates_in_full(d.pool.len() as int, d2.pool),
    ensures
        holds_frames(s2),
        lends_whole_frames(s.codec.len() as int, s2.codec, s.sizeimage(QueueDirection::Output)),
{
    match request {
        IoctlRequest::SFmt { queue, format } => {
            formats_keep_frames(d, s, queue, format, s2, reply.format());
        },
        IoctlRequest::ReqBufs { queue, memory, count } => {
            requesting_keeps_frames(d, s, queue, memory, count, d2, s2, reply.requestbuffers());
        },
        IoctlRequest::CreateBufs { count, queue, memory, format } => {
            let r = reply.create_buffers();
            if s2 != s {
                let to = queue.video_mplane_direction()->0;
                let done = match r {
                    Ok(_) => Ok(()),
                    Err(e) => Err(e),
                };
                adding_keeps_frames(
                    d,
                    s,
                    queue,
                    to,
                    memory,
                    min(count as int, MAX_BUFFERS - s.queue(to).buffers.len()),
                    format.fmt->PixMp_0.plane0.sizeimage,
                    d2,
                    s2,
                    done,
                );
            }
        },
        IoctlRequest::PrepareBuf { input } => {
            preparing_keeps_frames(s, input.buffer, input.payload, s2, reply.buffer());
        },
        IoctlRequest::QBuf { input } => {
            queueing_keeps_frames(
                d,
                s,
                input.buffer,
                scatter_lists(input.guest_regions@),
                input.payload,
                d2,
                s2,
                reply.buffer(),
            );
        },
        IoctlRequest::StreamOn { queue } => {
            let r = reply.done();
            if s2 != s {
                let to = queue.video_mplane_direction()->0;
                let t = s.with_streaming(to, true);
                let s1 = choose|s1: SessionView<GM, H>|
                    #![trigger left_streaming(s, s1, r)]
                    starts(d, t, d2, s1, r) && s2 == left_streaming(s, s1, r);
                starting_keeps_frames(d, t, d2, s1, r);
            }
        },
        IoctlRequest::StreamOff { queue } => {
            if queue.video_mplane_direction() is Some {
                stopping_keeps_frames(d, s, queue.video_mplane_direction()->0, d2, s2);
            }
        },
        IoctlRequest::EncoderCmd { cmd } => {
            commanding_keeps_frames(d, s, cmd, d2, s2, reply.encoder_cmd());
        },
        IoctlRequest::SExtCtrls { which, input } => {
            if s2 != s {
                let (values, answers) = choose|values: Seq<i32>, answers: Seq<Result<(), i32>>|
                    #[trigger]
                    set_applied(
                        d,
                        s,
                        which,
                        input.ctrls,
                        input.ctrl_array@,
                        values,
                        answers,
                        s2,
                        reply.header(),
                        reply.controls(),
                        reply.done(),
                    );
                controls_lend_nothing(d, s, input.ctrl_array@, values, answers);
            }
        },
        _ => {},
    }
}

/// Applying a set of controls lends nothing and leaves the buffers and the coded size.
proof fn controls_lend_nothing<GM, H, S, K>(
    d: DeviceView<GM, H, S, K>,
    s: SessionView<GM, H>,
    ctrls: Seq<ExtControl>,
    values: Seq<i32>,
    answers: Seq<Result<(), i32>>,
)
    ensures
        ({
            let t = applied_set(d, s, ctrls, values, answers).0;
            &&& t.input == s.input
            &&& t.coded_size == s.coded_size
            &&& continued(s.codec, t.codec)
            &&& forall|k: int|
                s.codec.len() <= k < t.codec.len() ==> !(#[trigger] t.codec[k] is Encode)
        }),
    decreases answers.len(),
{
    if answers.len() > 0 {
        controls_lend_nothing(d, s, ctrls, values, answers.drop_last());
    }
}

/// What the codec reports does not change that every raw frame buffer holds a frame, and lends
/// nothing.
pub proof fn reports_keep_whole_frames<GM, H, S, K>(
    d: DeviceView<GM, H, S, K>,
    s: SessionView<GM, H>,
    events: Seq<EncoderEvent>,
)
    requires
        holds_frames(s),
    ensures
        holds_frames(all_handled(d, s, events).1),
        forall|k: int|
            s.codec.len() <= k < all_handled(d, s, events).1.codec.len() ==> !(
            #[trigger] all_handled(d, s, events).1.codec[k] is Encode),
    decreases events.len(),
{
    if events.len() > 0 && !s.dead {
        handling_keeps_frames(d, s, events[0]);
        let (d1, s1) = handled(d, s, events[0]);
        reports_keep_whole_frames(d1, s1, events.skip(1));
        if events[0] is Error {
            assert(all_handled(d1, s1, events.skip(1)) == (d1, s1));
        }
    }
}

/// A session that has just been opened has no buffers, so what they hold is enough.
pub proof fn fresh_sessions_hold_frames<GM, H, S, K>(
    d: DeviceView<GM, H, S, K>,
    id: u32,
    wake: i32,
)
    ensures
        holds_frames(fresh_session::<GM, H, S, K>(d, id, wake)),
{
}

} // verus!
