//! What the codec has: every buffer it was lent, until it reported to be done with it or was made
//! to let go. The device marks all of them as lent, and takes none of them back.
use vstd::prelude::*;

use super::backend::{
    let_go, lends, lets_go, reports, BackendCall, CodecCall, EncoderEvent,
};
use super::controls::MAX_BUFFERS;
use super::buffer_ioctls::{
    all_freed, allocation_refused, enqueued, mapping_asked, queued, queued_description,
    queued_if_mapped, queueing_answer, requested, scatter_lists,
};
use super::buffers::idle_queues_lend_nothing;
use super::codec::{
    all_handled, events_processed, feeds, handled, processed, refused_loan, stopped,
};
use super::config::{asked_to_start, starts};
use super::control_ioctls::{applied_set, set_applied};
use super::device::DeviceView;
use super::ioctls::encoder_answers;
use super::laws::{done_inputs_leave_the_rest, stopping_returns_every_buffer};
use super::lifecycle::{closed, fresh_session};
use super::queue::{
    may_take_back, none_lent, nothing_lent_without_a_codec, Backing, QueueView,
};
use super::session::SessionView;
use super::stream_ioctls::{
    command_answer, commanded, flushed, left_streaming, normalized, resumed, stream_off,
    ENC_CMD_START,
};
use crate::host::{continued, GuestMapping, GuestMappingError};
use crate::ioctl::reply::IoctlReply;
use crate::ioctl::requests::IoctlRequest;
use crate::ioctl::types::{EncoderCmd, ExtControl, RequestBuffers};
use crate::payload::PayloadValidity;
use crate::protocol::SgEntry;
use crate::v4l2::{MemoryType, QueueDirection, QueueType, V4l2Buffer};

verus! {

/// Whether the codec let go of the buffers of a queue after the first `from` calls.
pub open spec fn let_go_since(from: int, calls: Seq<CodecCall>, direction: QueueDirection) -> bool {
    exists|k: int| from <= k < calls.len() && lets_go(#[trigger] calls[k], direction)
}

/// Whether the codec reported to be done with a buffer of a queue.
pub open spec fn reported(events: Seq<EncoderEvent>, direction: QueueDirection, i: int) -> bool {
    exists|k: int| 0 <= k < events.len() && reports(#[trigger] events[k], direction, i)
}

/// Whether a call lends the codec a buffer of a queue, and it takes it.
pub open spec fn lent_by(call: CodecCall, direction: QueueDirection, i: int) -> bool {
    match call {
        CodecCall::Encode { buffer, answer } => direction == QueueDirection::Output && buffer.index
            == i && answer is Ok,
        CodecCall::UseAsCapture { frame, answer } => direction == QueueDirection::Capture
            && frame.index == i && answer is Ok,
        _ => false,
    }
}

/// Whether the codec gives a buffer of a queue up by a call: it is made to let go of the queue, or
/// it reports to be done with the buffer.
pub open spec fn gives_up(call: CodecCall, direction: QueueDirection, i: int) -> bool {
    ||| lets_go(call, direction)
    ||| call matches CodecCall::TakeEvents { events } && reported(events, direction, i)
}

/// Whether the codec did not give a buffer of a queue up after call number `k`.
pub open spec fn kept_since(
    k: int,
    calls: Seq<CodecCall>,
    direction: QueueDirection,
    i: int,
) -> bool {
    forall|j: int| k < j < calls.len() ==> !gives_up(#[trigger] calls[j], direction, i)
}

/// Whether the codec has a buffer of a queue: it was lent it, and has not given it up since.
pub open spec fn with_codec(calls: Seq<CodecCall>, direction: QueueDirection, i: int) -> bool {
    exists|k: int|
        0 <= k < calls.len() && #[trigger] lent_by(calls[k], direction, i) && kept_since(
            k,
            calls,
            direction,
            i,
        )
}

/// Whether every buffer of a queue that the codec has is marked as lent.
pub open spec fn marked<GM, H>(s: SessionView<GM, H>, direction: QueueDirection) -> bool {
    forall|i: int| #[trigger]
        with_codec(s.codec, direction, i) ==> 0 <= i < s.queue(direction).buffers.len() && s.queue(
            direction,
        ).buffers[i].lent
}

/// Whether every buffer that the codec has is marked as lent.
pub open spec fn keeps_track<GM, H>(s: SessionView<GM, H>) -> bool {
    marked(s, QueueDirection::Output) && marked(s, QueueDirection::Capture)
}

/// Whether nothing of a queue was lent after the first `from` calls.
pub open spec fn no_loans(from: int, calls: Seq<CodecCall>, direction: QueueDirection) -> bool {
    forall|k: int| from <= k < calls.len() ==> !lends(#[trigger] calls[k], direction)
}

/// Whether what was lent of a queue after the first `from` calls, and not given up, is marked as
/// lent.
pub open spec fn loans_marked<GM, H>(
    from: int,
    s: SessionView<GM, H>,
    direction: QueueDirection,
) -> bool {
    forall|k: int, i: int|
        from <= k < s.codec.len() && #[trigger] lent_by(s.codec[k], direction, i) && kept_since(
            k,
            s.codec,
            direction,
            i,
        ) ==> 0 <= i < s.queue(direction).buffers.len() && s.queue(direction).buffers[i].lent
}

/// Whether a buffer is the same before and after: still with the codec, its memory still mapped.
pub open spec fn untouched<GM, H>(q: QueueView<GM, H>, q2: QueueView<GM, H>, i: int) -> bool {
    i < q2.buffers.len() && q2.buffers[i] == q.buffers[i]
}

/// Whether every buffer of a queue the codec has is untouched.
pub open spec fn loans_untouched<GM, H>(q: QueueView<GM, H>, q2: QueueView<GM, H>) -> bool {
    forall|i: int|
        0 <= i < q.buffers.len() && (#[trigger] q.buffers[i]).lent ==> untouched(q, q2, i)
}

/// Whether an operation leaves what is lent of a queue with the codec, unless it had the codec let
/// go, and marks what it lends.
pub open spec fn keeps_loans<GM, H>(
    s: SessionView<GM, H>,
    s2: SessionView<GM, H>,
    direction: QueueDirection,
) -> bool {
    &&& continued(s.codec, s2.codec)
    &&& let_go_since(s.codec.len() as int, s2.codec, direction) || loans_untouched(
        s.queue(direction),
        s2.queue(direction),
    )
    &&& loans_marked(s.codec.len() as int, s2, direction)
}

/// Whether the pending buffers are some of the queue's, and none is with the codec.
pub open spec fn pending_apart<GM, H>(q: QueueView<GM, H>) -> bool {
    &&& q.buffers.len() <= MAX_BUFFERS
    &&& forall|k: int| 0 <= k < q.pending.len() ==> (#[trigger] q.pending[k]) < q.buffers.len()
    &&& forall|i: int|
        0 <= i < q.buffers.len() && (#[trigger] q.buffers[i]).lent ==> !q.pending.contains(
            i as usize,
        )
}

/// A consistent queue's pending buffers are not with the codec.
proof fn pending_is_apart<GM, H>(q: QueueView<GM, H>, queue: QueueType)
    requires
        q.wf(queue),
    ensures
        pending_apart(q),
{
}

/// Lending more leaves what was lent before.
proof fn lending_keeps_loans<GM, H>(q: QueueView<GM, H>, k: int)
    requires
        pending_apart(q),
        0 <= k <= q.pending.len(),
    ensures
        loans_untouched(q, q.first_loaned(k)),
{
    let q2 = q.first_loaned(k);
    assert forall|i: int| 0 <= i < q.buffers.len() && (#[trigger] q.buffers[i]).lent implies
        untouched(q, q2, i) by {
        let t = q.pending.take(k);
        if t.contains(i as usize) {
            let j = choose|j: int| 0 <= j < t.len() && t[j] == i as usize;
            assert(q.pending[j] == i as usize);
        }
    }
}

/// Lending what waits leaves what was lent before, unless a refusal ends the session.
proof fn feeding_keeps_loans<GM, H, S, K>(
    d: DeviceView<GM, H, S, K>,
    s: SessionView<GM, H>,
    d2: DeviceView<GM, H, S, K>,
    s2: SessionView<GM, H>,
    r: Result<(), i32>,
    direction: QueueDirection,
)
    requires
        feeds(d, s, d2, s2, r),
        pending_apart(s.input),
        pending_apart(s.output),
    ensures
        keeps_loans(s, s2, direction),
{
    if s.feeding() {
        match r {
            Ok(_) => {
                lending_keeps_loans(s.input, s.input.pending.len() as int);
                lending_keeps_loans(s.output, s.output.pending.len() as int);
                lending_marks_loans(s, direction);
            },
            Err(_) => {
                let (k, errno) = choose|k: int, errno: i32|
                    0 <= k < s.waiting() && s2 == #[trigger] refused_loan(s, k, errno);
                let last = s2.codec.len() - 1;
                assert(s2.codec[last] == CodecCall::Stop);
                assert forall|k: int, i: int|
                    s.codec.len() <= k < s2.codec.len() && #[trigger] lent_by(
                        s2.codec[k],
                        direction,
                        i,
                    ) implies !kept_since(k, s2.codec, direction, i) by {
                    assert(gives_up(s2.codec[last], direction, i));
                }
            },
        }
    }
}

/// Lending everything that waits marks it.
proof fn lending_marks_loans<GM, H>(s: SessionView<GM, H>, direction: QueueDirection)
    requires
        pending_apart(s.input),
        pending_apart(s.output),
    ensures
        loans_marked(s.codec.len() as int, s.all_loaned(), direction),
{
    let s2 = s.all_loaned();
    let n = s.codec.len() as int;
    let outs = s.output.pending;
    let ins = s.input.pending;
    assert forall|k: int, i: int|
        n <= k < s2.codec.len() && #[trigger] lent_by(
            s2.codec[k],
            direction,
            i,
        ) implies 0 <= i < s2.queue(direction).buffers.len() && s2.queue(
        direction,
    ).buffers[i].lent by {
        let j = k - n;
        assert(s2.codec[k] == s.loan(j, Ok(())));
        if j < outs.len() {
            assert(i == outs[j]);
            assert(outs.take(outs.len() as int)[j] == i as usize);
        } else {
            assert(i == ins[j - outs.len()]);
            assert(ins.take(ins.len() as int)[j - outs.len()] == i as usize);
        }
    }
}

/// Stopping a queue has the codec let go of it first, if it has anything of it.
proof fn stopping_lets_go_first<GM, H, S, K>(
    d: DeviceView<GM, H, S, K>,
    s: SessionView<GM, H>,
    stopping: QueueDirection,
    d2: DeviceView<GM, H, S, K>,
    s2: SessionView<GM, H>,
    direction: QueueDirection,
)
    requires
        s.wf(),
        stream_off(d, s, stopping, d2, s2),
    ensures
        keeps_loans(s, s2, direction),
        no_loans(s.codec.len() as int, s2.codec, direction),
{
    nothing_lent_without_a_codec(s.input);
    nothing_lent_without_a_codec(s.output);
    if s.codec_started && !s.dead {
        match stopping {
            QueueDirection::Output => {
                let answer = choose|answer: Result<(), i32>|
                    d2 == (#[trigger] flushed(d, s, answer)).0 && s2 == flushed(
                        d,
                        s,
                        answer,
                    ).1.output_stopped();
                if answer is Ok {
                    assert(lets_go(s2.codec[s.codec.len() as int], QueueDirection::Output));
                } else {
                    assert(s2.codec[s.codec.len() as int + 1] == CodecCall::Stop);
                }
            },
            QueueDirection::Capture => {
                let events = choose|events: Seq<EncoderEvent>|
                    d2 == (#[trigger] stopped(d, s, events)).0 && s2 == stopped(
                        d,
                        s,
                        events,
                    ).1.capture_stopped();
                done_inputs_leave_the_rest(d, s.torn_down(events), events);
                assert(s2.codec[s.codec.len() as int] == CodecCall::Stop);
            },
        }
    }
}

/// Starting the codec leaves what it was lent before.
proof fn starting_keeps_loans<GM, H, S, K>(
    d: DeviceView<GM, H, S, K>,
    s: SessionView<GM, H>,
    d2: DeviceView<GM, H, S, K>,
    s2: SessionView<GM, H>,
    r: Result<(), i32>,
    direction: QueueDirection,
)
    requires
        starts(d, s, d2, s2, r),
        pending_apart(s.input),
        pending_apart(s.output),
    ensures
        keeps_loans(s, s2, direction),
{
    if s.running() {
        if s.codec_started {
            feeding_keeps_loans(d, s, d2, s2, r, direction);
        } else {
            let answer = choose|answer: Result<(), i32>|
                {
                    let s1 = #[trigger] asked_to_start(d, s, answer);
                    match answer {
                        Ok(_) => feeds(d, SessionView { codec_started: true, ..s1 }, d2, s2, r),
                        Err(e) => r == Err::<(), i32>(e) && d2 == d && s2 == s1,
                    }
                };
            let s1 = asked_to_start(d, s, answer);
            if answer is Ok {
                let t = SessionView { codec_started: true, ..s1 };
                feeding_keeps_loans(d, t, d2, s2, r, direction);
                after_more_calls(s, t, s2, direction);
            }
        }
    }
}

/// Calls that lend nothing do not change what an operation after them has to mark.
proof fn marking_after_more_calls<GM, H>(
    from: int,
    t: SessionView<GM, H>,
    s2: SessionView<GM, H>,
    direction: QueueDirection,
)
    requires
        continued(t.codec, s2.codec),
        0 <= from,
        no_loans(from, t.codec, direction),
        loans_marked(t.codec.len() as int, s2, direction),
    ensures
        loans_marked(from, s2, direction),
{
    assert forall|k: int, i: int|
        from <= k < s2.codec.len() && #[trigger] lent_by(s2.codec[k], direction, i) implies k
        >= t.codec.len() by {
        if k < t.codec.len() {
            assert(s2.codec[k] == t.codec[k]);
            assert(!lends(t.codec[k], direction));
        }
    }
}

/// Calls that touch no buffer do not change what an operation after them keeps.
proof fn after_more_calls<GM, H>(
    s: SessionView<GM, H>,
    t: SessionView<GM, H>,
    s2: SessionView<GM, H>,
    direction: QueueDirection,
)
    requires
        continued(s.codec, t.codec),
        no_loans(s.codec.len() as int, t.codec, direction),
        loans_untouched(s.queue(direction), t.queue(direction)),
        keeps_loans(t, s2, direction),
    ensures
        keeps_loans(s, s2, direction),
{
    marking_after_more_calls(s.codec.len() as int, t, s2, direction);
    if let_go_since(t.codec.len() as int, s2.codec, direction) {
        let k = choose|k: int|
            t.codec.len() <= k < s2.codec.len() && lets_go(#[trigger] s2.codec[k], direction);
        assert(lets_go(s2.codec[k], direction));
    } else {
        let q = s.queue(direction);
        assert forall|i: int| 0 <= i < q.buffers.len() && (#[trigger] q.buffers[i]).lent implies
            untouched(q, s2.queue(direction), i) by {
            assert(t.queue(direction).buffers[i] == q.buffers[i]);
        }
    }
}

/// A set of controls is applied without touching a buffer.
pub proof fn controls_touch_no_buffer<GM, H, S, K>(
    d: DeviceView<GM, H, S, K>,
    s: SessionView<GM, H>,
    ctrls: Seq<ExtControl>,
    values: Seq<i32>,
    answers: Seq<Result<(), i32>>,
)
    ensures
        ({
            let t = applied_set(d, s, ctrls, values, answers).0;
            &&& t.input == s.input && t.output == s.output
            &&& continued(s.codec, t.codec)
            &&& forall|direction: QueueDirection| #[trigger]
                no_loans(s.codec.len() as int, t.codec, direction)
        }),
    decreases answers.len(),
{
    if answers.len() > 0 {
        controls_touch_no_buffer(d, s, ctrls, values, answers.drop_last());
        let b = applied_set(d, s, ctrls, values, answers.drop_last()).0;
        let t = applied_set(d, s, ctrls, values, answers).0;
        assert forall|direction: QueueDirection| #[trigger]
            no_loans(s.codec.len() as int, t.codec, direction) by {
            assert(no_loans(s.codec.len() as int, b.codec, direction));
            assert forall|k: int| s.codec.len() <= k < t.codec.len() implies !lends(
                #[trigger] t.codec[k],
                direction,
            ) by {
                if k < b.codec.len() {
                    assert(t.codec[k] == b.codec[k]);
                }
            }
        }
    }
}

/// Queueing a buffer leaves what was lent before.
proof fn queueing_keeps_loans<GM, H, S, K>(
    d: DeviceView<GM, H, S, K>,
    s: SessionView<GM, H>,
    buffer: V4l2Buffer,
    regions: Seq<Seq<SgEntry>>,
    payload: PayloadValidity,
    d2: DeviceView<GM, H, S, K>,
    s2: SessionView<GM, H>,
    r: Result<V4l2Buffer, i32>,
    direction: QueueDirection,
)
    requires
        s.wf(),
        queued(d, s, buffer, regions, payload, d2, s2, r),
    ensures
        keeps_loans(s, s2, direction),
{
    if s2 != s {
        let to = buffer.queue.video_mplane_direction()->0;
        let b = s.queue(to).buffers[buffer.index as int];
        let (d1, backing, fed) = match b.backing {
            Backing::Host { .. } => {
                let fed = choose|fed: Result<(), i32>| #[trigger]
                    feeds(d, enqueued(s, to, buffer, b.backing), d2, s2, fed) && r
                        == queueing_answer(
                        queued_description(b, buffer, to),
                        fed,
                    );
                (d, b.backing, fed)
            },
            Backing::Guest(_) => {
                let v = queued_description(b, buffer, to);
                let answer = choose|answer: Result<GuestMapping<GM>, Option<GuestMappingError>>|
                    #[trigger]
                    queued_if_mapped(d, s, to, buffer, regions[0], v, answer, d2, s2, r);
                let d1 = mapping_asked(d, to, regions[0], answer);
                let backing = Backing::Guest(Some(answer->Ok_0));
                let fed = choose|fed: Result<(), i32>| #[trigger]
                    feeds(d1, enqueued(s, to, buffer, backing), d2, s2, fed) && r
                        == queueing_answer(v, fed);
                (d1, backing, fed)
            },
        };
        let t = enqueued(s, to, buffer, backing);
        pending_is_apart(s.input, QueueType::VideoOutputMplane);
        pending_is_apart(s.output, QueueType::VideoCaptureMplane);
        assert(pending_apart(t.queue(to))) by {
            let q = s.queue(to);
            let q2 = t.queue(to);
            assert forall|i: int|
                0 <= i < q2.buffers.len() && (
                #[trigger] q2.buffers[i]).lent implies !q2.pending.contains(i as usize) by {
                assert(q.buffers[i].lent);
                if q2.pending.contains(i as usize) {
                    let k = choose|k: int| 0 <= k < q2.pending.len() && q2.pending[k] == i as usize;
                    if k < q.pending.len() {
                        assert(q.pending[k] == i as usize);
                    }
                }
            }
        }
        feeding_keeps_loans(d1, t, d2, s2, fed, direction);
        after_more_calls(s, t, s2, direction);
    }
}

/// Freeing the buffers of a queue, and adding new ones, has the codec let go of them first if it
/// has any.
proof fn requesting_keeps_loans<GM, H, S, K>(
    d: DeviceView<GM, H, S, K>,
    s: SessionView<GM, H>,
    queue: QueueType,
    memory: MemoryType,
    count: u32,
    d2: DeviceView<GM, H, S, K>,
    s2: SessionView<GM, H>,
    r: Result<RequestBuffers, i32>,
    direction: QueueDirection,
)
    requires
        d.fits(s),
        requested(d, s, queue, memory, count, d2, s2, r),
    ensures
        keeps_loans(s, s2, direction),
{
    if queue.video_mplane_direction() is Some && allocation_refused(d, s, memory, count) is None {
        let to = queue.video_mplane_direction()->0;
        if count == 0 {
            let (d1, s1) = choose|d1: DeviceView<GM, H, S, K>, s1: SessionView<GM, H>| #[trigger]
                stream_off(d, s, to, d1, s1) && (d2, s2) == all_freed(d1, s1, to);
            stopping_lets_go_first(d, s, to, d1, s1, direction);
            let q = s.queue(direction);
            if direction == to && !let_go_since(s.codec.len() as int, s2.codec, direction) {
                assert forall|i: int| 0 <= i < q.buffers.len() implies !(
                #[trigger] q.buffers[i]).lent by {
                    stopping_returns_every_buffer(d, s, to, d1, s1, i);
                }
            }
        } else if !s.streaming(to) {
            idle_queues_lend_nothing(d, s, to);
        }
    }
}

/// What the codec has been lent stays with it, mapped and unchanged, whatever the guest asks for,
/// unless the codec is joined in the course of it or, for raw frames, drops them; and what it is
/// lent is marked. That the codec lets go before a buffer is taken back is what the operations of
/// [`super::queue::Queue`] that take buffers back require.
pub proof fn loans_last_until_the_codec_lets_go<GM, H, S, K>(
    d: DeviceView<GM, H, S, K>,
    s: SessionView<GM, H>,
    request: IoctlRequest,
    d2: DeviceView<GM, H, S, K>,
    s2: SessionView<GM, H>,
    reply: IoctlReply,
    direction: QueueDirection,
)
    requires
        d.fits(s),
        encoder_answers(d, s, request, d2, s2, reply),
    ensures
        keeps_loans(s, s2, direction),
{
    pending_is_apart(s.input, QueueType::VideoOutputMplane);
    pending_is_apart(s.output, QueueType::VideoCaptureMplane);
    match request {
        IoctlRequest::ReqBufs { queue, memory, count } => {
            requesting_keeps_loans(
                d,
                s,
                queue,
                memory,
                count,
                d2,
                s2,
                reply.requestbuffers(),
                direction,
            );
        },
        IoctlRequest::QBuf { input } => {
            queueing_keeps_loans(
                d,
                s,
                input.buffer,
                scatter_lists(input.guest_regions@),
                input.payload,
                d2,
                s2,
                reply.buffer(),
                direction,
            );
        },
        IoctlRequest::StreamOn { queue } => {
            let r = reply.done();
            if s2 != s {
                let to = queue.video_mplane_direction()->0;
                let t = s.with_streaming(to, true);
                let s1 = choose|s1: SessionView<GM, H>|
                    #![trigger left_streaming(s, s1, r)]
                    starts(d, t, d2, s1, r) && s2 == left_streaming(s, s1, r);
                starting_keeps_loans(d, t, d2, s1, r, direction);
            }
        },
        IoctlRequest::StreamOff { queue } => {
            if queue.video_mplane_direction() is Some {
                stopping_lets_go_first(
                    d,
                    s,
                    queue.video_mplane_direction()->0,
                    d2,
                    s2,
                    direction,
                );
            }
        },
        IoctlRequest::EncoderCmd { cmd } => {
            commanding_keeps_loans(d, s, cmd, d2, s2, reply.encoder_cmd(), direction);
        },
        IoctlRequest::SExtCtrls { which, input } => {
            if s2 != s {
                let (values, answers) = choose|values: Seq<i32>, answers: Seq<Result<(), i32>>|
                    #[trigger]
                    set_applied(
                        d,
                        s,
                        which,
                        input.ctrls,
                        input.ctrl_array@,
                        values,
                        answers,
                        s2,
                        reply.header(),
                        reply.controls(),
                        reply.done(),
                    );
                controls_touch_no_buffer(d, s, input.ctrl_array@, values, answers);
                assert(no_loans(s.codec.len() as int, s2.codec, direction));
            }
        },
        _ => {},
    }
}

/// An encoder command leaves what the codec was lent, unless the codec has dropped its raw frames.
proof fn commanding_keeps_loans<GM, H, S, K>(
    d: DeviceView<GM, H, S, K>,
    s: SessionView<GM, H>,
    cmd: EncoderCmd,
    d2: DeviceView<GM, H, S, K>,
    s2: SessionView<GM, H>,
    r: Result<EncoderCmd, i32>,
    direction: QueueDirection,
)
    requires
        s.wf(),
        commanded(d, s, cmd, d2, s2, r),
    ensures
        keeps_loans(s, s2, direction),
{
    if s2 != s && cmd.cmd == ENC_CMD_START {
        let n = normalized(cmd)->Ok_0;
        let answer = choose|answer: Result<(), i32>|
            {
                let s1 = #[trigger] resumed(s, answer);
                match answer {
                    Ok(_) => exists|fed: Result<(), i32>| #[trigger]
                        feeds(d, s1, d2, s2, fed) && r == command_answer(n, fed),
                    Err(e) => r == Err::<EncoderCmd, i32>(e) && d2 == d && s2 == s1,
                }
            };
        let s1 = resumed(s, answer);
        if answer is Ok {
            let fed = choose|fed: Result<(), i32>| #[trigger]
                feeds(d, s1, d2, s2, fed) && r == command_answer(n, fed);
            pending_is_apart(s.output, QueueType::VideoCaptureMplane);
            feeding_keeps_loans(d, s1, d2, s2, fed, direction);
            if direction == QueueDirection::Output {
                assert(lets_go(s2.codec[s.codec.len() as int], direction));
                marking_after_more_calls(s.codec.len() as int, s1, s2, direction);
            } else {
                after_more_calls(s, s1, s2, direction);
            }
        }
    }
}

/// Events leave what the codec was lent, but for what they report done.
proof fn handling_keeps_loans<GM, H, S, K>(
    d: DeviceView<GM, H, S, K>,
    s: SessionView<GM, H>,
    events: Seq<EncoderEvent>,
    direction: QueueDirection,
    i: int,
)
    requires
        0 <= i < s.queue(direction).buffers.len(),
        s.queue(direction).buffers[i].lent,
    ensures
        ({
            let s2 = all_handled(d, s, events).1;
            &&& continued(s.codec, s2.codec)
            &&& untouched(s.queue(direction), s2.queue(direction), i) || reported(
                events,
                direction,
                i,
            ) || let_go_since(s.codec.len() as int, s2.codec, direction)
        }),
    decreases events.len(),
{
    if events.len() > 0 && !s.dead {
        let (d1, s1) = handled(d, s, events[0]);
        let rest = events.skip(1);
        if reports(events[0], direction, i) {
            calls_are_only_added(d, s, events);
        } else if events[0] is Error {
            assert(s1.codec[s.codec.len() as int] == CodecCall::Stop);
            assert(all_handled(d1, s1, rest) == (d1, s1));
        } else {
            handling_keeps_loans(d1, s1, rest, direction, i);
            let s2 = all_handled(d, s, events).1;
            assert(s1.codec == s.codec);
            if reported(rest, direction, i) {
                let k = choose|k: int|
                    0 <= k < rest.len() && reports(#[trigger] rest[k], direction, i);
                assert(events[k + 1] == rest[k]);
            }
        }
    }
}

/// What the codec has been lent stays with it until it reports to be done with it, or has died:
/// collecting what it reports takes nothing else from it.
pub proof fn loans_end_by_report<GM, H, S, K>(
    d: DeviceView<GM, H, S, K>,
    s: SessionView<GM, H>,
    events: Seq<EncoderEvent>,
    direction: QueueDirection,
    i: int,
)
    requires
        0 <= i < s.queue(direction).buffers.len(),
        s.queue(direction).buffers[i].lent,
    ensures
        ({
            let s2 = processed(d, s, events).1;
            &&& continued(s.codec.push(CodecCall::TakeEvents { events }), s2.codec)
            &&& untouched(s.queue(direction), s2.queue(direction), i) || reported(
                events,
                direction,
                i,
            ) || let_go_since(s.codec.len() as int, s2.codec, direction)
        }),
{
    let t = SessionView { codec: s.codec.push(CodecCall::TakeEvents { events }), ..s };
    handling_keeps_loans(d, t, events, direction, i);
}

/// Collecting events only adds to what the codec was asked, and lends it nothing.
pub proof fn calls_are_only_added<GM, H, S, K>(
    d: DeviceView<GM, H, S, K>,
    s: SessionView<GM, H>,
    events: Seq<EncoderEvent>,
)
    ensures
        continued(s.codec, all_handled(d, s, events).1.codec),
        forall|direction: QueueDirection| #[trigger]
            no_loans(s.codec.len() as int, all_handled(d, s, events).1.codec, direction),
    decreases events.len(),
{
    if events.len() > 0 && !s.dead {
        let (d1, s1) = handled(d, s, events[0]);
        calls_are_only_added(d1, s1, events.skip(1));
    }
}

/// What was marked stays marked through an operation that keeps loans.
proof fn keeping_loans_keeps_track<GM, H>(
    s: SessionView<GM, H>,
    s2: SessionView<GM, H>,
    direction: QueueDirection,
)
    requires
        marked(s, direction),
        keeps_loans(s, s2, direction),
    ensures
        marked(s2, direction),
{
    let n = s.codec.len() as int;
    assert forall|i: int| #[trigger] with_codec(s2.codec, direction, i) implies 0 <= i < s2.queue(
        direction,
    ).buffers.len() && s2.queue(direction).buffers[i].lent by {
        let k = choose|k: int|
            0 <= k < s2.codec.len() && #[trigger] lent_by(s2.codec[k], direction, i) && kept_since(
                k,
                s2.codec,
                direction,
                i,
            );
        if k < n {
            had_before(s.codec, s2.codec, direction, i, k);
            if let_go_since(n, s2.codec, direction) {
                let j = choose|j: int|
                    n <= j < s2.codec.len() && lets_go(#[trigger] s2.codec[j], direction);
                assert(gives_up(s2.codec[j], direction, i));
            }
            assert(s.queue(direction).buffers[i].lent);
        }
    }
}

/// What the codec has by a call of before, it had before.
proof fn had_before(
    before: Seq<CodecCall>,
    after: Seq<CodecCall>,
    direction: QueueDirection,
    i: int,
    k: int,
)
    requires
        continued(before, after),
        0 <= k < before.len(),
        lent_by(after[k], direction, i),
        kept_since(k, after, direction, i),
    ensures
        with_codec(before, direction, i),
{
    assert(lent_by(before[k], direction, i));
    assert forall|j: int| k < j < before.len() implies !gives_up(
        #[trigger] before[j],
        direction,
        i,
    ) by {
        assert(!gives_up(after[j], direction, i));
    }
}

/// A new session's codec has nothing.
pub proof fn new_sessions_keep_track<GM, H, S, K>(
    d: DeviceView<GM, H, S, K>,
    id: u32,
    wake: i32,
)
    ensures
        keeps_track(fresh_session::<GM, H, S, K>(d, id, wake)),
{
}

/// Every buffer that the codec has is marked as lent, whatever the guest asks for.
pub proof fn requests_keep_track_of_loans<GM, H, S, K>(
    d: DeviceView<GM, H, S, K>,
    s: SessionView<GM, H>,
    request: IoctlRequest,
    d2: DeviceView<GM, H, S, K>,
    s2: SessionView<GM, H>,
    reply: IoctlReply,
)
    requires
        d.fits(s),
        keeps_track(s),
        encoder_answers(d, s, request, d2, s2, reply),
    ensures
        keeps_track(s2),
{
    let directions = (QueueDirection::Output, QueueDirection::Capture);
    loans_last_until_the_codec_lets_go(d, s, request, d2, s2, reply, directions.0);
    loans_last_until_the_codec_lets_go(d, s, request, d2, s2, reply, directions.1);
    keeping_loans_keeps_track(s, s2, directions.0);
    keeping_loans_keeps_track(s, s2, directions.1);
}

/// Every buffer that the codec has is marked as lent, whatever the codec reports.
pub proof fn events_keep_track_of_loans<GM, H, S, K>(
    d: DeviceView<GM, H, S, K>,
    s: SessionView<GM, H>,
    d2: DeviceView<GM, H, S, K>,
    s2: SessionView<GM, H>,
)
    requires
        keeps_track(s),
        events_processed(d, s, d2, s2),
    ensures
        keeps_track(s2),
{
    if !s.dead {
        let events = choose|events: Seq<EncoderEvent>|
            (d2, s2) == #[trigger] processed(d, s, events);
        events_keep_marks(d, s, events, QueueDirection::Output);
        events_keep_marks(d, s, events, QueueDirection::Capture);
    }
}

/// What was marked and is not reported stays marked through the collecting of events.
proof fn events_keep_marks<GM, H, S, K>(
    d: DeviceView<GM, H, S, K>,
    s: SessionView<GM, H>,
    events: Seq<EncoderEvent>,
    direction: QueueDirection,
)
    requires
        marked(s, direction),
    ensures
        marked(processed(d, s, events).1, direction),
{
    let n = s.codec.len() as int;
    let t = SessionView { codec: s.codec.push(CodecCall::TakeEvents { events }), ..s };
    let s2 = processed(d, s, events).1;
    calls_are_only_added(d, t, events);
    assert(no_loans(n + 1, s2.codec, direction));
    assert(s2.codec[n] == t.codec[n]);
    assert(continued(s.codec, s2.codec)) by {
        assert forall|k: int| 0 <= k < n implies #[trigger] s2.codec[k] == s.codec[k] by {
            assert(s2.codec[k] == t.codec[k]);
        }
    }
    assert forall|i: int| #[trigger] with_codec(s2.codec, direction, i) implies 0 <= i < s2.queue(
        direction,
    ).buffers.len() && s2.queue(direction).buffers[i].lent by {
        let k = choose|k: int|
            0 <= k < s2.codec.len() && #[trigger] lent_by(s2.codec[k], direction, i) && kept_since(
                k,
                s2.codec,
                direction,
                i,
            );
        assert(k < n) by {
            if k > n {
                assert(!lends(s2.codec[k], direction));
            }
        }
        had_before(s.codec, s2.codec, direction, i, k);
        assert(s.queue(direction).buffers[i].lent);
        loans_end_by_report(d, s, events, direction, i);
        assert(!gives_up(s2.codec[n], direction, i));
        if let_go_since(n, s2.codec, direction) {
            let j = choose|j: int|
                n <= j < s2.codec.len() && lets_go(#[trigger] s2.codec[j], direction);
            assert(gives_up(s2.codec[j], direction, i));
        }
    }
}

/// Buffers that may be taken back, and those of a queue with nothing lent, which alone are freed,
/// are none that the codec has.
pub proof fn the_codec_has_nothing_taken_back<GM, H>(
    s: SessionView<GM, H>,
    direction: QueueDirection,
    i: int,
)
    requires
        keeps_track(s),
        may_take_back(s.queue(direction), s.codec, direction),
    ensures
        !with_codec(s.codec, direction, i),
{
    if with_codec(s.codec, direction, i) {
        assert(marked(s, direction));
        let k = choose|k: int|
            0 <= k < s.codec.len() && #[trigger] lent_by(s.codec[k], direction, i) && kept_since(
                k,
                s.codec,
                direction,
                i,
            );
        let j = choose|j: int|
            {
                &&& 0 <= j < s.codec.len()
                &&& lets_go(#[trigger] s.codec[j], direction)
                &&& forall|l: int|
                    j < l < s.codec.len() ==> !lends(#[trigger] s.codec[l], direction)
            };
        if !none_lent(s.queue(direction)) {
            assert(gives_up(s.codec[j], direction, i));
            assert(lends(s.codec[k], direction));
        }
    }
}

/// A closed session's codec has nothing: it is given back to the backend right after it was joined,
/// with every call it was ever given on record.
pub proof fn closing_ends_every_loan<GM, H, S, K>(
    d: DeviceView<GM, H, S, K>,
    s: SessionView<GM, H>,
    session: S,
    direction: QueueDirection,
    i: int,
)
    ensures
        ({
            let calls = s.codec.push(CodecCall::Stop);
            &&& closed(d, s, session).backend.last() == (BackendCall::<S, K>::CloseSession {
                session,
                codec: calls,
            })
            &&& let_go(calls, direction)
            &&& !with_codec(calls, direction, i)
        }),
{
    let calls = s.codec.push(CodecCall::Stop);
    let n = s.codec.len() as int;
    assert(calls[n] == CodecCall::Stop);
    assert(lets_go(calls[n], direction));
    if with_codec(calls, direction, i) {
        assert(gives_up(calls[n], direction, i));
    }
}

} // verus!
