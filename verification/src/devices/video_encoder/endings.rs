//! How a session ends: once, whatever else goes wrong with it, and for good.
use vstd::prelude::*;

use super::backend::{CodecCall, EncoderEvent};
use super::buffer_ioctls::{
    all_freed, allocation_refused, enqueued, mapping_asked, queued, queued_description,
    queued_if_mapped, queueing_answer, requested, scatter_lists,
};
use super::buffers::freeing_leaves_the_rest;
use super::codec::{
    all_handled, events_processed, feeds, handled, inputs_done, processed, refused_loan, stopped,
};
use super::config::{asked_to_start, starts};
use super::control_ioctls::{applied_set, set_applied};
use super::device::DeviceView;
use super::ioctls::encoder_answers;
use super::laws::done_inputs_leave_the_rest;
use super::queue::Backing;
use super::session::SessionView;
use super::stream_ioctls::{
    command_answer, commanded, flushed, left_streaming, normalized, resumed, stream_off,
    ENC_CMD_START,
};
use crate::errno::ENODEV;
use crate::host::{continued, GuestMapping, GuestMappingError};
use crate::ioctl::reply::IoctlReply;
use crate::ioctl::requests::IoctlRequest;
use crate::ioctl::types::{EncoderCmd, ExtControl, RequestBuffers};
use crate::payload::PayloadValidity;
use crate::protocol::{SgEntry, V4l2Event};
use crate::v4l2::{MemoryType, QueueDirection, QueueType, V4l2Buffer};

verus! {

/// Whether an operation ends a session at most once: the guest is told of an error only as the
/// last thing, of this session, when the session lived before and is dead after; and a dead session
/// stays dead.
pub open spec fn ends_once<GM, H, S, K>(
    d: DeviceView<GM, H, S, K>,
    s: SessionView<GM, H>,
    d2: DeviceView<GM, H, S, K>,
    s2: SessionView<GM, H>,
) -> bool {
    &&& continued(d.events, d2.events)
    &&& s.dead ==> s2.dead
    &&& s2.id == s.id
    &&& !s.dead && s2.dead <==> tells_an_error(d.events.len() as int, d2.events)
    &&& forall|k: int|
        d.events.len() <= k < d2.events.len() && #[trigger] d2.events[k] is Error ==> k
            == d2.events.len() - 1 && d2.events[k] == (V4l2Event::Error {
            session_id: s.id,
            errno: ENODEV,
        })
}

/// Whether an error is told after the first `from` events.
pub open spec fn tells_an_error(from: int, events: Seq<V4l2Event>) -> bool {
    exists|k: int| from <= k < events.len() && #[trigger] events[k] is Error
}

/// Lending what waits ends a session at most once.
proof fn feeding_ends_once<GM, H, S, K>(
    d: DeviceView<GM, H, S, K>,
    s: SessionView<GM, H>,
    d2: DeviceView<GM, H, S, K>,
    s2: SessionView<GM, H>,
    r: Result<(), i32>,
)
    requires
        !s.dead,
        feeds(d, s, d2, s2, r),
    ensures
        ends_once(d, s, d2, s2),
{
    if s.feeding() && r is Err {
        let (k, errno) = choose|k: int, errno: i32|
            0 <= k < s.waiting() && s2 == #[trigger] refused_loan(s, k, errno);
        assert(d2.events[d.events.len() as int] is Error);
    }
}

/// Starting the codec ends a session at most once.
proof fn starting_ends_once<GM, H, S, K>(
    d: DeviceView<GM, H, S, K>,
    s: SessionView<GM, H>,
    d2: DeviceView<GM, H, S, K>,
    s2: SessionView<GM, H>,
    r: Result<(), i32>,
)
    requires
        !s.dead,
        starts(d, s, d2, s2, r),
    ensures
        ends_once(d, s, d2, s2),
{
    if s.running() {
        if s.codec_started {
            feeding_ends_once(d, s, d2, s2, r);
        } else {
            let answer = choose|answer: Result<(), i32>|
                {
                    let s1 = #[trigger] asked_to_start(d, s, answer);
                    match answer {
                        Ok(_) => feeds(d, SessionView { codec_started: true, ..s1 }, d2, s2, r),
                        Err(e) => r == Err::<(), i32>(e) && d2 == d && s2 == s1,
                    }
                };
            let s1 = asked_to_start(d, s, answer);
            if answer is Ok {
                feeding_ends_once(d, SessionView { codec_started: true, ..s1 }, d2, s2, r);
            }
        }
    }
}

/// The raw frames reported done tell of no error.
proof fn done_inputs_tell_no_error<GM, H, S, K>(
    d: DeviceView<GM, H, S, K>,
    s: SessionView<GM, H>,
    events: Seq<EncoderEvent>,
)
    ensures
        continued(d.events, inputs_done(d, s, events).0.events),
        !tells_an_error(d.events.len() as int, inputs_done(d, s, events).0.events),
    decreases events.len(),
{
    if events.len() > 0 {
        let (d1, s1) = if events[0] is InputBufferDone {
            handled(d, s, events[0])
        } else {
            (d, s)
        };
        done_inputs_tell_no_error(d1, s1, events.skip(1));
        let after = inputs_done(d, s, events).0.events;
        if tells_an_error(d.events.len() as int, after) {
            let k = choose|k: int|
                d.events.len() <= k < after.len() && #[trigger] after[k] is Error;
            if k < d1.events.len() {
                assert(after[k] == d1.events[k]);
            }
        }
    }
}

/// Stopping a queue ends a session at most once.
proof fn stopping_ends_once<GM, H, S, K>(
    d: DeviceView<GM, H, S, K>,
    s: SessionView<GM, H>,
    stopping: QueueDirection,
    d2: DeviceView<GM, H, S, K>,
    s2: SessionView<GM, H>,
)
    requires
        stream_off(d, s, stopping, d2, s2),
    ensures
        ends_once(d, s, d2, s2),
{
    if s.codec_started && !s.dead {
        match stopping {
            QueueDirection::Output => {
                let answer = choose|answer: Result<(), i32>|
                    d2 == (#[trigger] flushed(d, s, answer)).0 && s2 == flushed(
                        d,
                        s,
                        answer,
                    ).1.output_stopped();
                if answer is Err {
                    assert(d2.events[d.events.len() as int] is Error);
                }
            },
            QueueDirection::Capture => {
                let events = choose|events: Seq<EncoderEvent>|
                    d2 == (#[trigger] stopped(d, s, events)).0 && s2 == stopped(
                        d,
                        s,
                        events,
                    ).1.capture_stopped();
                let t = s.torn_down(events);
                done_inputs_leave_the_rest(d, t, events);
                done_inputs_tell_no_error(d, t, events);
            },
        }
    }
}

/// Queueing a buffer ends a session at most once.
proof fn queueing_ends_once<GM, H, S, K>(
    d: DeviceView<GM, H, S, K>,
    s: SessionView<GM, H>,
    buffer: V4l2Buffer,
    regions: Seq<Seq<SgEntry>>,
    payload: PayloadValidity,
    d2: DeviceView<GM, H, S, K>,
    s2: SessionView<GM, H>,
    r: Result<V4l2Buffer, i32>,
)
    requires
        queued(d, s, buffer, regions, payload, d2, s2, r),
    ensures
        ends_once(d, s, d2, s2),
{
    if s2 != s {
        let to = buffer.queue.video_mplane_direction()->0;
        let b = s.queue(to).buffers[buffer.index as int];
        let v = queued_description(b, buffer, to);
        let (d1, backing, fed) = match b.backing {
            Backing::Host { .. } => {
                let fed = choose|fed: Result<(), i32>| #[trigger]
                    feeds(d, enqueued(s, to, buffer, b.backing), d2, s2, fed) && r
                        == queueing_answer(v, fed);
                (d, b.backing, fed)
            },
            Backing::Guest(_) => {
                let answer = choose|answer: Result<GuestMapping<GM>, Option<GuestMappingError>>|
                    #[trigger]
                    queued_if_mapped(d, s, to, buffer, regions[0], v, answer, d2, s2, r);
                let d1 = mapping_asked(d, to, regions[0], answer);
                let backing = Backing::Guest(Some(answer->Ok_0));
                let fed = choose|fed: Result<(), i32>| #[trigger]
                    feeds(d1, enqueued(s, to, buffer, backing), d2, s2, fed) && r
                        == queueing_answer(v, fed);
                (d1, backing, fed)
            },
        };
        feeding_ends_once(d1, enqueued(s, to, buffer, backing), d2, s2, fed);
    }
}

/// An encoder command ends a session at most once.
proof fn commanding_ends_once<GM, H, S, K>(
    d: DeviceView<GM, H, S, K>,
    s: SessionView<GM, H>,
    cmd: EncoderCmd,
    d2: DeviceView<GM, H, S, K>,
    s2: SessionView<GM, H>,
    r: Result<EncoderCmd, i32>,
)
    requires
        commanded(d, s, cmd, d2, s2, r),
    ensures
        ends_once(d, s, d2, s2),
{
    if s2 != s && cmd.cmd == ENC_CMD_START {
        let n = normalized(cmd)->Ok_0;
        let answer = choose|answer: Result<(), i32>|
            {
                let s1 = #[trigger] resumed(s, answer);
                match answer {
                    Ok(_) => exists|fed: Result<(), i32>| #[trigger]
                        feeds(d, s1, d2, s2, fed) && r == command_answer(n, fed),
                    Err(e) => r == Err::<EncoderCmd, i32>(e) && d2 == d && s2 == s1,
                }
            };
        let s1 = resumed(s, answer);
        if answer is Ok {
            let fed = choose|fed: Result<(), i32>| #[trigger]
                feeds(d, s1, d2, s2, fed) && r == command_answer(n, fed);
            feeding_ends_once(d, s1, d2, s2, fed);
        }
    }
}

/// Replacing or freeing buffers ends a session at most once.
proof fn requesting_ends_once<GM, H, S, K>(
    d: DeviceView<GM, H, S, K>,
    s: SessionView<GM, H>,
    queue: QueueType,
    memory: MemoryType,
    count: u32,
    d2: DeviceView<GM, H, S, K>,
    s2: SessionView<GM, H>,
    r: Result<RequestBuffers, i32>,
)
    requires
        requested(d, s, queue, memory, count, d2, s2, r),
    ensures
        ends_once(d, s, d2, s2),
{
    if queue.video_mplane_direction() is Some && allocation_refused(d, s, memory, count) is None {
        let to = queue.video_mplane_direction()->0;
        if count == 0 {
            let (d1, s1) = choose|d1: DeviceView<GM, H, S, K>, s1: SessionView<GM, H>| #[trigger]
                stream_off(d, s, to, d1, s1) && (d2, s2) == all_freed(d1, s1, to);
            stopping_ends_once(d, s, to, d1, s1);
            freeing_leaves_the_rest(d1, s1.queue(to).buffers);
        } else if !s.streaming(to) {
            freeing_leaves_the_rest(d, s.queue(to).buffers);
        }
    }
}

/// Applying a set of controls ends no session.
proof fn controls_end_nothing<GM, H, S, K>(
    d: DeviceView<GM, H, S, K>,
    s: SessionView<GM, H>,
    ctrls: Seq<ExtControl>,
    values: Seq<i32>,
    answers: Seq<Result<(), i32>>,
)
    ensures
        ({
            let t = applied_set(d, s, ctrls, values, answers).0;
            t.dead == s.dead && t.id == s.id
        }),
    decreases answers.len(),
{
    if answers.len() > 0 {
        controls_end_nothing(d, s, ctrls, values, answers.drop_last());
    }
}

/// A session dies at most once, and the guest is told once, whatever it asks for: of an error
/// exactly when the session dies, as the last thing it is told.
pub proof fn a_session_dies_once<GM, H, S, K>(
    d: DeviceView<GM, H, S, K>,
    s: SessionView<GM, H>,
    request: IoctlRequest,
    d2: DeviceView<GM, H, S, K>,
    s2: SessionView<GM, H>,
    reply: IoctlReply,
)
    requires
        encoder_answers(d, s, request, d2, s2, reply),
    ensures
        ends_once(d, s, d2, s2),
{
    match request {
        IoctlRequest::ReqBufs { queue, memory, count } => {
            requesting_ends_once(d, s, queue, memory, count, d2, s2, reply.requestbuffers());
        },
        IoctlRequest::QBuf { input } => {
            queueing_ends_once(
                d,
                s,
                input.buffer,
                scatter_lists(input.guest_regions@),
                input.payload,
                d2,
                s2,
                reply.buffer(),
            );
        },
        IoctlRequest::StreamOn { queue } => {
            let r = reply.done();
            if s2 != s {
                let to = queue.video_mplane_direction()->0;
                let t = s.with_streaming(to, true);
                let s1 = choose|s1: SessionView<GM, H>|
                    #![trigger left_streaming(s, s1, r)]
                    starts(d, t, d2, s1, r) && s2 == left_streaming(s, s1, r);
                starting_ends_once(d, t, d2, s1, r);
            }
        },
        IoctlRequest::StreamOff { queue } => {
            if queue.video_mplane_direction() is Some {
                stopping_ends_once(d, s, queue.video_mplane_direction()->0, d2, s2);
            }
        },
        IoctlRequest::EncoderCmd { cmd } => {
            commanding_ends_once(d, s, cmd, d2, s2, reply.encoder_cmd());
        },
        IoctlRequest::SExtCtrls { which, input } => {
            if s2 != s {
                let (values, answers) = choose|values: Seq<i32>, answers: Seq<Result<(), i32>>|
                    #[trigger]
                    set_applied(
                        d,
                        s,
                        which,
                        input.ctrls,
                        input.ctrl_array@,
                        values,
                        answers,
                        s2,
                        reply.header(),
                        reply.controls(),
                        reply.done(),
                    );
                controls_end_nothing(d, s, input.ctrl_array@, values, answers);
            }
        },
        _ => {},
    }
}

/// What the codec reports ends a session at most once: what it reports after an error is not
/// looked at.
proof fn handling_ends_once<GM, H, S, K>(
    d: DeviceView<GM, H, S, K>,
    s: SessionView<GM, H>,
    events: Seq<EncoderEvent>,
)
    ensures
        ends_once(d, s, all_handled(d, s, events).0, all_handled(d, s, events).1),
    decreases events.len(),
{
    if events.len() > 0 && !s.dead {
        let (d1, s1) = handled(d, s, events[0]);
        let rest = events.skip(1);
        let (d2, s2) = all_handled(d, s, events);
        if events[0] is Error {
            assert(all_handled(d1, s1, rest) == (d1, s1));
            assert(d2.events[d.events.len() as int] is Error);
        } else {
            handling_ends_once(d1, s1, rest);
            assert(!tells_an_error(d.events.len() as int, d1.events));
            assert forall|k: int|
                d.events.len() <= k < d2.events.len()
                    && #[trigger] d2.events[k] is Error implies k >= d1.events.len() by {
                if k < d1.events.len() {
                    assert(d2.events[k] == d1.events[k]);
                }
            }
            if tells_an_error(d1.events.len() as int, d2.events) {
                let k = choose|k: int|
                    d1.events.len() <= k < d2.events.len() && #[trigger] d2.events[k] is Error;
                assert(d2.events[k] is Error);
            }
        }
    }
}

/// A session dies at most once of what its codec reports, and the guest is told once.
pub proof fn a_codec_dies_once<GM, H, S, K>(
    d: DeviceView<GM, H, S, K>,
    s: SessionView<GM, H>,
    d2: DeviceView<GM, H, S, K>,
    s2: SessionView<GM, H>,
)
    requires
        events_processed(d, s, d2, s2),
    ensures
        ends_once(d, s, d2, s2),
{
    if !s.dead {
        let events = choose|events: Seq<EncoderEvent>|
            (d2, s2) == #[trigger] processed(d, s, events);
        let t = SessionView { codec: s.codec.push(CodecCall::TakeEvents { events }), ..s };
        handling_ends_once(d, t, events);
    }
}

} // verus!
