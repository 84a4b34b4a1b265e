//! What a codec was started with stays what its session says while it runs.
use vstd::prelude::*;

use super::backend::EncoderEvent;
use super::buffer_ioctls::{
    all_freed, allocation_refused, enqueued, mapping_asked, queued, queued_description,
    queued_if_mapped, queueing_answer, requested, scatter_lists,
};
use super::codec::{all_handled, feeds, handled, refused_loan, stopped};
use super::config::{asked_to_start, starts};
use super::control_ioctls::{
    applied, applied_set, changes_live, checked, checked_one, checked_set, control_answer,
    set_applied, ExtCtrlOp,
};
use super::control_table::{place, CtrlDef};
use super::device::DeviceView;
use super::ioctls::encoder_answers;
use super::laws::done_inputs_leave_the_rest;
use super::queue::Backing;
use super::session::SessionView;
use super::stream_ioctls::{
    command_answer, commanded, flushed, left_streaming, normalized, resumed, stream_off,
    ENC_CMD_START,
};
use crate::host::{GuestMapping, GuestMappingError};
use crate::ioctl::reply::IoctlReply;
use crate::ioctl::requests::IoctlRequest;
use crate::ioctl::types::{CtrlWhich, EncoderCmd, ExtControl, RequestBuffers};
use crate::payload::PayloadValidity;
use crate::protocol::SgEntry;
use crate::v4l2::{MemoryType, QueueDirection, QueueType, V4l2Buffer};

verus! {

/// Whether a session has the codec, frame, visible rectangle and colorimetry it had.
pub open spec fn keeps_format<GM, H>(s: SessionView<GM, H>, s2: SessionView<GM, H>) -> bool {
    &&& s2.coded_format == s.coded_format
    &&& s2.coded_size == s.coded_size
    &&& s2.crop == s.crop
    &&& s2.colorspace == s.colorspace
}

/// Whether a session has the control values it had, but for those of the controls that change
/// live.
pub open spec fn keeps_controls<GM, H>(
    table: Seq<CtrlDef>,
    s: SessionView<GM, H>,
    s2: SessionView<GM, H>,
) -> bool {
    &&& s2.ctrl_values.len() == s.ctrl_values.len()
    &&& forall|i: int|
        0 <= i < s.ctrl_values.len() && i < table.len() && !changes_live((#[trigger] table[i]).id)
            ==> s2.ctrl_values[i] == s.ctrl_values[i]
}

/// Whether a session has the parameters it had.
pub open spec fn keeps_parameters<GM, H>(s: SessionView<GM, H>, s2: SessionView<GM, H>) -> bool {
    keeps_format(s, s2) && s2.ctrl_values == s.ctrl_values
}

/// Lending what waits changes no parameter.
proof fn feeding_keeps_parameters<GM, H, S, K>(
    d: DeviceView<GM, H, S, K>,
    s: SessionView<GM, H>,
    d2: DeviceView<GM, H, S, K>,
    s2: SessionView<GM, H>,
    r: Result<(), i32>,
)
    requires
        feeds(d, s, d2, s2, r),
    ensures
        keeps_parameters(s, s2),
{
    if s.feeding() && r is Err {
        let (k, errno) = choose|k: int, errno: i32|
            0 <= k < s.waiting() && s2 == #[trigger] refused_loan(s, k, errno);
    }
}

/// Starting the codec changes no parameter.
proof fn starting_keeps_parameters<GM, H, S, K>(
    d: DeviceView<GM, H, S, K>,
    s: SessionView<GM, H>,
    d2: DeviceView<GM, H, S, K>,
    s2: SessionView<GM, H>,
    r: Result<(), i32>,
)
    requires
        starts(d, s, d2, s2, r),
    ensures
        keeps_parameters(s, s2),
{
    if s.running() {
        if s.codec_started {
            feeding_keeps_parameters(d, s, d2, s2, r);
        } else {
            let answer = choose|answer: Result<(), i32>|
                {
                    let s1 = #[trigger] asked_to_start(d, s, answer);
                    match answer {
                        Ok(_) => feeds(d, SessionView { codec_started: true, ..s1 }, d2, s2, r),
                        Err(e) => r == Err::<(), i32>(e) && d2 == d && s2 == s1,
                    }
                };
            let s1 = asked_to_start(d, s, answer);
            if answer is Ok {
                feeding_keeps_parameters(d, SessionView { codec_started: true, ..s1 }, d2, s2, r);
            }
        }
    }
}

/// Stopping a queue changes no parameter.
proof fn stopping_keeps_parameters<GM, H, S, K>(
    d: DeviceView<GM, H, S, K>,
    s: SessionView<GM, H>,
    stopping: QueueDirection,
    d2: DeviceView<GM, H, S, K>,
    s2: SessionView<GM, H>,
)
    requires
        stream_off(d, s, stopping, d2, s2),
    ensures
        keeps_parameters(s, s2),
{
    if s.codec_started && !s.dead {
        match stopping {
            QueueDirection::Output => {
                let answer = choose|answer: Result<(), i32>|
                    d2 == (#[trigger] flushed(d, s, answer)).0 && s2 == flushed(
                        d,
                        s,
                        answer,
                    ).1.output_stopped();
            },
            QueueDirection::Capture => {
                let events = choose|events: Seq<EncoderEvent>|
                    d2 == (#[trigger] stopped(d, s, events)).0 && s2 == stopped(
                        d,
                        s,
                        events,
                    ).1.capture_stopped();
                done_inputs_leave_the_rest(d, s.torn_down(events), events);
            },
        }
    }
}

/// Queueing a buffer changes no parameter.
proof fn queueing_keeps_parameters<GM, H, S, K>(
    d: DeviceView<GM, H, S, K>,
    s: SessionView<GM, H>,
    buffer: V4l2Buffer,
    regions: Seq<Seq<SgEntry>>,
    payload: PayloadValidity,
    d2: DeviceView<GM, H, S, K>,
    s2: SessionView<GM, H>,
    r: Result<V4l2Buffer, i32>,
)
    requires
        queued(d, s, buffer, regions, payload, d2, s2, r),
    ensures
        keeps_parameters(s, s2),
{
    if s2 != s {
        let to = buffer.queue.video_mplane_direction()->0;
        let b = s.queue(to).buffers[buffer.index as int];
        let v = queued_description(b, buffer, to);
        let (d1, backing, fed) = match b.backing {
            Backing::Host { .. } => {
                let fed = choose|fed: Result<(), i32>| #[trigger]
                    feeds(d, enqueued(s, to, buffer, b.backing), d2, s2, fed) && r
                        == queueing_answer(v, fed);
                (d, b.backing, fed)
            },
            Backing::Guest(_) => {
                let answer = choose|answer: Result<GuestMapping<GM>, Option<GuestMappingError>>|
                    #[trigger]
                    queued_if_mapped(d, s, to, buffer, regions[0], v, answer, d2, s2, r);
                let d1 = mapping_asked(d, to, regions[0], answer);
                let backing = Backing::Guest(Some(answer->Ok_0));
                let fed = choose|fed: Result<(), i32>| #[trigger]
                    feeds(d1, enqueued(s, to, buffer, backing), d2, s2, fed) && r
                        == queueing_answer(v, fed);
                (d1, backing, fed)
            },
        };
        feeding_keeps_parameters(d1, enqueued(s, to, buffer, backing), d2, s2, fed);
    }
}

/// An encoder command changes no parameter.
proof fn commanding_keeps_parameters<GM, H, S, K>(
    d: DeviceView<GM, H, S, K>,
    s: SessionView<GM, H>,
    cmd: EncoderCmd,
    d2: DeviceView<GM, H, S, K>,
    s2: SessionView<GM, H>,
    r: Result<EncoderCmd, i32>,
)
    requires
        commanded(d, s, cmd, d2, s2, r),
    ensures
        keeps_parameters(s, s2),
{
    if s2 != s && cmd.cmd == ENC_CMD_START {
        let n = normalized(cmd)->Ok_0;
        let answer = choose|answer: Result<(), i32>|
            {
                let s1 = #[trigger] resumed(s, answer);
                match answer {
                    Ok(_) => exists|fed: Result<(), i32>| #[trigger]
                        feeds(d, s1, d2, s2, fed) && r == command_answer(n, fed),
                    Err(e) => r == Err::<EncoderCmd, i32>(e) && d2 == d && s2 == s1,
                }
            };
        let s1 = resumed(s, answer);
        if answer is Ok {
            let fed = choose|fed: Result<(), i32>| #[trigger]
                feeds(d, s1, d2, s2, fed) && r == command_answer(n, fed);
            feeding_keeps_parameters(d, s1, d2, s2, fed);
        }
    }
}

/// Replacing or freeing buffers changes no parameter.
proof fn requesting_keeps_parameters<GM, H, S, K>(
    d: DeviceView<GM, H, S, K>,
    s: SessionView<GM, H>,
    queue: QueueType,
    memory: MemoryType,
    count: u32,
    d2: DeviceView<GM, H, S, K>,
    s2: SessionView<GM, H>,
    r: Result<RequestBuffers, i32>,
)
    requires
        requested(d, s, queue, memory, count, d2, s2, r),
    ensures
        keeps_parameters(s, s2),
{
    if queue.video_mplane_direction() is Some && allocation_refused(d, s, memory, count) is None {
        let to = queue.video_mplane_direction()->0;
        if count == 0 {
            let (d1, s1) = choose|d1: DeviceView<GM, H, S, K>, s1: SessionView<GM, H>| #[trigger]
                stream_off(d, s, to, d1, s1) && (d2, s2) == all_freed(d1, s1, to);
            stopping_keeps_parameters(d, s, to, d1, s1);
        }
    }
}

/// A value a running codec's session accepts for a control that does not change live is the one it
/// has.
proof fn accepted_values_are_not_new<GM, H, S, K>(
    d: DeviceView<GM, H, S, K>,
    s: SessionView<GM, H>,
    t: SessionView<GM, H>,
    id: u32,
    value: int,
    v: i32,
    answer: Result<(), i32>,
)
    requires
        s.codec_started,
        s.ctrl_values.len() == d.controls.len(),
        checked(d, s, id, value, true) == Ok::<i32, i32>(v),
        keeps_controls(d.controls, s, t),
    ensures
        keeps_controls(d.controls, s, applied(d, t, id, v, answer).0),
        keeps_format(t, applied(d, t, id, v, answer).0),
{
    let p = place(d.controls, id);
    assert(0 <= p < d.controls.len() && d.controls[p].id == id);
}

/// Setting controls one after the other keeps those that do not change live.
proof fn accepted_sets_are_not_new<GM, H, S, K>(
    d: DeviceView<GM, H, S, K>,
    s: SessionView<GM, H>,
    which: CtrlWhich,
    ctrls: Seq<ExtControl>,
    values: Seq<i32>,
    answers: Seq<Result<(), i32>>,
)
    requires
        s.codec_started,
        s.ctrl_values.len() == d.controls.len(),
        checked_set(d, s, ExtCtrlOp::Write, which, ctrls, Ok(values)),
        answers.len() <= ctrls.len(),
    ensures
        keeps_controls(d.controls, s, applied_set(d, s, ctrls, values, answers).0),
        keeps_format(s, applied_set(d, s, ctrls, values, answers).0),
    decreases answers.len(),
{
    if answers.len() > 0 {
        accepted_sets_are_not_new(d, s, which, ctrls, values, answers.drop_last());
        let (t, stop) = applied_set(d, s, ctrls, values, answers.drop_last());
        if stop is None {
            let k = answers.len() - 1;
            assert(checked_one(d, s, ExtCtrlOp::Write, which, ctrls[k]) == Ok::<i32, i32>(
                values[k],
            ));
            accepted_values_are_not_new(
                d,
                s,
                t,
                ctrls[k].id,
                ctrls[k].plain(),
                values[k],
                answers[k],
            );
        }
    }
}

/// While its codec runs, a session keeps the format, frame, visible rectangle and controls the
/// codec was started with, whatever the guest asks for; but for the controls that change live,
/// which the codec is told of.
pub proof fn a_running_codec_keeps_its_parameters<GM, H, S, K>(
    d: DeviceView<GM, H, S, K>,
    s: SessionView<GM, H>,
    request: IoctlRequest,
    d2: DeviceView<GM, H, S, K>,
    s2: SessionView<GM, H>,
    reply: IoctlReply,
)
    requires
        d.fits(s),
        s.codec_started,
        encoder_answers(d, s, request, d2, s2, reply),
    ensures
        keeps_format(s, s2),
        keeps_controls(d.controls, s, s2),
{
    match request {
        IoctlRequest::ReqBufs { queue, memory, count } => {
            requesting_keeps_parameters(
                d,
                s,
                queue,
                memory,
                count,
                d2,
                s2,
                reply.requestbuffers(),
            );
        },
        IoctlRequest::QBuf { input } => {
            queueing_keeps_parameters(
                d,
                s,
                input.buffer,
                scatter_lists(input.guest_regions@),
                input.payload,
                d2,
                s2,
                reply.buffer(),
            );
        },
        IoctlRequest::StreamOn { queue } => {
            let r = reply.done();
            if s2 != s {
                let to = queue.video_mplane_direction()->0;
                let t = s.with_streaming(to, true);
                let s1 = choose|s1: SessionView<GM, H>|
                    #![trigger left_streaming(s, s1, r)]
                    starts(d, t, d2, s1, r) && s2 == left_streaming(s, s1, r);
                starting_keeps_parameters(d, t, d2, s1, r);
            }
        },
        IoctlRequest::StreamOff { queue } => {
            if queue.video_mplane_direction() is Some {
                stopping_keeps_parameters(d, s, queue.video_mplane_direction()->0, d2, s2);
            }
        },
        IoctlRequest::EncoderCmd { cmd } => {
            commanding_keeps_parameters(d, s, cmd, d2, s2, reply.encoder_cmd());
        },
        IoctlRequest::SCtrl { id, value } => {
            if s2 != s {
                let v = checked(d, s, id, value as int, true)->Ok_0;
                let answer = choose|answer: Result<(), i32>|
                    {
                        let (t, done) = #[trigger] applied(d, s, id, v, answer);
                        s2 == t && reply.control() == control_answer(id, done)
                    };
                accepted_values_are_not_new(d, s, s, id, value as int, v, answer);
            }
        },
        IoctlRequest::SExtCtrls { which, input } => {
            if s2 != s {
                let (values, answers) = choose|values: Seq<i32>, answers: Seq<Result<(), i32>>|
                    #[trigger]
                    set_applied(
                        d,
                        s,
                        which,
                        input.ctrls,
                        input.ctrl_array@,
                        values,
                        answers,
                        s2,
                        reply.header(),
                        reply.controls(),
                        reply.done(),
                    );
                accepted_sets_are_not_new(d, s, which, input.ctrl_array@, values, answers);
            }
        },
        _ => {},
    }
}

/// What the codec reports changes no parameter.
pub proof fn reports_keep_the_parameters<GM, H, S, K>(
    d: DeviceView<GM, H, S, K>,
    s: SessionView<GM, H>,
    events: Seq<EncoderEvent>,
)
    ensures
        keeps_parameters(s, all_handled(d, s, events).1),
    decreases events.len(),
{
    if events.len() > 0 && !s.dead {
        let (d1, s1) = handled(d, s, events[0]);
        reports_keep_the_parameters(d1, s1, events.skip(1));
    }
}

} // verus!
