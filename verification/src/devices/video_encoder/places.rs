//! Where host buffers are known: each `MMAP` offset names one buffer, of one queue, and is not
//! given out again while the guest maps what it named.
use vstd::prelude::*;

use super::backend::{CodecCall, EncoderEvent};
use super::buffer_ioctls::{
    all_freed, allocation_refused, buffers_added, creation_refused, enqueued, mapping_asked, queued,
    queued_description, queued_if_mapped, queueing_answer, requested, scatter_lists,
};
use super::buffers::{freed, is_fresh, offset_of, with_new};
use super::codec::{
    all_handled, events_processed, feeds, handled, inputs_done, processed, refused_loan, stopped,
};
use super::config::{asked_to_start, starts};
use super::control_ioctls::set_applied;
use super::controls::MAX_BUFFERS;
use super::device::DeviceView;
use super::ioctls::encoder_answers;
use super::laws::done_inputs_leave_the_rest;
use super::lifecycle::{closed, fresh_session, unmapped};
use super::loans::controls_touch_no_buffer;
use super::queue::{empty_queue, Backing, Buffer};
use super::ranges::min;
use super::session::SessionView;
use super::stream_ioctls::{
    command_answer, commanded, flushed, left_streaming, normalized, resumed, stream_off,
    ENC_CMD_START,
};
use crate::host::{GuestMapping, GuestMappingError};
use crate::ioctl::reply::IoctlReply;
use crate::ioctl::requests::IoctlRequest;
use crate::ioctl::types::{EncoderCmd, RequestBuffers};
use crate::mmap::{
    mapped, ranges_after, registered, still_held, without, MmapMapping, MmapRange, Retired,
};
use crate::payload::PayloadValidity;
use crate::protocol::SgEntry;
use crate::v4l2::{MemoryType, QueueDirection, QueueType, V4l2Buffer};

verus! {

/// Whether a retired buffer is known by an offset.
pub open spec fn retired_at<H>(retired: Seq<Retired<H>>, offset: u32) -> bool {
    exists|k: int| 0 <= k < retired.len() && (#[trigger] retired[k]).offset == offset
}

/// Whether an offset is that of a buffer in use: registered, and no retired buffer's.
pub open spec fn in_use<GM, H, S, K>(d: DeviceView<GM, H, S, K>, offset: u32) -> bool {
    registered(d.ranges, offset) && !retired_at(d.retired, offset)
}

/// Whether the retired buffers keep their offsets, each its own.
pub open spec fn retired_placed<H>(retired: Seq<Retired<H>>, ranges: Set<MmapRange>) -> bool {
    &&& forall|k: int|
        0 <= k < retired.len() ==> registered(ranges, (#[trigger] retired[k]).offset)
    &&& forall|j: int, k: int|
        0 <= j < k < retired.len() ==> (#[trigger] retired[j]).offset != (
        #[trigger] retired[k]).offset
}

/// Whether every host buffer of a list is known by an offset in use, each its own.
pub open spec fn list_placed<GM, H, S, K>(
    d: DeviceView<GM, H, S, K>,
    buffers: Seq<Buffer<GM, H>>,
) -> bool {
    &&& forall|i: int|
        0 <= i < buffers.len() && (#[trigger] buffers[i]).backing is Host ==> in_use(
            d,
            offset_of(buffers[i]),
        )
    &&& forall|i: int, j: int|
        0 <= i < j < buffers.len() && (#[trigger] buffers[i]).backing is Host && (
        #[trigger] buffers[j]).backing is Host ==> offset_of(buffers[i]) != offset_of(buffers[j])
}

/// Whether no host buffers of two lists are known by one offset.
pub open spec fn lists_apart<GM, H>(a: Seq<Buffer<GM, H>>, b: Seq<Buffer<GM, H>>) -> bool {
    forall|i: int, j: int|
        0 <= i < a.len() && 0 <= j < b.len() && (#[trigger] a[i]).backing is Host && (
        #[trigger] b[j]).backing is Host ==> offset_of(a[i]) != offset_of(b[j])
}

/// Whether each offset names one buffer: of the two queues of a session and the retired buffers,
/// no two host buffers are known by one offset, and each by one that is registered.
pub open spec fn placed<GM, H, S, K>(d: DeviceView<GM, H, S, K>, s: SessionView<GM, H>) -> bool {
    &&& retired_placed(d.retired, d.ranges)
    &&& list_placed(d, s.input.buffers)
    &&& list_placed(d, s.output.buffers)
    &&& lists_apart(s.input.buffers, s.output.buffers)
}

/// Whether a list has the host buffers of another where that one has them.
pub open spec fn same_places<GM, H>(a: Seq<Buffer<GM, H>>, b: Seq<Buffer<GM, H>>) -> bool {
    &&& a.len() == b.len()
    &&& forall|i: int|
        0 <= i < a.len() ==> ((#[trigger] b[i]).backing is Host <==> a[i].backing is Host) && (
        b[i].backing is Host ==> offset_of(b[i]) == offset_of(a[i]))
}

/// Whether the queues of a session have the host buffers they had.
pub open spec fn keeps_places<GM, H>(s: SessionView<GM, H>, s2: SessionView<GM, H>) -> bool {
    same_places(s.input.buffers, s2.input.buffers) && same_places(
        s.output.buffers,
        s2.output.buffers,
    )
}

/// Whether a device has the offsets and retired buffers it had.
pub open spec fn keeps_offsets<GM, H, S, K>(
    d: DeviceView<GM, H, S, K>,
    d2: DeviceView<GM, H, S, K>,
) -> bool {
    d2.ranges == d.ranges && d2.retired == d.retired
}

/// What moves no buffer keeps each at its offset.
proof fn unmoved_buffers_are_placed<GM, H, S, K>(
    d: DeviceView<GM, H, S, K>,
    s: SessionView<GM, H>,
    d2: DeviceView<GM, H, S, K>,
    s2: SessionView<GM, H>,
)
    requires
        placed(d, s),
        keeps_places(s, s2),
        keeps_offsets(d, d2),
    ensures
        placed(d2, s2),
{
    assert forall|i: int|
        0 <= i < s2.input.buffers.len() && (
        #[trigger] s2.input.buffers[i]).backing is Host implies in_use(
        d2,
        offset_of(s2.input.buffers[i]),
    ) by {
        assert(in_use(d, offset_of(s.input.buffers[i])));
    }
    assert forall|i: int|
        0 <= i < s2.output.buffers.len() && (
        #[trigger] s2.output.buffers[i]).backing is Host implies in_use(
        d2,
        offset_of(s2.output.buffers[i]),
    ) by {
        assert(in_use(d, offset_of(s.output.buffers[i])));
    }
}

/// Freeing buffers leaves every other offset in use, and the retired ones each its own.
proof fn freeing_keeps_other_places<GM, H, S, K>(
    d: DeviceView<GM, H, S, K>,
    buffers: Seq<Buffer<GM, H>>,
)
    requires
        retired_placed(d.retired, d.ranges),
        list_placed(d, buffers),
    ensures
        retired_placed(freed(d, buffers).retired, freed(d, buffers).ranges),
        forall|o: u32|
            in_use(d, o) && (forall|i: int|
                0 <= i < buffers.len() && (#[trigger] buffers[i]).backing is Host ==> offset_of(
                    buffers[i],
                ) != o) ==> #[trigger] in_use(freed(d, buffers), o),
    decreases buffers.len(),
{
    if buffers.len() > 0 {
        let before = buffers.drop_last();
        assert(list_placed(d, before)) by {
            assert forall|i: int|
                0 <= i < before.len() && (#[trigger] before[i]).backing is Host implies in_use(
                d,
                offset_of(before[i]),
            ) by {
                assert(before[i] == buffers[i]);
            }
        }
        freeing_keeps_other_places(d, before);
        let e = freed(d, before);
        let f = freed(d, buffers);
        let last = buffers.last();
        let n = buffers.len() - 1;
        if last.backing is Host {
            let gone = offset_of(last);
            assert(in_use(d, offset_of(buffers[n])));
            assert forall|i: int|
                0 <= i < before.len() && (#[trigger] before[i]).backing is Host implies offset_of(
                before[i],
            ) != gone by {
                assert(before[i] == buffers[i]);
            }
            assert(in_use(e, gone));
            if mapped(e.mappings, gone) {
                let new = Retired { offset: gone, buffer: last.backing->buffer };
                assert(f.retired == e.retired.push(new));
                assert forall|k: int| 0 <= k < f.retired.len() implies registered(
                    f.ranges,
                    (#[trigger] f.retired[k]).offset,
                ) by {
                    if k < e.retired.len() {
                        assert(registered(e.ranges, e.retired[k].offset));
                    }
                }
                assert forall|j: int, k: int| 0 <= j < k < f.retired.len() implies (
                #[trigger] f.retired[j]).offset != (#[trigger] f.retired[k]).offset by {
                    assert(f.retired[j] == e.retired[j]);
                    if k < e.retired.len() {
                        assert(f.retired[k] == e.retired[k]);
                    }
                }
            } else {
                assert forall|k: int| 0 <= k < f.retired.len() implies registered(
                    f.ranges,
                    (#[trigger] f.retired[k]).offset,
                ) by {
                    assert(e.retired[k].offset != gone);
                    stays_registered(e.ranges, gone, e.retired[k].offset);
                }
            }
            assert forall|o: u32|
                in_use(d, o) && (forall|i: int|
                    0 <= i < buffers.len() && (#[trigger] buffers[i]).backing is Host ==> offset_of(
                        buffers[i],
                    ) != o) implies #[trigger] in_use(f, o) by {
                assert(offset_of(buffers[n]) != o);
                assert forall|i: int|
                    0 <= i < before.len() && (
                    #[trigger] before[i]).backing is Host implies offset_of(before[i]) != o by {
                    assert(before[i] == buffers[i]);
                }
                assert(in_use(e, o));
                if mapped(e.mappings, gone) {
                    if retired_at(f.retired, o) {
                        let k = choose|k: int|
                            0 <= k < f.retired.len() && (#[trigger] f.retired[k]).offset == o;
                        assert(e.retired[k].offset == o);
                    }
                } else {
                    stays_registered(e.ranges, gone, o);
                }
            }
        } else {
            assert forall|o: u32|
                in_use(d, o) && (forall|i: int|
                    0 <= i < buffers.len() && (#[trigger] buffers[i]).backing is Host ==> offset_of(
                        buffers[i],
                    ) != o) implies #[trigger] in_use(f, o) by {
                assert forall|i: int|
                    0 <= i < before.len() && (
                    #[trigger] before[i]).backing is Host implies offset_of(before[i]) != o by {
                    assert(before[i] == buffers[i]);
                }
                assert(in_use(e, o));
            }
        }
    }
}

/// Unregistering one offset leaves the others.
proof fn stays_registered(ranges: Set<MmapRange>, gone: u32, offset: u32)
    requires
        registered(ranges, offset),
        offset != gone,
    ensures
        registered(without(ranges, gone), offset),
{
    let r = choose|r: MmapRange| #[trigger] ranges.contains(r) && r.offset == offset;
    assert(without(ranges, gone).contains(r));
}

/// Giving back retired buffers the guest no longer maps leaves the offsets in use, and the other
/// retired ones each its own.
proof fn reaping_keeps_places<H>(
    held: Seq<Retired<H>>,
    mappings: Seq<MmapMapping>,
    ranges: Set<MmapRange>,
)
    requires
        retired_placed(held, ranges),
    ensures
        retired_placed(still_held(held, mappings), ranges_after(held, mappings, ranges)),
        forall|o: u32| #[trigger]
            retired_at(still_held(held, mappings), o) ==> retired_at(held, o),
        forall|o: u32|
            registered(ranges, o) && !retired_at(held, o) ==> #[trigger] registered(
                ranges_after(held, mappings, ranges),
                o,
            ),
    decreases held.len(),
{
    if held.len() > 0 {
        let before = held.drop_last();
        let gone = held.last().offset;
        let n = held.len() - 1;
        assert(retired_placed(before, ranges)) by {
            assert forall|k: int| 0 <= k < before.len() implies registered(
                ranges,
                (#[trigger] before[k]).offset,
            ) by {
                assert(before[k] == held[k]);
            }
        }
        reaping_keeps_places(before, mappings, ranges);
        let kept = still_held(before, mappings);
        let left = ranges_after(before, mappings, ranges);
        assert(!retired_at(before, gone)) by {
            if retired_at(before, gone) {
                let k = choose|k: int|
                    0 <= k < before.len() && (#[trigger] before[k]).offset == gone;
                assert(held[k].offset != held[n].offset);
            }
        }
        assert(registered(ranges, held[n].offset));
        assert(registered(left, gone));
        assert(!retired_at(kept, gone));
        let kept2 = still_held(held, mappings);
        let left2 = ranges_after(held, mappings, ranges);
        if mapped(mappings, gone) {
            assert(kept2 == kept.push(held.last()));
            assert forall|k: int| 0 <= k < kept2.len() implies registered(
                left2,
                (#[trigger] kept2[k]).offset,
            ) by {
                if k < kept.len() {
                    assert(registered(left, kept[k].offset));
                }
            }
            assert forall|j: int, k: int| 0 <= j < k < kept2.len() implies (
            #[trigger] kept2[j]).offset != (#[trigger] kept2[k]).offset by {
                assert(kept2[j] == kept[j]);
                if k < kept.len() {
                    assert(kept2[k] == kept[k]);
                }
            }
        } else {
            assert forall|k: int| 0 <= k < kept2.len() implies registered(
                left2,
                (#[trigger] kept2[k]).offset,
            ) by {
                assert(kept[k].offset != gone);
                stays_registered(left, gone, kept[k].offset);
            }
        }
        assert forall|o: u32| #[trigger] retired_at(kept2, o) implies retired_at(held, o) by {
            let k = choose|k: int| 0 <= k < kept2.len() && (#[trigger] kept2[k]).offset == o;
            if k < kept.len() {
                assert(kept[k].offset == o);
                assert(retired_at(kept, o));
                let j = choose|j: int| 0 <= j < before.len() && (#[trigger] before[j]).offset == o;
                assert(held[j].offset == o);
            } else {
                assert(held[n].offset == o);
            }
        }
        assert forall|o: u32| registered(ranges, o) && !retired_at(held, o) implies
            #[trigger] registered(left2, o) by {
            assert(held[n].offset != o);
            assert(!retired_at(before, o)) by {
                if retired_at(before, o) {
                    let k = choose|k: int|
                        0 <= k < before.len() && (#[trigger] before[k]).offset == o;
                    assert(held[k].offset == o);
                }
            }
            assert(registered(left, o));
            if !mapped(mappings, gone) {
                stays_registered(left, gone, o);
            }
        }
    }
}

/// Unmapping leaves each offset the name of one buffer: what it gives back is retired, and no
/// session's.
pub proof fn unmapping_keeps_places<GM, H, S, K>(
    d: DeviceView<GM, H, S, K>,
    addr: u64,
    d2: DeviceView<GM, H, S, K>,
    r: Result<(), i32>,
    s: SessionView<GM, H>,
)
    requires
        placed(d, s),
        unmapped(d, addr, d2, r),
    ensures
        placed(d2, s),
{
    let mappings = d2.mappings;
    assert(d2.retired == still_held(d.retired, mappings));
    assert(d2.ranges == ranges_after(d.retired, mappings, d.ranges));
    reaping_keeps_places(d.retired, mappings, d.ranges);
    assert forall|i: int|
        0 <= i < s.input.buffers.len() && (
        #[trigger] s.input.buffers[i]).backing is Host implies in_use(
        d2,
        offset_of(s.input.buffers[i]),
    ) by {
        assert(in_use(d, offset_of(s.input.buffers[i])));
    }
    assert forall|i: int|
        0 <= i < s.output.buffers.len() && (
        #[trigger] s.output.buffers[i]).backing is Host implies in_use(
        d2,
        offset_of(s.output.buffers[i]),
    ) by {
        assert(in_use(d, offset_of(s.output.buffers[i])));
    }
}

/// The session with the buffers of one queue freed has the others where they were.
proof fn emptying_keeps_places<GM, H, S, K>(
    d: DeviceView<GM, H, S, K>,
    s: SessionView<GM, H>,
    direction: QueueDirection,
)
    requires
        placed(d, s),
    ensures
        placed(freed(d, s.queue(direction).buffers), s.with_queue(direction, empty_queue())),
{
    let buffers = s.queue(direction).buffers;
    let e = freed(d, buffers);
    let s2 = s.with_queue(direction, empty_queue());
    freeing_keeps_other_places(d, buffers);
    let other = match direction {
        QueueDirection::Output => s.output.buffers,
        QueueDirection::Capture => s.input.buffers,
    };
    assert forall|j: int|
        0 <= j < other.len() && (#[trigger] other[j]).backing is Host implies in_use(
        e,
        offset_of(other[j]),
    ) by {
        assert(in_use(d, offset_of(other[j])));
        assert forall|i: int|
            0 <= i < buffers.len() && (#[trigger] buffers[i]).backing is Host implies offset_of(
            buffers[i],
        ) != offset_of(other[j]) by {}
    }
}

/// New buffers are at offsets no other buffer has.
proof fn adding_keeps_places<GM, H, S, K>(
    d: DeviceView<GM, H, S, K>,
    s: SessionView<GM, H>,
    queue: QueueType,
    direction: QueueDirection,
    memory: MemoryType,
    count: int,
    size: u32,
    d2: DeviceView<GM, H, S, K>,
    s2: SessionView<GM, H>,
    r: Result<(), i32>,
)
    requires
        placed(d, s),
        buffers_added(d, s, queue, direction, memory, count, size, d2, s2, r),
    ensures
        placed(d2, s2),
{
    if r is Ok {
        let q = s.queue(direction).buffers;
        let q2 = s2.queue(direction).buffers;
        let n = q.len() as int;
        let added = q2.skip(n);
        if memory == MemoryType::Mmap {
            assert forall|o: u32| #[trigger] registered(d.ranges, o) implies registered(
                d2.ranges,
                o,
            ) by {
                let x = choose|x: MmapRange| #[trigger] d.ranges.contains(x) && x.offset == o;
                assert(with_new(d.ranges, added, size).contains(x));
            }
            assert forall|k: int| 0 <= k < added.len() implies registered(
                d2.ranges,
                offset_of(#[trigger] added[k]),
            ) && !registered(d.ranges, offset_of(added[k])) by {
                let x = MmapRange { offset: offset_of(added[k]), size };
                assert(with_new(d.ranges, added, size).contains(x));
            }
        }
        assert forall|o: u32| #[trigger] in_use(d, o) implies in_use(d2, o) by {}
        assert forall|i: int|
            0 <= i < q2.len() && (#[trigger] q2[i]).backing is Host implies in_use(
            d2,
            offset_of(q2[i]),
        ) by {
            if i < n {
                assert(in_use(d, offset_of(q[i])));
            } else {
                let k = i - n;
                assert(is_fresh(added[k], n + k, queue, memory, size));
                if retired_at(d.retired, offset_of(added[k])) {
                    let j = choose|j: int|
                        0 <= j < d.retired.len() && (#[trigger] d.retired[j]).offset == offset_of(
                            added[k],
                        );
                    assert(registered(d.ranges, d.retired[j].offset));
                }
            }
        }
        assert forall|i: int, j: int|
            0 <= i < j < q2.len() && (#[trigger] q2[i]).backing is Host && (
            #[trigger] q2[j]).backing is Host implies offset_of(q2[i]) != offset_of(q2[j]) by {
            if j < n {
                assert(q2[i] == q[i] && q2[j] == q[j]);
            } else {
                assert(q2[j] == added[j - n]);
                assert(is_fresh(added[j - n], j, queue, memory, size));
                if i < n {
                    assert(in_use(d, offset_of(q[i])));
                } else {
                    assert(q2[i] == added[i - n]);
                }
            }
        }
        let other = match direction {
            QueueDirection::Output => s.output.buffers,
            QueueDirection::Capture => s.input.buffers,
        };
        assert forall|i: int|
            0 <= i < other.len() && (#[trigger] other[i]).backing is Host implies in_use(
            d2,
            offset_of(other[i]),
        ) && forall|j: int|
            0 <= j < q2.len() && (#[trigger] q2[j]).backing is Host ==> offset_of(q2[j])
                != offset_of(other[i]) by {
            assert(in_use(d, offset_of(other[i])));
            assert forall|j: int|
                0 <= j < q2.len() && (#[trigger] q2[j]).backing is Host implies offset_of(q2[j])
                != offset_of(other[i]) by {
                if j < n {
                    assert(q2[j] == q[j]);
                } else {
                    assert(q2[j] == added[j - n]);
                    assert(is_fresh(added[j - n], j, queue, memory, size));
                }
            }
        }
        assert forall|k: int| 0 <= k < d2.retired.len() implies registered(
            d2.ranges,
            (#[trigger] d2.retired[k]).offset,
        ) by {
            assert(registered(d.ranges, d.retired[k].offset));
        }
    }
}

/// Lending what waits moves no buffer.
proof fn feeding_moves_nothing<GM, H, S, K>(
    d: DeviceView<GM, H, S, K>,
    s: SessionView<GM, H>,
    d2: DeviceView<GM, H, S, K>,
    s2: SessionView<GM, H>,
    r: Result<(), i32>,
)
    requires
        feeds(d, s, d2, s2, r),
    ensures
        keeps_places(s, s2),
        keeps_offsets(d, d2),
{
    if s.feeding() && r is Err {
        let (k, errno) = choose|k: int, errno: i32|
            0 <= k < s.waiting() && s2 == #[trigger] refused_loan(s, k, errno);
    }
}

/// Starting the codec moves no buffer.
proof fn starting_moves_nothing<GM, H, S, K>(
    d: DeviceView<GM, H, S, K>,
    s: SessionView<GM, H>,
    d2: DeviceView<GM, H, S, K>,
    s2: SessionView<GM, H>,
    r: Result<(), i32>,
)
    requires
        starts(d, s, d2, s2, r),
    ensures
        keeps_places(s, s2),
        keeps_offsets(d, d2),
{
    if s.running() {
        if s.codec_started {
            feeding_moves_nothing(d, s, d2, s2, r);
        } else {
            let answer = choose|answer: Result<(), i32>|
                {
                    let s1 = #[trigger] asked_to_start(d, s, answer);
                    match answer {
                        Ok(_) => feeds(d, SessionView { codec_started: true, ..s1 }, d2, s2, r),
                        Err(e) => r == Err::<(), i32>(e) && d2 == d && s2 == s1,
                    }
                };
            let s1 = asked_to_start(d, s, answer);
            if answer is Ok {
                let t = SessionView { codec_started: true, ..s1 };
                feeding_moves_nothing(d, t, d2, s2, r);
            }
        }
    }
}

/// What the codec reports moves no buffer.
proof fn reports_move_nothing<GM, H, S, K>(
    d: DeviceView<GM, H, S, K>,
    s: SessionView<GM, H>,
    events: Seq<EncoderEvent>,
)
    ensures
        keeps_places(s, all_handled(d, s, events).1),
        keeps_offsets(d, all_handled(d, s, events).0),
    decreases events.len(),
{
    if events.len() > 0 && !s.dead {
        let (d1, s1) = handled(d, s, events[0]);
        reports_move_nothing(d1, s1, events.skip(1));
        let s2 = all_handled(d, s, events).1;
        assert(keeps_places(s, s1));
        unmoved_twice(s.input.buffers, s1.input.buffers, s2.input.buffers);
        unmoved_twice(s.output.buffers, s1.output.buffers, s2.output.buffers);
    }
}

/// What is not moved twice is not moved.
proof fn unmoved_twice<GM, H>(
    a: Seq<Buffer<GM, H>>,
    b: Seq<Buffer<GM, H>>,
    c: Seq<Buffer<GM, H>>,
)
    requires
        same_places(a, b),
        same_places(b, c),
    ensures
        same_places(a, c),
{
    assert forall|i: int| 0 <= i < a.len() implies ((#[trigger] c[i]).backing is Host
        <==> a[i].backing is Host) && (c[i].backing is Host ==> offset_of(c[i]) == offset_of(
        a[i],
    )) by {
        assert(b[i].backing is Host <==> a[i].backing is Host);
    }
}

/// The raw frames reported done move no buffer.
proof fn done_inputs_move_nothing<GM, H, S, K>(
    d: DeviceView<GM, H, S, K>,
    s: SessionView<GM, H>,
    events: Seq<EncoderEvent>,
)
    ensures
        same_places(s.input.buffers, inputs_done(d, s, events).1.input.buffers),
        keeps_offsets(d, inputs_done(d, s, events).0),
    decreases events.len(),
{
    if events.len() > 0 {
        let (d1, s1) = if events[0] is InputBufferDone {
            handled(d, s, events[0])
        } else {
            (d, s)
        };
        done_inputs_move_nothing(d1, s1, events.skip(1));
        assert(same_places(s.input.buffers, s1.input.buffers));
        unmoved_twice(
            s.input.buffers,
            s1.input.buffers,
            inputs_done(d, s, events).1.input.buffers,
        );
    }
}

/// Stopping a queue moves no buffer.
proof fn stopping_moves_nothing<GM, H, S, K>(
    d: DeviceView<GM, H, S, K>,
    s: SessionView<GM, H>,
    stopping: QueueDirection,
    d2: DeviceView<GM, H, S, K>,
    s2: SessionView<GM, H>,
)
    requires
        stream_off(d, s, stopping, d2, s2),
    ensures
        keeps_places(s, s2),
        keeps_offsets(d, d2),
{
    if s.codec_started && !s.dead {
        match stopping {
            QueueDirection::Output => {
                let answer = choose|answer: Result<(), i32>|
                    d2 == (#[trigger] flushed(d, s, answer)).0 && s2 == flushed(
                        d,
                        s,
                        answer,
                    ).1.output_stopped();
            },
            QueueDirection::Capture => {
                let events = choose|events: Seq<EncoderEvent>|
                    d2 == (#[trigger] stopped(d, s, events)).0 && s2 == stopped(
                        d,
                        s,
                        events,
                    ).1.capture_stopped();
                let t = s.torn_down(events);
                done_inputs_leave_the_rest(d, t, events);
                done_inputs_move_nothing(d, t, events);
                let s1 = inputs_done(d, t, events).1;
                assert(same_places(s1.input.buffers, s2.input.buffers));
                unmoved_twice(s.input.buffers, s1.input.buffers, s2.input.buffers);
            },
        }
    }
}

/// Queueing a buffer moves none.
proof fn queueing_moves_nothing<GM, H, S, K>(
    d: DeviceView<GM, H, S, K>,
    s: SessionView<GM, H>,
    buffer: V4l2Buffer,
    regions: Seq<Seq<SgEntry>>,
    payload: PayloadValidity,
    d2: DeviceView<GM, H, S, K>,
    s2: SessionView<GM, H>,
    r: Result<V4l2Buffer, i32>,
)
    requires
        queued(d, s, buffer, regions, payload, d2, s2, r),
    ensures
        keeps_places(s, s2),
        keeps_offsets(d, d2),
{
    if s2 != s {
        let to = buffer.queue.video_mplane_direction()->0;
        let b = s.queue(to).buffers[buffer.index as int];
        let v = queued_description(b, buffer, to);
        let (d1, backing, fed) = match b.backing {
            Backing::Host { .. } => {
                let fed = choose|fed: Result<(), i32>| #[trigger]
                    feeds(d, enqueued(s, to, buffer, b.backing), d2, s2, fed) && r
                        == queueing_answer(v, fed);
                (d, b.backing, fed)
            },
            Backing::Guest(_) => {
                let answer = choose|answer: Result<GuestMapping<GM>, Option<GuestMappingError>>|
                    #[trigger]
                    queued_if_mapped(d, s, to, buffer, regions[0], v, answer, d2, s2, r);
                let d1 = mapping_asked(d, to, regions[0], answer);
                let backing = Backing::Guest(Some(answer->Ok_0));
                let fed = choose|fed: Result<(), i32>| #[trigger]
                    feeds(d1, enqueued(s, to, buffer, backing), d2, s2, fed) && r
                        == queueing_answer(v, fed);
                (d1, backing, fed)
            },
        };
        let t = enqueued(s, to, buffer, backing);
        assert(keeps_places(s, t));
        feeding_moves_nothing(d1, t, d2, s2, fed);
        unmoved_twice(s.input.buffers, t.input.buffers, s2.input.buffers);
        unmoved_twice(s.output.buffers, t.output.buffers, s2.output.buffers);
    }
}

/// An encoder command moves no buffer.
proof fn commanding_moves_nothing<GM, H, S, K>(
    d: DeviceView<GM, H, S, K>,
    s: SessionView<GM, H>,
    cmd: EncoderCmd,
    d2: DeviceView<GM, H, S, K>,
    s2: SessionView<GM, H>,
    r: Result<EncoderCmd, i32>,
)
    requires
        commanded(d, s, cmd, d2, s2, r),
    ensures
        keeps_places(s, s2),
        keeps_offsets(d, d2),
{
    if s2 != s && cmd.cmd == ENC_CMD_START {
        let n = normalized(cmd)->Ok_0;
        let answer = choose|answer: Result<(), i32>|
            {
                let s1 = #[trigger] resumed(s, answer);
                match answer {
                    Ok(_) => exists|fed: Result<(), i32>| #[trigger]
                        feeds(d, s1, d2, s2, fed) && r == command_answer(n, fed),
                    Err(e) => r == Err::<EncoderCmd, i32>(e) && d2 == d && s2 == s1,
                }
            };
        let s1 = resumed(s, answer);
        if answer is Ok {
            let fed = choose|fed: Result<(), i32>| #[trigger]
                feeds(d, s1, d2, s2, fed) && r == command_answer(n, fed);
            feeding_moves_nothing(d, s1, d2, s2, fed);
            unmoved_twice(s.input.buffers, s1.input.buffers, s2.input.buffers);
            unmoved_twice(s.output.buffers, s1.output.buffers, s2.output.buffers);
        }
    }
}

/// Replacing or freeing the buffers of a queue keeps each at its offset.
proof fn requesting_keeps_places<GM, H, S, K>(
    d: DeviceView<GM, H, S, K>,
    s: SessionView<GM, H>,
    queue: QueueType,
    memory: MemoryType,
    count: u32,
    d2: DeviceView<GM, H, S, K>,
    s2: SessionView<GM, H>,
    r: Result<RequestBuffers, i32>,
)
    requires
        placed(d, s),
        requested(d, s, queue, memory, count, d2, s2, r),
    ensures
        placed(d2, s2),
{
    if queue.video_mplane_direction() is Some && allocation_refused(d, s, memory, count) is None {
        let to = queue.video_mplane_direction()->0;
        if count == 0 {
            let (d1, s1) = choose|d1: DeviceView<GM, H, S, K>, s1: SessionView<GM, H>| #[trigger]
                stream_off(d, s, to, d1, s1) && (d2, s2) == all_freed(d1, s1, to);
            stopping_moves_nothing(d, s, to, d1, s1);
            unmoved_buffers_are_placed(d, s, d1, s1);
            emptying_keeps_places(d1, s1, to);
            unmoved_buffers_are_placed(freed(d1, s1.queue(to).buffers), s2, d2, s2);
        } else if !s.streaming(to) {
            let d1 = freed(d, s.queue(to).buffers);
            let s1 = s.with_queue(to, empty_queue());
            emptying_keeps_places(d, s, to);
            let done = match r {
                Ok(_) => Ok(()),
                Err(e) => Err(e),
            };
            adding_keeps_places(
                d1,
                s1,
                queue,
                to,
                memory,
                min(count as int, MAX_BUFFERS as int),
                s.sizeimage(to) as u32,
                d2,
                s2,
                done,
            );
        }
    }
}

/// Whatever the guest asks for, each offset goes on naming one buffer.
pub proof fn an_offset_names_one_buffer<GM, H, S, K>(
    d: DeviceView<GM, H, S, K>,
    s: SessionView<GM, H>,
    request: IoctlRequest,
    d2: DeviceView<GM, H, S, K>,
    s2: SessionView<GM, H>,
    reply: IoctlReply,
)
    requires
        placed(d, s),
        encoder_answers(d, s, request, d2, s2, reply),
    ensures
        placed(d2, s2),
{
    match request {
        IoctlRequest::ReqBufs { queue, memory, count } => {
            requesting_keeps_places(d, s, queue, memory, count, d2, s2, reply.requestbuffers());
        },
        IoctlRequest::CreateBufs { count, queue, memory, format } => {
            let r = reply.create_buffers();
            let to = queue.video_mplane_direction();
            if to is Some && creation_refused(
                d,
                s,
                to->0,
                memory,
                format,
            ) is None {
                let done = match r {
                    Ok(_) => Ok(()),
                    Err(e) => Err(e),
                };
                let n = min(count as int, MAX_BUFFERS - s.queue(to->0).buffers.len());
                if n > 0 {
                    adding_keeps_places(
                        d,
                        s,
                        queue,
                        to->0,
                        memory,
                        n,
                        format.fmt->PixMp_0.plane0.sizeimage,
                        d2,
                        s2,
                        done,
                    );
                }
            }
        },
        _ => {
            other_requests_move_nothing(d, s, request, d2, s2, reply);
            unmoved_buffers_are_placed(d, s, d2, s2);
        },
    }
}

/// Only requests to create or free buffers move any.
proof fn other_requests_move_nothing<GM, H, S, K>(
    d: DeviceView<GM, H, S, K>,
    s: SessionView<GM, H>,
    request: IoctlRequest,
    d2: DeviceView<GM, H, S, K>,
    s2: SessionView<GM, H>,
    reply: IoctlReply,
)
    requires
        encoder_answers(d, s, request, d2, s2, reply),
        !(request is ReqBufs),
        !(request is CreateBufs),
    ensures
        keeps_places(s, s2),
        keeps_offsets(d, d2),
{
    match request {
        IoctlRequest::QBuf { input } => {
            queueing_moves_nothing(
                d,
                s,
                input.buffer,
                scatter_lists(input.guest_regions@),
                input.payload,
                d2,
                s2,
                reply.buffer(),
            );
        },
        IoctlRequest::StreamOn { queue } => {
            let r = reply.done();
            if s2 != s {
                let to = queue.video_mplane_direction()->0;
                let t = s.with_streaming(to, true);
                let s1 = choose|s1: SessionView<GM, H>|
                    #![trigger left_streaming(s, s1, r)]
                    starts(d, t, d2, s1, r) && s2 == left_streaming(s, s1, r);
                starting_moves_nothing(d, t, d2, s1, r);
            }
        },
        IoctlRequest::StreamOff { queue } => {
            if queue.video_mplane_direction() is Some {
                stopping_moves_nothing(d, s, queue.video_mplane_direction()->0, d2, s2);
            }
        },
        IoctlRequest::EncoderCmd { cmd } => {
            commanding_moves_nothing(d, s, cmd, d2, s2, reply.encoder_cmd());
        },
        IoctlRequest::SExtCtrls { which, input } => {
            if s2 != s {
                let (values, answers) = choose|values: Seq<i32>, answers: Seq<Result<(), i32>>|
                    #[trigger]
                    set_applied(
                        d,
                        s,
                        which,
                        input.ctrls,
                        input.ctrl_array@,
                        values,
                        answers,
                        s2,
                        reply.header(),
                        reply.controls(),
                        reply.done(),
                    );
                controls_touch_no_buffer(d, s, input.ctrl_array@, values, answers);
            }
        },
        _ => {},
    }
}

/// What the codec reports leaves each offset the name of one buffer.
pub proof fn reports_keep_places<GM, H, S, K>(
    d: DeviceView<GM, H, S, K>,
    s: SessionView<GM, H>,
    d2: DeviceView<GM, H, S, K>,
    s2: SessionView<GM, H>,
)
    requires
        placed(d, s),
        events_processed(d, s, d2, s2),
    ensures
        placed(d2, s2),
{
    if !s.dead {
        let events = choose|events: Seq<EncoderEvent>|
            (d2, s2) == #[trigger] processed(d, s, events);
        let t = SessionView { codec: s.codec.push(CodecCall::TakeEvents { events }), ..s };
        reports_move_nothing(d, t, events);
        unmoved_buffers_are_placed(d, s, d2, s2);
    }
}

/// What one session asks for leaves the offsets of another's buffers.
pub proof fn others_keep_their_places<GM, H, S, K>(
    d: DeviceView<GM, H, S, K>,
    s: SessionView<GM, H>,
    request: IoctlRequest,
    d2: DeviceView<GM, H, S, K>,
    s2: SessionView<GM, H>,
    reply: IoctlReply,
    t: SessionView<GM, H>,
)
    requires
        d.fits(s),
        d.fits(t),
        s.id != t.id,
        placed(d, s),
        placed(d, t),
        encoder_answers(d, s, request, d2, s2, reply),
    ensures
        placed(d2, t),
{
    if t.has_buffers() {
        if !(request is ReqBufs) && !(request is CreateBufs) {
            other_requests_move_nothing(d, s, request, d2, s2, reply);
        }
        unmoved_buffers_are_placed(d, t, d2, t);
    } else {
        an_offset_names_one_buffer(d, s, request, d2, s2, reply);
    }
}

/// Closing a session leaves the offsets of another's buffers, and those of the buffers the guest
/// still maps.
pub proof fn closing_keeps_places<GM, H, S, K>(
    d: DeviceView<GM, H, S, K>,
    s: SessionView<GM, H>,
    session: S,
    t: SessionView<GM, H>,
)
    requires
        d.fits(s),
        d.fits(t),
        s.id != t.id,
        placed(d, s),
        placed(d, t),
    ensures
        placed(closed(d, s, session), t),
{
    let d2 = closed(d, s, session);
    if t.has_buffers() {
        unmoved_buffers_are_placed(d, t, d2, t);
    } else {
        let d1 = DeviceView {
            active_session: if d.active_session == Some(s.id) {
                None
            } else {
                d.active_session
            },
            ..d
        };
        unmoved_buffers_are_placed(d, s, d1, s);
        emptying_keeps_places(d1, s, QueueDirection::Output);
        emptying_keeps_places(
            freed(d1, s.input.buffers),
            s.with_queue(QueueDirection::Output, empty_queue()),
            QueueDirection::Capture,
        );
    }
}

/// A session that has just been opened has no buffers to name.
pub proof fn fresh_sessions_are_placed<GM, H, S, K>(
    d: DeviceView<GM, H, S, K>,
    id: u32,
    wake: i32,
)
    requires
        retired_placed(d.retired, d.ranges),
    ensures
        placed(d, fresh_session::<GM, H, S, K>(d, id, wake)),
{
}

} // verus!
