//! What queueing and preparing a buffer does, and what the codec is lent of what waits.
use vstd::prelude::*;

use super::backend::CodecCall;
use super::buffer_ioctls::{
    enqueued, mapping_asked, queued, queued_description, queued_if_mapped, queueing_answer,
    scatter_lists,
};
use super::buffer_laws::{bytes_needed, is_ours, of_session, same_but};
use super::codec::feeds;
use super::device::DeviceView;
use super::ioctls::encoder_answers;
use super::queue::{Backing, Buffer};
use super::session::{Drain, SessionView};
use crate::errno::{EINVAL, EIO, ENODEV};
use crate::host::{GuestMapping, GuestMappingError};
use crate::ioctl::read::GuestV4l2Buffer;
use crate::ioctl::reply::IoctlReply;
use crate::ioctl::requests::IoctlRequest;
use crate::protocol::V4l2Event;
use crate::v4l2::{MemoryType, QueueDirection, QueueType, V4l2Buffer};

verus! {

/// Whether what waits is lent at once: the codec is there, both queues stream, and no drain has
/// ended.
pub open spec fn lends_now<GM, H>(s: SessionView<GM, H>) -> bool {
    s.codec_started && s.state.output_streaming && s.state.capture_streaming && s.drain
        != Drain::Done
}

/// Whether a call lends the codec a raw frame and is taken: the bytes of the buffer where they are,
/// and the time the guest gave it.
pub open spec fn lends_frame<GM, H>(call: CodecCall, i: int, b: Buffer<GM, H>) -> bool {
    call matches CodecCall::Encode { buffer, answer } && {
        &&& answer is Ok
        &&& buffer.index == i
        &&& buffer.timestamp == b.v4l2_buffer.timestamp
        &&& is_where(buffer.ptr.0, buffer.len, b)
    }
}

/// Whether a call lends the codec a bitstream buffer and is taken.
pub open spec fn lends_room<GM, H>(call: CodecCall, i: int, b: Buffer<GM, H>) -> bool {
    call matches CodecCall::UseAsCapture { frame, answer } && {
        &&& answer is Ok
        &&& frame.index == i
        &&& is_where(frame.ptr.0, frame.len, b)
    }
}

/// Whether so many bytes at an address are those of a buffer: all of a host buffer, or what the
/// guest said of its own as far as it is mapped.
pub open spec fn is_where<GM, H>(ptr: usize, len: usize, b: Buffer<GM, H>) -> bool {
    match b.backing {
        Backing::Host { buffer, .. } => ptr == buffer.ptr && (buffer.len <= u32::MAX ==> len
            == buffer.len),
        Backing::Guest(Some(m)) => ptr == m.addr && len <= m.len && len
            <= b.v4l2_buffer.plane0.length && (len == m.len || len == b.v4l2_buffer.plane0.length
            || m.len > u32::MAX),
        Backing::Guest(None) => false,
    }
}

/// Everything that waits is lent, the bitstream buffers and then the raw frames, each in the order
/// it was queued in; then nothing waits. What is lent stays as it is, but that it is marked.
pub proof fn what_waits_is_lent_in_order<GM, H, S, K>(
    d: DeviceView<GM, H, S, K>,
    s: SessionView<GM, H>,
    d2: DeviceView<GM, H, S, K>,
    s2: SessionView<GM, H>,
    r: Result<(), i32>,
)
    requires
        s.wf(),
        feeds(d, s, d2, s2, r),
    ensures
        !lends_now(s) ==> r is Ok && s2 == s && d2 == d,
        lends_now(s) && r is Ok ==> {
            let n = s.codec.len() as int;
            let (outs, ins) = (s.output.pending, s.input.pending);
            &&& d2 == d
            &&& s2.codec.len() == n + outs.len() + ins.len()
            &&& s2.input.pending.len() == 0 && s2.output.pending.len() == 0
            &&& s2.input.lending == s.input.lending + ins
            &&& s2.output.lending == s.output.lending + outs
            &&& forall|k: int| 0 <= k < n ==> #[trigger] s2.codec[k] == s.codec[k]
            &&& forall|k: int|
                0 <= k < outs.len() ==> lends_room(
                    #[trigger] s2.codec[n + k],
                    outs[k] as int,
                    s.output.buffers[outs[k] as int],
                )
            &&& forall|k: int|
                0 <= k < ins.len() ==> lends_frame(
                    #[trigger] s2.codec[n + outs.len() + k],
                    ins[k] as int,
                    s.input.buffers[ins[k] as int],
                )
            &&& forall|k: int|
                0 <= k < outs.len() ==> s2.output.buffers[#[trigger] outs[k] as int] == (Buffer {
                    lent: true,
                    ..s.output.buffers[outs[k] as int]
                })
            &&& forall|k: int|
                0 <= k < ins.len() ==> s2.input.buffers[#[trigger] ins[k] as int] == (Buffer {
                    lent: true,
                    ..s.input.buffers[ins[k] as int]
                })
            &&& s2.input.buffers.len() == s.input.buffers.len() && s2.output.buffers.len()
                == s.output.buffers.len()
        },
{
    if lends_now(s) && r is Ok {
        let n = s.codec.len() as int;
        let (outs, ins) = (s.output.pending, s.input.pending);
        assert(ins.take(ins.len() as int) =~= ins && outs.take(outs.len() as int) =~= outs);
        super::queue::queued_buffers_are_addressed(s.output, QueueType::VideoCaptureMplane);
        super::queue::queued_buffers_are_addressed(s.input, QueueType::VideoOutputMplane);
        assert forall|k: int| 0 <= k < outs.len() implies lends_room(
            #[trigger] s2.codec[n + k],
            outs[k] as int,
            s.output.buffers[outs[k] as int],
        ) by {
            let b = s.output.buffers[outs[k] as int];
            assert(s2.codec[n + k] == s.loan(k, Ok(())));
            assert(b.queued);
            assert(b.wf(outs[k] as int, QueueType::VideoCaptureMplane, s.output.memory->0));
        }
        assert forall|k: int| 0 <= k < ins.len() implies lends_frame(
            #[trigger] s2.codec[n + outs.len() + k],
            ins[k] as int,
            s.input.buffers[ins[k] as int],
        ) by {
            let b = s.input.buffers[ins[k] as int];
            assert(s2.codec[n + outs.len() + k] == s.loan(outs.len() + k, Ok(())));
            assert(b.queued);
            assert(b.wf(ins[k] as int, QueueType::VideoOutputMplane, s.input.memory->0));
        }
        assert forall|k: int| 0 <= k < outs.len() implies s2.output.buffers[#[trigger] outs[k]
            as int] == (Buffer { lent: true, ..s.output.buffers[outs[k] as int] }) by {
            assert(outs.take(outs.len() as int)[k] == outs[k]);
        }
        assert forall|k: int| 0 <= k < ins.len() implies s2.input.buffers[#[trigger] ins[k] as int]
            == (Buffer { lent: true, ..s.input.buffers[ins[k] as int] }) by {
            assert(ins.take(ins.len() as int)[k] == ins[k]);
        }
    }
}

/// Whether the codec refused a buffer that it was lent.
pub open spec fn refuses(call: CodecCall) -> bool {
    match call {
        CodecCall::Encode { answer, .. } => answer is Err,
        CodecCall::UseAsCapture { answer, .. } => answer is Err,
        _ => false,
    }
}

/// A codec that refuses a buffer ends the session: it is stopped, every buffer is back with the
/// guest, who hears of it by one event, and `EIO` is told.
pub proof fn a_refused_buffer_ends_the_session<GM, H, S, K>(
    d: DeviceView<GM, H, S, K>,
    s: SessionView<GM, H>,
    d2: DeviceView<GM, H, S, K>,
    s2: SessionView<GM, H>,
    r: Result<(), i32>,
)
    requires
        feeds(d, s, d2, s2, r),
        r is Err,
    ensures
        lends_now(s),
        r == Err::<(), i32>(EIO),
        d2 == (DeviceView {
            events: d.events.push(V4l2Event::Error { session_id: s.id, errno: ENODEV }),
            ..d
        }),
        s2.dead && !s2.codec_started,
        s.codec.len() + 2 <= s2.codec.len() <= s.codec.len() + s.output.pending.len()
            + s.input.pending.len() + 1,
        s2.codec.last() is Stop,
        refuses(s2.codec[s2.codec.len() - 2]),
        forall|k: int| 0 <= k < s.codec.len() ==> #[trigger] s2.codec[k] == s.codec[k],
        forall|k: int|
            s.codec.len() <= k < s2.codec.len() - 2 ==> !refuses(#[trigger] s2.codec[k]) && (
            s2.codec[k] is Encode || s2.codec[k] is UseAsCapture),
        s2.input.pending.len() == 0 && s2.output.pending.len() == 0,
        forall|k: int|
            0 <= k < s2.input.buffers.len() ==> !(#[trigger] s2.input.buffers[k]).lent
                && !s2.input.buffers[k].queued,
        forall|k: int|
            0 <= k < s2.output.buffers.len() ==> !(#[trigger] s2.output.buffers[k]).lent
                && !s2.output.buffers[k].queued,
{
    let (k, errno) = choose|k: int, errno: i32|
        0 <= k < s.waiting() && s2 == #[trigger] super::codec::refused_loan(s, k, errno);
    let n = s.codec.len() as int;
    assert(s2.codec[n + k] == s.loan(k, Err(errno)));
    assert forall|i: int| n <= i < s2.codec.len() - 2 implies !refuses(#[trigger] s2.codec[i]) && (
    s2.codec[i] is Encode || s2.codec[i] is UseAsCapture) by {
        assert(s2.codec[i] == s.loan(i - n, Ok(())));
    }
}

/// How the queue of a queued buffer is: the buffer waits behind the others, as the guest described
/// it.
proof fn queueing_comes_to_feeding<GM, H, S, K>(
    d: DeviceView<GM, H, S, K>,
    s: SessionView<GM, H>,
    input: GuestV4l2Buffer,
    to: QueueDirection,
    d2: DeviceView<GM, H, S, K>,
    s2: SessionView<GM, H>,
    r: Result<V4l2Buffer, i32>,
) -> (out: (DeviceView<GM, H, S, K>, Backing<GM, H>))
    requires
        queued(
            d,
            s,
            input.buffer,
            scatter_lists(input.guest_regions@),
            input.payload,
            d2,
            s2,
            r,
        ),
        r is Ok,
        input.buffer.queue.video_mplane_direction() == Some(to),
    ensures
        ({
            let b = s.queue(to).buffers[input.buffer.index as int];
            let (d1, backing) = out;
            let lists = scatter_lists(input.guest_regions@);
            &&& feeds(d1, enqueued(s, to, input.buffer, backing), d2, s2, Ok(()))
            &&& r == Ok::<V4l2Buffer, i32>(queued_description(b, input.buffer, to))
            &&& b.backing is Host ==> d1 == d && backing == b.backing
            &&& b.backing is Guest ==> backing is Guest && backing->Guest_0 is Some && d1
                == mapping_asked(d, to, lists[0], Ok(backing->Guest_0->0))
        }),
{
    let lists = scatter_lists(input.guest_regions@);
    let buffer = input.buffer;
    let b = s.queue(to).buffers[buffer.index as int];
    match b.backing {
        Backing::Host { .. } => {
            let fed = choose|fed: Result<(), i32>| #[trigger]
                feeds(d, enqueued(s, to, buffer, b.backing), d2, s2, fed) && r == queueing_answer(
                    queued_description(b, buffer, to),
                    fed,
                );
            assert(fed->Ok_0 == ());
            (d, b.backing)
        },
        Backing::Guest(_) => {
            let v = queued_description(b, buffer, to);
            let answer = choose|answer: Result<GuestMapping<GM>, Option<GuestMappingError>>|
                #[trigger]
                queued_if_mapped(d, s, to, buffer, lists[0], v, answer, d2, s2, r);
            let backing = Backing::Guest(Some(answer->Ok_0));
            let d1 = mapping_asked(d, to, lists[0], answer);
            let fed = choose|fed: Result<(), i32>| #[trigger]
                feeds(d1, enqueued(s, to, buffer, backing), d2, s2, fed) && r == queueing_answer(
                    v,
                    fed,
                );
            assert(fed->Ok_0 == ());
            (d1, backing)
        },
    }
}

/// Flags added and taken away are told.
proof fn flags_are_told(x: u32)
    ensures
        ({
            let queued = (x & 0x91_7d7f & !0x10_043cu32) & 0x91_7d7f | 0x2u32;
            &&& queued & 0x2u32 == 0x2
            &&& queued & 0x400u32 == 0
            &&& queued & 0x10_003cu32 == 0
            &&& queued & 0x4000u32 == x & 0x4000u32
        }),
        ({
            let prepared = (x & 0x91_7d7f & !0x10_0006u32) & 0x91_7d7f | 0x400u32;
            &&& prepared & 0x400u32 == 0x400
            &&& prepared & 0x2u32 == 0
            &&& prepared & 0x10_0004u32 == 0
            &&& prepared & 0x4000u32 == x & 0x4000u32
        }),
        0x4000u32 & 0x4000u32 == 0x4000,
{
    let queued = (x & 0x91_7d7f & !0x10_043cu32) & 0x91_7d7f | 0x2u32;
    assert(queued & 0x2u32 == 0x2 && queued & 0x400u32 == 0 && queued & 0x10_003cu32 == 0 && queued
        & 0x4000u32 == x & 0x4000u32) by (bit_vector)
        requires
            queued == (x & 0x91_7d7f & !0x10_043cu32) & 0x91_7d7f | 0x2u32,
    ;
    let prepared = (x & 0x91_7d7f & !0x10_0006u32) & 0x91_7d7f | 0x400u32;
    assert(prepared & 0x400u32 == 0x400 && prepared & 0x2u32 == 0 && prepared & 0x10_0004u32 == 0
        && prepared & 0x4000u32 == x & 0x4000u32) by (bit_vector)
        requires
            prepared == (x & 0x91_7d7f & !0x10_0006u32) & 0x91_7d7f | 0x400u32,
    ;
    assert(0x4000u32 & 0x4000u32 == 0x4000) by (bit_vector);
}

/// A queued buffer is told as queued, and no longer as prepared, done or what it held. On `OUTPUT`
/// it has the payload and the time the guest gave it, on `CAPTURE` no payload; a buffer prepared
/// before keeps the payload it was prepared with.
pub proof fn queued_buffers_are_as_described<GM, H, S, K>(
    d: DeviceView<GM, H, S, K>,
    s: SessionView<GM, H>,
    input: GuestV4l2Buffer,
    d2: DeviceView<GM, H, S, K>,
    s2: SessionView<GM, H>,
    reply: IoctlReply,
)
    requires
        d.fits(s),
        encoder_answers(d, s, IoctlRequest::QBuf { input }, d2, s2, reply),
        reply is Buffer,
    ensures
        is_ours(input.buffer.queue),
        ({
            let v = reply->buffer;
            let asked = input.buffer;
            let b = of_session(s, asked.queue).buffers[asked.index as int];
            &&& asked.index < of_session(s, asked.queue).buffers.len()
            &&& !b.queued
            &&& v.index == asked.index
            &&& v.queue == asked.queue
            &&& v.memory == asked.memory
            &&& v.flags & 0x2 == 0x2
            &&& v.flags & 0x400 == 0
            &&& v.flags & 0x10_003c == 0
            &&& asked.memory == MemoryType::UserPtr && b.prepared is None ==> v.flags & 0x4000
                == 0x4000 && v.field == 1
            &&& asked.memory == MemoryType::Mmap ==> v.flags & 0x4000 == b.v4l2_buffer.flags
                & 0x4000
            &&& asked.queue == QueueType::VideoCaptureMplane && (b.prepared is Some || asked.memory
                == MemoryType::Mmap) ==> v.timestamp == b.v4l2_buffer.timestamp
            &&& asked.queue == QueueType::VideoOutputMplane ==> v.timestamp == asked.timestamp
            &&& b.prepared is None && asked.queue == QueueType::VideoOutputMplane
                ==> v.plane0.bytesused == asked.plane0.bytesused
            &&& b.prepared is None && asked.queue == QueueType::VideoCaptureMplane
                ==> v.plane0.bytesused == 0
            &&& b.prepared is Some ==> v.plane0.bytesused == b.v4l2_buffer.plane0.bytesused
            &&& asked.memory == MemoryType::Mmap ==> v.plane0.length
                == b.v4l2_buffer.plane0.length && v.plane0.m == b.v4l2_buffer.plane0.m
            &&& asked.memory == MemoryType::UserPtr && b.prepared is None ==> v.plane0.length
                == asked.plane0.length && v.plane0.m == asked.plane0.m
            &&& of_session(s2, asked.queue).buffers.len() == of_session(s,
                asked.queue).buffers.len()
            &&& of_session(s2, asked.queue).buffers[asked.index as int].v4l2_buffer == v
            &&& of_session(s2, asked.queue).buffers[asked.index as int].queued
            &&& of_session(s2, asked.queue).buffers[asked.index as int].prepared is None
        }),
{
    let to = input.buffer.queue.video_mplane_direction()->0;
    let (d1, backing) = queueing_comes_to_feeding(d, s, input, to, d2, s2, reply.buffer());
    let b = s.queue(to).buffers[input.buffer.index as int];
    assert(b.wf(input.buffer.index as int, input.buffer.queue, s.queue(to).memory->0));
    let t = enqueued(s, to, input.buffer, backing);
    flags_are_told(b.v4l2_buffer.flags);
    flags_are_told(0x4000u32);
    flags_are_told(b.v4l2_buffer.with_first_bytesused(0).flags);
    if lends_now(t) {
        let q = t.queue(to);
        let k = q.pending.len() - 1;
        assert(q.pending[k] == input.buffer.index as usize);
        assert(q.pending.take(q.pending.len() as int)[k] == input.buffer.index as usize);
    }
}

/// A queued buffer waits behind those that wait while nothing is lent, and nothing is asked of the
/// codec. Where what waits is lent, the codec is lent it last of its queue: alone, if nothing
/// waited before.
pub proof fn queued_buffers_wait_or_are_lent<GM, H, S, K>(
    d: DeviceView<GM, H, S, K>,
    s: SessionView<GM, H>,
    input: GuestV4l2Buffer,
    d2: DeviceView<GM, H, S, K>,
    s2: SessionView<GM, H>,
    reply: IoctlReply,
)
    requires
        d.fits(s),
        encoder_answers(d, s, IoctlRequest::QBuf { input }, d2, s2, reply),
        reply is Buffer,
    ensures
        ({
            let asked = input.buffer;
            let i = asked.index as int;
            let raw = asked.queue == QueueType::VideoOutputMplane;
            let q = of_session(s, asked.queue);
            let q2 = of_session(s2, asked.queue);
            let n = s.codec.len() as int;
            &&& !lends_now(s) ==> {
                &&& same_but(s, s2, asked.queue)
                &&& q2.pending == q.pending.push(asked.index as usize)
                &&& !q2.buffers[i].lent
            }
            &&& lends_now(s) ==> {
                &&& q2.buffers[i].lent
                &&& q2.pending.len() == 0
                &&& s.input.pending.len() == 0 && s.output.pending.len() == 0 ==> s2.codec.len()
                    == n + 1 && (if raw {
                    lends_frame(s2.codec[n], i, q2.buffers[i])
                } else {
                    lends_room(s2.codec[n], i, q2.buffers[i])
                })
            }
            &&& d2.events == d.events && d2.mapper == d.mapper && d2.pool == d.pool
        }),
{
    let to = input.buffer.queue.video_mplane_direction()->0;
    let (d1, backing) = queueing_comes_to_feeding(d, s, input, to, d2, s2, reply.buffer());
    let t = enqueued(s, to, input.buffer, backing);
    let i = input.buffer.index as int;
    let b = s.queue(to).buffers[i];
    assert(b.wf(i, input.buffer.queue, s.queue(to).memory->0));
    super::buffer_ioctls::enqueued_is_wf(s.queue(to), input.buffer.queue, to, input.buffer,
        backing);
    if lends_now(s) {
        what_waits_is_lent_in_order(d1, t, d2, s2, Ok(()));
        let q = t.queue(to);
        let k = q.pending.len() - 1;
        assert(q.pending[k] == input.buffer.index as usize);
        assert(s2.queue(to).buffers[q.pending[k] as int] == (Buffer {
            lent: true,
            ..q.buffers[q.pending[k] as int]
        }));
        let n = s.codec.len() as int;
        if s.input.pending.len() == 0 && s.output.pending.len() == 0 {
            if to == QueueDirection::Output {
                assert(lends_frame(s2.codec[n + 0 + 0], i, q.buffers[i]));
            } else {
                assert(lends_room(s2.codec[n + 0], i, q.buffers[i]));
            }
        }
    }
}

/// The guest's memory is mapped from the list sent with the buffer, to be written to on `CAPTURE`
/// alone, and is the buffer's from then on; nothing is mapped for a host buffer.
pub proof fn the_guests_memory_is_mapped_as_sent<GM, H, S, K>(
    d: DeviceView<GM, H, S, K>,
    s: SessionView<GM, H>,
    input: GuestV4l2Buffer,
    d2: DeviceView<GM, H, S, K>,
    s2: SessionView<GM, H>,
    reply: IoctlReply,
)
    requires
        d.fits(s),
        encoder_answers(d, s, IoctlRequest::QBuf { input }, d2, s2, reply),
        reply is Buffer,
    ensures
        ({
            let asked = input.buffer;
            let b2 = of_session(s2, asked.queue).buffers[asked.index as int];
            &&& asked.memory == MemoryType::Mmap ==> d2.guest == d.guest
            &&& asked.memory == MemoryType::UserPtr ==> {
                &&& d2.guest.len() == d.guest.len() + 1
                &&& d2.guest.last().sgs == input.guest_regions@[0]@
                &&& d2.guest.last().writable <==> asked.queue == QueueType::VideoCaptureMplane
                &&& d2.guest.last().answer matches Ok(m) && b2.backing == Backing::<GM, H>::Guest(
                    Some(m),
                ) && m.len >= bytes_needed(s, asked.queue)
            }
        }),
{
    let to = input.buffer.queue.video_mplane_direction()->0;
    let (d1, backing) = queueing_comes_to_feeding(d, s, input, to, d2, s2, reply.buffer());
    let t = enqueued(s, to, input.buffer, backing);
    let i = input.buffer.index as int;
    let b = s.queue(to).buffers[i];
    assert(b.wf(i, input.buffer.queue, s.queue(to).memory->0));
    super::buffer_laws::needed_bytes(s, to, input.buffer.queue);
    if lends_now(t) {
        let q = t.queue(to);
        let k = q.pending.len() - 1;
        assert(q.pending[k] == input.buffer.index as usize);
        assert(q.pending.take(q.pending.len() as int)[k] == input.buffer.index as usize);
    }
    if b.backing is Guest {
        mapped_is_enough(d, s, input, to, d2, s2, reply.buffer());
    }
}

/// Guest memory that cannot be mapped is the guest's errno where the mapper names one, and `EINVAL`
/// where it does not; memory too short for the queue is `EINVAL`. The buffer is not queued then.
pub proof fn unmapped_memory_is_refused<GM, H, S, K>(
    d: DeviceView<GM, H, S, K>,
    s: SessionView<GM, H>,
    input: GuestV4l2Buffer,
    d2: DeviceView<GM, H, S, K>,
    s2: SessionView<GM, H>,
    reply: IoctlReply,
)
    requires
        d.fits(s),
        encoder_answers(d, s, IoctlRequest::QBuf { input }, d2, s2, reply),
        d2.guest.len() == d.guest.len() + 1,
    ensures
        d2.guest.last().answer matches Err(Some(e)) ==> reply == (IoctlReply::Refused {
            errno: e.0,
        }) && s2 == s,
        d2.guest.last().answer matches Err(None) ==> reply == (IoctlReply::Refused {
            errno: EINVAL,
        }) && s2 == s,
        d2.guest.last().answer matches Ok(m) ==> (m.len < bytes_needed(s, input.buffer.queue)
            ==> reply == (IoctlReply::Refused { errno: EINVAL }) && s2 == s),
{
    let r = reply.buffer();
    let buffer = input.buffer;
    if buffer.queue.video_mplane_direction() is Some {
        let to = buffer.queue.video_mplane_direction()->0;
        super::buffer_laws::needed_bytes(s, to, buffer.queue);
        let lists = scatter_lists(input.guest_regions@);
        let b = s.queue(to).buffers[buffer.index as int];
        let v = queued_description(b, buffer, to);
        if super::buffer_ioctls::queueing_refused(
            s,
            to,
            buffer,
            lists.len() as int,
            input.payload,
        ) is None {
            match b.backing {
                Backing::Host { .. } => {
                    let fed = choose|fed: Result<(), i32>| #[trigger]
                        feeds(d, enqueued(s, to, buffer, b.backing), d2, s2, fed) && r
                            == queueing_answer(v, fed);
                    assert(d2.guest == d.guest);
                },
                Backing::Guest(_) => {
                    let answer = choose|
                        answer: Result<GuestMapping<GM>, Option<GuestMappingError>>,
                    | #[trigger]
                        queued_if_mapped(d, s, to, buffer, lists[0], v, answer, d2, s2, r);
                    let d1 = mapping_asked(d, to, lists[0], answer);
                    if answer matches Ok(m) && m.len >= s.sizeimage(to) {
                        let backing = Backing::Guest(Some(answer->Ok_0));
                        let fed = choose|fed: Result<(), i32>| #[trigger]
                            feeds(d1, enqueued(s, to, buffer, backing), d2, s2, fed) && r
                                == queueing_answer(v, fed);
                    }
                    assert(d2.guest == d1.guest);
                },
            }
        }
    }
    assert(reply is Buffer || reply is Refused);
}

/// Guest memory that is mapped for a buffer is as long as the queue needs.
proof fn mapped_is_enough<GM, H, S, K>(
    d: DeviceView<GM, H, S, K>,
    s: SessionView<GM, H>,
    input: GuestV4l2Buffer,
    to: QueueDirection,
    d2: DeviceView<GM, H, S, K>,
    s2: SessionView<GM, H>,
    r: Result<V4l2Buffer, i32>,
)
    requires
        queued(
            d,
            s,
            input.buffer,
            scatter_lists(input.guest_regions@),
            input.payload,
            d2,
            s2,
            r,
        ),
        r is Ok,
        input.buffer.queue.video_mplane_direction() == Some(to),
        s.queue(to).buffers[input.buffer.index as int].backing is Guest,
    ensures
        d2.guest.len() == d.guest.len() + 1,
        d2.guest.last().answer matches Ok(m) && m.len >= s.sizeimage(to),
{
    let lists = scatter_lists(input.guest_regions@);
    let b = s.queue(to).buffers[input.buffer.index as int];
    let v = queued_description(b, input.buffer, to);
    let answer = choose|answer: Result<GuestMapping<GM>, Option<GuestMappingError>>| #[trigger]
        queued_if_mapped(d, s, to, input.buffer, lists[0], v, answer, d2, s2, r);
    let d1 = mapping_asked(d, to, lists[0], answer);
    let backing = Backing::Guest(Some(answer->Ok_0));
    let fed = choose|fed: Result<(), i32>| #[trigger]
        feeds(d1, enqueued(s, to, input.buffer, backing), d2, s2, fed) && r == queueing_answer(
            v,
            fed,
        );
}

/// A buffer that is not there, that is queued already, of another memory type than the queue's, or
/// with no plane or too many, is not queued: `EINVAL`, and nothing changes. A dead session queues
/// none: `ENODEV`.
pub proof fn buffers_that_cannot_be_queued<GM, H, S, K>(
    d: DeviceView<GM, H, S, K>,
    s: SessionView<GM, H>,
    input: GuestV4l2Buffer,
    d2: DeviceView<GM, H, S, K>,
    s2: SessionView<GM, H>,
    reply: IoctlReply,
)
    requires
        d.fits(s),
        encoder_answers(d, s, IoctlRequest::QBuf { input }, d2, s2, reply),
    ensures
        ({
            let asked = input.buffer;
            let q = of_session(s, asked.queue);
            let i = asked.index as int;
            let refused = |errno: i32| reply == (IoctlReply::Refused { errno }) && s2 == s && d2
                == d;
            &&& !is_ours(asked.queue) ==> refused(EINVAL)
            &&& is_ours(asked.queue) && s.dead ==> refused(ENODEV)
            &&& is_ours(asked.queue) && !s.dead && (i >= q.buffers.len() || q.buffers[i].queued
                || q.memory != Some(asked.memory) || asked.length == 0 || asked.length > 8)
                ==> refused(EINVAL)
            &&& is_ours(asked.queue) && !s.dead && i < q.buffers.len() && asked.memory
                == MemoryType::UserPtr && (asked.plane0.length < bytes_needed(s, asked.queue)
                || asked.plane0.length > q.buffers[i].size || input.guest_regions@.len() == 0)
                ==> refused(EINVAL)
        }),
{
    if is_ours(input.buffer.queue) {
        let to = input.buffer.queue.video_mplane_direction()->0;
        super::buffer_laws::needed_bytes(s, to, input.buffer.queue);
        let q = s.queue(to);
        let i = input.buffer.index as int;
        if i < q.buffers.len() {
            assert(q.buffers[i].wf(i, input.buffer.queue, q.memory->0));
        }
    }
}

/// A guest's own buffer is taken where it is long enough for the queue, and no longer than the
/// buffer was created for, both as it is sent and as it was prepared; to queue it, its memory has
/// to be mapped.
pub proof fn the_guests_buffers_are_taken<GM, H, S, K>(
    d: DeviceView<GM, H, S, K>,
    s: SessionView<GM, H>,
    input: GuestV4l2Buffer,
    preparing: bool,
    d2: DeviceView<GM, H, S, K>,
    s2: SessionView<GM, H>,
    reply: IoctlReply,
)
    requires
        d.fits(s),
        is_ours(input.buffer.queue),
        !s.dead,
        input.buffer.index < of_session(s, input.buffer.queue).buffers.len(),
        !of_session(s, input.buffer.queue).buffers[input.buffer.index as int].queued,
        of_session(s, input.buffer.queue).memory == Some(MemoryType::UserPtr),
        input.buffer.memory == MemoryType::UserPtr,
        1 <= input.buffer.length <= 8,
        input.payload.valid(0),
        encoder_answers(
            d,
            s,
            if preparing {
                IoctlRequest::PrepareBuf { input }
            } else {
                IoctlRequest::QBuf { input }
            },
            d2,
            s2,
            reply,
        ),
    ensures
        ({
            let asked = input.buffer;
            let b = of_session(s, asked.queue).buffers[asked.index as int];
            let bytes = bytes_needed(s, asked.queue);
            let long = bytes <= asked.plane0.length <= b.size;
            let was_long = b.prepared matches Some((_, n)) ==> bytes <= n <= b.size;
            let mapped = long && was_long && input.guest_regions@.len() > 0;
            &&& preparing && b.prepared is None ==> (reply is Buffer <==> long)
            &&& !preparing && !mapped ==> reply == (IoctlReply::Refused { errno: EINVAL }) && d2
                == d && s2 == s
            &&& !preparing && mapped ==> d2.guest.len() == d.guest.len() + 1
            &&& !preparing && mapped && !lends_now(s) ==> (reply is Buffer <==> (
            d2.guest.last().answer matches Ok(m) && m.len >= bytes))
        }),
{
    let buffer = input.buffer;
    let to = buffer.queue.video_mplane_direction()->0;
    super::buffer_laws::needed_bytes(s, to, buffer.queue);
    let q = s.queue(to);
    let b = q.buffers[buffer.index as int];
    assert(b.wf(buffer.index as int, buffer.queue, q.memory->0));
    assert(input.payload.all_valid(1)) by {
        assert(input.payload.valid(0));
    }
    assert(reply is Buffer || reply is Refused);
    let lists = scatter_lists(input.guest_regions@);
    let r = reply.buffer();
    if !preparing && super::buffer_ioctls::queueing_refused(
        s,
        to,
        buffer,
        lists.len() as int,
        input.payload,
    ) is None {
        let v = queued_description(b, buffer, to);
        let answer = choose|answer: Result<GuestMapping<GM>, Option<GuestMappingError>>| #[trigger]
            queued_if_mapped(d, s, to, buffer, lists[0], v, answer, d2, s2, r);
        let d1 = mapping_asked(d, to, lists[0], answer);
        if answer matches Ok(m) && m.len >= s.sizeimage(to) {
            let backing = Backing::Guest(Some(answer->Ok_0));
            let fed = choose|fed: Result<(), i32>| #[trigger]
                feeds(d1, enqueued(s, to, buffer, backing), d2, s2, fed) && r == queueing_answer(
                    v,
                    fed,
                );
        }
        assert(d2.guest == d1.guest);
    }
}

/// A prepared buffer is told as prepared and not as queued, with the payload the guest gave it on
/// `OUTPUT` and none on `CAPTURE`, and keeps that payload. Nothing is mapped or asked of the codec,
/// and no other buffer changes.
pub proof fn prepared_buffers_are_as_described<GM, H, S, K>(
    d: DeviceView<GM, H, S, K>,
    s: SessionView<GM, H>,
    input: GuestV4l2Buffer,
    d2: DeviceView<GM, H, S, K>,
    s2: SessionView<GM, H>,
    reply: IoctlReply,
)
    requires
        d.fits(s),
        encoder_answers(d, s, IoctlRequest::PrepareBuf { input }, d2, s2, reply),
    ensures
        d2 == d,
        reply is Buffer || reply is Refused,
        reply is Refused ==> s2 == s,
        reply is Buffer ==> {
            let v = reply->buffer;
            let asked = input.buffer;
            let q = of_session(s, asked.queue);
            let q2 = of_session(s2, asked.queue);
            let i = asked.index as int;
            let payload = if asked.queue == QueueType::VideoOutputMplane {
                asked.plane0.bytesused
            } else {
                0
            };
            &&& is_ours(asked.queue) && !s.dead && i < q.buffers.len() && !q.buffers[i].queued
                && q.buffers[i].prepared is None && q.memory == Some(asked.memory)
            &&& v.index == asked.index
            &&& v.flags & 0x400 == 0x400
            &&& v.flags & 0x2 == 0
            &&& v.flags & 0x10_0004 == 0
            &&& v.timestamp.sec == 0 && v.timestamp.usec == 0 && v.sequence == 0
            &&& asked.memory == MemoryType::Mmap ==> v.plane0.length
                == q.buffers[i].v4l2_buffer.plane0.length && v.plane0.m
                == q.buffers[i].v4l2_buffer.plane0.m
            &&& asked.memory == MemoryType::UserPtr ==> v.plane0.length == asked.plane0.length
                && v.plane0.m == asked.plane0.m && v.flags & 0x4000 == 0x4000
            &&& v.plane0.bytesused == payload
            &&& same_but(s, s2, asked.queue)
            &&& q2.pending == q.pending && q2.lending == q.lending
            &&& q2.buffers.len() == q.buffers.len()
            &&& q2.buffers[i].v4l2_buffer == v
            &&& q2.buffers[i].prepared == Some((payload, asked.plane0.length))
            &&& !q2.buffers[i].queued && !q2.buffers[i].lent
            &&& forall|j: int|
                0 <= j < q.buffers.len() && j != i ==> #[trigger] q2.buffers[j] == q.buffers[j]
        },
        is_ours(input.buffer.queue) && s.dead ==> reply == (IoctlReply::Refused { errno: ENODEV }),
        is_ours(input.buffer.queue) && !s.dead ==> {
            let q = of_session(s, input.buffer.queue);
            let i = input.buffer.index as int;
            i >= q.buffers.len() || q.buffers[i].queued || q.buffers[i].prepared is Some ==> reply
                == (IoctlReply::Refused { errno: EINVAL })
        },
{
    if is_ours(input.buffer.queue) {
        let to = input.buffer.queue.video_mplane_direction()->0;
        let q = s.queue(to);
        let i = input.buffer.index as int;
        if i < q.buffers.len() {
            assert(q.buffers[i].wf(i, input.buffer.queue, q.memory->0));
            flags_are_told(q.buffers[i].v4l2_buffer.flags);
            flags_are_told(0x4000u32);
        }
    }
}

/// A payload that its buffer cannot hold is refused, both when the buffer is prepared and when it
/// is queued; but not on `CAPTURE` where the buffer is the host's, and not for a buffer that was
/// prepared before.
pub proof fn impossible_payloads_are_refused<GM, H, S, K>(
    d: DeviceView<GM, H, S, K>,
    s: SessionView<GM, H>,
    input: GuestV4l2Buffer,
    preparing: bool,
    d2: DeviceView<GM, H, S, K>,
    s2: SessionView<GM, H>,
    reply: IoctlReply,
)
    requires
        d.fits(s),
        is_ours(input.buffer.queue),
        !s.dead,
        encoder_answers(
            d,
            s,
            if preparing {
                IoctlRequest::PrepareBuf { input }
            } else {
                IoctlRequest::QBuf { input }
            },
            d2,
            s2,
            reply,
        ),
    ensures
        ({
            let asked = input.buffer;
            let q = of_session(s, asked.queue);
            let b = q.buffers[asked.index as int];
            let matters = asked.queue == QueueType::VideoOutputMplane || asked.memory
                != MemoryType::Mmap;
            let prepared = asked.index < q.buffers.len() && b.prepared is Some;
            &&& matters && !input.payload.valid(0) && (preparing || !prepared) ==> reply == (
            IoctlReply::Refused { errno: EINVAL }) && s2 == s && d2 == d
            &&& asked.index < q.buffers.len() && !b.queued && !prepared && q.memory == Some(
                asked.memory,
            ) && 1 <= asked.length <= 8 && (!matters || input.payload.valid(0)) && preparing
                && asked.memory == MemoryType::Mmap ==> reply is Buffer
            &&& asked.index < q.buffers.len() && !b.queued && q.memory == Some(asked.memory) && 1
                <= asked.length <= 8 && (prepared || !matters || input.payload.valid(0))
                && !preparing && asked.memory == MemoryType::Mmap && !lends_now(s)
                ==> reply is Buffer
        }),
{
    let to = input.buffer.queue.video_mplane_direction()->0;
    let q = s.queue(to);
    let i = input.buffer.index as int;
    if i < q.buffers.len() {
        assert(q.buffers[i].wf(i, input.buffer.queue, q.memory->0));
    }
    assert(input.payload.all_valid(1) <==> input.payload.valid(0)) by {
        if input.payload.all_valid(1) {
            assert(input.payload.valid(0));
        }
    }
    assert(reply is Buffer || reply is Refused);
}

} // verus!
