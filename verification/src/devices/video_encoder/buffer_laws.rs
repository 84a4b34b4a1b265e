//! What allocating, telling, queueing and preparing buffers does to the buffers of a queue.
use vstd::prelude::*;

use super::buffers::{freed, offset_of, with_new};
use super::device::DeviceView;
use super::format_laws::{frame_bytes, usual_bitstream};
use super::ioctls::encoder_answers;
use super::queue::{Backing, Buffer, QueueView};
use super::session::SessionView;
use crate::errno::{EBUSY, EINVAL, ENODEV};
use crate::formats::{FormatBody, V4l2Format};
use crate::host::PoolCall;
use crate::ioctl::reply::IoctlReply;
use crate::ioctl::requests::IoctlRequest;
use crate::mmap::MmapRange;
use crate::v4l2::{MemoryType, QueueDirection, QueueType};

verus! {

/// The raw queue or the bitstream queue of a session.
pub open spec fn of_session<GM, H>(s: SessionView<GM, H>, queue: QueueType) -> QueueView<GM, H> {
    if queue == QueueType::VideoOutputMplane {
        s.input
    } else {
        s.output
    }
}

/// Whether two sessions are the same but for what one queue has.
pub open spec fn same_but<GM, H>(
    s: SessionView<GM, H>,
    s2: SessionView<GM, H>,
    queue: QueueType,
) -> bool {
    if queue == QueueType::VideoOutputMplane {
        s2 == (SessionView { input: s2.input, ..s })
    } else {
        s2 == (SessionView { output: s2.output, ..s })
    }
}

/// Whether a queue is one of the two an encoder has.
pub open spec fn is_ours(queue: QueueType) -> bool {
    queue == QueueType::VideoOutputMplane || queue == QueueType::VideoCaptureMplane
}

/// Bytes a buffer of a queue holds at least: a raw frame, or the bitstream size that was set, or
/// the usual one.
pub open spec fn bytes_needed<GM, H>(s: SessionView<GM, H>, queue: QueueType) -> int {
    let (w, h) = (s.coded_size.0 as int, s.coded_size.1 as int);
    if queue == QueueType::VideoOutputMplane {
        frame_bytes(w, h)
    } else {
        match s.bitstream_size {
            Some(n) => n as int,
            None => usual_bitstream(w, h),
        }
    }
}

/// The bytes a buffer of a queue needs.
pub proof fn needed_bytes<GM, H>(s: SessionView<GM, H>, direction: QueueDirection, queue: QueueType)
    requires
        queue.video_mplane_direction() == Some(direction),
    ensures
        s.sizeimage(direction) == bytes_needed(s, queue),
        0 <= s.sizeimage(direction) <= u32::MAX,
{
    let (w, h) = (s.coded_size.0 as int, s.coded_size.1 as int);
    super::format_laws::frames_take_their_bytes(w, h);
    super::ranges::nv12_bytes_fit(w, h);
}

/// Whether a buffer is new as number `i` of a queue: with the guest, of so many bytes, and backed
/// as its memory type says, an `MMAP` buffer at the offset it tells.
pub open spec fn is_new<GM, H>(
    b: Buffer<GM, H>,
    i: int,
    queue: QueueType,
    memory: MemoryType,
    bytes: int,
) -> bool {
    &&& !b.queued && !b.lent && b.prepared is None
    &&& b.size == bytes
    &&& b.v4l2_buffer.index == i
    &&& b.v4l2_buffer.queue == queue
    &&& b.v4l2_buffer.memory == memory
    &&& b.v4l2_buffer.length == 1
    &&& b.v4l2_buffer.plane0.length == bytes
    &&& b.v4l2_buffer.plane0.bytesused == 0
    &&& b.v4l2_buffer.flags == 0x4000
    &&& b.v4l2_buffer.field == 1
    &&& b.v4l2_buffer.sequence == 0
    &&& b.v4l2_buffer.timestamp.sec == 0 && b.v4l2_buffer.timestamp.usec == 0
    &&& memory == MemoryType::Mmap ==> b.backing is Host && b.v4l2_buffer.plane0.m
        == b.backing->offset
    &&& memory == MemoryType::UserPtr ==> b.backing == Backing::<GM, H>::Guest(None)
}

/// As many new buffers as asked for, but thirty-two at most, replace those of a queue, whole in
/// what it needs; the answer tells how many.
pub proof fn as_many_buffers_as_requested<GM, H, S, K>(
    d: DeviceView<GM, H, S, K>,
    s: SessionView<GM, H>,
    queue: QueueType,
    memory: MemoryType,
    count: u32,
    d2: DeviceView<GM, H, S, K>,
    s2: SessionView<GM, H>,
    reply: IoctlReply,
)
    requires
        count >= 1,
        encoder_answers(d, s, IoctlRequest::ReqBufs { queue, memory, count }, d2, s2, reply),
    ensures
        reply is RequestBuffers || reply is Refused,
        reply matches IoctlReply::RequestBuffers { answer } ==> {
            let q = of_session(s2, queue);
            &&& answer.count == (if count <= 32 {
                count
            } else {
                32
            })
            &&& answer.type_ == (if queue == QueueType::VideoOutputMplane {
                10u32
            } else {
                9u32
            })
            &&& answer.memory == (if memory == MemoryType::Mmap {
                1u32
            } else {
                2u32
            })
            &&& answer.capabilities == 0x13
            &&& answer.flags == 0
            &&& q.buffers.len() == answer.count
            &&& q.memory == Some(memory)
            &&& q.pending.len() == 0 && q.lending.len() == 0
            &&& forall|k: int|
                0 <= k < answer.count ==> is_new(
                    #[trigger] q.buffers[k],
                    k,
                    queue,
                    memory,
                    bytes_needed(s, queue),
                )
            &&& same_but(s, s2, queue)
            &&& d2.active_session == Some(s.id)
            &&& d2.mapper == d.mapper && d2.mappings == d.mappings && d2.events == d.events
        },
{
    if queue.video_mplane_direction() is Some {
        needed_bytes(s, queue.video_mplane_direction()->0, queue);
        super::buffers::freeing_leaves_the_rest(
            d,
            s.queue(queue.video_mplane_direction()->0).buffers,
        );
    }
    if reply is RequestBuffers {
        let q = of_session(s2, queue);
        assert(q.buffers.skip(0) =~= q.buffers);
        assert(Seq::<Buffer<GM, H>>::empty() + q.buffers =~= q.buffers);
    }
}

/// Buffers are refused to a dead session, for a memory type that is not offered, to another session
/// than the one that has buffers, and on a queue that streams; and then nothing changes.
pub proof fn refused_requests_change_nothing<GM, H, S, K>(
    d: DeviceView<GM, H, S, K>,
    s: SessionView<GM, H>,
    queue: QueueType,
    memory: MemoryType,
    count: u32,
    d2: DeviceView<GM, H, S, K>,
    s2: SessionView<GM, H>,
    reply: IoctlReply,
)
    requires
        encoder_answers(d, s, IoctlRequest::ReqBufs { queue, memory, count }, d2, s2, reply),
    ensures
        ({
            let offered = memory == MemoryType::Mmap || memory == MemoryType::UserPtr;
            let others = d.active_session is Some && d.active_session != Some(s.id);
            let streams = if queue == QueueType::VideoOutputMplane {
                s.state.output_streaming
            } else {
                s.state.capture_streaming
            };
            let errno = if !is_ours(queue) {
                Some(EINVAL)
            } else if s.dead && count > 0 {
                Some(ENODEV)
            } else if !offered {
                Some(EINVAL)
            } else if others || (streams && count > 0) {
                Some(EBUSY)
            } else {
                None
            };
            &&& errno matches Some(e) ==> reply == (IoctlReply::Refused { errno: e }) && s2 == s
                && d2 == d
            &&& errno is None && memory == MemoryType::UserPtr ==> reply is RequestBuffers
            &&& errno is None && count == 0 ==> reply is RequestBuffers
        }),
{
}

/// Asking for no buffers stops a queue and frees those it has; the device is free for another
/// session once neither queue has any.
pub proof fn no_buffers_stop_the_queue<GM, H, S, K>(
    d: DeviceView<GM, H, S, K>,
    s: SessionView<GM, H>,
    queue: QueueType,
    memory: MemoryType,
    d2: DeviceView<GM, H, S, K>,
    s2: SessionView<GM, H>,
    reply: IoctlReply,
)
    requires
        d.fits(s),
        encoder_answers(d, s, IoctlRequest::ReqBufs { queue, memory, count: 0 }, d2, s2, reply),
        reply is RequestBuffers,
    ensures
        reply->RequestBuffers_answer.count == 0,
        of_session(s2, queue).buffers.len() == 0,
        of_session(s2, queue).memory is None,
        queue == QueueType::VideoOutputMplane ==> !s2.state.output_streaming
            && s2.state.capture_streaming == s.state.capture_streaming && s2.output.buffers.len()
            == s.output.buffers.len(),
        queue == QueueType::VideoCaptureMplane ==> !s2.state.capture_streaming
            && s2.state.output_streaming == s.state.output_streaming && !s2.codec_started
            && s2.input.buffers.len() == s.input.buffers.len(),
        s2.input.buffers.len() == 0 && s2.output.buffers.len() == 0 ==> d2.active_session is None,
        s2.input.buffers.len() > 0 || s2.output.buffers.len() > 0 ==> d2.active_session == Some(
            s.id,
        ),
{
    let to = queue.video_mplane_direction()->0;
    let (d1, s1) = choose|d1: DeviceView<GM, H, S, K>, s1: SessionView<GM, H>| #[trigger]
        super::stream_ioctls::stream_off(d, s, to, d1, s1) && (d2, s2)
            == super::buffer_ioctls::all_freed(d1, s1, to);
    super::buffers::freeing_leaves_the_rest(d1, s1.queue(to).buffers);
    if to == QueueDirection::Capture && s.codec_started && !s.dead {
        let events = choose|events: Seq<super::backend::EncoderEvent>|
            d1 == (#[trigger] super::codec::stopped(d, s, events)).0 && s1
                == super::codec::stopped(d, s, events).1.capture_stopped();
        super::laws::done_inputs_leave_the_rest(d, s.torn_down(events), events);
    }
    if to == QueueDirection::Output && s.codec_started && !s.dead {
        let answer = choose|answer: Result<(), i32>|
            d1 == (#[trigger] super::stream_ioctls::flushed(d, s, answer)).0 && s1
                == super::stream_ioctls::flushed(d, s, answer).1.output_stopped();
    }
}

/// Whether a format is that of buffers created on a queue: at the raw size of the session, and with
/// as many bytes as were asked for.
pub open spec fn tells_buffers<GM, H>(
    s: SessionView<GM, H>,
    queue: QueueType,
    told: V4l2Format,
    asked: V4l2Format,
) -> bool {
    &&& told.fmt is PixMp && asked.fmt is PixMp
    &&& {
        let q = told.fmt->PixMp_0;
        &&& q.plane0.sizeimage == asked.fmt->PixMp_0.plane0.sizeimage
        &&& q.num_planes == 1
        &&& q.field == 1
        &&& (q.width, q.height) == s.coded_size
        &&& queue == QueueType::VideoOutputMplane ==> told.type_ == 10 && q.pixelformat
            == 0x3231_564e && q.plane0.bytesperline == q.width
        &&& queue == QueueType::VideoCaptureMplane ==> told.type_ == 9 && q.pixelformat
            == s.coded_format.0 && q.plane0.bytesperline == 0
    }
}

/// Buffers are created behind those a queue has, as many as asked for while there are no more than
/// thirty-two; those it has stay as they are. The new ones are as large as the format says.
pub proof fn created_buffers_are_added<GM, H, S, K>(
    d: DeviceView<GM, H, S, K>,
    s: SessionView<GM, H>,
    count: u32,
    queue: QueueType,
    memory: MemoryType,
    format: V4l2Format,
    d2: DeviceView<GM, H, S, K>,
    s2: SessionView<GM, H>,
    reply: IoctlReply,
)
    requires
        d.fits(s),
        encoder_answers(
            d,
            s,
            IoctlRequest::CreateBufs { count, queue, memory, format },
            d2,
            s2,
            reply,
        ),
    ensures
        reply is CreateBuffers || reply is Refused,
        reply matches IoctlReply::CreateBuffers { answer } ==> {
            let q = of_session(s, queue);
            let q2 = of_session(s2, queue);
            let first = q.buffers.len();
            &&& answer.index == first
            &&& first + count <= 32 ==> answer.count == count
            &&& first + count > 32 ==> answer.count == 32 - first
            &&& answer.memory == (if memory == MemoryType::Mmap {
                1u32
            } else {
                2u32
            })
            &&& answer.capabilities == 0x13
            &&& answer.flags == 0
            &&& tells_buffers(s, queue, answer.format, format)
            &&& q2.buffers.len() == first + answer.count
            &&& forall|k: int| 0 <= k < first ==> #[trigger] q2.buffers[k] == q.buffers[k]
            &&& format.fmt matches FormatBody::PixMp(p) && forall|k: int|
                first <= k < first + answer.count ==> is_new(
                    #[trigger] q2.buffers[k],
                    k,
                    queue,
                    memory,
                    p.plane0.sizeimage as int,
                )
            &&& q2.pending == q.pending && q2.lending == q.lending
            &&& same_but(s, s2, queue)
            &&& answer.count > 0 ==> d2.active_session == Some(s.id) && q2.memory == Some(memory)
        },
        reply is Refused ==> s2 == s,
{
    if reply is CreateBuffers {
        let q = of_session(s, queue);
        let q2 = of_session(s2, queue);
        let first = q.buffers.len() as int;
        let added = q2.buffers.skip(first);
        assert(q2.buffers.len() >= first);
        assert forall|k: int| first <= k < first + reply->CreateBuffers_answer.count implies is_new(
            #[trigger] q2.buffers[k],
            k,
            queue,
            memory,
            format.fmt->PixMp_0.plane0.sizeimage as int,
        ) by {
            assert(added[k - first] == q2.buffers[k]);
        }
    }
}

/// Creating buffers is refused where requesting them is, for a format that is not one plane of what
/// the queue needs at least, and for another memory type than that of the buffers there are.
pub proof fn refused_creations_change_nothing<GM, H, S, K>(
    d: DeviceView<GM, H, S, K>,
    s: SessionView<GM, H>,
    count: u32,
    queue: QueueType,
    memory: MemoryType,
    format: V4l2Format,
    d2: DeviceView<GM, H, S, K>,
    s2: SessionView<GM, H>,
    reply: IoctlReply,
)
    requires
        encoder_answers(
            d,
            s,
            IoctlRequest::CreateBufs { count, queue, memory, format },
            d2,
            s2,
            reply,
        ),
    ensures
        ({
            let offered = memory == MemoryType::Mmap || memory == MemoryType::UserPtr;
            let others = d.active_session is Some && d.active_session != Some(s.id);
            let q = of_session(s, queue);
            let fits = format.fmt is PixMp && format.fmt->PixMp_0.num_planes == 1
                && format.fmt->PixMp_0.plane0.sizeimage >= bytes_needed(s, queue);
            let errno = if !is_ours(queue) {
                Some(EINVAL)
            } else if s.dead {
                Some(ENODEV)
            } else if !offered {
                Some(EINVAL)
            } else if others {
                Some(EBUSY)
            } else if !fits || (q.memory is Some && q.memory != Some(memory)) {
                Some(EINVAL)
            } else {
                None
            };
            &&& errno matches Some(e) ==> reply == (IoctlReply::Refused { errno: e }) && s2 == s
                && d2 == d
            &&& errno is None && (count == 0 || memory == MemoryType::UserPtr)
                ==> reply is CreateBuffers
        }),
{
    if queue.video_mplane_direction() is Some {
        needed_bytes(s, queue.video_mplane_direction()->0, queue);
    }
}

/// Two `MMAP` buffers of a request are at different offsets, and neither is where a buffer is that
/// was not replaced; both are in use from then on.
pub proof fn new_offsets_differ<GM, H, S, K>(
    d: DeviceView<GM, H, S, K>,
    s: SessionView<GM, H>,
    count: u32,
    queue: QueueType,
    format: V4l2Format,
    d2: DeviceView<GM, H, S, K>,
    s2: SessionView<GM, H>,
    reply: IoctlReply,
    i: int,
    j: int,
)
    requires
        d.fits(s),
        encoder_answers(
            d,
            s,
            IoctlRequest::CreateBufs { count, queue, memory: MemoryType::Mmap, format },
            d2,
            s2,
            reply,
        ),
        reply is CreateBuffers,
        of_session(s, queue).buffers.len() <= i < j < of_session(s2, queue).buffers.len(),
    ensures
        ({
            let (a, b) = (
                of_session(s2, queue).buffers[i].backing,
                of_session(s2, queue).buffers[j].backing,
            );
            &&& a is Host && b is Host
            &&& a->offset != b->offset
            &&& forall|r: MmapRange| #[trigger]
                d.ranges.contains(r) ==> r.offset != a->offset && r.offset != b->offset
            &&& forall|r: MmapRange| #[trigger] d.ranges.contains(r) ==> d2.ranges.contains(r)
            &&& exists|r: MmapRange| #[trigger]
                d2.ranges.contains(r) && r.offset == a->offset && r.size
                    == format.fmt->PixMp_0.plane0.sizeimage
        }),
{
    let q2 = of_session(s2, queue);
    let first = of_session(s, queue).buffers.len() as int;
    let added = q2.buffers.skip(first);
    assert(added[i - first] == q2.buffers[i]);
    assert(added[j - first] == q2.buffers[j]);
    assert(q2.buffers.len() > first);
    let a = q2.buffers[i].backing;
    let b = q2.buffers[j].backing;
    assert forall|r: MmapRange| #[trigger] d.ranges.contains(r) implies r.offset != a->offset
        && r.offset != b->offset by {
        if r.offset == a->offset {
            assert(crate::mmap::registered(d.ranges, a->offset));
        }
        if r.offset == b->offset {
            assert(crate::mmap::registered(d.ranges, b->offset));
        }
    }
    let size = format.fmt->PixMp_0.plane0.sizeimage;
    let r = MmapRange { offset: a->offset, size };
    assert(offset_of(added[i - first]) == r.offset);
    assert(d2.ranges.contains(r));
}

/// A new `MMAP` buffer begins a page, and no byte of it is one of a buffer that was there before,
/// nor one of another new buffer.
pub proof fn new_buffers_do_not_overlap<GM, H, S, K>(
    d: DeviceView<GM, H, S, K>,
    s: SessionView<GM, H>,
    count: u32,
    queue: QueueType,
    format: V4l2Format,
    d2: DeviceView<GM, H, S, K>,
    s2: SessionView<GM, H>,
    reply: IoctlReply,
    i: int,
    j: int,
    r: MmapRange,
    byte: int,
)
    requires
        d.fits(s),
        encoder_answers(
            d,
            s,
            IoctlRequest::CreateBufs { count, queue, memory: MemoryType::Mmap, format },
            d2,
            s2,
            reply,
        ),
        reply is CreateBuffers,
        of_session(s, queue).buffers.len() <= i < j < of_session(s2, queue).buffers.len(),
        d.ranges.contains(r),
    ensures
        ({
            let a = of_session(s2, queue).buffers[i].backing->offset;
            let b = of_session(s2, queue).buffers[j].backing->offset;
            let size = format.fmt->PixMp_0.plane0.sizeimage;
            &&& a as int % 4096 == 0 && b as int % 4096 == 0
            &&& !(a <= byte < a + size && r.offset <= byte < r.offset + r.size)
            &&& !(b <= byte < b + size && r.offset <= byte < r.offset + r.size)
            &&& !(a <= byte < a + size && b <= byte < b + size)
        }),
{
    let q2 = of_session(s2, queue);
    let first = of_session(s, queue).buffers.len() as int;
    let added = q2.buffers.skip(first);
    let size = format.fmt->PixMp_0.plane0.sizeimage;
    let (m, n) = (i - first, j - first);
    assert(added[m] == q2.buffers[i] && added[n] == q2.buffers[j]);
    assert(q2.buffers.len() > first);
    let before = with_new(d.ranges, added.take(m), size);
    let later = with_new(d.ranges, added.take(n), size);
    assert(before.contains(r) && later.contains(r));
    let a = MmapRange { offset: offset_of(added[m]), size };
    assert(added.take(n)[m] == added[m]);
    assert(later.contains(a));
}

/// Where host buffers cannot be had, none is added: the allocator's errno is told, or `EINVAL`
/// where it gave the buffer and no offset was left. What was there before a creation stays, what
/// was there before a request is gone, and whatever the allocator gave meanwhile goes back to it.
pub proof fn failed_allocations_add_nothing<GM, H, S, K>(
    d: DeviceView<GM, H, S, K>,
    s: SessionView<GM, H>,
    request: IoctlRequest,
    queue: QueueType,
    d2: DeviceView<GM, H, S, K>,
    s2: SessionView<GM, H>,
    reply: IoctlReply,
)
    requires
        encoder_answers(d, s, request, d2, s2, reply),
        (request matches IoctlRequest::ReqBufs { queue: to, .. } && to == queue) || (
        request matches IoctlRequest::CreateBufs { queue: to, .. } && to == queue),
        reply is Refused,
        d2 != d,
    ensures
        request is ReqBufs ==> of_session(s2, queue).buffers.len() == 0 && of_session(
            s2,
            queue,
        ).memory is None && same_but(s, s2, queue),
        request is CreateBufs ==> s2 == s && d2 == (DeviceView { pool: d2.pool, ..d }),
        request is CreateBufs ==> exists|n: int|
            #[trigger] all_given_back(d.pool, d2.pool, n, reply->Refused_errno),
{
    if let IoctlRequest::CreateBufs { format, .. } = request {
        let size = format.fmt->PixMp_0.plane0.sizeimage;
        let (added, last) = choose|
            added: Seq<Buffer<GM, H>>,
            last: Result<crate::host::HostBuffer<H>, i32>,
        |
            {
                &&& d2 == (DeviceView {
                    pool: d.pool + #[trigger] super::buffers::attempt(added, size, last),
                    ..d
                })
                &&& match last {
                    Ok(_) => reply->Refused_errno == EINVAL,
                    Err(e) => reply->Refused_errno == e,
                }
            };
        let n = added.len() as int;
        let first = d.pool.len() as int;
        let calls = super::buffers::attempt(added, size, last);
        assert(calls[n] == (PoolCall::Allocate { len: size as u64, answer: last }));
        assert forall|k: int| 0 <= k < n implies #[trigger] gives_back(
            d2.pool[first + k],
            d2.pool[d2.pool.len() - n + k],
        ) by {
            assert(calls[k] == super::buffers::allocations(added, size)[k]);
            assert(calls[calls.len() - n + k] == super::buffers::releases(added)[k]);
        }
        assert(all_given_back(d.pool, d2.pool, n, reply->Refused_errno));
    }
}

/// Whether the allocator was asked for a buffer and refused.
pub open spec fn is_refused<H>(call: PoolCall<H>, errno: i32) -> bool {
    call matches PoolCall::Allocate { answer: Err(e), .. } && e == errno
}

/// Whether the buffer that one call gave is what another gives back.
pub open spec fn gives_back<H>(given: PoolCall<H>, back: PoolCall<H>) -> bool {
    given matches PoolCall::Allocate { answer: Ok(b), .. } && back == (PoolCall::Release {
        buffer: b,
    })
}

/// Whether the allocator gave `n` buffers, then refused one with the errno, or gave it where there
/// was no place for it, and had all of them back.
pub open spec fn all_given_back<H>(
    before: Seq<PoolCall<H>>,
    after: Seq<PoolCall<H>>,
    n: int,
    errno: i32,
) -> bool {
    let first = before.len() as int;
    &&& n >= 0
    &&& {
        ||| after.len() == first + 2 * n + 1 && is_refused(after[first + n], errno)
        ||| after.len() == first + 2 * n + 2 && errno == EINVAL && gives_back(
            after[first + n],
            after[first + n + 1],
        )
    }
    &&& forall|k: int|
        0 <= k < n ==> #[trigger] gives_back(after[first + k], after[after.len() - n + k])
}

/// What is told of a buffer is the description the queue asked about keeps of it.
pub proof fn told_buffers_are_the_queues<GM, H, S, K>(
    d: DeviceView<GM, H, S, K>,
    s: SessionView<GM, H>,
    queue: QueueType,
    index: u32,
    planes: u32,
    d2: DeviceView<GM, H, S, K>,
    s2: SessionView<GM, H>,
    reply: IoctlReply,
)
    requires
        encoder_answers(d, s, IoctlRequest::QueryBuf { queue, index, planes }, d2, s2, reply),
    ensures
        s2 == s && d2 == d,
        is_ours(queue) && index < of_session(s, queue).buffers.len() ==> reply == (
        IoctlReply::Buffer {
            buffer: of_session(s, queue).buffers[index as int].v4l2_buffer,
            planes,
        }),
        !is_ours(queue) || index >= of_session(s, queue).buffers.len() ==> reply == (
        IoctlReply::Refused { errno: EINVAL }),
{
}

/// Host buffers are asked of the allocator one for each that a request adds, of the bytes that each
/// needs, and are the memory of the new buffers, in order; nothing is asked for the guest's own.
pub proof fn added_buffers_are_allocated<GM, H, S, K>(
    d: DeviceView<GM, H, S, K>,
    s: SessionView<GM, H>,
    request: IoctlRequest,
    queue: QueueType,
    memory: MemoryType,
    bytes: int,
    d2: DeviceView<GM, H, S, K>,
    s2: SessionView<GM, H>,
    reply: IoctlReply,
    k: int,
)
    requires
        d.fits(s),
        encoder_answers(d, s, request, d2, s2, reply),
        (request matches IoctlRequest::ReqBufs { queue: to, memory: m, count } && to == queue && m
            == memory && count >= 1 && bytes == bytes_needed(s, queue)) || (
        request matches IoctlRequest::CreateBufs { queue: to, memory: m, format, .. } && to == queue
            && m == memory && format.fmt is PixMp && bytes
            == format.fmt->PixMp_0.plane0.sizeimage),
        reply is RequestBuffers || reply is CreateBuffers,
        0 <= k,
    ensures
        ({
            let n = if reply is RequestBuffers {
                reply->RequestBuffers_answer.count as int
            } else {
                reply->CreateBuffers_answer.count as int
            };
            let first = of_session(s2, queue).buffers.len() - n;
            &&& k < n && memory == MemoryType::Mmap ==> d2.pool.len() >= n && d2.pool[d2.pool.len()
                - n + k] == (PoolCall::Allocate {
                len: bytes as u64,
                answer: Ok(of_session(s2, queue).buffers[first + k].backing->buffer),
            })
            &&& reply is CreateBuffers && memory == MemoryType::Mmap ==> d2.pool.len()
                == d.pool.len() + n
            &&& reply is CreateBuffers && memory == MemoryType::UserPtr ==> d2.pool == d.pool
            &&& d2.guest == d.guest
        }),
{
    let to = queue.video_mplane_direction()->0;
    needed_bytes(s, to, queue);
    super::buffers::freeing_leaves_the_rest(d, s.queue(to).buffers);
    let q2 = of_session(s2, queue);
    if reply is RequestBuffers {
        assert(q2.buffers.skip(0) =~= q2.buffers);
    } else {
        let first = of_session(s, queue).buffers.len() as int;
        let added = q2.buffers.skip(first);
        if 0 <= k < added.len() {
            assert(added[k] == q2.buffers[first + k]);
        }
    }
}

/// The host buffers that a request replaces, or that one for none frees, go back to the allocator,
/// or are held while the guest maps them.
pub proof fn replaced_buffers_are_given_back<GM, H, S, K>(
    d: DeviceView<GM, H, S, K>,
    s: SessionView<GM, H>,
    queue: QueueType,
    memory: MemoryType,
    count: u32,
    d2: DeviceView<GM, H, S, K>,
    s2: SessionView<GM, H>,
    reply: IoctlReply,
    k: int,
)
    requires
        d.fits(s),
        encoder_answers(d, s, IoctlRequest::ReqBufs { queue, memory, count }, d2, s2, reply),
        reply is RequestBuffers,
        0 <= k < of_session(s, queue).buffers.len(),
    ensures
        of_session(s, queue).buffers[k].backing matches Backing::Host { buffer, offset } ==> if
            crate::mmap::mapped(d.mappings, offset) {
            d2.retired.contains(crate::mmap::Retired { offset, buffer })
        } else {
            d2.pool.contains(PoolCall::Release { buffer })
        },
{
    let to = queue.video_mplane_direction()->0;
    let old = s.queue(to).buffers;
    if count > 0 {
        super::session_laws::freeing_gives_each_back(d, old);
        super::buffers::freeing_leaves_the_rest(d, old);
        let e = freed(d, old);
        assert(super::session_laws::is_given_back(d, e, old[k]));
        match old[k].backing {
            Backing::Host { buffer, offset } => {
                let x = PoolCall::Release { buffer };
                if !crate::mmap::mapped(d.mappings, offset) {
                    let j = choose|j: int| 0 <= j < e.pool.len() && e.pool[j] == x;
                    assert(d2.pool[j] == x);
                }
            },
            Backing::Guest(_) => {},
        }
    } else {
        let (d1, s1) = choose|d1: DeviceView<GM, H, S, K>, s1: SessionView<GM, H>| #[trigger]
            super::stream_ioctls::stream_off(d, s, to, d1, s1) && (d2, s2)
                == super::buffer_ioctls::all_freed(d1, s1, to);
        stopping_keeps_host_buffers(d, s, to, d1, s1, k);
        super::session_laws::freeing_gives_each_back(d1, s1.queue(to).buffers);
        assert(super::session_laws::is_given_back(
            d1,
            freed(d1, s1.queue(to).buffers),
            s1.queue(to).buffers[k],
        ));
    }
}

/// Stopping a queue leaves the host memory of its buffers.
proof fn stopping_keeps_host_buffers<GM, H, S, K>(
    d: DeviceView<GM, H, S, K>,
    s: SessionView<GM, H>,
    to: QueueDirection,
    d1: DeviceView<GM, H, S, K>,
    s1: SessionView<GM, H>,
    k: int,
)
    requires
        super::stream_ioctls::stream_off(d, s, to, d1, s1),
        0 <= k < s.queue(to).buffers.len(),
    ensures
        s1.queue(to).buffers.len() == s.queue(to).buffers.len(),
        s.queue(to).buffers[k].backing is Host ==> s1.queue(to).buffers[k].backing == s.queue(
            to,
        ).buffers[k].backing,
        d1.mappings == d.mappings,
{
    if s.codec_started && !s.dead {
        match to {
            QueueDirection::Output => {
                let answer = choose|answer: Result<(), i32>|
                    d1 == (#[trigger] super::stream_ioctls::flushed(d, s, answer)).0 && s1
                        == super::stream_ioctls::flushed(d, s, answer).1.output_stopped();
            },
            QueueDirection::Capture => {
                let events = choose|events: Seq<super::backend::EncoderEvent>|
                    d1 == (#[trigger] super::codec::stopped(d, s, events)).0 && s1
                        == super::codec::stopped(d, s, events).1.capture_stopped();
                super::laws::done_inputs_leave_the_rest(d, s.torn_down(events), events);
            },
        }
    }
}

} // verus!
