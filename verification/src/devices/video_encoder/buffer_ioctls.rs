//! Allocating, querying, preparing and queueing buffers.
use vstd::prelude::*;

use super::backend::VideoEncoderBackend;
use super::buffers::{
    add_failed, added_to, freed, freeing_leaves_the_rest, idle_queues_lend_nothing, is_fresh,
    offsets_are_new, places_are_free,
};
use super::codec::feeds;
use super::controls::MAX_BUFFERS;
use super::device::{DeviceView, EncoderSession, VideoEncoder};
use super::queue::{empty_queue, Backing, Buffer, Queue, QueueView};
use super::ranges::min;
use super::session::SessionView;
use super::stream_ioctls::stream_off;
use crate::errno::{EBUSY, EINVAL, ENODEV};
use crate::formats::{FormatBody, PixFormatMplane, V4l2Format};
use crate::host::{
    guest_mapping_errno, GuestMapping, GuestMappingError, MapRequest, VirtioMediaBufferAllocator,
    VirtioMediaEventQueue, VirtioMediaGuestMemoryMapper, VirtioMediaHostMemoryMapper,
};
use crate::ioctl::types::{CreateBuffers, RequestBuffers};
use crate::payload::PayloadValidity;
use crate::protocol::SgEntry;
use crate::v4l2::{
    MemoryType, QueueDirection, QueueType, Timeval, V4l2Buffer, FIELD_NONE, FLAG_PREPARED,
    FLAG_QUEUED, FLAG_TIMESTAMP_COPY, VIDEO_MAX_PLANES,
};

verus! {

/// What buffers the queues support: `MMAP`, `USERPTR`, and ones the guest still maps when they
/// are freed.
pub const BUF_CAPABILITIES: u32 = 0x13;

/// Planes per buffer in every format the queues have.
pub const NUM_PLANES: usize = 1;

/// Flags that no longer hold of a buffer queued again: `PREPARED`, `LAST`, `DONE` and the frame
/// kinds.
pub const FLAGS_STALE: u32 = 0x10_043c;

/// Flags that no longer hold of a buffer being prepared: `QUEUED`, `DONE` and `LAST`.
pub const FLAGS_UNPREPARED: u32 = 0x10_0006;

/// Whether buffers can have a memory type.
pub open spec fn usable_memory(m: MemoryType) -> bool {
    m == MemoryType::Mmap || m == MemoryType::UserPtr
}

/// Why a session may not allocate buffers, if it may not: another session holds some, or no
/// buffer can have the memory type; a dead session only frees.
pub open spec fn allocation_refused<GM, H, S, K>(
    d: DeviceView<GM, H, S, K>,
    s: SessionView<GM, H>,
    memory: MemoryType,
    count: u32,
) -> Option<i32> {
    if s.dead && count > 0 {
        Some(ENODEV)
    } else if !usable_memory(memory) {
        Some(EINVAL)
    } else if d.active_session is Some && d.active_session != Some(s.id) {
        Some(EBUSY)
    } else {
        None
    }
}

/// The answer to `REQBUFS`.
pub open spec fn request_answer(queue: QueueType, memory: MemoryType, count: int)
    -> RequestBuffers {
    RequestBuffers {
        count: count as u32,
        type_: queue.code(),
        memory: memory.code(),
        capabilities: BUF_CAPABILITIES,
        flags: 0,
    }
}

/// What freeing every buffer of a queue does, once it has stopped: the device no longer has an
/// active session where no buffer is left.
pub open spec fn all_freed<GM, H, S, K>(
    d: DeviceView<GM, H, S, K>,
    s: SessionView<GM, H>,
    direction: QueueDirection,
) -> (DeviceView<GM, H, S, K>, SessionView<GM, H>) {
    let s2 = s.with_queue(direction, empty_queue());
    let d1 = freed(d, s.queue(direction).buffers);
    (
        DeviceView {
            active_session: if s2.has_buffers() {
                d1.active_session
            } else {
                None
            },
            ..d1
        },
        s2,
    )
}

/// What adding buffers to a queue does: all of them are new, and the session is the active one;
/// or none is there and everything allocated was given back.
pub open spec fn buffers_added<GM, H, S, K>(
    d: DeviceView<GM, H, S, K>,
    s: SessionView<GM, H>,
    queue: QueueType,
    direction: QueueDirection,
    memory: MemoryType,
    count: int,
    size: u32,
    d2: DeviceView<GM, H, S, K>,
    s2: SessionView<GM, H>,
    r: Result<(), i32>,
) -> bool {
    let q = s.queue(direction);
    match r {
        Ok(_) => {
            let added = s2.queue(direction).buffers.skip(q.buffers.len() as int);
            &&& added.len() == count
            &&& s2 == s.with_queue(
                direction,
                QueueView { memory: Some(memory), buffers: q.buffers + added, ..q },
            )
            &&& forall|k: int|
                0 <= k < count ==> is_fresh(
                    #[trigger] added[k],
                    q.buffers.len() + k,
                    queue,
                    memory,
                    size,
                )
            &&& memory == MemoryType::Mmap ==> offsets_are_new(d.ranges, added) && places_are_free(
                d.ranges,
                added,
                size,
            )
            &&& d2 == (DeviceView {
                active_session: Some(s.id),
                ..added_to(d, added, memory, size)
            })
        },
        Err(e) => s2 == s && add_failed(d, memory, count, size, e, d2),
    }
}

/// What `REQBUFS` does. Zero buffers stop the queue and free its buffers; any other count
/// replaces the buffers of a queue that does not stream.
pub open spec fn requested<GM, H, S, K>(
    d: DeviceView<GM, H, S, K>,
    s: SessionView<GM, H>,
    queue: QueueType,
    memory: MemoryType,
    count: u32,
    d2: DeviceView<GM, H, S, K>,
    s2: SessionView<GM, H>,
    r: Result<RequestBuffers, i32>,
) -> bool {
    let unchanged = d2 == d && s2 == s;
    match queue.video_mplane_direction() {
        None => unchanged && r == Err::<RequestBuffers, i32>(EINVAL),
        Some(direction) => match allocation_refused(d, s, memory, count) {
            Some(e) => unchanged && r == Err::<RequestBuffers, i32>(e),
            None => if count == 0 {
                &&& exists|d1: DeviceView<GM, H, S, K>, s1: SessionView<GM, H>| #[trigger]
                    stream_off(d, s, direction, d1, s1) && (d2, s2) == all_freed(d1, s1, direction)
                &&& r == Ok::<RequestBuffers, i32>(request_answer(queue, memory, 0))
            } else if s.streaming(direction) {
                unchanged && r == Err::<RequestBuffers, i32>(EBUSY)
            } else {
                let n = min(count as int, MAX_BUFFERS as int);
                let d1 = freed(d, s.queue(direction).buffers);
                let s1 = s.with_queue(direction, empty_queue());
                match r {
                    Ok(answer) => answer == request_answer(queue, memory, n) && buffers_added(
                        d1,
                        s1,
                        queue,
                        direction,
                        memory,
                        n,
                        s.sizeimage(direction) as u32,
                        d2,
                        s2,
                        Ok(()),
                    ),
                    Err(e) => buffers_added(
                        d1,
                        s1,
                        queue,
                        direction,
                        memory,
                        n,
                        s.sizeimage(direction) as u32,
                        d2,
                        s2,
                        Err(e),
                    ),
                }
            },
        },
    }
}

/// Why `CREATE_BUFS` is refused before anything is allocated, if it is: the format it hands over
/// must have one plane of at least what the queue needs, and the memory type must be that of the
/// queue's buffers.
pub open spec fn creation_refused<GM, H, S, K>(
    d: DeviceView<GM, H, S, K>,
    s: SessionView<GM, H>,
    direction: QueueDirection,
    memory: MemoryType,
    format: V4l2Format,
) -> Option<i32> {
    match allocation_refused(d, s, memory, 1) {
        Some(e) => Some(e),
        None => match format.fmt {
            FormatBody::Raw(_) => Some(EINVAL),
            FormatBody::PixMp(p) => if p.num_planes != 1 || p.plane0.sizeimage < s.sizeimage(
                direction,
            ) || (s.queue(direction).memory is Some && s.queue(direction).memory != Some(memory)) {
                Some(EINVAL)
            } else {
                None
            },
        },
    }
}

/// What `CREATE_BUFS` does: as many buffers as the queue has room for are added to those it has.
pub open spec fn created<GM, H, S, K>(
    d: DeviceView<GM, H, S, K>,
    s: SessionView<GM, H>,
    count: u32,
    queue: QueueType,
    memory: MemoryType,
    format: V4l2Format,
    d2: DeviceView<GM, H, S, K>,
    s2: SessionView<GM, H>,
    r: Result<CreateBuffers, i32>,
) -> bool {
    let unchanged = d2 == d && s2 == s;
    match queue.video_mplane_direction() {
        None => unchanged && r == Err::<CreateBuffers, i32>(EINVAL),
        Some(direction) => match creation_refused(d, s, direction, memory, format) {
            Some(e) => unchanged && r == Err::<CreateBuffers, i32>(e),
            None => {
                let first = s.queue(direction).buffers.len();
                let n = min(count as int, MAX_BUFFERS - first);
                let size = format.fmt->PixMp_0.plane0.sizeimage;
                match r {
                    Ok(answer) => {
                        &&& answer.index == first
                        &&& answer.count == n
                        &&& answer.memory == memory.code()
                        &&& answer.capabilities == BUF_CAPABILITIES
                        &&& answer.flags == 0
                        &&& s.is_queue_format(direction, size, answer.format)
                        &&& if n > 0 {
                            buffers_added(d, s, queue, direction, memory, n, size, d2, s2, Ok(()))
                        } else {
                            unchanged
                        }
                    },
                    Err(e) => n > 0 && buffers_added(
                        d,
                        s,
                        queue,
                        direction,
                        memory,
                        n,
                        size,
                        d2,
                        s2,
                        Err(e),
                    ),
                }
            },
        },
    }
}

/// What `QUERYBUF` answers.
pub open spec fn buffer_told<GM, H>(s: SessionView<GM, H>, queue: QueueType, index: u32) -> Result<
    V4l2Buffer,
    i32,
> {
    match queue.video_mplane_direction() {
        Some(direction) if index < s.queue(direction).buffers.len() => Ok(
            s.queue(direction).buffers[index as int].v4l2_buffer,
        ),
        _ => Err(EINVAL),
    }
}

/// The payload a queue takes from the client: on `CAPTURE` the device reports it.
pub open spec fn declared_payload(direction: QueueDirection, bytesused: u32) -> u32 {
    match direction {
        QueueDirection::Output => bytesused,
        QueueDirection::Capture => 0,
    }
}

/// The description of a guest's own buffer as the device keeps it.
pub open spec fn echoed(buffer: V4l2Buffer) -> V4l2Buffer {
    V4l2Buffer { field: FIELD_NONE, flags: FLAG_TIMESTAMP_COPY, ..buffer }
}

/// The description of a queued buffer. One that was prepared keeps the payload accepted then;
/// otherwise the client declares it, and a guest-owned buffer is described as the client sent it.
pub open spec fn queued_description<GM, H>(
    b: Buffer<GM, H>,
    buffer: V4l2Buffer,
    direction: QueueDirection,
) -> V4l2Buffer {
    let payload = declared_payload(direction, buffer.first_bytesused());
    let base = if b.prepared is Some {
        b.v4l2_buffer
    } else {
        match b.backing {
            Backing::Host { .. } => b.v4l2_buffer.with_first_bytesused(payload),
            Backing::Guest(_) => echoed(buffer).with_first_bytesused(payload),
        }
    };
    let stamped = match direction {
        QueueDirection::Output => V4l2Buffer { timestamp: buffer.timestamp, ..base },
        QueueDirection::Capture => base,
    };
    stamped.without_flags(FLAGS_STALE).with_flags(FLAG_QUEUED)
}

/// A buffer queued by the guest, its memory mapped if it is the guest's.
pub open spec fn queued_buffer<GM, H>(
    b: Buffer<GM, H>,
    buffer: V4l2Buffer,
    direction: QueueDirection,
    backing: Backing<GM, H>,
) -> Buffer<GM, H> {
    Buffer {
        v4l2_buffer: queued_description(b, buffer, direction),
        backing,
        queued: true,
        prepared: None,
        ..b
    }
}

/// Whether a plane of a guest-owned buffer holds what the queue's format needs, and no more than
/// the buffer was created for.
pub open spec fn length_fits(length: u32, sizeimage: int, size: u32) -> bool {
    sizeimage <= length <= size
}

/// Why `QBUF` is refused before any memory is mapped, if it is.
pub open spec fn queueing_refused<GM, H>(
    s: SessionView<GM, H>,
    direction: QueueDirection,
    buffer: V4l2Buffer,
    regions: int,
    payload: PayloadValidity,
) -> Option<i32> {
    let q = s.queue(direction);
    let i = buffer.index as int;
    if s.dead {
        Some(ENODEV)
    } else if i >= q.buffers.len() {
        Some(EINVAL)
    } else {
        let b = q.buffers[i];
        if b.queued || q.memory != Some(buffer.memory) {
            Some(EINVAL)
        } else if b.prepared is None && !payload.accepted(
            direction,
            buffer.memory,
            NUM_PLANES as int,
        ) {
            Some(EINVAL)
        } else if !(1 <= buffer.length <= VIDEO_MAX_PLANES) {
            Some(EINVAL)
        } else if b.backing is Guest && (!length_fits(
            buffer.first_length(),
            s.sizeimage(direction),
            b.size,
        ) || (b.prepared is Some && !length_fits(
            (b.prepared->0).1,
            s.sizeimage(direction),
            b.size,
        )) || regions == 0) {
            Some(EINVAL)
        } else {
            None
        }
    }
}

/// The session with a buffer queued.
pub open spec fn enqueued<GM, H>(
    s: SessionView<GM, H>,
    direction: QueueDirection,
    buffer: V4l2Buffer,
    backing: Backing<GM, H>,
) -> SessionView<GM, H> {
    let q = s.queue(direction);
    let i = buffer.index as int;
    s.with_queue(
        direction,
        QueueView {
            buffers: q.buffers.update(
                i,
                queued_buffer(q.buffers[i], buffer, direction, backing),
            ),
            pending: q.pending.push(i as usize),
            ..q
        },
    )
}

/// The answer to `QBUF`: the queued buffer's description, or why lending what waits failed.
pub open spec fn queueing_answer(v: V4l2Buffer, fed: Result<(), i32>) -> Result<V4l2Buffer, i32> {
    match fed {
        Ok(_) => Ok(v),
        Err(e) => Err(e),
    }
}

/// The device with a request to map guest memory made.
pub open spec fn mapping_asked<GM, H, S, K>(
    d: DeviceView<GM, H, S, K>,
    direction: QueueDirection,
    sgs: Seq<SgEntry>,
    answer: Result<GuestMapping<GM>, Option<GuestMappingError>>,
) -> DeviceView<GM, H, S, K> {
    DeviceView {
        guest: d.guest.push(
            MapRequest { sgs, writable: direction == QueueDirection::Capture, answer },
        ),
        ..d
    }
}

/// The scatter lists of a buffer's planes.
pub open spec fn scatter_lists(v: Seq<Vec<SgEntry>>) -> Seq<Seq<SgEntry>> {
    Seq::new(v.len(), |i: int| v[i]@)
}

/// What `QBUF` does. The guest's memory is mapped, for reading on `OUTPUT` and for writing on
/// `CAPTURE`, the buffer waits its turn, and everything that waits is lent if the codec runs.
pub open spec fn queued<GM, H, S, K>(
    d: DeviceView<GM, H, S, K>,
    s: SessionView<GM, H>,
    buffer: V4l2Buffer,
    regions: Seq<Seq<SgEntry>>,
    payload: PayloadValidity,
    d2: DeviceView<GM, H, S, K>,
    s2: SessionView<GM, H>,
    r: Result<V4l2Buffer, i32>,
) -> bool {
    let unchanged = d2 == d && s2 == s;
    match buffer.queue.video_mplane_direction() {
        None => unchanged && r == Err::<V4l2Buffer, i32>(EINVAL),
        Some(direction) => match queueing_refused(
            s,
            direction,
            buffer,
            regions.len() as int,
            payload,
        ) {
            Some(e) => unchanged && r == Err::<V4l2Buffer, i32>(e),
            None => {
                let b = s.queue(direction).buffers[buffer.index as int];
                let v = queued_description(b, buffer, direction);
                match b.backing {
                    Backing::Host { .. } => exists|fed: Result<(), i32>| #[trigger]
                        feeds(d, enqueued(s, direction, buffer, b.backing), d2, s2, fed) && r
                            == queueing_answer(v, fed),
                    Backing::Guest(_) => exists|
                        answer: Result<GuestMapping<GM>, Option<GuestMappingError>>,
                    | #[trigger]
                        queued_if_mapped(d, s, direction, buffer, regions[0], v, answer, d2, s2, r),
                }
            },
        },
    }
}

/// What queueing a guest-owned buffer does for an answer to the mapping of its memory: a refusal
/// is the guest's errno, and a mapping shorter than the queue needs is `EINVAL`.
pub open spec fn queued_if_mapped<GM, H, S, K>(
    d: DeviceView<GM, H, S, K>,
    s: SessionView<GM, H>,
    direction: QueueDirection,
    buffer: V4l2Buffer,
    sgs: Seq<SgEntry>,
    v: V4l2Buffer,
    answer: Result<GuestMapping<GM>, Option<GuestMappingError>>,
    d2: DeviceView<GM, H, S, K>,
    s2: SessionView<GM, H>,
    r: Result<V4l2Buffer, i32>,
) -> bool {
    let d1 = mapping_asked(d, direction, sgs, answer);
    match answer {
        Err(e) => d2 == d1 && s2 == s && r == Err::<V4l2Buffer, i32>(
            match e {
                Some(named) => named.0,
                None => EINVAL,
            },
        ),
        Ok(m) => if m.len < s.sizeimage(direction) {
            d2 == d1 && s2 == s && r == Err::<V4l2Buffer, i32>(EINVAL)
        } else {
            exists|fed: Result<(), i32>| #[trigger]
                feeds(
                    d1,
                    enqueued(s, direction, buffer, Backing::Guest(Some(m))),
                    d2,
                    s2,
                    fed,
                ) && r == queueing_answer(v, fed)
        },
    }
}

/// Why `PREPARE_BUF` is refused, if it is.
pub open spec fn preparing_refused<GM, H>(
    s: SessionView<GM, H>,
    direction: QueueDirection,
    buffer: V4l2Buffer,
    payload: PayloadValidity,
) -> Option<i32> {
    let q = s.queue(direction);
    let i = buffer.index as int;
    if s.dead {
        Some(ENODEV)
    } else if !payload.accepted(direction, buffer.memory, NUM_PLANES as int) {
        Some(EINVAL)
    } else if i >= q.buffers.len() {
        Some(EINVAL)
    } else {
        let b = q.buffers[i];
        if b.queued || b.prepared is Some || q.memory != Some(buffer.memory) {
            Some(EINVAL)
        } else if !(1 <= buffer.length <= VIDEO_MAX_PLANES) {
            Some(EINVAL)
        } else if b.backing is Guest && !length_fits(
            buffer.first_length(),
            s.sizeimage(direction),
            b.size,
        ) {
            Some(EINVAL)
        } else {
            None
        }
    }
}

/// A prepared buffer: it keeps the payload the client declares, and its length.
pub open spec fn prepared_buffer<GM, H>(
    b: Buffer<GM, H>,
    buffer: V4l2Buffer,
    direction: QueueDirection,
) -> Buffer<GM, H> {
    let payload = declared_payload(direction, buffer.first_bytesused());
    let base = match b.backing {
        Backing::Host { .. } => b.v4l2_buffer,
        Backing::Guest(_) => echoed(buffer),
    };
    let cleared = V4l2Buffer { timestamp: Timeval { sec: 0, usec: 0 }, sequence: 0, ..base };
    Buffer {
        v4l2_buffer: cleared.without_flags(FLAGS_UNPREPARED).with_first_bytesused(
            payload,
        ).with_flags(FLAG_PREPARED),
        prepared: Some((payload, buffer.first_length())),
        ..b
    }
}

/// What `PREPARE_BUF` does: everything `QBUF` checks, minus the queueing.
pub open spec fn prepared<GM, H>(
    s: SessionView<GM, H>,
    buffer: V4l2Buffer,
    payload: PayloadValidity,
    s2: SessionView<GM, H>,
    r: Result<V4l2Buffer, i32>,
) -> bool {
    match buffer.queue.video_mplane_direction() {
        None => s2 == s && r == Err::<V4l2Buffer, i32>(EINVAL),
        Some(direction) => match preparing_refused(s, direction, buffer, payload) {
            Some(e) => s2 == s && r == Err::<V4l2Buffer, i32>(e),
            None => {
                let q = s.queue(direction);
                let i = buffer.index as int;
                let b = prepared_buffer(q.buffers[i], buffer, direction);
                s2 == s.with_queue(direction, q.with_buffer(i, b)) && r == Ok::<V4l2Buffer, i32>(
                    b.v4l2_buffer,
                )
            },
        },
    }
}

/// Queueing a buffer keeps a queue consistent.
pub proof fn enqueued_is_wf<GM, H>(
    q: QueueView<GM, H>,
    queue: QueueType,
    direction: QueueDirection,
    buffer: V4l2Buffer,
    backing: Backing<GM, H>,
)
    requires
        q.wf(queue),
        queue.multiplanar(),
        buffer.queue == queue,
        buffer.index < q.buffers.len(),
        1 <= buffer.length <= 8,
        !q.buffers[buffer.index as int].queued,
        q.memory == Some(buffer.memory),
        match backing {
            Backing::Host { .. } => q.buffers[buffer.index as int].backing is Host,
            Backing::Guest(m) => q.buffers[buffer.index as int].backing is Guest && m is Some,
        },
    ensures
        (QueueView {
            buffers: q.buffers.update(
                buffer.index as int,
                queued_buffer(q.buffers[buffer.index as int], buffer, direction, backing),
            ),
            pending: q.pending.push(buffer.index as usize),
            ..q
        }).wf(queue),
{
    let i = buffer.index as int;
    let n = queued_buffer(q.buffers[i], buffer, direction, backing);
    let r = QueueView {
        buffers: q.buffers.update(i, n),
        pending: q.pending.push(i as usize),
        ..q
    };
    let m = buffer.memory;
    assert forall|j: int| 0 <= j < r.buffers.len() implies (#[trigger] r.buffers[j]).wf(
        j,
        queue,
        m,
    ) by {
        assert(q.buffers[j].wf(j, queue, m));
    }
    assert(q.buffers[i].wf(i, queue, m));
    assert forall|k: int| 0 <= k < r.pending.len() implies (#[trigger] r.pending[k])
        < r.buffers.len() && r.buffers[r.pending[k] as int].queued
        && !r.buffers[r.pending[k] as int].lent by {
        if k < q.pending.len() {
            assert(q.buffers[q.pending[k] as int].queued);
        }
    }
    assert(r.pending.no_duplicates()) by {
        assert forall|a: int, c: int|
            0 <= a < c < r.pending.len() implies r.pending[a] != r.pending[c] by {
            if c < q.pending.len() {
                assert(q.pending[a] != q.pending[c]);
            } else {
                assert(q.buffers[q.pending[a] as int].queued);
            }
        }
    }
    assert forall|k: int| 0 <= k < r.lending.len() implies (#[trigger] r.lending[k])
        < r.buffers.len() && r.buffers[r.lending[k] as int].lent by {
        let x = q.lending[k];
        assert(q.buffers[x as int].lent);
        assert(q.buffers[x as int].wf(x as int, queue, m));
    }
    assert forall|j: usize|
        j < r.buffers.len() && (#[trigger] r.buffers[j as int]).lent implies r.lending.contains(
        j,
    ) by {
        assert(q.buffers[j as int].lent);
    }
    assert forall|j: usize|
        j < r.buffers.len() && (#[trigger] r.buffers[j as int]).queued
            && !r.buffers[j as int].lent implies r.pending.contains(j) by {
        if j == i {
            assert(r.pending[q.pending.len() as int] == j);
        } else {
            assert(q.buffers[j as int].queued && !q.buffers[j as int].lent);
            let k = choose|k: int| 0 <= k < q.pending.len() && q.pending[k] == j;
            assert(r.pending[k] == j);
        }
    }
}

/// Changing a buffer that is with the guest keeps a queue consistent.
proof fn changed_is_wf<GM, H>(q: QueueView<GM, H>, queue: QueueType, i: int, b: Buffer<GM, H>)
    requires
        q.wf(queue),
        0 <= i < q.buffers.len(),
        !q.buffers[i].queued,
        q.memory matches Some(m) && b.wf(i, queue, m),
        !b.queued,
        !b.lent,
    ensures
        q.with_buffer(i, b).wf(queue),
{
    let r = q.with_buffer(i, b);
    let m = q.memory->0;
    assert(q.buffers[i].wf(i, queue, m));
    assert forall|j: int| 0 <= j < r.buffers.len() implies (#[trigger] r.buffers[j]).wf(
        j,
        queue,
        m,
    ) by {
        assert(q.buffers[j].wf(j, queue, m));
    }
    assert forall|k: int| 0 <= k < r.pending.len() implies (#[trigger] r.pending[k])
        < r.buffers.len() && r.buffers[r.pending[k] as int].queued
        && !r.buffers[r.pending[k] as int].lent by {
        assert(q.buffers[q.pending[k] as int].queued);
    }
    assert forall|k: int| 0 <= k < r.lending.len() implies (#[trigger] r.lending[k])
        < r.buffers.len() && r.buffers[r.lending[k] as int].lent by {
        assert(q.buffers[q.lending[k] as int].lent);
    }
    assert forall|j: usize|
        j < r.buffers.len() && (#[trigger] r.buffers[j as int]).lent implies r.lending.contains(
        j,
    ) by {
        assert(q.buffers[j as int].lent);
    }
    assert forall|j: usize|
        j < r.buffers.len() && (#[trigger] r.buffers[j as int]).queued
            && !r.buffers[j as int].lent implies r.pending.contains(j) by {
        assert(q.buffers[j as int].queued && !q.buffers[j as int].lent);
    }
}

/// The payload a queue takes from the client.
fn take_payload(direction: QueueDirection, bytesused: u32) -> (r: u32)
    ensures
        r == declared_payload(direction, bytesused),
{
    match direction {
        QueueDirection::Output => bytesused,
        QueueDirection::Capture => 0,
    }
}

impl<GM, H> Queue<GM, H> {
    /// Marks a buffer queued with its memory at hand, and lets it wait its turn.
    fn enqueue(
        &mut self,
        index: usize,
        buffer: &V4l2Buffer,
        direction: QueueDirection,
        mapping: Option<GuestMapping<GM>>,
    ) -> (r: V4l2Buffer)
        requires
            index == buffer.index,
            index < old(self)@.buffers.len(),
            old(self)@.buffers[index as int].backing is Host ==> mapping is None,
        ensures
            ({
                let q = old(self)@;
                let b = q.buffers[index as int];
                let backing = match b.backing {
                    Backing::Host { .. } => b.backing,
                    Backing::Guest(_) => Backing::Guest(mapping),
                };
                &&& r == queued_description(b, *buffer, direction)
                &&& final(self)@ == (QueueView {
                    buffers: q.buffers.update(
                        index as int,
                        queued_buffer(b, *buffer, direction, backing),
                    ),
                    pending: q.pending.push(index),
                    ..q
                })
            }),
    {
        let guest: bool = matches!(self.buffers[index].backing, Backing::Guest(_));
        let mut v: V4l2Buffer = self.buffers[index].v4l2_buffer;
        if self.buffers[index].prepared.is_none() {
            if guest {
                v = *buffer;
                v.field = FIELD_NONE;
                v.flags = FLAG_TIMESTAMP_COPY;
            }
            v.set_first_bytesused(take_payload(direction, buffer.first_plane_bytesused()));
        }
        if direction == QueueDirection::Output {
            v.timestamp = buffer.timestamp;
        }
        v.clear_flags(FLAGS_STALE);
        v.add_flags(FLAG_QUEUED);
        if guest {
            self.buffers[index].backing = Backing::Guest(mapping);
        }
        self.buffers[index].queued = true;
        self.buffers[index].prepared = None;
        self.buffers[index].v4l2_buffer = v;
        self.pending.push_back(index);
        v
    }
}

impl<B, Q, M, HM, A> VideoEncoder<B, Q, M, HM, A> where
    B: VideoEncoderBackend,
    Q: VirtioMediaEventQueue,
    M: VirtioMediaGuestMemoryMapper,
    A: VirtioMediaBufferAllocator,
    HM: VirtioMediaHostMemoryMapper<Handle = A::Handle>,
 {
    /// Why a session may not allocate buffers, if it may not.
    fn refuse_allocation(
        &self,
        session: &EncoderSession<B, M, A>,
        memory: MemoryType,
        count: u32,
    ) -> (r: Option<i32>)
        ensures
            r == allocation_refused(self@, session@, memory, count),
    {
        if session.dead && count > 0 {
            return Some(ENODEV);
        }
        if !matches!(memory, MemoryType::Mmap | MemoryType::UserPtr) {
            return Some(EINVAL);
        }
        match self.active_session {
            Some(id) => if id != session.id {
                Some(EBUSY)
            } else {
                None
            },
            None => None,
        }
    }

    /// Allocates, replaces or frees the buffers of a queue.
    pub fn reqbufs(
        &mut self,
        session: &mut EncoderSession<B, M, A>,
        queue: QueueType,
        memory: MemoryType,
        count: u32,
    ) -> (r: Result<RequestBuffers, i32>)
        requires
            old(self).serves(old(session)),
        ensures
            final(self).serves(final(session)),
            final(self).continues(old(self)),
            final(session).continues(old(session)),
            old(self)@.keeps_others(final(self)@, old(session)@.id),
            final(session)@.id == old(session)@.id,
            requested(
                old(self)@,
                old(session)@,
                queue,
                memory,
                count,
                final(self)@,
                final(session)@,
                r,
            ),
    {
        let direction: QueueDirection = match queue.direction_or_einval() {
            Ok(d) => d,
            Err(e) => {
                return Err(e);
            },
        };
        if let Some(e) = self.refuse_allocation(session, memory, count) {
            return Err(e);
        }
        if count == 0 {
            let ghost d = self@;
            let ghost s = session@;
            let _ = self.streamoff(session, queue);
            let ghost d1 = self@;
            let ghost s1 = session@;
            assert(stream_off(d, s, direction, d1, s1));
            proof {
                idle_queues_lend_nothing(d1, s1, direction);
                freeing_leaves_the_rest(d1, s1.queue(direction).buffers);
            }
            self.free_buffers(session.queue_mut(direction));
            if !session.has_buffers() {
                self.active_session = None;
            }
            assert((self@, session@) == all_freed(d1, s1, direction));
            return Ok(
                RequestBuffers {
                    count: 0,
                    type_: queue.to_u32(),
                    memory: memory.to_u32(),
                    capabilities: BUF_CAPABILITIES,
                    flags: 0,
                },
            );
        }
        if session.streaming(direction) {
            return Err(EBUSY);
        }
        let ghost s = session@;
        proof {
            idle_queues_lend_nothing(self@, s, direction);
            freeing_leaves_the_rest(self@, s.queue(direction).buffers);
        }
        self.free_buffers(session.queue_mut(direction));
        let n: usize = if count as usize <= MAX_BUFFERS {
            count as usize
        } else {
            MAX_BUFFERS
        };
        let sizeimage: u32 = session.sizeimage(direction);
        let ghost s1 = session@;
        let ghost d1 = self@;
        let r = self.add_buffers(session.queue_mut(direction), queue, memory, n, sizeimage);
        if let Err(e) = r {
            assert(session@ =~= s1);
            return Err(e);
        }
        self.active_session = Some(session.id);
        assert(buffers_added(
            d1,
            s1,
            queue,
            direction,
            memory,
            n as int,
            sizeimage,
            self@,
            session@,
            Ok(()),
        ));
        Ok(
            RequestBuffers {
                count: n as u32,
                type_: queue.to_u32(),
                memory: memory.to_u32(),
                capabilities: BUF_CAPABILITIES,
                flags: 0,
            },
        )
    }

    /// Adds buffers to a queue, sized by the guest.
    pub fn create_bufs(
        &mut self,
        session: &mut EncoderSession<B, M, A>,
        count: u32,
        queue: QueueType,
        memory: MemoryType,
        format: V4l2Format,
    ) -> (r: Result<CreateBuffers, i32>)
        requires
            old(self).serves(old(session)),
        ensures
            final(self).serves(final(session)),
            final(self).continues(old(self)),
            final(session).continues(old(session)),
            old(self)@.keeps_others(final(self)@, old(session)@.id),
            final(session)@.id == old(session)@.id,
            created(
                old(self)@,
                old(session)@,
                count,
                queue,
                memory,
                format,
                final(self)@,
                final(session)@,
                r,
            ),
    {
        let direction: QueueDirection = match queue.direction_or_einval() {
            Ok(d) => d,
            Err(e) => {
                return Err(e);
            },
        };
        if let Some(e) = self.refuse_allocation(session, memory, 1) {
            return Err(e);
        }
        let p: PixFormatMplane = match format.fmt {
            FormatBody::PixMp(p) => p,
            FormatBody::Raw(_) => {
                return Err(EINVAL);
            },
        };
        if p.num_planes != 1 {
            return Err(EINVAL);
        }
        let asked: u32 = p.plane0.sizeimage;
        if asked < session.sizeimage(direction) {
            return Err(EINVAL);
        }
        if let Some(existing) = session.queue(direction).memory {
            if existing != memory {
                return Err(EINVAL);
            }
        }
        let ghost s = session@;
        let ghost d = self@;
        let first: usize = session.queue(direction).buffers.len();
        let room: usize = MAX_BUFFERS - first;
        let n: usize = if count as usize <= room {
            count as usize
        } else {
            room
        };
        let answer: V4l2Format = session.format_sized(direction, asked);
        if n > 0 {
            let r = self.add_buffers(session.queue_mut(direction), queue, memory, n, asked);
            if let Err(e) = r {
                assert(session@ =~= s);
                return Err(e);
            }
            self.active_session = Some(session.id);
            assert(buffers_added(
                d,
                s,
                queue,
                direction,
                memory,
                n as int,
                asked,
                self@,
                session@,
                Ok(()),
            ));
        }
        Ok(
            CreateBuffers {
                index: first as u32,
                count: n as u32,
                memory: memory.to_u32(),
                format: answer,
                capabilities: BUF_CAPABILITIES,
                flags: 0,
            },
        )
    }

    /// The description of a buffer.
    pub fn querybuf(&mut self, session: &EncoderSession<B, M, A>, queue: QueueType, index: u32)
        -> (r: Result<V4l2Buffer, i32>)
        requires
            old(self).serves(session),
        ensures
            *final(self) == *old(self),
            r == buffer_told(session@, queue, index),
    {
        match queue.direction_or_einval() {
            Ok(direction) => {
                let q = session.queue(direction);
                if (index as usize) < q.buffers.len() {
                    Ok(q.buffers[index as usize].v4l2_buffer)
                } else {
                    Err(EINVAL)
                }
            },
            Err(e) => Err(e),
        }
    }

    /// Why queueing a buffer is refused before any memory is mapped, if it is.
    fn refuse_queueing(
        session: &EncoderSession<B, M, A>,
        direction: QueueDirection,
        buffer: &V4l2Buffer,
        regions: usize,
        payload: PayloadValidity,
    ) -> (r: Option<i32>)
        requires
            session@.wf(),
        ensures
            r == queueing_refused(session@, direction, *buffer, regions as int, payload),
    {
        if session.dead {
            return Some(ENODEV);
        }
        let sizeimage: u32 = session.sizeimage(direction);
        let q = session.queue(direction);
        if buffer.index as usize >= q.buffers.len() {
            return Some(EINVAL);
        }
        let entry = &q.buffers[buffer.index as usize];
        let same_memory: bool = match q.memory {
            Some(m) => m == buffer.memory,
            None => false,
        };
        if entry.queued || !same_memory {
            return Some(EINVAL);
        }
        // A prepared buffer keeps the payload `PREPARE_BUF` accepted; this call's is ignored.
        if entry.prepared.is_none() && !payload.is_accepted_by(
            direction,
            buffer.memory,
            NUM_PLANES,
        ) {
            return Some(EINVAL);
        }
        if buffer.length == 0 || buffer.length > VIDEO_MAX_PLANES {
            return Some(EINVAL);
        }
        let guest: bool = matches!(entry.backing, Backing::Guest(_));
        if guest {
            // The scatter list about to be mapped was read against this call's length, so that is
            // checked whatever was prepared; the prepared length is checked for what it describes.
            let length: u32 = buffer.first_plane_length();
            if length < sizeimage || length > entry.size {
                return Some(EINVAL);
            }
            if let Some((_, prepared_length)) = entry.prepared {
                if prepared_length < sizeimage || prepared_length > entry.size {
                    return Some(EINVAL);
                }
            }
            if regions == 0 {
                return Some(EINVAL);
            }
        }
        None
    }

    /// Queues a buffer: its memory is mapped if it is the guest's, and it is lent to the codec
    /// when its turn comes.
    pub fn qbuf(
        &mut self,
        session: &mut EncoderSession<B, M, A>,
        buffer: V4l2Buffer,
        guest_regions: Vec<Vec<SgEntry>>,
        payload: PayloadValidity,
    ) -> (r: Result<V4l2Buffer, i32>)
        requires
            old(self).serves(old(session)),
        ensures
            final(self).serves(final(session)),
            final(self).continues(old(self)),
            final(session).continues(old(session)),
            old(self)@.keeps_others(final(self)@, old(session)@.id),
            final(session)@.id == old(session)@.id,
            queued(
                old(self)@,
                old(session)@,
                buffer,
                scatter_lists(guest_regions@),
                payload,
                final(self)@,
                final(session)@,
                r,
            ),
    {
        let direction: QueueDirection = match buffer.queue.direction_or_einval() {
            Ok(d) => d,
            Err(e) => {
                return Err(e);
            },
        };
        if let Some(e) = Self::refuse_queueing(
            session,
            direction,
            &buffer,
            guest_regions.len(),
            payload,
        ) {
            return Err(e);
        }
        let ghost d = self@;
        let ghost s = session@;
        let ghost regions = scatter_lists(guest_regions@);
        let index: usize = buffer.index as usize;
        let guest: bool = matches!(
            session.queue(direction).buffers[index].backing,
            Backing::Guest(_)
        );
        let mapping: Option<GuestMapping<M::GuestMemoryMapping>> = if guest {
            let mut lists = guest_regions;
            assert(lists@[0]@ == regions[0]);
            let sgs: Vec<SgEntry> = lists.swap_remove(0);
            // The codec reads an `OUTPUT` buffer and writes a `CAPTURE` one.
            let writable: bool = direction == QueueDirection::Capture;
            let answer = self.mem.map(sgs, writable);
            assert(self@ == mapping_asked(d, direction, regions[0], answer));
            let ghost v = queued_description(
                s.queue(direction).buffers[index as int],
                buffer,
                direction,
            );
            match answer {
                Ok(m) => {
                    if m.len < session.sizeimage(direction) as usize {
                        assert(queued_if_mapped(
                            d,
                            s,
                            direction,
                            buffer,
                            regions[0],
                            v,
                            answer,
                            self@,
                            session@,
                            Err(EINVAL),
                        ));
                        return Err(EINVAL);
                    }
                    Some(m)
                },
                Err(e) => {
                    let errno: i32 = guest_mapping_errno(&e);
                    assert(queued_if_mapped(
                        d,
                        s,
                        direction,
                        buffer,
                        regions[0],
                        v,
                        answer,
                        self@,
                        session@,
                        Err(errno),
                    ));
                    return Err(errno);
                },
            }
        } else {
            None
        };
        let ghost d1 = self@;
        let ghost b = s.queue(direction).buffers[index as int];
        let ghost backing = match b.backing {
            Backing::Host { .. } => b.backing,
            Backing::Guest(_) => Backing::Guest(mapping),
        };
        let reply: V4l2Buffer = session.queue_mut(direction).enqueue(
            index,
            &buffer,
            direction,
            mapping,
        );
        proof {
            enqueued_is_wf(s.queue(direction), buffer.queue, direction, buffer, backing);
            assert(session@ == enqueued(s, direction, buffer, backing));
        }
        let fed: Result<(), i32> = self.feed_pending(session);
        let r: Result<V4l2Buffer, i32> = match fed {
            Ok(_) => Ok(reply),
            Err(e) => Err(e),
        };
        proof {
            assert(feeds(d1, enqueued(s, direction, buffer, backing), self@, session@, fed));
            if b.backing is Guest {
                let answer = self@.guest.last().answer;
                assert(queued_if_mapped(
                    d,
                    s,
                    direction,
                    buffer,
                    regions[0],
                    reply,
                    answer,
                    self@,
                    session@,
                    r,
                ));
            }
        }
        r
    }

    /// Prepares a buffer: everything queueing checks, minus the queueing. No guest memory is
    /// mapped: the driver sends the scatter list again when it queues the buffer.
    pub fn prepare_buf(
        &mut self,
        session: &mut EncoderSession<B, M, A>,
        buffer: V4l2Buffer,
        _guest_regions: Vec<Vec<SgEntry>>,
        payload: PayloadValidity,
    ) -> (r: Result<V4l2Buffer, i32>)
        requires
            old(self).serves(old(session)),
        ensures
            final(self).serves(final(session)),
            final(session).continues(old(session)),
            old(self)@.keeps_others(final(self)@, old(session)@.id),
            final(session)@.id == old(session)@.id,
            *final(self) == *old(self),
            prepared(old(session)@, buffer, payload, final(session)@, r),
    {
        let direction: QueueDirection = match buffer.queue.direction_or_einval() {
            Ok(d) => d,
            Err(e) => {
                return Err(e);
            },
        };
        if session.dead {
            return Err(ENODEV);
        }
        if !payload.is_accepted_by(direction, buffer.memory, NUM_PLANES) {
            return Err(EINVAL);
        }
        let ghost s = session@;
        let index: usize = buffer.index as usize;
        let sizeimage: u32 = session.sizeimage(direction);
        let q = session.queue(direction);
        if index >= q.buffers.len() {
            return Err(EINVAL);
        }
        let entry = &q.buffers[index];
        let same_memory: bool = match q.memory {
            Some(m) => m == buffer.memory,
            None => false,
        };
        if entry.queued || entry.prepared.is_some() || !same_memory {
            return Err(EINVAL);
        }
        if buffer.length == 0 || buffer.length > VIDEO_MAX_PLANES {
            return Err(EINVAL);
        }
        let length: u32 = buffer.first_plane_length();
        let mut v: V4l2Buffer = entry.v4l2_buffer;
        let guest: bool = matches!(entry.backing, Backing::Guest(_));
        if guest {
            if length < sizeimage || length > entry.size {
                return Err(EINVAL);
            }
            v = buffer;
            v.field = FIELD_NONE;
            v.flags = FLAG_TIMESTAMP_COPY;
        }
        let bytesused: u32 = take_payload(direction, buffer.first_plane_bytesused());
        v.timestamp = Timeval { sec: 0, usec: 0 };
        v.sequence = 0;
        v.clear_flags(FLAGS_UNPREPARED);
        v.set_first_bytesused(bytesused);
        v.add_flags(FLAG_PREPARED);
        let q = session.queue_mut(direction);
        q.buffers[index].v4l2_buffer = v;
        q.buffers[index].prepared = Some((bytesused, length));
        proof {
            let q = s.queue(direction);
            let b = prepared_buffer(q.buffers[index as int], buffer, direction);
            assert(q.buffers[index as int].wf(index as int, buffer.queue, buffer.memory));
            changed_is_wf(q, buffer.queue, index as int, b);
            assert(session@ == s.with_queue(direction, q.with_buffer(index as int, b)));
        }
        Ok(v)
    }
}

} // verus!
