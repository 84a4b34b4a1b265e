//! Reading what a guest sends with an ioctl: scatter lists, buffers and sets of controls.
use vstd::prelude::*;

use super::types::{ExtControl, ExtControls};
use crate::bytes::{
    le32, le64, read_i32, read_i64, read_u32, read_u64, signed32, signed64, ChainReader,
};
use crate::payload::PayloadValidity;
use crate::protocol::SgEntry;
use crate::v4l2::{
    MemoryType, QueueType, Timeval, V4l2Buffer, V4l2Plane, VIDEO_MAX_PLANES,
};

verus! {

/// Most entries a single scatter list may carry.
///
/// The guest chooses the entry count, and every entry it sends is another read and, later, another
/// host mapping. At 4 KiB per entry this is more than a 4K frame, so nothing that is expected to
/// work is refused.
pub const MAX_SG_ENTRIES: usize = 4096;

/// Why what a guest sent could not be read.
#[derive(Clone, Copy, Debug, PartialEq, Eq, Structural)]
pub struct InvalidData;

/// Bytes of a scatter list entry.
pub const SG_ENTRY_SIZE: usize = 16;

/// Bytes of a `struct v4l2_buffer`.
pub const BUFFER_SIZE: usize = 88;

/// Bytes of a `struct v4l2_plane`.
pub const PLANE_SIZE: usize = 64;

/// Bytes of a `struct v4l2_ext_controls`.
pub const EXT_CONTROLS_SIZE: usize = 32;

/// Bytes of a `struct v4l2_ext_control`.
pub const EXT_CONTROL_SIZE: usize = 20;

/// Entry `i` of the scatter list at the start of some bytes.
pub open spec fn sg_of(b: Seq<u8>, i: int) -> SgEntry {
    SgEntry { start: le64(b, 16 * i) as u64, len: le32(b, 16 * i + 8) as u32 }
}

/// How many entries of the scatter list at the start of `b` cover what is left of it after `n` of
/// them, `left` bytes; none where the list ends, has an empty entry or is too long before it does.
pub open spec fn entries_from(b: Seq<u8>, left: int, n: int) -> Option<int>
    decreases MAX_SG_ENTRIES - n,
{
    if left <= 0 {
        Some(n)
    } else if n >= MAX_SG_ENTRIES || 16 * (n + 1) > b.len() || sg_of(b, n).len == 0 {
        None
    } else {
        entries_from(b, left - sg_of(b, n).len, n + 1)
    }
}

/// The scatter list of `size` bytes at the start of `b`.
pub open spec fn scatter_of(b: Seq<u8>, size: int) -> Option<Seq<SgEntry>> {
    match entries_from(b, size, 0) {
        Some(n) => Some(Seq::new(n as nat, |i: int| sg_of(b, i))),
        None => None,
    }
}

/// The scatter lists of planes of the given sizes, one after another; a plane without bytes has
/// none.
pub open spec fn scatters_of(b: Seq<u8>, sizes: Seq<u32>) -> Option<Seq<Seq<SgEntry>>>
    decreases sizes.len(),
{
    if sizes.len() == 0 {
        Some(Seq::empty())
    } else if sizes[0] == 0 {
        scatters_of(b, sizes.skip(1))
    } else {
        match scatter_of(b, sizes[0] as int) {
            None => None,
            Some(list) => match scatters_of(b.skip(16 * list.len() as int), sizes.skip(1)) {
                None => None,
                Some(rest) => Some(seq![list] + rest),
            },
        }
    }
}

/// A scatter list found covers what it is for: its entries are not empty, there are no more of
/// them than allowed, and the last one is needed.
pub proof fn scatter_lists_cover_their_size(b: Seq<u8>, size: int)
    requires
        scatter_of(b, size) is Some,
        size >= 0,
    ensures
        ({
            let list = scatter_of(b, size)->0;
            &&& list.len() <= MAX_SG_ENTRIES
            &&& 16 * list.len() <= b.len()
            &&& total(list) >= size
            &&& forall|i: int| 0 <= i < list.len() ==> (#[trigger] list[i]).len > 0
            &&& list.len() > 0 ==> total(list.drop_last()) < size
        }),
{
    entries_are_counted(b, size, size, 0);
    let list = scatter_of(b, size)->0;
    if list.len() > 0 {
        assert(list.drop_last() =~= Seq::new((list.len() - 1) as nat, |i: int| sg_of(b, i)));
    }
}

/// The bytes a scatter list covers.
pub open spec fn total(list: Seq<SgEntry>) -> int
    decreases list.len(),
{
    if list.len() == 0 {
        0
    } else {
        total(list.drop_last()) + list.last().len
    }
}

/// What counting the entries from the `n`th says of all of them.
proof fn entries_are_counted(b: Seq<u8>, size: int, left: int, n: int)
    requires
        entries_from(b, left, n) is Some,
        0 <= n <= MAX_SG_ENTRIES,
        16 * n <= b.len(),
        left == size - total(Seq::new(n as nat, |i: int| sg_of(b, i))),
        forall|i: int| 0 <= i < n ==> sg_of(b, i).len > 0,
        n > 0 ==> total(Seq::new((n - 1) as nat, |i: int| sg_of(b, i))) < size,
    ensures
        ({
            let m = entries_from(b, left, n)->0;
            &&& n <= m <= MAX_SG_ENTRIES
            &&& 16 * m <= b.len()
            &&& total(Seq::new(m as nat, |i: int| sg_of(b, i))) >= size
            &&& forall|i: int| 0 <= i < m ==> (#[trigger] sg_of(b, i)).len > 0
            &&& m > 0 ==> total(Seq::new((m - 1) as nat, |i: int| sg_of(b, i))) < size
        }),
    decreases MAX_SG_ENTRIES - n,
{
    if left > 0 {
        let s = Seq::new(n as nat, |i: int| sg_of(b, i));
        let t = Seq::new((n + 1) as nat, |i: int| sg_of(b, i));
        assert(t.drop_last() =~= s);
        assert(t.last() == sg_of(b, n));
        entries_are_counted(b, size, left - sg_of(b, n).len, n + 1);
    }
}

/// Reads the scatter list of `size` bytes the driver passes for a guest buffer.
///
/// The list is bounded, and an empty entry is refused: it would never get closer to `size`, so a
/// guest could keep this reading for as long as the descriptor chain holds out.
pub fn get_userptr_regions(reader: &mut ChainReader, size: usize) -> (r: Result<
    Vec<SgEntry>,
    InvalidData,
>)
    requires
        old(reader).wf(),
    ensures
        final(reader).wf(),
        match (r, scatter_of(old(reader).rest(), size as int)) {
            (Ok(list), Some(expected)) => list@ == expected && final(reader).rest()
                == old(reader).rest().skip(16 * expected.len() as int),
            (Err(_), None) => true,
            _ => false,
        },
{
    let ghost b = reader.rest();
    let mut list: Vec<SgEntry> = Vec::new();
    let mut taken: u64 = 0;
    while taken < size as u64
        invariant
            reader.wf(),
            b == old(reader).rest(),
            list@.len() <= MAX_SG_ENTRIES,
            taken <= 0xffff_ffff * list@.len(),
            16 * list@.len() <= b.len(),
            reader.rest() == b.skip(16 * list@.len() as int),
            forall|i: int| 0 <= i < list@.len() ==> #[trigger] list@[i] == sg_of(b, i),
            entries_from(b, size as int, 0) == entries_from(
                b,
                size - taken,
                list@.len() as int,
            ),
        decreases MAX_SG_ENTRIES - list@.len(),
    {
        if list.len() >= MAX_SG_ENTRIES {
            return Err(InvalidData);
        }
        let ghost n = list@.len() as int;
        match reader.take(SG_ENTRY_SIZE) {
            Some(e) => {
                let start: u64 = read_u64(e, 0);
                let len: u32 = read_u32(e, 8);
                proof {
                    assert(e@ == b.skip(16 * n).take(16));
                    assert forall|k: int| 0 <= k < 16 implies e@[k] == b[16 * n + k] by {}
                    assert(SgEntry { start, len } == sg_of(b, n));
                    assert(reader.rest() =~= b.skip(16 * (n + 1)));
                }
                if len == 0 {
                    return Err(InvalidData);
                }
                taken = taken + len as u64;
                list.push(SgEntry { start, len });
            },
            None => {
                return Err(InvalidData);
            },
        }
    }
    assert(list@ =~= Seq::new(list@.len(), |i: int| sg_of(b, i)));
    Ok(list)
}

/// Reads the scatter lists of planes of the given sizes.
pub fn read_regions(reader: &mut ChainReader, sizes: &Vec<u32>) -> (r: Result<
    Vec<Vec<SgEntry>>,
    InvalidData,
>)
    requires
        old(reader).wf(),
    ensures
        final(reader).wf(),
        match (r, scatters_of(old(reader).rest(), sizes@)) {
            (Ok(lists), Some(expected)) => lists_are(lists@, expected),
            (Err(_), None) => true,
            _ => false,
        },
{
    let ghost b = reader.rest();
    let mut lists: Vec<Vec<SgEntry>> = Vec::new();
    let ghost mut views: Seq<Seq<SgEntry>> = Seq::empty();
    let mut i: usize = 0;
    assert(sizes@.skip(0) =~= sizes@);
    while i < sizes.len()
        invariant
            reader.wf(),
            b == old(reader).rest(),
            i <= sizes@.len(),
            lists_are(lists@, views),
            scatters_of(b, sizes@) == prefixed(
                views,
                scatters_of(reader.rest(), sizes@.skip(i as int)),
            ),
        decreases sizes@.len() - i,
    {
        let ghost left = sizes@.skip(i as int);
        assert(left.skip(1) =~= sizes@.skip(i + 1));
        assert(left[0] == sizes@[i as int]);
        let ghost rest = reader.rest();
        if sizes[i] > 0 {
            match get_userptr_regions(reader, sizes[i] as usize) {
                Ok(list) => {
                    proof {
                        let after = scatters_of(reader.rest(), left.skip(1));
                        if let Some(more) = after {
                            assert(views + (seq![list@] + more) =~= views.push(list@) + more);
                        }
                        views = views.push(list@);
                    }
                    lists.push(list);
                },
                Err(e) => {
                    return Err(e);
                },
            }
        }
        i = i + 1;
    }
    assert(sizes@.skip(i as int).len() == 0);
    assert(views + Seq::<Seq<SgEntry>>::empty() =~= views);
    Ok(lists)
}

/// Whether scatter lists are the given ones.
pub open spec fn lists_are(lists: Seq<Vec<SgEntry>>, expected: Seq<Seq<SgEntry>>) -> bool {
    &&& lists.len() == expected.len()
    &&& forall|i: int| 0 <= i < lists.len() ==> (#[trigger] lists[i])@ == expected[i]
}

/// What was read with what is still to be read.
spec fn prefixed(done: Seq<Seq<SgEntry>>, rest: Option<Seq<Seq<SgEntry>>>) -> Option<
    Seq<Seq<SgEntry>>,
> {
    match rest {
        Some(rest) => Some(done + rest),
        None => None,
    }
}

/// The `struct v4l2_plane` at `at`.
pub open spec fn plane_of(b: Seq<u8>, at: int) -> V4l2Plane {
    V4l2Plane {
        bytesused: le32(b, at) as u32,
        length: le32(b, at + 4) as u32,
        m: le64(b, at + 8) as u64,
        data_offset: le32(b, at + 16) as u32,
        reserved: (
            le64(b, at + 20) as u64,
            le64(b, at + 28) as u64,
            le64(b, at + 36) as u64,
            le64(b, at + 44) as u64,
            le64(b, at + 52) as u64,
            le32(b, at + 60) as u32,
        ),
    }
}

/// A plane as a buffer takes it: one whose payload it cannot hold has none.
pub open spec fn cleaned(p: V4l2Plane) -> V4l2Plane {
    if p.payload_fits() {
        p
    } else {
        V4l2Plane { bytesused: 0, data_offset: 0, ..p }
    }
}

/// A `v4l2_buffer` as the guest sent it, together with the scatter lists of its `USERPTR` planes.
///
/// `payload` says which of the plane slots' `bytesused` and `data_offset` could be taken as sent;
/// the rest are zero in `buffer`, so that the buffer -- index, memory type, plane backing, scatter
/// lists -- is still there to be used. Queueing ignores both fields on a prepared buffer and a
/// capture queue ignores them always, so only the device knows whether an inconsistent pair is an
/// error.
pub struct GuestV4l2Buffer {
    pub buffer: V4l2Buffer,
    pub guest_regions: Vec<Vec<SgEntry>>,
    pub payload: PayloadValidity,
}

/// The queue type a number stands for.
pub open spec fn queue_of(v: int) -> Option<QueueType> {
    if v == 1 {
        Some(QueueType::VideoCapture)
    } else if v == 2 {
        Some(QueueType::VideoOutput)
    } else if v == 3 {
        Some(QueueType::VideoOverlay)
    } else if v == 4 {
        Some(QueueType::VbiCapture)
    } else if v == 5 {
        Some(QueueType::VbiOutput)
    } else if v == 6 {
        Some(QueueType::SlicedVbiCapture)
    } else if v == 7 {
        Some(QueueType::SlicedVbiOutput)
    } else if v == 8 {
        Some(QueueType::VideoOutputOverlay)
    } else if v == 9 {
        Some(QueueType::VideoCaptureMplane)
    } else if v == 10 {
        Some(QueueType::VideoOutputMplane)
    } else if v == 11 {
        Some(QueueType::SdrCapture)
    } else if v == 12 {
        Some(QueueType::SdrOutput)
    } else if v == 13 {
        Some(QueueType::MetaCapture)
    } else if v == 14 {
        Some(QueueType::MetaOutput)
    } else {
        None
    }
}

/// The memory type a number stands for.
pub open spec fn memory_of(v: int) -> Option<MemoryType> {
    if v == 1 {
        Some(MemoryType::Mmap)
    } else if v == 2 {
        Some(MemoryType::UserPtr)
    } else if v == 3 {
        Some(MemoryType::Overlay)
    } else if v == 4 {
        Some(MemoryType::DmaBuf)
    } else {
        None
    }
}

/// Whether a number can be the length of a plane array on a queue: at least one plane and no more
/// than fit, where the queue has plane arrays.
pub open spec fn array_fits(queue: QueueType, length: int) -> bool {
    queue.multiplanar() ==> 1 <= length <= VIDEO_MAX_PLANES
}

/// Bytes a buffer takes, its plane array included.
pub open spec fn buffer_extent(queue: QueueType, length: int) -> int {
    if queue.multiplanar() {
        88 + 64 * length
    } else {
        88
    }
}

/// The lengths of the planes of the buffer at the start of some bytes.
pub open spec fn plane_sizes(b: Seq<u8>, queue: QueueType) -> Seq<u32> {
    if queue.multiplanar() {
        Seq::new(le32(b, 72) as nat, |i: int| plane_of(b, 88 + 64 * i).length)
    } else {
        seq![le32(b, 72) as u32]
    }
}

/// The scatter lists behind a buffer: those of its planes if it is the guest's, else none.
pub open spec fn regions_of(b: Seq<u8>, queue: QueueType, memory: MemoryType) -> Option<
    Seq<Seq<SgEntry>>,
> {
    if memory == MemoryType::UserPtr {
        scatters_of(b.skip(buffer_extent(queue, le32(b, 72))), plane_sizes(b, queue))
    } else {
        Some(Seq::empty())
    }
}

/// Whether a buffer is the one at the start of some bytes, of the given queue and memory, with the
/// payloads it cannot hold taken away.
pub open spec fn is_buffer(v: V4l2Buffer, b: Seq<u8>, queue: QueueType, memory: MemoryType)
    -> bool {
    &&& v.index == le32(b, 0)
    &&& v.queue == queue
    &&& v.bytesused == (if !queue.multiplanar() && le32(b, 8) > le32(b, 72) {
        0
    } else {
        le32(b, 8)
    })
    &&& v.flags == le32(b, 12)
    &&& v.field == le32(b, 16)
    &&& v.timestamp.sec == signed64(le64(b, 24))
    &&& v.timestamp.usec == signed64(le64(b, 32))
    &&& v.timecode == (le64(b, 40) as u64, le64(b, 48) as u64)
    &&& v.sequence == le32(b, 56)
    &&& v.memory == memory
    &&& v.m == le64(b, 64)
    &&& v.length == le32(b, 72)
    &&& v.reserved2 == le32(b, 76)
    &&& v.request_fd == le32(b, 80)
    &&& forall|i: int|
        0 <= i < 8 ==> #[trigger] v.plane(i) == if queue.multiplanar() && i < le32(b, 72) {
            cleaned(plane_of(b, 88 + 64 * i))
        } else {
            V4l2Plane::zero()
        }
}

/// Whether slot `i` of the buffer at the start of some bytes describes a payload it can hold.
pub open spec fn slot_fits(b: Seq<u8>, queue: QueueType, i: int) -> bool {
    if queue.multiplanar() {
        i < le32(b, 72) ==> plane_of(b, 88 + 64 * i).payload_fits()
    } else {
        i == 0 ==> le32(b, 8) <= le32(b, 72)
    }
}

/// Whether the buffer at the start of some bytes is one at all: its queue and memory types exist,
/// its plane array is all there, and so are its scatter lists.
pub open spec fn buffer_readable(b: Seq<u8>) -> bool {
    &&& b.len() >= 88
    &&& queue_of(le32(b, 4)) matches Some(queue) && memory_of(le32(b, 60)) matches Some(memory)
        && array_fits(queue, le32(b, 72)) && b.len() >= buffer_extent(queue, le32(b, 72))
        && regions_of(b, queue, memory) is Some
}

/// Whether a guest buffer is the one at the start of some bytes.
pub open spec fn is_guest_buffer(g: GuestV4l2Buffer, b: Seq<u8>) -> bool {
    let queue = queue_of(le32(b, 4))->0;
    let memory = memory_of(le32(b, 60))->0;
    &&& is_buffer(g.buffer, b, queue, memory)
    &&& lists_are(g.guest_regions@, regions_of(b, queue, memory)->0)
    &&& forall|i: int|
        0 <= i < 8 ==> (#[trigger] g.payload.valid(i) <==> slot_fits(b, queue, i))
}

/// A buffer that was read holds every payload it declares: what could not be held is gone, and
/// nothing else of the plane is.
pub proof fn read_buffers_hold_their_payload(g: GuestV4l2Buffer, b: Seq<u8>, i: int)
    requires
        buffer_readable(b),
        is_guest_buffer(g, b),
        0 <= i < 8,
    ensures
        g.buffer.plane(i).payload_fits(),
        !g.buffer.queue.multiplanar() ==> g.buffer.bytesused <= g.buffer.length,
        g.buffer.queue.multiplanar() && i < g.buffer.length && g.payload.valid(i)
            ==> g.buffer.plane(i) == plane_of(b, 88 + 64 * i),
        g.buffer.queue.multiplanar() && i < g.buffer.length && !g.payload.valid(i)
            ==> g.buffer.plane(i) == (V4l2Plane {
            bytesused: 0,
            data_offset: 0,
            ..plane_of(b, 88 + 64 * i)
        }),
{
    assert(g.payload.valid(i) <==> slot_fits(b, g.buffer.queue, i));
}

/// The queue type a number stands for.
pub fn queue_from(v: u32) -> (r: Option<QueueType>)
    ensures
        r == queue_of(v as int),
{
    QueueType::n(v)
}

/// The memory type a number stands for.
pub fn memory_from(v: u32) -> (r: Option<MemoryType>)
    ensures
        r == memory_of(v as int),
{
    MemoryType::n(v)
}

/// The `struct v4l2_plane` at the start of a slice.
fn read_plane(p: &[u8]) -> (r: V4l2Plane)
    requires
        p@.len() == 64,
    ensures
        r == plane_of(p@, 0),
{
    V4l2Plane {
        bytesused: read_u32(p, 0),
        length: read_u32(p, 4),
        m: read_u64(p, 8),
        data_offset: read_u32(p, 16),
        reserved: (
            read_u64(p, 20),
            read_u64(p, 28),
            read_u64(p, 36),
            read_u64(p, 44),
            read_u64(p, 52),
            read_u32(p, 60),
        ),
    }
}

/// Whether a plane's payload is one it can hold.
fn payload_is_held(p: &V4l2Plane) -> (r: bool)
    ensures
        r == p.payload_fits(),
{
    let end: u32 = if p.bytesused != 0 {
        p.bytesused
    } else {
        p.length
    };
    p.bytesused <= p.length && (p.data_offset == 0 || p.data_offset < end)
}

/// Taking bytes from the middle of others keeps the fields in them.
pub proof fn fields_of_a_part(b: Seq<u8>, at: int, part: Seq<u8>)
    requires
        0 <= at,
        at + part.len() <= b.len(),
        part == b.subrange(at, at + part.len()),
    ensures
        forall|k: int| 0 <= k && k + 4 <= part.len() ==> #[trigger] le32(part, k) == le32(
            b,
            at + k,
        ),
        forall|k: int| 0 <= k && k + 8 <= part.len() ==> #[trigger] le64(part, k) == le64(
            b,
            at + k,
        ),
{
    assert forall|k: int| 0 <= k && k + 4 <= part.len() implies #[trigger] le32(part, k) == le32(
        b,
        at + k,
    ) by {
        assert(part[k] == b[at + k] && part[k + 1] == b[at + k + 1] && part[k + 2] == b[at + k
            + 2] && part[k + 3] == b[at + k + 3]);
    }
    assert forall|k: int| 0 <= k && k + 8 <= part.len() implies #[trigger] le64(part, k) == le64(
        b,
        at + k,
    ) by {
        assert(le32(part, k) == le32(b, at + k));
        assert(le32(part, k + 4) == le32(b, at + k + 4));
    }
}

/// The plane array of a buffer, with which of its slots were taken as sent.
fn read_planes(reader: &mut ChainReader, count: usize) -> (r: Option<
    (V4l2Plane, [V4l2Plane; 7], PayloadValidity),
>)
    requires
        old(reader).wf(),
        1 <= count <= 8,
    ensures
        final(reader).wf(),
        ({
            let b = old(reader).rest();
            match r {
                Some((first, more, payload)) => {
                    &&& 64 * count <= b.len()
                    &&& final(reader).rest() == b.skip(64 * count as int)
                    &&& first == cleaned(plane_of(b, 0))
                    &&& forall|i: int|
                        1 <= i < 8 ==> #[trigger] more@[i - 1] == if i < count {
                            cleaned(plane_of(b, 64 * i))
                        } else {
                            V4l2Plane::zero()
                        }
                    &&& forall|i: int|
                        0 <= i < 8 ==> (#[trigger] payload.valid(i) <==> (i < count ==> plane_of(
                            b,
                            64 * i,
                        ).payload_fits()))
                },
                None => 64 * count > b.len(),
            }
        }),
{
    let ghost b = reader.rest();
    let z: V4l2Plane = V4l2Plane::empty();
    let mut first: V4l2Plane = z;
    let mut more: [V4l2Plane; 7] = [z, z, z, z, z, z, z];
    let mut payload: PayloadValidity = PayloadValidity::all();
    let mut i: usize = 0;
    while i < count
        invariant
            reader.wf(),
            b == old(reader).rest(),
            i <= count <= 8,
            64 * i <= b.len(),
            reader.rest() == b.skip(64 * i as int),
            i > 0 ==> first == cleaned(plane_of(b, 0)),
            more@.len() == 7,
            forall|j: int|
                1 <= j < 8 ==> #[trigger] more@[j - 1] == if j < i {
                    cleaned(plane_of(b, 64 * j))
                } else {
                    V4l2Plane::zero()
                },
            forall|j: int|
                0 <= j < 8 ==> (#[trigger] payload.valid(j) <==> (j < i ==> plane_of(
                    b,
                    64 * j,
                ).payload_fits())),
        decreases count - i,
    {
        let p: &[u8] = match reader.take(PLANE_SIZE) {
            Some(p) => p,
            None => {
                return None;
            },
        };
        proof {
            assert(p@ =~= b.subrange(64 * i as int, 64 * i + 64));
            fields_of_a_part(b, 64 * i as int, p@);
            assert(reader.rest() =~= b.skip(64 * (i + 1) as int));
        }
        let mut plane: V4l2Plane = read_plane(p);
        assert(plane == plane_of(b, 64 * i as int));
        if !payload_is_held(&plane) {
            plane.bytesused = 0;
            plane.data_offset = 0;
            payload = payload.without(i);
        }
        if i == 0 {
            first = plane;
        } else {
            more[i - 1] = plane;
        }
        i = i + 1;
    }
    Some((first, more, payload))
}

/// The lengths of the planes of a buffer that was read.
fn sizes_of(buffer: &V4l2Buffer) -> (r: Vec<u32>)
    requires
        array_fits(buffer.queue, buffer.length as int),
    ensures
        r@.len() == (if buffer.queue.multiplanar() {
            buffer.length as int
        } else {
            1
        }),
        forall|i: int|
            0 <= i < r@.len() ==> #[trigger] r@[i] == if buffer.queue.multiplanar() {
                buffer.plane(i).length
            } else {
                buffer.length
            },
{
    let mut sizes: Vec<u32> = Vec::new();
    if buffer.queue.is_multiplanar() {
        let planes: Vec<V4l2Plane> = buffer.as_v4l2_planes();
        let mut i: usize = 0;
        while i < planes.len()
            invariant
                i <= planes@.len(),
                sizes@.len() == i,
                forall|j: int| 0 <= j < planes@.len() ==> #[trigger] planes@[j] == buffer.plane(j),
                forall|j: int| 0 <= j < i ==> #[trigger] sizes@[j] == buffer.plane(j).length,
            decreases planes@.len() - i,
        {
            sizes.push(planes[i].length);
            i = i + 1;
        }
    } else {
        sizes.push(buffer.length);
    }
    sizes
}

impl GuestV4l2Buffer {
    /// Reads a buffer, its plane array and the scatter lists of its planes.
    pub fn read_from_chain(reader: &mut ChainReader) -> (r: Result<GuestV4l2Buffer, InvalidData>)
        requires
            old(reader).wf(),
        ensures
            final(reader).wf(),
            match r {
                Ok(g) => buffer_readable(old(reader).rest()) && is_guest_buffer(
                    g,
                    old(reader).rest(),
                ),
                Err(_) => !buffer_readable(old(reader).rest()),
            },
    {
        let ghost b = reader.rest();
        let raw: &[u8] = match reader.take(BUFFER_SIZE) {
            Some(raw) => raw,
            None => {
                return Err(InvalidData);
            },
        };
        proof {
            assert(raw@ =~= b.subrange(0, 88));
            fields_of_a_part(b, 0, raw@);
        }
        let queue: QueueType = match queue_from(read_u32(raw, 4)) {
            Some(queue) => queue,
            None => {
                return Err(InvalidData);
            },
        };
        let memory: MemoryType = match memory_from(read_u32(raw, 60)) {
            Some(memory) => memory,
            None => {
                return Err(InvalidData);
            },
        };
        let length: u32 = read_u32(raw, 72);
        let z: V4l2Plane = V4l2Plane::empty();
        let mut plane0: V4l2Plane = z;
        let mut more: [V4l2Plane; 7] = [z, z, z, z, z, z, z];
        let mut payload: PayloadValidity = PayloadValidity::all();
        let mut bytesused: u32 = read_u32(raw, 8);
        if queue.is_multiplanar() {
            // A format has at least one plane, so an array of none is not a buffer any queue
            // could use.
            if length == 0 || length > VIDEO_MAX_PLANES {
                return Err(InvalidData);
            }
            let ghost after = reader.rest();
            assert(after == b.skip(88));
            match read_planes(reader, length as usize) {
                Some((p, m, v)) => {
                    proof {
                        assert(after =~= b.subrange(88, b.len() as int));
                        fields_of_a_part(b, 88, after);
                        assert forall|i: int| 0 <= i < length implies #[trigger] plane_of(
                            after,
                            64 * i,
                        ) == plane_of(b, 88 + 64 * i) by {}
                        assert(reader.rest() =~= b.skip(88 + 64 * length));
                    }
                    plane0 = p;
                    more = m;
                    payload = v;
                },
                None => {
                    return Err(InvalidData);
                },
            }
        } else if bytesused > length {
            bytesused = 0;
            payload = payload.without(0);
        }
        let buffer: V4l2Buffer = V4l2Buffer {
            index: read_u32(raw, 0),
            queue,
            bytesused,
            flags: read_u32(raw, 12),
            field: read_u32(raw, 16),
            timestamp: Timeval { sec: read_i64(raw, 24), usec: read_i64(raw, 32) },
            timecode: (read_u64(raw, 40), read_u64(raw, 48)),
            sequence: read_u32(raw, 56),
            memory,
            m: read_u64(raw, 64),
            length,
            reserved2: read_u32(raw, 76),
            request_fd: read_u32(raw, 80),
            plane0,
            more,
        };
        assert(is_buffer(buffer, b, queue, memory)) by {
            assert forall|i: int| 0 <= i < 8 implies #[trigger] buffer.plane(i)
                == if queue.multiplanar() && i < le32(b, 72) {
                cleaned(plane_of(b, 88 + 64 * i))
            } else {
                V4l2Plane::zero()
            } by {
                if i > 0 {
                    assert(buffer.plane(i) == more@[i - 1]);
                }
            }
        }
        let guest_regions: Vec<Vec<SgEntry>> = if memory == MemoryType::UserPtr {
            let sizes: Vec<u32> = sizes_of(&buffer);
            assert(sizes@ =~= plane_sizes(b, queue)) by {
                assert forall|i: int| 0 <= i < sizes@.len() implies #[trigger] sizes@[i]
                    == plane_sizes(b, queue)[i] by {
                    if queue.multiplanar() {
                        assert(buffer.plane(i).length == plane_of(b, 88 + 64 * i).length);
                    }
                }
            }
            match read_regions(reader, &sizes) {
                Ok(regions) => regions,
                Err(e) => {
                    return Err(e);
                },
            }
        } else {
            Vec::new()
        };
        assert forall|i: int| 0 <= i < 8 implies (#[trigger] payload.valid(i) <==> slot_fits(
            b,
            queue,
            i,
        )) by {}
        Ok(GuestV4l2Buffer { buffer, guest_regions, payload })
    }
}

/// The header of the set of controls at the start of some bytes.
pub open spec fn header_of(b: Seq<u8>) -> ExtControls {
    ExtControls {
        which: le32(b, 0) as u32,
        count: le32(b, 4) as u32,
        error_idx: le32(b, 8) as u32,
        request_fd: signed32(le32(b, 12)) as i32,
        reserved: le32(b, 16) as u32,
    }
}

/// Control `i` of the set at the start of some bytes.
pub open spec fn control_at(b: Seq<u8>, i: int) -> ExtControl {
    ExtControl {
        id: le32(b, 32 + 20 * i) as u32,
        size: le32(b, 32 + 20 * i + 4) as u32,
        reserved2: le32(b, 32 + 20 * i + 8) as u32,
        payload: le64(b, 32 + 20 * i + 12) as u64,
    }
}

/// The controls of the set at the start of some bytes.
pub open spec fn controls_of(b: Seq<u8>) -> Seq<ExtControl> {
    Seq::new(header_of(b).count as nat, |i: int| control_at(b, i))
}

/// The scatter lists behind the set of controls at the start of some bytes: one for each control
/// with a payload.
pub open spec fn control_regions(b: Seq<u8>) -> Option<Seq<Seq<SgEntry>>> {
    scatters_of(
        b.skip(32 + 20 * header_of(b).count),
        controls_of(b).map_values(|c: ExtControl| c.size),
    )
}

/// Whether the set of controls at the start of some bytes is all there.
pub open spec fn controls_readable(b: Seq<u8>) -> bool {
    &&& b.len() >= 32
    &&& b.len() >= 32 + 20 * header_of(b).count
    &&& control_regions(b) is Some
}

/// A set of controls as the guest sent it, with the scatter lists of its payloads.
pub struct GuestControls {
    pub ctrls: ExtControls,
    pub ctrl_array: Vec<ExtControl>,
    pub user_regions: Vec<Vec<SgEntry>>,
}

/// Whether a set of controls is the one at the start of some bytes.
pub open spec fn is_guest_controls(g: GuestControls, b: Seq<u8>) -> bool {
    &&& g.ctrls == header_of(b)
    &&& g.ctrl_array@ == controls_of(b)
    &&& lists_are(g.user_regions@, control_regions(b)->0)
}

impl GuestControls {
    /// Reads a set of controls and the scatter lists of their payloads.
    pub fn read_from_chain(reader: &mut ChainReader) -> (r: Result<GuestControls, InvalidData>)
        requires
            old(reader).wf(),
        ensures
            final(reader).wf(),
            match r {
                Ok(g) => controls_readable(old(reader).rest()) && is_guest_controls(
                    g,
                    old(reader).rest(),
                ),
                Err(_) => !controls_readable(old(reader).rest()),
            },
    {
        let ghost b = reader.rest();
        let raw: &[u8] = match reader.take(EXT_CONTROLS_SIZE) {
            Some(raw) => raw,
            None => {
                return Err(InvalidData);
            },
        };
        proof {
            assert(raw@ =~= b.subrange(0, 32));
            fields_of_a_part(b, 0, raw@);
        }
        let ctrls: ExtControls = ExtControls {
            which: read_u32(raw, 0),
            count: read_u32(raw, 4),
            error_idx: read_u32(raw, 8),
            request_fd: read_i32(raw, 12),
            reserved: read_u32(raw, 16),
        };
        assert(ctrls == header_of(b));
        let mut ctrl_array: Vec<ExtControl> = Vec::new();
        let mut sizes: Vec<u32> = Vec::new();
        assert(reader.rest() =~= b.skip(32));
        while ctrl_array.len() < ctrls.count as usize
            invariant
                reader.wf(),
                b == old(reader).rest(),
                ctrls == header_of(b),
                ctrl_array@.len() <= ctrls.count,
                32 + 20 * ctrl_array@.len() <= b.len(),
                reader.rest() == b.skip(32 + 20 * ctrl_array@.len() as int),
                sizes@.len() == ctrl_array@.len(),
                forall|j: int|
                    0 <= j < ctrl_array@.len() ==> #[trigger] ctrl_array@[j] == control_at(b, j),
                forall|j: int|
                    0 <= j < sizes@.len() ==> #[trigger] sizes@[j] == control_at(b, j).size,
            decreases ctrls.count - ctrl_array@.len(),
        {
            let ghost n = ctrl_array@.len() as int;
            let c: &[u8] = match reader.take(EXT_CONTROL_SIZE) {
                Some(c) => c,
                None => {
                    return Err(InvalidData);
                },
            };
            proof {
                assert(c@ =~= b.subrange(32 + 20 * n, 32 + 20 * n + 20));
                fields_of_a_part(b, 32 + 20 * n, c@);
                assert(reader.rest() =~= b.skip(32 + 20 * (n + 1)));
            }
            let ctrl: ExtControl = ExtControl {
                id: read_u32(c, 0),
                size: read_u32(c, 4),
                reserved2: read_u32(c, 8),
                payload: read_u64(c, 12),
            };
            assert(ctrl == control_at(b, n));
            sizes.push(ctrl.size);
            ctrl_array.push(ctrl);
        }
        assert(ctrl_array@ =~= controls_of(b));
        assert(sizes@ =~= controls_of(b).map_values(|c: ExtControl| c.size));
        match read_regions(reader, &sizes) {
            Ok(user_regions) => Ok(GuestControls { ctrls, ctrl_array, user_regions }),
            Err(e) => Err(e),
        }
    }
}

/// A buffer is read from where the kernel's structure has its fields, and each of its planes from
/// behind it; a payload that does not fit is taken as none, and nothing else is changed. The memory
/// that the guest sends with it is its own.
pub proof fn buffers_are_read_as_sent(g: GuestV4l2Buffer, b: Seq<u8>, i: int)
    requires
        buffer_readable(b),
        is_guest_buffer(g, b),
        le32(b, 4) == 9 || le32(b, 4) == 10,
        0 <= i < le32(b, 72),
    ensures
        g.buffer.index == le32(b, 0),
        g.buffer.queue == (if le32(b, 4) == 9 {
            QueueType::VideoCaptureMplane
        } else {
            QueueType::VideoOutputMplane
        }),
        g.buffer.flags == le32(b, 12),
        g.buffer.field == le32(b, 16),
        g.buffer.timestamp.sec == signed64(le64(b, 24)),
        g.buffer.timestamp.usec == signed64(le64(b, 32)),
        g.buffer.sequence == le32(b, 56),
        le32(b, 60) == 1 ==> g.buffer.memory == MemoryType::Mmap && g.guest_regions@.len() == 0,
        le32(b, 60) == 2 ==> g.buffer.memory == MemoryType::UserPtr,
        g.buffer.length == le32(b, 72),
        ({
            let at = 88 + 64 * i;
            let p = g.buffer.plane(i);
            let (used, length, skipped) = (le32(b, at), le32(b, at + 4), le32(b, at + 16));
            let fits = used <= length && (skipped == 0 || skipped < (if used != 0 {
                used
            } else {
                length
            }));
            &&& p.length == length
            &&& p.m == le64(b, at + 8)
            &&& fits ==> p.bytesused == used && p.data_offset == skipped
            &&& !fits ==> p.bytesused == 0 && p.data_offset == 0
            &&& g.payload.valid(i) <==> fits
        }),
{
    let at = 88 + 64 * i;
    assert(g.buffer.plane(i) == cleaned(plane_of(b, at)));
    assert(g.payload.valid(i) <==> slot_fits(b, g.buffer.queue, i));
    assert(0 <= le32(b, at) <= 0xffff_ffff && 0 <= le32(b, at + 4) <= 0xffff_ffff);
    assert(0 <= le32(b, at + 8) <= 0xffff_ffff && 0 <= le32(b, at + 12) <= 0xffff_ffff);
    assert(0 <= le32(b, at + 16) <= 0xffff_ffff);
}

/// A scatter list is read entry by entry, sixteen bytes each: where the memory is, and how much of
/// it. It has as many entries as its size takes.
pub proof fn scatter_lists_are_read_as_sent(b: Seq<u8>, size: int, i: int)
    requires
        scatter_of(b, size) is Some,
        0 <= i < (scatter_of(b, size)->0).len(),
    ensures
        (scatter_of(b, size)->0)[i].start == le64(b, 16 * i),
        (scatter_of(b, size)->0)[i].len == le32(b, 16 * i + 8),
{
    assert(0 <= le32(b, 16 * i) <= 0xffff_ffff && 0 <= le32(b, 16 * i + 4) <= 0xffff_ffff);
    assert(0 <= le32(b, 16 * i + 8) <= 0xffff_ffff);
}

/// Some entries that are not empty, no more than 4096, and that together cover what is asked for
/// are a scatter list, all of it or the beginning of it that covers as much.
pub proof fn entries_that_cover_are_a_list(b: Seq<u8>, size: int, m: int)
    requires
        0 <= m <= 4096,
        16 * m <= b.len(),
        forall|i: int| 0 <= i < m ==> le32(b, #[trigger] (16 * i) + 8) > 0,
        total(Seq::new(m as nat, |i: int| sg_of(b, i))) >= size,
    ensures
        scatter_of(b, size) is Some,
        (scatter_of(b, size)->0).len() <= m,
{
    assert(Seq::new(0, |i: int| sg_of(b, i)) =~= Seq::<SgEntry>::empty());
    covering_entries_are_found(b, size, 0, m);
}

/// Counting ends where the entries cover what is asked for.
proof fn covering_entries_are_found(b: Seq<u8>, size: int, n: int, m: int)
    requires
        0 <= n <= m <= 4096,
        16 * m <= b.len(),
        forall|i: int| 0 <= i < m ==> le32(b, #[trigger] (16 * i) + 8) > 0,
        total(Seq::new(m as nat, |i: int| sg_of(b, i))) >= size,
    ensures
        entries_from(b, size - total(Seq::new(n as nat, |i: int| sg_of(b, i))), n) matches Some(k)
            && n <= k <= m,
    decreases m - n,
{
    let s = Seq::new(n as nat, |i: int| sg_of(b, i));
    if total(s) < size {
        let t = Seq::new((n + 1) as nat, |i: int| sg_of(b, i));
        assert(t.drop_last() =~= s);
        assert(le32(b, (16 * n) + 8) > 0);
        assert(0 <= le32(b, 16 * n + 8) <= 0xffff_ffff);
        covering_entries_are_found(b, size, n + 1, m);
    }
}

/// The memory of a guest's own buffer with one plane is the scatter list behind that plane, which
/// covers the plane; its last entry is needed.
pub proof fn the_guests_memory_is_read_as_sent(g: GuestV4l2Buffer, b: Seq<u8>, i: int)
    requires
        buffer_readable(b),
        is_guest_buffer(g, b),
        le32(b, 4) == 9 || le32(b, 4) == 10,
        le32(b, 60) == 2,
        le32(b, 72) == 1,
        le32(b, 92) > 0,
    ensures
        g.guest_regions@.len() == 1,
        ({
            let list = g.guest_regions@[0]@;
            &&& total(list) >= le32(b, 92)
            &&& list.len() > 0 && total(list.drop_last()) < le32(b, 92)
            &&& 0 <= i < list.len() ==> {
                &&& list[i].start == le64(b, 152 + 16 * i)
                &&& list[i].len == le32(b, 160 + 16 * i)
                &&& list[i].len > 0
            }
        }),
{
    let queue = queue_of(le32(b, 4))->0;
    let rest = b.skip(152);
    let sizes = plane_sizes(b, queue);
    assert(0 <= le32(b, 92) <= 0xffff_ffff);
    assert(sizes[0] == le32(b, 92));
    assert(sizes.skip(1).len() == 0);
    reveal_with_fuel(scatters_of, 2);
    let size = le32(b, 92);
    let list = scatter_of(rest, size)->0;
    scatter_lists_cover_their_size(rest, size);
    assert(g.guest_regions@[0]@ == list);
    assert(rest =~= b.subrange(152, 152 + rest.len() as int));
    fields_of_a_part(b, 152, rest);
    if 0 <= i < list.len() {
        scatter_lists_are_read_as_sent(rest, size, i);
        assert(le64(rest, 16 * i) == le64(b, 152 + 16 * i));
        assert(le32(rest, 16 * i + 8) == le32(b, 160 + 16 * i));
    }
}

} // verus!
