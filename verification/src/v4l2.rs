//! The V4L2 vocabulary: queue and memory types, buffers, formats, selections, control ids and
//! event types, as plain values.
use vstd::prelude::*;

verus! {

/// Most planes a `v4l2_buffer` carries.
pub const VIDEO_MAX_PLANES: u32 = 8;

/// The direction of a queue, seen from the host application.
#[derive(Clone, Copy, Debug, PartialEq, Eq, Structural)]
pub enum QueueDirection {
    /// Buffers filled by the client and consumed by the device.
    Output,
    /// Buffers filled by the device.
    Capture,
}

/// `enum v4l2_buf_type`.
#[derive(Clone, Copy, Debug, PartialEq, Eq, Structural)]
pub enum QueueType {
    VideoCapture,
    VideoOutput,
    VideoOverlay,
    VbiCapture,
    VbiOutput,
    SlicedVbiCapture,
    SlicedVbiOutput,
    VideoOutputOverlay,
    VideoCaptureMplane,
    VideoOutputMplane,
    SdrCapture,
    SdrOutput,
    MetaCapture,
    MetaOutput,
}

impl QueueType {
    /// The number of the type in the kernel's enum.
    pub open spec fn code(self) -> u32 {
        match self {
            QueueType::VideoCapture => 1,
            QueueType::VideoOutput => 2,
            QueueType::VideoOverlay => 3,
            QueueType::VbiCapture => 4,
            QueueType::VbiOutput => 5,
            QueueType::SlicedVbiCapture => 6,
            QueueType::SlicedVbiOutput => 7,
            QueueType::VideoOutputOverlay => 8,
            QueueType::VideoCaptureMplane => 9,
            QueueType::VideoOutputMplane => 10,
            QueueType::SdrCapture => 11,
            QueueType::SdrOutput => 12,
            QueueType::MetaCapture => 13,
            QueueType::MetaOutput => 14,
        }
    }

    /// The number of the type in the kernel's enum.
    pub fn to_u32(self) -> (r: u32)
        ensures
            r == self.code(),
    {
        match self {
            QueueType::VideoCapture => 1,
            QueueType::VideoOutput => 2,
            QueueType::VideoOverlay => 3,
            QueueType::VbiCapture => 4,
            QueueType::VbiOutput => 5,
            QueueType::SlicedVbiCapture => 6,
            QueueType::SlicedVbiOutput => 7,
            QueueType::VideoOutputOverlay => 8,
            QueueType::VideoCaptureMplane => 9,
            QueueType::VideoOutputMplane => 10,
            QueueType::SdrCapture => 11,
            QueueType::SdrOutput => 12,
            QueueType::MetaCapture => 13,
            QueueType::MetaOutput => 14,
        }
    }

    /// The type a number stands for.
    pub fn n(v: u32) -> (r: Option<QueueType>)
        ensures
            r is Some <==> 1 <= v <= 14,
            r matches Some(q) ==> q.code() == v,
    {
        match v {
            1 => Some(QueueType::VideoCapture),
            2 => Some(QueueType::VideoOutput),
            3 => Some(QueueType::VideoOverlay),
            4 => Some(QueueType::VbiCapture),
            5 => Some(QueueType::VbiOutput),
            6 => Some(QueueType::SlicedVbiCapture),
            7 => Some(QueueType::SlicedVbiOutput),
            8 => Some(QueueType::VideoOutputOverlay),
            9 => Some(QueueType::VideoCaptureMplane),
            10 => Some(QueueType::VideoOutputMplane),
            11 => Some(QueueType::SdrCapture),
            12 => Some(QueueType::SdrOutput),
            13 => Some(QueueType::MetaCapture),
            14 => Some(QueueType::MetaOutput),
            _ => None,
        }
    }

    /// Whether buffers of the type carry a plane array.
    pub open spec fn multiplanar(self) -> bool {
        self == QueueType::VideoCaptureMplane || self == QueueType::VideoOutputMplane
    }

    /// Whether buffers of the type carry a plane array.
    pub fn is_multiplanar(self) -> (r: bool)
        ensures
            r == self.multiplanar(),
    {
        matches!(self, QueueType::VideoCaptureMplane | QueueType::VideoOutputMplane)
    }

    /// The direction of a multi-planar video queue, the only kind the codec devices have.
    pub open spec fn video_mplane_direction(self) -> Option<QueueDirection> {
        match self {
            QueueType::VideoOutputMplane => Some(QueueDirection::Output),
            QueueType::VideoCaptureMplane => Some(QueueDirection::Capture),
            _ => None,
        }
    }

    /// The direction of a multi-planar video queue, or `EINVAL` for any other type.
    pub fn direction_or_einval(self) -> (r: Result<QueueDirection, i32>)
        ensures
            r == (match self.video_mplane_direction() {
                Some(d) => Ok(d),
                None => Err(crate::errno::EINVAL),
            }),
    {
        match self {
            QueueType::VideoOutputMplane => Ok(QueueDirection::Output),
            QueueType::VideoCaptureMplane => Ok(QueueDirection::Capture),
            _ => Err(crate::errno::EINVAL),
        }
    }
}

/// Every queue type has a number of its own.
pub proof fn queue_codes_are_distinct(a: QueueType, b: QueueType)
    requires
        a.code() == b.code(),
    ensures
        a == b,
{
}

/// Queue types are numbered from one; the two with plane arrays are nine, to be captured from, and
/// ten, to be output to.
pub proof fn queue_types_have_their_numbers(q: QueueType)
    ensures
        1 <= q.code() <= 14,
        q == QueueType::VideoCapture <==> q.code() == 1,
        q == QueueType::VideoOutput <==> q.code() == 2,
        q == QueueType::VideoOverlay <==> q.code() == 3,
        q == QueueType::VbiCapture <==> q.code() == 4,
        q == QueueType::VbiOutput <==> q.code() == 5,
        q == QueueType::SlicedVbiCapture <==> q.code() == 6,
        q == QueueType::SlicedVbiOutput <==> q.code() == 7,
        q == QueueType::VideoOutputOverlay <==> q.code() == 8,
        q == QueueType::VideoCaptureMplane <==> q.code() == 9,
        q == QueueType::VideoOutputMplane <==> q.code() == 10,
        q == QueueType::SdrCapture <==> q.code() == 11,
        q == QueueType::SdrOutput <==> q.code() == 12,
        q == QueueType::MetaCapture <==> q.code() == 13,
        q == QueueType::MetaOutput <==> q.code() == 14,
        q.multiplanar() <==> q.code() == 9 || q.code() == 10,
        q.video_mplane_direction() == Some(QueueDirection::Capture) <==> q.code() == 9,
        q.video_mplane_direction() == Some(QueueDirection::Output) <==> q.code() == 10,
{
}

/// `enum v4l2_memory`.
#[derive(Clone, Copy, Debug, PartialEq, Eq, Structural)]
pub enum MemoryType {
    /// Host-owned buffers the guest maps.
    Mmap,
    /// Guest-owned buffers.
    UserPtr,
    Overlay,
    DmaBuf,
}

impl MemoryType {
    /// The number of the type in the kernel's enum.
    pub open spec fn code(self) -> u32 {
        match self {
            MemoryType::Mmap => 1,
            MemoryType::UserPtr => 2,
            MemoryType::Overlay => 3,
            MemoryType::DmaBuf => 4,
        }
    }

    /// The number of the type in the kernel's enum.
    pub fn to_u32(self) -> (r: u32)
        ensures
            r == self.code(),
    {
        match self {
            MemoryType::Mmap => 1,
            MemoryType::UserPtr => 2,
            MemoryType::Overlay => 3,
            MemoryType::DmaBuf => 4,
        }
    }

    /// The type a number stands for.
    pub fn n(v: u32) -> (r: Option<MemoryType>)
        ensures
            r is Some <==> 1 <= v <= 4,
            r matches Some(m) ==> m.code() == v,
    {
        match v {
            1 => Some(MemoryType::Mmap),
            2 => Some(MemoryType::UserPtr),
            3 => Some(MemoryType::Overlay),
            4 => Some(MemoryType::DmaBuf),
            _ => None,
        }
    }
}

/// Memory types are numbered from one.
pub proof fn memory_types_have_their_numbers(m: MemoryType)
    ensures
        1 <= m.code() <= 4,
        m == MemoryType::Mmap <==> m.code() == 1,
        m == MemoryType::UserPtr <==> m.code() == 2,
        m == MemoryType::Overlay <==> m.code() == 3,
        m == MemoryType::DmaBuf <==> m.code() == 4,
{
}

/// A pixel format, by its four-character code as a little-endian number.
#[derive(Clone, Copy, Debug, PartialEq, Eq, Structural)]
pub struct PixelFormat(pub u32);

/// `NV12`: a luma plane followed by interleaved Cb/Cr.
pub const FOURCC_NV12: u32 = 0x3231_564e;

/// `H264`.
pub const FOURCC_H264: u32 = 0x3436_3248;

/// `HEVC`.
pub const FOURCC_HEVC: u32 = 0x4356_4548;

/// `VP80`.
pub const FOURCC_VP80: u32 = 0x3038_5056;

/// `VP90`.
pub const FOURCC_VP90: u32 = 0x3039_5056;

/// `AV01`.
pub const FOURCC_AV01: u32 = 0x3130_5641;

impl PixelFormat {
    /// The format with the given four characters.
    pub fn from_fourcc(c: &[u8; 4]) -> (r: PixelFormat)
        ensures
            r.0 == c@[0] + 0x100 * c@[1] + 0x1_0000 * c@[2] + 0x100_0000 * c@[3],
    {
        PixelFormat(
            c[0] as u32 + 0x100 * (c[1] as u32) + 0x1_0000 * (c[2] as u32) + 0x100_0000 * (
            c[3] as u32),
        )
    }
}

/// A rectangle, `struct v4l2_rect`.
#[derive(Clone, Copy, Debug, PartialEq, Eq, Structural)]
pub struct Rect {
    pub left: i32,
    pub top: i32,
    pub width: u32,
    pub height: u32,
}

/// `struct timeval`.
#[derive(Clone, Copy, Debug, PartialEq, Eq, Structural)]
pub struct Timeval {
    pub sec: i64,
    pub usec: i64,
}

/// `V4L2_BUF_FLAG_QUEUED`.
pub const FLAG_QUEUED: u32 = 0x2;

/// `V4L2_BUF_FLAG_KEYFRAME`.
pub const FLAG_KEYFRAME: u32 = 0x8;

/// `V4L2_BUF_FLAG_PFRAME`.
pub const FLAG_PFRAME: u32 = 0x10;

/// `V4L2_BUF_FLAG_BFRAME`.
pub const FLAG_BFRAME: u32 = 0x20;

/// `V4L2_BUF_FLAG_PREPARED`.
pub const FLAG_PREPARED: u32 = 0x400;

/// `V4L2_BUF_FLAG_TIMESTAMP_COPY`.
pub const FLAG_TIMESTAMP_COPY: u32 = 0x4000;

/// `V4L2_BUF_FLAG_LAST`.
pub const FLAG_LAST: u32 = 0x10_0000;

/// Every flag a `v4l2_buffer` defines.
pub const FLAGS_KNOWN: u32 = 0x91_7d7f;

/// `V4L2_FIELD_NONE`: progressive.
pub const FIELD_NONE: u32 = 1;

/// One `struct v4l2_plane`.
#[derive(Clone, Copy, Debug, PartialEq, Eq)]
pub struct V4l2Plane {
    pub bytesused: u32,
    pub length: u32,
    /// The memory union: an `MMAP` offset, a user pointer or a descriptor.
    pub m: u64,
    pub data_offset: u32,
    pub reserved: (u64, u64, u64, u64, u64, u32),
}

impl V4l2Plane {
    /// The plane with every field zero.
    pub open spec fn zero() -> V4l2Plane {
        V4l2Plane {
            bytesused: 0,
            length: 0,
            m: 0,
            data_offset: 0,
            reserved: (0, 0, 0, 0, 0, 0),
        }
    }

    /// The plane with every field zero.
    pub fn empty() -> (r: V4l2Plane)
        ensures
            r == V4l2Plane::zero(),
    {
        V4l2Plane {
            bytesused: 0,
            length: 0,
            m: 0,
            data_offset: 0,
            reserved: (0, 0, 0, 0, 0, 0),
        }
    }

    /// Whether `bytesused` and `data_offset` describe a payload the plane can hold: no more than
    /// its length, and an offset inside the payload (inside the plane, where no payload is
    /// declared).
    pub open spec fn payload_fits(self) -> bool {
        &&& self.bytesused <= self.length
        &&& self.data_offset == 0 || self.data_offset < if self.bytesused != 0 {
            self.bytesused
        } else {
            self.length
        }
    }
}

/// A `struct v4l2_buffer` with its plane array.
///
/// On a multi-planar queue `length` is the number of entries of the plane array, and `plane0` and
/// `more` hold them; entries past `length` are zero. On any other queue the payload is described
/// by `bytesused`, `length` and `m` themselves.
#[derive(Clone, Copy, Debug, PartialEq, Eq)]
pub struct V4l2Buffer {
    pub index: u32,
    pub queue: QueueType,
    pub bytesused: u32,
    pub flags: u32,
    pub field: u32,
    pub timestamp: Timeval,
    pub timecode: (u64, u64),
    pub sequence: u32,
    pub memory: MemoryType,
    pub m: u64,
    pub length: u32,
    pub reserved2: u32,
    pub request_fd: u32,
    pub plane0: V4l2Plane,
    pub more: [V4l2Plane; 7],
}

impl V4l2Buffer {
    /// Entry `i` of the plane array.
    pub open spec fn plane(self, i: int) -> V4l2Plane {
        if i == 0 {
            self.plane0
        } else {
            self.more@[i - 1]
        }
    }

    /// How many planes the buffer describes: the plane array's length, or the one plane of a
    /// single-planar buffer.
    pub open spec fn plane_count(self) -> int {
        if self.queue.multiplanar() {
            self.length as int
        } else {
            1
        }
    }

    /// The payload of the first plane.
    pub open spec fn first_bytesused(self) -> u32 {
        if self.queue.multiplanar() {
            self.plane0.bytesused
        } else {
            self.bytesused
        }
    }

    /// The length of the first plane.
    pub open spec fn first_length(self) -> u32 {
        if self.queue.multiplanar() {
            self.plane0.length
        } else {
            self.length
        }
    }

    /// The buffer with another payload in its first plane.
    pub open spec fn with_first_bytesused(self, v: u32) -> V4l2Buffer {
        if self.queue.multiplanar() {
            V4l2Buffer { plane0: V4l2Plane { bytesused: v, ..self.plane0 }, ..self }
        } else {
            V4l2Buffer { bytesused: v, ..self }
        }
    }

    /// The buffer with another length for its first plane.
    pub open spec fn with_first_length(self, v: u32) -> V4l2Buffer {
        if self.queue.multiplanar() {
            V4l2Buffer { plane0: V4l2Plane { length: v, ..self.plane0 }, ..self }
        } else {
            V4l2Buffer { length: v, ..self }
        }
    }

    /// The buffer with another memory offset for its first plane.
    pub open spec fn with_first_offset(self, v: u32) -> V4l2Buffer {
        if self.queue.multiplanar() {
            V4l2Buffer { plane0: V4l2Plane { m: v as u64, ..self.plane0 }, ..self }
        } else {
            V4l2Buffer { m: v as u64, ..self }
        }
    }

    /// The buffer with `flags` taken away.
    pub open spec fn without_flags(self, flags: u32) -> V4l2Buffer {
        V4l2Buffer { flags: self.flags & FLAGS_KNOWN & !flags, ..self }
    }

    /// The buffer with `flags` added.
    pub open spec fn with_flags(self, flags: u32) -> V4l2Buffer {
        V4l2Buffer { flags: self.flags & FLAGS_KNOWN | flags, ..self }
    }

    /// A fresh buffer: one plane on a multi-planar queue, everything else zero.
    pub fn new(queue: QueueType, index: u32, memory: MemoryType) -> (r: V4l2Buffer)
        ensures
            r.queue == queue,
            r.index == index,
            r.memory == memory,
            r.length == (if queue.multiplanar() {
                1u32
            } else {
                0
            }),
            r.bytesused == 0,
            r.flags == 0,
            r.field == 0,
            r.timestamp == (Timeval { sec: 0, usec: 0 }),
            r.timecode == (0u64, 0u64),
            r.sequence == 0,
            r.m == 0,
            r.reserved2 == 0,
            r.request_fd == 0,
            forall|i: int| 0 <= i < 8 ==> #[trigger] r.plane(i) == V4l2Plane::zero(),
    {
        let z: V4l2Plane = V4l2Plane::empty();
        V4l2Buffer {
            index,
            queue,
            bytesused: 0,
            flags: 0,
            field: 0,
            timestamp: Timeval { sec: 0, usec: 0 },
            timecode: (0, 0),
            sequence: 0,
            memory,
            m: 0,
            length: if queue.is_multiplanar() {
                1
            } else {
                0
            },
            reserved2: 0,
            request_fd: 0,
            plane0: z,
            more: [z, z, z, z, z, z, z],
        }
    }

    /// How many planes the buffer describes.
    pub fn num_planes(&self) -> (r: usize)
        ensures
            r == self.plane_count(),
    {
        if self.queue.is_multiplanar() {
            self.length as usize
        } else {
            1
        }
    }

    /// The entries of the plane array, none on a single-planar queue.
    pub fn as_v4l2_planes(&self) -> (r: Vec<V4l2Plane>)
        requires
            self.queue.multiplanar() ==> self.length <= VIDEO_MAX_PLANES,
        ensures
            r@.len() == (if self.queue.multiplanar() {
                self.length as int
            } else {
                0
            }),
            forall|i: int| 0 <= i < r@.len() ==> #[trigger] r@[i] == self.plane(i),
    {
        let mut out: Vec<V4l2Plane> = Vec::new();
        if self.queue.is_multiplanar() {
            let mut i: usize = 0;
            while i < self.length as usize
                invariant
                    i <= self.length <= VIDEO_MAX_PLANES,
                    out@.len() == i,
                    forall|j: int| 0 <= j < i ==> #[trigger] out@[j] == self.plane(j),
                decreases self.length - i,
            {
                out.push(
                    if i == 0 {
                        self.plane0
                    } else {
                        self.more[i - 1]
                    },
                );
                i = i + 1;
            }
        }
        out
    }

    /// The length of the first plane.
    pub fn first_plane_length(&self) -> (r: u32)
        ensures
            r == self.first_length(),
    {
        if self.queue.is_multiplanar() {
            self.plane0.length
        } else {
            self.length
        }
    }

    /// The payload of the first plane.
    pub fn first_plane_bytesused(&self) -> (r: u32)
        ensures
            r == self.first_bytesused(),
    {
        if self.queue.is_multiplanar() {
            self.plane0.bytesused
        } else {
            self.bytesused
        }
    }

    /// Sets the payload of the first plane.
    pub fn set_first_bytesused(&mut self, v: u32)
        ensures
            *final(self) == old(self).with_first_bytesused(v),
    {
        if self.queue.is_multiplanar() {
            self.plane0.bytesused = v;
        } else {
            self.bytesused = v;
        }
    }

    /// Sets the length of the first plane.
    pub fn set_first_length(&mut self, v: u32)
        ensures
            *final(self) == old(self).with_first_length(v),
    {
        if self.queue.is_multiplanar() {
            self.plane0.length = v;
        } else {
            self.length = v;
        }
    }

    /// Sets the memory offset of the first plane.
    pub fn set_first_offset(&mut self, v: u32)
        ensures
            *final(self) == old(self).with_first_offset(v),
    {
        if self.queue.is_multiplanar() {
            self.plane0.m = v as u64;
        } else {
            self.m = v as u64;
        }
    }

    /// Takes `flags` away.
    pub fn clear_flags(&mut self, flags: u32)
        ensures
            *final(self) == old(self).without_flags(flags),
    {
        self.flags = self.flags & FLAGS_KNOWN & !flags;
    }

    /// Adds `flags`.
    pub fn add_flags(&mut self, flags: u32)
        ensures
            *final(self) == old(self).with_flags(flags),
    {
        self.flags = self.flags & FLAGS_KNOWN | flags;
    }
}

} // verus!
