//! The encoder as its clients see it: a codec that turns each raw NV12 frame into one synthetic
//! packet whose bytes carry the frame's luma digest, with keyframes on group-of-pictures boundaries
//! and on request and stream headers as the header mode says. A raw frame is released only once its
//! packet is written, as a real encoder does, which is what makes the reset path observable. The
//! tests replay, ioctl by ioctl, the sequences two guest userland clients issue, the controls,
//! drains, the ordering of freeing and stopping, and what compliance tools probe.
use std::cell::RefCell;
use std::collections::BTreeMap;
use std::collections::VecDeque;
use std::rc::Rc;

use virtio_media::bytes::ChainReader;
use virtio_media::device::VirtioMediaDeviceSession;
use virtio_media::devices::video_encoder::backend::{
    EncoderConfig, EncoderEvent, FrameKind, FrameRate, InputBuffer, OutputBuffer,
    VideoEncoderBackend, VideoEncoderBackendSession,
};
use virtio_media::devices::video_encoder::capabilities::{
    CodedFormat, EncoderCapabilities, VideoBitrateMode, VideoHeaderMode,
};
use virtio_media::devices::video_encoder::codec::V4L2_EVENT_EOS;
use virtio_media::devices::video_encoder::controls::{
    V4L2_CID_CODEC_CLASS, V4L2_CID_MIN_BUFFERS_FOR_OUTPUT, V4L2_CID_MPEG_VIDEO_BITRATE,
    V4L2_CID_MPEG_VIDEO_BITRATE_MODE, V4L2_CID_MPEG_VIDEO_FORCE_KEY_FRAME,
    V4L2_CID_MPEG_VIDEO_GOP_SIZE, V4L2_CID_MPEG_VIDEO_H264_LEVEL, V4L2_CID_MPEG_VIDEO_H264_MAX_QP,
    V4L2_CID_MPEG_VIDEO_H264_MIN_QP, V4L2_CID_MPEG_VIDEO_H264_PROFILE,
    V4L2_CID_MPEG_VIDEO_HEADER_MODE, V4L2_CID_MPEG_VIDEO_HEVC_LEVEL,
    V4L2_CID_MPEG_VIDEO_HEVC_MAX_QP, V4L2_CID_MPEG_VIDEO_HEVC_MIN_QP,
    V4L2_CID_MPEG_VIDEO_HEVC_PROFILE, V4L2_CID_MPEG_VIDEO_PREPEND_SPSPPS_TO_IDR,
    V4L2_CID_MPEG_VIDEO_VP8_PROFILE, V4L2_CID_USER_CLASS, V4L2_CTRL_FLAG_EXECUTE_ON_WRITE,
    V4L2_CTRL_FLAG_READ_ONLY, V4L2_CTRL_FLAG_WRITE_ONLY, V4L2_CTRL_TYPE_BOOLEAN,
    V4L2_CTRL_TYPE_BUTTON, V4L2_CTRL_TYPE_CTRL_CLASS, V4L2_CTRL_TYPE_INTEGER, V4L2_CTRL_TYPE_MENU,
};
use virtio_media::devices::video_encoder::device::VideoEncoder;
use virtio_media::devices::video_encoder::format_ioctls::FMT_FLAG_COMPRESSED;
use virtio_media::devices::video_encoder::queue::Backing;
use virtio_media::devices::video_encoder::ranges::{
    nv12_sizeimage, ControlRange, FrameRateRange, QpRange, SizeRange, DEFAULT_BITSTREAM_FLOOR,
};
use virtio_media::devices::video_encoder::session::{Drain, VideoEncoderSession};
use virtio_media::devices::video_encoder::stream_ioctls::{ENC_CMD_START, ENC_CMD_STOP};
use virtio_media::formats::{
    FormatBody, PixFormatMplane, SelectionTarget, SelectionType, StreamParm, V4l2Format,
    CAP_TIMEPERFRAME,
};
use virtio_media::host::{
    GuestMappingError, GuestMemoryRange, HostBuffer, VirtioMediaBufferAllocator,
    VirtioMediaEventQueue, VirtioMediaGuestMemoryMapper, VirtioMediaHostMemoryMapper,
};
use virtio_media::ioctl::codes::V4l2Ioctl;
use virtio_media::ioctl::handler::{virtio_media_dispatch_ioctl, VirtioMediaIoctlHandler};
use virtio_media::ioctl::types::{
    parse_ctrl_id_and_flags, CtrlWhich, EncoderCmd, EventSubscription, EventType, ExtControl,
    ExtControls, QueryExtCtrl, QueryMenu, SelectionFlags, SubscribeEventFlags, EVENT_CTRL,
    FRMIVAL_TYPE_CONTINUOUS, FRMSIZE_TYPE_STEPWISE,
};
use virtio_media::memfd::{memfd_size, MemFdAllocator, MemFdFailure};
use virtio_media::payload::PayloadValidity;
use virtio_media::protocol::{SgEntry, V4l2Event};
use virtio_media::runner::{SessionPoller, VirtioMediaDeviceRunner};
use virtio_media::v4l2::{
    MemoryType, PixelFormat, QueueType, Rect, Timeval, V4l2Buffer, FLAG_BFRAME, FLAG_KEYFRAME,
    FLAG_LAST, FLAG_PFRAME, FLAG_PREPARED, FLAG_QUEUED, FLAG_TIMESTAMP_COPY, FOURCC_H264,
    FOURCC_HEVC, FOURCC_NV12, FOURCC_VP80,
};

const OUTPUT: QueueType = QueueType::VideoOutputMplane;
const CAPTURE: QueueType = QueueType::VideoCaptureMplane;
const H264: PixelFormat = PixelFormat(FOURCC_H264);
const HEVC: PixelFormat = PixelFormat(FOURCC_HEVC);
const VP80: PixelFormat = PixelFormat(FOURCC_VP80);
const NV12: PixelFormat = PixelFormat(FOURCC_NV12);

const CID_GOP: u32 = V4L2_CID_MPEG_VIDEO_GOP_SIZE;
const CID_BITRATE: u32 = V4L2_CID_MPEG_VIDEO_BITRATE;
const CID_BITRATE_MODE: u32 = V4L2_CID_MPEG_VIDEO_BITRATE_MODE;
const CID_HEADER_MODE: u32 = V4L2_CID_MPEG_VIDEO_HEADER_MODE;
const CID_FORCE_KEY: u32 = V4L2_CID_MPEG_VIDEO_FORCE_KEY_FRAME;
const CID_PREPEND: u32 = V4L2_CID_MPEG_VIDEO_PREPEND_SPSPPS_TO_IDR;
const CID_H264_PROFILE: u32 = V4L2_CID_MPEG_VIDEO_H264_PROFILE;
const CID_H264_LEVEL: u32 = V4L2_CID_MPEG_VIDEO_H264_LEVEL;
const CID_H264_MIN_QP: u32 = V4L2_CID_MPEG_VIDEO_H264_MIN_QP;
const CID_H264_MAX_QP: u32 = V4L2_CID_MPEG_VIDEO_H264_MAX_QP;
const CID_HEVC_PROFILE: u32 = V4L2_CID_MPEG_VIDEO_HEVC_PROFILE;
const CID_HEVC_LEVEL: u32 = V4L2_CID_MPEG_VIDEO_HEVC_LEVEL;
const CID_HEVC_MIN_QP: u32 = V4L2_CID_MPEG_VIDEO_HEVC_MIN_QP;
const CID_HEVC_MAX_QP: u32 = V4L2_CID_MPEG_VIDEO_HEVC_MAX_QP;
const CID_VP8_PROFILE: u32 = V4L2_CID_MPEG_VIDEO_VP8_PROFILE;
const CID_MIN_OUT: u32 = V4L2_CID_MIN_BUFFERS_FOR_OUTPUT;
const CID_MIN_CAP: u32 = 0x98_0927;
const CID_B_FRAMES: u32 = 0x99_09ca;
const CID_FRAME_RC: u32 = 0x99_09d7;
const CODEC_CLASS: u32 = 0x99_0000;
const USER_CLASS: u32 = 0x98_0000;

const NEXT_CTRL: u32 = 0x8000_0000;
const NEXT_COMPOUND: u32 = 0x4000_0000;
const ENC_CMD_PAUSE: u32 = 2;
const ENC_CMD_RESUME: u32 = 3;
const SMPTE170M: u32 = 1;
const SUPPORTS_USERPTR: u32 = 2;

const H264_BASELINE: i32 = 0;
const H264_MAIN: i32 = 2;
const H264_HIGH: i32 = 4;
const H264_L3_0: i32 = 8;
const H264_L4_0: i32 = 11;
const H264_L4_1: i32 = 12;
const H264_L5_1: i32 = 15;
const HEVC_MAIN: i32 = 0;
const HEVC_L4_1: i32 = 6;

// ---------------------------------------------------------------------------------------------
// What a VMM provides: an event queue, guest memory, a host mapper and an allocator. An address
// is a number; the memory behind it is found in a register of what is mapped.
// ---------------------------------------------------------------------------------------------

type Bytes = Rc<RefCell<Vec<u8>>>;
type Register = Rc<RefCell<BTreeMap<usize, Bytes>>>;

const GUEST_BASE: usize = 1 << 40;

/// The memory at an address, and where in it the address is.
fn at(register: &Register, addr: usize) -> (Bytes, usize) {
    let register = register.borrow();
    let (base, bytes) = register.range(..=addr).next_back().expect("unmapped address");
    (Rc::clone(bytes), addr - base)
}

#[derive(Default)]
struct EventLog(Rc<RefCell<Vec<V4l2Event>>>);

impl VirtioMediaEventQueue for EventLog {
    fn send_event(&mut self, event: V4l2Event) {
        self.0.borrow_mut().push(event);
    }
}

#[derive(Clone)]
struct FakeGuest {
    memory: Bytes,
    live_mappings: Rc<RefCell<usize>>,
    writable: Rc<RefCell<Vec<bool>>>,
}

struct FakeMapping {
    guest: FakeGuest,
    start: usize,
    len: usize,
}

impl GuestMemoryRange for FakeMapping {
    fn as_ptr(&self) -> usize {
        GUEST_BASE + self.start
    }

    fn as_mut_ptr(&mut self) -> usize {
        GUEST_BASE + self.start
    }

    fn len(&self) -> usize {
        self.len
    }
}

impl Drop for FakeMapping {
    fn drop(&mut self) {
        *self.guest.live_mappings.borrow_mut() -= 1;
    }
}

impl VirtioMediaGuestMemoryMapper for FakeGuest {
    type GuestMemoryMapping = FakeMapping;

    fn new_mapping(&self, sgs: Vec<SgEntry>) -> Result<FakeMapping, Option<GuestMappingError>> {
        let start = sgs.first().map(|sg| sg.start).unwrap_or(0) as usize;
        if start >= GUEST_BASE {
            return Err(Some(GuestMappingError(libc::EFAULT)));
        }
        let total: usize = sgs.iter().map(|sg| sg.len as usize).sum();
        if total == 0 || start + total > self.memory.borrow().len() {
            return Err(None);
        }
        *self.live_mappings.borrow_mut() += 1;
        Ok(FakeMapping {
            guest: self.clone(),
            start,
            len: total,
        })
    }

    fn new_mapping_for(
        &self,
        sgs: Vec<SgEntry>,
        writable: bool,
    ) -> Result<FakeMapping, Option<GuestMappingError>> {
        self.writable.borrow_mut().push(writable);
        self.new_mapping(sgs)
    }
}

struct FakeHostMapper;

impl VirtioMediaHostMemoryMapper for FakeHostMapper {
    type Handle = Bytes;

    fn add_mapping(
        &mut self,
        buffer: &HostBuffer<Bytes>,
        offset: u64,
        _rw: bool,
    ) -> Result<u64, i32> {
        Ok(buffer.pool_offset.unwrap_or(0x8000_0000 + offset))
    }

    fn remove_mapping(&mut self, _shm_offset: u64) -> Result<(), i32> {
        Ok(())
    }
}

/// Counts what the device gives back, and whether it happened while the backend was still open.
struct OrderedAllocator {
    inner: MemFdAllocator,
    register: Register,
    next: usize,
    log: SharedLog,
    /// Bytes left to hand out.
    room: u64,
}

impl VirtioMediaBufferAllocator for OrderedAllocator {
    type Handle = Bytes;

    fn allocate(&mut self, len: u64) -> Result<HostBuffer<Bytes>, i32> {
        if len > self.room {
            return Err(libc::ENOMEM);
        }
        self.room -= len;
        let made = memfd_size(len).map_err(MemFdFailure::Create).map(|len| {
            let bytes: Bytes = Rc::new(RefCell::new(vec![0u8; len as usize]));
            let ptr = self.next;
            self.next += (len as usize + 0xfff) & !0xfff;
            self.register.borrow_mut().insert(ptr, Rc::clone(&bytes));
            HostBuffer::from_raw_parts(bytes, 0, len, ptr, None)
        });
        self.inner.hand_out(made)
    }

    fn release(&mut self, buf: HostBuffer<Bytes>) {
        // A buffer must not go back to the allocator while the backend might still be touching
        // the queue's buffers. `capture_active` is true only between a CAPTURE buffer being lent
        // and the backend being joined, so a non-zero count here is a real violation.
        if self.log.borrow().capture_active {
            self.log.borrow_mut().released_while_capture_active += 1;
        }
        self.room += buf.len;
        let buf = self.inner.take_back(buf);
        self.register.borrow_mut().remove(&buf.ptr);
    }
}

// ---------------------------------------------------------------------------------------------
// The codec.
// ---------------------------------------------------------------------------------------------

/// The synthetic bitstream: start codes, then a byte that says what the unit is. Headers are two
/// units; a frame unit carries its number and its luma digest.
const START_CODE: [u8; 4] = [0, 0, 0, 1];
const NAL_SPS: u8 = 0x67;
const NAL_PPS: u8 = 0x68;
const NAL_KEY: u8 = 0x65;
const NAL_INTER: u8 = 0x41;
const HEADERS_LEN: usize = 16;
const FRAME_LEN: usize = 10;

fn headers_bytes() -> Vec<u8> {
    let mut v = Vec::new();
    v.extend_from_slice(&START_CODE);
    v.extend_from_slice(&[NAL_SPS, b'S', b'P', b'S']);
    v.extend_from_slice(&START_CODE);
    v.extend_from_slice(&[NAL_PPS, b'P', b'P', b'S']);
    assert_eq!(v.len(), HEADERS_LEN);
    v
}

fn frame_bytes(key: bool, frame_no: u8, digest: u32) -> Vec<u8> {
    let mut v = Vec::new();
    v.extend_from_slice(&START_CODE);
    v.push(if key { NAL_KEY } else { NAL_INTER });
    v.push(frame_no);
    v.extend_from_slice(&digest.to_le_bytes());
    assert_eq!(v.len(), FRAME_LEN);
    v
}

/// A unit of the synthetic bitstream, parsed back.
#[derive(Debug, Clone, Copy, PartialEq, Eq)]
enum Unit {
    Sps,
    Pps,
    Frame {
        key: bool,
        frame_no: u8,
        digest: u32,
    },
}

fn parse_units(bytes: &[u8]) -> Vec<Unit> {
    let mut units = Vec::new();
    let mut i = 0;
    while i + 5 <= bytes.len() {
        assert_eq!(&bytes[i..i + 4], &START_CODE, "start code at {i}");
        match bytes[i + 4] {
            NAL_SPS => {
                units.push(Unit::Sps);
                i += 8;
            }
            NAL_PPS => {
                units.push(Unit::Pps);
                i += 8;
            }
            nal @ (NAL_KEY | NAL_INTER) => {
                let digest = u32::from_le_bytes(bytes[i + 6..i + 10].try_into().unwrap());
                units.push(Unit::Frame {
                    key: nal == NAL_KEY,
                    frame_no: bytes[i + 5],
                    digest,
                });
                i += FRAME_LEN;
            }
            other => panic!("unknown NAL {other:#x} at {i}"),
        }
    }
    assert_eq!(i, bytes.len(), "trailing bytes");
    units
}

/// The luma digest of a frame whose luma plane is all `luma`: the sum of its bytes.
fn digest_of(luma: u8, (w, h): (u32, u32)) -> u32 {
    luma as u32 * w * h
}

/// What the fake encoder did, for the assertions.
#[derive(Default)]
struct FakeLog {
    /// `start` calls, with the config each was given.
    started: Vec<EncoderConfig>,
    /// Whether a codec exists and is not stopped.
    open: bool,
    /// Whether a CAPTURE buffer is currently lent to the backend: from `use_as_capture` until
    /// `stop`.
    capture_active: bool,
    /// `flush` calls.
    flushes: usize,
    /// `stop` calls that stopped a codec.
    stops: usize,
    /// `set_bitrate` calls.
    bitrates: Vec<u32>,
    /// `force_keyframe` calls.
    forced: usize,
    /// Buffers released while `capture_active`, which must not happen.
    released_while_capture_active: usize,
    /// Raw frames a `flush` dropped without a word: the ones the codec had not written out, and
    /// the ones parked behind a drain.
    dropped_by_flush: usize,
    /// The next `flush`, `drain`, `encode`, `use_as_capture` or `set_bitrate` fails with this
    /// errno, once.
    fail_flush: Option<i32>,
    fail_drain: Option<i32>,
    fail_encode: Option<i32>,
    fail_capture: Option<i32>,
    fail_bitrate: Option<i32>,
    /// Sessions opened and closed.
    opened: Vec<u32>,
    closed: usize,
}

type SharedLog = Rc<RefCell<FakeLog>>;

struct FakeBackend {
    caps: EncoderCapabilities,
    register: Register,
    log: SharedLog,
    /// `start` fails with this errno.
    fail_start: Option<i32>,
    /// Making a sink, or a session, fails with this errno.
    fail_sink: Option<i32>,
    fail_open: Option<i32>,
}

/// A packet the codec has produced and is waiting to write into a CAPTURE buffer.
struct Packet {
    bytes: Vec<u8>,
    kind: FrameKind,
    timestamp: Timeval,
    /// The OUTPUT buffer it came from, released when the packet is written.
    input: Option<u32>,
}

/// The codec: one per `start`, gone after `stop`.
#[derive(Default)]
struct Codec {
    config: Option<EncoderConfig>,
    frame_no: u8,
    force_key: bool,
    headers_due: bool,
    ready: VecDeque<Packet>,
    captures: VecDeque<OutputBuffer>,
    draining: bool,
    /// From the end of a drain on, a codec takes no input until it is flushed: frames lent in the
    /// meantime are encoded by nobody, and go with the flush.
    stopped: bool,
    parked: Vec<u32>,
}

struct FakeSession {
    register: Register,
    log: SharedLog,
    fail_start: Option<i32>,
    codec: Option<Codec>,
    events: VecDeque<EncoderEvent>,
}

impl FakeSession {
    fn codec(&mut self) -> Result<&mut Codec, i32> {
        self.codec.as_mut().ok_or(libc::EIO)
    }

    /// Writes packets into capture buffers while both are there; when draining, the last packet
    /// (or an empty buffer) carries LAST.
    fn pump(&mut self) {
        let Some(codec) = self.codec.as_mut() else {
            return;
        };
        while let Some(&capture) = codec.captures.front() {
            if let Some(packet) = codec.ready.pop_front() {
                assert!(
                    capture.len >= packet.bytes.len(),
                    "capture buffer too small"
                );
                let (bytes, start) = at(&self.register, capture.ptr.as_ptr());
                bytes.borrow_mut()[start..start + packet.bytes.len()]
                    .copy_from_slice(&packet.bytes);
                codec.captures.pop_front();
                if let Some(input) = packet.input {
                    self.events.push_back(EncoderEvent::InputBufferDone(input));
                }
                let is_last = codec.draining && codec.ready.is_empty();
                if is_last {
                    codec.draining = false;
                    codec.stopped = true;
                }
                self.events.push_back(EncoderEvent::FrameEncoded {
                    index: capture.index,
                    bytesused: packet.bytes.len() as u32,
                    timestamp: packet.timestamp,
                    kind: packet.kind,
                    is_last,
                });
            } else if codec.draining {
                codec.captures.pop_front();
                codec.draining = false;
                codec.stopped = true;
                self.events.push_back(EncoderEvent::FrameEncoded {
                    index: capture.index,
                    bytesused: 0,
                    timestamp: Timeval { sec: 0, usec: 0 },
                    kind: FrameKind::Key,
                    is_last: true,
                });
                break;
            } else {
                break;
            }
        }
    }
}

impl VideoEncoderBackend for FakeBackend {
    type Session = FakeSession;
    type Sink = ();

    fn capabilities(&self) -> &EncoderCapabilities {
        &self.caps
    }

    fn new_sink(&mut self) -> Result<((), i32), i32> {
        match self.fail_sink {
            Some(errno) => Err(errno),
            None => Ok(((), 77)),
        }
    }

    fn new_session(&mut self, id: u32, _sink: ()) -> Result<FakeSession, i32> {
        if let Some(errno) = self.fail_open {
            return Err(errno);
        }
        self.log.borrow_mut().opened.push(id);
        Ok(FakeSession {
            register: Rc::clone(&self.register),
            log: Rc::clone(&self.log),
            fail_start: self.fail_start,
            codec: None,
            events: VecDeque::new(),
        })
    }

    fn close_session(&mut self, mut session: FakeSession) {
        session.stop();
        self.log.borrow_mut().closed += 1;
    }
}

impl VideoEncoderBackendSession for FakeSession {
    fn start(&mut self, config: &EncoderConfig) -> Result<(), i32> {
        if let Some(errno) = self.fail_start {
            return Err(errno);
        }
        self.log.borrow_mut().started.push(*config);
        self.log.borrow_mut().open = true;
        self.codec = Some(Codec {
            config: Some(*config),
            headers_due: true,
            ..Default::default()
        });
        Ok(())
    }

    fn encode(&mut self, buffer: InputBuffer) -> Result<(), i32> {
        if let Some(errno) = self.log.borrow_mut().fail_encode.take() {
            return Err(errno);
        }
        let register = Rc::clone(&self.register);
        let codec = self.codec()?;
        if codec.draining || codec.stopped {
            codec.parked.push(buffer.index);
            return Ok(());
        }
        let c = codec.config.unwrap();
        let (w, h) = c.coded_size;
        let luma_len = (w * h) as usize;
        assert!(
            buffer.len >= luma_len * 3 / 2,
            "raw buffer too small for a frame"
        );
        let (bytes, start) = at(&register, buffer.ptr.as_ptr());
        let digest = bytes.borrow()[start..start + luma_len]
            .iter()
            .map(|b| *b as u32)
            .sum::<u32>();
        let key =
            codec.force_key || c.gop_size == 0 || codec.frame_no as u32 % c.gop_size == 0;
        codec.force_key = false;
        let mut bytes = Vec::new();
        let kind = if key {
            FrameKind::Key
        } else {
            FrameKind::Inter
        };
        if codec.headers_due {
            codec.headers_due = false;
            match c.header_mode {
                VideoHeaderMode::Separate => codec.ready.push_back(Packet {
                    bytes: headers_bytes(),
                    kind: FrameKind::Headers,
                    timestamp: buffer.timestamp,
                    input: None,
                }),
                VideoHeaderMode::JoinedWith1stFrame => {
                    bytes.extend(headers_bytes());
                }
            }
        } else if key && c.prepend_sps_pps_to_idr {
            bytes.extend(headers_bytes());
        }
        bytes.extend(frame_bytes(key, codec.frame_no, digest));
        codec.frame_no = codec.frame_no.wrapping_add(1);
        codec.ready.push_back(Packet {
            bytes,
            kind,
            timestamp: buffer.timestamp,
            input: Some(buffer.index),
        });
        self.pump();
        Ok(())
    }

    fn use_as_capture(&mut self, buffer: OutputBuffer) -> Result<(), i32> {
        if let Some(errno) = self.log.borrow_mut().fail_capture.take() {
            return Err(errno);
        }
        self.log.borrow_mut().capture_active = true;
        self.codec()?.captures.push_back(buffer);
        self.pump();
        Ok(())
    }

    fn set_bitrate(&mut self, bitrate: u32) -> Result<(), i32> {
        if let Some(errno) = self.log.borrow_mut().fail_bitrate.take() {
            return Err(errno);
        }
        self.log.borrow_mut().bitrates.push(bitrate);
        Ok(())
    }

    fn force_keyframe(&mut self) -> Result<(), i32> {
        self.log.borrow_mut().forced += 1;
        self.codec()?.force_key = true;
        Ok(())
    }

    fn flush(&mut self) -> Result<(), i32> {
        self.log.borrow_mut().flushes += 1;
        if let Some(errno) = self.log.borrow_mut().fail_flush.take() {
            return Err(errno);
        }
        // Drop what is not written yet and what was parked, and say nothing about either: the
        // device returns or re-queues the raw frames itself, because a report delivered after the
        // device has unqueued a buffer could land on one the guest has queued again.
        if let Some(codec) = self.codec.as_mut() {
            let dropped =
                codec.ready.iter().filter(|p| p.input.is_some()).count() + codec.parked.len();
            self.log.borrow_mut().dropped_by_flush += dropped;
            codec.ready.clear();
            codec.parked.clear();
            codec.draining = false;
            codec.stopped = false;
        }
        Ok(())
    }

    fn drain(&mut self) -> Result<(), i32> {
        if let Some(errno) = self.log.borrow_mut().fail_drain.take() {
            return Err(errno);
        }
        self.codec()?.draining = true;
        self.pump();
        Ok(())
    }

    fn stop(&mut self) {
        if self.codec.take().is_some() {
            let mut log = self.log.borrow_mut();
            log.open = false;
            log.stops += 1;
            log.capture_active = false;
        }
    }

    fn take_events(&mut self) -> Vec<EncoderEvent> {
        self.events.drain(..).collect()
    }
}

/// A session dropped without `stop` still stops its codec.
impl Drop for FakeSession {
    fn drop(&mut self) {
        self.stop();
    }
}

// ---------------------------------------------------------------------------------------------
// The rig
// ---------------------------------------------------------------------------------------------

type Device = VideoEncoder<FakeBackend, EventLog, FakeGuest, FakeHostMapper, OrderedAllocator>;
type Session = VideoEncoderSession<FakeMapping, Bytes, FakeSession>;

struct Rig {
    device: Device,
    events: Rc<RefCell<Vec<V4l2Event>>>,
    guest: FakeGuest,
    log: SharedLog,
}

const GUEST_MEMORY: usize = 8 << 20;
const SIZE: (u32, u32) = (320, 240);
const RAW_SIZEIMAGE: u32 = 320 * 240 * 3 / 2;

/// Three codecs with deliberately different ranges, so the union rules show.
fn caps() -> EncoderCapabilities {
    EncoderCapabilities {
        coded_formats: vec![
            CodedFormat {
                fourcc: H264,
                width: SizeRange::new(16, 4096, 2),
                height: SizeRange::new(16, 4096, 2),
                frame_rate: FrameRateRange { min: 1, max: 120 },
                bitrate: ControlRange::new(64_000, 100_000_000, 2_000_000),
                gop_size: ControlRange::new(0, 300, 30),
                bitrate_modes: vec![
                    VideoBitrateMode::VariableBitrate,
                    VideoBitrateMode::ConstantBitrate,
                ],
                profiles: vec![H264_HIGH, H264_BASELINE, H264_MAIN],
                levels: vec![H264_L4_1, H264_L3_0, H264_L4_0, H264_L5_1],
                qp: Some(QpRange { min: 0, max: 51 }),
            },
            CodedFormat {
                fourcc: HEVC,
                width: SizeRange::new(64, 8192, 8),
                height: SizeRange::new(64, 8192, 8),
                frame_rate: FrameRateRange { min: 1, max: 60 },
                bitrate: ControlRange::new(100_000, 200_000_000, 4_000_000),
                gop_size: ControlRange::new(1, 600, 60),
                bitrate_modes: vec![
                    VideoBitrateMode::VariableBitrate,
                    VideoBitrateMode::ConstantBitrate,
                    VideoBitrateMode::ConstantQuality,
                ],
                profiles: vec![HEVC_MAIN],
                levels: vec![HEVC_L4_1],
                qp: Some(QpRange { min: 0, max: 51 }),
            },
            CodedFormat {
                fourcc: VP80,
                width: SizeRange::new(16, 4096, 2),
                height: SizeRange::new(16, 4096, 2),
                frame_rate: FrameRateRange { min: 1, max: 60 },
                bitrate: ControlRange::new(32_000, 50_000_000, 1_000_000),
                gop_size: ControlRange::new(0, 128, 30),
                bitrate_modes: vec![VideoBitrateMode::VariableBitrate],
                profiles: vec![0],
                levels: vec![],
                qp: None,
            },
        ],
        min_output_buffers: 4,
    }
}

fn rig_of(caps: EncoderCapabilities, fail: (Option<i32>, Option<i32>, Option<i32>)) -> Rig {
    let events = EventLog::default();
    let events_log = Rc::clone(&events.0);
    let guest = FakeGuest {
        memory: Rc::new(RefCell::new(vec![0u8; GUEST_MEMORY])),
        live_mappings: Rc::new(RefCell::new(0)),
        writable: Rc::new(RefCell::new(Vec::new())),
    };
    let register: Register = Default::default();
    register
        .borrow_mut()
        .insert(GUEST_BASE, Rc::clone(&guest.memory));
    let log: SharedLog = Default::default();
    let backend = FakeBackend {
        caps,
        register: Rc::clone(&register),
        log: Rc::clone(&log),
        fail_start: fail.0,
        fail_sink: fail.1,
        fail_open: fail.2,
    };
    let device = VideoEncoder::new(
        backend,
        events,
        guest.clone(),
        FakeHostMapper,
        OrderedAllocator {
            inner: MemFdAllocator::new(),
            register,
            next: 0x1000,
            log: Rc::clone(&log),
            room: 1 << 32,
        },
    );
    Rig {
        device,
        events: events_log,
        guest,
        log,
    }
}

fn rig_with(fail_start: Option<i32>) -> Rig {
    rig_of(caps(), (fail_start, None, None))
}

fn rig() -> Rig {
    rig_with(None)
}

fn session(device: &mut Device) -> Session {
    device.new_session(0).ok().unwrap()
}

fn new_session(device: &mut Device, id: u32) -> Session {
    device.new_session(id).ok().unwrap()
}

fn close(device: &mut Device, session: Session) {
    device.close_session(session)
}

fn process(device: &mut Device, session: &mut Session) {
    device.process_events(session).unwrap()
}

/// Whether the codec has something to report.
fn wait_ready(session: &Session) -> bool {
    !session.backend.session.events.is_empty()
}

fn dequeued(events: &[V4l2Event]) -> Vec<V4l2Buffer> {
    events
        .iter()
        .filter_map(|e| match e {
            V4l2Event::DequeueBuffer { buffer, .. } => Some(*buffer),
            _ => None,
        })
        .collect()
}

fn dequeued_on(events: &[V4l2Event], queue: QueueType) -> Vec<V4l2Buffer> {
    dequeued(events)
        .into_iter()
        .filter(|b| b.queue == queue)
        .collect()
}

fn eos_events(events: &[V4l2Event]) -> usize {
    events
        .iter()
        .filter(|e| match e {
            V4l2Event::Event { event, .. } => event.type_ == V4L2_EVENT_EOS,
            _ => false,
        })
        .count()
}

fn ctrl_events(events: &[V4l2Event]) -> Vec<(u32, i32)> {
    events
        .iter()
        .filter_map(|e| match e {
            V4l2Event::Event { event, .. } if event.type_ == EVENT_CTRL => {
                Some((event.id, event.ctrl.unwrap().value))
            }
            _ => None,
        })
        .collect()
}

fn errors(events: &[V4l2Event]) -> usize {
    events
        .iter()
        .filter(|e| matches!(e, V4l2Event::Error { .. }))
        .count()
}

/// Drive `process_events` until `n` CAPTURE buffers have been collected.
fn collect_capture(r: &mut Rig, s: &mut Session, n: usize) {
    while dequeued_on(&r.events.borrow(), CAPTURE).len() < n {
        assert!(wait_ready(s), "no CAPTURE buffer");
        process(&mut r.device, s);
    }
}

/// Drive `process_events` until `n` OUTPUT buffers have come back.
fn collect_output(r: &mut Rig, s: &mut Session, n: usize) {
    while dequeued_on(&r.events.borrow(), OUTPUT).len() < n {
        assert!(wait_ready(s), "no OUTPUT buffer");
        process(&mut r.device, s);
    }
}

// buffer builders -----------------------------------------------------------------------------

/// Flags of a buffer.
trait Flags {
    fn has(&self, flags: u32) -> bool;
    fn has_any(&self, flags: u32) -> bool;
}

impl Flags for V4l2Buffer {
    fn has(&self, flags: u32) -> bool {
        self.flags & flags == flags
    }

    fn has_any(&self, flags: u32) -> bool {
        self.flags & flags != 0
    }
}

fn no_flags() -> SubscribeEventFlags {
    SubscribeEventFlags::from_bits(0).unwrap()
}

fn send_initial() -> SubscribeEventFlags {
    SubscribeEventFlags::from_bits(1).unwrap()
}

fn mmap_buffer(queue: QueueType, index: u32, len: u32) -> V4l2Buffer {
    let mut buffer = V4l2Buffer::new(queue, index, MemoryType::Mmap);
    buffer.set_first_length(len);
    buffer.set_first_bytesused(if queue == OUTPUT { len } else { 0 });
    buffer
}

fn userptr_buffer(
    queue: QueueType,
    index: u32,
    gpa: u64,
    len: u32,
    bytesused: u32,
) -> (V4l2Buffer, Vec<Vec<SgEntry>>) {
    let mut buffer = V4l2Buffer::new(queue, index, MemoryType::UserPtr);
    buffer.plane0.m = 0xc000_0000 + gpa;
    buffer.set_first_length(len);
    buffer.set_first_bytesused(bytesused);
    (buffer, vec![vec![SgEntry::new(gpa, len)]])
}

/// Fill the OUTPUT MMAP buffer `index` with a frame whose luma is `luma` (chroma 0x80).
fn fill_mmap_output(s: &mut Session, index: usize, luma: u8) {
    let (w, h) = s.coded_size;
    if let Backing::Host { buffer, .. } = &mut s.input.buffers[index].backing {
        let luma_len = (w * h) as usize;
        let mut bytes = buffer.handle.borrow_mut();
        bytes[..luma_len].fill(luma);
        bytes[luma_len..luma_len + luma_len / 2].fill(0x80);
    } else {
        panic!("not a host-owned OUTPUT buffer");
    }
}

/// The first `len` bytes of the CAPTURE MMAP buffer `index`, after it was dequeued.
fn capture_bytes(s: &Session, index: usize, len: usize) -> Vec<u8> {
    if let Backing::Host { buffer, .. } = &s.output.buffers[index].backing {
        buffer.handle.borrow()[..len].to_vec()
    } else {
        panic!("not a host-owned CAPTURE buffer");
    }
}

/// Queue a frame with luma `luma` and timestamp `n` on OUTPUT buffer `index` (MMAP).
fn queue_frame(r: &mut Rig, s: &mut Session, index: u32, luma: u8, n: i64) {
    fill_mmap_output(s, index as usize, luma);
    let mut ob = mmap_buffer(OUTPUT, index, RAW_SIZEIMAGE);
    ob.timestamp = ts(n);
    r.device.qbuf(s, ob, vec![], PayloadValidity::all()).unwrap();
}

/// A timestamp that carries `n` so a CAPTURE buffer can be matched to the OUTPUT buffer it came
/// from.
fn ts(n: i64) -> Timeval {
    Timeval { sec: n, usec: 0 }
}

/// The fields of a multi-planar format the tests look at.
#[derive(Debug, PartialEq, Eq)]
struct Pix {
    width: u32,
    height: u32,
    pixelformat: u32,
    num_planes: u8,
    bytesperline: u32,
    sizeimage: u32,
    colorspace: u32,
}

fn pix_mp(format: &V4l2Format) -> PixFormatMplane {
    match format.fmt {
        FormatBody::PixMp(p) => p,
        FormatBody::Raw(_) => panic!("not a multi-planar format"),
    }
}

fn pix(format: &V4l2Format) -> Pix {
    let mp = pix_mp(format);
    Pix {
        width: mp.width,
        height: mp.height,
        pixelformat: mp.pixelformat,
        num_planes: mp.num_planes,
        bytesperline: mp.plane0.bytesperline,
        sizeimage: mp.plane0.sizeimage,
        colorspace: mp.colorspace,
    }
}

fn output_format(fourcc: PixelFormat, w: u32, h: u32) -> V4l2Format {
    let mut p = PixFormatMplane::empty();
    p.width = w;
    p.height = h;
    p.pixelformat = fourcc.0;
    p.num_planes = 1;
    V4l2Format::mplane(OUTPUT, p)
}

fn capture_format(fourcc: PixelFormat, sizeimage: u32) -> V4l2Format {
    capture_format_sized(fourcc, 1, sizeimage)
}

fn capture_format_sized(fourcc: PixelFormat, num_planes: u8, sizeimage: u32) -> V4l2Format {
    let mut p = PixFormatMplane::empty();
    p.pixelformat = fourcc.0;
    p.num_planes = num_planes;
    p.plane0.sizeimage = sizeimage;
    V4l2Format::mplane(CAPTURE, p)
}

fn parm(queue: QueueType, numerator: u32, denominator: u32) -> StreamParm {
    StreamParm {
        type_: queue.to_u32(),
        capability: 0,
        mode: 0,
        numerator,
        denominator,
        extendedmode: 0,
        buffers: 0,
    }
}

/// `(numerator, denominator, capability)` of an OUTPUT streamparm.
fn timeperframe(p: &StreamParm) -> (u32, u32, u32) {
    (p.numerator, p.denominator, p.capability)
}

fn enc_cmd(cmd: u32) -> EncoderCmd {
    EncoderCmd {
        cmd,
        flags: 0,
        data: (0, 0, 0, 0),
    }
}

// control builders ----------------------------------------------------------------------------

fn ext_controls(class: u32, count: usize) -> ExtControls {
    ExtControls {
        which: class,
        count: count as u32,
        error_idx: 0,
        request_fd: 0,
        reserved: 0,
    }
}

fn ext_control(id: u32, value: i32) -> ExtControl {
    ExtControl::new(id, value)
}

fn ext_value(c: &ExtControl) -> i32 {
    c.value()
}

/// `S_EXT_CTRLS` of one control of the codec class: the errno, or the value the control now holds.
fn s_ext(r: &mut Rig, s: &mut Session, id: u32, value: i32) -> Result<i32, i32> {
    let mut ctrls = ext_controls(CODEC_CLASS, 1);
    let mut arr = vec![ext_control(id, value)];
    r.device
        .s_ext_ctrls(
            s,
            CtrlWhich::Class(CODEC_CLASS),
            &mut ctrls,
            &mut arr,
            vec![],
        )
        .map(|()| ext_value(&arr[0]))
}

fn g_ext(r: &mut Rig, s: &Session, id: u32) -> Result<i32, i32> {
    let mut ctrls = ext_controls(CODEC_CLASS, 1);
    let mut arr = vec![ext_control(id, 0)];
    r.device
        .g_ext_ctrls(
            s,
            CtrlWhich::Class(CODEC_CLASS),
            &mut ctrls,
            &mut arr,
            vec![],
        )
        .map(|()| ext_value(&arr[0]))
}

fn query(r: &mut Rig, s: &Session, id: u32) -> Result<QueryExtCtrl, i32> {
    let (id, flags) = parse_ctrl_id_and_flags(id);
    r.device.query_ext_ctrl(s, id, flags)
}

fn text(name: &[u8]) -> String {
    let bytes: Vec<u8> = name.iter().take_while(|c| **c != 0).copied().collect();
    String::from_utf8(bytes).unwrap()
}

fn query_name(q: &QueryExtCtrl) -> String {
    text(&q.name)
}

fn menu_name(m: &QueryMenu) -> String {
    text(&m.name)
}

/// Walk `QUERY_EXT_CTRL` with the next-control flag, and return the ids.
fn enumerate_controls(r: &mut Rig, s: &Session) -> Vec<u32> {
    let mut out = Vec::new();
    let mut id = 0;
    loop {
        match query(r, s, id | NEXT_CTRL) {
            Ok(q) => {
                assert!(q.id > id, "id did not increase");
                id = q.id;
                out.push(id);
            }
            Err(e) => {
                assert_eq!(e, libc::EINVAL);
                break;
            }
        }
    }
    out
}

/// Take a session from OPEN to both queues streaming at 320x240 H.264, MMAP buffers (four on
/// each queue, the CAPTURE ones queued), and return the CAPTURE `sizeimage`.
fn start_streaming(r: &mut Rig, s: &mut Session) -> u32 {
    r.device.s_fmt(s, CAPTURE, capture_format(H264, 0)).unwrap();
    r.device
        .s_fmt(s, OUTPUT, output_format(NV12, SIZE.0, SIZE.1))
        .unwrap();
    r.device
        .subscribe_event(s, EventType::Eos, no_flags())
        .unwrap();
    r.device.reqbufs(s, OUTPUT, MemoryType::Mmap, 4).unwrap();
    let sizeimage = pix(&r.device.g_fmt(s, CAPTURE).unwrap()).sizeimage;
    r.device.reqbufs(s, CAPTURE, MemoryType::Mmap, 4).unwrap();
    for i in 0..4 {
        r.device
            .qbuf(
                s,
                mmap_buffer(CAPTURE, i, sizeimage),
                vec![],
                PayloadValidity::all(),
            )
            .unwrap();
    }
    r.device.streamon(s, OUTPUT).unwrap();
    r.device.streamon(s, CAPTURE).unwrap();
    assert_eq!(
        r.log.borrow().started.len(),
        1,
        "codec created once both stream"
    );
    sizeimage
}

// wire builders -------------------------------------------------------------------------------

/// The dirty stack a client leaves in the planes behind the first, as `(bytesused, length,
/// data_offset)`. The second triple happens to be self-consistent.
const DIRTY_TAIL: [(u32, u32, u32); 7] = [
    (1, 3425573041, 119),
    (119, 3750202224, 1),
    (3019899000, 912, 3133457408),
    (2626962592, 44344, 4294967295),
    (3019899000, 912, 3133457408),
    (2626962592, 44344, 4294967295),
    (3019899000, 912, 3133457408),
];

fn plane_bytes(bytesused: u32, length: u32, data_offset: u32) -> Vec<u8> {
    let mut out = vec![0u8; 64];
    out[0..4].copy_from_slice(&bytesused.to_le_bytes());
    out[4..8].copy_from_slice(&length.to_le_bytes());
    out[16..20].copy_from_slice(&data_offset.to_le_bytes());
    out
}

/// One `QBUF` on the wire with a plane array of eight entries of which only the first was filled.
fn ffmpeg_qbuf_bytes(
    queue: QueueType,
    memory: MemoryType,
    index: u32,
    plane0: (u32, u32),
) -> Vec<u8> {
    let mut out = vec![0u8; 88];
    out[0..4].copy_from_slice(&index.to_le_bytes());
    out[4..8].copy_from_slice(&queue.to_u32().to_le_bytes());
    out[60..64].copy_from_slice(&memory.to_u32().to_le_bytes());
    out[72..76].copy_from_slice(&8u32.to_le_bytes());
    out.extend(plane_bytes(plane0.0, plane0.1, 0));
    for (bytesused, length, data_offset) in DIRTY_TAIL {
        out.extend(plane_bytes(bytesused, length, data_offset));
    }
    out
}

/// Runs one `QBUF` of those bytes through the reader into `handler`, and returns the errno the
/// guest would see (0 on success).
fn dispatch_qbuf<H: VirtioMediaIoctlHandler>(
    handler: &mut H,
    session: &mut H::Session,
    bytes: &[u8],
) -> i32 {
    let mut out = Vec::new();
    let mut reader = ChainReader::new(bytes);
    virtio_media_dispatch_ioctl(
        handler,
        session,
        V4l2Ioctl::VIDIOC_QBUF,
        &mut reader,
        &mut out,
    );
    i32::from_le_bytes(out[0..4].try_into().unwrap())
}

// ---------------------------------------------------------------------------------------------
// Tests
// ---------------------------------------------------------------------------------------------

/// What an encoder advertises: the backend's coded formats on CAPTURE, NV12 on OUTPUT, stepwise
/// frame sizes, frame intervals, the default formats and selection rectangles.
#[test]
fn video_encoder_tests_formats_are_the_backends_coded_formats_and_nv12() {
    let mut r = rig();
    let s = session(&mut r.device);

    // CAPTURE: the backend's three coded formats, compressed, in its order.
    let cap: Vec<(u32, u32)> = (0..)
        .map_while(|i| r.device.enum_fmt(&s, CAPTURE, i).ok())
        .map(|d| (d.pixelformat, d.flags))
        .collect();
    assert_eq!(
        cap,
        vec![
            (H264.0, FMT_FLAG_COMPRESSED),
            (HEVC.0, FMT_FLAG_COMPRESSED),
            (VP80.0, FMT_FLAG_COMPRESSED),
        ]
    );
    assert!(r
        .device
        .enum_fmt(&s, CAPTURE, 0)
        .unwrap()
        .description
        .starts_with(b"H.264\0"));
    // OUTPUT: NV12 only.
    let out = r.device.enum_fmt(&s, OUTPUT, 0).unwrap();
    assert_eq!((out.pixelformat, out.flags), (NV12.0, 0));
    assert!(out.description.starts_with(b"Y/UV 4:2:0\0"));
    assert_eq!(r.device.enum_fmt(&s, OUTPUT, 1).err(), Some(libc::EINVAL));

    // Stepwise frame sizes: a coded format's own; NV12 follows the current CAPTURE format.
    let fs = r.device.enum_framesizes(&s, 0, HEVC.0).unwrap();
    assert_eq!(
        fs.type_,
        FRMSIZE_TYPE_STEPWISE
    );
    let sw = fs;
    assert_eq!((sw.min_width, sw.max_width, sw.step_width), (64, 8192, 8));
    let fs = r.device.enum_framesizes(&s, 0, NV12.0).unwrap();
    let sw = fs;
    assert_eq!(
        (sw.min_width, sw.max_width, sw.step_width),
        (16, 4096, 2),
        "H264's, the default"
    );
    assert_eq!(
        r.device.enum_framesizes(&s, 1, H264.0).err(),
        Some(libc::EINVAL)
    );
    assert_eq!(
        r.device.enum_framesizes(&s, 0, 0x1234_5678).err(),
        Some(libc::EINVAL)
    );

    // Frame intervals: one continuous range 1/120 .. 1/1 at an accepted size; EINVAL off the
    // grid.
    let fi = r
        .device
        .enum_frameintervals(&s, 0, H264.0, 16, 16)
        .unwrap();
    assert_eq!(
        fi.type_,
        FRMIVAL_TYPE_CONTINUOUS
    );
    let sw = fi;
    assert_eq!((sw.min.numerator, sw.min.denominator), (1, 120));
    assert_eq!((sw.max.numerator, sw.max.denominator), (1, 1));
    assert_eq!((sw.step.numerator, sw.step.denominator), (1, 1));
    assert!(r
        .device
        .enum_frameintervals(&s, 0, H264.0, 4096, 4096)
        .is_ok());
    assert!(r
        .device
        .enum_frameintervals(&s, 0, NV12.0, 320, 240)
        .is_ok());
    assert_eq!(
        r.device
            .enum_frameintervals(&s, 1, H264.0, 16, 16)
            .err(),
        Some(libc::EINVAL)
    );
    assert_eq!(
        r.device
            .enum_frameintervals(&s, 0, H264.0, 15, 16)
            .err(),
        Some(libc::EINVAL)
    );
    assert_eq!(
        r.device
            .enum_frameintervals(&s, 0, H264.0, 4096, 4097)
            .err(),
        Some(libc::EINVAL)
    );
    assert_eq!(
        r.device
            .enum_frameintervals(&s, 0, H264.0, 17, 16)
            .err(),
        Some(libc::EINVAL)
    );

    // An encoder has a frame rate: G_PARM(OUTPUT) answers with TIMEPERFRAME and the default
    // 1/30; the CAPTURE side is ENOTTY for both G and S.
    assert_eq!(
        timeperframe(&r.device.g_parm(&s, OUTPUT).unwrap()),
        (1, 30, CAP_TIMEPERFRAME)
    );
    assert_eq!(r.device.g_parm(&s, CAPTURE).err(), Some(libc::ENOTTY));

    // Default formats: NV12 640x480 tightly packed on OUTPUT, H264 at the same size on CAPTURE
    // with the device's bitstream buffer size.
    let ofmt = pix(&r.device.g_fmt(&s, OUTPUT).unwrap());
    assert_eq!(ofmt.pixelformat, NV12.0);
    assert_eq!((ofmt.width, ofmt.height, ofmt.num_planes), (640, 480, 1));
    assert_eq!(ofmt.bytesperline, 640);
    assert_eq!(ofmt.sizeimage, 640 * 480 * 3 / 2);
    let cfmt = pix(&r.device.g_fmt(&s, CAPTURE).unwrap());
    assert_eq!(cfmt.pixelformat, H264.0);
    assert_eq!((cfmt.width, cfmt.height, cfmt.bytesperline), (640, 480, 0));
    assert_eq!(cfmt.sizeimage, DEFAULT_BITSTREAM_FLOOR);

    // The OUTPUT crop is the whole frame; CAPTURE selection and composition are refused
    //.
    let crop = r
        .device
        .g_selection(&s, SelectionType::Output, SelectionTarget::Crop)
        .unwrap();
    assert_eq!(
        (crop.left, crop.top, crop.width, crop.height),
        (0, 0, 640, 480)
    );
    for target in [SelectionTarget::CropBounds, SelectionTarget::CropDefault] {
        let b = r
            .device
            .g_selection(&s, SelectionType::Output, target)
            .unwrap();
        assert_eq!((b.width, b.height), (640, 480));
    }
    assert_eq!(
        r.device
            .g_selection(&s, SelectionType::Capture, SelectionTarget::Crop)
            .err(),
        Some(libc::EINVAL)
    );
    assert_eq!(
        r.device
            .g_selection(&s, SelectionType::Output, SelectionTarget::Compose)
            .err(),
        Some(libc::EINVAL)
    );

    close(&mut r.device, s);
}

/// `S_FMT(CAPTURE)` selects the codec and sizes the bitstream buffers, `S_FMT(OUTPUT)` the raw
/// size: aligned up, the crop reset, the colorimetry propagated; and buffers hold the formats.
#[test]
fn s_fmt_capture_selects_the_codec_and_output_the_raw_size() {
    let mut r = rig();
    let mut s = session(&mut r.device);

    // An unknown coded fourcc snaps to the first format; width/height are read-only.
    let tried = pix(&r
        .device
        .try_fmt(
            &s,
            CAPTURE,
            capture_format(PixelFormat::from_fourcc(b"XXXX"), 0),
        )
        .unwrap());
    assert_eq!(tried.pixelformat, H264.0);
    assert_eq!((tried.width, tried.height), (640, 480));

    // HEVC with a client-sized bitstream buffer; the raw size is refitted to HEVC's step of 8.
    let set = pix(&r
        .device
        .s_fmt(&mut s, CAPTURE, capture_format(HEVC, 1 << 20))
        .unwrap());
    assert_eq!(set.pixelformat, HEVC.0);
    assert_eq!(set.sizeimage, 1 << 20);
    assert_eq!((set.width, set.height), (640, 480));
    // A bitstream size below the floor is replaced by the device's default.
    let set = pix(&r
        .device
        .s_fmt(&mut s, CAPTURE, capture_format(H264, 100))
        .unwrap());
    assert_eq!(set.sizeimage, DEFAULT_BITSTREAM_FLOOR);

    // The raw size: an odd request is aligned up, the crop follows, CAPTURE reports it.
    let mut fmt = output_format(NV12, 635, 475);
    if let FormatBody::PixMp(p) = &mut fmt.fmt {
        p.colorspace = SMPTE170M;
    }
    let set = pix(&r.device.s_fmt(&mut s, OUTPUT, fmt).unwrap());
    assert_eq!((set.width, set.height), (636, 476));
    assert_eq!(set.bytesperline, 636);
    assert_eq!(set.sizeimage, 636 * 476 * 3 / 2);
    assert_eq!(
        set.colorspace,
        SMPTE170M
    );
    let cfmt = pix(&r.device.g_fmt(&s, CAPTURE).unwrap());
    assert_eq!((cfmt.width, cfmt.height), (636, 476));
    assert_eq!(
        cfmt.colorspace,
        SMPTE170M,
        "propagated"
    );
    let crop = r
        .device
        .g_selection(&s, SelectionType::Output, SelectionTarget::Crop)
        .unwrap();
    assert_eq!(
        (crop.left, crop.top, crop.width, crop.height),
        (0, 0, 636, 476)
    );
    // A YU12 request snaps to NV12: the pixel format is not negotiable.
    let set = pix(&r
        .device
        .s_fmt(
            &mut s,
            OUTPUT,
            output_format(PixelFormat::from_fourcc(b"YU12"), 320, 240),
        )
        .unwrap());
    assert_eq!(set.pixelformat, NV12.0);
    assert_eq!((set.width, set.height), (320, 240));

    // A smaller crop is honoured; bounds/default stay the frame; read-only targets and the
    // CAPTURE side are refused by S_SELECTION.
    let rect = Rect {
        left: 0,
        top: 0,
        width: 316,
        height: 236,
    };
    let got = r
        .device
        .s_selection(
            &mut s,
            SelectionType::Output,
            SelectionTarget::Crop,
            rect,
            SelectionFlags(0),
        )
        .unwrap();
    assert_eq!((got.width, got.height), (316, 236));
    let got = r
        .device
        .g_selection(&s, SelectionType::Output, SelectionTarget::Crop)
        .unwrap();
    assert_eq!((got.width, got.height), (316, 236));
    let b = r
        .device
        .g_selection(&s, SelectionType::Output, SelectionTarget::CropBounds)
        .unwrap();
    assert_eq!((b.width, b.height), (320, 240));
    for target in [
        SelectionTarget::CropBounds,
        SelectionTarget::CropDefault,
        SelectionTarget::Compose,
    ] {
        assert_eq!(
            r.device
                .s_selection(
                    &mut s,
                    SelectionType::Output,
                    target,
                    rect,
                    SelectionFlags(0)
                )
                .err(),
            Some(libc::EINVAL)
        );
    }
    assert_eq!(
        r.device
            .s_selection(
                &mut s,
                SelectionType::Capture,
                SelectionTarget::Crop,
                rect,
                SelectionFlags(0)
            )
            .err(),
        Some(libc::EINVAL)
    );
    // An oversized crop is held inside the frame.
    let rect = Rect {
        left: 10,
        top: 10,
        width: 1000,
        height: 1000,
    };
    let got = r
        .device
        .s_selection(
            &mut s,
            SelectionType::Output,
            SelectionTarget::Crop,
            rect,
            SelectionFlags(0),
        )
        .unwrap();
    assert_eq!(
        (got.left, got.top, got.width, got.height),
        (10, 10, 310, 230)
    );

    // Commit points: CAPTURE buffers block S_FMT(CAPTURE) but not S_FMT(OUTPUT); OUTPUT buffers
    // block both; TRY_FMT always answers.
    r.device
        .reqbufs(&mut s, CAPTURE, MemoryType::Mmap, 2)
        .unwrap();
    assert_eq!(
        r.device
            .s_fmt(&mut s, CAPTURE, capture_format(HEVC, 0))
            .err(),
        Some(libc::EBUSY)
    );
    assert!(r
        .device
        .s_fmt(&mut s, OUTPUT, output_format(NV12, 320, 240))
        .is_ok());
    r.device
        .reqbufs(&mut s, OUTPUT, MemoryType::Mmap, 2)
        .unwrap();
    assert_eq!(
        r.device
            .s_fmt(&mut s, OUTPUT, output_format(NV12, 640, 480))
            .err(),
        Some(libc::EBUSY)
    );
    assert!(r
        .device
        .try_fmt(&s, OUTPUT, output_format(NV12, 640, 480))
        .is_ok());
    assert!(r
        .device
        .try_fmt(&s, CAPTURE, capture_format(HEVC, 0))
        .is_ok());

    close(&mut r.device, s);
}

/// A fraction the format sustains is kept as given, one outside the range snaps to the nearest end,
/// `0/x` and `x/0` mean the default; the rate reaches the backend.
#[test]
fn s_parm_output_sets_the_frame_rate() {
    let mut r = rig();
    let mut s = session(&mut r.device);

    let p = r.device.s_parm(&mut s, parm(OUTPUT, 1001, 30000)).unwrap();
    assert_eq!(
        timeperframe(&p),
        (1001, 30000, CAP_TIMEPERFRAME)
    );
    assert_eq!(
        timeperframe(&r.device.g_parm(&s, OUTPUT).unwrap()),
        (1001, 30000, CAP_TIMEPERFRAME)
    );
    // 240 fps is above H264's 120.
    assert_eq!(
        timeperframe(&r.device.s_parm(&mut s, parm(OUTPUT, 1, 240)).unwrap()).1,
        120
    );
    // 0/1 and 1/0: the default.
    assert_eq!(
        timeperframe(&r.device.s_parm(&mut s, parm(OUTPUT, 0, 1)).unwrap()),
        (1, 30, CAP_TIMEPERFRAME)
    );
    assert_eq!(
        timeperframe(&r.device.s_parm(&mut s, parm(OUTPUT, 1, 0)).unwrap()),
        (1, 30, CAP_TIMEPERFRAME)
    );
    assert_eq!(
        r.device.s_parm(&mut s, parm(CAPTURE, 1, 30)).err(),
        Some(libc::ENOTTY)
    );

    // The rate set last is what the codec is created with.
    r.device.s_parm(&mut s, parm(OUTPUT, 1, 60)).unwrap();
    start_streaming(&mut r, &mut s);
    let config = r.log.borrow().started[0].clone();
    assert_eq!(config.frame_rate, FrameRate { num: 60, den: 1 });
    assert_eq!(config.coded_format, H264);
    assert_eq!(config.coded_size, SIZE);

    close(&mut r.device, s);
}

/// Class controls first in each class, ids increasing, ranges the union of the formats', menus the
/// formats' items with holes, names and flags the kernel's, `QUERYMENU` only on menus.
#[test]
fn controls_are_enumerated_from_the_capabilities() {
    let mut r = rig();
    let s = session(&mut r.device);

    let ids = enumerate_controls(&mut r, &s);
    assert_eq!(
        ids,
        vec![
            V4L2_CID_USER_CLASS,
            CID_MIN_OUT,
            V4L2_CID_CODEC_CLASS,
            CID_GOP,
            CID_BITRATE_MODE,
            CID_BITRATE,
            CID_HEADER_MODE,
            CID_FORCE_KEY,
            CID_H264_MIN_QP,
            CID_H264_MAX_QP,
            CID_H264_LEVEL,
            CID_H264_PROFILE,
            CID_VP8_PROFILE,
            CID_HEVC_MIN_QP,
            CID_HEVC_MAX_QP,
            CID_HEVC_PROFILE,
            CID_HEVC_LEVEL,
            CID_PREPEND,
        ]
    );
    // Every id also answers a direct query, with the same fields as the walk gave.
    for id in &ids {
        assert_eq!(query(&mut r, &s, *id).unwrap().id, *id);
    }
    // Nothing is a compound control; an unknown id is EINVAL; so is MIN_BUFFERS_FOR_CAPTURE,
    // which an encoder must not have.
    assert_eq!(
        query(&mut r, &s, NEXT_COMPOUND).err(),
        Some(libc::EINVAL)
    );
    assert_eq!(
        query(&mut r, &s, 0x0098_0001 + 0x100).err(),
        Some(libc::EINVAL)
    );
    assert_eq!(query(&mut r, &s, CID_MIN_CAP).err(), Some(libc::EINVAL));
    assert_eq!(query(&mut r, &s, CID_B_FRAMES).err(), Some(libc::EINVAL));

    // The class controls: read- and write-only, zero bounds.
    let class = query(&mut r, &s, V4L2_CID_CODEC_CLASS).unwrap();
    assert_eq!(
        class.type_,
        V4L2_CTRL_TYPE_CTRL_CLASS
    );
    assert_eq!(
        class.flags,
        V4L2_CTRL_FLAG_READ_ONLY | V4L2_CTRL_FLAG_WRITE_ONLY
    );
    assert_eq!(query_name(&class), "Codec Controls");
    assert_eq!(
        (
            class.minimum,
            class.maximum,
            class.step,
            class.default_value
        ),
        (0, 0, 0, 0)
    );

    // BITRATE: the union of the three ranges, the first format's default.
    let q = query(&mut r, &s, CID_BITRATE).unwrap();
    assert_eq!(q.type_, V4L2_CTRL_TYPE_INTEGER);
    assert_eq!(
        (q.minimum, q.maximum, q.step, q.default_value),
        (32_000, 200_000_000, 1, 2_000_000)
    );
    assert_eq!(query_name(&q), "Video Bitrate");
    assert_eq!((q.elem_size, q.elems, q.nr_of_dims), (4, 1, 0));
    let q = query(&mut r, &s, CID_GOP).unwrap();
    assert_eq!((q.minimum, q.maximum, q.default_value), (0, 600, 30));

    // BITRATE_MODE: VBR, CBR and CQ between them, VBR default; every item named.
    let q = query(&mut r, &s, CID_BITRATE_MODE).unwrap();
    assert_eq!(q.type_, V4L2_CTRL_TYPE_MENU);
    assert_eq!(
        (q.minimum, q.maximum, q.step, q.default_value),
        (0, 2, 1, 0)
    );
    let names: Vec<String> = (0..=2)
        .map(|i| menu_name(&r.device.querymenu(&s, CID_BITRATE_MODE, i).unwrap()))
        .collect();
    assert_eq!(
        names,
        vec!["Variable Bitrate", "Constant Bitrate", "Constant Quality"]
    );
    assert_eq!(
        r.device.querymenu(&s, CID_BITRATE_MODE, 3).err(),
        Some(libc::EINVAL)
    );

    // H264_PROFILE: Baseline(0)..High(4) with holes at 1 and 3, default High (the backend's
    // first); QUERYMENU names the kernel's strings and refuses the holes.
    let q = query(&mut r, &s, CID_H264_PROFILE).unwrap();
    assert_eq!(
        (q.minimum, q.maximum, q.default_value),
        (0, 4, H264_HIGH as i64)
    );
    assert_eq!(
        menu_name(&r.device.querymenu(&s, CID_H264_PROFILE, 4).unwrap()),
        "High"
    );
    assert_eq!(
        menu_name(&r.device.querymenu(&s, CID_H264_PROFILE, 0).unwrap()),
        "Baseline"
    );
    assert_eq!(
        r.device.querymenu(&s, CID_H264_PROFILE, 1).err(),
        Some(libc::EINVAL)
    );
    assert_eq!(
        r.device.querymenu(&s, CID_H264_PROFILE, 3).err(),
        Some(libc::EINVAL)
    );
    assert_eq!(
        r.device.querymenu(&s, CID_H264_PROFILE, 5).err(),
        Some(libc::EINVAL)
    );
    let q = query(&mut r, &s, CID_H264_LEVEL).unwrap();
    assert_eq!(
        (q.minimum, q.maximum, q.default_value),
        (
            H264_L3_0 as i64,
            H264_L5_1 as i64,
            H264_L4_1 as i64
        )
    );
    assert_eq!(
        menu_name(
            &r.device
                .querymenu(&s, CID_H264_LEVEL, H264_L4_1 as u32)
                .unwrap()
        ),
        "4.1"
    );
    let q = query(&mut r, &s, CID_HEVC_PROFILE).unwrap();
    assert_eq!((q.minimum, q.maximum), (0, 0));
    assert_eq!(query_name(&q), "HEVC Profile");
    assert_eq!(
        menu_name(
            &r.device
                .querymenu(&s, CID_HEVC_LEVEL, HEVC_L4_1 as u32)
                .unwrap()
        ),
        "4.1"
    );
    assert_eq!(
        menu_name(&r.device.querymenu(&s, CID_VP8_PROFILE, 0).unwrap()),
        "0"
    );

    // QP: the codec's range, MIN starting at the bottom and MAX at the top.
    let q = query(&mut r, &s, CID_H264_MIN_QP).unwrap();
    assert_eq!((q.minimum, q.maximum, q.default_value), (0, 51, 0));
    let q = query(&mut r, &s, CID_HEVC_MAX_QP).unwrap();
    assert_eq!((q.minimum, q.maximum, q.default_value), (0, 51, 51));
    assert_eq!(query_name(&q), "HEVC Maximum QP Value");

    // The button: write-only, executes on write, zero bounds, no menu.
    let q = query(&mut r, &s, CID_FORCE_KEY).unwrap();
    assert_eq!(q.type_, V4L2_CTRL_TYPE_BUTTON);
    assert_eq!(
        q.flags,
        V4L2_CTRL_FLAG_WRITE_ONLY | V4L2_CTRL_FLAG_EXECUTE_ON_WRITE
    );
    assert_eq!(
        r.device.querymenu(&s, CID_FORCE_KEY, 0).err(),
        Some(libc::EINVAL)
    );
    // HEADER_MODE defaults to joined; PREPEND is a boolean off.
    let q = query(&mut r, &s, CID_HEADER_MODE).unwrap();
    assert_eq!(
        (q.minimum, q.maximum, q.default_value),
        (0, 1, VideoHeaderMode::JoinedWith1stFrame as i64)
    );
    let q = query(&mut r, &s, CID_PREPEND).unwrap();
    assert_eq!(
        (q.type_, q.minimum, q.maximum, q.default_value),
        (V4L2_CTRL_TYPE_BOOLEAN, 0, 1, 0)
    );
    // MIN_BUFFERS_FOR_OUTPUT: read-only, the backend's number.
    let q = query(&mut r, &s, CID_MIN_OUT).unwrap();
    assert_eq!(q.flags, V4L2_CTRL_FLAG_READ_ONLY);
    assert_eq!(q.default_value, 4);
    assert_eq!(query_name(&q), "Min Number of Output Buffers");

    // The old QUERYCTRL says the same, and walks the same list.
    let (id, flags) = parse_ctrl_id_and_flags(CID_BITRATE);
    let q = r.device.queryctrl(&s, id, flags).unwrap();
    assert_eq!(
        (q.minimum, q.maximum, q.step, q.default_value),
        (32_000, 200_000_000, 1, 2_000_000)
    );
    assert!(q.name.starts_with(b"Video Bitrate\0"));
    let (id, flags) = parse_ctrl_id_and_flags(NEXT_CTRL);
    assert_eq!(
        r.device.queryctrl(&s, id, flags).unwrap().id,
        V4L2_CID_USER_CLASS
    );

    close(&mut r.device, s);
}

/// Clamping, `ERANGE` and `EINVAL` on menus, `EACCES` on read-only and write-only controls,
/// `EINVAL` on a class or an unknown id, the error index of each ioctl, and a set that fails
/// leaving nothing applied.
#[test]
fn controls_get_set_try_and_reject_invalid_values() {
    let mut r = rig();
    let mut s = session(&mut r.device);

    // Defaults through G_CTRL and G_EXT_CTRLS.
    assert_eq!(r.device.g_ctrl(&s, CID_BITRATE).unwrap().value, 2_000_000);
    assert_eq!(
        g_ext(&mut r, &s, CID_H264_LEVEL).unwrap(),
        H264_L4_1 as i32
    );
    assert_eq!(r.device.g_ctrl(&s, CID_MIN_OUT).unwrap().value, 4);
    // Class: EINVAL; button: EACCES (write-only); unknown: EINVAL.
    assert_eq!(
        r.device.g_ctrl(&s, V4L2_CID_CODEC_CLASS).err(),
        Some(libc::EINVAL)
    );
    assert_eq!(r.device.g_ctrl(&s, CID_FORCE_KEY).err(), Some(libc::EACCES));
    assert_eq!(r.device.g_ctrl(&s, 0).err(), Some(libc::EINVAL));
    assert_eq!(r.device.s_ctrl(&mut s, 0, 0).err(), Some(libc::EINVAL));
    assert_eq!(
        r.device
            .s_ctrl(&mut s, V4L2_CID_CODEC_CLASS, 0)
            .err(),
        Some(libc::EINVAL)
    );
    assert_eq!(
        r.device.s_ctrl(&mut s, CID_MIN_OUT, 4).err(),
        Some(libc::EACCES)
    );

    // Integers clamp (the kernel's behaviour, which compliance accepts alongside ERANGE).
    assert_eq!(
        r.device.s_ctrl(&mut s, CID_BITRATE, 1_000).unwrap().value,
        32_000
    );
    assert_eq!(
        r.device
            .s_ctrl(&mut s, CID_BITRATE, 1_000_000_000)
            .unwrap()
            .value,
        200_000_000
    );
    assert_eq!(
        r.device
            .s_ctrl(&mut s, CID_BITRATE, 5_000_000)
            .unwrap()
            .value,
        5_000_000
    );
    assert_eq!(r.device.g_ctrl(&s, CID_BITRATE).unwrap().value, 5_000_000);
    // Menus: outside the range ERANGE, in a hole EINVAL, an item is taken.
    assert_eq!(
        r.device.s_ctrl(&mut s, CID_H264_PROFILE, 5).err(),
        Some(libc::ERANGE)
    );
    assert_eq!(
        r.device.s_ctrl(&mut s, CID_H264_PROFILE, -1).err(),
        Some(libc::ERANGE)
    );
    assert_eq!(
        r.device.s_ctrl(&mut s, CID_H264_PROFILE, 1).err(),
        Some(libc::EINVAL)
    );
    assert_eq!(
        r.device
            .s_ctrl(&mut s, CID_H264_PROFILE, H264_MAIN as i32)
            .unwrap()
            .value,
        2
    );
    assert_eq!(r.device.g_ctrl(&s, CID_H264_PROFILE).unwrap().value, 2);
    // Booleans normalise; the button takes any value and, with no codec, does nothing.
    assert_eq!(r.device.s_ctrl(&mut s, CID_PREPEND, 7).unwrap().value, 1);
    assert_eq!(r.device.s_ctrl(&mut s, CID_FORCE_KEY, 0).unwrap().value, 0);
    assert_eq!(r.log.borrow().forced, 0);

    // Ext controls: count 0 succeeds and changes nothing.
    let mut ctrls = ext_controls(0, 0);
    assert!(r
        .device
        .g_ext_ctrls(&s, CtrlWhich::Current, &mut ctrls, &mut vec![], vec![])
        .is_ok());
    assert!(r
        .device
        .try_ext_ctrls(&s, CtrlWhich::Current, &mut ctrls, &mut vec![], vec![])
        .is_ok());
    // An invalid id: EINVAL, error_idx = index for TRY, = count for G and S.
    let mut ctrls = ext_controls(0, 1);
    let mut arr = vec![ext_control(0, 0)];
    assert_eq!(
        r.device
            .g_ext_ctrls(&s, CtrlWhich::Current, &mut ctrls, &mut arr, vec![])
            .err(),
        Some(libc::EINVAL)
    );
    assert_eq!(ctrls.error_idx, 1);
    assert_eq!(
        r.device
            .try_ext_ctrls(&s, CtrlWhich::Current, &mut ctrls, &mut arr, vec![])
            .err(),
        Some(libc::EINVAL)
    );
    assert_eq!(ctrls.error_idx, 0);
    assert_eq!(
        r.device
            .s_ext_ctrls(&mut s, CtrlWhich::Current, &mut ctrls, &mut arr, vec![])
            .err(),
        Some(libc::EINVAL)
    );
    assert_eq!(ctrls.error_idx, 1);
    // Read-only through TRY/S: EACCES with the same error_idx rule; write-only through G.
    let mut arr = vec![ext_control(CID_MIN_OUT, 4)];
    assert_eq!(
        r.device
            .try_ext_ctrls(&s, CtrlWhich::Current, &mut ctrls, &mut arr, vec![])
            .err(),
        Some(libc::EACCES)
    );
    assert_eq!(ctrls.error_idx, 0);
    assert_eq!(
        r.device
            .s_ext_ctrls(&mut s, CtrlWhich::Current, &mut ctrls, &mut arr, vec![])
            .err(),
        Some(libc::EACCES)
    );
    assert_eq!(ctrls.error_idx, 1);
    let mut arr = vec![ext_control(CID_FORCE_KEY, 0)];
    assert_eq!(
        r.device
            .g_ext_ctrls(&s, CtrlWhich::Current, &mut ctrls, &mut arr, vec![])
            .err(),
        Some(libc::EACCES)
    );
    assert_eq!(ctrls.error_idx, 1);
    // A class `which` that does not match: EINVAL.
    let mut arr = vec![ext_control(CID_MIN_OUT, 0)];
    assert_eq!(
        r.device
            .g_ext_ctrls(
                &s,
                CtrlWhich::Class(CODEC_CLASS),
                &mut ctrls,
                &mut arr,
                vec![]
            )
            .err(),
        Some(libc::EINVAL)
    );
    assert!(r
        .device
        .g_ext_ctrls(
            &s,
            CtrlWhich::Class(USER_CLASS),
            &mut ctrls,
            &mut arr,
            vec![]
        )
        .is_ok());
    assert_eq!(ext_value(&arr[0]), 4);
    // WHICH_DEF_VAL: G answers defaults, S and TRY refuse.
    let mut arr = vec![ext_control(CID_BITRATE, 0)];
    assert!(r
        .device
        .g_ext_ctrls(&s, CtrlWhich::Default, &mut ctrls, &mut arr, vec![])
        .is_ok());
    assert_eq!(
        ext_value(&arr[0]),
        2_000_000,
        "the default, not the 5 Mbit/s set above"
    );
    assert_eq!(
        r.device
            .s_ext_ctrls(&mut s, CtrlWhich::Default, &mut ctrls, &mut arr, vec![])
            .err(),
        Some(libc::EINVAL)
    );
    assert_eq!(
        r.device
            .try_ext_ctrls(&s, CtrlWhich::Default, &mut ctrls, &mut arr, vec![])
            .err(),
        Some(libc::EINVAL)
    );

    // A set of several controls is all or nothing: a bad second one leaves the first as is.
    let mut ctrls = ext_controls(CODEC_CLASS, 2);
    let mut arr = vec![ext_control(CID_GOP, 12), ext_control(CID_H264_PROFILE, 3)];
    assert_eq!(
        r.device
            .s_ext_ctrls(
                &mut s,
                CtrlWhich::Class(CODEC_CLASS),
                &mut ctrls,
                &mut arr,
                vec![]
            )
            .err(),
        Some(libc::EINVAL)
    );
    assert_eq!(ctrls.error_idx, 2);
    assert_eq!(
        r.device.g_ctrl(&s, CID_GOP).unwrap().value,
        30,
        "nothing applied"
    );
    let mut arr = vec![
        ext_control(CID_GOP, 12),
        ext_control(CID_H264_PROFILE, H264_BASELINE as i32),
    ];
    assert!(r
        .device
        .s_ext_ctrls(
            &mut s,
            CtrlWhich::Class(CODEC_CLASS),
            &mut ctrls,
            &mut arr,
            vec![]
        )
        .is_ok());
    assert_eq!(ctrls.error_idx, 0);
    assert_eq!(r.device.g_ctrl(&s, CID_GOP).unwrap().value, 12);
    assert_eq!(r.device.g_ctrl(&s, CID_H264_PROFILE).unwrap().value, 0);
    // TRY echoes what a value would become without applying it.
    let mut arr = vec![ext_control(CID_BITRATE, 1)];
    assert!(r
        .device
        .try_ext_ctrls(&s, CtrlWhich::Current, &mut ctrls, &mut arr, vec![])
        .is_ok());
    assert_eq!(ext_value(&arr[0]), 32_000);
    assert_eq!(r.device.g_ctrl(&s, CID_BITRATE).unwrap().value, 5_000_000);

    close(&mut r.device, s);
}

/// The ioctls of `ffmpeg -c:v h264_v4l2m2m`: probe, configure, allocate, prepare, encode four
/// frames with separate headers, drain and close.
#[test]
fn ffmpeg_h264_v4l2m2m_encode_sequence() {
    let mut r = rig();
    let mut s = session(&mut r.device);

    // probe: TRY_FMT(OUTPUT, NV12); ENUM_FMT(CAPTURE) until H264; TRY_FMT(CAPTURE).
    assert!(r
        .device
        .try_fmt(&s, OUTPUT, output_format(NV12, 0, 0))
        .is_ok());
    let mut i = 0;
    while r.device.enum_fmt(&s, CAPTURE, i).unwrap().pixelformat != H264.0 {
        i += 1;
    }
    assert!(r
        .device
        .try_fmt(&s, CAPTURE, capture_format(H264, 0))
        .is_ok());

    // configure: S_FMT(OUTPUT, avctx w x h), S_FMT(CAPTURE, H264, sizeimage from
    // half a 32-aligned frame, 4 KiB-aligned
    // -- 61440 for 320x240, below the device's floor.
    r.device
        .s_fmt(&mut s, OUTPUT, output_format(NV12, SIZE.0, SIZE.1))
        .unwrap();
    let asked =
        (SIZE.1.div_ceil(32) * 32 * SIZE.0.div_ceil(32) * 32 * 3 / 2 / 2).div_ceil(4096) * 4096;
    assert_eq!(asked, 61440);
    let cfmt = pix(&r
        .device
        .s_fmt(&mut s, CAPTURE, capture_format(H264, asked))
        .unwrap());
    assert_eq!(
        cfmt.sizeimage, DEFAULT_BITSTREAM_FLOOR,
        "below the floor: the device's default"
    );
    // context_init(output): G_FMT, REQBUFS(16), QUERYBUF; the same for capture (4).
    r.device.g_fmt(&s, OUTPUT).unwrap();
    assert_eq!(
        r.device
            .reqbufs(&mut s, OUTPUT, MemoryType::Mmap, 16)
            .unwrap()
            .count,
        16
    );
    r.device.querybuf(&s, OUTPUT, 0).unwrap();
    let sizeimage = pix(&r.device.g_fmt(&s, CAPTURE).unwrap()).sizeimage;
    assert_eq!(
        r.device
            .reqbufs(&mut s, CAPTURE, MemoryType::Mmap, 4)
            .unwrap()
            .count,
        4
    );
    r.device.querybuf(&s, CAPTURE, 3).unwrap();

    // prepare_encoder.
    r.device
        .subscribe_event(&mut s, EventType::Eos, no_flags())
        .unwrap();
    assert_eq!(
        s_ext(&mut r, &mut s, CID_B_FRAMES, 0).err(),
        Some(libc::EINVAL)
    );
    assert_eq!(g_ext(&mut r, &s, CID_B_FRAMES).err(), Some(libc::EINVAL));
    r.device.s_parm(&mut s, parm(OUTPUT, 1, 25)).unwrap();
    assert_eq!(
        s_ext(
            &mut r,
            &mut s,
            CID_HEADER_MODE,
            VideoHeaderMode::Separate as i32
        )
        .unwrap(),
        0
    );
    assert_eq!(
        s_ext(&mut r, &mut s, CID_BITRATE, 3_000_000).unwrap(),
        3_000_000
    );
    assert_eq!(
        s_ext(&mut r, &mut s, CID_FRAME_RC, 1).err(),
        Some(libc::EINVAL)
    );
    assert_eq!(s_ext(&mut r, &mut s, CID_GOP, 2).unwrap(), 2);
    assert_eq!(
        s_ext(
            &mut r,
            &mut s,
            CID_H264_PROFILE,
            H264_HIGH as i32
        )
        .unwrap(),
        4
    );
    assert_eq!(s_ext(&mut r, &mut s, CID_H264_MIN_QP, 0).unwrap(), 0);
    assert_eq!(s_ext(&mut r, &mut s, CID_H264_MAX_QP, 51).unwrap(), 51);

    // First frame: FORCE_KEY_FRAME (pict_type I, value 0 -- a button ignores it), QBUF(OUTPUT),
    // STREAMON(OUTPUT), STREAMON(CAPTURE). ffmpeg queues no CAPTURE buffer by hand: they are
    // queued by `ff_v4l2_context_init`'s QBUF loop in real life; here explicitly.
    assert_eq!(s_ext(&mut r, &mut s, CID_FORCE_KEY, 0).unwrap(), 0);
    queue_frame(&mut r, &mut s, 0, 0x10, 1);
    r.device.streamon(&mut s, OUTPUT).unwrap();
    assert!(
        r.log.borrow().started.is_empty(),
        "no codec until both queues stream"
    );
    r.device.streamon(&mut s, CAPTURE).unwrap();
    let config = r.log.borrow()
        .started
        .first()
        .cloned()
        .expect("codec created");
    assert_eq!(config.header_mode, VideoHeaderMode::Separate);
    assert_eq!(config.bitrate, 3_000_000);
    assert_eq!(config.gop_size, 2);
    assert_eq!(config.profile, Some(H264_HIGH as i32));
    assert_eq!(
        config.level,
        Some(H264_L4_1 as i32),
        "the backend's default level"
    );
    assert_eq!(config.qp, Some((0, 51)));
    assert_eq!(config.frame_rate, FrameRate { num: 25, den: 1 });
    assert_eq!(config.bitrate_mode, VideoBitrateMode::VariableBitrate);
    assert_eq!(config.visible_rect, Rect { left: 0, top: 0, width: SIZE.0, height: SIZE.1 });
    for i in 0..4 {
        r.device
            .qbuf(
                &mut s,
                mmap_buffer(CAPTURE, i, sizeimage),
                vec![],
                PayloadValidity::all(),
            )
            .unwrap();
    }
    // Three more frames; the fourth is an I picture again (FORCE_KEY_FRAME).
    queue_frame(&mut r, &mut s, 1, 0x11, 2);
    queue_frame(&mut r, &mut s, 2, 0x12, 3);
    assert_eq!(s_ext(&mut r, &mut s, CID_FORCE_KEY, 0).unwrap(), 0);
    queue_frame(&mut r, &mut s, 3, 0x13, 4);

    // Headers first (SEPARATE), then the frames; GOP 2 makes frames 1 and 3 keyframes, the
    // forced one is frame 4 (index 3), which waits: four CAPTURE buffers hold four packets.
    // Timestamps are copied from the OUTPUT buffers.
    collect_capture(&mut r, &mut s, 4);
    let packets = dequeued_on(&r.events.borrow(), CAPTURE);
    assert_eq!(packets.len(), 4);
    let headers = &packets[0];
    assert_eq!(headers.first_plane_bytesused(), HEADERS_LEN as u32);
    assert!(!headers.has_any(FLAG_KEYFRAME | FLAG_PFRAME | FLAG_BFRAME));
    assert!(headers.has(FLAG_TIMESTAMP_COPY));
    assert_eq!(
        headers.timestamp.sec,
        1,
        "the headers carry the first frame's timestamp"
    );
    assert_eq!(
        parse_units(&capture_bytes(&s, headers.index as usize, HEADERS_LEN)),
        vec![Unit::Sps, Unit::Pps]
    );
    let expect = [
        (0x10u8, true, 1i64),
        (0x11, false, 2),
        (0x12, true, 3),
        (0x13, true, 4),
    ];
    let check = |s: &Session, p: &V4l2Buffer, n: usize| {
        let (luma, key, t) = expect[n];
        assert_eq!(p.timestamp.sec, t);
        assert_eq!(p.has(FLAG_KEYFRAME), key, "frame {n}");
        assert_eq!(p.has(FLAG_PFRAME), !key, "frame {n}");
        assert_eq!(p.sequence, n as u32 + 1);
        let units = parse_units(&capture_bytes(
            s,
            p.index as usize,
            p.first_plane_bytesused() as usize,
        ));
        assert_eq!(
            units,
            vec![Unit::Frame {
                key,
                frame_no: n as u8,
                digest: digest_of(luma, SIZE)
            }]
        );
    };
    for n in 0..3 {
        check(&s, &packets[n + 1], n);
    }
    assert_eq!(
        r.log.borrow().forced,
        1,
        "the second FORCE_KEY_FRAME reached the codec"
    );
    // Three OUTPUT buffers came back; the fourth frame is still with the codec.
    collect_output(&mut r, &mut s, 3);
    assert!(s.input.buffers[3].lent);

    // EOF: ENCODER_CMD(STOP), then the CAPTURE buffer ffmpeg re-queues after dequeuing the
    // headers takes the fourth frame, which is the last one and says so; then EOS.
    let free = packets[0].index;
    r.device
        .encoder_cmd(&mut s, enc_cmd(ENC_CMD_STOP))
        .unwrap();
    r.device
        .qbuf(
            &mut s,
            mmap_buffer(CAPTURE, free, sizeimage),
            vec![],
            PayloadValidity::all(),
        )
        .unwrap();
    collect_capture(&mut r, &mut s, 5);
    let last = dequeued_on(&r.events.borrow(), CAPTURE).pop().unwrap();
    assert!(last.has(FLAG_LAST));
    check(&s, &last, 3);
    assert_eq!(eos_events(&r.events.borrow()), 1);
    collect_output(&mut r, &mut s, 4);
    assert!(s.input.buffers.iter().all(|b| !b.queued));

    // close: STREAMOFF both, REQBUFS(OUTPUT, 0).
    r.device.streamoff(&mut s, OUTPUT).unwrap();
    r.device.streamoff(&mut s, CAPTURE).unwrap();
    r.device
        .reqbufs(&mut s, OUTPUT, MemoryType::Mmap, 0)
        .unwrap();
    close(&mut r.device, s);
    assert_eq!(
        r.log.borrow().released_while_capture_active,
        0
    );
    assert!(!r.log.borrow().open);
}

/// The ioctls of GStreamer's `v4l2h264enc`: CAPTURE streams before any raw frame exists, frame
/// numbers ride in the timestamps, headers come with the first frame.
#[test]
fn gstreamer_v4l2h264enc_sequence() {
    let mut r = rig();
    let mut s = session(&mut r.device);

    // registration: profile and level menus.
    let q = query(&mut r, &s, CID_H264_PROFILE).unwrap();
    assert_eq!(q.type_, V4L2_CTRL_TYPE_MENU);
    let profiles: Vec<u32> = (q.minimum as u32..=q.maximum as u32)
        .filter(|i| r.device.querymenu(&s, CID_H264_PROFILE, *i).is_ok())
        .collect();
    assert_eq!(profiles, vec![0, 2, 4]);
    let q = query(&mut r, &s, CID_H264_LEVEL).unwrap();
    assert!(r
        .device
        .querymenu(&s, CID_H264_LEVEL, q.maximum as u32)
        .is_ok());

    // open: probe both queues.
    assert!(r.device.enum_fmt(&s, OUTPUT, 0).is_ok());
    let fs = r.device.enum_framesizes(&s, 0, NV12.0).unwrap();
    let sw = fs;
    assert!(r
        .device
        .enum_frameintervals(&s, 0, NV12.0, sw.min_width, sw.min_height)
        .is_ok());
    assert!(r.device.enum_fmt(&s, CAPTURE, 0).is_ok());
    assert!(r.device.enum_framesizes(&s, 0, H264.0).is_ok());
    assert!(r
        .device
        .enum_frameintervals(&s, 0, H264.0, 16, 16)
        .is_ok());

    // negotiate: the downstream caps ask for "main"; the level is read back.
    assert_eq!(
        r.device
            .s_ctrl(&mut s, CID_H264_PROFILE, H264_MAIN as i32)
            .unwrap()
            .value,
        2
    );
    assert_eq!(
        r.device.g_ctrl(&s, CID_H264_LEVEL).unwrap().value,
        H264_L4_1 as i32
    );

    // decide_allocation: S_FMT(CAPTURE) sized from the maximum frame size, which the device refits
    // to what the raw size can need; G_PARM(CAPTURE) and MIN_BUFFERS_FOR_CAPTURE fail harmlessly.
    let max_sizeimage = 4096 * 4096 * 8 / 8 / 2;
    let cfmt = pix(&r
        .device
        .s_fmt(&mut s, CAPTURE, capture_format(H264, max_sizeimage))
        .unwrap());
    assert_eq!(
        cfmt.sizeimage,
        4 << 20,
        "the client's size is refitted to the raw size, and the answer is what it gets"
    );
    assert_eq!(r.device.g_parm(&s, CAPTURE).err(), Some(libc::ENOTTY));
    assert_eq!(r.device.g_ctrl(&s, CID_MIN_CAP).err(), Some(libc::EINVAL));
    // set_format: S_FMT(OUTPUT) then G_PARM + S_PARM(OUTPUT, 30/1) on the raw side.
    r.device
        .s_fmt(&mut s, OUTPUT, output_format(NV12, SIZE.0, SIZE.1))
        .unwrap();
    let p = r.device.g_parm(&s, OUTPUT).unwrap();
    assert_ne!(timeperframe(&p).2 & CAP_TIMEPERFRAME, 0);
    r.device.s_parm(&mut s, parm(OUTPUT, 1, 30)).unwrap();
    // propose_allocation: the OUTPUT pool size.
    assert_eq!(r.device.g_ctrl(&s, CID_MIN_OUT).unwrap().value, 4);

    // handle_frame: pools. CAPTURE streams before any raw frame exists.
    r.device
        .reqbufs(&mut s, OUTPUT, MemoryType::Mmap, 4)
        .unwrap();
    r.device
        .reqbufs(&mut s, CAPTURE, MemoryType::Mmap, 4)
        .unwrap();
    for i in 0..4 {
        r.device
            .qbuf(
                &mut s,
                mmap_buffer(CAPTURE, i, max_sizeimage),
                vec![],
                PayloadValidity::all(),
            )
            .unwrap();
    }
    r.device.streamon(&mut s, CAPTURE).unwrap();
    assert!(
        r.log.borrow().started.is_empty(),
        "no codec until both queues stream"
    );
    // The first frame is a forced keyframe in gst's eyes; frame numbers ride in tv_sec.
    assert!(r.device.s_ctrl(&mut s, CID_FORCE_KEY, 1).is_ok());
    queue_frame(&mut r, &mut s, 0, 0x20, 0);
    r.device.streamon(&mut s, OUTPUT).unwrap();
    let config = r.log.borrow()
        .started
        .first()
        .cloned()
        .expect("codec created");
    assert_eq!(config.profile, Some(H264_MAIN as i32));
    assert_eq!(
        config.header_mode,
        VideoHeaderMode::JoinedWith1stFrame,
        "the default gst relies on"
    );
    queue_frame(&mut r, &mut s, 1, 0x21, 1);
    queue_frame(&mut r, &mut s, 2, 0x22, 2);

    // The loop: one CAPTURE buffer per frame, timestamp exactly (N, 0), headers joined with
    // the first keyframe, KEYFRAME on it and PFRAME on the rest.
    collect_capture(&mut r, &mut s, 3);
    let packets = dequeued_on(&r.events.borrow(), CAPTURE);
    for (n, p) in packets.iter().enumerate() {
        assert_eq!((p.timestamp.sec, p.timestamp.usec), (n as i64, 0));
        assert_eq!(p.has(FLAG_KEYFRAME), n == 0);
        let units = parse_units(&capture_bytes(
            &s,
            p.index as usize,
            p.first_plane_bytesused() as usize,
        ));
        let frame = Unit::Frame {
            key: n == 0,
            frame_no: n as u8,
            digest: digest_of(0x20 + n as u8, SIZE),
        };
        if n == 0 {
            assert_eq!(
                units,
                vec![Unit::Sps, Unit::Pps, frame],
                "headers joined with the first frame"
            );
        } else {
            assert_eq!(units, vec![frame]);
        }
    }

    // finish: ENCODER_CMD(STOP) -> the one CAPTURE buffer still queued comes back LAST, empty.
    r.device
        .encoder_cmd(&mut s, enc_cmd(ENC_CMD_STOP))
        .unwrap();
    collect_capture(&mut r, &mut s, 4);
    let last = dequeued_on(&r.events.borrow(), CAPTURE).pop().unwrap();
    assert!(last.has(FLAG_LAST));
    assert_eq!(last.first_plane_bytesused(), 0);

    // stop: STREAMOFF both, REQBUFS(0) both.
    r.device.streamoff(&mut s, OUTPUT).unwrap();
    r.device.streamoff(&mut s, CAPTURE).unwrap();
    r.device
        .reqbufs(&mut s, OUTPUT, MemoryType::Mmap, 0)
        .unwrap();
    r.device
        .reqbufs(&mut s, CAPTURE, MemoryType::Mmap, 0)
        .unwrap();
    assert_eq!(
        r.log.borrow().stops,
        1,
        "STREAMOFF(CAPTURE) reset the codec"
    );
    close(&mut r.device, s);
}

/// The headers stand in front of every keyframe when asked; the group-of-pictures size decides
/// where the keyframes fall.
#[test]
fn prepend_sps_pps_to_idr_repeats_the_headers_on_every_keyframe() {
    let mut r = rig();
    let mut s = session(&mut r.device);
    r.device.s_ctrl(&mut s, CID_PREPEND, 1).unwrap();
    r.device.s_ctrl(&mut s, CID_GOP, 2).unwrap();
    start_streaming(&mut r, &mut s);
    assert!(r.log.borrow().started[0].prepend_sps_pps_to_idr);

    for i in 0..4u32 {
        queue_frame(&mut r, &mut s, i, 0x30 + i as u8, i as i64);
    }
    collect_capture(&mut r, &mut s, 4);
    let packets = dequeued_on(&r.events.borrow(), CAPTURE);
    for (n, p) in packets.iter().enumerate() {
        let units = parse_units(&capture_bytes(
            &s,
            p.index as usize,
            p.first_plane_bytesused() as usize,
        ));
        let key = n % 2 == 0;
        assert_eq!(p.has(FLAG_KEYFRAME), key);
        assert_eq!(
            units.len(),
            if key { 3 } else { 1 },
            "frame {n}: headers on keyframes only"
        );
    }
    close(&mut r.device, s);
}

/// While the codec runs, the bitrate and a forced keyframe reach it; any other change is `EBUSY`.
#[test]
fn runtime_bitrate_and_force_keyframe_reach_the_session() {
    let mut r = rig();
    let mut s = session(&mut r.device);
    start_streaming(&mut r, &mut s);

    assert_eq!(
        r.device
            .s_ctrl(&mut s, CID_BITRATE, 8_000_000)
            .unwrap()
            .value,
        8_000_000
    );
    assert_eq!(
        s_ext(&mut r, &mut s, CID_BITRATE, 9_000_000).unwrap(),
        9_000_000
    );
    assert_eq!(r.log.borrow().bitrates, vec![8_000_000, 9_000_000]);
    // Setting the same value again is not a change.
    assert_eq!(
        r.device
            .s_ctrl(&mut s, CID_BITRATE, 9_000_000)
            .unwrap()
            .value,
        9_000_000
    );
    assert_eq!(r.log.borrow().bitrates.len(), 2);
    assert_eq!(r.device.s_ctrl(&mut s, CID_GOP, 5).err(), Some(libc::EBUSY));
    assert_eq!(
        r.device
            .s_ctrl(&mut s, CID_H264_PROFILE, H264_BASELINE as i32)
            .err(),
        Some(libc::EBUSY)
    );
    assert_eq!(
        r.device.s_ctrl(&mut s, CID_GOP, 30).unwrap().value,
        30,
        "the current value is fine"
    );
    // TRY never minds the codec.
    let mut ctrls = ext_controls(CODEC_CLASS, 1);
    let mut arr = vec![ext_control(CID_GOP, 5)];
    assert!(r
        .device
        .try_ext_ctrls(
            &s,
            CtrlWhich::Class(CODEC_CLASS),
            &mut ctrls,
            &mut arr,
            vec![]
        )
        .is_ok());
    assert!(r.device.s_parm(&mut s, parm(OUTPUT, 1, 15)).is_ok());

    // Two frames, the second forced: both keyframes (GOP 30 would make only the first one).
    queue_frame(&mut r, &mut s, 0, 0x40, 0);
    r.device.s_ctrl(&mut s, CID_FORCE_KEY, 1).unwrap();
    queue_frame(&mut r, &mut s, 1, 0x41, 1);
    queue_frame(&mut r, &mut s, 2, 0x42, 2);
    collect_capture(&mut r, &mut s, 3);
    let keys: Vec<bool> = dequeued_on(&r.events.borrow(), CAPTURE)
        .iter()
        .map(|p| p.has(FLAG_KEYFRAME))
        .collect();
    assert_eq!(keys, vec![true, true, false]);
    assert_eq!(r.log.borrow().forced, 1);
    // A crop cannot change under a running codec either.
    let rect = Rect {
        left: 0,
        top: 0,
        width: 16,
        height: 16,
    };
    assert_eq!(
        r.device
            .s_selection(
                &mut s,
                SelectionType::Output,
                SelectionTarget::Crop,
                rect,
                SelectionFlags(0)
            )
            .err(),
        Some(libc::EBUSY)
    );
    close(&mut r.device, s);
}

/// A client declares eight planes and fills only the first; the queue's format has one, so the rest
/// is not looked at -- but the first is, where it declares the payload.
#[test]
fn video_encoder_tests_ffmpegs_dirty_plane_array_is_judged_on_the_planes_the_format_has() {
    let mut r = rig();
    let mut s = session(&mut r.device);
    r.device
        .s_fmt(&mut s, CAPTURE, capture_format(H264, 0))
        .unwrap();
    r.device
        .s_fmt(&mut s, OUTPUT, output_format(NV12, SIZE.0, SIZE.1))
        .unwrap();
    r.device
        .reqbufs(&mut s, OUTPUT, MemoryType::Mmap, 2)
        .unwrap();

    // OUTPUT (the raw frame) with a sane plane 0 under the dirty tail: queued, and the length
    // the guest declared is kept.
    let bytes =
        ffmpeg_qbuf_bytes(OUTPUT, MemoryType::Mmap, 0, (RAW_SIZEIMAGE, RAW_SIZEIMAGE));
    assert_eq!(
        dispatch_qbuf(&mut r.device, &mut s, &bytes),
        0,
        "ffmpeg's plane array was refused on the output queue"
    );
    assert_eq!(
        s.input.buffers[0].v4l2_buffer.first_plane_bytesused(),
        RAW_SIZEIMAGE
    );

    // The same array with the garbage in plane 0: still `EINVAL`.
    let bytes = ffmpeg_qbuf_bytes(
        OUTPUT,
        MemoryType::Mmap,
        1,
        (RAW_SIZEIMAGE + 1, RAW_SIZEIMAGE),
    );
    assert_eq!(
        dispatch_qbuf(&mut r.device, &mut s, &bytes),
        libc::EINVAL,
        "a payload the buffer cannot hold was accepted"
    );
    assert!(!s.input.buffers[1].queued);

    // CAPTURE, `MMAP`: the bitstream is this device's to write, so the guest's payload is
    // ignored.
    let bitstream = pix(&r.device.g_fmt(&s, CAPTURE).unwrap()).sizeimage;
    r.device
        .reqbufs(&mut s, CAPTURE, MemoryType::Mmap, 2)
        .unwrap();
    let bytes = ffmpeg_qbuf_bytes(CAPTURE, MemoryType::Mmap, 0, (0, bitstream));
    assert_eq!(dispatch_qbuf(&mut r.device, &mut s, &bytes), 0);
    assert!(s.output.buffers[0].queued);

    close(&mut r.device, s);
}

/// Guest-owned buffers are mapped while they are queued and unmapped before the guest is told; one
/// too short for the queue's format is refused, by this call's length however it was prepared, and
/// so is a scatter list shorter than the length claims.
#[test]
fn userptr_raw_input_and_bitstream_output_go_through_guest_mappings() {
    let mut r = rig();
    let mut s = session(&mut r.device);
    r.device
        .s_fmt(&mut s, CAPTURE, capture_format(H264, 0))
        .unwrap();
    r.device
        .s_fmt(&mut s, OUTPUT, output_format(NV12, SIZE.0, SIZE.1))
        .unwrap();
    let bitstream = pix(&r.device.g_fmt(&s, CAPTURE).unwrap()).sizeimage;

    let reply = r
        .device
        .reqbufs(&mut s, OUTPUT, MemoryType::UserPtr, 2)
        .unwrap();
    assert!(reply.capabilities & SUPPORTS_USERPTR != 0);
    r.device
        .reqbufs(&mut s, CAPTURE, MemoryType::UserPtr, 2)
        .unwrap();

    // Too short on either queue: refused, nothing mapped.
    let (short, sgs) = userptr_buffer(OUTPUT, 0, 0x1000, RAW_SIZEIMAGE - 1, RAW_SIZEIMAGE - 1);
    assert_eq!(
        r.device
            .qbuf(&mut s, short, sgs, PayloadValidity::all())
            .err(),
        Some(libc::EINVAL)
    );
    let (short, sgs) = userptr_buffer(CAPTURE, 0, 0x100000, bitstream - 1, 0);
    assert_eq!(
        r.device
            .qbuf(&mut s, short, sgs, PayloadValidity::all())
            .err(),
        Some(libc::EINVAL)
    );
    // A scatter list shorter than the declared length: refused too.
    let (mut lying, _) = userptr_buffer(OUTPUT, 0, 0x1000, RAW_SIZEIMAGE, RAW_SIZEIMAGE);
    lying.set_first_length(RAW_SIZEIMAGE);
    let sgs = vec![vec![SgEntry::new(0x1000, 4096)]];
    assert_eq!(
        r.device
            .qbuf(&mut s, lying, sgs, PayloadValidity::all())
            .err(),
        Some(libc::EINVAL)
    );
    // Prepared at full length, then queued with an 8-byte list: refused, still prepared.
    let (pb, _) = userptr_buffer(OUTPUT, 1, 0x1000, RAW_SIZEIMAGE, RAW_SIZEIMAGE);
    assert!(r
        .device
        .prepare_buf(&mut s, pb, vec![], PayloadValidity::all())
        .unwrap().has(FLAG_PREPARED));
    let (qb, sgs) = userptr_buffer(OUTPUT, 1, 0x1000, 8, 8);
    assert_eq!(
        r.device.qbuf(&mut s, qb, sgs, PayloadValidity::all()).err(),
        Some(libc::EINVAL)
    );
    assert!(s.input.buffers[1].prepared.is_some());
    assert_eq!(*r.guest.live_mappings.borrow(), 0);

    // A raw frame in guest memory: luma 0x55.
    let raw_gpa = 0x10000u64;
    {
        let mut mem = r.guest.memory.borrow_mut();
        let luma = (SIZE.0 * SIZE.1) as usize;
        mem[raw_gpa as usize..raw_gpa as usize + luma].fill(0x55);
    }
    let (ob, sgs) = userptr_buffer(OUTPUT, 0, raw_gpa, RAW_SIZEIMAGE, RAW_SIZEIMAGE);
    let mut ob = ob;
    ob.timestamp = ts(9);
    r.device
        .qbuf(&mut s, ob, sgs, PayloadValidity::all())
        .unwrap();
    assert_eq!(
        *r.guest.live_mappings.borrow(),
        1,
        "OUTPUT mapping held while queued"
    );
    let cap_gpa = 0x200000u64;
    let (cb, sgs) = userptr_buffer(CAPTURE, 0, cap_gpa, bitstream, 0);
    r.device
        .qbuf(&mut s, cb, sgs, PayloadValidity::all())
        .unwrap();
    assert_eq!(
        *r.guest.live_mappings.borrow(),
        2,
        "CAPTURE mapping held while queued"
    );
    r.device.streamon(&mut s, OUTPUT).unwrap();
    r.device.streamon(&mut s, CAPTURE).unwrap();

    // The packet lands in the guest pages; both mappings are dropped before the DQBUF events.
    collect_capture(&mut r, &mut s, 1);
    collect_output(&mut r, &mut s, 1);
    assert_eq!(
        *r.guest.live_mappings.borrow(),
        0,
        "mappings released before the DQBUFs"
    );
    let packet = dequeued_on(&r.events.borrow(), CAPTURE).remove(0);
    assert_eq!(packet.timestamp.sec, 9);
    let len = packet.first_plane_bytesused() as usize;
    let bytes = r.guest.memory.borrow()[cap_gpa as usize..cap_gpa as usize + len].to_vec();
    assert_eq!(
        parse_units(&bytes),
        vec![
            Unit::Sps,
            Unit::Pps,
            Unit::Frame {
                key: true,
                frame_no: 0,
                digest: digest_of(0x55, SIZE)
            }
        ]
    );
    close(&mut r.device, s);
}

/// `STREAMOFF(OUTPUT)` flushes and keeps the codec; `STREAMOFF(CAPTURE)` tears it down, and the
/// next one starts with headers again and the raw frame the old one had not got to.
#[test]
fn streamoff_output_pauses_and_streamoff_capture_resets_the_codec() {
    let mut r = rig();
    let mut s = session(&mut r.device);
    let sizeimage = start_streaming(&mut r, &mut s);
    // Four frames use up the four CAPTURE buffers; a fifth stays with the codec, unwritten.
    for i in 0..4u32 {
        queue_frame(&mut r, &mut s, i, 0x60 + i as u8, i as i64);
    }
    collect_capture(&mut r, &mut s, 4);
    collect_output(&mut r, &mut s, 4);
    queue_frame(&mut r, &mut s, 0, 0x64, 4);
    assert!(s.input.buffers[0].lent);

    // Stopped: STREAMOFF(OUTPUT) flushes the pending frame and keeps the codec.
    r.device.streamoff(&mut s, OUTPUT).unwrap();
    assert_eq!(r.log.borrow().flushes, 1);
    assert_eq!(r.log.borrow().stops, 0, "the codec is kept");
    assert!(
        s.input.buffers.iter().all(|b| !b.queued),
        "OUTPUT buffers returned by the pause"
    );
    assert!(s.state.capture_streaming);
    r.device.streamon(&mut s, OUTPUT).unwrap();
    assert_eq!(r.log.borrow().started.len(), 1, "no second codec");
    for i in 0..4 {
        r.device
            .qbuf(
                &mut s,
                mmap_buffer(CAPTURE, i, sizeimage),
                vec![],
                PayloadValidity::all(),
            )
            .unwrap();
    }
    queue_frame(&mut r, &mut s, 1, 0x65, 5);
    collect_capture(&mut r, &mut s, 5);
    let packets = dequeued_on(&r.events.borrow(), CAPTURE);
    assert_eq!(packets.len(), 5, "the flushed frame never came out");
    let p = &packets[4];
    assert_eq!(p.timestamp.sec, 5);
    assert!(
        !p.has(FLAG_KEYFRAME),
        "the same stream continues"
    );
    let units = parse_units(&capture_bytes(
        &s,
        p.index as usize,
        p.first_plane_bytesused() as usize,
    ));
    assert_eq!(
        units,
        vec![Unit::Frame {
            key: false,
            frame_no: 5,
            digest: digest_of(0x65, SIZE)
        }]
    );

    // Reset: again a frame the codec cannot write out, then STREAMOFF(CAPTURE).
    for i in 0..3u32 {
        queue_frame(&mut r, &mut s, 2 + i % 2, 0x66 + i as u8, 6 + i as i64);
        collect_capture(&mut r, &mut s, 6 + i as usize);
        collect_output(&mut r, &mut s, 6 + i as usize);
    }
    queue_frame(&mut r, &mut s, 0, 0x69, 9);
    assert!(
        s.input.buffers[0].lent,
        "frame 9 is with the codec, waiting for a CAPTURE buffer"
    );
    r.device.streamoff(&mut s, CAPTURE).unwrap();
    assert_eq!(
        r.log.borrow().stops,
        1,
        "STREAMOFF(CAPTURE) joins the codec"
    );
    assert!(
        s.output.buffers.iter().all(|b| !b.queued),
        "CAPTURE buffers returned by the reset"
    );
    assert!(
        s.input.buffers[0].queued && !s.input.buffers[0].lent,
        "frame 9 is queued again"
    );
    assert_eq!(
        r.log.borrow().released_while_capture_active,
        0
    );

    // A fresh codec: headers again, frame 9 first, as a keyframe of the new stream.
    for i in 0..4 {
        r.device
            .qbuf(
                &mut s,
                mmap_buffer(CAPTURE, i, sizeimage),
                vec![],
                PayloadValidity::all(),
            )
            .unwrap();
    }
    r.device.streamon(&mut s, CAPTURE).unwrap();
    assert_eq!(
        r.log.borrow().started.len(),
        2,
        "a new codec for the new stream"
    );
    collect_capture(&mut r, &mut s, 9);
    let p = dequeued_on(&r.events.borrow(), CAPTURE).pop().unwrap();
    assert_eq!(p.timestamp.sec, 9);
    assert!(p.has(FLAG_KEYFRAME));
    let units = parse_units(&capture_bytes(
        &s,
        p.index as usize,
        p.first_plane_bytesused() as usize,
    ));
    assert_eq!(
        units,
        vec![
            Unit::Sps,
            Unit::Pps,
            Unit::Frame {
                key: true,
                frame_no: 0,
                digest: digest_of(0x69, SIZE)
            }
        ]
    );

    close(&mut r.device, s);
    assert_eq!(r.log.borrow().stops, 2);
}

/// `REQBUFS(0)` and close stop the codec before a buffer goes back to the allocator; `REQBUFS` on a
/// streaming queue is refused; a session that is only dropped stops its codec before its buffers
/// go.
#[test]
fn video_encoder_tests_lifecycle_invariants_join_the_backend_before_freeing() {
    let mut r = rig();
    let mut s = session(&mut r.device);
    let sizeimage = start_streaming(&mut r, &mut s);
    for i in 0..2u32 {
        queue_frame(&mut r, &mut s, i, 0x70 + i as u8, i as i64);
    }
    collect_capture(&mut r, &mut s, 2);

    assert_eq!(
        r.device.reqbufs(&mut s, CAPTURE, MemoryType::Mmap, 4).err(),
        Some(libc::EBUSY)
    );
    assert_eq!(
        r.device.reqbufs(&mut s, OUTPUT, MemoryType::Mmap, 4).err(),
        Some(libc::EBUSY)
    );
    // REQBUFS(0) on CAPTURE joins (stop) before freeing; nothing released meanwhile.
    r.device
        .reqbufs(&mut s, CAPTURE, MemoryType::Mmap, 0)
        .unwrap();
    assert_eq!(
        r.log.borrow().stops,
        1,
        "REQBUFS(0) stopped the codec first"
    );
    assert!(s.output.buffers.is_empty());
    assert_eq!(
        r.log.borrow().released_while_capture_active,
        0
    );
    assert!(!s.state.capture_streaming);
    assert!(s.state.output_streaming, "OUTPUT keeps streaming");

    // Rebuild capture and restart; then drop the session bare: the fake's Drop joins.
    r.device
        .reqbufs(&mut s, CAPTURE, MemoryType::Mmap, 2)
        .unwrap();
    r.device
        .qbuf(
            &mut s,
            mmap_buffer(CAPTURE, 0, sizeimage),
            vec![],
            PayloadValidity::all(),
        )
        .unwrap();
    r.device.streamon(&mut s, CAPTURE).unwrap();
    assert_eq!(r.log.borrow().started.len(), 2);
    queue_frame(&mut r, &mut s, 2, 0x72, 2);
    assert!(r.log.borrow().open);
    drop(s);
    assert!(
        !r.log.borrow().open,
        "the dropped session joined its codec"
    );
    assert_eq!(r.log.borrow().stops, 2);
    assert_eq!(
        r.log.borrow().released_while_capture_active,
        0
    );
}

/// One encode at a time: a second session's allocation is `EBUSY` while the first holds buffers,
/// and succeeds once it lets go.
#[test]
fn a_second_session_is_refused_while_one_holds_buffers() {
    let mut r = rig();
    let mut s = session(&mut r.device);
    r.device
        .reqbufs(&mut s, OUTPUT, MemoryType::Mmap, 2)
        .unwrap();

    let mut other = new_session(&mut r.device, 1);
    assert_eq!(
        r.device
            .reqbufs(&mut other, OUTPUT, MemoryType::Mmap, 1)
            .err(),
        Some(libc::EBUSY)
    );
    let big = capture_format(H264, 1 << 20);
    assert_eq!(
        r.device
            .create_bufs(&mut other, 1, CAPTURE, MemoryType::Mmap, big)
            .err(),
        Some(libc::EBUSY)
    );
    // The second session's own controls are its own, untouched by the first's.
    r.device.s_ctrl(&mut s, CID_GOP, 7).unwrap();
    assert_eq!(r.device.g_ctrl(&other, CID_GOP).unwrap().value, 30);

    r.device
        .reqbufs(&mut s, OUTPUT, MemoryType::Mmap, 0)
        .unwrap();
    close(&mut r.device, s);
    r.device
        .reqbufs(&mut other, OUTPUT, MemoryType::Mmap, 1)
        .unwrap();
    close(&mut r.device, other);
    assert_eq!(r.device.active_session, None);
}

/// A codec that will not start fails the `STREAMON` that would have created it and leaves the queue
/// as it was, buffers queued for a retry.
#[test]
fn video_encoder_tests_a_codec_that_will_not_start_fails_streamon() {
    let mut r = rig_with(Some(libc::EBUSY));
    let mut s = session(&mut r.device);
    r.device
        .s_fmt(&mut s, OUTPUT, output_format(NV12, SIZE.0, SIZE.1))
        .unwrap();
    r.device
        .reqbufs(&mut s, OUTPUT, MemoryType::Mmap, 2)
        .unwrap();
    r.device
        .reqbufs(&mut s, CAPTURE, MemoryType::Mmap, 2)
        .unwrap();
    queue_frame(&mut r, &mut s, 0, 0x01, 0);
    r.device.streamon(&mut s, OUTPUT).unwrap();
    assert_eq!(r.device.streamon(&mut s, CAPTURE).err(), Some(libc::EBUSY));
    assert!(s.state.output_streaming);
    assert!(!s.state.capture_streaming);
    assert!(!s.codec_started);
    assert!(
        s.input.buffers[0].queued,
        "the frame stays queued for a retry"
    );
    close(&mut r.device, s);
}

/// Unknown commands are `EINVAL`, STOP and START come back with their flags cleared, STOP with
/// nothing streaming is a no-op; a drain with no raw frame makes the next CAPTURE buffer empty and
/// last, a command during a drain is `EBUSY`, and START resumes.
#[test]
fn encoder_cmd_matches_the_compliance_probe() {
    let mut r = rig();
    let mut s = session(&mut r.device);

    let mut bad = enc_cmd(0xffff_ffff);
    bad.flags = !0;
    assert_eq!(r.device.encoder_cmd(&mut s, bad).err(), Some(libc::EINVAL));
    assert_eq!(r.device.try_encoder_cmd(&s, bad).err(), Some(libc::EINVAL));
    let mut stop = enc_cmd(ENC_CMD_STOP);
    stop.flags = !0;
    let out = r.device.try_encoder_cmd(&s, stop).unwrap();
    assert_eq!((out.cmd, out.flags), (ENC_CMD_STOP, 0));
    assert!(r
        .device
        .encoder_cmd(&mut s, enc_cmd(ENC_CMD_STOP))
        .is_ok());
    let mut start = enc_cmd(ENC_CMD_START);
    start.flags = !0;
    assert_eq!(r.device.try_encoder_cmd(&s, start).unwrap().flags, 0);
    assert_eq!(
        r.device
            .encoder_cmd(&mut s, enc_cmd(ENC_CMD_PAUSE))
            .err(),
        Some(libc::EINVAL)
    );
    assert_eq!(
        r.device
            .encoder_cmd(&mut s, enc_cmd(ENC_CMD_RESUME))
            .err(),
        Some(libc::EINVAL)
    );

    // Both queues stream, no raw frame queued, STOP: the next CAPTURE buffer is LAST and empty.
    r.device
        .s_fmt(&mut s, OUTPUT, output_format(NV12, SIZE.0, SIZE.1))
        .unwrap();
    r.device
        .reqbufs(&mut s, OUTPUT, MemoryType::Mmap, 2)
        .unwrap();
    let sizeimage = pix(&r.device.g_fmt(&s, CAPTURE).unwrap()).sizeimage;
    r.device
        .reqbufs(&mut s, CAPTURE, MemoryType::Mmap, 2)
        .unwrap();
    r.device.streamon(&mut s, OUTPUT).unwrap();
    r.device.streamon(&mut s, CAPTURE).unwrap();
    assert!(r
        .device
        .encoder_cmd(&mut s, enc_cmd(ENC_CMD_STOP))
        .is_ok());
    assert_eq!(
        r.device
            .encoder_cmd(&mut s, enc_cmd(ENC_CMD_STOP))
            .err(),
        Some(libc::EBUSY)
    );
    assert_eq!(
        r.device
            .encoder_cmd(&mut s, enc_cmd(ENC_CMD_START))
            .err(),
        Some(libc::EBUSY)
    );
    r.device
        .qbuf(
            &mut s,
            mmap_buffer(CAPTURE, 0, sizeimage),
            vec![],
            PayloadValidity::all(),
        )
        .unwrap();
    collect_capture(&mut r, &mut s, 1);
    let last = dequeued_on(&r.events.borrow(), CAPTURE).pop().unwrap();
    assert!(last.has(FLAG_LAST));
    assert_eq!(last.first_plane_bytesused(), 0);
    assert_eq!(
        eos_events(&r.events.borrow()),
        0,
        "EOS only when subscribed"
    );
    // A CAPTURE buffer queued after the LAST one is held, not lent, until START.
    r.device
        .qbuf(
            &mut s,
            mmap_buffer(CAPTURE, 1, sizeimage),
            vec![],
            PayloadValidity::all(),
        )
        .unwrap();
    assert!(!s.output.buffers[1].lent);
    assert!(
        r.device
            .encoder_cmd(&mut s, enc_cmd(ENC_CMD_STOP))
            .is_ok(),
        "STOP after a drain is a no-op"
    );
    assert!(r
        .device
        .encoder_cmd(&mut s, enc_cmd(ENC_CMD_START))
        .is_ok());
    assert_eq!(r.log.borrow().flushes, 1, "START resumes the codec");
    assert!(s.output.buffers[1].lent);
    queue_frame(&mut r, &mut s, 0, 0x01, 0);
    collect_capture(&mut r, &mut s, 2);
    // The compliance probe's second case: STREAMOFF/STREAMON both, one CAPTURE buffer, STOP.
    r.device.streamoff(&mut s, OUTPUT).unwrap();
    r.device.streamoff(&mut s, CAPTURE).unwrap();
    r.device.streamon(&mut s, OUTPUT).unwrap();
    r.device.streamon(&mut s, CAPTURE).unwrap();
    r.device
        .qbuf(
            &mut s,
            mmap_buffer(CAPTURE, 0, sizeimage),
            vec![],
            PayloadValidity::all(),
        )
        .unwrap();
    assert!(r
        .device
        .encoder_cmd(&mut s, enc_cmd(ENC_CMD_STOP))
        .is_ok());
    collect_capture(&mut r, &mut s, 3);
    let last = dequeued_on(&r.events.borrow(), CAPTURE).pop().unwrap();
    assert!(last.has(FLAG_LAST));
    assert_eq!(last.first_plane_bytesused(), 0);
    close(&mut r.device, s);
}

/// `CREATE_BUFS` refuses the wrong plane count or a size smaller than the queue needs, and honours
/// a larger one; queueing a prepared buffer keeps the prepared payload.
#[test]
fn create_bufs_refuses_a_set_too_small_and_prepare_buf_keeps_its_payload() {
    let mut r = rig();
    let mut s = session(&mut r.device);
    r.device
        .s_fmt(&mut s, OUTPUT, output_format(NV12, SIZE.0, SIZE.1))
        .unwrap();
    let bitstream = pix(&r.device.g_fmt(&s, CAPTURE).unwrap()).sizeimage;

    let noplane = capture_format_sized(H264, 0, bitstream);
    assert_eq!(
        r.device
            .create_bufs(&mut s, 1, CAPTURE, MemoryType::Mmap, noplane)
            .err(),
        Some(libc::EINVAL)
    );
    let small = capture_format_sized(H264, 1, bitstream / 2);
    assert_eq!(
        r.device
            .create_bufs(&mut s, 1, CAPTURE, MemoryType::Mmap, small)
            .err(),
        Some(libc::EINVAL)
    );
    let mut small_raw = output_format(NV12, SIZE.0, SIZE.1);
    if let FormatBody::PixMp(p) = &mut small_raw.fmt {
        p.plane0.sizeimage = RAW_SIZEIMAGE - 1;
    }
    assert_eq!(
        r.device
            .create_bufs(&mut s, 1, OUTPUT, MemoryType::Mmap, small_raw)
            .err(),
        Some(libc::EINVAL)
    );

    let big = capture_format_sized(H264, 1, bitstream * 2);
    let reply = r
        .device
        .create_bufs(&mut s, 1, CAPTURE, MemoryType::Mmap, big)
        .unwrap();
    assert_eq!((reply.index, reply.count), (0, 1));
    assert_eq!(pix(&reply.format).sizeimage, bitstream * 2);
    assert_eq!(
        r.device.querybuf(&s, CAPTURE, 0).unwrap().first_plane_length(),
        bitstream * 2
    );

    // PREPARE_BUF on a guest-owned raw frame, then a QBUF whose own payload is nonsense.
    r.device
        .reqbufs(&mut s, OUTPUT, MemoryType::UserPtr, 1)
        .unwrap();
    let (pb, _) = userptr_buffer(OUTPUT, 0, 0x4000, RAW_SIZEIMAGE, RAW_SIZEIMAGE);
    let prepared = r
        .device
        .prepare_buf(&mut s, pb, vec![], PayloadValidity::all())
        .unwrap();
    assert!(prepared.has(FLAG_PREPARED));
    assert_eq!(prepared.first_plane_bytesused(), RAW_SIZEIMAGE);
    let (mut qb, sgs) = userptr_buffer(OUTPUT, 0, 0x4000, RAW_SIZEIMAGE, 0xdead_beef);
    qb.set_first_bytesused(0xdead_beef);
    let queued = r
        .device
        .qbuf(&mut s, qb, sgs, PayloadValidity::all())
        .unwrap();
    assert!(queued.has(FLAG_QUEUED));
    assert_eq!(
        queued.first_plane_bytesused(),
        RAW_SIZEIMAGE,
        "the prepared bytesused survived"
    );
    // Preparing a queued buffer, or twice, is refused.
    let (pb, _) = userptr_buffer(OUTPUT, 0, 0x4000, RAW_SIZEIMAGE, RAW_SIZEIMAGE);
    assert_eq!(
        r.device
            .prepare_buf(&mut s, pb, vec![], PayloadValidity::all())
            .err(),
        Some(libc::EINVAL)
    );

    close(&mut r.device, s);
}

/// End-of-stream and control events can be subscribed to; the initial state of a control is sent
/// when asked for, but for a class.
#[test]
fn events_are_eos_and_control_events_only() {
    let mut r = rig();
    let mut s = session(&mut r.device);
    assert!(r
        .device
        .subscribe_event(&mut s, EventType::Eos, no_flags())
        .is_ok());
    assert_eq!(
        r.device
            .subscribe_event(
                &mut s,
                EventType::SourceChange(0),
                no_flags()
            )
            .err(),
        Some(libc::EINVAL)
    );
    assert_eq!(
        r.device
            .subscribe_event(&mut s, EventType::VSync, no_flags())
            .err(),
        Some(libc::EINVAL)
    );
    r.device.s_ctrl(&mut s, CID_BITRATE, 6_000_000).unwrap();
    assert!(r
        .device
        .subscribe_event(
            &mut s,
            EventType::Ctrl(CID_BITRATE),
            send_initial()
        )
        .is_ok());
    assert!(r
        .device
        .subscribe_event(
            &mut s,
            EventType::Ctrl(V4L2_CID_CODEC_CLASS),
            send_initial()
        )
        .is_ok());
    assert!(r
        .device
        .subscribe_event(
            &mut s,
            EventType::Ctrl(CID_FORCE_KEY),
            send_initial()
        )
        .is_ok());
    assert!(r
        .device
        .subscribe_event(
            &mut s,
            EventType::Ctrl(CID_GOP),
            no_flags()
        )
        .is_ok());
    assert_eq!(
        r.device
            .subscribe_event(
                &mut s,
                EventType::Ctrl(CID_MIN_CAP),
                send_initial()
            )
            .err(),
        Some(libc::EINVAL)
    );
    assert_eq!(
        ctrl_events(&r.events.borrow()),
        vec![(CID_BITRATE, 6_000_000), (CID_FORCE_KEY, 0)]
    );
    let unsub = |type_: u32, id: u32| EventSubscription {
        type_,
        id,
        flags: 0,
    };
    assert!(r
        .device
        .unsubscribe_event(&mut s, unsub(EVENT_CTRL, CID_BITRATE))
        .is_ok());
    assert!(r
        .device
        .unsubscribe_event(&mut s, unsub(V4L2_EVENT_EOS, 0))
        .is_ok());
    assert!(!s.eos_subscribed);
    close(&mut r.device, s);
}

/// A codec that dies ends the session with one error event; whatever would touch it then is
/// `ENODEV`, and `REQBUFS(0)` and close still work.
#[test]
fn video_encoder_tests_a_codec_error_ends_the_session() {
    let mut r = rig();
    let mut s = session(&mut r.device);
    let _ = start_streaming(&mut r, &mut s);

    r.device
        .handle_event(&mut s, &EncoderEvent::Error("codec reclaimed".into()));
    assert!(s.dead);
    assert_eq!(errors(&r.events.borrow()), 1);
    assert_eq!(r.log.borrow().stops, 1);

    fill_mmap_output(&mut s, 0, 0x01);
    assert_eq!(
        r.device
            .qbuf(
                &mut s,
                mmap_buffer(OUTPUT, 0, RAW_SIZEIMAGE),
                vec![],
                PayloadValidity::all()
            )
            .err(),
        Some(libc::ENODEV)
    );
    assert_eq!(r.device.streamon(&mut s, OUTPUT).err(), Some(libc::ENODEV));
    assert_eq!(
        r.device.s_ctrl(&mut s, CID_BITRATE, 1_000_000).err(),
        Some(libc::ENODEV)
    );
    assert_eq!(
        r.device
            .encoder_cmd(&mut s, enc_cmd(ENC_CMD_STOP))
            .err(),
        Some(libc::ENODEV)
    );
    // A dead session takes no more pool space: the three allocating
    // ioctls are refused, and `REQBUFS(0)` still frees.
    assert_eq!(
        r.device.reqbufs(&mut s, CAPTURE, MemoryType::Mmap, 4).err(),
        Some(libc::ENODEV)
    );
    assert_eq!(
        r.device
            .create_bufs(
                &mut s,
                1,
                CAPTURE,
                MemoryType::Mmap,
                capture_format(H264, 1 << 20)
            )
            .err(),
        Some(libc::ENODEV)
    );
    assert_eq!(
        r.device
            .prepare_buf(
                &mut s,
                mmap_buffer(OUTPUT, 0, RAW_SIZEIMAGE),
                vec![],
                PayloadValidity::all()
            )
            .err(),
        Some(libc::ENODEV)
    );
    r.device
        .reqbufs(&mut s, CAPTURE, MemoryType::Mmap, 0)
        .unwrap();
    assert!(s.output.buffers.is_empty());
    assert_eq!(
        errors(&r.events.borrow()),
        1,
        "one error event, however many causes"
    );
    close(&mut r.device, s);
}

/// Frames lent while a drain ran are dropped by the codec without a word; START queues them again,
/// in order, in front of anything newer.
#[test]
fn enc_cmd_start_after_a_drain_queues_the_frames_the_codec_never_took() {
    let mut r = rig();
    let mut s = session(&mut r.device);
    let sizeimage = start_streaming(&mut r, &mut s);
    queue_frame(&mut r, &mut s, 0, 0x30, 0);
    queue_frame(&mut r, &mut s, 1, 0x31, 1);
    collect_capture(&mut r, &mut s, 2);
    collect_output(&mut r, &mut s, 2);

    // Drain, with two frames arriving while it runs: lent, parked behind the EOS.
    r.device
        .encoder_cmd(&mut s, enc_cmd(ENC_CMD_STOP))
        .unwrap();
    queue_frame(&mut r, &mut s, 2, 0x32, 2);
    queue_frame(&mut r, &mut s, 3, 0x33, 3);
    assert!(s.input.buffers[2].lent && s.input.buffers[3].lent);
    collect_capture(&mut r, &mut s, 3);
    let last = dequeued_on(&r.events.borrow(), CAPTURE).pop().unwrap();
    assert!(last.has(FLAG_LAST));
    assert_eq!(last.first_plane_bytesused(), 0);
    assert_eq!(s.drain, Drain::Done);
    assert!(
        s.input.buffers[2].lent && s.input.buffers[3].lent,
        "still with the backend when the LAST buffer is out"
    );

    // START: the backend flushes (and says nothing about the two), the device queues them again
    // in front of anything newer, and the resumed codec encodes them in order.
    r.device
        .encoder_cmd(&mut s, enc_cmd(ENC_CMD_START))
        .unwrap();
    assert_eq!(r.log.borrow().flushes, 1);
    assert_eq!(
        r.log.borrow().dropped_by_flush,
        2,
        "the backend dropped both without a report"
    );
    assert_eq!(s.drain, Drain::Idle);
    assert!(
        s.input.buffers[2].queued && s.input.buffers[3].queued,
        "queued again for the resumed codec"
    );
    // One CAPTURE buffer was left lent; a second one takes the other frame.
    r.device
        .qbuf(
            &mut s,
            mmap_buffer(CAPTURE, 0, sizeimage),
            vec![],
            PayloadValidity::all(),
        )
        .unwrap();
    collect_capture(&mut r, &mut s, 5);
    collect_output(&mut r, &mut s, 4);
    let packets = dequeued_on(&r.events.borrow(), CAPTURE);
    assert_eq!(
        (packets[3].timestamp.sec, packets[4].timestamp.sec),
        (2, 3),
        "the two frames, in order"
    );
    assert!(
        s.input.buffers.iter().all(|b| !b.queued && !b.lent),
        "every raw frame is back with the guest"
    );
    let units = parse_units(&capture_bytes(
        &s,
        packets[4].index as usize,
        packets[4].first_plane_bytesused() as usize,
    ));
    assert_eq!(
        units,
        vec![Unit::Frame {
            key: false,
            frame_no: 3,
            digest: digest_of(0x33, SIZE)
        }],
        "the same stream continues"
    );
    close(&mut r.device, s);
}

/// A flush the codec cannot complete ends the session; `STREAMOFF` itself succeeds.
#[test]
fn video_encoder_tests_streamoff_never_fails_a_backend_that_will_not_flush() {
    let mut r = rig();
    let mut s = session(&mut r.device);
    start_streaming(&mut r, &mut s);
    queue_frame(&mut r, &mut s, 0, 0x40, 0);
    collect_capture(&mut r, &mut s, 1);
    r.log.borrow_mut().fail_flush = Some(libc::ETIMEDOUT);
    assert_eq!(
        r.device.streamoff(&mut s, OUTPUT),
        Ok(()),
        "STREAMOFF answers Ok"
    );
    assert!(s.dead, "and the session is over");
    assert_eq!(errors(&r.events.borrow()), 1);
    assert_eq!(r.log.borrow().stops, 1, "the backend was joined");
    assert!(!s.state.output_streaming);
    assert!(
        s.input
            .buffers
            .iter()
            .chain(s.output.buffers.iter())
            .all(|b| !b.queued && !b.lent),
        "every buffer of both queues is back"
    );
    r.device
        .reqbufs(&mut s, OUTPUT, MemoryType::Mmap, 0)
        .unwrap();
    r.device
        .reqbufs(&mut s, CAPTURE, MemoryType::Mmap, 0)
        .unwrap();
    assert!(s.input.buffers.is_empty() && s.output.buffers.is_empty());
    assert_eq!(r.device.active_session, None);
    close(&mut r.device, s);
}

/// A client's bitstream buffer size is honoured up to four times the default for the raw size.
#[test]
fn s_fmt_capture_caps_the_bitstream_size_at_what_the_raw_size_can_need() {
    let mut r = rig();
    let mut s = session(&mut r.device);
    // 640x480 (the default raw size): the default is the 256 KiB floor, the cap 4 MiB.
    let set = pix(&r
        .device
        .s_fmt(&mut s, CAPTURE, capture_format(H264, 32 << 20))
        .unwrap());
    assert_eq!(set.sizeimage, 4 << 20);
    // A plausible ask is still honoured as it is.
    let set = pix(&r
        .device
        .s_fmt(&mut s, CAPTURE, capture_format(H264, 3 << 20))
        .unwrap());
    assert_eq!(set.sizeimage, 3 << 20);
    // At 4096x2160 the default is 6 635 520 bytes, so the cap is four times that.
    r.device
        .s_fmt(&mut s, OUTPUT, output_format(NV12, 4096, 2160))
        .unwrap();
    let tried = pix(&r
        .device
        .try_fmt(&s, CAPTURE, capture_format(H264, 32 << 20))
        .unwrap());
    assert_eq!(tried.sizeimage, 4 * (4096 * 2160 * 3 / 2 / 2));
    assert_eq!(
        nv12_sizeimage(u32::MAX, u32::MAX),
        u32::MAX,
        "and never an abort"
    );
    close(&mut r.device, s);
}

/// The crop is fitted to the codec: extents round up, an odd origin rounds down, nothing leaves the
/// frame, and a crop below the least size grows to it.
#[test]
fn s_selection_fits_the_crop_to_the_coded_format() {
    let mut r = rig();
    let mut s = session(&mut r.device);
    r.device
        .s_fmt(&mut s, OUTPUT, output_format(NV12, SIZE.0, SIZE.1))
        .unwrap();
    let crop = |r: &mut Rig, s: &mut Session, left: i32, top: i32, width: u32, height: u32| {
        let got = r
            .device
            .s_selection(
                s,
                SelectionType::Output,
                SelectionTarget::Crop,
                Rect {
                    left,
                    top,
                    width,
                    height,
                },
                SelectionFlags(0),
            )
            .unwrap();
        (got.left, got.top, got.width, got.height)
    };
    // H264: 16..4096 step 2. Odd extents round up (an encoder pads), an odd origin rounds down
    // (its chroma samples must exist whole), and nothing leaves the frame.
    assert_eq!(crop(&mut r, &mut s, 2, 2, 301, 201), (2, 2, 302, 202));
    assert_eq!(crop(&mut r, &mut s, 0, 0, 319, 239), (0, 0, 320, 240));
    assert_eq!(crop(&mut r, &mut s, 1, 3, 0, 0), (0, 2, 320, 238));
    assert_eq!(crop(&mut r, &mut s, 0, 0, 317, 237), (0, 0, 318, 238));
    // HEVC: 64..8192 step 8. A crop below the minimum grows to it; an origin too far in for a
    // minimum crop moves back.
    r.device
        .s_fmt(&mut s, CAPTURE, capture_format(HEVC, 0))
        .unwrap();
    assert_eq!(crop(&mut r, &mut s, 0, 0, 100, 100), (0, 0, 104, 104));
    assert_eq!(crop(&mut r, &mut s, 0, 0, 30, 30), (0, 0, 64, 64));
    assert_eq!(crop(&mut r, &mut s, 300, 0, 0, 0), (256, 0, 64, 240));
    let got = r
        .device
        .g_selection(&s, SelectionType::Output, SelectionTarget::Crop)
        .unwrap();
    assert_eq!((got.left, got.width), (256, 64));
    close(&mut r.device, s);
}

/// A drain the codec refuses leaves none pending.
#[test]
fn video_encoder_tests_a_refused_drain_leaves_no_drain_pending() {
    let mut r = rig();
    let mut s = session(&mut r.device);
    start_streaming(&mut r, &mut s);
    r.log.borrow_mut().fail_drain = Some(libc::EIO);
    assert_eq!(
        r.device
            .encoder_cmd(&mut s, enc_cmd(ENC_CMD_STOP))
            .err(),
        Some(libc::EIO)
    );
    assert_eq!(s.drain, Drain::Idle);
    r.device
        .encoder_cmd(&mut s, enc_cmd(ENC_CMD_STOP))
        .unwrap();
    assert_eq!(s.drain, Drain::Pending);
    collect_capture(&mut r, &mut s, 1);
    let last = dequeued_on(&r.events.borrow(), CAPTURE).pop().unwrap();
    assert!(last.has(FLAG_LAST));
    assert_eq!(eos_events(&r.events.borrow()), 1);
    close(&mut r.device, s);
}

/// Without a coded format, a way to be woken or a part of the backend's there is no session.
#[test]
fn a_session_needs_a_format_a_wake_up_and_a_backend() {
    let none = EncoderCapabilities {
        coded_formats: vec![],
        min_output_buffers: 1,
    };
    let mut r = rig_of(none, (None, None, None));
    assert_eq!(r.device.new_session(0).err(), Some(libc::ENODEV));
    let mut r = rig_of(caps(), (None, Some(libc::EMFILE), None));
    assert_eq!(r.device.new_session(0).err(), Some(libc::EMFILE));
    let mut r = rig_of(caps(), (None, None, Some(libc::EAGAIN)));
    assert_eq!(r.device.new_session(0).err(), Some(libc::EAGAIN));
    assert!(r.log.borrow().opened.is_empty());

    let mut r = rig();
    let s = new_session(&mut r.device, 9);
    assert_eq!(s.poll_fd(), Some(77));
    assert_eq!((s.id, s.coded_format, s.coded_size), (9, H264, (640, 480)));
    assert_eq!(s.timeperframe, (1, 30));
    close(&mut r.device, s);
    assert_eq!(r.log.borrow().opened, vec![9]);
    assert_eq!(r.log.borrow().closed, 1);
}

/// A buffer the codec refuses ends the session: the queueing is `EIO`, the guest is told once, and
/// every buffer is back.
#[test]
fn a_refused_buffer_ends_the_session() {
    for capture in [true, false] {
        let mut r = rig();
        let mut s = session(&mut r.device);
        let sizeimage = start_streaming(&mut r, &mut s);
        let refused = if capture {
            queue_frame(&mut r, &mut s, 0, 1, 1);
            collect_capture(&mut r, &mut s, 1);
            r.log.borrow_mut().fail_capture = Some(libc::ENOSPC);
            mmap_buffer(CAPTURE, 0, sizeimage)
        } else {
            r.log.borrow_mut().fail_encode = Some(libc::ENOSPC);
            mmap_buffer(OUTPUT, 1, RAW_SIZEIMAGE)
        };
        assert_eq!(
            r.device
                .qbuf(&mut s, refused, vec![], PayloadValidity::all())
                .err(),
            Some(libc::EIO)
        );
        assert!(s.dead && !s.codec_started);
        assert_eq!(errors(&r.events.borrow()), 1);
        assert!(matches!(
            r.events.borrow().last(),
            Some(V4l2Event::Error {
                session_id: 0,
                errno: libc::ENODEV
            })
        ));
        assert!(s.input.buffers.iter().all(|b| !b.queued && !b.lent));
        assert!(s.output.buffers.iter().all(|b| !b.queued && !b.lent));
        // Nothing more is said, and nothing but freeing is left to do.
        process(&mut r.device, &mut s);
        assert_eq!(
            r.device.streamon(&mut s, OUTPUT).err(),
            Some(libc::ENODEV)
        );
        r.device.streamoff(&mut s, CAPTURE).unwrap();
        r.device.reqbufs(&mut s, CAPTURE, MemoryType::Mmap, 0).unwrap();
        assert_eq!(
            r.device.reqbufs(&mut s, CAPTURE, MemoryType::Mmap, 1).err(),
            Some(libc::ENODEV)
        );
        assert_eq!(errors(&r.events.borrow()), 1);
        assert_eq!(r.log.borrow().released_while_capture_active, 0);
        close(&mut r.device, s);
        assert_eq!(r.device.allocator.allocator.inner.live_buffers(), 0);
    }
}

/// Each `MMAP` offset names one buffer, and a buffer the guest maps keeps its offset and its memory
/// until it is unmapped.
#[test]
fn mapped_buffers_outlive_their_queue() {
    let mut r = rig();
    let mut s = session(&mut r.device);
    r.device.reqbufs(&mut s, OUTPUT, MemoryType::Mmap, 3).unwrap();
    r.device.reqbufs(&mut s, CAPTURE, MemoryType::Mmap, 3).unwrap();
    let mut offsets = Vec::new();
    for queue in [OUTPUT, CAPTURE] {
        for i in 0..3 {
            let b = r.device.querybuf(&s, queue, i).unwrap();
            assert_eq!(b.plane0.m % 4096, 0);
            offsets.push(b.plane0.m as u32);
        }
    }
    let mut distinct = offsets.clone();
    distinct.sort();
    distinct.dedup();
    assert_eq!(distinct.len(), 6);

    let held = offsets[4];
    let size = pix(&r.device.g_fmt(&s, CAPTURE).unwrap()).sizeimage as u64;
    assert_eq!(
        r.device.do_mmap(&mut s, 1, held),
        Ok((0x8000_0000 + held as u64, size))
    );
    assert_eq!(r.device.do_mmap(&mut s, 1, held + 1), Err(libc::EINVAL));
    r.device.reqbufs(&mut s, OUTPUT, MemoryType::Mmap, 0).unwrap();
    r.device.reqbufs(&mut s, CAPTURE, MemoryType::Mmap, 0).unwrap();
    assert_eq!(r.device.allocator.allocator.inner.live_buffers(), 1);
    // The offset is not given out again, and no longer names a buffer of the session.
    assert_eq!(r.device.do_mmap(&mut s, 1, held), Err(libc::EINVAL));
    r.device.reqbufs(&mut s, CAPTURE, MemoryType::Mmap, 4).unwrap();
    for i in 0..4 {
        let b = r.device.querybuf(&s, CAPTURE, i).unwrap();
        assert_ne!(b.plane0.m, held as u64);
    }
    assert_eq!(r.device.do_munmap(1), Err(libc::EINVAL));
    assert_eq!(r.device.allocator.allocator.inner.live_buffers(), 5);
    assert_eq!(r.device.do_munmap(0x8000_0000 + held as u64), Ok(()));
    assert_eq!(r.device.allocator.allocator.inner.live_buffers(), 4);
    close(&mut r.device, s);
    assert_eq!(r.device.allocator.allocator.inner.live_buffers(), 0);
}

/// Buffers are allocated all or not at all.
#[test]
fn a_short_pool_gives_no_buffer() {
    let mut r = rig();
    let mut s = session(&mut r.device);
    let size = pix(&r.device.g_fmt(&s, OUTPUT).unwrap()).sizeimage;
    r.device.allocator.allocator.room = 2 * size as u64 + 1;
    assert_eq!(
        r.device.reqbufs(&mut s, OUTPUT, MemoryType::Mmap, 3).err(),
        Some(libc::ENOMEM)
    );
    assert_eq!(r.device.allocator.allocator.inner.live_buffers(), 0);
    assert!(s.input.buffers.is_empty());
    assert_eq!(r.device.active_session, None);
    assert_eq!(
        r.device.reqbufs(&mut s, OUTPUT, MemoryType::Mmap, 2).unwrap().count,
        2
    );
    assert_eq!(r.device.querybuf(&s, OUTPUT, 0).unwrap().plane0.m, 0);
    // What is asked for beyond what a queue has room for is not granted.
    r.device.allocator.allocator.room = 1 << 32;
    assert_eq!(
        r.device.reqbufs(&mut s, OUTPUT, MemoryType::UserPtr, 99).unwrap().count,
        32
    );
    let more = r
        .device
        .create_bufs(
            &mut s,
            5,
            OUTPUT,
            MemoryType::UserPtr,
            r_format(size),
        )
        .unwrap();
    assert_eq!((more.index, more.count), (32, 0));
    close(&mut r.device, s);
}

/// A raw format with the given buffer size.
fn r_format(sizeimage: u32) -> V4l2Format {
    let mut p = PixFormatMplane::empty();
    p.num_planes = 1;
    p.plane0.sizeimage = sizeimage;
    V4l2Format::mplane(OUTPUT, p)
}

/// The mapper's own errno is the guest's.
#[test]
fn a_failed_mapping_is_answered_with_its_errno() {
    let mut r = rig();
    let mut s = session(&mut r.device);
    r.device.reqbufs(&mut s, OUTPUT, MemoryType::UserPtr, 1).unwrap();
    let size = pix(&r.device.g_fmt(&s, OUTPUT).unwrap()).sizeimage;
    for (gpa, errno) in [
        (GUEST_BASE as u64, libc::EFAULT),
        (GUEST_MEMORY as u64, libc::EINVAL),
    ] {
        let (b, sgs) = userptr_buffer(OUTPUT, 0, gpa, size, 0);
        assert_eq!(
            r.device.qbuf(&mut s, b, sgs, PayloadValidity::all()).err(),
            Some(errno)
        );
        assert!(!s.input.buffers[0].queued);
    }
    let (b, _) = userptr_buffer(OUTPUT, 0, 0, size, 0);
    assert_eq!(
        r.device.qbuf(&mut s, b, vec![], PayloadValidity::all()).err(),
        Some(libc::EINVAL)
    );
    let (b, sgs) = userptr_buffer(OUTPUT, 0, 0, size, 0);
    r.device.qbuf(&mut s, b, sgs, PayloadValidity::all()).unwrap();
    assert_eq!(*r.guest.live_mappings.borrow(), 1);
    // Read by the codec, not written.
    assert_eq!(*r.guest.writable.borrow(), vec![false, false, false]);
    close(&mut r.device, s);
    assert_eq!(*r.guest.live_mappings.borrow(), 0);
}

/// A report about a buffer the codec does not hold is nothing; no more is reported of a buffer than
/// it holds; a buffer's flags are the frame's.
#[test]
fn reports_are_held_to_what_was_lent() {
    let mut r = rig();
    let mut s = session(&mut r.device);
    let sizeimage = start_streaming(&mut r, &mut s);
    let report = |index, bytesused, kind, is_last| EncoderEvent::FrameEncoded {
        index,
        bytesused,
        timestamp: ts(5),
        kind,
        is_last,
    };
    let events = &mut s.backend.session.events;
    events.push_back(EncoderEvent::InputBufferDone(0));
    events.push_back(EncoderEvent::InputBufferDone(99));
    events.push_back(report(99, 1, FrameKind::Key, true));
    process(&mut r.device, &mut s);
    assert!(r.events.borrow().is_empty());
    assert_eq!((s.drain, s.sequence), (Drain::Idle, 0));

    let events = &mut s.backend.session.events;
    events.push_back(report(0, u32::MAX, FrameKind::Inter, false));
    events.push_back(report(0, 1, FrameKind::Inter, false));
    events.push_back(report(1, 7, FrameKind::Bidirectional, false));
    events.push_back(report(2, 7, FrameKind::Headers, false));
    events.push_back(report(3, 0, FrameKind::Key, true));
    process(&mut r.device, &mut s);
    let seen: Vec<(u32, u32, u32, u32)> = dequeued(&r.events.borrow())
        .iter()
        .map(|b| (b.index, b.first_plane_bytesused(), b.flags, b.sequence))
        .collect();
    assert_eq!(
        seen,
        vec![
            (0, sizeimage, FLAG_TIMESTAMP_COPY | FLAG_PFRAME, 0),
            (1, 7, FLAG_TIMESTAMP_COPY | FLAG_BFRAME, 1),
            (2, 7, FLAG_TIMESTAMP_COPY, 2),
            (3, 0, FLAG_TIMESTAMP_COPY | FLAG_LAST, 3),
        ]
    );
    // The end of the stream comes after the last buffer.
    assert_eq!(s.drain, Drain::Done);
    assert_eq!(eos_events(&r.events.borrow()[4..]), 1);
    assert_eq!(r.events.borrow().len(), 5);
    close(&mut r.device, s);
}

/// The sequence number wraps.
#[test]
fn sequence_numbers_start_over() {
    let mut r = rig();
    let mut s = session(&mut r.device);
    start_streaming(&mut r, &mut s);
    s.sequence = u32::MAX;
    for i in 0..2 {
        queue_frame(&mut r, &mut s, i, 1, 1);
    }
    collect_capture(&mut r, &mut s, 2);
    let seen: Vec<u32> = dequeued_on(&r.events.borrow(), CAPTURE)
        .iter()
        .map(|b| b.sequence)
        .collect();
    assert_eq!(seen, vec![u32::MAX, 0]);
    close(&mut r.device, s);
}

/// What a client is told of a format, an interval or a rectangle is what it set, and trying what it
/// is told changes nothing.
#[test]
fn what_is_set_is_told() {
    let mut r = rig();
    let mut s = session(&mut r.device);
    for fourcc in [H264, HEVC, VP80] {
        for size in [0, 0x1_2345, 1 << 30] {
            let set = r
                .device
                .s_fmt(&mut s, CAPTURE, capture_format(fourcc, size))
                .unwrap();
            assert_eq!(r.device.g_fmt(&s, CAPTURE).unwrap(), set);
            assert_eq!(r.device.try_fmt(&s, CAPTURE, set).unwrap(), set);
        }
        for (w, h) in [(1, 1), (321, 243), (9999, 9999)] {
            let set = r
                .device
                .s_fmt(&mut s, OUTPUT, output_format(NV12, w, h))
                .unwrap();
            assert_eq!(r.device.g_fmt(&s, OUTPUT).unwrap(), set);
            assert_eq!(r.device.try_fmt(&s, OUTPUT, set).unwrap(), set);
        }
        for (num, den) in [(1, 25), (0, 3), (1, 1000), (1000, 1)] {
            let set = r.device.s_parm(&mut s, parm(OUTPUT, num, den)).unwrap();
            assert_eq!(r.device.g_parm(&s, OUTPUT).unwrap(), set);
        }
        let asked = Rect {
            left: 3,
            top: -4,
            width: 100,
            height: 7,
        };
        let set = r
            .device
            .s_selection(
                &mut s,
                SelectionType::Output,
                SelectionTarget::Crop,
                asked,
                SelectionFlags(0),
            )
            .unwrap();
        assert_eq!(
            r.device
                .g_selection(&s, SelectionType::Output, SelectionTarget::Crop)
                .unwrap(),
            set
        );
    }
    close(&mut r.device, s);
}

/// A set of controls is applied one after the other once all are accepted; what the codec refuses
/// then is the answer.
#[test]
fn a_bitrate_the_codec_refuses_is_not_kept() {
    let mut r = rig();
    let mut s = session(&mut r.device);
    start_streaming(&mut r, &mut s);
    let before = g_ext(&mut r, &s, CID_BITRATE).unwrap();
    r.log.borrow_mut().fail_bitrate = Some(libc::EPERM);
    assert_eq!(
        s_ext(&mut r, &mut s, CID_BITRATE, before + 1000),
        Err(libc::EPERM)
    );
    assert_eq!(g_ext(&mut r, &s, CID_BITRATE), Ok(before));
    assert_eq!(
        s_ext(&mut r, &mut s, CID_BITRATE, before + 1000),
        Ok(before + 1000)
    );
    assert_eq!(g_ext(&mut r, &s, CID_BITRATE), Ok(before + 1000));
    // The same value again is not news for the codec.
    s_ext(&mut r, &mut s, CID_BITRATE, before + 1000).unwrap();
    assert_eq!(r.log.borrow().bitrates, vec![before as u32 + 1000]);
    close(&mut r.device, s);
}

/// Polls nothing.
struct NoPoller;

impl SessionPoller for NoPoller {
    fn add_session(&mut self, fd: i32, _session_id: u32) -> Result<(), i32> {
        assert_eq!(fd, 77);
        Ok(())
    }

    fn remove_session(&mut self, fd: i32) {
        assert_eq!(fd, 77);
    }
}

/// From the guest's bytes to the answer's: a client opens a session, sets formats and controls,
/// allocates, maps and closes.
#[test]
fn a_session_is_served_over_the_wire() {
    let mut runner = VirtioMediaDeviceRunner::new(rig().device, NoPoller);
    let mut send = |words: &[u32], payload: &[u8]| {
        let mut bytes = Vec::new();
        for w in words {
            bytes.extend_from_slice(&w.to_le_bytes());
        }
        bytes.extend_from_slice(payload);
        let mut out = Vec::new();
        runner.handle_command(&mut ChainReader::new(&bytes), &mut out);
        out
    };
    let word = |out: &[u8], at: usize| u32::from_le_bytes(out[at..at + 4].try_into().unwrap());
    let opened = send(&[1, 0], &[]);
    assert_eq!((word(&opened, 0), word(&opened, 8)), (0, 0));

    // S_FMT(CAPTURE) of a format there is none of: the first one, sized by default.
    let mut fmt = vec![0u8; 208];
    fmt[0..4].copy_from_slice(&9u32.to_le_bytes());
    let out = send(&[3, 0, 0, 5], &fmt);
    assert_eq!(out.len(), 8 + 208);
    assert_eq!(word(&out, 0), 0);
    assert_eq!((word(&out, 16), word(&out, 20)), (640, 480));
    assert_eq!(word(&out, 24), FOURCC_H264);
    assert_eq!(word(&out, 36), DEFAULT_BITSTREAM_FLOOR.max(640 * 480 * 3 / 4));

    // REQBUFS(CAPTURE, MMAP, 2), then MMAP and MUNMAP of the second.
    let mut req = vec![0u8; 20];
    req[0..4].copy_from_slice(&2u32.to_le_bytes());
    req[4..8].copy_from_slice(&9u32.to_le_bytes());
    req[8..12].copy_from_slice(&1u32.to_le_bytes());
    let out = send(&[3, 0, 0, 8], &req);
    assert_eq!((word(&out, 0), word(&out, 8)), (0, 2));
    let mut query = vec![0u8; 88];
    query[0..4].copy_from_slice(&1u32.to_le_bytes());
    query[4..8].copy_from_slice(&9u32.to_le_bytes());
    query[72..76].copy_from_slice(&1u32.to_le_bytes());
    let out = send(&[3, 0, 0, 9], &query);
    assert_eq!(out.len(), 8 + 88 + 64);
    let offset = word(&out, 8 + 88 + 8);
    let out = send(&[4, 0, 0, 1, offset], &[]);
    assert_eq!(word(&out, 0), 0);
    assert_eq!(word(&out, 8), 0x8000_0000 + offset);
    let out = send(&[5, 0, 0x8000_0000 + offset, 0], &[]);
    assert_eq!(word(&out, 0), 0);

    // S_EXT_CTRLS of a control there is none of: the header goes back with the error index.
    let mut ctrls = vec![0u8; 52];
    ctrls[0..4].copy_from_slice(&CODEC_CLASS.to_le_bytes());
    ctrls[4..8].copy_from_slice(&1u32.to_le_bytes());
    ctrls[32..36].copy_from_slice(&CID_FRAME_RC.to_le_bytes());
    let out = send(&[3, 0, 0, 72], &ctrls);
    assert_eq!(out.len(), 8 + 32 + 20);
    assert_eq!(word(&out, 0), libc::EINVAL as u32);
    assert_eq!(word(&out, 16), 1);
    // TRY_EXT_CTRLS names the control.
    let out = send(&[3, 0, 0, 73], &ctrls);
    assert_eq!((word(&out, 0), word(&out, 16)), (libc::EINVAL as u32, 0));
    // What an encoder does not offer.
    let out = send(&[3, 0, 0, 38], &[]);
    assert_eq!(word(&out, 0), libc::ENOTTY as u32);
    // A closed session is none.
    assert!(send(&[2, 0, 0, 0], &[]).is_empty());
    let out = send(&[3, 0, 0, 5], &fmt);
    assert_eq!(word(&out, 0), libc::EINVAL as u32);
    assert_eq!(
        runner.device.allocator.allocator.inner.live_buffers(),
        0
    );
}
