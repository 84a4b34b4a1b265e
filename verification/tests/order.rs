//! The order in which a codec, guest mappings, the allocator and the guest hear of things: the
//! codec lets go of a buffer before its memory goes away, and its memory goes away before the guest
//! is told.
use std::cell::RefCell;
use std::rc::Rc;

use virtio_media::devices::video_encoder::backend::{
    EncoderConfig, EncoderEvent, FrameKind, InputBuffer, OutputBuffer, VideoEncoderBackend,
    VideoEncoderBackendSession,
};
use virtio_media::devices::video_encoder::capabilities::{
    CodedFormat, EncoderCapabilities, VideoBitrateMode,
};
use virtio_media::devices::video_encoder::device::VideoEncoder;
use virtio_media::devices::video_encoder::ranges::{ControlRange, FrameRateRange, SizeRange};
use virtio_media::devices::video_encoder::session::VideoEncoderSession;
use virtio_media::devices::video_encoder::stream_ioctls::{ENC_CMD_START, ENC_CMD_STOP};
use virtio_media::host::{
    GuestMappingError, GuestMemoryRange, HostBuffer, VirtioMediaBufferAllocator,
    VirtioMediaEventQueue, VirtioMediaGuestMemoryMapper, VirtioMediaHostMemoryMapper,
};
use virtio_media::ioctl::types::EncoderCmd;
use virtio_media::payload::PayloadValidity;
use virtio_media::protocol::{SgEntry, V4l2Event};
use virtio_media::v4l2::{MemoryType, PixelFormat, QueueType, Timeval, V4l2Buffer, FOURCC_H264};

const OUTPUT: QueueType = QueueType::VideoOutputMplane;
const CAPTURE: QueueType = QueueType::VideoCaptureMplane;

#[derive(Clone, Copy, Debug, PartialEq)]
enum Step {
    Encode(u32),
    Capture(u32),
    Flush,
    Stop,
    /// A mapping of guest memory, which began there, is gone.
    Unmapped(u64),
    Released,
    /// The guest is told that the buffer of the queue is done.
    Told(QueueType, u32),
    ToldError,
    Closed,
}

type Steps = Rc<RefCell<Vec<Step>>>;

struct Codec {
    steps: Steps,
    events: Rc<RefCell<Vec<EncoderEvent>>>,
    refuse_flush: Rc<RefCell<bool>>,
}

impl VideoEncoderBackendSession for Codec {
    fn start(&mut self, _: &EncoderConfig) -> Result<(), i32> {
        Ok(())
    }

    fn encode(&mut self, buffer: InputBuffer) -> Result<(), i32> {
        self.steps.borrow_mut().push(Step::Encode(buffer.index));
        Ok(())
    }

    fn use_as_capture(&mut self, buffer: OutputBuffer) -> Result<(), i32> {
        self.steps.borrow_mut().push(Step::Capture(buffer.index));
        Ok(())
    }

    fn set_bitrate(&mut self, _: u32) -> Result<(), i32> {
        Ok(())
    }

    fn force_keyframe(&mut self) -> Result<(), i32> {
        Ok(())
    }

    fn flush(&mut self) -> Result<(), i32> {
        self.steps.borrow_mut().push(Step::Flush);
        if *self.refuse_flush.borrow() {
            Err(libc::EIO)
        } else {
            Ok(())
        }
    }

    fn drain(&mut self) -> Result<(), i32> {
        Ok(())
    }

    fn stop(&mut self) {
        self.steps.borrow_mut().push(Step::Stop);
    }

    fn take_events(&mut self) -> Vec<EncoderEvent> {
        self.events.borrow_mut().drain(..).collect()
    }
}

struct Backend {
    caps: EncoderCapabilities,
    steps: Steps,
    events: Rc<RefCell<Vec<EncoderEvent>>>,
    refuse_flush: Rc<RefCell<bool>>,
}

impl VideoEncoderBackend for Backend {
    type Session = Codec;
    type Sink = ();

    fn capabilities(&self) -> &EncoderCapabilities {
        &self.caps
    }

    fn new_sink(&mut self) -> Result<((), i32), i32> {
        Ok(((), 5))
    }

    fn new_session(&mut self, _: u32, _: ()) -> Result<Codec, i32> {
        Ok(Codec {
            steps: self.steps.clone(),
            events: self.events.clone(),
            refuse_flush: self.refuse_flush.clone(),
        })
    }

    fn close_session(&mut self, _: Codec) {
        self.steps.borrow_mut().push(Step::Closed);
    }
}

struct Events(Steps);

impl VirtioMediaEventQueue for Events {
    fn send_event(&mut self, event: V4l2Event) {
        self.0.borrow_mut().push(match event {
            V4l2Event::DequeueBuffer { buffer, .. } => Step::Told(buffer.queue, buffer.index),
            _ => Step::ToldError,
        });
    }
}

struct Guest(Steps);

struct Mapping {
    steps: Steps,
    start: u64,
    len: usize,
}

impl GuestMemoryRange for Mapping {
    fn as_ptr(&self) -> usize {
        self.start as usize
    }

    fn as_mut_ptr(&mut self) -> usize {
        self.start as usize
    }

    fn len(&self) -> usize {
        self.len
    }
}

impl Drop for Mapping {
    fn drop(&mut self) {
        self.steps.borrow_mut().push(Step::Unmapped(self.start));
    }
}

impl VirtioMediaGuestMemoryMapper for Guest {
    type GuestMemoryMapping = Mapping;

    fn new_mapping(&self, sgs: Vec<SgEntry>) -> Result<Mapping, Option<GuestMappingError>> {
        Ok(Mapping {
            steps: self.0.clone(),
            start: sgs[0].start,
            len: sgs.iter().map(|sg| sg.len as usize).sum(),
        })
    }
}

struct Pool(Steps);

impl VirtioMediaBufferAllocator for Pool {
    type Handle = ();

    fn allocate(&mut self, len: u64) -> Result<HostBuffer<()>, i32> {
        Ok(HostBuffer::from_raw_parts((), 0, len, 0x1000, None))
    }

    fn release(&mut self, _: HostBuffer<()>) {
        self.0.borrow_mut().push(Step::Released);
    }
}

struct Mapper;

impl VirtioMediaHostMemoryMapper for Mapper {
    type Handle = ();

    fn add_mapping(&mut self, _: &HostBuffer<()>, offset: u64, _: bool) -> Result<u64, i32> {
        Ok(offset)
    }

    fn remove_mapping(&mut self, _: u64) -> Result<(), i32> {
        Ok(())
    }
}

type Device = VideoEncoder<Backend, Events, Guest, Mapper, Pool>;
type Session = VideoEncoderSession<Mapping, (), Codec>;

struct Rig {
    device: Device,
    session: Session,
    steps: Steps,
    events: Rc<RefCell<Vec<EncoderEvent>>>,
    refuse_flush: Rc<RefCell<bool>>,
}

const RAW: u64 = 0x10_0000;
const CODED: u64 = 0x20_0000;

/// Both queues stream, and one buffer of each is with the codec.
fn lent(memory: MemoryType) -> Rig {
    let steps = Steps::default();
    let events = Rc::new(RefCell::new(Vec::new()));
    let refuse_flush = Rc::new(RefCell::new(false));
    let caps = EncoderCapabilities {
        coded_formats: vec![CodedFormat {
            fourcc: PixelFormat(FOURCC_H264),
            width: SizeRange::new(16, 4096, 2),
            height: SizeRange::new(16, 4096, 2),
            frame_rate: FrameRateRange { min: 1, max: 120 },
            bitrate: ControlRange::new(64_000, 100_000_000, 2_000_000),
            gop_size: ControlRange::new(0, 300, 30),
            bitrate_modes: vec![VideoBitrateMode::VariableBitrate],
            profiles: vec![],
            levels: vec![],
            qp: None,
        }],
        min_output_buffers: 1,
    };
    let mut device = VideoEncoder::new(
        Backend {
            caps,
            steps: steps.clone(),
            events: events.clone(),
            refuse_flush: refuse_flush.clone(),
        },
        Events(steps.clone()),
        Guest(steps.clone()),
        Mapper,
        Pool(steps.clone()),
    );
    let mut session = device.new_session(1).ok().unwrap();
    for (queue, start) in [(OUTPUT, RAW), (CAPTURE, CODED)] {
        device.reqbufs(&mut session, queue, memory, 1).unwrap();
        let mut buffer = V4l2Buffer::new(queue, 0, memory);
        let len = session.sizeimage(queue.direction_or_einval().unwrap());
        let mut regions = vec![];
        if memory == MemoryType::UserPtr {
            buffer.set_first_length(len);
            regions = vec![vec![SgEntry::new(start, len)]];
        }
        if queue == OUTPUT {
            buffer.set_first_bytesused(len);
        }
        device
            .qbuf(&mut session, buffer, regions, PayloadValidity::all())
            .unwrap();
        device.streamon(&mut session, queue).unwrap();
    }
    let r = Rig {
        device,
        session,
        steps,
        events,
        refuse_flush,
    };
    assert_eq!(r.took(), vec![Step::Capture(0), Step::Encode(0)]);
    r
}

impl Rig {
    fn took(&self) -> Vec<Step> {
        std::mem::take(&mut *self.steps.borrow_mut())
    }
}

#[test]
fn raw_frames_are_dropped_before_they_are_unmapped() {
    let mut r = lent(MemoryType::UserPtr);
    r.device.streamoff(&mut r.session, OUTPUT).unwrap();
    assert_eq!(r.took(), vec![Step::Flush, Step::Unmapped(RAW)]);

    // A codec that cannot drop them is joined, and the session is over.
    let mut r = lent(MemoryType::UserPtr);
    *r.refuse_flush.borrow_mut() = true;
    r.device.streamoff(&mut r.session, OUTPUT).unwrap();
    assert_eq!(
        r.took(),
        vec![
            Step::Flush,
            Step::Stop,
            Step::Unmapped(RAW),
            Step::Unmapped(CODED),
            Step::ToldError
        ]
    );
}

#[test]
fn the_codec_is_joined_before_bitstream_buffers_are_unmapped() {
    let mut r = lent(MemoryType::UserPtr);
    r.device.streamoff(&mut r.session, CAPTURE).unwrap();
    assert_eq!(r.took(), vec![Step::Stop, Step::Unmapped(CODED)]);
}

#[test]
fn the_codec_is_joined_before_buffers_are_freed() {
    let mut r = lent(MemoryType::Mmap);
    r.device
        .reqbufs(&mut r.session, CAPTURE, MemoryType::Mmap, 0)
        .unwrap();
    assert_eq!(r.took(), vec![Step::Stop, Step::Released]);
    // Nothing is with the codec any more.
    r.device
        .reqbufs(&mut r.session, OUTPUT, MemoryType::Mmap, 0)
        .unwrap();
    assert_eq!(r.took(), vec![Step::Released]);
}

#[test]
fn a_failed_codec_is_joined_before_its_buffers_are_unmapped() {
    let mut r = lent(MemoryType::UserPtr);
    r.events
        .borrow_mut()
        .push(EncoderEvent::Error("gone".to_string()));
    r.device.process_events(&mut r.session).unwrap();
    assert_eq!(
        r.took(),
        vec![
            Step::Stop,
            Step::Unmapped(RAW),
            Step::Unmapped(CODED),
            Step::ToldError
        ]
    );
}

#[test]
fn a_closed_session_joins_the_codec_before_its_buffers_go() {
    let mut r = lent(MemoryType::UserPtr);
    r.device.close_session(r.session);
    assert_eq!(
        std::mem::take(&mut *r.steps.borrow_mut()),
        vec![
            Step::Stop,
            Step::Unmapped(RAW),
            Step::Unmapped(CODED),
            Step::Closed
        ]
    );
    let mut r = lent(MemoryType::Mmap);
    r.device.close_session(r.session);
    assert_eq!(
        std::mem::take(&mut *r.steps.borrow_mut()),
        vec![Step::Stop, Step::Released, Step::Released, Step::Closed]
    );
}

/// What the codec reports done is unmapped before the guest hears of it; what it does not report
/// stays with it.
#[test]
fn reported_buffers_are_unmapped_before_the_guest_is_told() {
    let mut r = lent(MemoryType::UserPtr);
    r.events.borrow_mut().push(EncoderEvent::InputBufferDone(0));
    r.device.process_events(&mut r.session).unwrap();
    assert_eq!(r.took(), vec![Step::Unmapped(RAW), Step::Told(OUTPUT, 0)]);
    assert!(r.session.output.buffers[0].lent);
    r.events.borrow_mut().push(EncoderEvent::FrameEncoded {
        index: 0,
        bytesused: 1,
        timestamp: Timeval { sec: 0, usec: 0 },
        kind: FrameKind::Key,
        is_last: false,
    });
    r.device.process_events(&mut r.session).unwrap();
    assert_eq!(r.took(), vec![Step::Unmapped(CODED), Step::Told(CAPTURE, 0)]);
    assert!(!r.session.output.buffers[0].lent);
}

/// Resuming after a drain has the codec drop its raw frames before they are lent to it again. They
/// stay mapped.
#[test]
fn resuming_flushes_before_frames_are_lent_again() {
    let mut r = lent(MemoryType::UserPtr);
    let command = |cmd| EncoderCmd {
        cmd,
        flags: 0,
        data: (0, 0, 0, 0),
    };
    r.device
        .encoder_cmd(&mut r.session, command(ENC_CMD_STOP))
        .unwrap();
    r.events.borrow_mut().push(EncoderEvent::FrameEncoded {
        index: 0,
        bytesused: 0,
        timestamp: Timeval { sec: 0, usec: 0 },
        kind: FrameKind::Key,
        is_last: true,
    });
    r.device.process_events(&mut r.session).unwrap();
    assert_eq!(r.took(), vec![Step::Unmapped(CODED), Step::Told(CAPTURE, 0)]);
    r.device
        .encoder_cmd(&mut r.session, command(ENC_CMD_START))
        .unwrap();
    assert_eq!(r.took(), vec![Step::Flush, Step::Encode(0)]);
}
