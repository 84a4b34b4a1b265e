//! What a guest asks with an ioctl, read from the bytes it sends.
use vstd::prelude::*;

use super::codes::V4l2Ioctl;
use super::read::{
    buffer_readable, controls_readable, fields_of_a_part, is_guest_buffer, is_guest_controls,
    memory_from, memory_of, queue_from, queue_of, GuestControls, GuestV4l2Buffer,
};
use super::reply::IoctlReply;
use super::types::{
    ctrl_id_and_flags, event_of, parse_ctrl_id_and_flags, subscribe_flags_of, which_of, CtrlWhich,
    EncoderCmd, EventSubscription, EventType, ExtControls, QueryCtrlFlags, SelectionFlags,
    SubscribeEventFlags,
};
use crate::bytes::{
    le32, le64, read_i32, read_u32, read_u64, signed32, to_array, ChainReader,
};
use crate::errno::{EINVAL, ENOTTY};
use crate::formats::{
    patch_streamparm, FormatBody, PixFormatMplane, PlanePixFormat, SelectionTarget, SelectionType,
    StreamParm, V4l2Format,
};
use crate::v4l2::{MemoryType, QueueType, Rect};

verus! {

/// The audio mode of a tuner.
#[derive(Clone, Copy, Debug, PartialEq, Eq, Structural)]
pub enum TunerMode {
    Mono,
    Stereo,
    Lang1,
    Lang2,
    Lang1Lang2,
}

/// The tuner mode a number stands for.
pub open spec fn tuner_mode_of(v: int) -> Option<TunerMode> {
    if v == 0 {
        Some(TunerMode::Mono)
    } else if v == 1 {
        Some(TunerMode::Stereo)
    } else if v == 2 {
        Some(TunerMode::Lang2)
    } else if v == 3 {
        Some(TunerMode::Lang1)
    } else if v == 4 {
        Some(TunerMode::Lang1Lang2)
    } else {
        None
    }
}

impl TunerMode {
    /// The tuner mode a number stands for.
    pub fn n(v: u32) -> (r: Option<TunerMode>)
        ensures
            r == tuner_mode_of(v as int),
    {
        match v {
            0 => Some(TunerMode::Mono),
            1 => Some(TunerMode::Stereo),
            2 => Some(TunerMode::Lang2),
            3 => Some(TunerMode::Lang1),
            4 => Some(TunerMode::Lang1Lang2),
            _ => None,
        }
    }
}

/// What a tuner receives.
#[derive(Clone, Copy, Debug, PartialEq, Eq, Structural)]
pub enum TunerType {
    Radio,
    AnalogTv,
    DigitalTv,
    Sdr,
    Rf,
}

/// The tuner type a number stands for.
pub open spec fn tuner_type_of(v: int) -> Option<TunerType> {
    if v == 1 {
        Some(TunerType::Radio)
    } else if v == 2 {
        Some(TunerType::AnalogTv)
    } else if v == 3 {
        Some(TunerType::DigitalTv)
    } else if v == 4 {
        Some(TunerType::Sdr)
    } else if v == 5 {
        Some(TunerType::Rf)
    } else {
        None
    }
}

impl TunerType {
    /// The tuner type a number stands for.
    pub fn n(v: u32) -> (r: Option<TunerType>)
        ensures
            r == tuner_type_of(v as int),
    {
        match v {
            1 => Some(TunerType::Radio),
            2 => Some(TunerType::AnalogTv),
            3 => Some(TunerType::DigitalTv),
            4 => Some(TunerType::Sdr),
            5 => Some(TunerType::Rf),
            _ => None,
        }
    }
}

/// The mode of an audio input.
#[derive(Clone, Copy, Debug, PartialEq, Eq, Structural)]
pub enum AudioMode {
    /// Automatic volume level.
    Avl,
}

/// The audio mode a number stands for.
pub open spec fn audio_mode_of(v: int) -> Option<AudioMode> {
    if v == 1 {
        Some(AudioMode::Avl)
    } else {
        None
    }
}

impl AudioMode {
    /// The audio mode a number stands for.
    pub fn n(v: u32) -> (r: Option<AudioMode>)
        ensures
            r == audio_mode_of(v as int),
    {
        if v == 1 {
            Some(AudioMode::Avl)
        } else {
            None
        }
    }
}

/// What a modulator transmits; the flags V4L2 defines are below 32.
#[derive(Clone, Copy, Debug, PartialEq, Eq, Structural)]
pub struct TunerTransmissionFlags(pub u32);

/// `struct v4l2_dv_timings`, as it travels.
pub type DvTimings = [u8; 132];

/// `struct v4l2_decoder_cmd`, as it travels.
pub type DecoderCmd = [u8; 72];

/// One ioctl with its parameters read and checked.
#[allow(inconsistent_fields)]
pub enum IoctlRequest {
    EnumFmt { queue: QueueType, index: u32 },
    GFmt { queue: QueueType },
    SFmt { queue: QueueType, format: V4l2Format },
    ReqBufs { queue: QueueType, memory: MemoryType, count: u32 },
    /// `planes` is how many plane descriptions the guest has room for.
    QueryBuf { queue: QueueType, index: u32, planes: u32 },
    QBuf { input: GuestV4l2Buffer },
    StreamOn { queue: QueueType },
    StreamOff { queue: QueueType },
    GParm { queue: QueueType },
    SParm { parm: StreamParm },
    GStd,
    SStd { std: u64 },
    EnumStd { index: u32 },
    EnumInput { index: u32 },
    GCtrl { id: u32 },
    SCtrl { id: u32, value: i32 },
    GTuner { index: u32 },
    STuner { index: u32, mode: TunerMode },
    GAudio,
    SAudio { index: u32, mode: Option<AudioMode> },
    QueryCtrl { id: u32, flags: QueryCtrlFlags },
    QueryMenu { id: u32, index: u32 },
    GInput,
    SInput { input: i32 },
    GOutput,
    SOutput { output: i32 },
    EnumOutput { index: u32 },
    GAudOut,
    SAudOut { index: u32 },
    GModulator { index: u32 },
    SModulator { index: u32, flags: TunerTransmissionFlags },
    GFrequency { tuner: u32 },
    SFrequency { tuner: u32, type_: TunerType, frequency: u32 },
    QueryStd,
    TryFmt { queue: QueueType, format: V4l2Format },
    EnumAudio { index: u32 },
    EnumAudOut { index: u32 },
    GExtCtrls { which: CtrlWhich, input: GuestControls },
    SExtCtrls { which: CtrlWhich, input: GuestControls },
    TryExtCtrls { which: CtrlWhich, input: GuestControls },
    EnumFrameSizes { index: u32, pixel_format: u32 },
    EnumFrameIntervals { index: u32, pixel_format: u32, width: u32, height: u32 },
    GEncIndex,
    EncoderCmd { cmd: EncoderCmd },
    TryEncoderCmd { cmd: EncoderCmd },
    SDvTimings { timings: DvTimings },
    GDvTimings,
    SubscribeEvent { event: EventType, flags: SubscribeEventFlags },
    UnsubscribeEvent { event: EventSubscription },
    CreateBufs { count: u32, queue: QueueType, memory: MemoryType, format: V4l2Format },
    PrepareBuf { input: GuestV4l2Buffer },
    /// `raw` is the whole request, which the answer repeats.
    GSelection { sel_type: SelectionType, sel_target: SelectionTarget, raw: [u8; 64] },
    SSelection {
        sel_type: SelectionType,
        sel_target: SelectionTarget,
        sel_rect: Rect,
        sel_flags: SelectionFlags,
        raw: [u8; 64],
    },
    DecoderCmd { cmd: DecoderCmd },
    TryDecoderCmd { cmd: DecoderCmd },
    /// `raw` is the start of the request, which the answer repeats.
    EnumDvTimings { index: u32, raw: [u8; 16] },
    QueryDvTimings,
    DvTimingsCap,
    EnumFreqBands { tuner: u32, type_: TunerType, index: u32 },
    QueryExtCtrl { id: u32, flags: QueryCtrlFlags },
}

/// Whether a format is the `struct v4l2_format` at `at`.
pub open spec fn is_format_at(f: V4l2Format, b: Seq<u8>, at: int) -> bool {
    &&& f.type_ == le32(b, at)
    &&& match queue_of(le32(b, at)) {
        Some(queue) if queue.multiplanar() => f.fmt matches FormatBody::PixMp(p) && is_pix_mp_at(
            p,
            b,
            at + 8,
        ),
        _ => f.fmt matches FormatBody::Raw(raw) && raw@ == b.subrange(at + 8, at + 208),
    }
}

/// The layout of one plane of a format, at `at`.
pub open spec fn plane_format_at(b: Seq<u8>, at: int) -> PlanePixFormat {
    PlanePixFormat { sizeimage: le32(b, at) as u32, bytesperline: le32(b, at + 4) as u32 }
}

/// Whether a multi-planar format is the `struct v4l2_pix_format_mplane` at `at`.
pub open spec fn is_pix_mp_at(p: PixFormatMplane, b: Seq<u8>, at: int) -> bool {
    &&& p.width == le32(b, at)
    &&& p.height == le32(b, at + 4)
    &&& p.pixelformat == le32(b, at + 8)
    &&& p.field == le32(b, at + 12)
    &&& p.colorspace == le32(b, at + 16)
    &&& p.plane0 == plane_format_at(b, at + 20)
    &&& forall|i: int| 0 <= i < 7 ==> #[trigger] p.more@[i] == plane_format_at(b, at + 40 + 20 * i)
    &&& p.num_planes == b[at + 180]
    &&& p.flags == b[at + 181]
    &&& p.ycbcr_enc == b[at + 182]
    &&& p.quantization == b[at + 183]
    &&& p.xfer_func == b[at + 184]
}

/// The `struct v4l2_streamparm` at the start of some bytes, with no buffers for reading and
/// writing.
pub open spec fn streamparm_of(b: Seq<u8>) -> StreamParm {
    StreamParm {
        type_: le32(b, 0) as u32,
        capability: le32(b, 4) as u32,
        mode: le32(b, 8) as u32,
        numerator: le32(b, 12) as u32,
        denominator: le32(b, 16) as u32,
        extendedmode: le32(b, 20) as u32,
        buffers: 0,
    }
}

/// The `struct v4l2_encoder_cmd` at the start of some bytes.
pub open spec fn encoder_cmd_of(b: Seq<u8>) -> EncoderCmd {
    EncoderCmd {
        cmd: le32(b, 0) as u32,
        flags: le32(b, 4) as u32,
        data: (le64(b, 8) as u64, le64(b, 16) as u64, le64(b, 24) as u64, le64(b, 32) as u64),
    }
}

/// The `struct v4l2_event_subscription` at the start of some bytes.
pub open spec fn subscription_of(b: Seq<u8>) -> EventSubscription {
    EventSubscription {
        type_: le32(b, 0) as u32,
        id: le32(b, 4) as u32,
        flags: le32(b, 8) as u32,
    }
}

/// The selection type a number stands for.
pub open spec fn selection_type_of(v: int) -> Option<SelectionType> {
    if v == 1 {
        Some(SelectionType::Capture)
    } else if v == 2 {
        Some(SelectionType::Output)
    } else {
        None
    }
}

/// The selection target a number stands for.
pub open spec fn selection_target_of(v: int) -> Option<SelectionTarget> {
    if v == 0 {
        Some(SelectionTarget::Crop)
    } else if v == 1 {
        Some(SelectionTarget::CropDefault)
    } else if v == 2 {
        Some(SelectionTarget::CropBounds)
    } else if v == 3 {
        Some(SelectionTarget::NativeSize)
    } else if v == 0x100 {
        Some(SelectionTarget::Compose)
    } else if v == 0x101 {
        Some(SelectionTarget::ComposeDefault)
    } else if v == 0x102 {
        Some(SelectionTarget::ComposeBounds)
    } else if v == 0x103 {
        Some(SelectionTarget::ComposePadded)
    } else {
        None
    }
}

/// The rectangle of the `struct v4l2_selection` at the start of some bytes.
pub open spec fn selection_rect_of(b: Seq<u8>) -> Rect {
    Rect {
        left: signed32(le32(b, 12)) as i32,
        top: signed32(le32(b, 16)) as i32,
        width: le32(b, 20) as u32,
        height: le32(b, 24) as u32,
    }
}

/// A request as it was read, or the answer refusing it.
pub type Decoded = Result<IoctlRequest, IoctlReply>;

/// Whether a request was refused with an errno.
pub open spec fn refused(r: Decoded, errno: i32) -> bool {
    r matches Err(IoctlReply::Refused { errno: e }) && e == errno
}

/// Whether a request is the expected one where its parameters are in order, and refused with
/// `EINVAL` where they are not.
pub open spec fn asks(r: Decoded, in_order: bool, request: IoctlRequest) -> bool {
    if in_order {
        r matches Ok(q) && q == request
    } else {
        refused(r, EINVAL)
    }
}

/// Whether a set of controls that names no values it can be about was refused: the answer repeats
/// the set, with the error index given.
pub open spec fn refused_controls(r: Decoded, b: Seq<u8>, error_idx: u32) -> bool {
    r matches Err(IoctlReply::RefusedControls { errno, ctrls, ctrl_array }) && errno == EINVAL
        && ctrls == (ExtControls { error_idx, ..super::read::header_of(b) }) && ctrl_array@
        == super::read::controls_of(b)
}

/// Whether a number's tuner transmission flags are all defined.
pub open spec fn transmission_flags_known(v: int) -> bool {
    v <= 0x1f
}

/// What a guest's bytes ask with an ioctl.
pub open spec fn decoded(ioctl: V4l2Ioctl, b: Seq<u8>, r: Decoded) -> bool {
    let n = b.len();
    let w0 = le32(b, 0) as u32;
    let w1 = le32(b, 4) as u32;
    match ioctl {
        V4l2Ioctl::VIDIOC_ENUM_FMT => asks(
            r,
            n >= 64 && queue_of(le32(b, 4)) is Some,
            IoctlRequest::EnumFmt { queue: queue_of(le32(b, 4))->0, index: w0 },
        ),
        V4l2Ioctl::VIDIOC_G_FMT => asks(
            r,
            n >= 208 && queue_of(le32(b, 0)) is Some,
            IoctlRequest::GFmt { queue: queue_of(le32(b, 0))->0 },
        ),
        V4l2Ioctl::VIDIOC_S_FMT => if n >= 208 && queue_of(le32(b, 0)) is Some {
            r matches Ok(IoctlRequest::SFmt { queue, format }) && queue == queue_of(le32(b, 0))->0
                && is_format_at(format, b, 0)
        } else {
            refused(r, EINVAL)
        },
        V4l2Ioctl::VIDIOC_TRY_FMT => if n >= 208 && queue_of(le32(b, 0)) is Some {
            r matches Ok(IoctlRequest::TryFmt { queue, format }) && queue == queue_of(
                le32(b, 0),
            )->0 && is_format_at(format, b, 0)
        } else {
            refused(r, EINVAL)
        },
        V4l2Ioctl::VIDIOC_REQBUFS => asks(
            r,
            n >= 20 && queue_of(le32(b, 4)) is Some && (memory_of(le32(b, 8)) == Some(
                MemoryType::Mmap,
            ) || memory_of(le32(b, 8)) == Some(MemoryType::UserPtr)),
            IoctlRequest::ReqBufs {
                queue: queue_of(le32(b, 4))->0,
                memory: memory_of(le32(b, 8))->0,
                count: w0,
            },
        ),
        V4l2Ioctl::VIDIOC_QUERYBUF => asks(
            r,
            n >= 88 && queue_of(le32(b, 4)) is Some,
            IoctlRequest::QueryBuf {
                queue: queue_of(le32(b, 4))->0,
                index: w0,
                planes: if queue_of(le32(b, 4))->0.multiplanar() {
                    le32(b, 72) as u32
                } else {
                    0
                },
            },
        ),
        V4l2Ioctl::VIDIOC_QBUF => if buffer_readable(b) {
            r matches Ok(IoctlRequest::QBuf { input }) && is_guest_buffer(input, b)
        } else {
            refused(r, EINVAL)
        },
        V4l2Ioctl::VIDIOC_PREPARE_BUF => if buffer_readable(b) {
            r matches Ok(IoctlRequest::PrepareBuf { input }) && is_guest_buffer(input, b)
        } else {
            refused(r, EINVAL)
        },
        V4l2Ioctl::VIDIOC_STREAMON => asks(
            r,
            n >= 4 && queue_of(le32(b, 0)) is Some,
            IoctlRequest::StreamOn { queue: queue_of(le32(b, 0))->0 },
        ),
        V4l2Ioctl::VIDIOC_STREAMOFF => asks(
            r,
            n >= 4 && queue_of(le32(b, 0)) is Some,
            IoctlRequest::StreamOff { queue: queue_of(le32(b, 0))->0 },
        ),
        V4l2Ioctl::VIDIOC_G_PARM => asks(
            r,
            n >= 204 && queue_of(le32(b, 0)) is Some,
            IoctlRequest::GParm { queue: queue_of(le32(b, 0))->0 },
        ),
        V4l2Ioctl::VIDIOC_S_PARM => asks(
            r,
            n >= 204,
            IoctlRequest::SParm { parm: streamparm_of(b) },
        ),
        V4l2Ioctl::VIDIOC_G_STD => asks(r, true, IoctlRequest::GStd),
        V4l2Ioctl::VIDIOC_S_STD => asks(
            r,
            n >= 8,
            IoctlRequest::SStd { std: le64(b, 0) as u64 },
        ),
        V4l2Ioctl::VIDIOC_ENUMSTD => asks(r, n >= 72, IoctlRequest::EnumStd { index: w0 }),
        V4l2Ioctl::VIDIOC_ENUMINPUT => asks(r, n >= 80, IoctlRequest::EnumInput { index: w0 }),
        V4l2Ioctl::VIDIOC_G_CTRL => asks(r, n >= 8, IoctlRequest::GCtrl { id: w0 }),
        V4l2Ioctl::VIDIOC_S_CTRL => asks(
            r,
            n >= 8,
            IoctlRequest::SCtrl { id: w0, value: signed32(le32(b, 4)) as i32 },
        ),
        V4l2Ioctl::VIDIOC_G_TUNER => asks(r, n >= 84, IoctlRequest::GTuner { index: w0 }),
        V4l2Ioctl::VIDIOC_S_TUNER => asks(
            r,
            n >= 84 && tuner_mode_of(le32(b, 56)) is Some,
            IoctlRequest::STuner { index: w0, mode: tuner_mode_of(le32(b, 56))->0 },
        ),
        V4l2Ioctl::VIDIOC_G_AUDIO => asks(r, true, IoctlRequest::GAudio),
        V4l2Ioctl::VIDIOC_S_AUDIO => asks(
            r,
            n >= 52,
            IoctlRequest::SAudio { index: w0, mode: audio_mode_of(le32(b, 40)) },
        ),
        V4l2Ioctl::VIDIOC_QUERYCTRL => asks(
            r,
            n >= 68,
            IoctlRequest::QueryCtrl {
                id: ctrl_id_and_flags(le32(b, 0)).0 as u32,
                flags: ctrl_id_and_flags(le32(b, 0)).1,
            },
        ),
        V4l2Ioctl::VIDIOC_QUERYMENU => asks(
            r,
            n >= 44,
            IoctlRequest::QueryMenu { id: w0, index: w1 },
        ),
        V4l2Ioctl::VIDIOC_G_INPUT => asks(r, true, IoctlRequest::GInput),
        V4l2Ioctl::VIDIOC_S_INPUT => asks(
            r,
            n >= 4,
            IoctlRequest::SInput { input: signed32(le32(b, 0)) as i32 },
        ),
        V4l2Ioctl::VIDIOC_G_OUTPUT => asks(r, true, IoctlRequest::GOutput),
        V4l2Ioctl::VIDIOC_S_OUTPUT => asks(
            r,
            n >= 4,
            IoctlRequest::SOutput { output: signed32(le32(b, 0)) as i32 },
        ),
        V4l2Ioctl::VIDIOC_ENUMOUTPUT => asks(r, n >= 72, IoctlRequest::EnumOutput { index: w0 }),
        V4l2Ioctl::VIDIOC_G_AUDOUT => asks(r, true, IoctlRequest::GAudOut),
        V4l2Ioctl::VIDIOC_S_AUDOUT => asks(r, n >= 52, IoctlRequest::SAudOut { index: w0 }),
        V4l2Ioctl::VIDIOC_G_MODULATOR => asks(
            r,
            n >= 68,
            IoctlRequest::GModulator { index: w0 },
        ),
        V4l2Ioctl::VIDIOC_S_MODULATOR => asks(
            r,
            n >= 68 && transmission_flags_known(le32(b, 48)),
            IoctlRequest::SModulator {
                index: w0,
                flags: TunerTransmissionFlags(le32(b, 48) as u32),
            },
        ),
        V4l2Ioctl::VIDIOC_G_FREQUENCY => asks(
            r,
            n >= 44,
            IoctlRequest::GFrequency { tuner: w0 },
        ),
        V4l2Ioctl::VIDIOC_S_FREQUENCY => asks(
            r,
            n >= 44 && tuner_type_of(le32(b, 4)) is Some,
            IoctlRequest::SFrequency {
                tuner: w0,
                type_: tuner_type_of(le32(b, 4))->0,
                frequency: le32(b, 8) as u32,
            },
        ),
        V4l2Ioctl::VIDIOC_QUERYSTD => asks(r, true, IoctlRequest::QueryStd),
        V4l2Ioctl::VIDIOC_ENUMAUDIO => asks(r, n >= 52, IoctlRequest::EnumAudio { index: w0 }),
        V4l2Ioctl::VIDIOC_ENUMAUDOUT => asks(r, n >= 52, IoctlRequest::EnumAudOut { index: w0 }),
        V4l2Ioctl::VIDIOC_G_EXT_CTRLS => if !controls_readable(b) {
            refused(r, EINVAL)
        } else {
            match which_of(super::read::header_of(b)) {
                Some(w) => r matches Ok(IoctlRequest::GExtCtrls { which, input }) && which == w
                    && is_guest_controls(input, b),
                None => refused_controls(r, b, w1),
            }
        },
        V4l2Ioctl::VIDIOC_S_EXT_CTRLS => if !controls_readable(b) {
            refused(r, EINVAL)
        } else {
            match which_of(super::read::header_of(b)) {
                Some(w) => r matches Ok(IoctlRequest::SExtCtrls { which, input }) && which == w
                    && is_guest_controls(input, b),
                None => refused_controls(r, b, w1),
            }
        },
        V4l2Ioctl::VIDIOC_TRY_EXT_CTRLS => if !controls_readable(b) {
            refused(r, EINVAL)
        } else {
            match which_of(super::read::header_of(b)) {
                Some(w) => r matches Ok(IoctlRequest::TryExtCtrls { which, input }) && which == w
                    && is_guest_controls(input, b),
                None => refused_controls(r, b, 0),
            }
        },
        V4l2Ioctl::VIDIOC_ENUM_FRAMESIZES => asks(
            r,
            n >= 44,
            IoctlRequest::EnumFrameSizes { index: w0, pixel_format: w1 },
        ),
        V4l2Ioctl::VIDIOC_ENUM_FRAMEINTERVALS => asks(
            r,
            n >= 52,
            IoctlRequest::EnumFrameIntervals {
                index: w0,
                pixel_format: w1,
                width: le32(b, 8) as u32,
                height: le32(b, 12) as u32,
            },
        ),
        V4l2Ioctl::VIDIOC_G_ENC_INDEX => asks(r, true, IoctlRequest::GEncIndex),
        V4l2Ioctl::VIDIOC_ENCODER_CMD => asks(
            r,
            n >= 40,
            IoctlRequest::EncoderCmd { cmd: encoder_cmd_of(b) },
        ),
        V4l2Ioctl::VIDIOC_TRY_ENCODER_CMD => asks(
            r,
            n >= 40,
            IoctlRequest::TryEncoderCmd { cmd: encoder_cmd_of(b) },
        ),
        V4l2Ioctl::VIDIOC_S_DV_TIMINGS => if n >= 132 {
            r matches Ok(IoctlRequest::SDvTimings { timings }) && timings@ == b.take(132)
        } else {
            refused(r, EINVAL)
        },
        V4l2Ioctl::VIDIOC_G_DV_TIMINGS => asks(r, n >= 132, IoctlRequest::GDvTimings),
        V4l2Ioctl::VIDIOC_SUBSCRIBE_EVENT => asks(
            r,
            n >= 32 && event_of(subscription_of(b)) is Some && subscribe_flags_of(
                le32(b, 8) as u32,
            ) is Some,
            IoctlRequest::SubscribeEvent {
                event: event_of(subscription_of(b))->0,
                flags: subscribe_flags_of(le32(b, 8) as u32)->0,
            },
        ),
        V4l2Ioctl::VIDIOC_UNSUBSCRIBE_EVENT => asks(
            r,
            n >= 32,
            IoctlRequest::UnsubscribeEvent { event: subscription_of(b) },
        ),
        V4l2Ioctl::VIDIOC_CREATE_BUFS => if n >= 256 && queue_of(le32(b, 16)) is Some && memory_of(
            le32(b, 8),
        ) is Some {
            r matches Ok(IoctlRequest::CreateBufs { count, queue, memory, format }) && count == w1
                && queue == queue_of(le32(b, 16))->0 && memory == memory_of(le32(b, 8))->0
                && is_format_at(format, b, 16)
        } else {
            refused(r, EINVAL)
        },
        V4l2Ioctl::VIDIOC_G_SELECTION => if n >= 64 && selection_type_of(le32(b, 0)) is Some
            && selection_target_of(le32(b, 4)) is Some {
            r matches Ok(IoctlRequest::GSelection { sel_type, sel_target, raw }) && Some(sel_type)
                == selection_type_of(le32(b, 0)) && Some(sel_target) == selection_target_of(
                le32(b, 4),
            ) && raw@ == b.take(64)
        } else {
            refused(r, EINVAL)
        },
        V4l2Ioctl::VIDIOC_S_SELECTION => if n >= 64 && selection_type_of(le32(b, 0)) is Some
            && selection_target_of(le32(b, 4)) is Some && le32(b, 8) < 8 {
            r matches Ok(
                IoctlRequest::SSelection { sel_type, sel_target, sel_rect, sel_flags, raw },
            ) && Some(sel_type) == selection_type_of(le32(b, 0)) && Some(sel_target)
                == selection_target_of(le32(b, 4)) && sel_rect == selection_rect_of(b)
                && sel_flags.0 == le32(b, 8) && raw@ == b.take(64)
        } else {
            refused(r, EINVAL)
        },
        V4l2Ioctl::VIDIOC_DECODER_CMD => if n >= 72 {
            r matches Ok(IoctlRequest::DecoderCmd { cmd }) && cmd@ == b.take(72)
        } else {
            refused(r, EINVAL)
        },
        V4l2Ioctl::VIDIOC_TRY_DECODER_CMD => if n >= 72 {
            r matches Ok(IoctlRequest::TryDecoderCmd { cmd }) && cmd@ == b.take(72)
        } else {
            refused(r, EINVAL)
        },
        V4l2Ioctl::VIDIOC_ENUM_DV_TIMINGS => if n >= 148 {
            r matches Ok(IoctlRequest::EnumDvTimings { index, raw }) && index == w0 && raw@
                == b.take(16)
        } else {
            refused(r, EINVAL)
        },
        V4l2Ioctl::VIDIOC_QUERY_DV_TIMINGS => asks(r, true, IoctlRequest::QueryDvTimings),
        V4l2Ioctl::VIDIOC_DV_TIMINGS_CAP => asks(r, n >= 144, IoctlRequest::DvTimingsCap),
        V4l2Ioctl::VIDIOC_ENUM_FREQ_BANDS => asks(
            r,
            n >= 64 && tuner_type_of(le32(b, 4)) is Some,
            IoctlRequest::EnumFreqBands {
                tuner: w0,
                type_: tuner_type_of(le32(b, 4))->0,
                index: le32(b, 8) as u32,
            },
        ),
        V4l2Ioctl::VIDIOC_QUERY_EXT_CTRL => asks(
            r,
            n >= 232,
            IoctlRequest::QueryExtCtrl {
                id: ctrl_id_and_flags(le32(b, 0)).0 as u32,
                flags: ctrl_id_and_flags(le32(b, 0)).1,
            },
        ),
        // What a virtual device cannot offer, or offers in another way.
        _ => refused(r, ENOTTY),
    }
}

/// The `struct` of `n` bytes at the start of what is left.
fn take_struct<'a>(reader: &mut ChainReader<'a>, n: usize) -> (r: Option<&'a [u8]>)
    requires
        old(reader).wf(),
    ensures
        final(reader).wf(),
        ({
            let b = old(reader).rest();
            match r {
                Some(p) => {
                    &&& b.len() >= n
                    &&& p@ == b.take(n as int)
                    &&& forall|k: int| 0 <= k && k + 4 <= n ==> #[trigger] le32(p@, k) == le32(b, k)
                    &&& forall|k: int| 0 <= k && k + 8 <= n ==> #[trigger] le64(p@, k) == le64(b, k)
                },
                None => b.len() < n,
            }
        }),
{
    let ghost b = reader.rest();
    match reader.take(n) {
        Some(p) => {
            proof {
                assert(p@ =~= b.subrange(0, n as int));
                fields_of_a_part(b, 0, p@);
                assert forall|k: int| 0 <= k && k + 4 <= n implies #[trigger] le32(p@, k) == le32(
                    b,
                    k,
                ) by {
                    assert(le32(p@, k) == le32(b, 0 + k));
                }
                assert forall|k: int| 0 <= k && k + 8 <= n implies #[trigger] le64(p@, k) == le64(
                    b,
                    k,
                ) by {
                    assert(le64(p@, k) == le64(b, 0 + k));
                }
            }
            Some(p)
        },
        None => None,
    }
}

/// The selection target a number stands for.
fn selection_target_from(v: u32) -> (r: Option<SelectionTarget>)
    ensures
        r == selection_target_of(v as int),
{
    let r = SelectionTarget::n(v);
    proof {
        if let Some(t) = r {
            let c = choose|c: SelectionTarget| c.code() == v;
            assert(c.code() == t.code());
        } else if exists|t: SelectionTarget| t.code() == v {
            let c = choose|c: SelectionTarget| c.code() == v;
            assert(c.code() <= 3 || 0x100 <= c.code() <= 0x103);
        }
    }
    r
}

/// The layout of one plane of a format.
fn read_plane_format(p: &[u8], at: usize) -> (r: PlanePixFormat)
    requires
        at + 8 <= p@.len(),
    ensures
        r == plane_format_at(p@, at as int),
{
    let sizeimage: u32 = read_u32(p, at);
    assert(at + 8 <= p.len());
    PlanePixFormat { sizeimage, bytesperline: read_u32(p, at + 4) }
}

/// The `struct v4l2_format` at a place in a slice.
fn read_format(p: &[u8], at: usize) -> (r: V4l2Format)
    requires
        at + 208 <= p@.len(),
    ensures
        is_format_at(r, p@, at as int),
{
    assert(at + 208 <= p.len());
    let type_: u32 = read_u32(p, at);
    let multiplanar: bool = match queue_from(type_) {
        Some(queue) => queue.is_multiplanar(),
        None => false,
    };
    let f: usize = at + 8;
    if multiplanar {
        V4l2Format {
            type_,
            fmt: FormatBody::PixMp(
                PixFormatMplane {
                    width: read_u32(p, f),
                    height: read_u32(p, f + 4),
                    pixelformat: read_u32(p, f + 8),
                    field: read_u32(p, f + 12),
                    colorspace: read_u32(p, f + 16),
                    plane0: read_plane_format(p, f + 20),
                    more: [
                        read_plane_format(p, f + 40),
                        read_plane_format(p, f + 60),
                        read_plane_format(p, f + 80),
                        read_plane_format(p, f + 100),
                        read_plane_format(p, f + 120),
                        read_plane_format(p, f + 140),
                        read_plane_format(p, f + 160),
                    ],
                    num_planes: p[f + 180],
                    flags: p[f + 181],
                    ycbcr_enc: p[f + 182],
                    quantization: p[f + 183],
                    xfer_func: p[f + 184],
                },
            ),
        }
    } else {
        let raw: &[u8] = vstd::slice::slice_subrange(p, f, f + 200);
        V4l2Format { type_, fmt: FormatBody::Raw(to_array::<200>(raw)) }
    }
}

/// A format in a part of some bytes is the same in the whole.
proof fn format_of_a_part(f: V4l2Format, p: Seq<u8>, b: Seq<u8>, at: int)
    requires
        0 <= at,
        at + 208 <= p.len() <= b.len(),
        p == b.take(p.len() as int),
        is_format_at(f, p, at),
    ensures
        is_format_at(f, b, at),
{
    assert(p =~= b.subrange(0, p.len() as int));
    fields_of_a_part(b, 0, p);
    assert forall|k: int| 0 <= k && k + 4 <= p.len() implies #[trigger] le32(b, k) == le32(
        p,
        k,
    ) by {
        assert(le32(p, k) == le32(b, 0 + k));
    }
    assert(p.subrange(at + 8, at + 208) =~= b.subrange(at + 8, at + 208));
}

/// The `struct v4l2_streamparm` in a slice.
fn read_streamparm(p: &[u8]) -> (r: StreamParm)
    requires
        p@.len() == 204,
    ensures
        (StreamParm { buffers: 0, ..r }) == streamparm_of(p@),
{
    StreamParm {
        type_: read_u32(p, 0),
        capability: read_u32(p, 4),
        mode: read_u32(p, 8),
        numerator: read_u32(p, 12),
        denominator: read_u32(p, 16),
        extendedmode: read_u32(p, 20),
        buffers: read_u32(p, 24),
    }
}

/// The `struct v4l2_encoder_cmd` in a slice.
fn read_encoder_cmd(p: &[u8]) -> (r: EncoderCmd)
    requires
        p@.len() == 40,
    ensures
        r == encoder_cmd_of(p@),
{
    EncoderCmd {
        cmd: read_u32(p, 0),
        flags: read_u32(p, 4),
        data: (read_u64(p, 8), read_u64(p, 16), read_u64(p, 24), read_u64(p, 32)),
    }
}

/// The `struct v4l2_event_subscription` in a slice.
fn read_subscription(p: &[u8]) -> (r: EventSubscription)
    requires
        p@.len() == 32,
    ensures
        r == subscription_of(p@),
{
    EventSubscription { type_: read_u32(p, 0), id: read_u32(p, 4), flags: read_u32(p, 8) }
}

/// The rectangle of the `struct v4l2_selection` in a slice.
fn read_selection_rect(p: &[u8]) -> (r: Rect)
    requires
        p@.len() == 64,
    ensures
        r == selection_rect_of(p@),
{
    Rect {
        left: read_i32(p, 12),
        top: read_i32(p, 16),
        width: read_u32(p, 20),
        height: read_u32(p, 24),
    }
}

/// The answer to parameters that are not in order.
fn einval() -> (r: Decoded)
    ensures
        refused(r, EINVAL),
{
    Err(IoctlReply::Refused { errno: EINVAL })
}

/// The answer to a set of controls that names no values it can be about.
fn refuse_controls(input: GuestControls, error_idx: u32) -> (r: Decoded)
    ensures
        r matches Err(IoctlReply::RefusedControls { errno, ctrls, ctrl_array }) && errno == EINVAL
            && ctrls == (ExtControls { error_idx, ..input.ctrls }) && ctrl_array@
            == input.ctrl_array@,
{
    let mut ctrls: ExtControls = input.ctrls;
    ctrls.error_idx = error_idx;
    Err(IoctlReply::RefusedControls { errno: EINVAL, ctrls, ctrl_array: input.ctrl_array })
}

/// Reads and checks the parameters of an ioctl.
pub fn decode(ioctl: V4l2Ioctl, reader: &mut ChainReader) -> (r: Decoded)
    requires
        old(reader).wf(),
    ensures
        final(reader).wf(),
        decoded(ioctl, old(reader).rest(), r),
{
    let ghost b = reader.rest();
    match ioctl {
        V4l2Ioctl::VIDIOC_ENUM_FMT => match take_struct(reader, 64) {
            Some(p) => match queue_from(read_u32(p, 4)) {
                Some(queue) => Ok(IoctlRequest::EnumFmt { queue, index: read_u32(p, 0) }),
                None => einval(),
            },
            None => einval(),
        },
        V4l2Ioctl::VIDIOC_G_FMT => match take_struct(reader, 208) {
            Some(p) => match queue_from(read_u32(p, 0)) {
                Some(queue) => Ok(IoctlRequest::GFmt { queue }),
                None => einval(),
            },
            None => einval(),
        },
        V4l2Ioctl::VIDIOC_S_FMT => match take_struct(reader, 208) {
            Some(p) => match queue_from(read_u32(p, 0)) {
                Some(queue) => {
                    let format: V4l2Format = read_format(p, 0);
                    proof {
                        format_of_a_part(format, p@, b, 0);
                    }
                    Ok(IoctlRequest::SFmt { queue, format })
                },
                None => einval(),
            },
            None => einval(),
        },
        V4l2Ioctl::VIDIOC_TRY_FMT => match take_struct(reader, 208) {
            Some(p) => match queue_from(read_u32(p, 0)) {
                Some(queue) => {
                    let format: V4l2Format = read_format(p, 0);
                    proof {
                        format_of_a_part(format, p@, b, 0);
                    }
                    Ok(IoctlRequest::TryFmt { queue, format })
                },
                None => einval(),
            },
            None => einval(),
        },
        V4l2Ioctl::VIDIOC_REQBUFS => match take_struct(reader, 20) {
            Some(p) => match (queue_from(read_u32(p, 4)), memory_from(read_u32(p, 8))) {
                (Some(queue), Some(memory)) => match memory {
                    MemoryType::Mmap | MemoryType::UserPtr => Ok(
                        IoctlRequest::ReqBufs { queue, memory, count: read_u32(p, 0) },
                    ),
                    _ => einval(),
                },
                _ => einval(),
            },
            None => einval(),
        },
        V4l2Ioctl::VIDIOC_QUERYBUF => match take_struct(reader, 88) {
            Some(p) => match queue_from(read_u32(p, 4)) {
                Some(queue) => {
                    let planes: u32 = if queue.is_multiplanar() {
                        read_u32(p, 72)
                    } else {
                        0
                    };
                    Ok(IoctlRequest::QueryBuf { queue, index: read_u32(p, 0), planes })
                },
                None => einval(),
            },
            None => einval(),
        },
        V4l2Ioctl::VIDIOC_QBUF => match GuestV4l2Buffer::read_from_chain(reader) {
            Ok(input) => Ok(IoctlRequest::QBuf { input }),
            Err(_) => einval(),
        },
        V4l2Ioctl::VIDIOC_PREPARE_BUF => match GuestV4l2Buffer::read_from_chain(reader) {
            Ok(input) => Ok(IoctlRequest::PrepareBuf { input }),
            Err(_) => einval(),
        },
        V4l2Ioctl::VIDIOC_STREAMON => match take_struct(reader, 4) {
            Some(p) => match queue_from(read_u32(p, 0)) {
                Some(queue) => Ok(IoctlRequest::StreamOn { queue }),
                None => einval(),
            },
            None => einval(),
        },
        V4l2Ioctl::VIDIOC_STREAMOFF => match take_struct(reader, 4) {
            Some(p) => match queue_from(read_u32(p, 0)) {
                Some(queue) => Ok(IoctlRequest::StreamOff { queue }),
                None => einval(),
            },
            None => einval(),
        },
        V4l2Ioctl::VIDIOC_G_PARM => match take_struct(reader, 204) {
            Some(p) => match queue_from(read_u32(p, 0)) {
                Some(queue) => Ok(IoctlRequest::GParm { queue }),
                None => einval(),
            },
            None => einval(),
        },
        V4l2Ioctl::VIDIOC_S_PARM => match take_struct(reader, 204) {
            Some(p) => Ok(IoctlRequest::SParm { parm: patch_streamparm(read_streamparm(p)) }),
            None => einval(),
        },
        V4l2Ioctl::VIDIOC_G_STD => Ok(IoctlRequest::GStd),
        V4l2Ioctl::VIDIOC_S_STD => match take_struct(reader, 8) {
            Some(p) => Ok(IoctlRequest::SStd { std: read_u64(p, 0) }),
            None => einval(),
        },
        V4l2Ioctl::VIDIOC_ENUMSTD => match take_struct(reader, 72) {
            Some(p) => Ok(IoctlRequest::EnumStd { index: read_u32(p, 0) }),
            None => einval(),
        },
        V4l2Ioctl::VIDIOC_ENUMINPUT => match take_struct(reader, 80) {
            Some(p) => Ok(IoctlRequest::EnumInput { index: read_u32(p, 0) }),
            None => einval(),
        },
        V4l2Ioctl::VIDIOC_G_CTRL => match take_struct(reader, 8) {
            Some(p) => Ok(IoctlRequest::GCtrl { id: read_u32(p, 0) }),
            None => einval(),
        },
        V4l2Ioctl::VIDIOC_S_CTRL => match take_struct(reader, 8) {
            Some(p) => Ok(IoctlRequest::SCtrl { id: read_u32(p, 0), value: read_i32(p, 4) }),
            None => einval(),
        },
        V4l2Ioctl::VIDIOC_G_TUNER => match take_struct(reader, 84) {
            Some(p) => Ok(IoctlRequest::GTuner { index: read_u32(p, 0) }),
            None => einval(),
        },
        V4l2Ioctl::VIDIOC_S_TUNER => match take_struct(reader, 84) {
            Some(p) => match TunerMode::n(read_u32(p, 56)) {
                Some(mode) => Ok(IoctlRequest::STuner { index: read_u32(p, 0), mode }),
                None => einval(),
            },
            None => einval(),
        },
        V4l2Ioctl::VIDIOC_G_AUDIO => Ok(IoctlRequest::GAudio),
        V4l2Ioctl::VIDIOC_S_AUDIO => match take_struct(reader, 52) {
            Some(p) => Ok(
                IoctlRequest::SAudio {
                    index: read_u32(p, 0),
                    mode: AudioMode::n(read_u32(p, 40)),
                },
            ),
            None => einval(),
        },
        V4l2Ioctl::VIDIOC_QUERYCTRL => match take_struct(reader, 68) {
            Some(p) => {
                let (id, flags) = parse_ctrl_id_and_flags(read_u32(p, 0));
                Ok(IoctlRequest::QueryCtrl { id, flags })
            },
            None => einval(),
        },
        V4l2Ioctl::VIDIOC_QUERYMENU => match take_struct(reader, 44) {
            Some(p) => Ok(IoctlRequest::QueryMenu { id: read_u32(p, 0), index: read_u32(p, 4) }),
            None => einval(),
        },
        V4l2Ioctl::VIDIOC_G_INPUT => Ok(IoctlRequest::GInput),
        V4l2Ioctl::VIDIOC_S_INPUT => match take_struct(reader, 4) {
            Some(p) => Ok(IoctlRequest::SInput { input: read_i32(p, 0) }),
            None => einval(),
        },
        V4l2Ioctl::VIDIOC_G_OUTPUT => Ok(IoctlRequest::GOutput),
        V4l2Ioctl::VIDIOC_S_OUTPUT => match take_struct(reader, 4) {
            Some(p) => Ok(IoctlRequest::SOutput { output: read_i32(p, 0) }),
            None => einval(),
        },
        V4l2Ioctl::VIDIOC_ENUMOUTPUT => match take_struct(reader, 72) {
            Some(p) => Ok(IoctlRequest::EnumOutput { index: read_u32(p, 0) }),
            None => einval(),
        },
        V4l2Ioctl::VIDIOC_G_AUDOUT => Ok(IoctlRequest::GAudOut),
        V4l2Ioctl::VIDIOC_S_AUDOUT => match take_struct(reader, 52) {
            Some(p) => Ok(IoctlRequest::SAudOut { index: read_u32(p, 0) }),
            None => einval(),
        },
        V4l2Ioctl::VIDIOC_G_MODULATOR => match take_struct(reader, 68) {
            Some(p) => Ok(IoctlRequest::GModulator { index: read_u32(p, 0) }),
            None => einval(),
        },
        V4l2Ioctl::VIDIOC_S_MODULATOR => match take_struct(reader, 68) {
            Some(p) => {
                let flags: u32 = read_u32(p, 48);
                if flags <= 0x1f {
                    Ok(
                        IoctlRequest::SModulator {
                            index: read_u32(p, 0),
                            flags: TunerTransmissionFlags(flags),
                        },
                    )
                } else {
                    einval()
                }
            },
            None => einval(),
        },
        V4l2Ioctl::VIDIOC_G_FREQUENCY => match take_struct(reader, 44) {
            Some(p) => Ok(IoctlRequest::GFrequency { tuner: read_u32(p, 0) }),
            None => einval(),
        },
        V4l2Ioctl::VIDIOC_S_FREQUENCY => match take_struct(reader, 44) {
            Some(p) => match TunerType::n(read_u32(p, 4)) {
                Some(type_) => Ok(
                    IoctlRequest::SFrequency {
                        tuner: read_u32(p, 0),
                        type_,
                        frequency: read_u32(p, 8),
                    },
                ),
                None => einval(),
            },
            None => einval(),
        },
        V4l2Ioctl::VIDIOC_QUERYSTD => Ok(IoctlRequest::QueryStd),
        V4l2Ioctl::VIDIOC_ENUMAUDIO => match take_struct(reader, 52) {
            Some(p) => Ok(IoctlRequest::EnumAudio { index: read_u32(p, 0) }),
            None => einval(),
        },
        V4l2Ioctl::VIDIOC_ENUMAUDOUT => match take_struct(reader, 52) {
            Some(p) => Ok(IoctlRequest::EnumAudOut { index: read_u32(p, 0) }),
            None => einval(),
        },
        V4l2Ioctl::VIDIOC_G_EXT_CTRLS => match GuestControls::read_from_chain(reader) {
            Ok(input) => match CtrlWhich::of(&input.ctrls) {
                Some(which) => Ok(IoctlRequest::GExtCtrls { which, input }),
                None => {
                    let error_idx: u32 = input.ctrls.count;
                    refuse_controls(input, error_idx)
                },
            },
            Err(_) => einval(),
        },
        V4l2Ioctl::VIDIOC_S_EXT_CTRLS => match GuestControls::read_from_chain(reader) {
            Ok(input) => match CtrlWhich::of(&input.ctrls) {
                Some(which) => Ok(IoctlRequest::SExtCtrls { which, input }),
                None => {
                    let error_idx: u32 = input.ctrls.count;
                    refuse_controls(input, error_idx)
                },
            },
            Err(_) => einval(),
        },
        V4l2Ioctl::VIDIOC_TRY_EXT_CTRLS => match GuestControls::read_from_chain(reader) {
            Ok(input) => match CtrlWhich::of(&input.ctrls) {
                Some(which) => Ok(IoctlRequest::TryExtCtrls { which, input }),
                None => {
                    let error_idx: u32 = 0;
                    refuse_controls(input, error_idx)
                },
            },
            Err(_) => einval(),
        },
        V4l2Ioctl::VIDIOC_ENUM_FRAMESIZES => match take_struct(reader, 44) {
            Some(p) => Ok(
                IoctlRequest::EnumFrameSizes {
                    index: read_u32(p, 0),
                    pixel_format: read_u32(p, 4),
                },
            ),
            None => einval(),
        },
        V4l2Ioctl::VIDIOC_ENUM_FRAMEINTERVALS => match take_struct(reader, 52) {
            Some(p) => Ok(
                IoctlRequest::EnumFrameIntervals {
                    index: read_u32(p, 0),
                    pixel_format: read_u32(p, 4),
                    width: read_u32(p, 8),
                    height: read_u32(p, 12),
                },
            ),
            None => einval(),
        },
        V4l2Ioctl::VIDIOC_G_ENC_INDEX => Ok(IoctlRequest::GEncIndex),
        V4l2Ioctl::VIDIOC_ENCODER_CMD => match take_struct(reader, 40) {
            Some(p) => Ok(IoctlRequest::EncoderCmd { cmd: read_encoder_cmd(p) }),
            None => einval(),
        },
        V4l2Ioctl::VIDIOC_TRY_ENCODER_CMD => match take_struct(reader, 40) {
            Some(p) => Ok(IoctlRequest::TryEncoderCmd { cmd: read_encoder_cmd(p) }),
            None => einval(),
        },
        V4l2Ioctl::VIDIOC_S_DV_TIMINGS => match take_struct(reader, 132) {
            Some(p) => Ok(IoctlRequest::SDvTimings { timings: to_array::<132>(p) }),
            None => einval(),
        },
        V4l2Ioctl::VIDIOC_G_DV_TIMINGS => match take_struct(reader, 132) {
            Some(p) => Ok(IoctlRequest::GDvTimings),
            None => einval(),
        },
        V4l2Ioctl::VIDIOC_SUBSCRIBE_EVENT => match take_struct(reader, 32) {
            Some(p) => {
                let subscription: EventSubscription = read_subscription(p);
                match (
                    EventType::of(&subscription),
                    SubscribeEventFlags::from_bits(subscription.flags),
                ) {
                    (Some(event), Some(flags)) => Ok(IoctlRequest::SubscribeEvent { event, flags }),
                    _ => einval(),
                }
            },
            None => einval(),
        },
        V4l2Ioctl::VIDIOC_UNSUBSCRIBE_EVENT => match take_struct(reader, 32) {
            Some(p) => Ok(IoctlRequest::UnsubscribeEvent { event: read_subscription(p) }),
            None => einval(),
        },
        V4l2Ioctl::VIDIOC_CREATE_BUFS => match take_struct(reader, 256) {
            Some(p) => match (queue_from(read_u32(p, 16)), memory_from(read_u32(p, 8))) {
                (Some(queue), Some(memory)) => {
                    let format: V4l2Format = read_format(p, 16);
                    proof {
                        format_of_a_part(format, p@, b, 16);
                    }
                    Ok(IoctlRequest::CreateBufs { count: read_u32(p, 4), queue, memory, format })
                },
                _ => einval(),
            },
            None => einval(),
        },
        V4l2Ioctl::VIDIOC_G_SELECTION => match take_struct(reader, 64) {
            Some(p) => match (
                SelectionType::n(read_u32(p, 0)),
                selection_target_from(read_u32(p, 4)),
            ) {
                (Some(sel_type), Some(sel_target)) => Ok(
                    IoctlRequest::GSelection { sel_type, sel_target, raw: to_array::<64>(p) },
                ),
                _ => einval(),
            },
            None => einval(),
        },
        V4l2Ioctl::VIDIOC_S_SELECTION => match take_struct(reader, 64) {
            Some(p) => match (
                SelectionType::n(read_u32(p, 0)),
                selection_target_from(read_u32(p, 4)),
            ) {
                (Some(sel_type), Some(sel_target)) => {
                    let flags: u32 = read_u32(p, 8);
                    if flags < 8 {
                        Ok(
                            IoctlRequest::SSelection {
                                sel_type,
                                sel_target,
                                sel_rect: read_selection_rect(p),
                                sel_flags: SelectionFlags(flags),
                                raw: to_array::<64>(p),
                            },
                        )
                    } else {
                        einval()
                    }
                },
                _ => einval(),
            },
            None => einval(),
        },
        V4l2Ioctl::VIDIOC_DECODER_CMD => match take_struct(reader, 72) {
            Some(p) => Ok(IoctlRequest::DecoderCmd { cmd: to_array::<72>(p) }),
            None => einval(),
        },
        V4l2Ioctl::VIDIOC_TRY_DECODER_CMD => match take_struct(reader, 72) {
            Some(p) => Ok(IoctlRequest::TryDecoderCmd { cmd: to_array::<72>(p) }),
            None => einval(),
        },
        V4l2Ioctl::VIDIOC_ENUM_DV_TIMINGS => match take_struct(reader, 148) {
            Some(p) => {
                let start: &[u8] = vstd::slice::slice_subrange(p, 0, 16);
                assert(start@ =~= b.take(16));
                Ok(
                    IoctlRequest::EnumDvTimings {
                        index: read_u32(p, 0),
                        raw: to_array::<16>(start),
                    },
                )
            },
            None => einval(),
        },
        V4l2Ioctl::VIDIOC_QUERY_DV_TIMINGS => Ok(IoctlRequest::QueryDvTimings),
        V4l2Ioctl::VIDIOC_DV_TIMINGS_CAP => match take_struct(reader, 144) {
            Some(p) => Ok(IoctlRequest::DvTimingsCap),
            None => einval(),
        },
        V4l2Ioctl::VIDIOC_ENUM_FREQ_BANDS => match take_struct(reader, 64) {
            Some(p) => match TunerType::n(read_u32(p, 4)) {
                Some(type_) => Ok(
                    IoctlRequest::EnumFreqBands {
                        tuner: read_u32(p, 0),
                        type_,
                        index: read_u32(p, 8),
                    },
                ),
                None => einval(),
            },
            None => einval(),
        },
        V4l2Ioctl::VIDIOC_QUERY_EXT_CTRL => match take_struct(reader, 232) {
            Some(p) => {
                let (id, flags) = parse_ctrl_id_and_flags(read_u32(p, 0));
                Ok(IoctlRequest::QueryExtCtrl { id, flags })
            },
            None => einval(),
        },
        _ => Err(IoctlReply::Refused { errno: ENOTTY }),
    }
}

} // verus!
