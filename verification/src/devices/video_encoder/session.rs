//! The state of one encoding session.
use vstd::prelude::*;

use super::backend::{CodecCall, CodecPort, Colorimetry, InputBuffer, OutputBuffer, SendPtr};
use super::queue::{Queue, QueueView};
use super::ranges::{default_bitstream, default_bitstream_size, nv12_bytes, nv12_sizeimage};
use crate::formats::{
    no_more_planes, FormatBody, PixFormatMplane, PlanePixFormat, StreamParm, V4l2Format,
    CAP_TIMEPERFRAME,
};
use crate::host::continued;
use crate::v4l2::{PixelFormat, QueueDirection, QueueType, Rect, FIELD_NONE, FOURCC_NV12};

verus! {

/// The Rec. 709 colorspace, the default.
pub const COLORSPACE_REC709: u32 = 3;

/// A colorspace value, or the default where a format cannot carry it back.
pub open spec fn usable(v: u32, fallback: u32) -> u32 {
    if v == 0 || v >= 0xff {
        fallback
    } else {
        v
    }
}

/// The colorimetry a client's format declares: the defaults stand for values a format cannot
/// carry back, and for the BT.878 and JPEG colorspaces.
pub open spec fn declared_colorimetry(p: PixFormatMplane) -> Colorimetry {
    Colorimetry {
        colorspace: if p.colorspace == 4 || p.colorspace == 7 {
            COLORSPACE_REC709
        } else {
            usable(p.colorspace, COLORSPACE_REC709)
        },
        ycbcr_enc: usable(p.ycbcr_enc as u32, 0),
        quantization: usable(p.quantization as u32, 0),
        xfer_func: usable(p.xfer_func as u32, 0),
    }
}

/// The colorimetry a session starts with.
pub open spec fn default_colorimetry() -> Colorimetry {
    Colorimetry { colorspace: COLORSPACE_REC709, ycbcr_enc: 0, quantization: 0, xfer_func: 0 }
}

impl Colorimetry {
    /// Whether every value is one a format carries back.
    pub open spec fn wf(self) -> bool {
        &&& 0 < self.colorspace < 0xff && self.colorspace != 4 && self.colorspace != 7
        &&& self.ycbcr_enc < 0xff
        &&& self.quantization < 0xff
        &&& self.xfer_func < 0xff
    }

    /// The colorimetry a session starts with.
    pub fn initial() -> (r: Colorimetry)
        ensures
            r == default_colorimetry(),
    {
        Colorimetry { colorspace: COLORSPACE_REC709, ycbcr_enc: 0, quantization: 0, xfer_func: 0 }
    }

    /// The colorimetry a client's format declares.
    pub fn from_pix_mp(p: &PixFormatMplane) -> (r: Colorimetry)
        ensures
            r == declared_colorimetry(*p),
            r.wf(),
    {
        Colorimetry {
            colorspace: if p.colorspace == 4 || p.colorspace == 7 {
                COLORSPACE_REC709
            } else {
                carried(p.colorspace, COLORSPACE_REC709)
            },
            ycbcr_enc: carried(p.ycbcr_enc as u32, 0),
            quantization: carried(p.quantization as u32, 0),
            xfer_func: carried(p.xfer_func as u32, 0),
        }
    }
}

/// A colorspace value, or the default where a format cannot carry it back.
fn carried(v: u32, fallback: u32) -> (r: u32)
    ensures
        r == usable(v, fallback),
{
    if v == 0 || v >= 0xff {
        fallback
    } else {
        v
    }
}

/// Whether a format is that of a single-plane multi-planar queue with the given values.
pub open spec fn is_format(
    f: V4l2Format,
    queue: QueueType,
    fourcc: u32,
    width: u32,
    height: u32,
    plane: PlanePixFormat,
    c: Colorimetry,
) -> bool {
    &&& f.type_ == queue.code()
    &&& f.fmt matches FormatBody::PixMp(p)
    &&& p.width == width
    &&& p.height == height
    &&& p.pixelformat == fourcc
    &&& p.field == FIELD_NONE
    &&& p.num_planes == 1
    &&& p.flags == 0
    &&& p.plane0 == plane
    &&& no_more_planes(p)
    &&& p.colorspace == c.colorspace
    &&& p.ycbcr_enc as u32 == c.ycbcr_enc
    &&& p.quantization as u32 == c.quantization
    &&& p.xfer_func as u32 == c.xfer_func
}

/// The format of a queue given its values.
pub fn single_plane_format(
    queue: QueueType,
    fourcc: u32,
    width: u32,
    height: u32,
    plane: PlanePixFormat,
    c: Colorimetry,
) -> (r: V4l2Format)
    requires
        c.wf(),
    ensures
        is_format(r, queue, fourcc, width, height, plane, c),
{
    let e: PixFormatMplane = PixFormatMplane::empty();
    V4l2Format::mplane(
        queue,
        PixFormatMplane {
            width,
            height,
            pixelformat: fourcc,
            field: FIELD_NONE,
            colorspace: c.colorspace,
            plane0: plane,
            num_planes: 1,
            ycbcr_enc: c.ycbcr_enc as u8,
            quantization: c.quantization as u8,
            xfer_func: c.xfer_func as u8,
            ..e
        },
    )
}

/// A format a session answers with declares the session's own colorimetry.
pub proof fn formats_carry_the_colorimetry(
    f: V4l2Format,
    queue: QueueType,
    fourcc: u32,
    width: u32,
    height: u32,
    plane: PlanePixFormat,
    c: Colorimetry,
)
    requires
        c.wf(),
        is_format(f, queue, fourcc, width, height, plane, c),
    ensures
        f.fmt matches FormatBody::PixMp(p) && declared_colorimetry(p) == c,
{
}

/// Where a `V4L2_ENC_CMD_STOP` drain has got to.
#[derive(Clone, Copy, Debug, PartialEq, Eq, Structural)]
pub enum Drain {
    Idle,
    /// `STOP` issued; waiting for the codec's last buffer.
    Pending,
    /// The last buffer has been returned; new raw frames are held and `CAPTURE` buffers are not
    /// lent until `V4L2_ENC_CMD_START` or a `CAPTURE` restart.
    Done,
}

/// Streaming state of the two queues.
#[derive(Clone, Copy, Debug, PartialEq, Eq, Structural)]
pub struct StreamingState {
    pub output_streaming: bool,
    pub capture_streaming: bool,
}

/// One client's encoding session.
pub struct VideoEncoderSession<GM, H, S> {
    pub id: u32,
    /// Declared before the queues on purpose: a session dropped without being closed joins the
    /// codec before any buffer it may still be touching goes away.
    pub backend: CodecPort<S>,
    /// The descriptor that is readable while the codec has something to report.
    pub wake: i32,
    /// Whether the codec exists.
    pub codec_started: bool,
    pub state: StreamingState,
    pub drain: Drain,
    /// The `OUTPUT` (raw frame) queue.
    pub input: Queue<GM, H>,
    /// The `CAPTURE` (bitstream) queue.
    pub output: Queue<GM, H>,
    /// The coded format selected by `S_FMT(CAPTURE)`.
    pub coded_format: PixelFormat,
    /// The raw frame size, fitted to the coded format's range.
    pub coded_size: (u32, u32),
    /// The visible rectangle within the raw frame.
    pub crop: Rect,
    /// The frame interval as `(numerator, denominator)` seconds.
    pub timeperframe: (u32, u32),
    /// The bitstream buffer size the client set, if it did.
    pub bitstream_size: Option<u32>,
    pub colorspace: Colorimetry,
    /// Current control values, one per entry of the device's table.
    pub ctrl_values: Vec<i32>,
    pub eos_subscribed: bool,
    /// The codec died; every ioctl that would touch it answers `ENODEV` until the guest closes.
    pub dead: bool,
    /// Sequence number of the next `CAPTURE` buffer.
    pub sequence: u32,
}

/// A session as a mathematical value; `codec` is every call made to its codec.
#[verifier::ext_equal]
pub struct SessionView<GM, H> {
    pub id: u32,
    pub wake: i32,
    pub codec: Seq<CodecCall>,
    pub codec_started: bool,
    pub state: StreamingState,
    pub drain: Drain,
    pub input: QueueView<GM, H>,
    pub output: QueueView<GM, H>,
    pub coded_format: PixelFormat,
    pub coded_size: (u32, u32),
    pub crop: Rect,
    pub timeperframe: (u32, u32),
    pub bitstream_size: Option<u32>,
    pub colorspace: Colorimetry,
    pub ctrl_values: Seq<i32>,
    pub eos_subscribed: bool,
    pub dead: bool,
    pub sequence: u32,
}

impl<GM, H, S> View for VideoEncoderSession<GM, H, S> {
    type V = SessionView<GM, H>;

    open spec fn view(&self) -> SessionView<GM, H> {
        SessionView {
            id: self.id,
            wake: self.wake,
            codec: self.backend.calls@,
            codec_started: self.codec_started,
            state: self.state,
            drain: self.drain,
            input: self.input@,
            output: self.output@,
            coded_format: self.coded_format,
            coded_size: self.coded_size,
            crop: self.crop,
            timeperframe: self.timeperframe,
            bitstream_size: self.bitstream_size,
            colorspace: self.colorspace,
            ctrl_values: self.ctrl_values@,
            eos_subscribed: self.eos_subscribed,
            dead: self.dead,
            sequence: self.sequence,
        }
    }
}

impl<GM, H> SessionView<GM, H> {
    /// Both queues are consistent, only an existing codec holds buffers and only of a streaming
    /// queue, and nothing is queued once the codec has died.
    pub open spec fn wf(self) -> bool {
        &&& self.input.wf(QueueType::VideoOutputMplane)
        &&& self.output.wf(QueueType::VideoCaptureMplane)
        &&& !self.codec_started ==> self.input.lending.len() == 0 && self.output.lending.len() == 0
        &&& !self.state.output_streaming ==> self.input.lending.len() == 0
        &&& !self.state.capture_streaming ==> self.output.lending.len() == 0
        &&& self.dead ==> !self.codec_started && self.input.pending.len() == 0
            && self.output.pending.len() == 0
        &&& self.colorspace.wf()
    }

    /// Both queues are consistent.
    pub open spec fn queues_wf(self) -> bool {
        &&& self.input.wf(QueueType::VideoOutputMplane)
        &&& self.output.wf(QueueType::VideoCaptureMplane)
    }

    /// Whether both queues stream.
    pub open spec fn running(self) -> bool {
        self.state.output_streaming && self.state.capture_streaming
    }

    /// Whether the session holds buffers on either queue.
    pub open spec fn has_buffers(self) -> bool {
        self.input.buffers.len() > 0 || self.output.buffers.len() > 0
    }

    /// One of the two queues.
    pub open spec fn queue(self, d: QueueDirection) -> QueueView<GM, H> {
        match d {
            QueueDirection::Output => self.input,
            QueueDirection::Capture => self.output,
        }
    }

    /// The session with another state of one of its queues.
    pub open spec fn with_queue(self, d: QueueDirection, q: QueueView<GM, H>) -> SessionView<
        GM,
        H,
    > {
        match d {
            QueueDirection::Output => SessionView { input: q, ..self },
            QueueDirection::Capture => SessionView { output: q, ..self },
        }
    }

    /// Whether a queue streams.
    pub open spec fn streaming(self, d: QueueDirection) -> bool {
        match d {
            QueueDirection::Output => self.state.output_streaming,
            QueueDirection::Capture => self.state.capture_streaming,
        }
    }

    /// Bytes a buffer of a queue needs: an NV12 frame, or the client's bitstream size or the
    /// default for the raw size.
    pub open spec fn sizeimage(self, d: QueueDirection) -> int {
        match d {
            QueueDirection::Output => nv12_bytes(
                self.coded_size.0 as int,
                self.coded_size.1 as int,
            ),
            QueueDirection::Capture => match self.bitstream_size {
                Some(n) => n as int,
                None => default_bitstream(self.coded_size.0 as int, self.coded_size.1 as int),
            },
        }
    }

    /// The whole raw frame.
    pub open spec fn full_rect(self) -> Rect {
        Rect { left: 0, top: 0, width: self.coded_size.0, height: self.coded_size.1 }
    }

    /// Whether the visible rectangle is a part of the raw frame, and not empty.
    pub open spec fn crop_inside(self) -> bool {
        &&& 0 <= self.crop.left
        &&& 0 <= self.crop.top
        &&& 1 <= self.crop.width
        &&& 1 <= self.crop.height
        &&& self.crop.left + self.crop.width <= self.coded_size.0
        &&& self.crop.top + self.crop.height <= self.coded_size.1
    }

    /// Whether a format is the format of a queue with buffers of `sizeimage` bytes.
    pub open spec fn is_queue_format(self, d: QueueDirection, sizeimage: u32, f: V4l2Format)
        -> bool {
        match d {
            QueueDirection::Output => is_format(
                f,
                QueueType::VideoOutputMplane,
                FOURCC_NV12,
                self.coded_size.0,
                self.coded_size.1,
                PlanePixFormat { sizeimage, bytesperline: self.coded_size.0 },
                self.colorspace,
            ),
            QueueDirection::Capture => is_format(
                f,
                QueueType::VideoCaptureMplane,
                self.coded_format.0,
                self.coded_size.0,
                self.coded_size.1,
                PlanePixFormat { sizeimage, bytesperline: 0 },
                self.colorspace,
            ),
        }
    }

    /// The stream parameters of the `OUTPUT` queue.
    pub open spec fn parm(self) -> StreamParm {
        StreamParm {
            type_: QueueType::VideoOutputMplane.code(),
            capability: CAP_TIMEPERFRAME,
            mode: 0,
            numerator: self.timeperframe.0,
            denominator: self.timeperframe.1,
            extendedmode: 0,
            buffers: 0,
        }
    }

    /// What the codec is lent for a pending raw frame.
    pub open spec fn raw_frame(self, i: usize) -> InputBuffer {
        let b = self.input.buffers[i as int];
        InputBuffer {
            index: i as u32,
            ptr: SendPtr(b.address()->0),
            len: b.room() as usize,
            timestamp: b.v4l2_buffer.timestamp,
        }
    }

    /// What the codec is lent for a pending bitstream buffer.
    pub open spec fn bitstream_buffer(self, i: usize) -> OutputBuffer {
        let b = self.output.buffers[i as int];
        OutputBuffer { index: i as u32, ptr: SendPtr(b.address()->0), len: b.room() as usize }
    }

    /// How many buffers wait to be lent.
    pub open spec fn waiting(self) -> int {
        self.output.pending.len() as int + self.input.pending.len()
    }

    /// Loan number `k` of the waiting buffers, bitstream buffers first.
    pub open spec fn loan(self, k: int, answer: Result<(), i32>) -> CodecCall {
        if k < self.output.pending.len() {
            CodecCall::UseAsCapture {
                frame: self.bitstream_buffer(self.output.pending[k]),
                answer,
            }
        } else {
            CodecCall::Encode {
                buffer: self.raw_frame(self.input.pending[k - self.output.pending.len()]),
                answer,
            }
        }
    }

    /// The calls that lend the first `k` waiting buffers, each taken.
    pub open spec fn loans(self, k: int) -> Seq<CodecCall> {
        Seq::new(k as nat, |j: int| self.loan(j, Ok(())))
    }

    /// The session with every waiting buffer lent.
    pub open spec fn all_loaned(self) -> SessionView<GM, H> {
        SessionView {
            codec: self.codec + self.loans(self.waiting()),
            input: self.input.first_loaned(self.input.pending.len() as int),
            output: self.output.first_loaned(self.output.pending.len() as int),
            ..self
        }
    }

    /// Whether waiting buffers are lent now: a codec exists, both queues stream, and no finished
    /// drain holds them back.
    pub open spec fn feeding(self) -> bool {
        self.codec_started && self.running() && self.drain != Drain::Done
    }

    /// The session after its codec died: the codec stopped, every buffer back with the guest.
    pub open spec fn ended(self) -> SessionView<GM, H> {
        SessionView {
            codec: self.codec.push(CodecCall::Stop),
            codec_started: false,
            input: self.input.all_returned(),
            output: self.output.all_returned(),
            dead: true,
            ..self
        }
    }
}

impl<GM, H, S> VideoEncoderSession<GM, H, S> {
    /// Whether the session is one that only its own calls made of what it was: every state that the
    /// codec went through still stands.
    pub open spec fn continues(&self, before: &Self) -> bool {
        continued(before.backend.path@, self.backend.path@)
    }

    /// One of the two queues.
    pub fn queue(&self, direction: QueueDirection) -> (r: &Queue<GM, H>)
        ensures
            r@ == self@.queue(direction),
    {
        match direction {
            QueueDirection::Output => &self.input,
            QueueDirection::Capture => &self.output,
        }
    }

    /// One of the two queues, to change.
    pub fn queue_mut(&mut self, direction: QueueDirection) -> (r: &mut Queue<GM, H>)
        ensures
            r@ == old(self)@.queue(direction),
            final(self)@ == old(self)@.with_queue(direction, final(r)@),
            final(self).backend == old(self).backend,
    {
        match direction {
            QueueDirection::Output => &mut self.input,
            QueueDirection::Capture => &mut self.output,
        }
    }

    /// Whether both queues stream.
    pub fn running(&self) -> (r: bool)
        ensures
            r == self@.running(),
    {
        self.state.output_streaming && self.state.capture_streaming
    }

    /// Whether the session holds buffers on either queue.
    pub fn has_buffers(&self) -> (r: bool)
        ensures
            r == self@.has_buffers(),
    {
        self.input.buffers.len() > 0 || self.output.buffers.len() > 0
    }

    /// Whether a queue streams.
    pub fn streaming(&self, direction: QueueDirection) -> (r: bool)
        ensures
            r == self@.streaming(direction),
    {
        match direction {
            QueueDirection::Output => self.state.output_streaming,
            QueueDirection::Capture => self.state.capture_streaming,
        }
    }

    /// The `OUTPUT` `sizeimage` for the current raw size.
    pub fn raw_sizeimage(&self) -> (r: u32)
        ensures
            r == self@.sizeimage(QueueDirection::Output),
    {
        nv12_sizeimage(self.coded_size.0, self.coded_size.1)
    }

    /// The `CAPTURE` `sizeimage`: the client's, or the device's default.
    pub fn bitstream_sizeimage(&self) -> (r: u32)
        ensures
            r == self@.sizeimage(QueueDirection::Capture),
    {
        match self.bitstream_size {
            Some(n) => n,
            None => default_bitstream_size(self.coded_size.0, self.coded_size.1),
        }
    }

    /// Bytes a buffer of a queue needs.
    pub fn sizeimage(&self, direction: QueueDirection) -> (r: u32)
        ensures
            r == self@.sizeimage(direction),
    {
        match direction {
            QueueDirection::Output => self.raw_sizeimage(),
            QueueDirection::Capture => self.bitstream_sizeimage(),
        }
    }

    /// The format of a queue, `sizeimage` bytes per buffer.
    pub fn format_sized(&self, direction: QueueDirection, sizeimage: u32) -> (r: V4l2Format)
        requires
            self@.wf(),
        ensures
            self@.is_queue_format(direction, sizeimage, r),
    {
        match direction {
            QueueDirection::Output => single_plane_format(
                QueueType::VideoOutputMplane,
                FOURCC_NV12,
                self.coded_size.0,
                self.coded_size.1,
                PlanePixFormat { sizeimage, bytesperline: self.coded_size.0 },
                self.colorspace,
            ),
            QueueDirection::Capture => single_plane_format(
                QueueType::VideoCaptureMplane,
                self.coded_format.0,
                self.coded_size.0,
                self.coded_size.1,
                PlanePixFormat { sizeimage, bytesperline: 0 },
                self.colorspace,
            ),
        }
    }

    /// The format of a queue.
    pub fn format(&self, direction: QueueDirection) -> (r: V4l2Format)
        requires
            self@.wf(),
        ensures
            self@.is_queue_format(direction, self@.sizeimage(direction) as u32, r),
    {
        self.format_sized(direction, self.sizeimage(direction))
    }

    /// The whole raw frame.
    pub fn full_rect(&self) -> (r: Rect)
        ensures
            r == self@.full_rect(),
    {
        Rect { left: 0, top: 0, width: self.coded_size.0, height: self.coded_size.1 }
    }

    /// The stream parameters of the `OUTPUT` queue.
    pub fn streamparm(&self) -> (r: StreamParm)
        ensures
            r == self@.parm(),
    {
        StreamParm {
            type_: QueueType::VideoOutputMplane.to_u32(),
            capability: CAP_TIMEPERFRAME,
            mode: 0,
            numerator: self.timeperframe.0,
            denominator: self.timeperframe.1,
            extendedmode: 0,
            buffers: 0,
        }
    }
}

} // verus!
