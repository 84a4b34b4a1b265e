//! Formats, selections and frame rates.
use vstd::prelude::*;

use super::backend::{Colorimetry, VideoEncoderBackend};
use super::capabilities::{
    first_format_is_the_format, CapabilitiesView, CodedFormat, CodedFormatView,
};
use super::device::{DeviceView, EncoderSession, VideoEncoder};
use super::ranges::{
    bitstream_bytes, crop_axis, crop_stays_in_the_frame, fit_bitstream_size, fit_crop_axis,
    fitted_is_in_range, fitting_is_idempotent, least_fit_is_least, nv12_bytes, nv12_sizeimage,
};
use super::session::{declared_colorimetry, is_format, single_plane_format, SessionView};
use crate::errno::{EBUSY, EINVAL, ENODEV, ENOTTY};
use crate::formats::{
    FormatBody, PixFormatMplane, PlanePixFormat, SelectionTarget, SelectionType, StreamParm,
    V4l2Format,
};
use crate::host::{
    VirtioMediaBufferAllocator, VirtioMediaEventQueue, VirtioMediaGuestMemoryMapper,
    VirtioMediaHostMemoryMapper,
};
use crate::ioctl::types::{
    copy_name, name_field, FmtDesc, Fract, FrmIvalEnum, FrmSizeEnum, SelectionFlags,
    FRMIVAL_TYPE_CONTINUOUS, FRMIVAL_TYPE_DISCRETE, FRMSIZE_TYPE_STEPWISE,
};
use crate::v4l2::{
    PixelFormat, QueueDirection, QueueType, Rect, FOURCC_AV01, FOURCC_H264, FOURCC_HEVC,
    FOURCC_NV12, FOURCC_VP80, FOURCC_VP90,
};

verus! {

/// `V4L2_FMT_FLAG_COMPRESSED`.
pub const FMT_FLAG_COMPRESSED: u32 = 1;

/// The kernel's canonical description of a fourcc.
pub open spec fn description_of(fourcc: u32) -> Seq<char> {
    if fourcc == FOURCC_H264 {
        "H.264"@
    } else if fourcc == FOURCC_HEVC {
        "HEVC"@
    } else if fourcc == FOURCC_VP80 {
        "VP8"@
    } else if fourcc == FOURCC_VP90 {
        "VP9"@
    } else if fourcc == FOURCC_AV01 {
        "AV1"@
    } else if fourcc == FOURCC_NV12 {
        "Y/UV 4:2:0"@
    } else {
        "Unknown"@
    }
}

/// The kernel's canonical description of a fourcc.
pub fn fourcc_description(fourcc: u32) -> (r: &'static str)
    ensures
        r@ == description_of(fourcc),
{
    if fourcc == FOURCC_H264 {
        "H.264"
    } else if fourcc == FOURCC_HEVC {
        "HEVC"
    } else if fourcc == FOURCC_VP80 {
        "VP8"
    } else if fourcc == FOURCC_VP90 {
        "VP9"
    } else if fourcc == FOURCC_AV01 {
        "AV1"
    } else if fourcc == FOURCC_NV12 {
        "Y/UV 4:2:0"
    } else {
        "Unknown"
    }
}

/// The format an index names on a queue, with its flags: the backend's coded formats on
/// `CAPTURE`, NV12 alone on `OUTPUT`.
pub open spec fn listed_format(caps: CapabilitiesView, queue: QueueType, index: int) -> Option<
    (u32, u32),
> {
    match queue {
        QueueType::VideoCaptureMplane => if index < caps.formats.len() {
            Some((caps.formats[index].fourcc.0, FMT_FLAG_COMPRESSED))
        } else {
            None
        },
        QueueType::VideoOutputMplane => if index == 0 {
            Some((FOURCC_NV12, 0))
        } else {
            None
        },
        _ => None,
    }
}

/// The coded format whose sizes and rates a pixel format has: its own, or for NV12 those of the
/// format selected on `CAPTURE`.
pub open spec fn sizes_of<GM, H>(
    caps: CapabilitiesView,
    s: SessionView<GM, H>,
    pixel_format: u32,
) -> Option<CodedFormatView> {
    if pixel_format == FOURCC_NV12 {
        caps.format(s.coded_format)
    } else {
        caps.format(PixelFormat(pixel_format))
    }
}

/// The frame sizes of a coded format.
pub open spec fn frame_sizes(f: CodedFormatView, pixel_format: u32) -> FrmSizeEnum {
    FrmSizeEnum {
        index: 0,
        pixel_format,
        type_: FRMSIZE_TYPE_STEPWISE,
        min_width: f.width.min,
        max_width: f.width.max,
        step_width: f.width.unit() as u32,
        min_height: f.height.min,
        max_height: f.height.max,
        step_height: f.height.unit() as u32,
    }
}

/// The frame intervals of a coded format: one continuous interval, or a single one where the
/// range is one rate.
pub open spec fn frame_intervals(
    f: CodedFormatView,
    pixel_format: u32,
    width: u32,
    height: u32,
) -> FrmIvalEnum {
    let slow = f.frame_rate.slowest() as u32;
    let fast = f.frame_rate.fastest() as u32;
    let none = Fract { numerator: 0, denominator: 0 };
    FrmIvalEnum {
        index: 0,
        pixel_format,
        width,
        height,
        type_: if slow == fast {
            FRMIVAL_TYPE_DISCRETE
        } else {
            FRMIVAL_TYPE_CONTINUOUS
        },
        min: Fract { numerator: 1, denominator: fast },
        max: if slow == fast {
            none
        } else {
            Fract { numerator: 1, denominator: slow }
        },
        step: if slow == fast {
            none
        } else {
            Fract { numerator: 1, denominator: 1 }
        },
    }
}

/// The raw size a client's format becomes: the current one where it asks for none, fitted to the
/// coded format.
pub open spec fn raw_size<GM, H>(
    s: SessionView<GM, H>,
    f: CodedFormatView,
    p: PixFormatMplane,
) -> (int, int) {
    (
        f.width.fitted(
            if p.width == 0 {
                s.coded_size.0 as int
            } else {
                p.width as int
            },
        ),
        f.height.fitted(
            if p.height == 0 {
                s.coded_size.1 as int
            } else {
                p.height as int
            },
        ),
    )
}

/// The raw size refitted to a coded format.
pub open spec fn refitted_size<GM, H>(s: SessionView<GM, H>, f: CodedFormatView) -> (int, int) {
    (f.width.fitted(s.coded_size.0 as int), f.height.fitted(s.coded_size.1 as int))
}

/// Whether a format is what a client's format becomes on a queue. On `OUTPUT`: NV12 at a size the
/// selected codec takes, with the colorimetry the client declares. On `CAPTURE`: the codec asked
/// for (the first one where there is none), at the raw size refitted to it, with a bitstream size
/// held to what that raw size can need.
pub open spec fn is_adjusted<GM, H, S, K>(
    d: DeviceView<GM, H, S, K>,
    s: SessionView<GM, H>,
    direction: QueueDirection,
    p: PixFormatMplane,
    f: V4l2Format,
) -> bool {
    match direction {
        QueueDirection::Output => {
            let coded = d.caps.format(s.coded_format)->0;
            let (w, h) = raw_size(s, coded, p);
            is_format(
                f,
                QueueType::VideoOutputMplane,
                FOURCC_NV12,
                w as u32,
                h as u32,
                PlanePixFormat { sizeimage: nv12_bytes(w, h) as u32, bytesperline: w as u32 },
                declared_colorimetry(p),
            )
        },
        QueueDirection::Capture => {
            let coded = d.caps.selected(PixelFormat(p.pixelformat))->0;
            let (w, h) = refitted_size(s, coded);
            is_format(
                f,
                QueueType::VideoCaptureMplane,
                coded.fourcc.0,
                w as u32,
                h as u32,
                PlanePixFormat {
                    sizeimage: bitstream_bytes(w, h, p.plane0.sizeimage as int) as u32,
                    bytesperline: 0,
                },
                s.colorspace,
            )
        },
    }
}

/// Whether a format ioctl on a queue is answered with what the client's format becomes; `EINVAL`
/// for a queue the device does not have, or a format that is not multi-planar.
pub open spec fn tried_format<GM, H, S, K>(
    d: DeviceView<GM, H, S, K>,
    s: SessionView<GM, H>,
    queue: QueueType,
    format: V4l2Format,
    r: Result<V4l2Format, i32>,
) -> bool {
    match (queue.video_mplane_direction(), format.fmt) {
        (Some(direction), FormatBody::PixMp(p)) => r matches Ok(f) && is_adjusted(
            d,
            s,
            direction,
            p,
            f,
        ),
        _ => r == Err::<V4l2Format, i32>(EINVAL),
    }
}

/// The session with the codec, raw size and bitstream size of a client's format set.
pub open spec fn capture_format_set<GM, H, S, K>(
    d: DeviceView<GM, H, S, K>,
    s: SessionView<GM, H>,
    p: PixFormatMplane,
) -> SessionView<GM, H> {
    let coded = d.caps.selected(PixelFormat(p.pixelformat))->0;
    let (w, h) = refitted_size(s, coded);
    let size = (w as u32, h as u32);
    let sized = SessionView { coded_size: size, ..s };
    SessionView {
        coded_format: coded.fourcc,
        coded_size: size,
        crop: if size == s.coded_size {
            s.crop
        } else {
            sized.full_rect()
        },
        bitstream_size: Some(bitstream_bytes(w, h, p.plane0.sizeimage as int) as u32),
        ..s
    }
}

/// The session with the raw size and colorimetry of a client's format set, and the visible
/// rectangle the whole frame again.
pub open spec fn output_format_set<GM, H, S, K>(
    d: DeviceView<GM, H, S, K>,
    s: SessionView<GM, H>,
    p: PixFormatMplane,
) -> SessionView<GM, H> {
    let (w, h) = raw_size(s, d.caps.format(s.coded_format)->0, p);
    let sized = SessionView { coded_size: (w as u32, h as u32), ..s };
    SessionView {
        colorspace: declared_colorimetry(p),
        crop: sized.full_rect(),
        ..sized
    }
}

/// Whether the format of a queue may not change: the `CAPTURE` format governs the encode, so
/// buffers on either queue hold it, the raw format only its own buffers; an existing codec holds
/// both.
pub open spec fn format_is_held<GM, H>(s: SessionView<GM, H>, direction: QueueDirection) -> bool {
    s.codec_started || match direction {
        QueueDirection::Capture => s.has_buffers(),
        QueueDirection::Output => s.input.buffers.len() > 0,
    }
}

/// What `S_FMT` does.
pub open spec fn set_format<GM, H, S, K>(
    d: DeviceView<GM, H, S, K>,
    s: SessionView<GM, H>,
    queue: QueueType,
    format: V4l2Format,
    s2: SessionView<GM, H>,
    r: Result<V4l2Format, i32>,
) -> bool {
    match queue.video_mplane_direction() {
        None => s2 == s && r == Err::<V4l2Format, i32>(EINVAL),
        Some(direction) => if s.dead {
            s2 == s && r == Err::<V4l2Format, i32>(ENODEV)
        } else if format_is_held(s, direction) {
            s2 == s && r == Err::<V4l2Format, i32>(EBUSY)
        } else {
            &&& tried_format(d, s, queue, format, r)
            &&& s2 == match format.fmt {
                FormatBody::PixMp(p) => match direction {
                    QueueDirection::Output => output_format_set(d, s, p),
                    QueueDirection::Capture => capture_format_set(d, s, p),
                },
                FormatBody::Raw(_) => s,
            }
        },
    }
}

/// The visible rectangle a client's becomes: each axis held inside the frame and fitted to the
/// selected codec.
pub open spec fn cropped<GM, H, S, K>(
    d: DeviceView<GM, H, S, K>,
    s: SessionView<GM, H>,
    asked: Rect,
) -> Rect {
    let f = d.caps.format(s.coded_format)->0;
    let (left, width) = crop_axis(
        f.width,
        s.coded_size.0 as int,
        asked.left as int,
        asked.width as int,
    );
    let (top, height) = crop_axis(
        f.height,
        s.coded_size.1 as int,
        asked.top as int,
        asked.height as int,
    );
    Rect { left: left as i32, top: top as i32, width: width as u32, height: height as u32 }
}

/// A visible rectangle set on a session the device serves lies inside the frame.
pub proof fn crops_lie_in_the_frame<GM, H, S, K>(
    d: DeviceView<GM, H, S, K>,
    s: SessionView<GM, H>,
    asked: Rect,
)
    requires
        d.fits(s),
    ensures
        (SessionView { crop: cropped(d, s, asked), ..s }).crop_inside(),
        cropped(d, s, asked).left % 2 == 0,
        cropped(d, s, asked).top % 2 == 0,
{
    let f = d.caps.format(s.coded_format)->0;
    least_fit_is_least(f.width, s.coded_size.0 as int);
    least_fit_is_least(f.height, s.coded_size.1 as int);
    crop_stays_in_the_frame(
        f.width,
        s.coded_size.0 as int,
        asked.left as int,
        asked.width as int,
    );
    crop_stays_in_the_frame(
        f.height,
        s.coded_size.1 as int,
        asked.top as int,
        asked.height as int,
    );
    crop_origin_is_held(f.width, s.coded_size.0 as int, asked.left as int, asked.width as int);
    crop_origin_is_held(f.height, s.coded_size.1 as int, asked.top as int, asked.height as int);
}

/// A crop starts at zero or before where it was asked to, and its extent is a 32-bit number.
proof fn crop_origin_is_held(
    range: super::ranges::SizeRange,
    frame: int,
    origin: int,
    extent: int,
)
    requires
        range.fitted(0) <= frame <= u32::MAX,
        i32::MIN <= origin <= i32::MAX,
        extent >= 0,
    ensures
        ({
            let (at, len) = crop_axis(range, frame, origin, extent);
            0 <= at <= i32::MAX && 0 <= len <= u32::MAX
        }),
{
    fitted_is_in_range(range, 0);
    crop_stays_in_the_frame(range, frame, origin, extent);
}

/// The format a fourcc selects is the one its own fourcc names.
pub proof fn selected_format_is_offered(caps: CapabilitiesView, fourcc: PixelFormat)
    requires
        caps.selected(fourcc) is Some,
    ensures
        caps.format(caps.selected(fourcc)->0.fourcc) == caps.selected(fourcc),
{
    if caps.offers(fourcc) {
        let n = choose|n: int| 0 <= n < caps.formats.len() && (#[trigger] caps.formats[n]).fourcc
            == fourcc;
        let i = first_index(caps, fourcc, n);
        first_format_is_the_format(caps, fourcc, i);
    } else {
        assert(caps.is_first(caps.formats[0].fourcc, 0));
        first_format_is_the_format(caps, caps.formats[0].fourcc, 0);
    }
}

/// The index of the first format with a fourcc, at most `n`.
pub proof fn first_index(caps: CapabilitiesView, fourcc: PixelFormat, n: int) -> (i: int)
    requires
        0 <= n < caps.formats.len(),
        caps.formats[n].fourcc == fourcc,
    ensures
        caps.is_first(fourcc, i),
    decreases n,
{
    if exists|j: int| 0 <= j < n && (#[trigger] caps.formats[j]).fourcc == fourcc {
        let j = choose|j: int| 0 <= j < n && (#[trigger] caps.formats[j]).fourcc == fourcc;
        first_index(caps, fourcc, j)
    } else {
        n
    }
}

/// Setting the format of the raw queue keeps a session one the device serves.
proof fn output_format_fits<GM, H, S, K>(
    d: DeviceView<GM, H, S, K>,
    s: SessionView<GM, H>,
    p: PixFormatMplane,
)
    requires
        d.fits(s),
        declared_colorimetry(p).wf(),
    ensures
        d.fits(output_format_set(d, s, p)),
        ({
            let (w, h) = raw_size(s, d.caps.format(s.coded_format)->0, p);
            0 <= w <= u32::MAX && 0 <= h <= u32::MAX
        }),
{
    let f = d.caps.format(s.coded_format)->0;
    let w = if p.width == 0 {
        s.coded_size.0 as int
    } else {
        p.width as int
    };
    let h = if p.height == 0 {
        s.coded_size.1 as int
    } else {
        p.height as int
    };
    fitted_is_in_range(f.width, w);
    fitted_is_in_range(f.height, h);
    fitting_is_idempotent(f.width, w);
    fitting_is_idempotent(f.height, h);
}

/// Setting the format of the bitstream queue keeps a session one the device serves.
proof fn capture_format_fits<GM, H, S, K>(
    d: DeviceView<GM, H, S, K>,
    s: SessionView<GM, H>,
    p: PixFormatMplane,
)
    requires
        d.fits(s),
        d.caps.selected(PixelFormat(p.pixelformat)) is Some,
    ensures
        d.fits(capture_format_set(d, s, p)),
        ({
            let (w, h) = refitted_size(s, d.caps.selected(PixelFormat(p.pixelformat))->0);
            0 <= w <= u32::MAX && 0 <= h <= u32::MAX
        }),
{
    let f = d.caps.selected(PixelFormat(p.pixelformat))->0;
    selected_format_is_offered(d.caps, PixelFormat(p.pixelformat));
    fitted_is_in_range(f.width, s.coded_size.0 as int);
    fitted_is_in_range(f.height, s.coded_size.1 as int);
    fitting_is_idempotent(f.width, s.coded_size.0 as int);
    fitting_is_idempotent(f.height, s.coded_size.1 as int);
}

/// A device that serves a session has a format to select.
proof fn some_format_is_selected<GM, H, S, K>(
    d: DeviceView<GM, H, S, K>,
    s: SessionView<GM, H>,
    fourcc: PixelFormat,
)
    requires
        d.fits(s),
    ensures
        d.caps.selected(fourcc) is Some,
{
    assert(d.caps.offers(s.coded_format));
    if d.caps.offers(fourcc) {
        assert(d.caps.format(fourcc) is Some);
    }
}

/// What `ENUM_FMT` answers.
pub open spec fn format_listed(
    caps: CapabilitiesView,
    queue: QueueType,
    index: u32,
    r: Result<FmtDesc, i32>,
) -> bool {
    match listed_format(caps, queue, index as int) {
        Some((fourcc, flags)) => {
            &&& r matches Ok(f)
            &&& f.index == index
            &&& f.type_ == queue.code()
            &&& f.flags == flags
            &&& f.pixelformat == fourcc
            &&& f.mbus_code == 0
            &&& f.description@ == name_field(description_of(fourcc))
        },
        None => r == Err::<FmtDesc, i32>(EINVAL),
    }
}

/// What `ENUM_FRAMESIZES` answers.
pub open spec fn sizes_listed<GM, H, S, K>(
    d: DeviceView<GM, H, S, K>,
    s: SessionView<GM, H>,
    index: u32,
    pixel_format: u32,
) -> Result<FrmSizeEnum, i32> {
    match sizes_of(d.caps, s, pixel_format) {
        Some(f) if index == 0 => Ok(frame_sizes(f, pixel_format)),
        _ => Err(EINVAL),
    }
}

/// What `ENUM_FRAMEINTERVALS` answers: the interval of a size the codec takes.
pub open spec fn intervals_listed<GM, H, S, K>(
    d: DeviceView<GM, H, S, K>,
    s: SessionView<GM, H>,
    index: u32,
    pixel_format: u32,
    width: u32,
    height: u32,
) -> Result<FrmIvalEnum, i32> {
    match sizes_of(d.caps, s, pixel_format) {
        Some(f) if index == 0 && f.width.takes(width as int) && f.height.takes(
            height as int,
        ) => Ok(frame_intervals(f, pixel_format, width, height)),
        _ => Err(EINVAL),
    }
}

/// What `G_FMT` answers.
pub open spec fn format_told<GM, H>(
    s: SessionView<GM, H>,
    queue: QueueType,
    r: Result<V4l2Format, i32>,
) -> bool {
    match queue.video_mplane_direction() {
        Some(direction) => r matches Ok(f) && s.is_queue_format(
            direction,
            s.sizeimage(direction) as u32,
            f,
        ),
        None => r == Err::<V4l2Format, i32>(EINVAL),
    }
}

/// What `G_SELECTION` answers: `OUTPUT` has a visible rectangle inside the whole frame.
pub open spec fn selection_told<GM, H>(
    s: SessionView<GM, H>,
    sel_type: SelectionType,
    sel_target: SelectionTarget,
) -> Result<Rect, i32> {
    match (sel_type, sel_target) {
        (SelectionType::Output, SelectionTarget::CropBounds) => Ok(s.full_rect()),
        (SelectionType::Output, SelectionTarget::CropDefault) => Ok(s.full_rect()),
        (SelectionType::Output, SelectionTarget::Crop) => Ok(s.crop),
        _ => Err(EINVAL),
    }
}

/// What `S_SELECTION` does.
pub open spec fn selection_set<GM, H, S, K>(
    d: DeviceView<GM, H, S, K>,
    s: SessionView<GM, H>,
    sel_type: SelectionType,
    sel_target: SelectionTarget,
    asked: Rect,
) -> (SessionView<GM, H>, Result<Rect, i32>) {
    if sel_type != SelectionType::Output || sel_target != SelectionTarget::Crop {
        (s, Err(EINVAL))
    } else if s.codec_started {
        (s, Err(EBUSY))
    } else {
        let crop = cropped(d, s, asked);
        (SessionView { crop, ..s }, Ok(crop))
    }
}

/// What `G_PARM` answers.
pub open spec fn parm_told<GM, H>(s: SessionView<GM, H>, queue: QueueType) -> Result<
    StreamParm,
    i32,
> {
    match queue.video_mplane_direction() {
        Some(QueueDirection::Output) => Ok(s.parm()),
        Some(QueueDirection::Capture) => Err(ENOTTY),
        None => Err(EINVAL),
    }
}

/// What `S_PARM` does: the frame interval asked for, held to what the codec sustains.
pub open spec fn parm_set<GM, H, S, K>(
    d: DeviceView<GM, H, S, K>,
    s: SessionView<GM, H>,
    parm: StreamParm,
) -> (SessionView<GM, H>, Result<StreamParm, i32>) {
    if parm.type_ == QueueType::VideoCaptureMplane.code() {
        (s, Err(ENOTTY))
    } else if parm.type_ != QueueType::VideoOutputMplane.code() {
        (s, Err(EINVAL))
    } else if s.dead {
        (s, Err(ENODEV))
    } else {
        let range = (d.caps.format(s.coded_format)->0).frame_rate;
        let (num, den) = range.interval(parm.numerator as int, parm.denominator as int);
        let s2 = SessionView { timeperframe: (num as u32, den as u32), ..s };
        (s2, Ok(s2.parm()))
    }
}

impl<B, Q, M, HM, A> VideoEncoder<B, Q, M, HM, A> where
    B: VideoEncoderBackend,
    Q: VirtioMediaEventQueue,
    M: VirtioMediaGuestMemoryMapper,
    A: VirtioMediaBufferAllocator,
    HM: VirtioMediaHostMemoryMapper<Handle = A::Handle>,
 {
    /// The coded format `S_FMT(CAPTURE)` selects for a fourcc, or the first advertised format if
    /// the guest asked for one the backend does not have.
    pub fn adjust_coded_format(&self, fourcc: u32) -> (r: Result<&CodedFormat, i32>)
        ensures
            match r {
                Ok(f) => self@.caps.selected(PixelFormat(fourcc)) == Some(f@),
                Err(e) => e == EINVAL && self@.caps.selected(PixelFormat(fourcc)) is None,
            },
    {
        match self.caps.find(PixelFormat(fourcc)) {
            Some(i) => Ok(&self.caps.coded_formats[i]),
            None => if self.caps.coded_formats.len() > 0 {
                assert(self.caps@.formats[0] == self.caps.coded_formats@[0]@);
                Ok(&self.caps.coded_formats[0])
            } else {
                Err(EINVAL)
            },
        }
    }

    /// Lists the formats of a queue.
    pub fn enum_fmt(&mut self, session: &EncoderSession<B, M, A>, queue: QueueType, index: u32)
        -> (r: Result<FmtDesc, i32>)
        requires
            old(self).serves(session),
        ensures
            *final(self) == *old(self),
            format_listed(old(self)@.caps, queue, index, r),
    {
        let (fourcc, flags) = match queue {
            QueueType::VideoCaptureMplane => {
                if index as usize >= self.caps.coded_formats.len() {
                    return Err(EINVAL);
                }
                (self.caps.coded_formats[index as usize].fourcc.0, FMT_FLAG_COMPRESSED)
            },
            QueueType::VideoOutputMplane => {
                if index != 0 {
                    return Err(EINVAL);
                }
                (FOURCC_NV12, 0)
            },
            _ => {
                return Err(EINVAL);
            },
        };
        Ok(
            FmtDesc {
                index,
                type_: queue.to_u32(),
                flags,
                description: copy_name(fourcc_description(fourcc)),
                pixelformat: fourcc,
                mbus_code: 0,
            },
        )
    }

    /// The index of the coded format whose sizes and rates a pixel format has.
    fn sized_format(&self, session: &EncoderSession<B, M, A>, pixel_format: u32) -> (r: Option<
        usize,
    >)
        requires
            self.serves(session),
        ensures
            match r {
                Some(i) => i < self.caps.coded_formats@.len() && sizes_of(
                    self@.caps,
                    session@,
                    pixel_format,
                ) == Some(self.caps.coded_formats@[i as int]@),
                None => sizes_of(self@.caps, session@, pixel_format) is None,
            },
    {
        if pixel_format == FOURCC_NV12 {
            self.caps.find(session.coded_format)
        } else {
            self.caps.find(PixelFormat(pixel_format))
        }
    }

    /// Stepwise frame sizes: a coded format's own; NV12's follow the coded format currently set.
    pub fn enum_framesizes(
        &mut self,
        session: &EncoderSession<B, M, A>,
        index: u32,
        pixel_format: u32,
    ) -> (r: Result<FrmSizeEnum, i32>)
        requires
            old(self).serves(session),
        ensures
            *final(self) == *old(self),
            r == sizes_listed(old(self)@, session@, index, pixel_format),
    {
        if index != 0 {
            return Err(EINVAL);
        }
        let f: &CodedFormat = match self.sized_format(session, pixel_format) {
            Some(i) => &self.caps.coded_formats[i],
            None => {
                return Err(EINVAL);
            },
        };
        Ok(
            FrmSizeEnum {
                index: 0,
                pixel_format,
                type_: FRMSIZE_TYPE_STEPWISE,
                min_width: f.width.min,
                max_width: f.width.max,
                step_width: if f.width.step >= 1 {
                    f.width.step
                } else {
                    1
                },
                min_height: f.height.min,
                max_height: f.height.max,
                step_height: if f.height.step >= 1 {
                    f.height.step
                } else {
                    1
                },
            },
        )
    }

    /// The frame-rate range of a format at a size it accepts; a size it does not is `EINVAL`.
    pub fn enum_frameintervals(
        &mut self,
        session: &EncoderSession<B, M, A>,
        index: u32,
        pixel_format: u32,
        width: u32,
        height: u32,
    ) -> (r: Result<FrmIvalEnum, i32>)
        requires
            old(self).serves(session),
        ensures
            *final(self) == *old(self),
            r == intervals_listed(old(self)@, session@, index, pixel_format, width, height),
    {
        if index != 0 {
            return Err(EINVAL);
        }
        let f: &CodedFormat = match self.sized_format(session, pixel_format) {
            Some(i) => &self.caps.coded_formats[i],
            None => {
                return Err(EINVAL);
            },
        };
        if !f.width.accepts(width) || !f.height.accepts(height) {
            return Err(EINVAL);
        }
        let (slow, fast) = f.frame_rate.bounds();
        let none: Fract = Fract { numerator: 0, denominator: 0 };
        Ok(
            FrmIvalEnum {
                index: 0,
                pixel_format,
                width,
                height,
                type_: if slow == fast {
                    FRMIVAL_TYPE_DISCRETE
                } else {
                    FRMIVAL_TYPE_CONTINUOUS
                },
                min: Fract { numerator: 1, denominator: fast },
                max: if slow == fast {
                    none
                } else {
                    Fract { numerator: 1, denominator: slow }
                },
                step: if slow == fast {
                    none
                } else {
                    Fract { numerator: 1, denominator: 1 }
                },
            },
        )
    }

    /// The current format of a queue.
    pub fn g_fmt(&mut self, session: &EncoderSession<B, M, A>, queue: QueueType) -> (r: Result<
        V4l2Format,
        i32,
    >)
        requires
            old(self).serves(session),
        ensures
            *final(self) == *old(self),
            format_told(session@, queue, r),
    {
        match queue.direction_or_einval() {
            Ok(direction) => Ok(session.format(direction)),
            Err(e) => Err(e),
        }
    }

    /// What a client's format would become.
    pub fn try_fmt(
        &mut self,
        session: &EncoderSession<B, M, A>,
        queue: QueueType,
        format: V4l2Format,
    ) -> (r: Result<V4l2Format, i32>)
        requires
            old(self).serves(session),
        ensures
            *final(self) == *old(self),
            tried_format(old(self)@, session@, queue, format, r),
    {
        let direction: QueueDirection = match queue.direction_or_einval() {
            Ok(d) => d,
            Err(e) => {
                return Err(e);
            },
        };
        let p: PixFormatMplane = match format.fmt {
            FormatBody::PixMp(p) => p,
            FormatBody::Raw(_) => {
                return Err(EINVAL);
            },
        };
        match direction {
            QueueDirection::Output => {
                let coded: &CodedFormat = self.current_format(session);
                let width: u32 = coded.width.fit(
                    if p.width == 0 {
                        session.coded_size.0
                    } else {
                        p.width
                    },
                );
                let height: u32 = coded.height.fit(
                    if p.height == 0 {
                        session.coded_size.1
                    } else {
                        p.height
                    },
                );
                let c: Colorimetry = Colorimetry::from_pix_mp(&p);
                let sizeimage: u32 = nv12_sizeimage(width, height);
                Ok(
                    single_plane_format(
                        QueueType::VideoOutputMplane,
                        FOURCC_NV12,
                        width,
                        height,
                        PlanePixFormat { sizeimage, bytesperline: width },
                        c,
                    ),
                )
            },
            QueueDirection::Capture => {
                proof {
                    some_format_is_selected(self@, session@, PixelFormat(p.pixelformat));
                }
                let coded: &CodedFormat = match self.adjust_coded_format(p.pixelformat) {
                    Ok(f) => f,
                    Err(e) => {
                        return Err(e);
                    },
                };
                let width: u32 = coded.width.fit(session.coded_size.0);
                let height: u32 = coded.height.fit(session.coded_size.1);
                let sizeimage: u32 = fit_bitstream_size(width, height, p.plane0.sizeimage);
                Ok(
                    single_plane_format(
                        QueueType::VideoCaptureMplane,
                        coded.fourcc.0,
                        width,
                        height,
                        PlanePixFormat { sizeimage, bytesperline: 0 },
                        session.colorspace,
                    ),
                )
            },
        }
    }

    /// Sets the format of a queue: the codec on `CAPTURE`, the raw size on `OUTPUT`.
    pub fn s_fmt(
        &mut self,
        session: &mut EncoderSession<B, M, A>,
        queue: QueueType,
        format: V4l2Format,
    ) -> (r: Result<V4l2Format, i32>)
        requires
            old(self).serves(old(session)),
        ensures
            final(session).continues(old(session)),
            *final(self) == *old(self),
            final(self).serves(final(session)),
            old(self)@.keeps_others(final(self)@, old(session)@.id),
            final(session)@.id == old(session)@.id,
            set_format(old(self)@, old(session)@, queue, format, final(session)@, r),
    {
        let direction: QueueDirection = match queue.direction_or_einval() {
            Ok(d) => d,
            Err(e) => {
                return Err(e);
            },
        };
        if session.dead {
            return Err(ENODEV);
        }
        let ghost s = session@;
        match direction {
            QueueDirection::Capture => {
                if session.has_buffers() || session.codec_started {
                    return Err(EBUSY);
                }
                let adjusted: V4l2Format = match self.try_fmt(session, queue, format) {
                    Ok(f) => f,
                    Err(e) => {
                        return Err(e);
                    },
                };
                if let FormatBody::PixMp(p) = adjusted.fmt {
                    proof {
                        some_format_is_selected(
                            self@,
                            s,
                            PixelFormat(format.fmt->PixMp_0.pixelformat),
                        );
                        capture_format_fits(self@, s, format.fmt->PixMp_0);
                    }
                    session.coded_format = PixelFormat(p.pixelformat);
                    if p.width != session.coded_size.0 || p.height != session.coded_size.1 {
                        session.coded_size = (p.width, p.height);
                        session.crop = session.full_rect();
                    }
                    session.bitstream_size = Some(p.plane0.sizeimage);
                    assert(session@ =~= capture_format_set(self@, s, format.fmt->PixMp_0));
                }
                Ok(adjusted)
            },
            QueueDirection::Output => {
                if session.input.buffers.len() > 0 || session.codec_started {
                    return Err(EBUSY);
                }
                let adjusted: V4l2Format = match self.try_fmt(session, queue, format) {
                    Ok(f) => f,
                    Err(e) => {
                        return Err(e);
                    },
                };
                if let FormatBody::PixMp(p) = adjusted.fmt {
                    let c: Colorimetry = Colorimetry::from_pix_mp(&p);
                    proof {
                        let asked = format.fmt->PixMp_0;
                        assert(declared_colorimetry(asked).wf());
                        output_format_fits(self@, s, asked);
                    }
                    session.coded_size = (p.width, p.height);
                    session.colorspace = c;
                    session.crop = session.full_rect();
                    assert(session@ =~= output_format_set(self@, s, format.fmt->PixMp_0));
                }
                Ok(adjusted)
            },
        }
    }

    /// The visible rectangle of the raw frame, and its bounds; there is no other selection.
    pub fn g_selection(
        &mut self,
        session: &EncoderSession<B, M, A>,
        sel_type: SelectionType,
        sel_target: SelectionTarget,
    ) -> (r: Result<Rect, i32>)
        requires
            old(self).serves(session),
        ensures
            *final(self) == *old(self),
            r == selection_told(session@, sel_type, sel_target),
    {
        match (sel_type, sel_target) {
            (SelectionType::Output, SelectionTarget::CropBounds) => Ok(session.full_rect()),
            (SelectionType::Output, SelectionTarget::CropDefault) => Ok(session.full_rect()),
            (SelectionType::Output, SelectionTarget::Crop) => Ok(session.crop),
            _ => Err(EINVAL),
        }
    }

    /// Sets the visible rectangle of the raw frame.
    pub fn s_selection(
        &mut self,
        session: &mut EncoderSession<B, M, A>,
        sel_type: SelectionType,
        sel_target: SelectionTarget,
        sel_rect: Rect,
        sel_flags: SelectionFlags,
    ) -> (r: Result<Rect, i32>)
        requires
            old(self).serves(old(session)),
        ensures
            final(session).continues(old(session)),
            *final(self) == *old(self),
            final(self).serves(final(session)),
            old(self)@.keeps_others(final(self)@, old(session)@.id),
            final(session)@.id == old(session)@.id,
            (final(session)@, r) == selection_set(
                old(self)@,
                old(session)@,
                sel_type,
                sel_target,
                sel_rect,
            ),
    {
        if sel_type != SelectionType::Output || sel_target != SelectionTarget::Crop {
            return Err(EINVAL);
        }
        if session.codec_started {
            return Err(EBUSY);
        }
        proof {
            crops_lie_in_the_frame(self@, session@, sel_rect);
        }
        let f: &CodedFormat = self.current_format(session);
        let (left, width) = fit_crop_axis(
            &f.width,
            session.coded_size.0,
            sel_rect.left,
            sel_rect.width,
        );
        let (top, height) = fit_crop_axis(
            &f.height,
            session.coded_size.1,
            sel_rect.top,
            sel_rect.height,
        );
        session.crop = Rect { left, top, width, height };
        Ok(session.crop)
    }

    /// The frame rate, which only the raw queue has.
    pub fn g_parm(&mut self, session: &EncoderSession<B, M, A>, queue: QueueType) -> (r: Result<
        StreamParm,
        i32,
    >)
        requires
            old(self).serves(session),
        ensures
            *final(self) == *old(self),
            r == parm_told(session@, queue),
    {
        match queue.direction_or_einval() {
            Ok(QueueDirection::Output) => Ok(session.streamparm()),
            Ok(QueueDirection::Capture) => Err(ENOTTY),
            Err(e) => Err(e),
        }
    }

    /// Sets the frame rate the codec is created with: the interval as given when the format
    /// sustains it, else the nearest end of the range; a fraction that is no rate asks for the
    /// default. A running codec keeps its rate.
    pub fn s_parm(&mut self, session: &mut EncoderSession<B, M, A>, parm: StreamParm) -> (r: Result<
        StreamParm,
        i32,
    >)
        requires
            old(self).serves(old(session)),
        ensures
            final(session).continues(old(session)),
            *final(self) == *old(self),
            final(self).serves(final(session)),
            old(self)@.keeps_others(final(self)@, old(session)@.id),
            final(session)@.id == old(session)@.id,
            (final(session)@, r) == parm_set(old(self)@, old(session)@, parm),
    {
        let queue: QueueType = match QueueType::n(parm.type_) {
            Some(q) => q,
            None => {
                return Err(EINVAL);
            },
        };
        match queue.direction_or_einval() {
            Ok(QueueDirection::Output) => {},
            Ok(QueueDirection::Capture) => {
                return Err(ENOTTY);
            },
            Err(e) => {
                return Err(e);
            },
        }
        if session.dead {
            return Err(ENODEV);
        }
        let f: &CodedFormat = self.current_format(session);
        session.timeperframe = f.frame_rate.fit_interval(parm.numerator, parm.denominator);
        Ok(session.streamparm())
    }
}

} // verus!
