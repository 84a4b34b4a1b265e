//! What formats, visible rectangles and frame intervals become of what a client asks for.
use vstd::prelude::*;

use super::capabilities::{first_format_is_the_format, CodedFormatView};
use super::device::DeviceView;
use super::format_ioctls::crops_lie_in_the_frame;
use super::ioctls::encoder_answers;
use super::ranges::{
    crops_are_nearest, fits_are_nearest, fitted_is_in_range, has_size, is_nearest, is_nearest_crop,
    least_fit_is_least, ranges_without_sizes_are_their_least,
};
use super::session::SessionView;
use crate::errno::{EBUSY, EINVAL, ENODEV, ENOTTY};
use crate::formats::{
    FormatBody, PixFormatMplane, SelectionTarget, SelectionType, StreamParm, V4l2Format,
};
use crate::ioctl::reply::IoctlReply;
use crate::ioctl::requests::IoctlRequest;
use crate::ioctl::types::SelectionFlags;
use crate::v4l2::{PixelFormat, QueueType, Rect};

verus! {

/// Whether format `i` of a list is the first with a fourcc.
pub open spec fn comes_first(formats: Seq<CodedFormatView>, fourcc: u32, i: int) -> bool {
    &&& 0 <= i < formats.len()
    &&& formats[i].fourcc.0 == fourcc
    &&& forall|j: int| 0 <= j < i ==> (#[trigger] formats[j]).fourcc.0 != fourcc
}

/// Whether format `i` of a list is the one a client gets for a fourcc: the first that has it, or
/// the first of all where none has.
pub open spec fn stands_for(formats: Seq<CodedFormatView>, fourcc: u32, i: int) -> bool {
    ||| comes_first(formats, fourcc, i)
    ||| i == 0 && formats.len() > 0 && forall|j: int|
        0 <= j < formats.len() ==> (#[trigger] formats[j]).fourcc.0 != fourcc
}

/// Bytes of an NV12 frame: one of luma for each pixel, two of chroma for each square of four, of
/// which those at an odd edge are not whole; and no more than a 32-bit number holds.
pub open spec fn frame_bytes(width: int, height: int) -> int {
    let squares = ((width + 1) / 2) * ((height + 1) / 2);
    if width * height + 2 * squares <= 0xffff_ffff {
        width * height + 2 * squares
    } else {
        0xffff_ffff
    }
}

/// The first format with a fourcc is the one a device finds.
proof fn first_is_found<GM, H, S, K>(d: DeviceView<GM, H, S, K>, fourcc: PixelFormat, i: int)
    requires
        comes_first(d.caps.formats, fourcc.0, i),
    ensures
        d.caps.format(fourcc) == Some(d.caps.formats[i]),
        d.caps.selected(fourcc) == Some(d.caps.formats[i]),
{
    assert(d.caps.is_first(fourcc, i));
    assert(d.caps.offers(fourcc));
    first_format_is_the_format(d.caps, fourcc, i);
}

/// The format a client gets for a fourcc is the one a device selects.
proof fn stand_in_is_selected<GM, H, S, K>(d: DeviceView<GM, H, S, K>, fourcc: u32, i: int)
    requires
        stands_for(d.caps.formats, fourcc, i),
    ensures
        d.caps.selected(PixelFormat(fourcc)) == Some(d.caps.formats[i]),
{
    if comes_first(d.caps.formats, fourcc, i) {
        first_is_found(d, PixelFormat(fourcc), i);
    } else {
        assert(!d.caps.offers(PixelFormat(fourcc)));
    }
}

/// The bytes of a frame are those a buffer for it holds.
pub proof fn frames_take_their_bytes(width: int, height: int)
    ensures
        super::ranges::nv12_bytes(width, height) == frame_bytes(width, height),
{
    let a = (width + 1) / 2;
    let b = (height + 1) / 2;
    assert(2 * a * b == 2 * (a * b)) by (nonlinear_arith);
}

/// A raw size that the selected codec has is the size a client gets when it tries or sets it,
/// whatever the session had before; any other becomes the nearest the codec has, or the lower end
/// where it has none at all, and none asked for is the current one. The frame is tightly packed
/// NV12. Setting it makes the whole frame visible.
pub proof fn raw_sizes_are_as_asked<GM, H, S, K>(
    d: DeviceView<GM, H, S, K>,
    s: SessionView<GM, H>,
    i: int,
    request: IoctlRequest,
    p: PixFormatMplane,
    format: V4l2Format,
    d2: DeviceView<GM, H, S, K>,
    s2: SessionView<GM, H>,
    reply: IoctlReply,
)
    requires
        d.fits(s),
        comes_first(d.caps.formats, s.coded_format.0, i),
        format.fmt == FormatBody::PixMp(p),
        request == (IoctlRequest::TryFmt { queue: QueueType::VideoOutputMplane, format }) || (
        request == (IoctlRequest::SFmt { queue: QueueType::VideoOutputMplane, format }) && !s.dead
            && !s.codec_started && s.input.buffers.len() == 0),
        encoder_answers(d, s, request, d2, s2, reply),
    ensures
        reply is Format,
        reply->Format_format.type_ == 10,
        reply->Format_format.fmt is PixMp,
        ({
            let q = reply->Format_format.fmt->PixMp_0;
            let coded = d.caps.formats[i];
            &&& p.width >= 1 && has_size(coded.width, p.width as int) ==> q.width == p.width
            &&& p.height >= 1 && has_size(coded.height, p.height as int) ==> q.height == p.height
            &&& p.width >= 1 ==> is_nearest(coded.width, p.width as int, q.width as int)
            &&& p.height >= 1 ==> is_nearest(coded.height, p.height as int, q.height as int)
            &&& (forall|m: int| m >= 1 ==> !#[trigger] has_size(coded.width, m)) ==> q.width == (
            if coded.width.min >= 1 {
                coded.width.min
            } else {
                1
            })
            &&& (forall|m: int| m >= 1 ==> !#[trigger] has_size(coded.height, m)) ==> q.height == (
            if coded.height.min >= 1 {
                coded.height.min
            } else {
                1
            })
            &&& p.width == 0 ==> q.width == s.coded_size.0
            &&& p.height == 0 ==> q.height == s.coded_size.1
            &&& q.pixelformat == 0x3231_564e
            &&& q.num_planes == 1
            &&& q.field == 1
            &&& q.plane0.bytesperline == q.width
            &&& q.plane0.sizeimage == frame_bytes(q.width as int, q.height as int)
            &&& 1 <= p.colorspace < 255 && p.colorspace != 4 && p.colorspace != 7 ==> q.colorspace
                == p.colorspace
            &&& p.colorspace == 0 || p.colorspace == 4 || p.colorspace == 7 || p.colorspace >= 255
                ==> q.colorspace == 3
            &&& q.ycbcr_enc == p.ycbcr_enc || (p.ycbcr_enc == 255 && q.ycbcr_enc == 0)
            &&& p.ycbcr_enc == 255 ==> q.ycbcr_enc == 0
            &&& q.quantization == p.quantization || (p.quantization == 255 && q.quantization == 0)
            &&& p.quantization == 255 ==> q.quantization == 0
            &&& q.xfer_func == p.xfer_func || (p.xfer_func == 255 && q.xfer_func == 0)
            &&& p.xfer_func == 255 ==> q.xfer_func == 0
            &&& q.flags == 0
            &&& request is TryFmt ==> s2 == s
            &&& request is SFmt ==> s2.coded_size == (q.width, q.height) && s2.crop == (Rect {
                left: 0,
                top: 0,
                width: q.width,
                height: q.height,
            }) && s2.colorspace.colorspace == q.colorspace && s2.colorspace.ycbcr_enc
                == q.ycbcr_enc && s2.colorspace.quantization == q.quantization
                && s2.colorspace.xfer_func == q.xfer_func && s2 == (SessionView {
                coded_size: s2.coded_size,
                crop: s2.crop,
                colorspace: s2.colorspace,
                ..s
            })
        }),
        d2 == d,
{
    first_is_found(d, s.coded_format, i);
    let coded = d.caps.formats[i];
    fitted_is_in_range(coded.width, s.coded_size.0 as int);
    fitted_is_in_range(coded.height, s.coded_size.1 as int);
    fitted_is_in_range(coded.width, p.width as int);
    fitted_is_in_range(coded.height, p.height as int);
    if p.width >= 1 {
        fits_are_nearest(coded.width, p.width as int);
    }
    if p.height >= 1 {
        fits_are_nearest(coded.height, p.height as int);
    }
    if forall|m: int| m >= 1 ==> !#[trigger] has_size(coded.width, m) {
        ranges_without_sizes_are_their_least(coded.width, p.width as int);
        ranges_without_sizes_are_their_least(coded.width, s.coded_size.0 as int);
    }
    if forall|m: int| m >= 1 ==> !#[trigger] has_size(coded.height, m) {
        ranges_without_sizes_are_their_least(coded.height, p.height as int);
        ranges_without_sizes_are_their_least(coded.height, s.coded_size.1 as int);
    }
    let q = reply->Format_format.fmt->PixMp_0;
    frames_take_their_bytes(q.width as int, q.height as int);
    super::ranges::nv12_bytes_fit(q.width as int, q.height as int);
}

/// The bitstream size a client that asks for none gets: half a frame, but a quarter of a mebibyte
/// at least.
pub open spec fn usual_bitstream(width: int, height: int) -> int {
    if frame_bytes(width, height) / 2 >= 0x4_0000 {
        frame_bytes(width, height) / 2
    } else {
        0x4_0000
    }
}

/// A codec that the backend offers is the one a client gets when it tries or sets it, and the first
/// one is it for any other. The raw size stays where that codec has it, and becomes the nearest it
/// has where not; the visible rectangle stays with it. A bitstream size from 64 kibibytes to four
/// mebibytes, or to four times the usual, is as asked.
pub proof fn codecs_are_as_asked<GM, H, S, K>(
    d: DeviceView<GM, H, S, K>,
    s: SessionView<GM, H>,
    i: int,
    request: IoctlRequest,
    p: PixFormatMplane,
    format: V4l2Format,
    d2: DeviceView<GM, H, S, K>,
    s2: SessionView<GM, H>,
    reply: IoctlReply,
)
    requires
        d.fits(s),
        stands_for(d.caps.formats, p.pixelformat, i),
        format.fmt == FormatBody::PixMp(p),
        request == (IoctlRequest::TryFmt { queue: QueueType::VideoCaptureMplane, format }) || (
        request == (IoctlRequest::SFmt { queue: QueueType::VideoCaptureMplane, format }) && !s.dead
            && !s.codec_started && s.input.buffers.len() == 0 && s.output.buffers.len() == 0),
        encoder_answers(d, s, request, d2, s2, reply),
    ensures
        reply is Format,
        reply->Format_format.type_ == 9,
        reply->Format_format.fmt is PixMp,
        ({
            let q = reply->Format_format.fmt->PixMp_0;
            let coded = d.caps.formats[i];
            let asked = p.plane0.sizeimage;
            let usual = usual_bitstream(q.width as int, q.height as int);
            &&& q.pixelformat == coded.fourcc.0
            &&& (exists|j: int|
                0 <= j < d.caps.formats.len() && (#[trigger] d.caps.formats[j]).fourcc.0
                    == p.pixelformat) ==> q.pixelformat == p.pixelformat
            &&& has_size(coded.width, s.coded_size.0 as int) ==> q.width == s.coded_size.0
            &&& has_size(coded.height, s.coded_size.1 as int) ==> q.height == s.coded_size.1
            &&& is_nearest(coded.width, s.coded_size.0 as int, q.width as int)
            &&& is_nearest(coded.height, s.coded_size.1 as int, q.height as int)
            &&& q.num_planes == 1
            &&& q.field == 1
            &&& q.plane0.bytesperline == 0
            &&& asked < 0x1_0000 ==> q.plane0.sizeimage == usual
            &&& 0x1_0000 <= asked && (asked <= 0x40_0000 || asked <= 4 * usual)
                ==> q.plane0.sizeimage == asked
            &&& asked > 0x40_0000 && asked > 4 * usual ==> q.plane0.sizeimage == (if 4 * usual
                >= 0x40_0000 {
                4 * usual
            } else {
                0x40_0000
            })
            &&& q.colorspace == s.colorspace.colorspace && q.ycbcr_enc == s.colorspace.ycbcr_enc
                && q.quantization == s.colorspace.quantization && q.xfer_func
                == s.colorspace.xfer_func
            &&& q.flags == 0
            &&& request is TryFmt ==> s2 == s
            &&& request is SFmt ==> s2.coded_format.0 == q.pixelformat && s2.coded_size == (
                q.width,
                q.height,
            ) && s2.bitstream_size == Some(q.plane0.sizeimage) && s2.crop == (if s2.coded_size
                == s.coded_size {
                s.crop
            } else {
                Rect { left: 0, top: 0, width: q.width, height: q.height }
            }) && s2 == (SessionView {
                coded_format: s2.coded_format,
                coded_size: s2.coded_size,
                bitstream_size: s2.bitstream_size,
                crop: s2.crop,
                ..s
            })
        }),
        d2 == d,
{
    stand_in_is_selected(d, p.pixelformat, i);
    let coded = d.caps.formats[i];
    selected_sizes_are_positive(d, s);
    fitted_is_in_range(coded.width, s.coded_size.0 as int);
    fitted_is_in_range(coded.height, s.coded_size.1 as int);
    fits_are_nearest(coded.width, s.coded_size.0 as int);
    fits_are_nearest(coded.height, s.coded_size.1 as int);
    let q = reply->Format_format.fmt->PixMp_0;
    frames_take_their_bytes(q.width as int, q.height as int);
    super::ranges::nv12_bytes_fit(q.width as int, q.height as int);
}

/// The raw size of a session that a device serves is not empty.
proof fn selected_sizes_are_positive<GM, H, S, K>(
    d: DeviceView<GM, H, S, K>,
    s: SessionView<GM, H>,
)
    requires
        d.fits(s),
    ensures
        s.coded_size.0 >= 1,
        s.coded_size.1 >= 1,
{
    let f = d.caps.format(s.coded_format)->0;
    fitted_is_in_range(f.width, s.coded_size.0 as int);
    fitted_is_in_range(f.height, s.coded_size.1 as int);
}

/// A format is refused, and nothing changes, exactly where the queue is not one of the two, the
/// format is not a multi-planar one, the session is dead, or the format is in use: that of `OUTPUT`
/// by its own buffers, that of `CAPTURE` by any buffer, and both by the codec.
pub proof fn formats_in_use_are_held<GM, H, S, K>(
    d: DeviceView<GM, H, S, K>,
    s: SessionView<GM, H>,
    queue: QueueType,
    format: V4l2Format,
    d2: DeviceView<GM, H, S, K>,
    s2: SessionView<GM, H>,
    reply: IoctlReply,
)
    requires
        encoder_answers(d, s, IoctlRequest::SFmt { queue, format }, d2, s2, reply),
    ensures
        ({
            let raw = queue == QueueType::VideoOutputMplane;
            let coded = queue == QueueType::VideoCaptureMplane;
            let in_use = s.codec_started || s.input.buffers.len() > 0 || (coded
                && s.output.buffers.len() > 0);
            &&& !raw && !coded ==> reply == (IoctlReply::Refused { errno: EINVAL })
            &&& (raw || coded) && s.dead ==> reply == (IoctlReply::Refused { errno: ENODEV })
            &&& (raw || coded) && !s.dead && in_use ==> reply == (IoctlReply::Refused {
                errno: EBUSY,
            })
            &&& (raw || coded) && !s.dead && !in_use && format.fmt is Raw ==> reply == (
            IoctlReply::Refused { errno: EINVAL })
            &&& (raw || coded) && !s.dead && !in_use && format.fmt is PixMp ==> reply is Format
        }),
        reply is Refused ==> s2 == s,
        d2 == d,
{
}

/// A format can be tried at any time, dead session or not, and changes nothing; only another queue,
/// or a format that is not a multi-planar one, is refused.
pub proof fn formats_can_always_be_tried<GM, H, S, K>(
    d: DeviceView<GM, H, S, K>,
    s: SessionView<GM, H>,
    queue: QueueType,
    format: V4l2Format,
    d2: DeviceView<GM, H, S, K>,
    s2: SessionView<GM, H>,
    reply: IoctlReply,
)
    requires
        encoder_answers(d, s, IoctlRequest::TryFmt { queue, format }, d2, s2, reply),
    ensures
        reply is Format <==> format.fmt is PixMp && (queue == QueueType::VideoOutputMplane || queue
            == QueueType::VideoCaptureMplane),
        reply is Format || reply == (IoctlReply::Refused { errno: EINVAL }),
        s2 == s && d2 == d,
{
}

/// What is told of a queue's format is the raw size of the session, on `OUTPUT` a packed frame of
/// it, on `CAPTURE` the selected codec with the bitstream size that was set, or the usual one.
pub proof fn told_formats_are_the_sessions<GM, H, S, K>(
    d: DeviceView<GM, H, S, K>,
    s: SessionView<GM, H>,
    queue: QueueType,
    d2: DeviceView<GM, H, S, K>,
    s2: SessionView<GM, H>,
    reply: IoctlReply,
)
    requires
        encoder_answers(d, s, IoctlRequest::GFmt { queue }, d2, s2, reply),
    ensures
        s2 == s && d2 == d,
        queue == QueueType::VideoOutputMplane || queue == QueueType::VideoCaptureMplane
            ==> reply is Format && reply->Format_format.fmt is PixMp,
        queue != QueueType::VideoOutputMplane && queue != QueueType::VideoCaptureMplane ==> reply
            == (IoctlReply::Refused { errno: EINVAL }),
        reply is Format ==> {
            let q = reply->Format_format.fmt->PixMp_0;
            let (w, h) = (s.coded_size.0 as int, s.coded_size.1 as int);
            &&& (q.width, q.height) == s.coded_size
            &&& q.num_planes == 1 && q.field == 1 && q.flags == 0
            &&& q.colorspace == s.colorspace.colorspace && q.ycbcr_enc == s.colorspace.ycbcr_enc
                && q.quantization == s.colorspace.quantization && q.xfer_func
                == s.colorspace.xfer_func
            &&& queue == QueueType::VideoOutputMplane ==> {
                &&& reply->Format_format.type_ == 10
                &&& q.pixelformat == 0x3231_564e
                &&& q.plane0.bytesperline == w
                &&& q.plane0.sizeimage == frame_bytes(w, h)
            }
            &&& queue == QueueType::VideoCaptureMplane ==> {
                &&& reply->Format_format.type_ == 9
                &&& q.pixelformat == s.coded_format.0
                &&& q.plane0.bytesperline == 0
                &&& q.plane0.sizeimage == (match s.bitstream_size {
                    Some(n) => n as int,
                    None => usual_bitstream(w, h),
                })
            }
        },
{
    let (w, h) = (s.coded_size.0 as int, s.coded_size.1 as int);
    frames_take_their_bytes(w, h);
    super::ranges::nv12_bytes_fit(w, h);
}

/// The formats listed on `CAPTURE` are those of the backend, in its order and marked as compressed;
/// on `OUTPUT` there is NV12 alone.
pub proof fn listed_formats_are_the_backends<GM, H, S, K>(
    d: DeviceView<GM, H, S, K>,
    s: SessionView<GM, H>,
    queue: QueueType,
    index: u32,
    d2: DeviceView<GM, H, S, K>,
    s2: SessionView<GM, H>,
    reply: IoctlReply,
)
    requires
        encoder_answers(d, s, IoctlRequest::EnumFmt { queue, index }, d2, s2, reply),
    ensures
        s2 == s && d2 == d,
        reply is FmtDesc <==> (queue == QueueType::VideoCaptureMplane && index
            < d.caps.formats.len()) || (queue == QueueType::VideoOutputMplane && index == 0),
        reply is FmtDesc || reply == (IoctlReply::Refused { errno: EINVAL }),
        reply matches IoctlReply::FmtDesc { desc } ==> {
            &&& desc.index == index
            &&& queue == QueueType::VideoCaptureMplane ==> desc.type_ == 9 && desc.flags == 1
                && desc.pixelformat == d.caps.formats[index as int].fourcc.0
            &&& queue == QueueType::VideoOutputMplane ==> desc.type_ == 10 && desc.flags == 0
                && desc.pixelformat == 0x3231_564e
        },
{
}

/// The sizes listed for a codec are just those the codec has, and those listed for NV12 just those
/// of the selected codec: what lies between the ends and on the step is what a client gets as
/// asked.
pub proof fn listed_sizes_are_the_codecs<GM, H, S, K>(
    d: DeviceView<GM, H, S, K>,
    s: SessionView<GM, H>,
    i: int,
    index: u32,
    pixel_format: u32,
    d2: DeviceView<GM, H, S, K>,
    s2: SessionView<GM, H>,
    reply: IoctlReply,
    v: int,
)
    requires
        comes_first(
            d.caps.formats,
            if pixel_format == 0x3231_564e {
                s.coded_format.0
            } else {
                pixel_format
            },
            i,
        ),
        encoder_answers(d, s, IoctlRequest::EnumFrameSizes { index, pixel_format }, d2, s2, reply),
    ensures
        s2 == s && d2 == d,
        index == 0 <==> reply is FrmSize,
        index != 0 ==> reply == (IoctlReply::Refused { errno: EINVAL }),
        reply matches IoctlReply::FrmSize { size } ==> {
            &&& size.index == 0
            &&& size.pixel_format == pixel_format
            &&& size.type_ == 3
            &&& size.step_width >= 1 && size.step_height >= 1
            &&& has_size(d.caps.formats[i].width, v) <==> size.min_width <= v <= size.max_width && v
                % (size.step_width as int) == 0
            &&& has_size(d.caps.formats[i].height, v) <==> size.min_height <= v <= size.max_height
                && v % (size.step_height as int) == 0
        },
{
    let fourcc = if pixel_format == 0x3231_564e {
        s.coded_format
    } else {
        PixelFormat(pixel_format)
    };
    first_is_found(d, fourcc, i);
    assert(v % 1 == 0);
}

/// A pixel format that the backend does not offer, and that is not the raw one, has no sizes and no
/// intervals.
pub proof fn other_formats_have_no_sizes<GM, H, S, K>(
    d: DeviceView<GM, H, S, K>,
    s: SessionView<GM, H>,
    request: IoctlRequest,
    pixel_format: u32,
    d2: DeviceView<GM, H, S, K>,
    s2: SessionView<GM, H>,
    reply: IoctlReply,
)
    requires
        pixel_format != 0x3231_564e,
        forall|j: int|
            0 <= j < d.caps.formats.len() ==> (#[trigger] d.caps.formats[j]).fourcc.0
                != pixel_format,
        request matches IoctlRequest::EnumFrameSizes { pixel_format: f, .. } ==> f == pixel_format,
        request matches IoctlRequest::EnumFrameIntervals { pixel_format: f, .. } ==> f
            == pixel_format,
        request is EnumFrameSizes || request is EnumFrameIntervals,
        encoder_answers(d, s, request, d2, s2, reply),
    ensures
        reply == (IoctlReply::Refused { errno: EINVAL }),
{
    assert(!d.caps.offers(PixelFormat(pixel_format)));
}

/// The slowest rate of a range: one frame per second at least.
pub open spec fn least_rate(min: u32) -> int {
    if min >= 1 {
        min as int
    } else {
        1
    }
}

/// The fastest rate of a range, where its ends are in order.
pub open spec fn most_rate(min: u32, max: u32) -> int {
    if max >= least_rate(min) {
        max as int
    } else {
        least_rate(min)
    }
}

/// The interval listed for a size is that of the codec's rates: from one over the fastest to one
/// over the slowest, and a single one where there is one rate. Only a size the codec has has one.
pub proof fn listed_intervals_are_the_codecs<GM, H, S, K>(
    d: DeviceView<GM, H, S, K>,
    s: SessionView<GM, H>,
    i: int,
    index: u32,
    pixel_format: u32,
    width: u32,
    height: u32,
    d2: DeviceView<GM, H, S, K>,
    s2: SessionView<GM, H>,
    reply: IoctlReply,
)
    requires
        comes_first(
            d.caps.formats,
            if pixel_format == 0x3231_564e {
                s.coded_format.0
            } else {
                pixel_format
            },
            i,
        ),
        encoder_answers(
            d,
            s,
            IoctlRequest::EnumFrameIntervals { index, pixel_format, width, height },
            d2,
            s2,
            reply,
        ),
    ensures
        s2 == s && d2 == d,
        ({
            let f = d.caps.formats[i];
            let slow = least_rate(f.frame_rate.min);
            let fast = most_rate(f.frame_rate.min, f.frame_rate.max);
            &&& reply is FrmIval <==> index == 0 && has_size(f.width, width as int) && has_size(
                f.height,
                height as int,
            )
            &&& reply is FrmIval || reply == (IoctlReply::Refused { errno: EINVAL })
            &&& reply matches IoctlReply::FrmIval { interval: v } ==> {
                &&& v.index == 0
                &&& v.pixel_format == pixel_format
                &&& v.width == width
                &&& v.height == height
                &&& v.min.numerator == 1 && v.min.denominator == fast
                &&& slow < fast ==> v.type_ == 2 && v.max.numerator == 1 && v.max.denominator
                    == slow && v.step.numerator == 1 && v.step.denominator == 1
                &&& slow == fast ==> v.type_ == 1 && v.max.numerator == 0 && v.max.denominator == 0
                    && v.step.numerator == 0 && v.step.denominator == 0
            }
        }),
{
    let fourcc = if pixel_format == 0x3231_564e {
        s.coded_format
    } else {
        PixelFormat(pixel_format)
    };
    first_is_found(d, fourcc, i);
    assert(width as int % 1 == 0 && height as int % 1 == 0);
}

/// An interval whose rate the selected codec sustains is as a client asks; a rate too fast becomes
/// the fastest, one too slow the slowest, and a fraction that is no rate asks for thirty frames per
/// second, or the nearest there is. It is the rate of the session from then on.
pub proof fn intervals_are_as_asked<GM, H, S, K>(
    d: DeviceView<GM, H, S, K>,
    s: SessionView<GM, H>,
    i: int,
    parm: StreamParm,
    d2: DeviceView<GM, H, S, K>,
    s2: SessionView<GM, H>,
    reply: IoctlReply,
)
    requires
        comes_first(d.caps.formats, s.coded_format.0, i),
        encoder_answers(d, s, IoctlRequest::SParm { parm }, d2, s2, reply),
    ensures
        d2 == d,
        reply is Parm <==> parm.type_ == 10 && !s.dead,
        parm.type_ == 9 ==> reply == (IoctlReply::Refused { errno: ENOTTY }),
        parm.type_ != 9 && parm.type_ != 10 ==> reply == (IoctlReply::Refused { errno: EINVAL }),
        parm.type_ == 10 && s.dead ==> reply == (IoctlReply::Refused { errno: ENODEV }),
        reply is Refused ==> s2 == s,
        reply matches IoctlReply::Parm { parm: q } ==> {
            let f = d.caps.formats[i];
            let slow = least_rate(f.frame_rate.min);
            let fast = most_rate(f.frame_rate.min, f.frame_rate.max);
            let (num, den) = (parm.numerator as int, parm.denominator as int);
            &&& q.type_ == 10
            &&& q.capability == 0x1000 && q.mode == 0 && q.extendedmode == 0 && q.buffers == 0
            &&& s2 == (SessionView { timeperframe: (q.numerator, q.denominator), ..s })
            &&& num >= 1 && den >= 1 && slow * num <= den <= fast * num ==> q.numerator == num
                && q.denominator == den
            &&& num >= 1 && den > fast * num ==> q.numerator == 1 && q.denominator == fast
            &&& num >= 1 && 1 <= den < slow * num ==> q.numerator == 1 && q.denominator == slow
            &&& num == 0 || den == 0 ==> q.numerator == 1 && q.denominator == (if 30 < slow {
                slow
            } else if 30 > fast {
                fast
            } else {
                30
            })
        },
{
    first_is_found(d, s.coded_format, i);
    let f = d.caps.formats[i];
    let (num, den) = (parm.numerator as int, parm.denominator as int);
    let slow = least_rate(f.frame_rate.min);
    let fast = most_rate(f.frame_rate.min, f.frame_rate.max);
    assert(num >= 0 ==> slow * num <= fast * num) by (nonlinear_arith)
        requires
            slow <= fast,
    ;
}

/// The interval told is that of the session.
pub proof fn told_intervals_are_the_sessions<GM, H, S, K>(
    d: DeviceView<GM, H, S, K>,
    s: SessionView<GM, H>,
    queue: QueueType,
    d2: DeviceView<GM, H, S, K>,
    s2: SessionView<GM, H>,
    reply: IoctlReply,
)
    requires
        encoder_answers(d, s, IoctlRequest::GParm { queue }, d2, s2, reply),
    ensures
        s2 == s && d2 == d,
        queue == QueueType::VideoOutputMplane ==> reply is Parm && (
            reply->parm.numerator,
            reply->parm.denominator,
        ) == s.timeperframe && reply->parm.type_ == 10 && reply->parm.capability == 0x1000
            && reply->parm.mode == 0 && reply->parm.extendedmode == 0 && reply->parm.buffers == 0,
        queue == QueueType::VideoCaptureMplane ==> reply == (IoctlReply::Refused { errno: ENOTTY }),
        queue != QueueType::VideoOutputMplane && queue != QueueType::VideoCaptureMplane ==> reply
            == (IoctlReply::Refused { errno: EINVAL }),
{
}

/// A visible rectangle at an even place, of a size the selected codec has and inside the frame, is
/// the one a client gets when it sets it, and the session's from then on; any other becomes the
/// nearest there is. A running codec holds the rectangle.
pub proof fn crops_are_as_asked<GM, H, S, K>(
    d: DeviceView<GM, H, S, K>,
    s: SessionView<GM, H>,
    i: int,
    sel_type: SelectionType,
    sel_target: SelectionTarget,
    asked: Rect,
    sel_flags: SelectionFlags,
    raw: [u8; 64],
    d2: DeviceView<GM, H, S, K>,
    s2: SessionView<GM, H>,
    reply: IoctlReply,
)
    requires
        d.fits(s),
        comes_first(d.caps.formats, s.coded_format.0, i),
        encoder_answers(
            d,
            s,
            IoctlRequest::SSelection { sel_type, sel_target, sel_rect: asked, sel_flags, raw },
            d2,
            s2,
            reply,
        ),
    ensures
        d2 == d,
        ({
            let crop = sel_type == SelectionType::Output && sel_target == SelectionTarget::Crop;
            let f = d.caps.formats[i];
            let (w, h) = (s.coded_size.0 as int, s.coded_size.1 as int);
            &&& !crop ==> reply == (IoctlReply::Refused { errno: EINVAL })
            &&& crop && s.codec_started ==> reply == (IoctlReply::Refused { errno: EBUSY })
            &&& crop && !s.codec_started ==> reply is Selection
            &&& reply is Refused ==> s2 == s
            &&& reply matches IoctlReply::Selection { raw: r, rect: q } ==> {
                &&& r == raw
                &&& s2 == (SessionView { crop: q, ..s })
                &&& 0 <= asked.left && asked.left % 2 == 0 && 0 <= asked.top && asked.top % 2 == 0
                    && asked.width >= 1 && has_size(f.width, asked.width as int) && asked.left
                    + asked.width <= w && asked.height >= 1 && has_size(
                    f.height,
                    asked.height as int,
                ) && asked.top + asked.height <= h ==> q == asked
                &&& is_nearest_crop(
                    f.width,
                    w,
                    asked.left as int,
                    asked.width as int,
                    q.left as int,
                    q.width as int,
                )
                &&& is_nearest_crop(
                    f.height,
                    h,
                    asked.top as int,
                    asked.height as int,
                    q.top as int,
                    q.height as int,
                )
            }
        }),
{
    first_is_found(d, s.coded_format, i);
    let f = d.caps.formats[i];
    let (w, h) = (s.coded_size.0 as int, s.coded_size.1 as int);
    least_fit_is_least(f.width, w);
    least_fit_is_least(f.height, h);
    crops_are_nearest(f.width, w, asked.left as int, asked.width as int);
    crops_are_nearest(f.height, h, asked.top as int, asked.height as int);
    crops_lie_in_the_frame(d, s, asked);
    assert(has_size(f.width, asked.width as int) || !has_size(f.width, asked.width as int));
    assert(has_size(f.height, asked.height as int) || !has_size(f.height, asked.height as int));
    super::ranges::crop_stays_in_the_frame(f.width, w, asked.left as int, asked.width as int);
    super::ranges::crop_stays_in_the_frame(f.height, h, asked.top as int, asked.height as int);
}

/// The visible rectangle told is the session's; it may be set to the whole raw frame, which it is
/// at first.
pub proof fn told_crops_are_the_sessions<GM, H, S, K>(
    d: DeviceView<GM, H, S, K>,
    s: SessionView<GM, H>,
    sel_type: SelectionType,
    sel_target: SelectionTarget,
    raw: [u8; 64],
    d2: DeviceView<GM, H, S, K>,
    s2: SessionView<GM, H>,
    reply: IoctlReply,
)
    requires
        encoder_answers(
            d,
            s,
            IoctlRequest::GSelection { sel_type, sel_target, raw },
            d2,
            s2,
            reply,
        ),
    ensures
        s2 == s && d2 == d,
        sel_type == SelectionType::Output && sel_target == SelectionTarget::Crop ==> reply == (
        IoctlReply::Selection { raw, rect: s.crop }),
        sel_type == SelectionType::Output && (sel_target == SelectionTarget::CropBounds
            || sel_target == SelectionTarget::CropDefault) ==> reply == (IoctlReply::Selection {
            raw,
            rect: Rect { left: 0, top: 0, width: s.coded_size.0, height: s.coded_size.1 },
        }),
        sel_type == SelectionType::Capture || (sel_target != SelectionTarget::Crop && sel_target
            != SelectionTarget::CropBounds && sel_target != SelectionTarget::CropDefault)
            ==> reply == (IoctlReply::Refused { errno: EINVAL }),
{
}

} // verus!
