//! What the codec is started with and lent, of what the guest set and queued.
use vstd::prelude::*;

use super::backend::EncoderConfig;
use super::capabilities::{VideoBitrateMode, VideoHeaderMode};
use super::codec::feeds;
use super::config::{mode_of, offers_mode};
use super::device::DeviceView;
use super::format_laws::comes_first;
use super::ioctls::encoder_answers;
use super::laws::the_codec_starts_with_the_second_queue;
use super::session::{SessionView, StreamingState};
use crate::errno::{EINVAL, EIO, ENODEV};
use crate::formats::{SelectionTarget, SelectionType};
use crate::ioctl::reply::IoctlReply;
use crate::ioctl::requests::IoctlRequest;
use crate::v4l2::QueueType;

verus! {

/// Whether this is what is answered to a question about a control's current value.
pub open spec fn control_read<GM, H, S, K>(
    d: DeviceView<GM, H, S, K>,
    s: SessionView<GM, H>,
    id: u32,
    reply: IoctlReply,
) -> bool {
    encoder_answers(d, s, IoctlRequest::GCtrl { id }, d, s, reply)
}

/// Whether a number is a value held between two ends, which are not negative.
pub open spec fn is_held(got: int, value: int, min: int, max: int) -> bool {
    0 <= min <= max ==> {
        &&& min <= value <= max ==> got == value
        &&& value < min ==> got == min
        &&& value > max ==> got == max
    }
}

/// The number of a bitrate mode in the menu.
pub open spec fn mode_number(mode: VideoBitrateMode) -> int {
    match mode {
        VideoBitrateMode::VariableBitrate => 0,
        VideoBitrateMode::ConstantBitrate => 1,
        VideoBitrateMode::ConstantQuality => 2,
    }
}

/// Whether a control is the profile control of a codec.
pub open spec fn is_profile_control(fourcc: u32, id: u32) -> bool {
    ||| fourcc == 0x3436_3248 && id == 0x99_0a6b
    ||| fourcc == 0x4356_4548 && id == 0x99_0b67
    ||| fourcc == 0x3038_5056 && id == 0x99_0aff
    ||| fourcc == 0x3039_5056 && id == 0x99_0b00
}

/// Whether a control is the level control of a codec.
pub open spec fn is_level_control(fourcc: u32, id: u32) -> bool {
    ||| fourcc == 0x3436_3248 && id == 0x99_0a67
    ||| fourcc == 0x4356_4548 && id == 0x99_0b68
}

/// Whether two controls are those of a codec's least and greatest quantiser.
pub open spec fn are_qp_controls(fourcc: u32, least: u32, greatest: u32) -> bool {
    ||| fourcc == 0x3436_3248 && least == 0x99_0a61 && greatest == 0x99_0a62
    ||| fourcc == 0x4356_4548 && least == 0x99_0b58 && greatest == 0x99_0b59
}

/// Whether both queues stream once one more does, and the codec is not there yet.
pub open spec fn starts_the_second<GM, H>(s: SessionView<GM, H>, queue: QueueType) -> bool {
    &&& !s.dead && !s.codec_started
    &&& queue == QueueType::VideoOutputMplane ==> s.state.capture_streaming
        && !s.state.output_streaming && s.input.buffers.len() > 0
    &&& queue == QueueType::VideoCaptureMplane ==> s.state.output_streaming
        && !s.state.capture_streaming && s.output.buffers.len() > 0
    &&& queue == QueueType::VideoOutputMplane || queue == QueueType::VideoCaptureMplane
}

/// What the codec is started with.
pub open spec fn config_started<GM, H>(s: SessionView<GM, H>, s2: SessionView<GM, H>)
    -> EncoderConfig {
    s2.codec[s.codec.len() as int]->config
}

/// When the second queue starts to stream, whichever it is, the codec is asked to start, before
/// anything else.
pub proof fn the_second_queue_starts_the_codec<GM, H, S, K>(
    d: DeviceView<GM, H, S, K>,
    s: SessionView<GM, H>,
    queue: QueueType,
    d2: DeviceView<GM, H, S, K>,
    s2: SessionView<GM, H>,
    reply: IoctlReply,
)
    requires
        starts_the_second(s, queue),
        encoder_answers(d, s, IoctlRequest::StreamOn { queue }, d2, s2, reply),
    ensures
        s2.codec.len() > s.codec.len(),
        s2.codec[s.codec.len() as int] is Start,
        s2.codec[s.codec.len() as int]->Start_answer matches Err(e) ==> {
            &&& reply == (IoctlReply::Refused { errno: e })
            &&& s2 == (SessionView { codec: s2.codec, ..s })
            &&& d2 == d
        },
        s2.codec[s.codec.len() as int]->Start_answer is Ok && reply is Done ==> s2.codec_started
            && s2.state.output_streaming && s2.state.capture_streaming,
        s2.codec[s.codec.len() as int]->Start_answer is Ok && reply is Refused ==> s2.dead && reply
            == (IoctlReply::Refused { errno: EIO }),
        reply is Done || reply is Refused,
{
    let direction = queue.video_mplane_direction()->0;
    the_codec_starts_with_the_second_queue(d, s, queue, direction, d2, s2, reply.done());
    the_start_is_recorded(d, s, queue, d2, s2, reply.done());
}

/// The record of starting the codec.
proof fn the_start_is_recorded<GM, H, S, K>(
    d: DeviceView<GM, H, S, K>,
    s: SessionView<GM, H>,
    queue: QueueType,
    d2: DeviceView<GM, H, S, K>,
    s2: SessionView<GM, H>,
    r: Result<(), i32>,
)
    requires
        starts_the_second(s, queue),
        super::stream_ioctls::stream_on(d, s, queue, d2, s2, r),
    ensures
        s2.codec.len() > s.codec.len(),
        s2.codec[s.codec.len() as int] is Start,
        s2.codec[s.codec.len() as int]->Start_answer matches Err(e) ==> {
            &&& r == Err::<(), i32>(e)
            &&& s2 == (SessionView { codec: s2.codec, ..s })
            &&& d2 == d
        },
        s2.codec[s.codec.len() as int]->Start_answer is Ok && r is Ok ==> s2.codec_started
            && s2.state.output_streaming && s2.state.capture_streaming,
        s2.codec[s.codec.len() as int]->Start_answer is Ok && r is Err ==> s2.dead && r == Err::<
            (),
            i32,
        >(EIO),
{
    let direction = queue.video_mplane_direction()->0;
    let t = s.with_streaming(direction, true);
    let s1 = choose|s1: SessionView<GM, H>|
        #![trigger super::stream_ioctls::left_streaming(s, s1, r)]
        super::config::starts(d, t, d2, s1, r) && s2 == super::stream_ioctls::left_streaming(
            s,
            s1,
            r,
        );
    let answer = choose|answer: Result<(), i32>|
        {
            let u = #[trigger] super::config::asked_to_start(d, t, answer);
            match answer {
                Ok(_) => feeds(d, SessionView { codec_started: true, ..u }, d2, s1, r),
                Err(e) => r == Err::<(), i32>(e) && d2 == d && s1 == u,
            }
        };
    let u = SessionView { codec_started: true, ..super::config::asked_to_start(d, t, answer) };
    if answer is Ok && u.feeding() && r is Err {
        let (k, errno) = choose|k: int, errno: i32|
            0 <= k < u.waiting() && s1 == #[trigger] super::codec::refused_loan(u, k, errno);
    }
}

/// The codec is started with the codec, raw size and visible rectangle, and at the rate, that the
/// guest is told at that moment, and with the colorimetry of its raw format.
pub proof fn the_codec_starts_with_the_told_formats<GM, H, S, K>(
    d: DeviceView<GM, H, S, K>,
    s: SessionView<GM, H>,
    queue: QueueType,
    d2: DeviceView<GM, H, S, K>,
    s2: SessionView<GM, H>,
    reply: IoctlReply,
    raw: [u8; 64],
    crop: IoctlReply,
    rate: IoctlReply,
    frame: IoctlReply,
    coded: IoctlReply,
)
    requires
        d.fits(s),
        starts_the_second(s, queue),
        encoder_answers(d, s, IoctlRequest::StreamOn { queue }, d2, s2, reply),
        encoder_answers(
            d,
            s,
            IoctlRequest::GSelection {
                sel_type: SelectionType::Output,
                sel_target: SelectionTarget::Crop,
                raw,
            },
            d,
            s,
            crop,
        ),
        encoder_answers(
            d,
            s,
            IoctlRequest::GParm { queue: QueueType::VideoOutputMplane },
            d,
            s,
            rate,
        ),
        encoder_answers(
            d,
            s,
            IoctlRequest::GFmt { queue: QueueType::VideoOutputMplane },
            d,
            s,
            frame,
        ),
        encoder_answers(
            d,
            s,
            IoctlRequest::GFmt { queue: QueueType::VideoCaptureMplane },
            d,
            s,
            coded,
        ),
    ensures
        ({
            let c = config_started(s, s2);
            let p = frame->Format_format.fmt->PixMp_0;
            &&& crop is Selection && c.visible_rect == crop->rect && c.visible_rect == s.crop
            &&& rate is Parm && c.frame_rate.num == rate->parm.denominator && c.frame_rate.den
                == rate->parm.numerator
            &&& (c.frame_rate.den, c.frame_rate.num) == s.timeperframe
            &&& frame is Format && c.coded_size == (p.width, p.height) && c.coded_size
                == s.coded_size
            &&& c.colorimetry.colorspace == p.colorspace && c.colorimetry.ycbcr_enc == p.ycbcr_enc
                && c.colorimetry.quantization == p.quantization && c.colorimetry.xfer_func
                == p.xfer_func
            &&& coded is Format && c.coded_format.0
                == coded->Format_format.fmt->PixMp_0.pixelformat && c.coded_format
                == s.coded_format
        }),
{
    let direction = queue.video_mplane_direction()->0;
    the_codec_starts_with_the_second_queue(d, s, queue, direction, d2, s2, reply.done());
    assert(d.caps.offers(s.coded_format));
    let n = choose|n: int|
        0 <= n < d.caps.formats.len() && (#[trigger] d.caps.formats[n]).fourcc == s.coded_format;
    let i = super::format_ioctls::first_index(d.caps, s.coded_format, n);
    super::capabilities::first_format_is_the_format(d.caps, s.coded_format, i);
}

/// The codec is started at the bitrate and with the group-of-pictures size that the guest reads of
/// the controls at that moment, held to what the selected codec takes; with the mode it reads if
/// the codec has it, and the codec's first if not; and with the headers where it reads that they
/// are.
pub proof fn the_codec_starts_with_the_read_controls<GM, H, S, K>(
    d: DeviceView<GM, H, S, K>,
    s: SessionView<GM, H>,
    i: int,
    queue: QueueType,
    d2: DeviceView<GM, H, S, K>,
    s2: SessionView<GM, H>,
    reply: IoctlReply,
    bitrate: IoctlReply,
    gop_size: IoctlReply,
    mode: IoctlReply,
    header: IoctlReply,
    prepend: IoctlReply,
)
    requires
        comes_first(d.caps.formats, s.coded_format.0, i),
        starts_the_second(s, queue),
        encoder_answers(d, s, IoctlRequest::StreamOn { queue }, d2, s2, reply),
        control_read(d, s, 0x99_09cf, bitrate),
        control_read(d, s, 0x99_09cb, gop_size),
        control_read(d, s, 0x99_09ce, mode),
        control_read(d, s, 0x99_09d8, header),
        control_read(d, s, 0x99_0b84, prepend),
    ensures
        ({
            let c = config_started(s, s2);
            let f = d.caps.formats[i];
            &&& bitrate matches IoctlReply::Control { ctrl } ==> ctrl.id == 0x99_09cf && is_held(
                c.bitrate as int,
                ctrl.value as int,
                f.bitrate.min as int,
                f.bitrate.max as int,
            )
            &&& gop_size matches IoctlReply::Control { ctrl } ==> is_held(
                c.gop_size as int,
                ctrl.value as int,
                f.gop_size.min as int,
                f.gop_size.max as int,
            )
            &&& mode matches IoctlReply::Control { ctrl } ==> {
                &&& (exists|m: VideoBitrateMode| #[trigger]
                    f.bitrate_modes.contains(m) && mode_number(m) == ctrl.value) ==> mode_number(
                    c.bitrate_mode,
                ) == ctrl.value
                &&& (forall|m: VideoBitrateMode| #[trigger]
                    f.bitrate_modes.contains(m) ==> mode_number(m) != ctrl.value)
                    ==> c.bitrate_mode == (if f.bitrate_modes.len() > 0 {
                    f.bitrate_modes[0]
                } else {
                    VideoBitrateMode::VariableBitrate
                })
            }
            &&& header matches IoctlReply::Control { ctrl } ==> (c.header_mode
                == VideoHeaderMode::Separate <==> ctrl.value == 0)
            &&& prepend matches IoctlReply::Control { ctrl } ==> (c.prepend_sps_pps_to_idr
                <==> ctrl.value != 0)
        }),
{
    let direction = queue.video_mplane_direction()->0;
    the_codec_starts_with_the_second_queue(d, s, queue, direction, d2, s2, reply.done());
    assert(d.caps.is_first(s.coded_format, i));
    assert(d.caps.offers(s.coded_format));
    super::capabilities::first_format_is_the_format(d.caps, s.coded_format, i);
    let f = d.caps.formats[i];
    if let IoctlReply::Control { ctrl } = mode {
        if exists|m: VideoBitrateMode| #[trigger]
            f.bitrate_modes.contains(m) && mode_number(m) == ctrl.value {
            let m = choose|m: VideoBitrateMode| #[trigger]
                f.bitrate_modes.contains(m) && mode_number(m) == ctrl.value;
            assert(m.value() == ctrl.value);
            assert(offers_mode(f.bitrate_modes, Some(ctrl.value)));
            let k = mode_of(f.bitrate_modes, Some(ctrl.value));
            assert(k.value() == ctrl.value);
        }
    }
}

/// The codec is started with the profile, level and quantisers that the guest reads of the controls
/// of the selected codec at that moment, where the codec takes them; the first profile or level it
/// takes stands for one it does not take. The greatest quantiser is held to the range, and the
/// least to what is left of it below the greatest.
pub proof fn the_codec_starts_with_its_own_controls<GM, H, S, K>(
    d: DeviceView<GM, H, S, K>,
    s: SessionView<GM, H>,
    i: int,
    queue: QueueType,
    d2: DeviceView<GM, H, S, K>,
    s2: SessionView<GM, H>,
    reply: IoctlReply,
    profile_id: u32,
    profile: IoctlReply,
    level_id: u32,
    level: IoctlReply,
    qp_ids: (u32, u32),
    least: IoctlReply,
    greatest: IoctlReply,
)
    requires
        comes_first(d.caps.formats, s.coded_format.0, i),
        starts_the_second(s, queue),
        encoder_answers(d, s, IoctlRequest::StreamOn { queue }, d2, s2, reply),
        control_read(d, s, profile_id, profile),
        control_read(d, s, level_id, level),
        control_read(d, s, qp_ids.0, least),
        control_read(d, s, qp_ids.1, greatest),
    ensures
        ({
            let c = config_started(s, s2);
            let f = d.caps.formats[i];
            let fourcc = s.coded_format.0;
            &&& is_profile_control(fourcc, profile_id) ==> {
                profile matches IoctlReply::Control { ctrl } ==> {
                    &&& f.profiles.contains(ctrl.value) ==> c.profile == Some(ctrl.value)
                    &&& !f.profiles.contains(ctrl.value) && f.profiles.len() > 0 ==> c.profile
                        == Some(f.profiles[0])
                }
            }
            &&& is_level_control(fourcc, level_id) ==> {
                level matches IoctlReply::Control { ctrl } ==> {
                    &&& f.levels.contains(ctrl.value) ==> c.level == Some(ctrl.value)
                    &&& !f.levels.contains(ctrl.value) && f.levels.len() > 0 ==> c.level == Some(
                        f.levels[0],
                    )
                }
            }
            &&& f.profiles.len() == 0 ==> c.profile is None
            &&& f.levels.len() == 0 ==> c.level is None
            &&& f.qp is None ==> c.qp is None
            &&& are_qp_controls(fourcc, qp_ids.0, qp_ids.1) && f.qp is Some && least is Control
                && greatest is Control ==> {
                let (lo, hi) = (least->Control_ctrl.value, greatest->Control_ctrl.value);
                let range = f.qp->0;
                &&& c.qp is Some
                &&& range.min <= lo <= hi <= range.max ==> c.qp == Some((lo, hi))
                &&& range.min <= range.max ==> {
                    &&& is_held((c.qp->0).1 as int, hi as int, range.min as int, range.max as int)
                    &&& is_held((c.qp->0).0 as int, lo as int, range.min as int, (c.qp->0).1 as int)
                }
            }
        }),
{
    let direction = queue.video_mplane_direction()->0;
    the_codec_starts_with_the_second_queue(d, s, queue, direction, d2, s2, reply.done());
    assert(d.caps.is_first(s.coded_format, i));
    assert(d.caps.offers(s.coded_format));
    super::capabilities::first_format_is_the_format(d.caps, s.coded_format, i);
}

/// The first queue that streams asks nothing of the codec. A queue that streams already does so
/// still, and one without buffers, or of a dead session, does not start.
pub proof fn the_first_queue_only_streams<GM, H, S, K>(
    d: DeviceView<GM, H, S, K>,
    s: SessionView<GM, H>,
    queue: QueueType,
    d2: DeviceView<GM, H, S, K>,
    s2: SessionView<GM, H>,
    reply: IoctlReply,
)
    requires
        encoder_answers(d, s, IoctlRequest::StreamOn { queue }, d2, s2, reply),
    ensures
        ({
            let raw = queue == QueueType::VideoOutputMplane;
            let coded = queue == QueueType::VideoCaptureMplane;
            let filled = if raw {
                s.input.buffers.len() > 0
            } else {
                s.output.buffers.len() > 0
            };
            let streams = if raw {
                s.state.output_streaming
            } else {
                s.state.capture_streaming
            };
            let other = if raw {
                s.state.capture_streaming
            } else {
                s.state.output_streaming
            };
            &&& !raw && !coded ==> reply == (IoctlReply::Refused { errno: EINVAL }) && s2 == s
            &&& (raw || coded) && s.dead ==> reply == (IoctlReply::Refused { errno: ENODEV })
                && s2 == s
            &&& (raw || coded) && !s.dead && !filled ==> reply == (IoctlReply::Refused {
                errno: EINVAL,
            }) && s2 == s
            &&& (raw || coded) && !s.dead && filled && streams ==> reply is Done && s2 == s
                && d2 == d
            &&& (raw || coded) && !s.dead && filled && !streams && !other ==> reply is Done
                && d2 == d
                && s2 == (SessionView {
                state: StreamingState { output_streaming: raw, capture_streaming: coded },
                ..s
            })
        }),
{
    let r = reply.done();
    if queue.video_mplane_direction() is Some && !s.dead {
        let direction = queue.video_mplane_direction()->0;
        if s.queue(direction).buffers.len() > 0 && !s.streaming(direction) {
            let t = s.with_streaming(direction, true);
            let s1 = choose|s1: SessionView<GM, H>|
                #![trigger super::stream_ioctls::left_streaming(s, s1, r)]
                super::config::starts(d, t, d2, s1, r) && s2
                    == super::stream_ioctls::left_streaming(s, s1, r);
        }
    }
    assert(reply is Done || reply is Refused);
}

} // verus!
