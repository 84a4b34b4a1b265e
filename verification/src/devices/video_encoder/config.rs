//! What a codec is created with.
use vstd::prelude::*;

use super::backend::{CodecCall, EncoderConfig, FrameRate, VideoEncoderBackend};
use super::capabilities::{CodedFormat, CodedFormatView, VideoBitrateMode, VideoHeaderMode};
use super::codec::feeds;
use super::control_table::{control_index, has_id, place};
use super::controls::{
    contains, V4L2_CID_MPEG_VIDEO_BITRATE, V4L2_CID_MPEG_VIDEO_BITRATE_MODE,
    V4L2_CID_MPEG_VIDEO_GOP_SIZE, V4L2_CID_MPEG_VIDEO_H264_LEVEL, V4L2_CID_MPEG_VIDEO_H264_MAX_QP,
    V4L2_CID_MPEG_VIDEO_H264_MIN_QP, V4L2_CID_MPEG_VIDEO_H264_PROFILE,
    V4L2_CID_MPEG_VIDEO_HEADER_MODE, V4L2_CID_MPEG_VIDEO_HEVC_LEVEL,
    V4L2_CID_MPEG_VIDEO_HEVC_MAX_QP, V4L2_CID_MPEG_VIDEO_HEVC_MIN_QP,
    V4L2_CID_MPEG_VIDEO_HEVC_PROFILE, V4L2_CID_MPEG_VIDEO_PREPEND_SPSPPS_TO_IDR,
    V4L2_CID_MPEG_VIDEO_VP8_PROFILE, V4L2_CID_MPEG_VIDEO_VP9_PROFILE,
};
use super::device::{DeviceView, EncoderSession, VideoEncoder};
use super::ranges::{held, max, min, ControlRange, QpRange};
use super::session::SessionView;
use crate::host::{
    VirtioMediaBufferAllocator, VirtioMediaEventQueue, VirtioMediaGuestMemoryMapper,
    VirtioMediaHostMemoryMapper,
};
use crate::v4l2::{FOURCC_H264, FOURCC_HEVC, FOURCC_VP80, FOURCC_VP90};

verus! {

/// The current value of a control, if the device has it.
pub open spec fn value_of<GM, H, S, K>(
    d: DeviceView<GM, H, S, K>,
    s: SessionView<GM, H>,
    id: u32,
) -> Option<i32> {
    if has_id(d.controls, id) {
        Some(s.ctrl_values[place(d.controls, id)])
    } else {
        None
    }
}

/// A value held to the range of the selected format, its default where there is none, and never
/// negative.
pub open spec fn held_value(range: ControlRange, value: Option<i32>) -> u32 {
    max(
        range.clamped(
            match value {
                Some(v) => v as int,
                None => range.default as int,
            },
        ),
        0,
    ) as u32
}

/// Whether a menu value is one of the modes.
pub open spec fn offers_mode(modes: Seq<VideoBitrateMode>, value: Option<i32>) -> bool {
    exists|m: VideoBitrateMode| #[trigger] modes.contains(m) && value == Some(m.value())
}

/// The bitrate mode a codec is created with: the control's if the format offers it, else the
/// format's first, else variable.
pub open spec fn mode_of(modes: Seq<VideoBitrateMode>, value: Option<i32>) -> VideoBitrateMode {
    if offers_mode(modes, value) {
        choose|m: VideoBitrateMode| #[trigger] modes.contains(m) && value == Some(m.value())
    } else if modes.len() > 0 {
        modes[0]
    } else {
        VideoBitrateMode::VariableBitrate
    }
}

/// The choice of a menu of the selected format: the control's value if the format offers it, else
/// the format's first. None where the format has none.
pub open spec fn picked(choices: Seq<i32>, value: Option<i32>) -> Option<i32> {
    match value {
        Some(v) => if choices.contains(v) {
            Some(v)
        } else if choices.len() > 0 {
            Some(choices[0])
        } else {
            None
        },
        None => if choices.len() > 0 {
            Some(choices[0])
        } else {
            None
        },
    }
}

/// The profile control of a codec.
pub open spec fn profile_id(fourcc: u32) -> u32 {
    if fourcc == FOURCC_H264 {
        V4L2_CID_MPEG_VIDEO_H264_PROFILE
    } else if fourcc == FOURCC_HEVC {
        V4L2_CID_MPEG_VIDEO_HEVC_PROFILE
    } else if fourcc == FOURCC_VP80 {
        V4L2_CID_MPEG_VIDEO_VP8_PROFILE
    } else if fourcc == FOURCC_VP90 {
        V4L2_CID_MPEG_VIDEO_VP9_PROFILE
    } else {
        0
    }
}

/// The level control of a codec.
pub open spec fn level_id(fourcc: u32) -> u32 {
    if fourcc == FOURCC_H264 {
        V4L2_CID_MPEG_VIDEO_H264_LEVEL
    } else if fourcc == FOURCC_HEVC {
        V4L2_CID_MPEG_VIDEO_HEVC_LEVEL
    } else {
        0
    }
}

/// The quantiser controls of a codec, least and greatest.
pub open spec fn qp_ids(fourcc: u32) -> Option<(u32, u32)> {
    if fourcc == FOURCC_H264 {
        Some((V4L2_CID_MPEG_VIDEO_H264_MIN_QP, V4L2_CID_MPEG_VIDEO_H264_MAX_QP))
    } else if fourcc == FOURCC_HEVC {
        Some((V4L2_CID_MPEG_VIDEO_HEVC_MIN_QP, V4L2_CID_MPEG_VIDEO_HEVC_MAX_QP))
    } else {
        None
    }
}

/// The quantisers a codec is created with: both held to the format's range, the least never above
/// the greatest.
pub open spec fn qp_pair(range: QpRange, lo: Option<i32>, hi: Option<i32>) -> (i32, i32) {
    let a = held(
        match lo {
            Some(v) => v as int,
            None => range.min as int,
        },
        range.min as int,
        range.max as int,
    );
    let b = held(
        match hi {
            Some(v) => v as int,
            None => range.max as int,
        },
        range.min as int,
        range.max as int,
    );
    (min(a, b) as i32, b as i32)
}

/// What the codec of a session is created with for its selected format.
pub open spec fn config_of<GM, H, S, K>(
    d: DeviceView<GM, H, S, K>,
    s: SessionView<GM, H>,
    f: CodedFormatView,
) -> EncoderConfig {
    let header = value_of(d, s, V4L2_CID_MPEG_VIDEO_HEADER_MODE);
    let prepend = value_of(d, s, V4L2_CID_MPEG_VIDEO_PREPEND_SPSPPS_TO_IDR);
    EncoderConfig {
        coded_format: f.fourcc,
        coded_size: s.coded_size,
        visible_rect: s.crop,
        frame_rate: FrameRate { num: s.timeperframe.1, den: s.timeperframe.0 },
        bitrate: held_value(f.bitrate, value_of(d, s, V4L2_CID_MPEG_VIDEO_BITRATE)),
        bitrate_mode: mode_of(f.bitrate_modes, value_of(d, s, V4L2_CID_MPEG_VIDEO_BITRATE_MODE)),
        gop_size: held_value(f.gop_size, value_of(d, s, V4L2_CID_MPEG_VIDEO_GOP_SIZE)),
        header_mode: if header == Some(0i32) {
            VideoHeaderMode::Separate
        } else {
            VideoHeaderMode::JoinedWith1stFrame
        },
        prepend_sps_pps_to_idr: prepend is Some && prepend != Some(0i32),
        profile: picked(f.profiles, value_of(d, s, profile_id(f.fourcc.0))),
        level: picked(f.levels, value_of(d, s, level_id(f.fourcc.0))),
        qp: match (qp_ids(f.fourcc.0), f.qp) {
            (Some((lo, hi)), Some(range)) => Some(
                qp_pair(range, value_of(d, s, lo), value_of(d, s, hi)),
            ),
            _ => None,
        },
        colorimetry: s.colorspace,
    }
}

/// Every value a codec is created with is one its format declared: the bitrate and the
/// group-of-pictures size in range, the mode, profile and level among those offered, and the
/// quantisers in range and in order.
pub proof fn config_is_what_the_format_declares<GM, H, S, K>(
    d: DeviceView<GM, H, S, K>,
    s: SessionView<GM, H>,
    f: CodedFormatView,
)
    requires
        0 <= f.bitrate.min <= f.bitrate.max,
        0 <= f.gop_size.min <= f.gop_size.max,
        f.qp matches Some(q) ==> q.min <= q.max,
    ensures
        ({
            let c = config_of(d, s, f);
            &&& f.bitrate.min <= c.bitrate <= f.bitrate.max
            &&& f.gop_size.min <= c.gop_size <= f.gop_size.max
            &&& f.bitrate_modes.len() > 0 ==> f.bitrate_modes.contains(c.bitrate_mode)
            &&& c.profile matches Some(p) ==> f.profiles.contains(p)
            &&& f.profiles.len() > 0 ==> c.profile is Some
            &&& c.level matches Some(l) ==> f.levels.contains(l)
            &&& f.levels.len() > 0 ==> c.level is Some
            &&& c.qp matches Some((lo, hi)) ==> f.qp is Some && f.qp->0.min <= lo <= hi
                <= f.qp->0.max
        }),
{
    if f.bitrate_modes.len() > 0 {
        assert(f.bitrate_modes.contains(f.bitrate_modes[0]));
    }
    if f.profiles.len() > 0 {
        assert(f.profiles.contains(f.profiles[0]));
    }
    if f.levels.len() > 0 {
        assert(f.levels.contains(f.levels[0]));
    }
}

/// What creating the codec when both queues stream, and feeding it, does. The codec's own refusal
/// to start leaves everything else as it was.
pub open spec fn starts<GM, H, S, K>(
    d: DeviceView<GM, H, S, K>,
    s: SessionView<GM, H>,
    d2: DeviceView<GM, H, S, K>,
    s2: SessionView<GM, H>,
    r: Result<(), i32>,
) -> bool {
    if !s.running() {
        r is Ok && d2 == d && s2 == s
    } else if s.codec_started {
        feeds(d, s, d2, s2, r)
    } else {
        exists|answer: Result<(), i32>|
            {
                let s1 = #[trigger] asked_to_start(d, s, answer);
                match answer {
                    Ok(_) => feeds(d, SessionView { codec_started: true, ..s1 }, d2, s2, r),
                    Err(e) => r == Err::<(), i32>(e) && d2 == d && s2 == s1,
                }
            }
    }
}

/// The session with its codec asked to start.
pub open spec fn asked_to_start<GM, H, S, K>(
    d: DeviceView<GM, H, S, K>,
    s: SessionView<GM, H>,
    answer: Result<(), i32>,
) -> SessionView<GM, H> {
    SessionView {
        codec: s.codec.push(
            CodecCall::Start { config: config_of(d, s, d.caps.format(s.coded_format)->0), answer },
        ),
        ..s
    }
}

/// A value held to a format's range.
fn hold_value(range: &ControlRange, value: Option<i32>) -> (r: u32)
    ensures
        r == held_value(*range, value),
{
    let v: i32 = range.clamp(
        match value {
            Some(v) => v,
            None => range.default,
        },
    );
    if v >= 0 {
        v as u32
    } else {
        0
    }
}

/// The bitrate mode a codec is created with.
fn pick_mode(modes: &Vec<VideoBitrateMode>, value: Option<i32>) -> (r: VideoBitrateMode)
    ensures
        r == mode_of(modes@, value),
{
    if let Some(v) = value {
        if let Some(mode) = VideoBitrateMode::n(v) {
            let mut i: usize = 0;
            while i < modes.len()
                invariant
                    i <= modes@.len(),
                    mode.value() == v,
                    value == Some(v),
                    forall|j: int| 0 <= j < i ==> modes@[j] != mode,
                decreases modes@.len() - i,
            {
                if modes[i] == mode {
                    assert(modes@.contains(mode));
                    assert(offers_mode(modes@, value));
                    return mode;
                }
                i = i + 1;
            }
            assert(!offers_mode(modes@, value)) by {
                if offers_mode(modes@, value) {
                    let m = choose|m: VideoBitrateMode| #[trigger]
                        modes@.contains(m) && value == Some(m.value());
                    assert(m == mode);
                }
            }
        }
    }
    if modes.len() > 0 {
        modes[0]
    } else {
        VideoBitrateMode::VariableBitrate
    }
}

/// The choice of a menu of the selected format.
fn pick(choices: &Vec<i32>, value: Option<i32>) -> (r: Option<i32>)
    ensures
        r == picked(choices@, value),
{
    if choices.len() == 0 {
        return None;
    }
    if let Some(v) = value {
        if contains(choices, v) {
            return Some(v);
        }
    }
    Some(choices[0])
}

/// A value held into a range.
fn hold(v: i32, lo: i32, hi: i32) -> (r: i32)
    ensures
        r == held(v as int, lo as int, hi as int),
{
    if v < lo {
        lo
    } else if v > hi {
        hi
    } else {
        v
    }
}

/// The quantisers a codec is created with.
fn hold_qp(range: QpRange, lo: Option<i32>, hi: Option<i32>) -> (r: (i32, i32))
    ensures
        r == qp_pair(range, lo, hi),
{
    let a: i32 = hold(
        match lo {
            Some(v) => v,
            None => range.min,
        },
        range.min,
        range.max,
    );
    let b: i32 = hold(
        match hi {
            Some(v) => v,
            None => range.max,
        },
        range.min,
        range.max,
    );
    (
        if a <= b {
            a
        } else {
            b
        },
        b,
    )
}

/// The controls of a codec: profile, level and quantisers.
fn codec_ids(fourcc: u32) -> (r: (u32, u32, Option<(u32, u32)>))
    ensures
        r == (profile_id(fourcc), level_id(fourcc), qp_ids(fourcc)),
{
    if fourcc == FOURCC_H264 {
        (
            V4L2_CID_MPEG_VIDEO_H264_PROFILE,
            V4L2_CID_MPEG_VIDEO_H264_LEVEL,
            Some((V4L2_CID_MPEG_VIDEO_H264_MIN_QP, V4L2_CID_MPEG_VIDEO_H264_MAX_QP)),
        )
    } else if fourcc == FOURCC_HEVC {
        (
            V4L2_CID_MPEG_VIDEO_HEVC_PROFILE,
            V4L2_CID_MPEG_VIDEO_HEVC_LEVEL,
            Some((V4L2_CID_MPEG_VIDEO_HEVC_MIN_QP, V4L2_CID_MPEG_VIDEO_HEVC_MAX_QP)),
        )
    } else if fourcc == FOURCC_VP80 {
        (V4L2_CID_MPEG_VIDEO_VP8_PROFILE, 0, None)
    } else if fourcc == FOURCC_VP90 {
        (V4L2_CID_MPEG_VIDEO_VP9_PROFILE, 0, None)
    } else {
        (0, 0, None)
    }
}

impl<B, Q, M, HM, A> VideoEncoder<B, Q, M, HM, A> where
    B: VideoEncoderBackend,
    Q: VirtioMediaEventQueue,
    M: VirtioMediaGuestMemoryMapper,
    A: VirtioMediaBufferAllocator,
    HM: VirtioMediaHostMemoryMapper<Handle = A::Handle>,
 {
    /// The current value of a control, if the device has it.
    pub(crate) fn ctrl_value(&self, session: &EncoderSession<B, M, A>, id: u32) -> (r: Option<i32>)
        requires
            self.serves(session),
        ensures
            r == value_of(self@, session@, id),
    {
        match control_index(&self.controls, id) {
            Some(i) => Some(session.ctrl_values[i]),
            None => None,
        }
    }

    /// The coded format selected on `CAPTURE`.
    pub(crate) fn current_format(&self, session: &EncoderSession<B, M, A>) -> (r: &CodedFormat)
        requires
            self.serves(session),
        ensures
            self@.caps.format(session@.coded_format) == Some(r@),
    {
        let i: usize = match self.caps.find(session.coded_format) {
            Some(i) => i,
            None => 0,
        };
        &self.caps.coded_formats[i]
    }

    /// What the codec is created with: the formats, the frame rate and the control values as they
    /// stand, held to what the backend declared for the selected format.
    pub(crate) fn config(&self, session: &EncoderSession<B, M, A>) -> (r: EncoderConfig)
        requires
            self.serves(session),
        ensures
            r == config_of(
                self@,
                session@,
                self@.caps.format(session@.coded_format)->0,
            ),
    {
        let f: &CodedFormat = self.current_format(session);
        let bitrate: u32 = hold_value(
            &f.bitrate,
            self.ctrl_value(session, V4L2_CID_MPEG_VIDEO_BITRATE),
        );
        let gop_size: u32 = hold_value(
            &f.gop_size,
            self.ctrl_value(session, V4L2_CID_MPEG_VIDEO_GOP_SIZE),
        );
        let bitrate_mode: VideoBitrateMode = pick_mode(
            &f.bitrate_modes,
            self.ctrl_value(session, V4L2_CID_MPEG_VIDEO_BITRATE_MODE),
        );
        let header_mode: VideoHeaderMode = match self.ctrl_value(
            session,
            V4L2_CID_MPEG_VIDEO_HEADER_MODE,
        ) {
            Some(0) => VideoHeaderMode::Separate,
            _ => VideoHeaderMode::JoinedWith1stFrame,
        };
        let prepend_sps_pps_to_idr: bool = match self.ctrl_value(
            session,
            V4L2_CID_MPEG_VIDEO_PREPEND_SPSPPS_TO_IDR,
        ) {
            Some(v) => v != 0,
            None => false,
        };
        let (profile_id, level_id, qp_ids) = codec_ids(f.fourcc.0);
        let profile: Option<i32> = pick(&f.profiles, self.ctrl_value(session, profile_id));
        let level: Option<i32> = pick(&f.levels, self.ctrl_value(session, level_id));
        let qp: Option<(i32, i32)> = match (qp_ids, f.qp) {
            (Some((min_id, max_id)), Some(range)) => Some(
                hold_qp(
                    range,
                    self.ctrl_value(session, min_id),
                    self.ctrl_value(session, max_id),
                ),
            ),
            _ => None,
        };
        EncoderConfig {
            coded_format: f.fourcc,
            coded_size: session.coded_size,
            visible_rect: session.crop,
            frame_rate: FrameRate { num: session.timeperframe.1, den: session.timeperframe.0 },
            bitrate,
            bitrate_mode,
            gop_size,
            header_mode,
            prepend_sps_pps_to_idr,
            profile,
            level,
            qp,
            colorimetry: session.colorspace,
        }
    }

    /// Creates the codec if both queues stream and it does not exist yet, then feeds it every
    /// buffer queued so far.
    pub(crate) fn maybe_start_codec(&mut self, session: &mut EncoderSession<B, M, A>) -> (r: Result<
        (),
        i32,
    >)
        requires
            old(self).serves(old(session)),
            !old(session)@.dead,
        ensures
            final(self).serves(final(session)),
            final(self).continues(old(self)),
            final(session).continues(old(session)),
            starts(old(self)@, old(session)@, final(self)@, final(session)@, r),
    {
        let ghost d = self@;
        let ghost s = session@;
        if !session.running() {
            return Ok(());
        }
        if !session.codec_started {
            let config: EncoderConfig = self.config(session);
            let answer = session.backend.start(&config);
            assert(session@ == asked_to_start(d, s, answer));
            if let Err(e) = answer {
                return Err(e);
            }
            session.codec_started = true;
            let ghost s1 = session@;
            let r = self.feed_pending(session);
            assert(feeds(d, s1, self@, session@, r));
            return r;
        }
        self.feed_pending(session)
    }
}

} // verus!
