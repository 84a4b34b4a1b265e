//! What a codec backend declares it can do.
use vstd::prelude::*;

use super::ranges::{ControlRange, FrameRateRange, QpRange, SizeRange};
use crate::v4l2::PixelFormat;

verus! {

/// The items of the bitrate mode menu.
#[derive(Clone, Copy, Debug, PartialEq, Eq, Structural)]
pub enum VideoBitrateMode {
    VariableBitrate,
    ConstantBitrate,
    ConstantQuality,
}

impl VideoBitrateMode {
    /// The menu value of the mode.
    pub open spec fn value(self) -> i32 {
        match self {
            VideoBitrateMode::VariableBitrate => 0,
            VideoBitrateMode::ConstantBitrate => 1,
            VideoBitrateMode::ConstantQuality => 2,
        }
    }

    /// The menu value of the mode.
    pub fn to_i32(self) -> (r: i32)
        ensures
            r == self.value(),
    {
        match self {
            VideoBitrateMode::VariableBitrate => 0,
            VideoBitrateMode::ConstantBitrate => 1,
            VideoBitrateMode::ConstantQuality => 2,
        }
    }

    /// The mode a menu value stands for.
    pub fn n(v: i32) -> (r: Option<VideoBitrateMode>)
        ensures
            r is Some <==> 0 <= v <= 2,
            r matches Some(m) ==> m.value() == v,
    {
        match v {
            0 => Some(VideoBitrateMode::VariableBitrate),
            1 => Some(VideoBitrateMode::ConstantBitrate),
            2 => Some(VideoBitrateMode::ConstantQuality),
            _ => None,
        }
    }
}

/// The items of the sequence header mode menu.
#[derive(Clone, Copy, Debug, PartialEq, Eq, Structural)]
pub enum VideoHeaderMode {
    /// The stream headers come in a buffer of their own.
    Separate,
    /// The stream headers come in front of the first frame.
    JoinedWith1stFrame,
}

/// One coded (compressed) format the backend produces on the `CAPTURE` queue, with everything
/// the guest can ask about it.
#[derive(Debug, PartialEq, Eq)]
pub struct CodedFormat {
    /// The V4L2 fourcc: `H264`, `HEVC`, `VP80`, `VP90` or `AV01`.
    pub fourcc: PixelFormat,
    pub width: SizeRange,
    pub height: SizeRange,
    /// Frame rates the encoder sustains at any size of the range.
    pub frame_rate: FrameRateRange,
    /// Bits per second.
    pub bitrate: ControlRange,
    /// Frames between keyframes (`0`: every frame is one).
    pub gop_size: ControlRange,
    /// Bitrate modes the codec accepts, the default first.
    pub bitrate_modes: Vec<VideoBitrateMode>,
    /// Profiles, as values of the codec's profile menu, the default first. Empty: the codec has
    /// no profile control.
    pub profiles: Vec<i32>,
    /// Levels, as values of the codec's level menu, the default first. Empty: no level control.
    pub levels: Vec<i32>,
    /// The quantiser range behind `MIN_QP` / `MAX_QP`, if the codec exposes one.
    pub qp: Option<QpRange>,
}

/// A coded format as a mathematical value.
#[verifier::ext_equal]
pub struct CodedFormatView {
    pub fourcc: PixelFormat,
    pub width: SizeRange,
    pub height: SizeRange,
    pub frame_rate: FrameRateRange,
    pub bitrate: ControlRange,
    pub gop_size: ControlRange,
    pub bitrate_modes: Seq<VideoBitrateMode>,
    pub profiles: Seq<i32>,
    pub levels: Seq<i32>,
    pub qp: Option<QpRange>,
}

impl View for CodedFormat {
    type V = CodedFormatView;

    open spec fn view(&self) -> CodedFormatView {
        CodedFormatView {
            fourcc: self.fourcc,
            width: self.width,
            height: self.height,
            frame_rate: self.frame_rate,
            bitrate: self.bitrate,
            gop_size: self.gop_size,
            bitrate_modes: self.bitrate_modes@,
            profiles: self.profiles@,
            levels: self.levels@,
            qp: self.qp,
        }
    }
}

impl CodedFormat {
    /// An equal format.
    pub fn copy(&self) -> (r: CodedFormat)
        ensures
            r@ == self@,
    {
        let mut bitrate_modes: Vec<VideoBitrateMode> = Vec::new();
        let mut i: usize = 0;
        while i < self.bitrate_modes.len()
            invariant
                i <= self.bitrate_modes@.len(),
                bitrate_modes@ == self.bitrate_modes@.take(i as int),
            decreases self.bitrate_modes@.len() - i,
        {
            bitrate_modes.push(self.bitrate_modes[i]);
            i = i + 1;
        }
        let profiles: Vec<i32> = copy_values(&self.profiles);
        let levels: Vec<i32> = copy_values(&self.levels);
        CodedFormat {
            fourcc: self.fourcc,
            width: self.width,
            height: self.height,
            frame_rate: self.frame_rate,
            bitrate: self.bitrate,
            gop_size: self.gop_size,
            bitrate_modes,
            profiles,
            levels,
            qp: self.qp,
        }
    }
}

/// An equal list of menu values.
fn copy_values(v: &Vec<i32>) -> (r: Vec<i32>)
    ensures
        r@ == v@,
{
    let mut out: Vec<i32> = Vec::new();
    let mut i: usize = 0;
    while i < v.len()
        invariant
            i <= v@.len(),
            out@ == v@.take(i as int),
        decreases v@.len() - i,
    {
        out.push(v[i]);
        i = i + 1;
    }
    out
}

/// What an encoder can do, enumerated once at device creation.
#[derive(Debug, PartialEq, Eq)]
pub struct EncoderCapabilities {
    /// The coded formats, in `ENUM_FMT(CAPTURE)` order. The first is the format a session starts
    /// with.
    pub coded_formats: Vec<CodedFormat>,
    /// Least `OUTPUT` buffers the encoder needs queued to make progress.
    pub min_output_buffers: u32,
}

/// The capabilities as a mathematical value.
#[verifier::ext_equal]
pub struct CapabilitiesView {
    pub formats: Seq<CodedFormatView>,
    pub min_output_buffers: u32,
}

impl View for EncoderCapabilities {
    type V = CapabilitiesView;

    open spec fn view(&self) -> CapabilitiesView {
        CapabilitiesView {
            formats: self.coded_formats@.map_values(|f: CodedFormat| f@),
            min_output_buffers: self.min_output_buffers,
        }
    }
}

impl CapabilitiesView {
    /// Whether `i` is the first format with the given fourcc.
    pub open spec fn is_first(self, fourcc: PixelFormat, i: int) -> bool {
        &&& 0 <= i < self.formats.len()
        &&& self.formats[i].fourcc == fourcc
        &&& forall|j: int| 0 <= j < i ==> (#[trigger] self.formats[j]).fourcc != fourcc
    }

    /// Whether some format has the given fourcc.
    pub open spec fn offers(self, fourcc: PixelFormat) -> bool {
        exists|i: int| 0 <= i < self.formats.len() && (#[trigger] self.formats[i]).fourcc == fourcc
    }

    /// The first format with the given fourcc.
    pub open spec fn format(self, fourcc: PixelFormat) -> Option<CodedFormatView> {
        if self.offers(fourcc) {
            Some(self.formats[choose|i: int| self.is_first(fourcc, i)])
        } else {
            None
        }
    }

    /// The format `S_FMT(CAPTURE)` selects: the one asked for, or the first where there is none.
    pub open spec fn selected(self, fourcc: PixelFormat) -> Option<CodedFormatView> {
        if self.offers(fourcc) {
            self.format(fourcc)
        } else if self.formats.len() > 0 {
            Some(self.formats[0])
        } else {
            None
        }
    }
}

/// The first format with a fourcc is the one `format` names.
pub proof fn first_format_is_the_format(c: CapabilitiesView, fourcc: PixelFormat, i: int)
    requires
        c.is_first(fourcc, i),
    ensures
        c.offers(fourcc),
        c.format(fourcc) == Some(c.formats[i]),
{
    let k = choose|k: int| c.is_first(fourcc, k);
    assert(c.is_first(fourcc, k));
    if k < i {
        assert(c.formats[k].fourcc != fourcc);
    }
    if i < k {
        assert(c.formats[i].fourcc != fourcc);
    }
}

impl EncoderCapabilities {
    /// The index of the first format with the given fourcc.
    pub fn find(&self, fourcc: PixelFormat) -> (r: Option<usize>)
        ensures
            r is Some <==> self@.offers(fourcc),
            r matches Some(i) ==> i < self.coded_formats@.len() && self@.is_first(fourcc, i as int)
                && self@.format(fourcc) == Some(self.coded_formats@[i as int]@),
            r is None ==> self@.format(fourcc) is None,
    {
        let mut i: usize = 0;
        while i < self.coded_formats.len()
            invariant
                i <= self.coded_formats@.len(),
                forall|j: int| 0 <= j < i ==> (#[trigger] self@.formats[j]).fourcc != fourcc,
            decreases self.coded_formats@.len() - i,
        {
            assert(self@.formats[i as int] == self.coded_formats@[i as int]@);
            if self.coded_formats[i].fourcc.0 == fourcc.0 {
                proof {
                    first_format_is_the_format(self@, fourcc, i as int);
                }
                return Some(i);
            }
            i = i + 1;
        }
        None
    }

    /// Equal capabilities.
    pub fn copy(&self) -> (r: EncoderCapabilities)
        ensures
            r@ == self@,
    {
        let mut coded_formats: Vec<CodedFormat> = Vec::new();
        let mut i: usize = 0;
        while i < self.coded_formats.len()
            invariant
                i <= self.coded_formats@.len(),
                coded_formats@.len() == i,
                forall|j: int| 0 <= j < i ==> (#[trigger] coded_formats@[j])@
                    == self.coded_formats@[j]@,
            decreases self.coded_formats@.len() - i,
        {
            coded_formats.push(self.coded_formats[i].copy());
            i = i + 1;
        }
        let r = EncoderCapabilities { coded_formats, min_output_buffers: self.min_output_buffers };
        assert(r@.formats =~= self@.formats);
        r
    }
}

} // verus!
