//! Formats and stream parameters, as the format ioctls carry them.
use vstd::prelude::*;

use crate::v4l2::QueueType;

verus! {

/// `V4L2_CAP_TIMEPERFRAME`: the frame interval can be set.
pub const CAP_TIMEPERFRAME: u32 = 0x1000;

/// The layout of one plane of a format.
#[derive(Clone, Copy, Debug, PartialEq, Eq, Structural)]
pub struct PlanePixFormat {
    pub sizeimage: u32,
    pub bytesperline: u32,
}

/// `struct v4l2_pix_format_mplane`.
#[derive(Clone, Copy, Debug, PartialEq, Eq)]
pub struct PixFormatMplane {
    pub width: u32,
    pub height: u32,
    pub pixelformat: u32,
    pub field: u32,
    pub colorspace: u32,
    /// The first plane.
    pub plane0: PlanePixFormat,
    /// The planes after the first.
    pub more: [PlanePixFormat; 7],
    pub num_planes: u8,
    pub flags: u8,
    pub ycbcr_enc: u8,
    pub quantization: u8,
    pub xfer_func: u8,
}

/// The body of a `struct v4l2_format`.
#[derive(Clone, Copy, Debug, PartialEq, Eq)]
pub enum FormatBody {
    /// The format of a multi-planar video queue.
    PixMp(PixFormatMplane),
    /// The bytes of any other queue's format.
    Raw([u8; 200]),
}

/// `struct v4l2_format`.
#[derive(Clone, Copy, Debug, PartialEq, Eq)]
pub struct V4l2Format {
    pub type_: u32,
    pub fmt: FormatBody,
}

impl PixFormatMplane {
    /// The format with every field zero.
    pub fn empty() -> (r: PixFormatMplane)
        ensures
            r.width == 0 && r.height == 0 && r.pixelformat == 0 && r.field == 0,
            r.colorspace == 0 && r.num_planes == 0 && r.flags == 0 && r.ycbcr_enc == 0,
            r.quantization == 0 && r.xfer_func == 0,
            r.plane0 == (PlanePixFormat { sizeimage: 0, bytesperline: 0 }),
            no_more_planes(r),
    {
        let z: PlanePixFormat = PlanePixFormat { sizeimage: 0, bytesperline: 0 };
        PixFormatMplane {
            width: 0,
            height: 0,
            pixelformat: 0,
            field: 0,
            colorspace: 0,
            plane0: z,
            more: [z, z, z, z, z, z, z],
            num_planes: 0,
            flags: 0,
            ycbcr_enc: 0,
            quantization: 0,
            xfer_func: 0,
        }
    }
}

/// Whether the planes after the first are zero.
pub open spec fn no_more_planes(p: PixFormatMplane) -> bool {
    forall|i: int|
        0 <= i < 7 ==> #[trigger] p.more@[i] == (PlanePixFormat { sizeimage: 0, bytesperline: 0 })
}

impl V4l2Format {
    /// A multi-planar format.
    pub fn mplane(queue: QueueType, pix_mp: PixFormatMplane) -> (r: V4l2Format)
        ensures
            r == (V4l2Format { type_: queue.code(), fmt: FormatBody::PixMp(pix_mp) }),
    {
        V4l2Format { type_: queue.to_u32(), fmt: FormatBody::PixMp(pix_mp) }
    }
}

/// `struct v4l2_streamparm`; the capture and output parameters have one layout.
#[derive(Clone, Copy, Debug, PartialEq, Eq, Structural)]
pub struct StreamParm {
    pub type_: u32,
    pub capability: u32,
    pub mode: u32,
    /// The frame interval in seconds is `numerator / denominator`.
    pub numerator: u32,
    pub denominator: u32,
    pub extendedmode: u32,
    /// Buffers for the read or write method.
    pub buffers: u32,
}

/// The parameters with no buffers for reading and writing, which no device here offers.
pub fn patch_streamparm(parm: StreamParm) -> (r: StreamParm)
    ensures
        r == (StreamParm { buffers: 0, ..parm }),
{
    StreamParm { buffers: 0, ..parm }
}

/// A rectangle selection's kind, `struct v4l2_selection`'s type.
#[derive(Clone, Copy, Debug, PartialEq, Eq, Structural)]
pub enum SelectionType {
    Capture,
    Output,
}

impl SelectionType {
    /// The number of the type in the kernel's enum.
    pub open spec fn code(self) -> u32 {
        match self {
            SelectionType::Capture => 1,
            SelectionType::Output => 2,
        }
    }

    /// The type a number stands for.
    pub fn n(v: u32) -> (r: Option<SelectionType>)
        ensures
            r is Some <==> 1 <= v <= 2,
            r matches Some(t) ==> t.code() == v,
    {
        match v {
            1 => Some(SelectionType::Capture),
            2 => Some(SelectionType::Output),
            _ => None,
        }
    }
}

/// What a selection rectangle is about.
#[derive(Clone, Copy, Debug, PartialEq, Eq, Structural)]
pub enum SelectionTarget {
    Crop,
    CropDefault,
    CropBounds,
    NativeSize,
    Compose,
    ComposeDefault,
    ComposeBounds,
    ComposePadded,
}

impl SelectionTarget {
    /// The number of the target.
    pub open spec fn code(self) -> u32 {
        match self {
            SelectionTarget::Crop => 0,
            SelectionTarget::CropDefault => 1,
            SelectionTarget::CropBounds => 2,
            SelectionTarget::NativeSize => 3,
            SelectionTarget::Compose => 0x100,
            SelectionTarget::ComposeDefault => 0x101,
            SelectionTarget::ComposeBounds => 0x102,
            SelectionTarget::ComposePadded => 0x103,
        }
    }

    /// The target a number stands for.
    pub fn n(v: u32) -> (r: Option<SelectionTarget>)
        ensures
            r is Some <==> v <= 3 || 0x100 <= v <= 0x103,
            r matches Some(t) ==> t.code() == v,
    {
        match v {
            0 => Some(SelectionTarget::Crop),
            1 => Some(SelectionTarget::CropDefault),
            2 => Some(SelectionTarget::CropBounds),
            3 => Some(SelectionTarget::NativeSize),
            0x100 => Some(SelectionTarget::Compose),
            0x101 => Some(SelectionTarget::ComposeDefault),
            0x102 => Some(SelectionTarget::ComposeBounds),
            0x103 => Some(SelectionTarget::ComposePadded),
            _ => None,
        }
    }
}

} // verus!
