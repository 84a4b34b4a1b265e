//! The parameters and answers of the ioctls.
use vstd::prelude::*;
use vstd::utf8::encode_utf8;

use crate::bytes::signed32;
use crate::formats::V4l2Format;

verus! {

/// The answer to an ioctl, or the errno it fails with.
pub type IoctlResult<T> = Result<T, i32>;

/// `struct v4l2_fmtdesc`.
#[derive(Clone, Copy, Debug, PartialEq, Eq)]
pub struct FmtDesc {
    pub index: u32,
    pub type_: u32,
    pub flags: u32,
    pub description: [u8; 32],
    pub pixelformat: u32,
    pub mbus_code: u32,
}

/// `struct v4l2_frmsizeenum`; a discrete size has its width and height in the first two fields of
/// the range.
#[derive(Clone, Copy, Debug, PartialEq, Eq, Structural)]
pub struct FrmSizeEnum {
    pub index: u32,
    pub pixel_format: u32,
    pub type_: u32,
    pub min_width: u32,
    pub max_width: u32,
    pub step_width: u32,
    pub min_height: u32,
    pub max_height: u32,
    pub step_height: u32,
}

/// `V4L2_FRMSIZE_TYPE_STEPWISE`.
pub const FRMSIZE_TYPE_STEPWISE: u32 = 3;

/// A fraction of a second.
#[derive(Clone, Copy, Debug, PartialEq, Eq, Structural)]
pub struct Fract {
    pub numerator: u32,
    pub denominator: u32,
}

/// `V4L2_FRMIVAL_TYPE_DISCRETE`.
pub const FRMIVAL_TYPE_DISCRETE: u32 = 1;

/// `V4L2_FRMIVAL_TYPE_CONTINUOUS`.
pub const FRMIVAL_TYPE_CONTINUOUS: u32 = 2;

/// `struct v4l2_frmivalenum`; a discrete interval is `min`, with the rest zero.
#[derive(Clone, Copy, Debug, PartialEq, Eq, Structural)]
pub struct FrmIvalEnum {
    pub index: u32,
    pub pixel_format: u32,
    pub width: u32,
    pub height: u32,
    pub type_: u32,
    pub min: Fract,
    pub max: Fract,
    pub step: Fract,
}

/// `struct v4l2_requestbuffers`.
#[derive(Clone, Copy, Debug, PartialEq, Eq, Structural)]
pub struct RequestBuffers {
    pub count: u32,
    pub type_: u32,
    pub memory: u32,
    pub capabilities: u32,
    pub flags: u8,
}

/// `struct v4l2_create_buffers`.
#[derive(Clone, Copy, Debug, PartialEq, Eq)]
pub struct CreateBuffers {
    pub index: u32,
    pub count: u32,
    pub memory: u32,
    pub format: V4l2Format,
    pub capabilities: u32,
    pub flags: u32,
}

/// `struct v4l2_control`.
#[derive(Clone, Copy, Debug, PartialEq, Eq, Structural)]
pub struct Control {
    pub id: u32,
    pub value: i32,
}

/// `struct v4l2_queryctrl`.
#[derive(Clone, Copy, Debug, PartialEq, Eq)]
pub struct QueryCtrl {
    pub id: u32,
    pub type_: u32,
    pub name: [u8; 32],
    pub minimum: i32,
    pub maximum: i32,
    pub step: i32,
    pub default_value: i32,
    pub flags: u32,
}

/// `struct v4l2_query_ext_ctrl`.
#[derive(Clone, Copy, Debug, PartialEq, Eq)]
pub struct QueryExtCtrl {
    pub id: u32,
    pub type_: u32,
    pub name: [u8; 32],
    pub minimum: i64,
    pub maximum: i64,
    pub step: u64,
    pub default_value: i64,
    pub flags: u32,
    pub elem_size: u32,
    pub elems: u32,
    pub nr_of_dims: u32,
    pub dims: (u32, u32, u32, u32),
}

/// `struct v4l2_querymenu`.
#[derive(Clone, Copy, Debug, PartialEq, Eq)]
pub struct QueryMenu {
    pub id: u32,
    pub index: u32,
    pub name: [u8; 32],
}

/// `struct v4l2_ext_controls`, without its pointer to the array.
#[derive(Clone, Copy, Debug, PartialEq, Eq, Structural)]
pub struct ExtControls {
    pub which: u32,
    pub count: u32,
    pub error_idx: u32,
    pub request_fd: i32,
    pub reserved: u32,
}

/// `struct v4l2_ext_control`; `payload` is its value or pointer.
#[derive(Clone, Copy, Debug, PartialEq, Eq, Structural)]
pub struct ExtControl {
    pub id: u32,
    pub size: u32,
    pub reserved2: u32,
    pub payload: u64,
}

impl ExtControl {
    /// The 32-bit value a plain control carries.
    pub open spec fn plain(self) -> int {
        signed32(self.payload as int % 0x1_0000_0000)
    }

    /// The control with another value.
    pub open spec fn with_plain(self, v: int) -> ExtControl {
        ExtControl { payload: crate::bytes::unsigned32(v) as u64, ..self }
    }

    /// A plain control.
    pub fn new(id: u32, value: i32) -> (r: ExtControl)
        ensures
            r.id == id,
            r.size == 0,
            r.reserved2 == 0,
            r.plain() == value,
    {
        ExtControl {
            id,
            size: 0,
            reserved2: 0,
            payload: crate::bytes::to_unsigned32(value) as u64,
        }
    }

    /// The 32-bit value a plain control carries.
    pub fn value(&self) -> (r: i32)
        ensures
            r == self.plain(),
    {
        crate::bytes::to_signed32((self.payload % 0x1_0000_0000) as u32)
    }

    /// Sets the value of a plain control.
    pub fn set_value(&mut self, v: i32)
        ensures
            *final(self) == old(self).with_plain(v as int),
            final(self).plain() == v,
    {
        self.payload = crate::bytes::to_unsigned32(v) as u64;
    }
}

/// `struct v4l2_encoder_cmd`.
#[derive(Clone, Copy, Debug, PartialEq, Eq)]
pub struct EncoderCmd {
    pub cmd: u32,
    pub flags: u32,
    pub data: (u64, u64, u64, u64),
}

/// `struct v4l2_event_subscription`.
#[derive(Clone, Copy, Debug, PartialEq, Eq, Structural)]
pub struct EventSubscription {
    pub type_: u32,
    pub id: u32,
    pub flags: u32,
}

/// What an event is about.
#[derive(Clone, Copy, Debug, PartialEq, Eq, Structural)]
pub enum EventType {
    VSync,
    Eos,
    Ctrl(u32),
    FrameSync,
    SourceChange(u32),
    MotionDet,
}

/// The event a subscription asks for, if there is such an event.
pub open spec fn event_of(s: EventSubscription) -> Option<EventType> {
    match s.type_ {
        1 => Some(EventType::VSync),
        2 => Some(EventType::Eos),
        3 => Some(EventType::Ctrl(s.id)),
        4 => Some(EventType::FrameSync),
        5 => Some(EventType::SourceChange(s.id)),
        6 => Some(EventType::MotionDet),
        _ => None,
    }
}

/// `V4L2_EVENT_ALL`: every event, in an unsubscription.
pub const EVENT_ALL: u32 = 0;

/// `V4L2_EVENT_CTRL`.
pub const EVENT_CTRL: u32 = 3;

/// `V4L2_EVENT_CTRL_CH_VALUE`: the value of a control changed.
pub const EVENT_CTRL_CH_VALUE: u32 = 1;

impl EventType {
    /// The event a subscription asks for.
    pub fn of(s: &EventSubscription) -> (r: Option<EventType>)
        ensures
            r == event_of(*s),
    {
        match s.type_ {
            1 => Some(EventType::VSync),
            2 => Some(EventType::Eos),
            3 => Some(EventType::Ctrl(s.id)),
            4 => Some(EventType::FrameSync),
            5 => Some(EventType::SourceChange(s.id)),
            6 => Some(EventType::MotionDet),
            _ => None,
        }
    }
}

/// How an event subscription is made.
#[derive(Clone, Copy, Debug, PartialEq, Eq, Structural)]
pub struct SubscribeEventFlags {
    /// An event with the current state is wanted at once.
    pub send_initial: bool,
    /// Events the subscriber itself causes are wanted.
    pub allow_feedback: bool,
}

/// The subscription flags a word stands for, if every bit of it is defined.
pub open spec fn subscribe_flags_of(v: u32) -> Option<SubscribeEventFlags> {
    if v < 4 {
        Some(
            SubscribeEventFlags { send_initial: v % 2 == 1, allow_feedback: v >= 2 },
        )
    } else {
        None
    }
}

impl SubscribeEventFlags {
    /// The flags a word stands for.
    pub fn from_bits(v: u32) -> (r: Option<SubscribeEventFlags>)
        ensures
            r == subscribe_flags_of(v),
    {
        if v < 4 {
            Some(SubscribeEventFlags { send_initial: v % 2 == 1, allow_feedback: v >= 2 })
        } else {
            None
        }
    }
}

/// How a control is asked for by id.
#[derive(Clone, Copy, Debug, PartialEq, Eq, Structural)]
pub struct QueryCtrlFlags {
    /// The next control, rather than the one named.
    pub next: bool,
    /// Compound controls.
    pub compound: bool,
}

/// The control id and query flags a word carries.
pub open spec fn ctrl_id_and_flags(v: int) -> (int, QueryCtrlFlags) {
    (
        v % 0x1000_0000,
        QueryCtrlFlags { next: v >= 0x8000_0000, compound: v / 0x4000_0000 % 2 == 1 },
    )
}

/// The control id and query flags a word carries.
pub fn parse_ctrl_id_and_flags(v: u32) -> (r: (u32, QueryCtrlFlags))
    ensures
        (r.0 as int, r.1) == ctrl_id_and_flags(v as int),
{
    (
        v % 0x1000_0000,
        QueryCtrlFlags { next: v >= 0x8000_0000, compound: v / 0x4000_0000 % 2 == 1 },
    )
}

/// Which values an extended controls ioctl is about.
#[derive(Clone, Copy, Debug, PartialEq, Eq, Structural)]
pub enum CtrlWhich {
    /// The current values.
    Current,
    /// The default values.
    Default,
    /// The values of a request.
    Request(i32),
    /// The current values of controls of one class.
    Class(u32),
}

/// Which values a set of extended controls is about, if its word is one that V4L2 defines.
pub open spec fn which_of(c: ExtControls) -> Option<CtrlWhich> {
    if c.which == 0 {
        Some(CtrlWhich::Current)
    } else if c.which == 0x0f00_0000 {
        Some(CtrlWhich::Default)
    } else if c.which == 0x0f01_0000 {
        Some(CtrlWhich::Request(c.request_fd))
    } else if c.which % 0x1_0000 == 0 && 0x98 <= c.which / 0x1_0000 <= 0xa5 {
        Some(CtrlWhich::Class(c.which))
    } else {
        None
    }
}

impl CtrlWhich {
    /// Which values a set of extended controls is about.
    pub fn of(c: &ExtControls) -> (r: Option<CtrlWhich>)
        ensures
            r == which_of(*c),
    {
        if c.which == 0 {
            Some(CtrlWhich::Current)
        } else if c.which == 0x0f00_0000 {
            Some(CtrlWhich::Default)
        } else if c.which == 0x0f01_0000 {
            Some(CtrlWhich::Request(c.request_fd))
        } else if c.which % 0x1_0000 == 0 && 0x98 <= c.which / 0x1_0000 && c.which / 0x1_0000
            <= 0xa5 {
            Some(CtrlWhich::Class(c.which))
        } else {
            None
        }
    }
}

/// How a selection rectangle is adjusted; the flags V4L2 defines are below eight.
#[derive(Clone, Copy, Debug, PartialEq, Eq, Structural)]
pub struct SelectionFlags(pub u32);

/// A name in a zero-padded field of 32 bytes: at most 31 of its bytes.
pub open spec fn name_field(text: Seq<char>) -> Seq<u8> {
    let b = encode_utf8(text);
    Seq::new(
        32,
        |i: int|
            if i < 31 && i < b.len() {
                b[i]
            } else {
                0
            },
    )
}

/// A name in a zero-padded field of 32 bytes.
pub fn copy_name(name: &str) -> (r: [u8; 32])
    ensures
        r@ == name_field(name@),
{
    let b = name.as_bytes();
    let mut out: Vec<u8> = Vec::new();
    while out.len() < 32
        invariant
            out@.len() <= 32,
            b@ == encode_utf8(name@),
            out@ == name_field(name@).take(out@.len() as int),
        decreases 32 - out@.len(),
    {
        let i: usize = out.len();
        let ghost before = out@;
        out.push(
            if i < 31 && i < b.len() {
                b[i]
            } else {
                0
            },
        );
        assert(out@ =~= name_field(name@).take(before.len() as int + 1));
    }
    assert(out@ =~= name_field(name@));
    crate::bytes::to_array::<32>(out.as_slice())
}

} // verus!
