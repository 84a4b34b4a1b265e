//! The control table: which controls a set of capabilities has, with their ranges and menus, and
//! what a value set on a control becomes.
use vstd::prelude::*;

use super::capabilities::{CapabilitiesView, CodedFormatView};
use super::menus::MenuKind;
use super::ranges::{max, min, ControlRange};
use crate::errno::{EINVAL, ERANGE};
use crate::v4l2::{PixelFormat, FOURCC_H264, FOURCC_HEVC, FOURCC_VP80, FOURCC_VP90};

verus! {

/// Most buffers on a queue.
pub const MAX_BUFFERS: usize = 32;

pub const V4L2_CID_USER_CLASS: u32 = 0x98_0001;

pub const V4L2_CID_MIN_BUFFERS_FOR_OUTPUT: u32 = 0x98_0928;

pub const V4L2_CID_CODEC_CLASS: u32 = 0x99_0001;

pub const V4L2_CID_MPEG_VIDEO_GOP_SIZE: u32 = 0x99_09cb;

pub const V4L2_CID_MPEG_VIDEO_BITRATE_MODE: u32 = 0x99_09ce;

pub const V4L2_CID_MPEG_VIDEO_BITRATE: u32 = 0x99_09cf;

pub const V4L2_CID_MPEG_VIDEO_HEADER_MODE: u32 = 0x99_09d8;

pub const V4L2_CID_MPEG_VIDEO_FORCE_KEY_FRAME: u32 = 0x99_09e5;

pub const V4L2_CID_MPEG_VIDEO_H264_MIN_QP: u32 = 0x99_0a61;

pub const V4L2_CID_MPEG_VIDEO_H264_MAX_QP: u32 = 0x99_0a62;

pub const V4L2_CID_MPEG_VIDEO_H264_LEVEL: u32 = 0x99_0a67;

pub const V4L2_CID_MPEG_VIDEO_H264_PROFILE: u32 = 0x99_0a6b;

pub const V4L2_CID_MPEG_VIDEO_VP8_PROFILE: u32 = 0x99_0aff;

pub const V4L2_CID_MPEG_VIDEO_VP9_PROFILE: u32 = 0x99_0b00;

pub const V4L2_CID_MPEG_VIDEO_HEVC_MIN_QP: u32 = 0x99_0b58;

pub const V4L2_CID_MPEG_VIDEO_HEVC_MAX_QP: u32 = 0x99_0b59;

pub const V4L2_CID_MPEG_VIDEO_HEVC_PROFILE: u32 = 0x99_0b67;

pub const V4L2_CID_MPEG_VIDEO_HEVC_LEVEL: u32 = 0x99_0b68;

pub const V4L2_CID_MPEG_VIDEO_PREPEND_SPSPPS_TO_IDR: u32 = 0x99_0b84;

pub const V4L2_CTRL_TYPE_INTEGER: u32 = 1;

pub const V4L2_CTRL_TYPE_BOOLEAN: u32 = 2;

pub const V4L2_CTRL_TYPE_MENU: u32 = 3;

pub const V4L2_CTRL_TYPE_BUTTON: u32 = 4;

pub const V4L2_CTRL_TYPE_CTRL_CLASS: u32 = 6;

pub const V4L2_CTRL_FLAG_READ_ONLY: u32 = 0x4;

pub const V4L2_CTRL_FLAG_WRITE_ONLY: u32 = 0x40;

pub const V4L2_CTRL_FLAG_EXECUTE_ON_WRITE: u32 = 0x200;

/// The class a control id belongs to.
pub open spec fn class_of(id: int) -> int {
    id % 0x1000_0000 / 0x1_0000 * 0x1_0000
}

/// The class a control id belongs to.
pub fn ctrl_class(id: u32) -> (r: u32)
    ensures
        r == class_of(id as int),
{
    id % 0x1000_0000 / 0x1_0000 * 0x1_0000
}

/// What kind of control an entry of the table is, with its range.
#[derive(Debug, PartialEq, Eq)]
pub enum CtrlType {
    /// A class marker.
    Class,
    Integer { range: ControlRange, read_only: bool },
    /// `items` are values of the menu, ascending; values in between are holes.
    Menu { menu: MenuKind, items: Vec<i32>, default: i32 },
    Boolean { on: bool },
    /// Write-only, executes on write.
    Button,
}

/// A control's kind as a mathematical value.
#[verifier::ext_equal]
pub enum CtrlView {
    Class,
    Integer { range: ControlRange, read_only: bool },
    Menu { menu: MenuKind, items: Seq<i32>, default: i32 },
    Boolean { on: bool },
    Button,
}

impl View for CtrlType {
    type V = CtrlView;

    open spec fn view(&self) -> CtrlView {
        match *self {
            CtrlType::Class => CtrlView::Class,
            CtrlType::Integer { range, read_only } => CtrlView::Integer { range, read_only },
            CtrlType::Menu { menu, items, default } => CtrlView::Menu {
                menu,
                items: items@,
                default,
            },
            CtrlType::Boolean { on } => CtrlView::Boolean { on },
            CtrlType::Button => CtrlView::Button,
        }
    }
}

/// `(minimum, maximum, step, default)` of a control.
pub struct Bounds {
    pub minimum: i32,
    pub maximum: i32,
    pub step: i32,
    pub default: i32,
}

impl CtrlView {
    /// The V4L2 control type.
    pub open spec fn v4l2_type(self) -> u32 {
        match self {
            CtrlView::Class => V4L2_CTRL_TYPE_CTRL_CLASS,
            CtrlView::Integer { .. } => V4L2_CTRL_TYPE_INTEGER,
            CtrlView::Menu { .. } => V4L2_CTRL_TYPE_MENU,
            CtrlView::Boolean { .. } => V4L2_CTRL_TYPE_BOOLEAN,
            CtrlView::Button => V4L2_CTRL_TYPE_BUTTON,
        }
    }

    /// Whether the control refuses every set.
    pub open spec fn read_only(self) -> bool {
        match self {
            CtrlView::Class => true,
            CtrlView::Integer { read_only, .. } => read_only,
            _ => false,
        }
    }

    /// The V4L2 control flags: a class can be neither read nor written, a button is written only
    /// and acts on it.
    pub open spec fn flags(self) -> u32 {
        match self {
            CtrlView::Class => 0x44,
            CtrlView::Integer { read_only, .. } => if read_only {
                0x4
            } else {
                0
            },
            CtrlView::Button => 0x240,
            _ => 0,
        }
    }

    /// The control's bounds; a class and a button have none.
    pub open spec fn bounds(self) -> Bounds {
        match self {
            CtrlView::Class | CtrlView::Button => Bounds {
                minimum: 0,
                maximum: 0,
                step: 0,
                default: 0,
            },
            CtrlView::Integer { range, .. } => Bounds {
                minimum: range.min,
                maximum: range.max,
                step: 1,
                default: range.default,
            },
            CtrlView::Menu { items, default, .. } => Bounds {
                minimum: if items.len() > 0 {
                    items[0]
                } else {
                    0
                },
                maximum: if items.len() > 0 {
                    items.last()
                } else {
                    0
                },
                step: 1,
                default,
            },
            CtrlView::Boolean { on } => Bounds {
                minimum: 0,
                maximum: 1,
                step: 1,
                default: if on {
                    1
                } else {
                    0
                },
            },
        }
    }

    /// What a value set on the control becomes, or the errno refusing it: integers are clamped,
    /// booleans normalised, menu values must be an item (`ERANGE` outside the menu's range,
    /// `EINVAL` in a hole).
    pub open spec fn validated(self, value: int) -> Result<i32, i32> {
        match self {
            CtrlView::Class => Err(EINVAL),
            CtrlView::Integer { range, .. } => Ok(range.clamped(value) as i32),
            CtrlView::Menu { items, .. } => if value < self.bounds().minimum || value
                > self.bounds().maximum {
                Err(ERANGE)
            } else if items.contains(value as i32) {
                Ok(value as i32)
            } else {
                Err(EINVAL)
            },
            CtrlView::Boolean { .. } => Ok(
                if value != 0 {
                    1
                } else {
                    0
                },
            ),
            CtrlView::Button => Ok(0),
        }
    }
}

/// A value a control accepts stays as it is when it is set again.
pub proof fn validating_is_idempotent(c: CtrlView, value: int)
    requires
        i32::MIN <= value <= i32::MAX,
        c.validated(value) is Ok,
    ensures
        c.validated(c.validated(value)->Ok_0 as int) == c.validated(value),
{
}

/// An integer control accepts every value, and takes one inside its bounds.
pub proof fn integers_are_clamped(range: ControlRange, read_only: bool, value: int)
    requires
        range.min <= range.max,
    ensures
        ({
            let r = (CtrlView::Integer { range, read_only }).validated(value);
            r is Ok && range.min <= r->Ok_0 <= range.max && (range.min <= value <= range.max
                ==> r->Ok_0 == value)
        }),
{
}

impl CtrlType {
    /// The V4L2 control type.
    pub fn v4l2_type(&self) -> (r: u32)
        ensures
            r == self@.v4l2_type(),
    {
        match self {
            CtrlType::Class => V4L2_CTRL_TYPE_CTRL_CLASS,
            CtrlType::Integer { .. } => V4L2_CTRL_TYPE_INTEGER,
            CtrlType::Menu { .. } => V4L2_CTRL_TYPE_MENU,
            CtrlType::Boolean { .. } => V4L2_CTRL_TYPE_BOOLEAN,
            CtrlType::Button => V4L2_CTRL_TYPE_BUTTON,
        }
    }

    /// The V4L2 control flags.
    pub fn flags(&self) -> (r: u32)
        ensures
            r == self@.flags(),
    {
        proof {
            flag_values();
        }
        match self {
            CtrlType::Class => V4L2_CTRL_FLAG_READ_ONLY | V4L2_CTRL_FLAG_WRITE_ONLY,
            CtrlType::Integer { read_only, .. } => if *read_only {
                V4L2_CTRL_FLAG_READ_ONLY
            } else {
                0
            },
            CtrlType::Button => V4L2_CTRL_FLAG_WRITE_ONLY | V4L2_CTRL_FLAG_EXECUTE_ON_WRITE,
            _ => 0,
        }
    }

    /// Whether the control refuses every set.
    pub fn read_only(&self) -> (r: bool)
        ensures
            r == self@.read_only(),
    {
        match self {
            CtrlType::Class => true,
            CtrlType::Integer { read_only, .. } => *read_only,
            _ => false,
        }
    }

    /// The control's bounds.
    pub fn bounds(&self) -> (r: Bounds)
        ensures
            r == self@.bounds(),
    {
        match self {
            CtrlType::Class | CtrlType::Button => Bounds {
                minimum: 0,
                maximum: 0,
                step: 0,
                default: 0,
            },
            CtrlType::Integer { range, .. } => Bounds {
                minimum: range.min,
                maximum: range.max,
                step: 1,
                default: range.default,
            },
            CtrlType::Menu { items, default, .. } => {
                let n: usize = items.len();
                Bounds {
                    minimum: if n > 0 {
                        items[0]
                    } else {
                        0
                    },
                    maximum: if n > 0 {
                        items[n - 1]
                    } else {
                        0
                    },
                    step: 1,
                    default: *default,
                }
            },
            CtrlType::Boolean { on } => Bounds {
                minimum: 0,
                maximum: 1,
                step: 1,
                default: if *on {
                    1
                } else {
                    0
                },
            },
        }
    }

    /// What a value the guest sets becomes, or the errno refusing it.
    pub fn validate(&self, value: i32) -> (r: Result<i32, i32>)
        ensures
            r == self@.validated(value as int),
    {
        match self {
            CtrlType::Class => Err(EINVAL),
            CtrlType::Integer { range, .. } => Ok(range.clamp(value)),
            CtrlType::Menu { items, .. } => {
                let b: Bounds = self.bounds();
                if value < b.minimum || value > b.maximum {
                    Err(ERANGE)
                } else if contains(items, value) {
                    Ok(value)
                } else {
                    Err(EINVAL)
                }
            },
            CtrlType::Boolean { .. } => Ok(
                if value != 0 {
                    1
                } else {
                    0
                },
            ),
            CtrlType::Button => Ok(0),
        }
    }

    /// The name of menu item `index`, if the control is a menu and the item exists.
    pub fn menu_name(&self, index: i32) -> (r: Option<&'static str>)
        requires
            well_formed_menu(self@),
        ensures
            r is Some <==> (self@ is Menu && self@->items.contains(index)),
            r matches Some(s) ==> s@ == self@->menu.text(index as int),
    {
        match self {
            CtrlType::Menu { menu, items, .. } => if contains(items, index) {
                assert(self@->items.contains(index));
                Some(menu.item_name(index))
            } else {
                None
            },
            _ => None,
        }
    }
}

/// The flag words the kernel gives a class and a button.
proof fn flag_values()
    ensures
        0x4u32 | 0x40u32 == 0x44u32,
        0x40u32 | 0x200u32 == 0x240u32,
{
    assert(0x4u32 | 0x40u32 == 0x44u32) by (bit_vector);
    assert(0x40u32 | 0x200u32 == 0x240u32) by (bit_vector);
}

/// Whether a list of values holds `v`.
pub fn contains(items: &Vec<i32>, v: i32) -> (r: bool)
    ensures
        r == items@.contains(v),
{
    let mut i: usize = 0;
    while i < items.len()
        invariant
            i <= items@.len(),
            forall|j: int| 0 <= j < i ==> items@[j] != v,
        decreases items@.len() - i,
    {
        if items[i] == v {
            return true;
        }
        i = i + 1;
    }
    false
}

/// Every item of a menu control is one of the kernel's menu.
pub open spec fn well_formed_menu(c: CtrlView) -> bool {
    c matches CtrlView::Menu { menu, items, .. } ==> forall|v: i32| #[trigger]
        items.contains(v) ==> 0 <= v < menu.size()
}

/// The values below `n` that a backend accepts, ascending and each once.
pub open spec fn menu_items(values: Seq<i32>, n: int) -> Seq<i32>
    decreases n,
{
    if n <= 0 {
        Seq::empty()
    } else if values.contains((n - 1) as i32) {
        menu_items(values, n - 1).push((n - 1) as i32)
    } else {
        menu_items(values, n - 1)
    }
}

/// The first accepted value that the menu has.
pub open spec fn menu_default(values: Seq<i32>, n: int) -> Option<i32>
    decreases values.len(),
{
    if values.len() == 0 {
        None
    } else if 0 <= values[0] < n {
        Some(values[0])
    } else {
        menu_default(values.skip(1), n)
    }
}

/// The menu control for the values a backend accepts, held to the kernel's menu; the first
/// accepted value is the default. None if nothing is left.
pub open spec fn menu_of(menu: MenuKind, values: Seq<i32>) -> Option<CtrlView> {
    match menu_default(values, menu.size()) {
        Some(default) => Some(
            CtrlView::Menu { menu, items: menu_items(values, menu.size()), default },
        ),
        None => None,
    }
}

/// The items of a menu are the accepted values the kernel's menu has, in strictly ascending
/// order.
pub proof fn menu_items_are_the_accepted_values(values: Seq<i32>, n: int)
    requires
        0 <= n <= i32::MAX,
    ensures
        forall|v: i32| #[trigger]
            menu_items(values, n).contains(v) <==> values.contains(v) && 0 <= v < n,
        forall|i: int, j: int|
            0 <= i < j < menu_items(values, n).len() ==> menu_items(values, n)[i] < menu_items(
                values,
                n,
            )[j],
    decreases n,
{
    if n > 0 {
        menu_items_are_the_accepted_values(values, n - 1);
        let p = menu_items(values, n - 1);
        let s = menu_items(values, n);
        assert forall|i: int| 0 <= i < p.len() implies p[i] < n - 1 by {
            assert(p.contains(p[i]));
        }
        assert forall|v: i32| #[trigger] s.contains(v) <==> values.contains(v) && 0 <= v < n by {
            assert(p.contains(v) <==> values.contains(v) && 0 <= v < n - 1);
            if s.contains(v) {
                let k = choose|k: int| 0 <= k < s.len() && s[k] == v;
                if k < p.len() {
                    assert(p.contains(p[k]));
                }
            }
            if values.contains(v) && 0 <= v < n {
                if v == n - 1 {
                    assert(s[s.len() - 1] == v);
                } else {
                    let k = choose|k: int| 0 <= k < p.len() && p[k] == v;
                    assert(s[k] == v);
                }
            }
        }
    }
}

/// A menu built from accepted values has only items of the kernel's menu.
pub proof fn menu_of_is_well_formed(menu: MenuKind, values: Seq<i32>)
    ensures
        menu_of(menu, values) matches Some(c) ==> well_formed_menu(c),
{
    menu_items_are_the_accepted_values(values, menu.size());
}

/// A menu control from the values a backend accepts.
pub fn menu_from(menu: MenuKind, values: &Vec<i32>) -> (r: Option<CtrlType>)
    ensures
        r is Some <==> menu_of(menu, values@) is Some,
        r matches Some(c) ==> menu_of(menu, values@) == Some(c@),
{
    let n: i32 = menu.len();
    let mut items: Vec<i32> = Vec::new();
    let mut k: i32 = 0;
    while k < n
        invariant
            0 <= k <= n,
            items@ == menu_items(values@, k as int),
        decreases n - k,
    {
        if contains(values, k) {
            items.push(k);
        }
        k = k + 1;
    }
    let mut i: usize = 0;
    assert(values@.skip(0) == values@);
    while i < values.len()
        invariant
            n == menu.size(),
            items@ == menu_items(values@, n as int),
            i <= values@.len(),
            menu_default(values@, n as int) == menu_default(values@.skip(i as int), n as int),
        decreases values@.len() - i,
    {
        assert(values@.skip(i as int).skip(1) == values@.skip(i + 1));
        if 0 <= values[i] && values[i] < n {
            return Some(CtrlType::Menu { menu, items, default: values[i] });
        }
        i = i + 1;
    }
    None
}

/// The union of several formats' ranges: the widest bounds, the first format's default.
pub open spec fn union_of(ranges: Seq<ControlRange>) -> Option<ControlRange>
    decreases ranges.len(),
{
    if ranges.len() == 0 {
        None
    } else if ranges.len() == 1 {
        Some(ranges[0])
    } else {
        let o = union_of(ranges.drop_last())->0;
        let r = ranges.last();
        Some(
            ControlRange {
                min: min(o.min as int, r.min as int) as i32,
                max: max(o.max as int, r.max as int) as i32,
                default: o.default,
            },
        )
    }
}

/// The union of several formats' ranges.
pub fn union_range(ranges: &Vec<ControlRange>) -> (r: Option<ControlRange>)
    ensures
        r == union_of(ranges@),
{
    if ranges.len() == 0 {
        return None;
    }
    let mut out: ControlRange = ranges[0];
    let mut i: usize = 1;
    assert(ranges@.take(1) == seq![ranges@[0]]);
    while i < ranges.len()
        invariant
            1 <= i <= ranges@.len(),
            union_of(ranges@.take(i as int)) == Some(out),
        decreases ranges@.len() - i,
    {
        assert(ranges@.take(i + 1).drop_last() == ranges@.take(i as int));
        let r: ControlRange = ranges[i];
        out = ControlRange {
            min: if out.min <= r.min {
                out.min
            } else {
                r.min
            },
            max: if out.max >= r.max {
                out.max
            } else {
                r.max
            },
            default: out.default,
        };
        i = i + 1;
    }
    assert(ranges@.take(ranges@.len() as int) == ranges@);
    Some(out)
}

/// The union of ranges holds every one of them, and starts where the first does.
pub proof fn union_is_widest(ranges: Seq<ControlRange>, i: int)
    requires
        0 <= i < ranges.len(),
    ensures
        union_of(ranges) matches Some(u) && u.min <= ranges[i].min && ranges[i].max <= u.max
            && u.default == ranges[0].default,
    decreases ranges.len(),
{
    if ranges.len() > 1 {
        if i < ranges.len() - 1 {
            union_is_widest(ranges.drop_last(), i);
        } else {
            union_is_widest(ranges.drop_last(), 0);
        }
    }
}

/// The bitrate modes of all formats, in order.
pub open spec fn all_modes(formats: Seq<CodedFormatView>) -> Seq<i32>
    decreases formats.len(),
{
    if formats.len() == 0 {
        Seq::empty()
    } else {
        all_modes(formats.drop_last()) + formats.last().bitrate_modes.map_values(
            |m: super::capabilities::VideoBitrateMode| m.value(),
        )
    }
}

/// The profile control of a codec: the first format with the fourcc decides.
pub open spec fn profile_of(caps: CapabilitiesView, fourcc: u32, menu: MenuKind) -> Option<
    CtrlView,
> {
    match caps.format(PixelFormat(fourcc)) {
        Some(f) => menu_of(menu, f.profiles),
        None => None,
    }
}

/// The level control of a codec.
pub open spec fn level_of(caps: CapabilitiesView, fourcc: u32, menu: MenuKind) -> Option<
    CtrlView,
> {
    match caps.format(PixelFormat(fourcc)) {
        Some(f) => menu_of(menu, f.levels),
        None => None,
    }
}

/// The minimum (or maximum) quantiser control of a codec: it starts at its end of the range.
pub open spec fn qp_of(caps: CapabilitiesView, fourcc: u32, maximum: bool) -> Option<CtrlView> {
    match caps.format(PixelFormat(fourcc)) {
        Some(f) => match f.qp {
            Some(q) => Some(
                CtrlView::Integer {
                    range: ControlRange {
                        min: q.min,
                        max: q.max,
                        default: if maximum {
                            q.max
                        } else {
                            q.min
                        },
                    },
                    read_only: false,
                },
            ),
            None => None,
        },
        None => None,
    }
}

/// An integer control over the union of every format's range.
pub open spec fn union_control(ranges: Seq<ControlRange>) -> Option<CtrlView> {
    match union_of(ranges) {
        Some(range) => Some(CtrlView::Integer { range, read_only: false }),
        None => None,
    }
}

/// What control `id` is for a set of capabilities, if there is one.
pub open spec fn control_of(caps: CapabilitiesView, id: u32) -> Option<CtrlView> {
    if id == V4L2_CID_USER_CLASS || id == V4L2_CID_CODEC_CLASS {
        Some(CtrlView::Class)
    } else if id == V4L2_CID_MIN_BUFFERS_FOR_OUTPUT {
        Some(
            CtrlView::Integer {
                range: ControlRange {
                    min: 1,
                    max: MAX_BUFFERS as i32,
                    default: min(
                        max(caps.min_output_buffers as int, 1),
                        MAX_BUFFERS as int,
                    ) as i32,
                },
                read_only: true,
            },
        )
    } else if id == V4L2_CID_MPEG_VIDEO_GOP_SIZE {
        union_control(caps.formats.map_values(|f: CodedFormatView| f.gop_size))
    } else if id == V4L2_CID_MPEG_VIDEO_BITRATE_MODE {
        menu_of(MenuKind::BitrateMode, all_modes(caps.formats))
    } else if id == V4L2_CID_MPEG_VIDEO_BITRATE {
        union_control(caps.formats.map_values(|f: CodedFormatView| f.bitrate))
    } else if id == V4L2_CID_MPEG_VIDEO_HEADER_MODE {
        Some(CtrlView::Menu { menu: MenuKind::HeaderMode, items: seq![0, 1], default: 1 })
    } else if id == V4L2_CID_MPEG_VIDEO_FORCE_KEY_FRAME {
        Some(CtrlView::Button)
    } else if id == V4L2_CID_MPEG_VIDEO_H264_MIN_QP {
        qp_of(caps, FOURCC_H264, false)
    } else if id == V4L2_CID_MPEG_VIDEO_H264_MAX_QP {
        qp_of(caps, FOURCC_H264, true)
    } else if id == V4L2_CID_MPEG_VIDEO_H264_LEVEL {
        level_of(caps, FOURCC_H264, MenuKind::H264Level)
    } else if id == V4L2_CID_MPEG_VIDEO_H264_PROFILE {
        profile_of(caps, FOURCC_H264, MenuKind::H264Profile)
    } else if id == V4L2_CID_MPEG_VIDEO_VP8_PROFILE {
        profile_of(caps, FOURCC_VP80, MenuKind::VpxProfile)
    } else if id == V4L2_CID_MPEG_VIDEO_VP9_PROFILE {
        profile_of(caps, FOURCC_VP90, MenuKind::VpxProfile)
    } else if id == V4L2_CID_MPEG_VIDEO_HEVC_MIN_QP {
        qp_of(caps, FOURCC_HEVC, false)
    } else if id == V4L2_CID_MPEG_VIDEO_HEVC_MAX_QP {
        qp_of(caps, FOURCC_HEVC, true)
    } else if id == V4L2_CID_MPEG_VIDEO_HEVC_PROFILE {
        profile_of(caps, FOURCC_HEVC, MenuKind::HevcProfile)
    } else if id == V4L2_CID_MPEG_VIDEO_HEVC_LEVEL {
        level_of(caps, FOURCC_HEVC, MenuKind::HevcLevel)
    } else if id == V4L2_CID_MPEG_VIDEO_PREPEND_SPSPPS_TO_IDR {
        Some(CtrlView::Boolean { on: false })
    } else {
        None
    }
}

} // verus!
