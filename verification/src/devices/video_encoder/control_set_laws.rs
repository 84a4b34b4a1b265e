//! Which controls a device has of what its backend declares, and what becomes of sets of them.
use vstd::prelude::*;

use super::capabilities::{CapabilitiesView, CodedFormatView, VideoBitrateMode};
use super::control_ioctls::{
    applied, applied_set, checked_one, checked_set, set_applied, written, ExtCtrlOp,
};
use super::control_laws::{becomes, is_entry};
use super::control_table::{has_id, is_table, place, place_is_unique, sorted, CtrlDef};
use super::controls::{
    all_modes, menu_default, menu_items_are_the_accepted_values, union_of, CtrlView,
};
use super::device::DeviceView;
use super::format_laws::comes_first;
use super::ioctls::encoder_answers;
use super::menus::MenuKind;
use super::ranges::ControlRange;
use super::session::SessionView;
use super::start_laws::mode_number;
use crate::ioctl::read::GuestControls;
use crate::ioctl::reply::IoctlReply;
use crate::ioctl::requests::IoctlRequest;
use crate::ioctl::types::{CtrlWhich, ExtControl};
use crate::v4l2::PixelFormat;

verus! {

/// Whether a range is that of all ranges together: each lies in it, each end is one of theirs, and
/// it starts where the first does.
pub open spec fn spans_all(u: ControlRange, ranges: Seq<ControlRange>) -> bool {
    &&& forall|j: int|
        0 <= j < ranges.len() ==> u.min <= (#[trigger] ranges[j]).min && ranges[j].max <= u.max
    &&& exists|j: int| 0 <= j < ranges.len() && (#[trigger] ranges[j]).min == u.min
    &&& exists|j: int| 0 <= j < ranges.len() && (#[trigger] ranges[j]).max == u.max
    &&& u.default == ranges[0].default
}

/// The union of ranges is that of all together.
proof fn unions_span_all(ranges: Seq<ControlRange>)
    requires
        ranges.len() > 0,
    ensures
        union_of(ranges) is Some,
        spans_all(union_of(ranges)->0, ranges),
    decreases ranges.len(),
{
    if ranges.len() == 1 {
        assert(ranges[0].min == (union_of(ranges)->0).min);
        assert(ranges[0].max == (union_of(ranges)->0).max);
    } else {
        let rest = ranges.drop_last();
        unions_span_all(rest);
        let o = union_of(rest)->0;
        let a = choose|j: int| 0 <= j < rest.len() && (#[trigger] rest[j]).min == o.min;
        let b = choose|j: int| 0 <= j < rest.len() && (#[trigger] rest[j]).max == o.max;
        assert(ranges[a].min == o.min && ranges[b].max == o.max);
        let u = union_of(ranges)->0;
        let last = ranges.len() - 1;
        assert(ranges[last].min == u.min || ranges[a].min == u.min);
        assert(ranges[last].max == u.max || ranges[b].max == u.max);
        assert forall|j: int| 0 <= j < ranges.len() implies u.min <= (#[trigger] ranges[j]).min
            && ranges[j].max <= u.max by {
            if j < last {
                assert(rest[j] == ranges[j]);
            }
        }
    }
}

/// The bitrate and the group-of-pictures size can be set to what some codec takes, and start at
/// what the first one does.
pub proof fn ranges_are_those_of_the_codecs(caps: CapabilitiesView, table: Seq<CtrlDef>, k: int)
    requires
        is_table(caps, table),
        caps.formats.len() > 0,
        0 <= k < table.len(),
    ensures
        exists|j: int| is_entry(table, 0x99_09cf, j),
        exists|j: int| is_entry(table, 0x99_09cb, j),
        table[k].id == 0x99_09cf ==> {
            &&& table[k].ty@ matches CtrlView::Integer { range, read_only }
            &&& !read_only
            &&& spans_all(range, caps.formats.map_values(|f: CodedFormatView| f.bitrate))
        },
        table[k].id == 0x99_09cb ==> {
            &&& table[k].ty@ matches CtrlView::Integer { range, read_only }
            &&& !read_only
            &&& spans_all(range, caps.formats.map_values(|f: CodedFormatView| f.gop_size))
        },
{
    unions_span_all(caps.formats.map_values(|f: CodedFormatView| f.bitrate));
    unions_span_all(caps.formats.map_values(|f: CodedFormatView| f.gop_size));
    assert(super::controls::control_of(caps, 0x99_09cf) is Some);
    assert(super::controls::control_of(caps, 0x99_09cb) is Some);
    assert(has_id(table, 0x99_09cf) && has_id(table, 0x99_09cb));
    let a = choose|i: int| 0 <= i < table.len() && (#[trigger] table[i]).id == 0x99_09cf;
    let b = choose|i: int| 0 <= i < table.len() && (#[trigger] table[i]).id == 0x99_09cb;
    assert(is_entry(table, 0x99_09cf, a) && is_entry(table, 0x99_09cb, b));
}

/// The modes of all codecs are those that each has.
proof fn modes_of_all(formats: Seq<CodedFormatView>, v: i32)
    ensures
        all_modes(formats).contains(v) <==> exists|j: int, m: VideoBitrateMode|
            0 <= j < formats.len() && (#[trigger] formats[j]).bitrate_modes.contains(m)
                && #[trigger] mode_number(m) == v,
    decreases formats.len(),
{
    if formats.len() > 0 {
        let rest = formats.drop_last();
        modes_of_all(rest, v);
        let own = formats.last().bitrate_modes;
        let mine = own.map_values(|m: VideoBitrateMode| m.value());
        let all = all_modes(formats);
        assert(all == all_modes(rest) + mine);
        if all.contains(v) {
            let i = choose|i: int| 0 <= i < all.len() && all[i] == v;
            if i < all_modes(rest).len() {
                assert(all_modes(rest)[i] == v);
                let (j, m) = choose|j: int, m: VideoBitrateMode|
                    0 <= j < rest.len() && (#[trigger] rest[j]).bitrate_modes.contains(m)
                        && #[trigger] mode_number(m) == v;
                assert(formats[j].bitrate_modes.contains(m) && mode_number(m) == v);
            } else {
                let m = own[i - all_modes(rest).len()];
                assert(own.contains(m));
                assert(formats[formats.len() - 1].bitrate_modes.contains(m) && mode_number(m) == v);
            }
        }
        if exists|j: int, m: VideoBitrateMode|
            0 <= j < formats.len() && (#[trigger] formats[j]).bitrate_modes.contains(m)
                && #[trigger] mode_number(m) == v {
            let (j, m) = choose|j: int, m: VideoBitrateMode|
                0 <= j < formats.len() && (#[trigger] formats[j]).bitrate_modes.contains(m)
                    && #[trigger] mode_number(m) == v;
            if j < rest.len() {
                assert(rest[j].bitrate_modes.contains(m) && mode_number(m) == v);
                let i = choose|i: int| 0 <= i < all_modes(rest).len() && all_modes(rest)[i] == v;
                assert(all[i] == v);
            } else {
                let i = choose|i: int| 0 <= i < own.len() && own[i] == m;
                assert(mine[i] == v);
                assert(all[all_modes(rest).len() + i] == v);
            }
        }
    }
}

/// The bitrate modes to choose from are those that some codec has.
pub proof fn modes_are_those_of_the_codecs(
    caps: CapabilitiesView,
    table: Seq<CtrlDef>,
    k: int,
    v: i32,
)
    requires
        is_table(caps, table),
        is_entry(table, 0x99_09ce, k),
    ensures
        table[k].ty@ is Menu,
        table[k].ty@->items.contains(v) <==> exists|j: int, m: VideoBitrateMode|
            0 <= j < caps.formats.len() && (#[trigger] caps.formats[j]).bitrate_modes.contains(m)
                && #[trigger] mode_number(m) == v,
{
    modes_of_all(caps.formats, v);
    menu_items_are_the_accepted_values(all_modes(caps.formats), 3);
    assert(table[k].id == 0x99_09ce);
    assert forall|m: VideoBitrateMode| 0 <= #[trigger] mode_number(m) < 3 by {}
}

/// The default of a menu is the first of the values that the menu has.
proof fn defaults_come_first(values: Seq<i32>, n: int)
    ensures
        menu_default(values, n) is Some <==> exists|j: int|
            0 <= j < values.len() && 0 <= #[trigger] values[j] < n,
        menu_default(values, n) matches Some(v) ==> exists|j: int|
            0 <= j < values.len() && #[trigger] values[j] == v && 0 <= v < n && forall|i: int|
                0 <= i < j ==> !(0 <= #[trigger] values[i] < n),
    decreases values.len(),
{
    if values.len() > 0 {
        if 0 <= values[0] < n {
            assert(values[0] == menu_default(values, n)->0);
        } else {
            let rest = values.skip(1);
            defaults_come_first(rest, n);
            if let Some(v) = menu_default(values, n) {
                let j = choose|j: int|
                    0 <= j < rest.len() && #[trigger] rest[j] == v && 0 <= v < n && forall|i: int|
                        0 <= i < j ==> !(0 <= #[trigger] rest[i] < n);
                assert(values[j + 1] == v);
                assert forall|i: int| 0 <= i < j + 1 implies !(0 <= #[trigger] values[i] < n) by {
                    if i > 0 {
                        assert(rest[i - 1] == values[i]);
                    }
                }
            }
            if exists|j: int| 0 <= j < values.len() && 0 <= #[trigger] values[j] < n {
                let j = choose|j: int| 0 <= j < values.len() && 0 <= #[trigger] values[j] < n;
                assert(rest[j - 1] == values[j]);
            }
        }
    }
}

/// Whether a control is a menu of the values a codec declares that the kernel's menu, of so many
/// items, has, the first of which is the default.
pub open spec fn is_menu_of(ty: CtrlView, values: Seq<i32>, n: int) -> bool {
    &&& ty matches CtrlView::Menu { items, default, .. }
    &&& forall|v: i32| #[trigger] items.contains(v) <==> values.contains(v) && 0 <= v < n
    &&& forall|i: int, j: int| 0 <= i < j < items.len() ==> items[i] < items[j]
    &&& exists|j: int|
        0 <= j < values.len() && #[trigger] values[j] == default && forall|i: int|
            0 <= i < j ==> !(0 <= #[trigger] values[i] < n)
}

/// A menu is one of the values it is built from.
proof fn menus_are_of_their_values(menu: MenuKind, values: Seq<i32>)
    ensures
        super::controls::menu_of(menu, values) matches Some(c) ==> is_menu_of(
            c,
            values,
            menu.size(),
        ),
{
    menu_items_are_the_accepted_values(values, menu.size());
    defaults_come_first(values, menu.size());
}

/// The profiles and levels to choose from are those that the codec declares; its quantisers lie in
/// the range that it declares, and start at the ends.
pub proof fn a_codecs_controls_are_its_own(
    caps: CapabilitiesView,
    table: Seq<CtrlDef>,
    i: int,
    k: int,
)
    requires
        is_table(caps, table),
        0 <= i < caps.formats.len(),
        comes_first(caps.formats, caps.formats[i].fourcc.0, i),
        0 <= k < table.len(),
    ensures
        ({
            let f = caps.formats[i];
            let fourcc = f.fourcc.0;
            let (id, ty) = (table[k].id, table[k].ty@);
            &&& fourcc == 0x3436_3248 && id == 0x99_0a6b ==> is_menu_of(ty, f.profiles, 18)
            &&& fourcc == 0x3436_3248 && id == 0x99_0a67 ==> is_menu_of(ty, f.levels, 20)
            &&& fourcc == 0x4356_4548 && id == 0x99_0b67 ==> is_menu_of(ty, f.profiles, 3)
            &&& fourcc == 0x4356_4548 && id == 0x99_0b68 ==> is_menu_of(ty, f.levels, 13)
            &&& fourcc == 0x3038_5056 && id == 0x99_0aff ==> is_menu_of(ty, f.profiles, 4)
            &&& fourcc == 0x3039_5056 && id == 0x99_0b00 ==> is_menu_of(ty, f.profiles, 4)
            &&& (fourcc == 0x3436_3248 && id == 0x99_0a61) || (fourcc == 0x4356_4548 && id
                == 0x99_0b58) ==> f.qp is Some && ty == (CtrlView::Integer {
                range: ControlRange {
                    min: (f.qp->0).min,
                    max: (f.qp->0).max,
                    default: (f.qp->0).min,
                },
                read_only: false,
            })
            &&& (fourcc == 0x3436_3248 && id == 0x99_0a62) || (fourcc == 0x4356_4548 && id
                == 0x99_0b59) ==> f.qp is Some && ty == (CtrlView::Integer {
                range: ControlRange {
                    min: (f.qp->0).min,
                    max: (f.qp->0).max,
                    default: (f.qp->0).max,
                },
                read_only: false,
            })
        }),
{
    let f = caps.formats[i];
    assert(caps.is_first(f.fourcc, i));
    assert(caps.offers(f.fourcc));
    assert(PixelFormat(f.fourcc.0) == f.fourcc);
    super::capabilities::first_format_is_the_format(caps, f.fourcc, i);
    menus_are_of_their_values(MenuKind::H264Profile, f.profiles);
    menus_are_of_their_values(MenuKind::H264Level, f.levels);
    menus_are_of_their_values(MenuKind::HevcProfile, f.profiles);
    menus_are_of_their_values(MenuKind::HevcLevel, f.levels);
    menus_are_of_their_values(MenuKind::VpxProfile, f.profiles);
}

/// Whether no format of a backend has a fourcc.
pub open spec fn lacks(caps: CapabilitiesView, fourcc: u32) -> bool {
    forall|j: int| 0 <= j < caps.formats.len() ==> (#[trigger] caps.formats[j]).fourcc.0 != fourcc
}

/// Whether a codec takes one of the first `n` numbers of a menu.
pub open spec fn takes_some(values: Seq<i32>, n: int) -> bool {
    exists|j: int| 0 <= j < values.len() && 0 <= #[trigger] values[j] < n
}

/// The controls of a codec are there exactly where the backend has the codec and declares something
/// to choose from; and no control is there that is not named here.
pub proof fn controls_are_there_for_their_codec(
    caps: CapabilitiesView,
    table: Seq<CtrlDef>,
    i: int,
    k: int,
)
    requires
        is_table(caps, table),
        0 <= k < table.len(),
        0 <= i < caps.formats.len(),
        comes_first(caps.formats, caps.formats[i].fourcc.0, i),
    ensures
        ({
            let id = table[k].id;
            let h264 = id == 0x99_0a61 || id == 0x99_0a62 || id == 0x99_0a67 || id == 0x99_0a6b;
            let hevc = id == 0x99_0b58 || id == 0x99_0b59 || id == 0x99_0b67 || id == 0x99_0b68;
            &&& lacks(caps, 0x3436_3248) ==> !h264
            &&& lacks(caps, 0x4356_4548) ==> !hevc
            &&& lacks(caps, 0x3038_5056) ==> id != 0x99_0aff
            &&& lacks(caps, 0x3039_5056) ==> id != 0x99_0b00
            &&& h264 || hevc || id == 0x99_0aff || id == 0x99_0b00 || id == 0x98_0001 || id
                == 0x98_0928 || id == 0x99_0001 || id == 0x99_09cb || id == 0x99_09ce || id
                == 0x99_09cf || id == 0x99_09d8 || id == 0x99_09e5 || id == 0x99_0b84
        }),
        ({
            let f = caps.formats[i];
            let fourcc = f.fourcc.0;
            &&& fourcc == 0x3436_3248 ==> {
                &&& has_id(table, 0x99_0a61) <==> f.qp is Some
                &&& has_id(table, 0x99_0a62) <==> f.qp is Some
                &&& has_id(table, 0x99_0a67) <==> takes_some(f.levels, 20)
                &&& has_id(table, 0x99_0a6b) <==> takes_some(f.profiles, 18)
            }
            &&& fourcc == 0x4356_4548 ==> {
                &&& has_id(table, 0x99_0b58) <==> f.qp is Some
                &&& has_id(table, 0x99_0b59) <==> f.qp is Some
                &&& has_id(table, 0x99_0b68) <==> takes_some(f.levels, 13)
                &&& has_id(table, 0x99_0b67) <==> takes_some(f.profiles, 3)
            }
            &&& fourcc == 0x3038_5056 ==> (has_id(table, 0x99_0aff) <==> takes_some(f.profiles, 4))
            &&& fourcc == 0x3039_5056 ==> (has_id(table, 0x99_0b00) <==> takes_some(f.profiles, 4))
        }),
{
    let f = caps.formats[i];
    assert(caps.is_first(f.fourcc, i));
    assert(caps.offers(f.fourcc));
    assert(PixelFormat(f.fourcc.0) == f.fourcc);
    super::capabilities::first_format_is_the_format(caps, f.fourcc, i);
    assert forall|fourcc: u32| lacks(caps, fourcc) implies #[trigger] caps.format(
        PixelFormat(fourcc),
    ) is None by {
        assert(!caps.offers(PixelFormat(fourcc)));
    }
    assert(super::controls::control_of(caps, table[k].id) is Some);
    assert forall|id: u32| #[trigger] has_id(table, id) <==> super::controls::control_of(
        caps,
        id,
    ) is Some by {
        if has_id(table, id) {
            let j = place(table, id);
            assert(table[j].id == id);
        }
    }
    defaults_come_first(f.levels, 20);
    defaults_come_first(f.levels, 13);
    defaults_come_first(f.profiles, 18);
    defaults_come_first(f.profiles, 3);
    defaults_come_first(f.profiles, 4);
}

/// The bitrate mode that a session starts with is the first that the first codec with any has, and
/// there is a control for it where some codec has one.
pub proof fn the_first_mode_is_the_default(
    caps: CapabilitiesView,
    table: Seq<CtrlDef>,
    i: int,
    k: int,
)
    requires
        is_table(caps, table),
        0 <= i < caps.formats.len(),
        caps.formats[i].bitrate_modes.len() > 0,
        forall|j: int| 0 <= j < i ==> (#[trigger] caps.formats[j]).bitrate_modes.len() == 0,
    ensures
        has_id(table, 0x99_09ce),
        is_entry(table, 0x99_09ce, k) ==> table[k].ty@.bounds().default == mode_number(
            caps.formats[i].bitrate_modes[0],
        ),
{
    first_modes_come_first(caps.formats, i);
    let all = all_modes(caps.formats);
    assert(0 <= mode_number(caps.formats[i].bitrate_modes[0]) < 3);
    assert(super::controls::control_of(caps, 0x99_09ce) is Some);
}

/// The modes of all codecs begin with the first of the first codec that has any.
proof fn first_modes_come_first(formats: Seq<CodedFormatView>, i: int)
    requires
        0 <= i < formats.len(),
        formats[i].bitrate_modes.len() > 0,
        forall|j: int| 0 <= j < i ==> (#[trigger] formats[j]).bitrate_modes.len() == 0,
    ensures
        all_modes(formats).len() > 0,
        all_modes(formats)[0] == mode_number(formats[i].bitrate_modes[0]),
    decreases formats.len(),
{
    let rest = formats.drop_last();
    if i < rest.len() {
        first_modes_come_first(rest, i);
    } else {
        no_modes_of_none(rest);
    }
}

/// Codecs without modes have none together.
proof fn no_modes_of_none(formats: Seq<CodedFormatView>)
    requires
        forall|j: int|
            0 <= j < formats.len() ==> (#[trigger] formats[j]).bitrate_modes.len() == 0,
    ensures
        all_modes(formats).len() == 0,
    decreases formats.len(),
{
    if formats.len() > 0 {
        no_modes_of_none(formats.drop_last());
    }
}

/// The controls that every encoder has: how the headers come, whether they come with every key
/// frame, the button for a key frame, the two classes, and how many raw buffers are needed, which
/// is not set.
pub proof fn every_encoder_has_these_controls(caps: CapabilitiesView, table: Seq<CtrlDef>, k: int)
    requires
        is_table(caps, table),
        0 <= k < table.len(),
    ensures
        exists|j: int| is_entry(table, 0x99_09d8, j),
        exists|j: int| is_entry(table, 0x99_0b84, j),
        exists|j: int| is_entry(table, 0x99_09e5, j),
        exists|j: int| is_entry(table, 0x98_0928, j),
        table[k].id == 0x99_09d8 ==> (table[k].ty@ matches CtrlView::Menu { items, default, .. }
            && items.len() == 2 && items[0] == 0 && items[1] == 1 && default == 1),
        table[k].id == 0x99_0b84 ==> table[k].ty@ == (CtrlView::Boolean { on: false }),
        table[k].id == 0x99_09e5 ==> table[k].ty@ == CtrlView::Button,
        table[k].id == 0x98_0001 || table[k].id == 0x99_0001 <==> table[k].ty@ == CtrlView::Class,
        table[k].id == 0x98_0928 ==> (table[k].ty@ matches CtrlView::Integer { range, read_only }
            && read_only && range.min == 1 && range.max == 32 && range.default == (
        if caps.min_output_buffers == 0 {
            1
        } else if caps.min_output_buffers > 32 {
            32
        } else {
            caps.min_output_buffers as int
        })),
{
    assert(super::controls::control_of(caps, 0x99_09d8) is Some);
    assert(super::controls::control_of(caps, 0x99_0b84) is Some);
    assert(super::controls::control_of(caps, 0x99_09e5) is Some);
    assert(super::controls::control_of(caps, 0x98_0928) is Some);
    let a = choose|i: int| 0 <= i < table.len() && (#[trigger] table[i]).id == 0x99_09d8;
    let b = choose|i: int| 0 <= i < table.len() && (#[trigger] table[i]).id == 0x99_0b84;
    let c = choose|i: int| 0 <= i < table.len() && (#[trigger] table[i]).id == 0x99_09e5;
    let e = choose|i: int| 0 <= i < table.len() && (#[trigger] table[i]).id == 0x98_0928;
    assert(is_entry(table, 0x99_09d8, a) && is_entry(table, 0x99_0b84, b));
    assert(is_entry(table, 0x99_09e5, c) && is_entry(table, 0x98_0928, e));
    assert(table[k].ty@ == super::controls::control_of(caps, table[k].id)->0);
}

/// A value in a control of a set, as its bits stand there.
pub open spec fn holds_value(c: ExtControl, v: int) -> bool {
    c.payload == (if v >= 0 {
        v
    } else {
        v + 0x1_0000_0000
    })
}

/// A set of controls that is read gets the value of each, or its default where those are asked for,
/// and is otherwise as it was sent; nothing changes.
pub proof fn sets_are_read_as_they_are<GM, H, S, K>(
    d: DeviceView<GM, H, S, K>,
    s: SessionView<GM, H>,
    which: CtrlWhich,
    input: GuestControls,
    d2: DeviceView<GM, H, S, K>,
    s2: SessionView<GM, H>,
    reply: IoctlReply,
    i: int,
    k: int,
)
    requires
        sorted(d.controls),
        0 <= i < input.ctrl_array@.len(),
        is_entry(d.controls, input.ctrl_array@[i].id, k),
        encoder_answers(d, s, IoctlRequest::GExtCtrls { which, input }, d2, s2, reply),
    ensures
        s2 == s && d2 == d,
        reply is Controls || reply is RefusedControls,
        reply matches IoctlReply::Controls { ctrls, ctrl_array } ==> {
            &&& ctrls.error_idx == 0
            &&& ctrls.which == input.ctrls.which && ctrls.count == input.ctrls.count
            &&& ctrl_array@.len() == input.ctrl_array@.len()
            &&& ctrl_array@[i].id == input.ctrl_array@[i].id
            &&& !(d.controls[k].ty@ is Class) && !(d.controls[k].ty@ is Button)
            &&& which == CtrlWhich::Current ==> holds_value(
                ctrl_array@[i],
                s.ctrl_values[k] as int,
            )
            &&& which == CtrlWhich::Default ==> holds_value(
                ctrl_array@[i],
                d.controls[k].ty@.bounds().default as int,
            )
        },
        reply matches IoctlReply::RefusedControls { ctrls, ctrl_array, .. } ==> ctrl_array@
            == input.ctrl_array@ && ctrls.error_idx == input.ctrl_array@.len() as u32,
{
    place_is_unique(d.controls, k);
    if reply is Controls {
        let values = choose|values: Seq<i32>| #[trigger]
            checked_set(d, s, ExtCtrlOp::Read, which, input.ctrl_array@, Ok(values))
                && reply.controls() == written(input.ctrl_array@, values);
        assert(checked_one(d, s, ExtCtrlOp::Read, which, input.ctrl_array@[i]) == Ok::<i32, i32>(
            values[i],
        ));
    }
}

/// A set of controls that is tried gets what each value becomes; nothing changes. The first control
/// that is refused is the one told of.
pub proof fn sets_are_tried_as_they_would_be<GM, H, S, K>(
    d: DeviceView<GM, H, S, K>,
    s: SessionView<GM, H>,
    which: CtrlWhich,
    input: GuestControls,
    d2: DeviceView<GM, H, S, K>,
    s2: SessionView<GM, H>,
    reply: IoctlReply,
    i: int,
    k: int,
)
    requires
        sorted(d.controls),
        0 <= i < input.ctrl_array@.len(),
        is_entry(d.controls, input.ctrl_array@[i].id, k),
        encoder_answers(d, s, IoctlRequest::TryExtCtrls { which, input }, d2, s2, reply),
    ensures
        s2 == s && d2 == d,
        reply is Controls || reply is RefusedControls,
        reply matches IoctlReply::Controls { ctrls, ctrl_array } ==> {
            &&& ctrls.error_idx == 0
            &&& ctrl_array@.len() == input.ctrl_array@.len()
            &&& ctrl_array@[i].id == input.ctrl_array@[i].id
            &&& exists|v: int|
                #![trigger holds_value(ctrl_array@[i], v)]
                holds_value(ctrl_array@[i], v) && becomes(
                    d.controls[k].ty@,
                    input.ctrl_array@[i].plain(),
                    v,
                )
        },
        reply matches IoctlReply::RefusedControls { ctrls, ctrl_array, .. } ==> ctrl_array@
            == input.ctrl_array@ && ctrls.count == input.ctrls.count && (which == CtrlWhich::Current
            && input.ctrl_array@.len() <= u32::MAX ==> ctrls.error_idx < input.ctrl_array@.len()),
{
    place_is_unique(d.controls, k);
    let sent = input.ctrl_array@;
    if reply is Controls {
        let values = choose|values: Seq<i32>| #[trigger]
            checked_set(d, s, ExtCtrlOp::Check, which, sent, Ok(values)) && reply.controls()
                == written(sent, values);
        assert(checked_one(d, s, ExtCtrlOp::Check, which, sent[i]) == Ok::<i32, i32>(values[i]));
        let ty = d.controls[k].ty@;
        assert(holds_value(reply.controls()[i], values[i] as int));
        assert(-0x8000_0000 <= sent[i].plain() <= 0x7fff_ffff);
        assert(becomes(ty, sent[i].plain(), values[i] as int));
    }
}

/// Every value of a set that is taken is the session's from then on, unless the same control stands
/// further behind; and where the set is refused before it is applied, nothing changes.
pub proof fn sets_are_set_as_they_take<GM, H, S, K>(
    d: DeviceView<GM, H, S, K>,
    s: SessionView<GM, H>,
    which: CtrlWhich,
    input: GuestControls,
    d2: DeviceView<GM, H, S, K>,
    s2: SessionView<GM, H>,
    reply: IoctlReply,
    i: int,
    k: int,
)
    requires
        d.fits(s),
        sorted(d.controls),
        0 <= i < input.ctrl_array@.len(),
        is_entry(d.controls, input.ctrl_array@[i].id, k),
        forall|j: int|
            i < j < input.ctrl_array@.len() ==> (#[trigger] input.ctrl_array@[j]).id
                != input.ctrl_array@[i].id,
        encoder_answers(d, s, IoctlRequest::SExtCtrls { which, input }, d2, s2, reply),
    ensures
        d2 == d,
        reply is Controls || reply is RefusedControls,
        s2.input == s.input && s2.output == s.output && s2.crop == s.crop && s2.coded_size
            == s.coded_size && s2.state == s.state,
        reply matches IoctlReply::Controls { ctrls, ctrl_array } ==> {
            &&& ctrls.error_idx == 0
            &&& ctrl_array@.len() == input.ctrl_array@.len()
            &&& ctrl_array@[i].id == input.ctrl_array@[i].id
            &&& d.controls[k].ty@ is Button || (holds_value(
                ctrl_array@[i],
                s2.ctrl_values[k] as int,
            ) && becomes(
                d.controls[k].ty@,
                input.ctrl_array@[i].plain(),
                s2.ctrl_values[k] as int,
            ))
        },
        reply matches IoctlReply::RefusedControls { ctrls, ctrl_array, .. } ==> ctrl_array@
            == input.ctrl_array@ && ctrls.error_idx == input.ctrl_array@.len() as u32,
{
    place_is_unique(d.controls, k);
    let sent = input.ctrl_array@;
    let r = reply.done();
    if s2 != s || r is Ok {
        let (values, answers) = choose|values: Seq<i32>, answers: Seq<Result<(), i32>>| #[trigger]
            set_applied(
                d,
                s,
                which,
                input.ctrls,
                sent,
                values,
                answers,
                s2,
                reply.header(),
                reply.controls(),
                r,
            );
        applying_leaves_the_rest(d, s, sent, values, answers);
        if r is Ok {
            assert(answers.take(answers.len() as int) =~= answers);
            if !(d.controls[k].ty@ is Button) {
                applied_values_are_stored(d, s, sent, values, answers, i, k, answers.len() as int);
            }
            assert(checked_one(d, s, ExtCtrlOp::Write, which, sent[i]) == Ok::<i32,
                i32>(values[i]));
            assert(-0x8000_0000 <= sent[i].plain() <= 0x7fff_ffff);
            assert(becomes(d.controls[k].ty@, sent[i].plain(), values[i] as int));
        }
    }
}

/// Applying a set changes values, and what the codec is asked, and nothing else.
proof fn applying_leaves_the_rest<GM, H, S, K>(
    d: DeviceView<GM, H, S, K>,
    s: SessionView<GM, H>,
    ctrls: Seq<ExtControl>,
    values: Seq<i32>,
    answers: Seq<Result<(), i32>>,
)
    requires
        s.ctrl_values.len() == d.controls.len(),
    ensures
        ({
            let t = applied_set(d, s, ctrls, values, answers).0;
            &&& t == (SessionView { ctrl_values: t.ctrl_values, codec: t.codec, ..s })
            &&& t.ctrl_values.len() == s.ctrl_values.len()
        }),
    decreases answers.len(),
{
    if answers.len() > 0 {
        applying_leaves_the_rest(d, s, ctrls, values, answers.drop_last());
        let id = ctrls[answers.len() - 1].id;
        if has_id(d.controls, id) {
            let p = place(d.controls, id);
            assert(0 <= p < d.controls.len() && d.controls[p].id == id);
        }
    }
}

/// A value that was applied is stored, as long as no later one is applied to the same control.
proof fn applied_values_are_stored<GM, H, S, K>(
    d: DeviceView<GM, H, S, K>,
    s: SessionView<GM, H>,
    ctrls: Seq<ExtControl>,
    values: Seq<i32>,
    answers: Seq<Result<(), i32>>,
    i: int,
    k: int,
    n: int,
)
    requires
        d.fits(s),
        sorted(d.controls),
        answers.len() <= ctrls.len(),
        is_entry(d.controls, ctrls[i].id, k),
        0 <= i < n <= answers.len(),
        forall|j: int| i < j < ctrls.len() ==> (#[trigger] ctrls[j]).id != ctrls[i].id,
        applied_set(d, s, ctrls, values, answers.take(n)).1 is None,
        !(d.controls[k].ty@ is Button),
    ensures
        applied_set(d, s, ctrls, values, answers.take(n)).0.ctrl_values[k] == values[i],
    decreases n,
{
    let upto = answers.take(n);
    let before = answers.take(n - 1);
    assert(upto.drop_last() =~= before);
    place_is_unique(d.controls, k);
    let (t, stop) = applied_set(d, s, ctrls, values, before);
    applying_leaves_the_rest(d, s, ctrls, values, before);
    assert(stop is None);
    if n - 1 > i {
        applied_values_are_stored(d, s, ctrls, values, answers, i, k, n - 1);
        let other = ctrls[n - 1].id;
        assert(other != ctrls[i].id);
        if has_id(d.controls, other) {
            let p = place(d.controls, other);
            assert(d.controls[p].id == other);
        }
    }
}

} // verus!
