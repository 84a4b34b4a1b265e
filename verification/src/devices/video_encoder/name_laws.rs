//! The names that controls, menu items and formats are told by.
use vstd::prelude::*;
use vstd::utf8::encode_utf8;

use super::control_ioctls::names;
use super::control_table::is_table;
use super::device::DeviceView;
use super::ioctls::encoder_answers;
use super::session::SessionView;
use crate::ioctl::reply::IoctlReply;
use crate::ioctl::requests::IoctlRequest;
use crate::ioctl::types::QueryCtrlFlags;
use crate::v4l2::QueueType;

verus! {

/// Whether a field of 32 bytes holds a name: as much of it as leaves room for a zero, and zeroes
/// behind.
pub open spec fn is_named(field: Seq<u8>, name: Seq<char>) -> bool {
    &&& field.len() == 32
    &&& field[31] == 0
    &&& forall|i: int|
        0 <= i < 31 ==> #[trigger] field[i] == (if i < encode_utf8(name).len() {
            encode_utf8(name)[i]
        } else {
            0
        })
}

/// The names of the bitrate modes, in order.
pub open spec fn bitrate_modes() -> Seq<Seq<char>> {
    seq![
        "Variable Bitrate"@,
        "Constant Bitrate"@,
        "Constant Quality"@,
    ]
}

/// The names of the sequence header modes, in order.
pub open spec fn header_modes() -> Seq<Seq<char>> {
    seq![
        "Separate Buffer"@,
        "Joined With 1st Frame"@,
    ]
}

/// The names of the H.264 profiles, in order.
pub open spec fn h264_profiles() -> Seq<Seq<char>> {
    seq![
        "Baseline"@,
        "Constrained Baseline"@,
        "Main"@,
        "Extended"@,
        "High"@,
        "High 10"@,
        "High 422"@,
        "High 444 Predictive"@,
        "High 10 Intra"@,
        "High 422 Intra"@,
        "High 444 Intra"@,
        "CAVLC 444 Intra"@,
        "Scalable Baseline"@,
        "Scalable High"@,
        "Scalable High Intra"@,
        "Stereo High"@,
        "Multiview High"@,
        "Constrained High"@,
    ]
}

/// The names of the H.264 levels, in order.
pub open spec fn h264_levels() -> Seq<Seq<char>> {
    seq![
        "1"@,
        "1b"@,
        "1.1"@,
        "1.2"@,
        "1.3"@,
        "2"@,
        "2.1"@,
        "2.2"@,
        "3"@,
        "3.1"@,
        "3.2"@,
        "4"@,
        "4.1"@,
        "4.2"@,
        "5"@,
        "5.1"@,
        "5.2"@,
        "6.0"@,
        "6.1"@,
        "6.2"@,
    ]
}

/// The names of the HEVC profiles, in order.
pub open spec fn hevc_profiles() -> Seq<Seq<char>> {
    seq![
        "Main"@,
        "Main Still Picture"@,
        "Main 10"@,
    ]
}

/// The names of the HEVC levels, in order.
pub open spec fn hevc_levels() -> Seq<Seq<char>> {
    seq![
        "1"@,
        "2"@,
        "2.1"@,
        "3"@,
        "3.1"@,
        "4"@,
        "4.1"@,
        "5"@,
        "5.1"@,
        "5.2"@,
        "6"@,
        "6.1"@,
        "6.2"@,
    ]
}

/// The names of the VP8 and VP9 profiles, in order.
pub open spec fn vpx_profiles() -> Seq<Seq<char>> {
    seq![
        "0"@,
        "1"@,
        "2"@,
        "3"@,
    ]
}

/// The items of each menu are told by the names that they have there.
pub proof fn items_are_told_by_name<GM, H, S, K>(
    d: DeviceView<GM, H, S, K>,
    s: SessionView<GM, H>,
    id: u32,
    index: u32,
    d2: DeviceView<GM, H, S, K>,
    s2: SessionView<GM, H>,
    reply: IoctlReply,
)
    requires
        is_table(d.caps, d.controls),
        encoder_answers(d, s, IoctlRequest::QueryMenu { id, index }, d2, s2, reply),
    ensures
        reply matches IoctlReply::QueryMenu { item } ==> {
            let i = index as int;
            &&& id == 0x99_09ce ==> i < 3 && is_named(item.name@, bitrate_modes()[i])
            &&& id == 0x99_09d8 ==> i < 2 && is_named(item.name@, header_modes()[i])
            &&& id == 0x99_0a6b ==> i < 18 && is_named(item.name@, h264_profiles()[i])
            &&& id == 0x99_0a67 ==> i < 20 && is_named(item.name@, h264_levels()[i])
            &&& id == 0x99_0b67 ==> i < 3 && is_named(item.name@, hevc_profiles()[i])
            &&& id == 0x99_0b68 ==> i < 13 && is_named(item.name@, hevc_levels()[i])
            &&& id == 0x99_0aff ==> i < 4 && is_named(item.name@, vpx_profiles()[i])
            &&& id == 0x99_0b00 ==> i < 4 && is_named(item.name@, vpx_profiles()[i])
        },
{
    if reply is QueryMenu {
        let k = super::control_table::place(d.controls, id);
        let ty = d.controls[k].ty@;
        assert(d.controls[k].id == id);
        assert(super::controls::control_of(d.caps, d.controls[k].id) == Some(ty));
        super::control_table::controls_are_well_formed(d.caps, id);
        assert(0 <= index < ty->menu.size());
    }
}

/// Each control is told by its name.
pub proof fn controls_are_told_by_name<GM, H, S, K>(
    d: DeviceView<GM, H, S, K>,
    s: SessionView<GM, H>,
    id: u32,
    flags: QueryCtrlFlags,
    d2: DeviceView<GM, H, S, K>,
    s2: SessionView<GM, H>,
    reply: IoctlReply,
)
    requires
        encoder_answers(d, s, IoctlRequest::QueryCtrl { id, flags }, d2, s2, reply),
        reply is QueryCtrl,
    ensures
        ({
            let q = reply->QueryCtrl_ctrl;
            &&& q.id == 0x99_0b84 ==> is_named(q.name@, "Prepend SPS and PPS to IDR"@)
        }),
{
    let i = choose|i: int|
        0 <= i < d.controls.len() && #[trigger] names(d.controls, id, flags, i)
            && super::control_ioctls::describes(reply->QueryCtrl_ctrl, d.controls[i]);
}

/// Each format is described by the name of its codec, and the raw one by its layout; one
/// that is not known is told so.
pub proof fn formats_are_described_by_name<GM, H, S, K>(
    d: DeviceView<GM, H, S, K>,
    s: SessionView<GM, H>,
    queue: QueueType,
    index: u32,
    d2: DeviceView<GM, H, S, K>,
    s2: SessionView<GM, H>,
    reply: IoctlReply,
)
    requires
        encoder_answers(d, s, IoctlRequest::EnumFmt { queue, index }, d2, s2, reply),
        reply is FmtDesc,
    ensures
        ({
            let desc = reply->desc;
            let f = desc.pixelformat;
            &&& f == 0x3436_3248 ==> is_named(desc.description@, "H.264"@)
            &&& f == 0x4356_4548 ==> is_named(desc.description@, "HEVC"@)
            &&& f == 0x3038_5056 ==> is_named(desc.description@, "VP8"@)
            &&& f == 0x3039_5056 ==> is_named(desc.description@, "VP9"@)
            &&& f == 0x3130_5641 ==> is_named(desc.description@, "AV1"@)
            &&& f == 0x3231_564e ==> is_named(desc.description@, "Y/UV 4:2:0"@)
            &&& f != 0x3436_3248 && f != 0x4356_4548 && f != 0x3038_5056 && f != 0x3039_5056 && f
                != 0x3130_5641 && f != 0x3231_564e ==> is_named(desc.description@, "Unknown"@)
        }),
{
}

} // verus!
