//! Building the control table of a device and finding controls in it.
use vstd::prelude::*;

use super::capabilities::{CapabilitiesView, CodedFormatView, EncoderCapabilities};
use super::controls::{
    all_modes, control_of, menu_from, menu_of_is_well_formed, union_range, well_formed_menu,
    CtrlType, CtrlView, MAX_BUFFERS, V4L2_CID_CODEC_CLASS, V4L2_CID_MIN_BUFFERS_FOR_OUTPUT,
    V4L2_CID_MPEG_VIDEO_BITRATE, V4L2_CID_MPEG_VIDEO_BITRATE_MODE,
    V4L2_CID_MPEG_VIDEO_FORCE_KEY_FRAME, V4L2_CID_MPEG_VIDEO_GOP_SIZE,
    V4L2_CID_MPEG_VIDEO_H264_LEVEL, V4L2_CID_MPEG_VIDEO_H264_MAX_QP,
    V4L2_CID_MPEG_VIDEO_H264_MIN_QP, V4L2_CID_MPEG_VIDEO_H264_PROFILE,
    V4L2_CID_MPEG_VIDEO_HEADER_MODE, V4L2_CID_MPEG_VIDEO_HEVC_LEVEL,
    V4L2_CID_MPEG_VIDEO_HEVC_MAX_QP, V4L2_CID_MPEG_VIDEO_HEVC_MIN_QP,
    V4L2_CID_MPEG_VIDEO_HEVC_PROFILE, V4L2_CID_MPEG_VIDEO_PREPEND_SPSPPS_TO_IDR,
    V4L2_CID_MPEG_VIDEO_VP8_PROFILE, V4L2_CID_MPEG_VIDEO_VP9_PROFILE, V4L2_CID_USER_CLASS,
};
use super::menus::MenuKind;
use super::ranges::ControlRange;
use crate::v4l2::{PixelFormat, FOURCC_H264, FOURCC_HEVC, FOURCC_VP80, FOURCC_VP90};

verus! {

/// The kernel's name of a control of the table.
pub open spec fn ctrl_text(id: u32) -> Seq<char> {
    if id == V4L2_CID_USER_CLASS {
        "User Controls"@
    } else if id == V4L2_CID_MIN_BUFFERS_FOR_OUTPUT {
        "Min Number of Output Buffers"@
    } else if id == V4L2_CID_CODEC_CLASS {
        "Codec Controls"@
    } else if id == V4L2_CID_MPEG_VIDEO_GOP_SIZE {
        "Video GOP Size"@
    } else if id == V4L2_CID_MPEG_VIDEO_BITRATE_MODE {
        "Video Bitrate Mode"@
    } else if id == V4L2_CID_MPEG_VIDEO_BITRATE {
        "Video Bitrate"@
    } else if id == V4L2_CID_MPEG_VIDEO_HEADER_MODE {
        "Sequence Header Mode"@
    } else if id == V4L2_CID_MPEG_VIDEO_FORCE_KEY_FRAME {
        "Force Key Frame"@
    } else if id == V4L2_CID_MPEG_VIDEO_H264_MIN_QP {
        "H264 Minimum QP Value"@
    } else if id == V4L2_CID_MPEG_VIDEO_H264_MAX_QP {
        "H264 Maximum QP Value"@
    } else if id == V4L2_CID_MPEG_VIDEO_H264_LEVEL {
        "H264 Level"@
    } else if id == V4L2_CID_MPEG_VIDEO_H264_PROFILE {
        "H264 Profile"@
    } else if id == V4L2_CID_MPEG_VIDEO_VP8_PROFILE {
        "VP8 Profile"@
    } else if id == V4L2_CID_MPEG_VIDEO_VP9_PROFILE {
        "VP9 Profile"@
    } else if id == V4L2_CID_MPEG_VIDEO_HEVC_MIN_QP {
        "HEVC Minimum QP Value"@
    } else if id == V4L2_CID_MPEG_VIDEO_HEVC_MAX_QP {
        "HEVC Maximum QP Value"@
    } else if id == V4L2_CID_MPEG_VIDEO_HEVC_PROFILE {
        "HEVC Profile"@
    } else if id == V4L2_CID_MPEG_VIDEO_HEVC_LEVEL {
        "HEVC Level"@
    } else {
        "Prepend SPS and PPS to IDR"@
    }
}

/// The kernel's name of a control of the table.
pub fn ctrl_name(id: u32) -> (r: &'static str)
    ensures
        r@ == ctrl_text(id),
{
    if id == V4L2_CID_USER_CLASS {
        "User Controls"
    } else if id == V4L2_CID_MIN_BUFFERS_FOR_OUTPUT {
        "Min Number of Output Buffers"
    } else if id == V4L2_CID_CODEC_CLASS {
        "Codec Controls"
    } else if id == V4L2_CID_MPEG_VIDEO_GOP_SIZE {
        "Video GOP Size"
    } else if id == V4L2_CID_MPEG_VIDEO_BITRATE_MODE {
        "Video Bitrate Mode"
    } else if id == V4L2_CID_MPEG_VIDEO_BITRATE {
        "Video Bitrate"
    } else if id == V4L2_CID_MPEG_VIDEO_HEADER_MODE {
        "Sequence Header Mode"
    } else if id == V4L2_CID_MPEG_VIDEO_FORCE_KEY_FRAME {
        "Force Key Frame"
    } else if id == V4L2_CID_MPEG_VIDEO_H264_MIN_QP {
        "H264 Minimum QP Value"
    } else if id == V4L2_CID_MPEG_VIDEO_H264_MAX_QP {
        "H264 Maximum QP Value"
    } else if id == V4L2_CID_MPEG_VIDEO_H264_LEVEL {
        "H264 Level"
    } else if id == V4L2_CID_MPEG_VIDEO_H264_PROFILE {
        "H264 Profile"
    } else if id == V4L2_CID_MPEG_VIDEO_VP8_PROFILE {
        "VP8 Profile"
    } else if id == V4L2_CID_MPEG_VIDEO_VP9_PROFILE {
        "VP9 Profile"
    } else if id == V4L2_CID_MPEG_VIDEO_HEVC_MIN_QP {
        "HEVC Minimum QP Value"
    } else if id == V4L2_CID_MPEG_VIDEO_HEVC_MAX_QP {
        "HEVC Maximum QP Value"
    } else if id == V4L2_CID_MPEG_VIDEO_HEVC_PROFILE {
        "HEVC Profile"
    } else if id == V4L2_CID_MPEG_VIDEO_HEVC_LEVEL {
        "HEVC Level"
    } else {
        "Prepend SPS and PPS to IDR"
    }
}

/// One control the device answers for, built from the capabilities at device creation.
#[derive(Debug, PartialEq, Eq)]
pub struct CtrlDef {
    pub id: u32,
    pub ty: CtrlType,
}

/// Whether a table is sorted by id, each id once.
pub open spec fn sorted(table: Seq<CtrlDef>) -> bool {
    forall|i: int, j: int| 0 <= i < j < table.len() ==> table[i].id < table[j].id
}

/// Whether a table holds exactly the controls of a set of capabilities, sorted by id.
pub open spec fn is_table(caps: CapabilitiesView, table: Seq<CtrlDef>) -> bool {
    &&& sorted(table)
    &&& forall|i: int|
        0 <= i < table.len() ==> control_of(caps, (#[trigger] table[i]).id) == Some(table[i].ty@)
    &&& forall|id: u32| #[trigger] control_of(caps, id) is Some ==> has_id(table, id)
}

/// Whether a table has a control.
pub open spec fn has_id(table: Seq<CtrlDef>, id: u32) -> bool {
    exists|i: int| 0 <= i < table.len() && (#[trigger] table[i]).id == id
}

/// The place of a control in a table.
pub open spec fn place(table: Seq<CtrlDef>, id: u32) -> int {
    choose|i: int| 0 <= i < table.len() && (#[trigger] table[i]).id == id
}

/// In a sorted table a control has one place.
pub proof fn place_is_unique(table: Seq<CtrlDef>, i: int)
    requires
        sorted(table),
        0 <= i < table.len(),
    ensures
        has_id(table, table[i].id),
        place(table, table[i].id) == i,
{
    let p = place(table, table[i].id);
    assert(0 <= p < table.len() && table[p].id == table[i].id);
}

/// Two tables of one set of capabilities hold the same controls at the same places.
pub proof fn tables_agree(caps: CapabilitiesView, a: Seq<CtrlDef>, b: Seq<CtrlDef>, i: int)
    requires
        is_table(caps, a),
        is_table(caps, b),
        0 <= i < a.len(),
    ensures
        has_id(b, a[i].id),
        b[place(b, a[i].id)].ty@ == a[i].ty@,
{
    assert(control_of(caps, a[i].id) is Some);
}

/// Every control of a set of capabilities is well formed: its menu items are the kernel's.
pub proof fn controls_are_well_formed(caps: CapabilitiesView, id: u32)
    ensures
        control_of(caps, id) matches Some(c) ==> well_formed_menu(c),
{
    menu_of_is_well_formed(MenuKind::BitrateMode, all_modes(caps.formats));
    assert(seq![0i32, 1i32].contains(0) && forall|v: i32|
        seq![0i32, 1i32].contains(v) ==> 0 <= v < 2);
    assert forall|fourcc: u32, menu: MenuKind|
        #![trigger super::controls::profile_of(caps, fourcc, menu)]
        super::controls::profile_of(caps, fourcc, menu) matches Some(c) ==> well_formed_menu(c) by {
        if let Some(f) = caps.format(PixelFormat(fourcc)) {
            menu_of_is_well_formed(menu, f.profiles);
        }
    }
    assert forall|fourcc: u32, menu: MenuKind|
        #![trigger super::controls::level_of(caps, fourcc, menu)]
        super::controls::level_of(caps, fourcc, menu) matches Some(c) ==> well_formed_menu(c) by {
        if let Some(f) = caps.format(PixelFormat(fourcc)) {
            menu_of_is_well_formed(menu, f.levels);
        }
    }
}

/// The values of every format's bitrate modes, in order.
fn modes(caps: &EncoderCapabilities) -> (r: Vec<i32>)
    ensures
        r@ == all_modes(caps@.formats),
{
    let mut out: Vec<i32> = Vec::new();
    let mut i: usize = 0;
    while i < caps.coded_formats.len()
        invariant
            i <= caps.coded_formats@.len(),
            out@ == all_modes(caps@.formats.take(i as int)),
        decreases caps.coded_formats@.len() - i,
    {
        let f = &caps.coded_formats[i];
        let ghost before = out@;
        let ghost values = f.bitrate_modes@.map_values(
            |m: super::capabilities::VideoBitrateMode| m.value(),
        );
        let mut k: usize = 0;
        while k < f.bitrate_modes.len()
            invariant
                k <= f.bitrate_modes@.len(),
                values == f.bitrate_modes@.map_values(
                    |m: super::capabilities::VideoBitrateMode| m.value(),
                ),
                out@ == before + values.take(k as int),
            decreases f.bitrate_modes@.len() - k,
        {
            out.push(f.bitrate_modes[k].to_i32());
            k = k + 1;
        }
        assert(values.take(k as int) == values);
        assert(caps@.formats.take(i + 1).drop_last() == caps@.formats.take(i as int));
        assert(caps@.formats.take(i + 1).last() == f@);
        i = i + 1;
    }
    assert(caps@.formats.take(i as int) == caps@.formats);
    out
}

/// The group-of-pictures ranges of every format.
fn gop_ranges(caps: &EncoderCapabilities) -> (r: Vec<ControlRange>)
    ensures
        r@ == caps@.formats.map_values(|f: CodedFormatView| f.gop_size),
{
    let mut out: Vec<ControlRange> = Vec::new();
    let mut i: usize = 0;
    while i < caps.coded_formats.len()
        invariant
            i <= caps.coded_formats@.len(),
            out@.len() == i,
            forall|j: int| 0 <= j < i ==> #[trigger] out@[j] == caps.coded_formats@[j].gop_size,
        decreases caps.coded_formats@.len() - i,
    {
        out.push(caps.coded_formats[i].gop_size);
        i = i + 1;
    }
    out
}

/// The bitrate ranges of every format.
fn bitrate_ranges(caps: &EncoderCapabilities) -> (r: Vec<ControlRange>)
    ensures
        r@ == caps@.formats.map_values(|f: CodedFormatView| f.bitrate),
{
    let mut out: Vec<ControlRange> = Vec::new();
    let mut i: usize = 0;
    while i < caps.coded_formats.len()
        invariant
            i <= caps.coded_formats@.len(),
            out@.len() == i,
            forall|j: int| 0 <= j < i ==> #[trigger] out@[j] == caps.coded_formats@[j].bitrate,
        decreases caps.coded_formats@.len() - i,
    {
        out.push(caps.coded_formats[i].bitrate);
        i = i + 1;
    }
    out
}

/// An integer control the guest may set.
fn integer(range: Option<ControlRange>) -> (r: Option<CtrlType>)
    ensures
        match range {
            Some(range) => r matches Some(c) && c@ == (CtrlView::Integer {
                range,
                read_only: false,
            }),
            None => r is None,
        },
{
    match range {
        Some(range) => Some(CtrlType::Integer { range, read_only: false }),
        None => None,
    }
}

/// The profile control of a codec.
fn profile(caps: &EncoderCapabilities, fourcc: u32, menu: MenuKind) -> (r: Option<CtrlType>)
    ensures
        r is Some <==> super::controls::profile_of(caps@, fourcc, menu) is Some,
        r matches Some(c) ==> super::controls::profile_of(caps@, fourcc, menu) == Some(c@),
{
    match caps.find(PixelFormat(fourcc)) {
        Some(i) => menu_from(menu, &caps.coded_formats[i].profiles),
        None => None,
    }
}

/// The level control of a codec.
fn level(caps: &EncoderCapabilities, fourcc: u32, menu: MenuKind) -> (r: Option<CtrlType>)
    ensures
        r is Some <==> super::controls::level_of(caps@, fourcc, menu) is Some,
        r matches Some(c) ==> super::controls::level_of(caps@, fourcc, menu) == Some(c@),
{
    match caps.find(PixelFormat(fourcc)) {
        Some(i) => menu_from(menu, &caps.coded_formats[i].levels),
        None => None,
    }
}

/// A quantiser control of a codec.
fn qp(caps: &EncoderCapabilities, fourcc: u32, maximum: bool) -> (r: Option<CtrlType>)
    ensures
        r is Some <==> super::controls::qp_of(caps@, fourcc, maximum) is Some,
        r matches Some(c) ==> super::controls::qp_of(caps@, fourcc, maximum) == Some(c@),
{
    match caps.find(PixelFormat(fourcc)) {
        Some(i) => match caps.coded_formats[i].qp {
            Some(q) => Some(
                CtrlType::Integer {
                    range: ControlRange {
                        min: q.min,
                        max: q.max,
                        default: if maximum {
                            q.max
                        } else {
                            q.min
                        },
                    },
                    read_only: false,
                },
            ),
            None => None,
        },
        None => None,
    }
}

/// The read-only count of raw buffers the codec needs.
fn min_buffers(caps: &EncoderCapabilities) -> (r: CtrlType)
    ensures
        control_of(caps@, V4L2_CID_MIN_BUFFERS_FOR_OUTPUT) == Some(r@),
{
    let least: u32 = if caps.min_output_buffers >= 1 {
        caps.min_output_buffers
    } else {
        1
    };
    CtrlType::Integer {
        range: ControlRange {
            min: 1,
            max: MAX_BUFFERS as i32,
            default: if least <= MAX_BUFFERS as u32 {
                least as i32
            } else {
                MAX_BUFFERS as i32
            },
        },
        read_only: true,
    }
}

/// What control `id` is for a set of capabilities, if there is one.
pub fn control(caps: &EncoderCapabilities, id: u32) -> (r: Option<CtrlType>)
    ensures
        r is Some <==> control_of(caps@, id) is Some,
        r matches Some(c) ==> control_of(caps@, id) == Some(c@),
{
    if id == V4L2_CID_USER_CLASS || id == V4L2_CID_CODEC_CLASS {
        Some(CtrlType::Class)
    } else if id == V4L2_CID_MIN_BUFFERS_FOR_OUTPUT {
        Some(min_buffers(caps))
    } else if id == V4L2_CID_MPEG_VIDEO_GOP_SIZE {
        integer(union_range(&gop_ranges(caps)))
    } else if id == V4L2_CID_MPEG_VIDEO_BITRATE_MODE {
        menu_from(MenuKind::BitrateMode, &modes(caps))
    } else if id == V4L2_CID_MPEG_VIDEO_BITRATE {
        integer(union_range(&bitrate_ranges(caps)))
    } else if id == V4L2_CID_MPEG_VIDEO_HEADER_MODE {
        let mut items: Vec<i32> = Vec::new();
        items.push(0);
        items.push(1);
        assert(items@ == seq![0i32, 1i32]);
        Some(CtrlType::Menu { menu: MenuKind::HeaderMode, items, default: 1 })
    } else if id == V4L2_CID_MPEG_VIDEO_FORCE_KEY_FRAME {
        Some(CtrlType::Button)
    } else if id == V4L2_CID_MPEG_VIDEO_H264_MIN_QP {
        qp(caps, FOURCC_H264, false)
    } else if id == V4L2_CID_MPEG_VIDEO_H264_MAX_QP {
        qp(caps, FOURCC_H264, true)
    } else if id == V4L2_CID_MPEG_VIDEO_H264_LEVEL {
        level(caps, FOURCC_H264, MenuKind::H264Level)
    } else if id == V4L2_CID_MPEG_VIDEO_H264_PROFILE {
        profile(caps, FOURCC_H264, MenuKind::H264Profile)
    } else if id == V4L2_CID_MPEG_VIDEO_VP8_PROFILE {
        profile(caps, FOURCC_VP80, MenuKind::VpxProfile)
    } else if id == V4L2_CID_MPEG_VIDEO_VP9_PROFILE {
        profile(caps, FOURCC_VP90, MenuKind::VpxProfile)
    } else if id == V4L2_CID_MPEG_VIDEO_HEVC_MIN_QP {
        qp(caps, FOURCC_HEVC, false)
    } else if id == V4L2_CID_MPEG_VIDEO_HEVC_MAX_QP {
        qp(caps, FOURCC_HEVC, true)
    } else if id == V4L2_CID_MPEG_VIDEO_HEVC_PROFILE {
        profile(caps, FOURCC_HEVC, MenuKind::HevcProfile)
    } else if id == V4L2_CID_MPEG_VIDEO_HEVC_LEVEL {
        level(caps, FOURCC_HEVC, MenuKind::HevcLevel)
    } else if id == V4L2_CID_MPEG_VIDEO_PREPEND_SPSPPS_TO_IDR {
        Some(CtrlType::Boolean { on: false })
    } else {
        None
    }
}

/// The ids a table may have, ascending.
pub open spec fn known_ids() -> Seq<u32> {
    seq![
        V4L2_CID_USER_CLASS,
        V4L2_CID_MIN_BUFFERS_FOR_OUTPUT,
        V4L2_CID_CODEC_CLASS,
        V4L2_CID_MPEG_VIDEO_GOP_SIZE,
        V4L2_CID_MPEG_VIDEO_BITRATE_MODE,
        V4L2_CID_MPEG_VIDEO_BITRATE,
        V4L2_CID_MPEG_VIDEO_HEADER_MODE,
        V4L2_CID_MPEG_VIDEO_FORCE_KEY_FRAME,
        V4L2_CID_MPEG_VIDEO_H264_MIN_QP,
        V4L2_CID_MPEG_VIDEO_H264_MAX_QP,
        V4L2_CID_MPEG_VIDEO_H264_LEVEL,
        V4L2_CID_MPEG_VIDEO_H264_PROFILE,
        V4L2_CID_MPEG_VIDEO_VP8_PROFILE,
        V4L2_CID_MPEG_VIDEO_VP9_PROFILE,
        V4L2_CID_MPEG_VIDEO_HEVC_MIN_QP,
        V4L2_CID_MPEG_VIDEO_HEVC_MAX_QP,
        V4L2_CID_MPEG_VIDEO_HEVC_PROFILE,
        V4L2_CID_MPEG_VIDEO_HEVC_LEVEL,
        V4L2_CID_MPEG_VIDEO_PREPEND_SPSPPS_TO_IDR,
    ]
}

/// A control's id is one of the known ones.
proof fn ids_are_known(caps: CapabilitiesView, id: u32)
    requires
        control_of(caps, id) is Some,
    ensures
        known_ids().contains(id),
{
    let k = known_ids();
    assert(k.len() == 19);
    assert(k[0] == V4L2_CID_USER_CLASS && k[1] == V4L2_CID_MIN_BUFFERS_FOR_OUTPUT && k[2]
        == V4L2_CID_CODEC_CLASS && k[3] == V4L2_CID_MPEG_VIDEO_GOP_SIZE && k[4]
        == V4L2_CID_MPEG_VIDEO_BITRATE_MODE && k[5] == V4L2_CID_MPEG_VIDEO_BITRATE && k[6]
        == V4L2_CID_MPEG_VIDEO_HEADER_MODE && k[7] == V4L2_CID_MPEG_VIDEO_FORCE_KEY_FRAME && k[8]
        == V4L2_CID_MPEG_VIDEO_H264_MIN_QP && k[9] == V4L2_CID_MPEG_VIDEO_H264_MAX_QP && k[10]
        == V4L2_CID_MPEG_VIDEO_H264_LEVEL && k[11] == V4L2_CID_MPEG_VIDEO_H264_PROFILE && k[12]
        == V4L2_CID_MPEG_VIDEO_VP8_PROFILE && k[13] == V4L2_CID_MPEG_VIDEO_VP9_PROFILE && k[14]
        == V4L2_CID_MPEG_VIDEO_HEVC_MIN_QP && k[15] == V4L2_CID_MPEG_VIDEO_HEVC_MAX_QP && k[16]
        == V4L2_CID_MPEG_VIDEO_HEVC_PROFILE && k[17] == V4L2_CID_MPEG_VIDEO_HEVC_LEVEL && k[18]
        == V4L2_CID_MPEG_VIDEO_PREPEND_SPSPPS_TO_IDR);
}

/// The control table for a set of capabilities, sorted by id. Codec-specific controls (profile,
/// level, quantiser) exist for every coded format the backend offers, whatever the current
/// `CAPTURE` format; where two formats have one fourcc the first one's controls stand.
pub fn controls_for(caps: &EncoderCapabilities) -> (r: Vec<CtrlDef>)
    ensures
        is_table(caps@, r@),
{
    let ids: [u32; 19] = [
        V4L2_CID_USER_CLASS,
        V4L2_CID_MIN_BUFFERS_FOR_OUTPUT,
        V4L2_CID_CODEC_CLASS,
        V4L2_CID_MPEG_VIDEO_GOP_SIZE,
        V4L2_CID_MPEG_VIDEO_BITRATE_MODE,
        V4L2_CID_MPEG_VIDEO_BITRATE,
        V4L2_CID_MPEG_VIDEO_HEADER_MODE,
        V4L2_CID_MPEG_VIDEO_FORCE_KEY_FRAME,
        V4L2_CID_MPEG_VIDEO_H264_MIN_QP,
        V4L2_CID_MPEG_VIDEO_H264_MAX_QP,
        V4L2_CID_MPEG_VIDEO_H264_LEVEL,
        V4L2_CID_MPEG_VIDEO_H264_PROFILE,
        V4L2_CID_MPEG_VIDEO_VP8_PROFILE,
        V4L2_CID_MPEG_VIDEO_VP9_PROFILE,
        V4L2_CID_MPEG_VIDEO_HEVC_MIN_QP,
        V4L2_CID_MPEG_VIDEO_HEVC_MAX_QP,
        V4L2_CID_MPEG_VIDEO_HEVC_PROFILE,
        V4L2_CID_MPEG_VIDEO_HEVC_LEVEL,
        V4L2_CID_MPEG_VIDEO_PREPEND_SPSPPS_TO_IDR,
    ];
    assert(ids@ == known_ids());
    assert(forall|i: int, j: int| 0 <= i < j < 19 ==> ids@[i] < ids@[j]);
    let mut out: Vec<CtrlDef> = Vec::new();
    let mut i: usize = 0;
    while i < 19
        invariant
            i <= 19,
            ids@ == known_ids(),
            ids@.len() == 19,
            forall|a: int, b: int| 0 <= a < b < 19 ==> ids@[a] < ids@[b],
            sorted(out@),
            i < 19 ==> forall|j: int|
                0 <= j < out@.len() ==> (#[trigger] out@[j]).id < ids@[i as int],
            forall|j: int|
                0 <= j < out@.len() ==> control_of(caps@, (#[trigger] out@[j]).id) == Some(
                    out@[j].ty@,
                ),
            forall|a: int|
                0 <= a < i && control_of(caps@, #[trigger] ids@[a]) is Some ==> has_id(
                    out@,
                    ids@[a],
                ),
        decreases 19 - i,
    {
        let id: u32 = ids[i];
        let ghost before = out@;
        if let Some(ty) = control(caps, id) {
            out.push(CtrlDef { id, ty });
            assert(out@[out@.len() - 1].id == id);
        }
        assert forall|a: int|
            0 <= a < i + 1 && control_of(caps@, #[trigger] ids@[a]) is Some implies has_id(
            out@,
            ids@[a],
        ) by {
            if a < i {
                let p = place(before, ids@[a]);
                assert(before[p].id == ids@[a]);
                assert(out@[p].id == ids@[a]);
            } else {
                assert(out@[out@.len() - 1].id == ids@[a]);
            }
        }
        i = i + 1;
    }
    assert forall|id: u32| #[trigger] control_of(caps@, id) is Some implies has_id(out@, id) by {
        ids_are_known(caps@, id);
        let a = choose|a: int| 0 <= a < ids@.len() && ids@[a] == id;
        assert(control_of(caps@, ids@[a]) is Some);
    }
    out
}

/// The place of a control in a sorted table.
pub(crate) fn control_index(table: &Vec<CtrlDef>, id: u32) -> (r: Option<usize>)
    requires
        sorted(table@),
    ensures
        r is Some <==> has_id(table@, id),
        r matches Some(i) ==> i < table@.len() && table@[i as int].id == id && place(table@, id)
            == i,
{
    let mut lo: usize = 0;
    let mut hi: usize = table.len();
    while lo < hi
        invariant
            sorted(table@),
            lo <= hi <= table@.len(),
            forall|j: int| 0 <= j < lo ==> (#[trigger] table@[j]).id < id,
            forall|j: int| hi <= j < table@.len() ==> (#[trigger] table@[j]).id > id,
        decreases hi - lo,
    {
        let mid: usize = lo + (hi - lo) / 2;
        let at: u32 = table[mid].id;
        if at == id {
            proof {
                place_is_unique(table@, mid as int);
            }
            return Some(mid);
        } else if at < id {
            lo = mid + 1;
        } else {
            hi = mid;
        }
    }
    None
}

/// The place of the first control with an id greater than `id`.
pub(crate) fn next_index(table: &Vec<CtrlDef>, id: u32) -> (r: Option<usize>)
    requires
        sorted(table@),
    ensures
        r matches Some(i) ==> i < table@.len() && table@[i as int].id > id && forall|j: int|
            0 <= j < i ==> (#[trigger] table@[j]).id <= id,
        r is None ==> forall|j: int| 0 <= j < table@.len() ==> (#[trigger] table@[j]).id <= id,
{
    let mut i: usize = 0;
    while i < table.len()
        invariant
            i <= table@.len(),
            forall|j: int| 0 <= j < i ==> (#[trigger] table@[j]).id <= id,
        decreases table@.len() - i,
    {
        if table[i].id > id {
            return Some(i);
        }
        i = i + 1;
    }
    None
}

} // verus!
