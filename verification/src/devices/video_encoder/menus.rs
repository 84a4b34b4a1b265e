//! The menus of the codec controls, with the kernel's item names.
use vstd::prelude::*;

verus! {

/// A menu of the kernel's codec controls.
#[derive(Clone, Copy, Debug, PartialEq, Eq, Structural)]
pub enum MenuKind {
    BitrateMode,
    HeaderMode,
    H264Profile,
    H264Level,
    HevcProfile,
    HevcLevel,
    VpxProfile,
}

impl MenuKind {
    /// How many items the kernel's menu has; they are numbered from zero.
    pub open spec fn size(self) -> int {
        match self {
            MenuKind::BitrateMode => 3,
            MenuKind::HeaderMode => 2,
            MenuKind::H264Profile => 18,
            MenuKind::H264Level => 20,
            MenuKind::HevcProfile => 3,
            MenuKind::HevcLevel => 13,
            MenuKind::VpxProfile => 4,
        }
    }

    /// How many items the kernel's menu has.
    pub fn len(self) -> (r: i32)
        ensures
            r == self.size(),
    {
        match self {
            MenuKind::BitrateMode => 3,
            MenuKind::HeaderMode => 2,
            MenuKind::H264Profile => 18,
            MenuKind::H264Level => 20,
            MenuKind::HevcProfile => 3,
            MenuKind::HevcLevel => 13,
            MenuKind::VpxProfile => 4,
        }
    }

    /// The kernel's name of an item.
    pub open spec fn text(self, v: int) -> Seq<char> {
        match self {
            MenuKind::BitrateMode => bitrate_mode_text(v),
            MenuKind::HeaderMode => header_mode_text(v),
            MenuKind::H264Profile => h264_profile_text(v),
            MenuKind::H264Level => h264_level_text(v),
            MenuKind::HevcProfile => hevc_profile_text(v),
            MenuKind::HevcLevel => hevc_level_text(v),
            MenuKind::VpxProfile => vpx_profile_text(v),
        }
    }

    /// The kernel's name of an item.
    pub(crate) fn item_name(self, v: i32) -> (r: &'static str)
        requires
            0 <= v < self.size(),
        ensures
            r@ == self.text(v as int),
    {
        match self {
            MenuKind::BitrateMode => bitrate_mode_name(v),
            MenuKind::HeaderMode => header_mode_name(v),
            MenuKind::H264Profile => h264_profile_name(v),
            MenuKind::H264Level => h264_level_name(v),
            MenuKind::HevcProfile => hevc_profile_name(v),
            MenuKind::HevcLevel => hevc_level_name(v),
            MenuKind::VpxProfile => vpx_profile_name(v),
        }
    }
}

/// The name of bitrate mode `v`.
pub open spec fn bitrate_mode_text(v: int) -> Seq<char> {
    if v == 0 {
        "Variable Bitrate"@
    } else if v == 1 {
        "Constant Bitrate"@
    } else {
        "Constant Quality"@
    }
}

/// The name of bitrate mode `v`.
fn bitrate_mode_name(v: i32) -> (r: &'static str)
    requires
        0 <= v < 3,
    ensures
        r@ == bitrate_mode_text(v as int),
{
    match v {
        0 => "Variable Bitrate",
        1 => "Constant Bitrate",
        _ => "Constant Quality",
    }
}

/// The name of sequence header mode `v`.
pub open spec fn header_mode_text(v: int) -> Seq<char> {
    if v == 0 {
        "Separate Buffer"@
    } else {
        "Joined With 1st Frame"@
    }
}

/// The name of sequence header mode `v`.
fn header_mode_name(v: i32) -> (r: &'static str)
    requires
        0 <= v < 2,
    ensures
        r@ == header_mode_text(v as int),
{
    match v {
        0 => "Separate Buffer",
        _ => "Joined With 1st Frame",
    }
}

/// The name of H.264 profile `v`.
pub open spec fn h264_profile_text(v: int) -> Seq<char> {
    if v == 0 {
        "Baseline"@
    } else if v == 1 {
        "Constrained Baseline"@
    } else if v == 2 {
        "Main"@
    } else if v == 3 {
        "Extended"@
    } else if v == 4 {
        "High"@
    } else if v == 5 {
        "High 10"@
    } else if v == 6 {
        "High 422"@
    } else if v == 7 {
        "High 444 Predictive"@
    } else if v == 8 {
        "High 10 Intra"@
    } else if v == 9 {
        "High 422 Intra"@
    } else if v == 10 {
        "High 444 Intra"@
    } else if v == 11 {
        "CAVLC 444 Intra"@
    } else if v == 12 {
        "Scalable Baseline"@
    } else if v == 13 {
        "Scalable High"@
    } else if v == 14 {
        "Scalable High Intra"@
    } else if v == 15 {
        "Stereo High"@
    } else if v == 16 {
        "Multiview High"@
    } else {
        "Constrained High"@
    }
}

/// The name of H.264 profile `v`.
fn h264_profile_name(v: i32) -> (r: &'static str)
    requires
        0 <= v < 18,
    ensures
        r@ == h264_profile_text(v as int),
{
    match v {
        0 => "Baseline",
        1 => "Constrained Baseline",
        2 => "Main",
        3 => "Extended",
        4 => "High",
        5 => "High 10",
        6 => "High 422",
        7 => "High 444 Predictive",
        8 => "High 10 Intra",
        9 => "High 422 Intra",
        10 => "High 444 Intra",
        11 => "CAVLC 444 Intra",
        12 => "Scalable Baseline",
        13 => "Scalable High",
        14 => "Scalable High Intra",
        15 => "Stereo High",
        16 => "Multiview High",
        _ => "Constrained High",
    }
}

/// The name of H.264 level `v`.
pub open spec fn h264_level_text(v: int) -> Seq<char> {
    if v == 0 {
        "1"@
    } else if v == 1 {
        "1b"@
    } else if v == 2 {
        "1.1"@
    } else if v == 3 {
        "1.2"@
    } else if v == 4 {
        "1.3"@
    } else if v == 5 {
        "2"@
    } else if v == 6 {
        "2.1"@
    } else if v == 7 {
        "2.2"@
    } else if v == 8 {
        "3"@
    } else if v == 9 {
        "3.1"@
    } else if v == 10 {
        "3.2"@
    } else if v == 11 {
        "4"@
    } else if v == 12 {
        "4.1"@
    } else if v == 13 {
        "4.2"@
    } else if v == 14 {
        "5"@
    } else if v == 15 {
        "5.1"@
    } else if v == 16 {
        "5.2"@
    } else if v == 17 {
        "6.0"@
    } else if v == 18 {
        "6.1"@
    } else {
        "6.2"@
    }
}

/// The name of H.264 level `v`.
fn h264_level_name(v: i32) -> (r: &'static str)
    requires
        0 <= v < 20,
    ensures
        r@ == h264_level_text(v as int),
{
    match v {
        0 => "1",
        1 => "1b",
        2 => "1.1",
        3 => "1.2",
        4 => "1.3",
        5 => "2",
        6 => "2.1",
        7 => "2.2",
        8 => "3",
        9 => "3.1",
        10 => "3.2",
        11 => "4",
        12 => "4.1",
        13 => "4.2",
        14 => "5",
        15 => "5.1",
        16 => "5.2",
        17 => "6.0",
        18 => "6.1",
        _ => "6.2",
    }
}

/// The name of HEVC profile `v`.
pub open spec fn hevc_profile_text(v: int) -> Seq<char> {
    if v == 0 {
        "Main"@
    } else if v == 1 {
        "Main Still Picture"@
    } else {
        "Main 10"@
    }
}

/// The name of HEVC profile `v`.
fn hevc_profile_name(v: i32) -> (r: &'static str)
    requires
        0 <= v < 3,
    ensures
        r@ == hevc_profile_text(v as int),
{
    match v {
        0 => "Main",
        1 => "Main Still Picture",
        _ => "Main 10",
    }
}

/// The name of HEVC level `v`.
pub open spec fn hevc_level_text(v: int) -> Seq<char> {
    if v == 0 {
        "1"@
    } else if v == 1 {
        "2"@
    } else if v == 2 {
        "2.1"@
    } else if v == 3 {
        "3"@
    } else if v == 4 {
        "3.1"@
    } else if v == 5 {
        "4"@
    } else if v == 6 {
        "4.1"@
    } else if v == 7 {
        "5"@
    } else if v == 8 {
        "5.1"@
    } else if v == 9 {
        "5.2"@
    } else if v == 10 {
        "6"@
    } else if v == 11 {
        "6.1"@
    } else {
        "6.2"@
    }
}

/// The name of HEVC level `v`.
fn hevc_level_name(v: i32) -> (r: &'static str)
    requires
        0 <= v < 13,
    ensures
        r@ == hevc_level_text(v as int),
{
    match v {
        0 => "1",
        1 => "2",
        2 => "2.1",
        3 => "3",
        4 => "3.1",
        5 => "4",
        6 => "4.1",
        7 => "5",
        8 => "5.1",
        9 => "5.2",
        10 => "6",
        11 => "6.1",
        _ => "6.2",
    }
}

/// The name of VP8 or VP9 profile `v`.
pub open spec fn vpx_profile_text(v: int) -> Seq<char> {
    if v == 0 {
        "0"@
    } else if v == 1 {
        "1"@
    } else if v == 2 {
        "2"@
    } else {
        "3"@
    }
}

/// The name of VP8 or VP9 profile `v`.
fn vpx_profile_name(v: i32) -> (r: &'static str)
    requires
        0 <= v < 4,
    ensures
        r@ == vpx_profile_text(v as int),
{
    match v {
        0 => "0",
        1 => "1",
        2 => "2",
        _ => "3",
    }
}

} // verus!
