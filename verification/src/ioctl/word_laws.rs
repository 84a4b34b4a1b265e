//! Which words of a request choose what it asks for, and which of them are refused.
use vstd::prelude::*;

use super::codes::V4l2Ioctl;
use super::read::{buffer_readable, control_at, controls_readable, is_guest_buffer};
use super::reply::IoctlReply;
use super::requests::{decoded, Decoded, IoctlRequest, TunerMode, TunerType};
use super::types::CtrlWhich;
use crate::bytes::{le32, le64, signed32};
use crate::errno::EINVAL;
use crate::formats::{SelectionTarget, SelectionType};
use crate::v4l2::MemoryType;

verus! {

/// Whether an ioctl is about a set of controls.
pub open spec fn is_about_a_set(ioctl: V4l2Ioctl) -> bool {
    ioctl == V4l2Ioctl::VIDIOC_G_EXT_CTRLS || ioctl == V4l2Ioctl::VIDIOC_S_EXT_CTRLS || ioctl
        == V4l2Ioctl::VIDIOC_TRY_EXT_CTRLS
}

/// A set of controls begins with the word that says which values it is about, then has how many
/// there are, and each of them behind the header, twenty bytes apart: its id first, its value last.
/// A word that says nothing known is refused, with the set as it was, and so is a set that is cut
/// short.
pub proof fn sets_are_read_as_sent(ioctl: V4l2Ioctl, b: Seq<u8>, i: int, r: Decoded)
    requires
        is_about_a_set(ioctl),
        decoded(ioctl, b, r),
    ensures
        b.len() < 32 || b.len() < 32 + 20 * le32(b, 4) ==> r == Err::<IoctlRequest, IoctlReply>(
            IoctlReply::Refused { errno: EINVAL },
        ),
        r is Ok ==> {
            let word = le32(b, 0);
            let q = r->Ok_0;
            let (which, input) = match ioctl {
                V4l2Ioctl::VIDIOC_G_EXT_CTRLS => (q->GExtCtrls_which, q->GExtCtrls_input),
                V4l2Ioctl::VIDIOC_S_EXT_CTRLS => (q->SExtCtrls_which, q->SExtCtrls_input),
                _ => (q->TryExtCtrls_which, q->TryExtCtrls_input),
            };
            &&& ioctl == V4l2Ioctl::VIDIOC_G_EXT_CTRLS ==> q is GExtCtrls
            &&& ioctl == V4l2Ioctl::VIDIOC_S_EXT_CTRLS ==> q is SExtCtrls
            &&& ioctl == V4l2Ioctl::VIDIOC_TRY_EXT_CTRLS ==> q is TryExtCtrls
            &&& word == 0 <==> which == CtrlWhich::Current
            &&& word == 0x0f00_0000 <==> which == CtrlWhich::Default
            &&& word == 0x0f01_0000 <==> which is Request
            &&& which is Request ==> which->Request_0 == signed32(le32(b, 12))
            &&& which is Class ==> which->Class_0 == word && 0x98_0000 <= word <= 0xa5_0000 && word
                % 0x1_0000 == 0
            &&& input.ctrls.which == word
            &&& input.ctrls.count == le32(b, 4)
            &&& input.ctrl_array@.len() == le32(b, 4)
            &&& 0 <= i < le32(b, 4) ==> {
                let at = 32 + 20 * i;
                &&& input.ctrl_array@[i].id == le32(b, at)
                &&& input.ctrl_array@[i].size == le32(b, at + 4)
                &&& input.ctrl_array@[i].payload == le64(b, at + 12)
                &&& input.ctrl_array@[i].plain() == signed32(le32(b, at + 12))
            }
        },
        controls_readable(b) ==> {
            let word = le32(b, 0);
            let known = word == 0 || word == 0x0f00_0000 || word == 0x0f01_0000 || (0x98_0000
                <= word <= 0xa5_0000 && word % 0x1_0000 == 0);
            &&& r is Ok <==> known
            &&& !known ==> r->Err_0 is RefusedControls && r->Err_0->RefusedControls_errno == EINVAL
                && r->Err_0->RefusedControls_ctrls.count == le32(b, 4)
                && r->Err_0->RefusedControls_ctrls.error_idx == (if ioctl
                == V4l2Ioctl::VIDIOC_TRY_EXT_CTRLS {
                0int
            } else {
                le32(b, 4)
            })
        },
{
    assert(0 <= le32(b, 0) <= 0xffff_ffff && 0 <= le32(b, 4) <= 0xffff_ffff);
    if r is Ok && 0 <= i < le32(b, 4) {
        let at = 32 + 20 * i;
        assert(0 <= le32(b, at) <= 0xffff_ffff && 0 <= le32(b, at + 4) <= 0xffff_ffff);
        assert(0 <= le32(b, at + 12) <= 0xffff_ffff && 0 <= le32(b, at + 16) <= 0xffff_ffff);
        assert(le64(b, at + 12) % 0x1_0000_0000 == le32(b, at + 12));
        let q = r->Ok_0;
        let input = match ioctl {
            V4l2Ioctl::VIDIOC_G_EXT_CTRLS => q->GExtCtrls_input,
            V4l2Ioctl::VIDIOC_S_EXT_CTRLS => q->SExtCtrls_input,
            _ => q->TryExtCtrls_input,
        };
        assert(input.ctrl_array@[i] == control_at(b, i));
    }
}

/// A buffer that is queued or prepared is the one sent. It is refused where its queue or its memory
/// type does not exist, where a plane array has no plane or too many, and where it is cut short.
pub proof fn buffers_are_queued_as_sent(b: Seq<u8>, preparing: bool, r: Decoded)
    requires
        decoded(
            if preparing {
                V4l2Ioctl::VIDIOC_PREPARE_BUF
            } else {
                V4l2Ioctl::VIDIOC_QBUF
            },
            b,
            r,
        ),
    ensures
        ({
            let refused = r == Err::<IoctlRequest, IoctlReply>(
                IoctlReply::Refused { errno: EINVAL },
            );
            let (queue, memory, planes) = (le32(b, 4), le32(b, 60), le32(b, 72));
            let planar = queue == 9 || queue == 10;
            &&& b.len() < 88 ==> refused
            &&& queue == 0 || queue > 14 ==> refused
            &&& memory == 0 || memory > 4 ==> refused
            &&& planar && (planes == 0 || planes > 8 || b.len() < 88 + 64 * planes) ==> refused
            &&& b.len() >= 88 && 1 <= queue <= 14 && 1 <= memory <= 4 && memory != 2 && (!planar
                || (1 <= planes <= 8 && b.len() >= 88 + 64 * planes)) ==> r is Ok
            &&& r is Ok && preparing ==> r->Ok_0 is PrepareBuf && buffer_readable(b)
                && is_guest_buffer(r->Ok_0->PrepareBuf_input, b)
            &&& r is Ok && !preparing ==> r->Ok_0 is QBuf && buffer_readable(b) && is_guest_buffer(
                r->Ok_0->QBuf_input,
                b,
            )
        }),
{
    assert(0 <= le32(b, 4) && 0 <= le32(b, 60) && 0 <= le32(b, 72));
}

/// Buffers are not requested or created of a memory type, or on a queue, that does not exist; and
/// requested only of the two memory types there are buffers of.
pub proof fn unknown_memory_is_refused(b: Seq<u8>, r: Decoded, created: Decoded)
    requires
        decoded(V4l2Ioctl::VIDIOC_REQBUFS, b, r),
        decoded(V4l2Ioctl::VIDIOC_CREATE_BUFS, b, created),
    ensures
        ({
            let memory = le32(b, 8);
            &&& r is Ok <==> b.len() >= 20 && 1 <= le32(b, 4) <= 14 && 1 <= memory <= 2
            &&& r is Err ==> r->Err_0 == (IoctlReply::Refused { errno: EINVAL })
            &&& r is Ok ==> r->Ok_0 is ReqBufs && r->Ok_0->ReqBufs_count == le32(b, 0)
                && (memory == 1
                <==> r->Ok_0->ReqBufs_memory == MemoryType::Mmap) && (memory == 2
                <==> r->Ok_0->ReqBufs_memory == MemoryType::UserPtr)
            &&& created is Ok <==> b.len() >= 256 && 1 <= le32(b, 16) <= 14 && 1 <= memory <= 4
            &&& created is Err ==> created->Err_0 == (IoctlReply::Refused { errno: EINVAL })
            &&& created is Ok ==> created->Ok_0 is CreateBufs && created->Ok_0->CreateBufs_count
                == le32(b, 4) && (memory == 1 <==> created->Ok_0->CreateBufs_memory
                == MemoryType::Mmap) && (memory == 2 <==> created->Ok_0->CreateBufs_memory
                == MemoryType::UserPtr)
        }),
{
    assert(0 <= le32(b, 4) && 0 <= le32(b, 8) && 0 <= le32(b, 16));
}

/// The word of a control has the id in its lower bits, the next control in the highest, and
/// compound controls in the one below.
pub proof fn ids_have_flags_above(b: Seq<u8>, extended: bool, r: Decoded)
    requires
        b.len() >= 232,
        decoded(
            if extended {
                V4l2Ioctl::VIDIOC_QUERY_EXT_CTRL
            } else {
                V4l2Ioctl::VIDIOC_QUERYCTRL
            },
            b,
            r,
        ),
    ensures
        ({
            let (id, flags) = if extended {
                (r->Ok_0->QueryExtCtrl_id, r->Ok_0->QueryExtCtrl_flags)
            } else {
                (r->Ok_0->QueryCtrl_id, r->Ok_0->QueryCtrl_flags)
            };
            let word = le32(b, 0);
            &&& r is Ok
            &&& id == word % 0x1000_0000
            &&& flags.next <==> word >= 0x8000_0000
            &&& flags.compound <==> word % 0x8000_0000 >= 0x4000_0000
        }),
{
    assert(0 <= le32(b, 0) <= 0xffff_ffff);
}

/// A rectangle is set by its type and target, as those are asked for, to the four numbers behind
/// the flags; a type, a target or a flag that does not exist is refused.
pub proof fn rectangles_are_set_as_sent(b: Seq<u8>, r: Decoded, asked: Decoded)
    requires
        decoded(V4l2Ioctl::VIDIOC_S_SELECTION, b, r),
        decoded(V4l2Ioctl::VIDIOC_G_SELECTION, b, asked),
    ensures
        ({
            let (kind, target, flags) = (le32(b, 0), le32(b, 4), le32(b, 8));
            let known = b.len() >= 64 && 1 <= kind <= 2 && (target <= 3 || 0x100 <= target
                <= 0x103);
            &&& r is Ok <==> known && flags <= 7
            &&& r is Err ==> r->Err_0 == (IoctlReply::Refused { errno: EINVAL })
            &&& asked is Ok <==> known
            &&& asked is Err ==> asked->Err_0 == (IoctlReply::Refused { errno: EINVAL })
            &&& r is Ok ==> {
                let q = r->Ok_0;
                &&& q is SSelection
                &&& q->sel_rect.left == signed32(le32(b, 12))
                &&& q->sel_rect.top == signed32(le32(b, 16))
                &&& q->sel_rect.width == le32(b, 20)
                &&& q->sel_rect.height == le32(b, 24)
                &&& q->sel_flags.0 == flags
                &&& q->SSelection_raw@ == b.take(64)
                &&& asked->Ok_0->GSelection_sel_type == q->SSelection_sel_type
                &&& asked->Ok_0->GSelection_sel_target == q->SSelection_sel_target
                &&& kind == 2 <==> q->SSelection_sel_type == SelectionType::Output
                &&& target == 0 <==> q->SSelection_sel_target == SelectionTarget::Crop
                &&& target == 1 <==> q->SSelection_sel_target == SelectionTarget::CropDefault
                &&& target == 2 <==> q->SSelection_sel_target == SelectionTarget::CropBounds
            }
        }),
{
    assert(0 <= le32(b, 0) && 0 <= le32(b, 4) && 0 <= le32(b, 8));
    assert(0 <= le32(b, 20) <= 0xffff_ffff && 0 <= le32(b, 24) <= 0xffff_ffff);
    assert(0 <= le32(b, 12) <= 0xffff_ffff && 0 <= le32(b, 16) <= 0xffff_ffff);
}

/// What is asked without a structure is asked whatever is sent.
#[verifier::spinoff_prover]
pub proof fn some_requests_need_no_structure(ioctl: V4l2Ioctl, b: Seq<u8>, r: Decoded)
    requires
        decoded(ioctl, b, r),
    ensures
        ioctl == V4l2Ioctl::VIDIOC_G_STD ==> r is Ok && r->Ok_0 is GStd,
        ioctl == V4l2Ioctl::VIDIOC_QUERYSTD ==> r is Ok && r->Ok_0 is QueryStd,
        ioctl == V4l2Ioctl::VIDIOC_G_INPUT ==> r is Ok && r->Ok_0 is GInput,
        ioctl == V4l2Ioctl::VIDIOC_G_OUTPUT ==> r is Ok && r->Ok_0 is GOutput,
        ioctl == V4l2Ioctl::VIDIOC_G_AUDIO ==> r is Ok && r->Ok_0 is GAudio,
        ioctl == V4l2Ioctl::VIDIOC_G_AUDOUT ==> r is Ok && r->Ok_0 is GAudOut,
        ioctl == V4l2Ioctl::VIDIOC_G_ENC_INDEX ==> r is Ok && r->Ok_0 is GEncIndex,
        ioctl == V4l2Ioctl::VIDIOC_QUERY_DV_TIMINGS ==> r is Ok && r->Ok_0 is QueryDvTimings,
{
}

/// What is handed on as bytes is handed on as it was sent.
#[verifier::spinoff_prover]
pub proof fn some_structures_are_handed_on(ioctl: V4l2Ioctl, b: Seq<u8>, r: Decoded)
    requires
        decoded(ioctl, b, r),
        b.len() >= 148,
    ensures
        ioctl == V4l2Ioctl::VIDIOC_S_DV_TIMINGS ==> r is Ok && r->Ok_0 is SDvTimings
            && r->Ok_0->timings@ == b.take(132),
        ioctl == V4l2Ioctl::VIDIOC_DECODER_CMD ==> r is Ok && r->Ok_0 is DecoderCmd
            && r->Ok_0->DecoderCmd_cmd@ == b.take(72),
        ioctl == V4l2Ioctl::VIDIOC_TRY_DECODER_CMD ==> r is Ok && r->Ok_0 is TryDecoderCmd
            && r->Ok_0->TryDecoderCmd_cmd@ == b.take(72),
        ioctl == V4l2Ioctl::VIDIOC_ENUM_DV_TIMINGS ==> r is Ok && r->Ok_0 is EnumDvTimings
            && r->Ok_0->EnumDvTimings_raw@ == b.take(16),
        ioctl == V4l2Ioctl::VIDIOC_G_DV_TIMINGS ==> r is Ok && r->Ok_0 is GDvTimings,
        ioctl == V4l2Ioctl::VIDIOC_DV_TIMINGS_CAP ==> r is Ok && r->Ok_0 is DvTimingsCap,
{
}

/// A tuner's mode is the word that V4L2 has for it, and so are its type and an audio input's mode;
/// a word that stands for no tuner mode or type is refused, and one for no audio mode is none.
#[verifier::spinoff_prover]
pub proof fn tuners_are_set_by_number(ioctl: V4l2Ioctl, b: Seq<u8>, r: Decoded)
    requires
        decoded(ioctl, b, r),
        b.len() >= 84,
    ensures
        ioctl == V4l2Ioctl::VIDIOC_S_TUNER ==> {
            let mode = le32(b, 56);
            &&& r is Ok <==> mode <= 4
            &&& r is Err ==> r->Err_0 == (IoctlReply::Refused { errno: EINVAL })
            &&& r is Ok ==> {
                &&& mode == 0 <==> r->Ok_0->STuner_mode == TunerMode::Mono
                &&& mode == 1 <==> r->Ok_0->STuner_mode == TunerMode::Stereo
                &&& mode == 2 <==> r->Ok_0->STuner_mode == TunerMode::Lang2
                &&& mode == 3 <==> r->Ok_0->STuner_mode == TunerMode::Lang1
                &&& mode == 4 <==> r->Ok_0->STuner_mode == TunerMode::Lang1Lang2
            }
        },
        ioctl == V4l2Ioctl::VIDIOC_S_FREQUENCY ==> {
            let kind = le32(b, 4);
            &&& r is Ok <==> 1 <= kind <= 5
            &&& r is Err ==> r->Err_0 == (IoctlReply::Refused { errno: EINVAL })
            &&& r is Ok ==> {
                &&& kind == 1 <==> r->Ok_0->SFrequency_type_ == TunerType::Radio
                &&& kind == 2 <==> r->Ok_0->SFrequency_type_ == TunerType::AnalogTv
                &&& kind == 3 <==> r->Ok_0->SFrequency_type_ == TunerType::DigitalTv
                &&& kind == 4 <==> r->Ok_0->SFrequency_type_ == TunerType::Sdr
                &&& kind == 5 <==> r->Ok_0->SFrequency_type_ == TunerType::Rf
            }
        },
        ioctl == V4l2Ioctl::VIDIOC_S_AUDIO ==> r is Ok && (le32(b, 40) == 1
            <==> r->Ok_0->SAudio_mode is Some),
        ioctl == V4l2Ioctl::VIDIOC_S_MODULATOR ==> (r is Ok <==> le32(b, 48) <= 31),
{
    assert(0 <= le32(b, 56) && 0 <= le32(b, 4));
}

} // verus!
