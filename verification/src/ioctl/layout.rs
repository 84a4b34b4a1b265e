//! Where each field of an answer stands: the structures of the V4L2 interface, behind the response
//! header.
use vstd::prelude::*;

use super::laws::{
    after_controls, after_controls_header, after_pix_mp, after_planes, after_put32, after_put64,
    after_zeros, beginnings_chain, begins_with, ext_control_at, fields_stay, put_controls_header,
    signs_survive,
};
use super::read::plane_of;
use super::reply::{
    put32, put64, put_buffer_struct, put_controls, put_ext_control_array, put_format, put_header,
    put_pix_mp, put_planes, put_reply, put_signed, put_signed64, IoctlReply,
};
use super::types::{
    Control, CreateBuffers, EncoderCmd, ExtControl, ExtControls, FmtDesc, FrmIvalEnum, FrmSizeEnum,
    QueryCtrl, QueryExtCtrl, QueryMenu, RequestBuffers,
};
use crate::bytes::{
    le32, le64, signed32, signed64, unsigned32, unsigned64, zeros,
};
use crate::formats::{FormatBody, PixFormatMplane, StreamParm, V4l2Format};
use crate::v4l2::{MemoryType, QueueType, Rect, V4l2Buffer};

verus! {

/// A header of success behind some bytes.
proof fn good_header(out: Seq<u8>)
    ensures
        ({
            let h = put_header(out, 0);
            &&& h.len() == out.len() + 8
            &&& begins_with(h, out)
            &&& le32(h, out.len() as int) == 0
        }),
{
    let a = put32(out, 0);
    after_put32(out, 0);
    after_put32(a, 0);
    assert(put_signed(out, 0) == a);
}

/// Bytes behind others.
proof fn after_bytes(out: Seq<u8>, b: Seq<u8>)
    ensures
        ({
            let r = out + b;
            &&& r.len() == out.len() + b.len()
            &&& begins_with(r, out)
            &&& r.subrange(out.len() as int, r.len() as int) == b
            &&& forall|k: int| 0 <= k && k + 4 <= out.len() ==> #[trigger] le32(r, k) == le32(
                out,
                k,
            )
            &&& forall|k: int| 0 <= k && k + 8 <= out.len() ==> #[trigger] le64(r, k) == le64(
                out,
                k,
            )
        }),
{
    let r = out + b;
    fields_stay(r, out);
    assert(r.subrange(out.len() as int, r.len() as int) =~= b);
}

/// A byte behind others.
proof fn after_byte(out: Seq<u8>, v: u8)
    ensures
        ({
            let r = out.push(v);
            &&& r.len() == out.len() + 1
            &&& begins_with(r, out)
            &&& r[out.len() as int] == v
            &&& forall|k: int| 0 <= k && k + 4 <= out.len() ==> #[trigger] le32(r, k) == le32(
                out,
                k,
            )
            &&& forall|k: int| 0 <= k && k + 8 <= out.len() ==> #[trigger] le64(r, k) == le64(
                out,
                k,
            )
        }),
{
    fields_stay(out.push(v), out);
}

/// A part of bytes that begin others is a part of those.
proof fn part_stays(b: Seq<u8>, a: Seq<u8>, from: int, to: int)
    requires
        begins_with(b, a),
        0 <= from <= to <= a.len(),
    ensures
        b.subrange(from, to) == a.subrange(from, to),
{
    assert forall|k: int| 0 <= k < to - from implies b.subrange(from, to)[k] == a.subrange(
        from,
        to,
    )[k] by {
        assert(b[from + k] == a[from + k]);
    }
    assert(b.subrange(from, to) =~= a.subrange(from, to));
}

/// A control is told as `struct v4l2_control`.
#[verifier::spinoff_prover]
#[verifier::rlimit(40)]
pub proof fn control_fields(out: Seq<u8>, ctrl: Control)
    ensures
        ({
            let r = put_reply(out, IoctlReply::Control { ctrl });
            let at = out.len() as int + 8;
            &&& r.len() == at + 8
            &&& le32(r, out.len() as int) == 0
            &&& le32(r, at) == ctrl.id
            &&& signed32(le32(r, at + 4)) == ctrl.value
        }),
{
    let h = put_header(out, 0);
    good_header(out);
    let a0 = put32(h, ctrl.id);
    after_put32(h, ctrl.id);
    let a1 = put32(a0, unsigned32(ctrl.value as int) as u32);
    after_put32(a0, unsigned32(ctrl.value as int) as u32);
    assert(a1 == put_signed(a0, ctrl.value));
    assert(put_reply(out, IoctlReply::Control { ctrl }) == a1);
}

/// A number is told as it is.
#[verifier::spinoff_prover]
#[verifier::rlimit(40)]
pub proof fn number_fields(out: Seq<u8>, value: i32)
    ensures
        ({
            let r = put_reply(out, IoctlReply::Number { value });
            let at = out.len() as int + 8;
            &&& r.len() == at + 4
            &&& le32(r, out.len() as int) == 0
            &&& signed32(le32(r, at)) == value
        }),
{
    let h = put_header(out, 0);
    good_header(out);
    let a0 = put32(h, unsigned32(value as int) as u32);
    after_put32(h, unsigned32(value as int) as u32);
    assert(a0 == put_signed(h, value));
    assert(put_reply(out, IoctlReply::Number { value }) == a0);
}

/// A set of video standards is told as a 64-bit number.
#[verifier::spinoff_prover]
#[verifier::rlimit(40)]
pub proof fn standard_fields(out: Seq<u8>, standards: u64)
    ensures
        ({
            let r = put_reply(out, IoctlReply::Std { std: standards });
            let at = out.len() as int + 8;
            &&& r.len() == at + 8
            &&& le32(r, out.len() as int) == 0
            &&& le64(r, at) == standards
        }),
{
    let h = put_header(out, 0);
    good_header(out);
    let a0 = put64(h, standards);
    after_put64(h, standards);
    assert(put_reply(out, IoctlReply::Std { std: standards }) == a0);
}

/// A listed format is told as `struct v4l2_fmtdesc`.
#[verifier::spinoff_prover]
#[verifier::rlimit(40)]
pub proof fn format_description_fields(out: Seq<u8>, desc: FmtDesc)
    ensures
        ({
            let r = put_reply(out, IoctlReply::FmtDesc { desc });
            let at = out.len() as int + 8;
            &&& r.len() == at + 64
            &&& le32(r, out.len() as int) == 0
            &&& le32(r, at) == desc.index
            &&& le32(r, at + 4) == desc.type_
            &&& le32(r, at + 8) == desc.flags
            &&& r.subrange(at + 12, at + 44) == desc.description@
            &&& le32(r, at + 44) == desc.pixelformat
            &&& le32(r, at + 48) == desc.mbus_code
        }),
{
    let h = put_header(out, 0);
    good_header(out);
    let a0 = put32(h, desc.index);
    after_put32(h, desc.index);
    let a1 = put32(a0, desc.type_);
    after_put32(a0, desc.type_);
    let a2 = put32(a1, desc.flags);
    after_put32(a1, desc.flags);
    let a3 = a2 + desc.description@;
    after_bytes(a2, desc.description@);
    let a4 = put32(a3, desc.pixelformat);
    after_put32(a3, desc.pixelformat);
    let a5 = put32(a4, desc.mbus_code);
    after_put32(a4, desc.mbus_code);
    let a6 = a5 + zeros(12);
    after_zeros(a5, 12);
    assert(put_reply(out, IoctlReply::FmtDesc { desc }) == a6);
    beginnings_chain(a6, a5, a4);
    beginnings_chain(a6, a4, a3);
    part_stays(a6, a3, a2.len() as int, a3.len() as int);
    assert(a3.subrange(a2.len() as int, a3.len() as int) =~= desc.description@);
}

/// What became of a request for buffers is told as `struct v4l2_requestbuffers`.
#[verifier::spinoff_prover]
#[verifier::rlimit(40)]
pub proof fn requested_buffers_fields(out: Seq<u8>, answer: RequestBuffers)
    ensures
        ({
            let r = put_reply(out, IoctlReply::RequestBuffers { answer });
            let at = out.len() as int + 8;
            &&& r.len() == at + 20
            &&& le32(r, out.len() as int) == 0
            &&& le32(r, at) == answer.count
            &&& le32(r, at + 4) == answer.type_
            &&& le32(r, at + 8) == answer.memory
            &&& le32(r, at + 12) == answer.capabilities
            &&& r[at + 16] == answer.flags
        }),
{
    let h = put_header(out, 0);
    good_header(out);
    let a0 = put32(h, answer.count);
    after_put32(h, answer.count);
    let a1 = put32(a0, answer.type_);
    after_put32(a0, answer.type_);
    let a2 = put32(a1, answer.memory);
    after_put32(a1, answer.memory);
    let a3 = put32(a2, answer.capabilities);
    after_put32(a2, answer.capabilities);
    let a4 = a3.push(answer.flags);
    after_byte(a3, answer.flags);
    let a5 = a4 + zeros(3);
    after_zeros(a4, 3);
    assert(put_reply(out, IoctlReply::RequestBuffers { answer }) == a5);
    assert(a5[a3.len() as int] == a4[a3.len() as int]);
}

/// Stream parameters are told as `struct v4l2_streamparm`.
#[verifier::spinoff_prover]
#[verifier::rlimit(40)]
pub proof fn stream_parameter_fields(out: Seq<u8>, parm: StreamParm)
    ensures
        ({
            let r = put_reply(out, IoctlReply::Parm { parm });
            let at = out.len() as int + 8;
            &&& r.len() == at + 204
            &&& le32(r, out.len() as int) == 0
            &&& le32(r, at) == parm.type_
            &&& le32(r, at + 4) == parm.capability
            &&& le32(r, at + 8) == parm.mode
            &&& le32(r, at + 12) == parm.numerator
            &&& le32(r, at + 16) == parm.denominator
            &&& le32(r, at + 20) == parm.extendedmode
            &&& le32(r, at + 24) == 0
        }),
{
    let h = put_header(out, 0);
    good_header(out);
    let a0 = put32(h, parm.type_);
    after_put32(h, parm.type_);
    let a1 = put32(a0, parm.capability);
    after_put32(a0, parm.capability);
    let a2 = put32(a1, parm.mode);
    after_put32(a1, parm.mode);
    let a3 = put32(a2, parm.numerator);
    after_put32(a2, parm.numerator);
    let a4 = put32(a3, parm.denominator);
    after_put32(a3, parm.denominator);
    let a5 = put32(a4, parm.extendedmode);
    after_put32(a4, parm.extendedmode);
    let a6 = put32(a5, 0);
    after_put32(a5, 0);
    let a7 = a6 + zeros(176);
    after_zeros(a6, 176);
    assert(put_reply(out, IoctlReply::Parm { parm }) == a7);
}

/// A described control is told as `struct v4l2_queryctrl`.
#[verifier::spinoff_prover]
#[verifier::rlimit(40)]
pub proof fn queried_control_fields(out: Seq<u8>, ctrl: QueryCtrl)
    ensures
        ({
            let r = put_reply(out, IoctlReply::QueryCtrl { ctrl });
            let at = out.len() as int + 8;
            &&& r.len() == at + 68
            &&& le32(r, out.len() as int) == 0
            &&& le32(r, at) == ctrl.id
            &&& le32(r, at + 4) == ctrl.type_
            &&& r.subrange(at + 8, at + 40) == ctrl.name@
            &&& signed32(le32(r, at + 40)) == ctrl.minimum
            &&& signed32(le32(r, at + 44)) == ctrl.maximum
            &&& signed32(le32(r, at + 48)) == ctrl.step
            &&& signed32(le32(r, at + 52)) == ctrl.default_value
            &&& le32(r, at + 56) == ctrl.flags
        }),
{
    let h = put_header(out, 0);
    good_header(out);
    let a0 = put32(h, ctrl.id);
    after_put32(h, ctrl.id);
    let a1 = put32(a0, ctrl.type_);
    after_put32(a0, ctrl.type_);
    let a2 = a1 + ctrl.name@;
    after_bytes(a1, ctrl.name@);
    let a3 = put32(a2, unsigned32(ctrl.minimum as int) as u32);
    after_put32(a2, unsigned32(ctrl.minimum as int) as u32);
    assert(a3 == put_signed(a2, ctrl.minimum));
    let a4 = put32(a3, unsigned32(ctrl.maximum as int) as u32);
    after_put32(a3, unsigned32(ctrl.maximum as int) as u32);
    assert(a4 == put_signed(a3, ctrl.maximum));
    let a5 = put32(a4, unsigned32(ctrl.step as int) as u32);
    after_put32(a4, unsigned32(ctrl.step as int) as u32);
    assert(a5 == put_signed(a4, ctrl.step));
    let a6 = put32(a5, unsigned32(ctrl.default_value as int) as u32);
    after_put32(a5, unsigned32(ctrl.default_value as int) as u32);
    assert(a6 == put_signed(a5, ctrl.default_value));
    let a7 = put32(a6, ctrl.flags);
    after_put32(a6, ctrl.flags);
    let a8 = a7 + zeros(8);
    after_zeros(a7, 8);
    assert(put_reply(out, IoctlReply::QueryCtrl { ctrl }) == a8);
    beginnings_chain(a8, a7, a6);
    beginnings_chain(a8, a6, a5);
    beginnings_chain(a8, a5, a4);
    beginnings_chain(a8, a4, a3);
    beginnings_chain(a8, a3, a2);
    part_stays(a8, a2, a1.len() as int, a2.len() as int);
    assert(a2.subrange(a1.len() as int, a2.len() as int) =~= ctrl.name@);
}

/// A control described at length is told as `struct v4l2_query_ext_ctrl`.
#[verifier::spinoff_prover]
#[verifier::rlimit(40)]
pub proof fn queried_extended_control_fields(out: Seq<u8>, ctrl: QueryExtCtrl)
    ensures
        ({
            let r = put_reply(out, IoctlReply::QueryExtCtrl { ctrl });
            let at = out.len() as int + 8;
            &&& r.len() == at + 232
            &&& le32(r, out.len() as int) == 0
            &&& le32(r, at) == ctrl.id
            &&& le32(r, at + 4) == ctrl.type_
            &&& r.subrange(at + 8, at + 40) == ctrl.name@
            &&& signed64(le64(r, at + 40)) == ctrl.minimum
            &&& signed64(le64(r, at + 48)) == ctrl.maximum
            &&& le64(r, at + 56) == ctrl.step
            &&& signed64(le64(r, at + 64)) == ctrl.default_value
            &&& le32(r, at + 72) == ctrl.flags
            &&& le32(r, at + 76) == ctrl.elem_size
            &&& le32(r, at + 80) == ctrl.elems
            &&& le32(r, at + 84) == ctrl.nr_of_dims
            &&& le32(r, at + 88) == ctrl.dims.0
            &&& le32(r, at + 92) == ctrl.dims.1
            &&& le32(r, at + 96) == ctrl.dims.2
            &&& le32(r, at + 100) == ctrl.dims.3
        }),
{
    let h = put_header(out, 0);
    good_header(out);
    let a0 = put32(h, ctrl.id);
    after_put32(h, ctrl.id);
    let a1 = put32(a0, ctrl.type_);
    after_put32(a0, ctrl.type_);
    let a2 = a1 + ctrl.name@;
    after_bytes(a1, ctrl.name@);
    let a3 = put64(a2, unsigned64(ctrl.minimum as int) as u64);
    after_put64(a2, unsigned64(ctrl.minimum as int) as u64);
    signs_survive(ctrl.minimum);
    assert(a3 == put_signed64(a2, ctrl.minimum));
    let a4 = put64(a3, unsigned64(ctrl.maximum as int) as u64);
    after_put64(a3, unsigned64(ctrl.maximum as int) as u64);
    signs_survive(ctrl.maximum);
    assert(a4 == put_signed64(a3, ctrl.maximum));
    let a5 = put64(a4, ctrl.step);
    after_put64(a4, ctrl.step);
    let a6 = put64(a5, unsigned64(ctrl.default_value as int) as u64);
    after_put64(a5, unsigned64(ctrl.default_value as int) as u64);
    signs_survive(ctrl.default_value);
    assert(a6 == put_signed64(a5, ctrl.default_value));
    let a7 = put32(a6, ctrl.flags);
    after_put32(a6, ctrl.flags);
    let a8 = put32(a7, ctrl.elem_size);
    after_put32(a7, ctrl.elem_size);
    let a9 = put32(a8, ctrl.elems);
    after_put32(a8, ctrl.elems);
    let a10 = put32(a9, ctrl.nr_of_dims);
    after_put32(a9, ctrl.nr_of_dims);
    let a11 = put32(a10, ctrl.dims.0);
    after_put32(a10, ctrl.dims.0);
    let a12 = put32(a11, ctrl.dims.1);
    after_put32(a11, ctrl.dims.1);
    let a13 = put32(a12, ctrl.dims.2);
    after_put32(a12, ctrl.dims.2);
    let a14 = put32(a13, ctrl.dims.3);
    after_put32(a13, ctrl.dims.3);
    let a15 = a14 + zeros(128);
    after_zeros(a14, 128);
    assert(put_reply(out, IoctlReply::QueryExtCtrl { ctrl }) == a15);
    beginnings_chain(a15, a14, a13);
    beginnings_chain(a15, a13, a12);
    beginnings_chain(a15, a12, a11);
    beginnings_chain(a15, a11, a10);
    beginnings_chain(a15, a10, a9);
    beginnings_chain(a15, a9, a8);
    beginnings_chain(a15, a8, a7);
    beginnings_chain(a15, a7, a6);
    beginnings_chain(a15, a6, a5);
    beginnings_chain(a15, a5, a4);
    beginnings_chain(a15, a4, a3);
    beginnings_chain(a15, a3, a2);
    part_stays(a15, a2, a1.len() as int, a2.len() as int);
    assert(a2.subrange(a1.len() as int, a2.len() as int) =~= ctrl.name@);
}

/// An item of a menu is told as `struct v4l2_querymenu`.
#[verifier::spinoff_prover]
#[verifier::rlimit(40)]
pub proof fn menu_item_fields(out: Seq<u8>, item: QueryMenu)
    ensures
        ({
            let r = put_reply(out, IoctlReply::QueryMenu { item });
            let at = out.len() as int + 8;
            &&& r.len() == at + 44
            &&& le32(r, out.len() as int) == 0
            &&& le32(r, at) == item.id
            &&& le32(r, at + 4) == item.index
            &&& r.subrange(at + 8, at + 40) == item.name@
            &&& le32(r, at + 40) == 0
        }),
{
    let h = put_header(out, 0);
    good_header(out);
    let a0 = put32(h, item.id);
    after_put32(h, item.id);
    let a1 = put32(a0, item.index);
    after_put32(a0, item.index);
    let a2 = a1 + item.name@;
    after_bytes(a1, item.name@);
    let a3 = put32(a2, 0);
    after_put32(a2, 0);
    assert(put_reply(out, IoctlReply::QueryMenu { item }) == a3);
    part_stays(a3, a2, a1.len() as int, a2.len() as int);
    assert(a2.subrange(a1.len() as int, a2.len() as int) =~= item.name@);
}

/// Frame sizes are told as `struct v4l2_frmsizeenum`.
#[verifier::spinoff_prover]
#[verifier::rlimit(40)]
pub proof fn frame_size_fields(out: Seq<u8>, size: FrmSizeEnum)
    ensures
        ({
            let r = put_reply(out, IoctlReply::FrmSize { size });
            let at = out.len() as int + 8;
            &&& r.len() == at + 44
            &&& le32(r, out.len() as int) == 0
            &&& le32(r, at) == size.index
            &&& le32(r, at + 4) == size.pixel_format
            &&& le32(r, at + 8) == size.type_
            &&& le32(r, at + 12) == size.min_width
            &&& le32(r, at + 16) == size.max_width
            &&& le32(r, at + 20) == size.step_width
            &&& le32(r, at + 24) == size.min_height
            &&& le32(r, at + 28) == size.max_height
            &&& le32(r, at + 32) == size.step_height
        }),
{
    let h = put_header(out, 0);
    good_header(out);
    let a0 = put32(h, size.index);
    after_put32(h, size.index);
    let a1 = put32(a0, size.pixel_format);
    after_put32(a0, size.pixel_format);
    let a2 = put32(a1, size.type_);
    after_put32(a1, size.type_);
    let a3 = put32(a2, size.min_width);
    after_put32(a2, size.min_width);
    let a4 = put32(a3, size.max_width);
    after_put32(a3, size.max_width);
    let a5 = put32(a4, size.step_width);
    after_put32(a4, size.step_width);
    let a6 = put32(a5, size.min_height);
    after_put32(a5, size.min_height);
    let a7 = put32(a6, size.max_height);
    after_put32(a6, size.max_height);
    let a8 = put32(a7, size.step_height);
    after_put32(a7, size.step_height);
    let a9 = a8 + zeros(8);
    after_zeros(a8, 8);
    assert(put_reply(out, IoctlReply::FrmSize { size }) == a9);
}

/// Frame intervals are told as `struct v4l2_frmivalenum`.
#[verifier::spinoff_prover]
#[verifier::rlimit(40)]
pub proof fn frame_interval_fields(out: Seq<u8>, interval: FrmIvalEnum)
    ensures
        ({
            let r = put_reply(out, IoctlReply::FrmIval { interval });
            let at = out.len() as int + 8;
            &&& r.len() == at + 52
            &&& le32(r, out.len() as int) == 0
            &&& le32(r, at) == interval.index
            &&& le32(r, at + 4) == interval.pixel_format
            &&& le32(r, at + 8) == interval.width
            &&& le32(r, at + 12) == interval.height
            &&& le32(r, at + 16) == interval.type_
            &&& le32(r, at + 20) == interval.min.numerator
            &&& le32(r, at + 24) == interval.min.denominator
            &&& le32(r, at + 28) == interval.max.numerator
            &&& le32(r, at + 32) == interval.max.denominator
            &&& le32(r, at + 36) == interval.step.numerator
            &&& le32(r, at + 40) == interval.step.denominator
        }),
{
    let h = put_header(out, 0);
    good_header(out);
    let a0 = put32(h, interval.index);
    after_put32(h, interval.index);
    let a1 = put32(a0, interval.pixel_format);
    after_put32(a0, interval.pixel_format);
    let a2 = put32(a1, interval.width);
    after_put32(a1, interval.width);
    let a3 = put32(a2, interval.height);
    after_put32(a2, interval.height);
    let a4 = put32(a3, interval.type_);
    after_put32(a3, interval.type_);
    let a5 = put32(a4, interval.min.numerator);
    after_put32(a4, interval.min.numerator);
    let a6 = put32(a5, interval.min.denominator);
    after_put32(a5, interval.min.denominator);
    let a7 = put32(a6, interval.max.numerator);
    after_put32(a6, interval.max.numerator);
    let a8 = put32(a7, interval.max.denominator);
    after_put32(a7, interval.max.denominator);
    let a9 = put32(a8, interval.step.numerator);
    after_put32(a8, interval.step.numerator);
    let a10 = put32(a9, interval.step.denominator);
    after_put32(a9, interval.step.denominator);
    let a11 = a10 + zeros(8);
    after_zeros(a10, 8);
    assert(put_reply(out, IoctlReply::FrmIval { interval }) == a11);
}

/// An encoder command is told as `struct v4l2_encoder_cmd`.
#[verifier::spinoff_prover]
#[verifier::rlimit(40)]
pub proof fn encoder_command_fields(out: Seq<u8>, cmd: EncoderCmd)
    ensures
        ({
            let r = put_reply(out, IoctlReply::EncoderCmd { cmd });
            let at = out.len() as int + 8;
            &&& r.len() == at + 40
            &&& le32(r, out.len() as int) == 0
            &&& le32(r, at) == cmd.cmd
            &&& le32(r, at + 4) == cmd.flags
            &&& le64(r, at + 8) == cmd.data.0
            &&& le64(r, at + 16) == cmd.data.1
            &&& le64(r, at + 24) == cmd.data.2
            &&& le64(r, at + 32) == cmd.data.3
        }),
{
    let h = put_header(out, 0);
    good_header(out);
    let a0 = put32(h, cmd.cmd);
    after_put32(h, cmd.cmd);
    let a1 = put32(a0, cmd.flags);
    after_put32(a0, cmd.flags);
    let a2 = put64(a1, cmd.data.0);
    after_put64(a1, cmd.data.0);
    let a3 = put64(a2, cmd.data.1);
    after_put64(a2, cmd.data.1);
    let a4 = put64(a3, cmd.data.2);
    after_put64(a3, cmd.data.2);
    let a5 = put64(a4, cmd.data.3);
    after_put64(a4, cmd.data.3);
    assert(put_reply(out, IoctlReply::EncoderCmd { cmd }) == a5);
}

/// A selection is told as the request it answers, with its rectangle in it.
#[verifier::spinoff_prover]
#[verifier::rlimit(40)]
pub proof fn selection_fields(out: Seq<u8>, raw: [u8; 64], rect: Rect)
    ensures
        ({
            let r = put_reply(out, IoctlReply::Selection { raw, rect });
            let at = out.len() as int + 8;
            &&& r.len() == at + 64
            &&& le32(r, out.len() as int) == 0
            &&& r.subrange(at, at + 12) == raw@.subrange(0, 12)
            &&& signed32(le32(r, at + 12)) == rect.left
            &&& signed32(le32(r, at + 16)) == rect.top
            &&& le32(r, at + 20) == rect.width
            &&& le32(r, at + 24) == rect.height
            &&& r.subrange(at + 28, at + 64) == raw@.subrange(28, 64)
        }),
{
    let h = put_header(out, 0);
    good_header(out);
    let a0 = h + raw@.subrange(0, 12);
    after_bytes(h, raw@.subrange(0, 12));
    let a1 = put32(a0, unsigned32(rect.left as int) as u32);
    after_put32(a0, unsigned32(rect.left as int) as u32);
    assert(a1 == put_signed(a0, rect.left));
    let a2 = put32(a1, unsigned32(rect.top as int) as u32);
    after_put32(a1, unsigned32(rect.top as int) as u32);
    assert(a2 == put_signed(a1, rect.top));
    let a3 = put32(a2, rect.width);
    after_put32(a2, rect.width);
    let a4 = put32(a3, rect.height);
    after_put32(a3, rect.height);
    let a5 = a4 + raw@.subrange(28, 64);
    after_bytes(a4, raw@.subrange(28, 64));
    assert(put_reply(out, IoctlReply::Selection { raw, rect }) == a5);
    beginnings_chain(a5, a4, a3);
    beginnings_chain(a5, a3, a2);
    beginnings_chain(a5, a2, a1);
    beginnings_chain(a5, a1, a0);
    part_stays(a5, a0, h.len() as int, a0.len() as int);
    assert(a0.subrange(h.len() as int, a0.len() as int) =~= raw@.subrange(0, 12));
    part_stays(a5, a5, a4.len() as int, a5.len() as int);
    assert(a5.subrange(a4.len() as int, a5.len() as int) =~= raw@.subrange(28, 64));
}

/// The fields of a buffer behind some bytes.
#[verifier::spinoff_prover]
#[verifier::rlimit(40)]
proof fn after_buffer_fields(h: Seq<u8>, v: V4l2Buffer)
    ensures
        ({
            let r = put_buffer_struct(h, v);
            let at = h.len() as int;
            &&& r.len() == at + 88
            &&& begins_with(r, h)
            &&& le32(r, at) == v.index
            &&& le32(r, at + 4) == v.queue.code()
            &&& le32(r, at + 8) == v.bytesused
            &&& le32(r, at + 12) == v.flags
            &&& le32(r, at + 16) == v.field
            &&& signed64(le64(r, at + 24)) == v.timestamp.sec
            &&& signed64(le64(r, at + 32)) == v.timestamp.usec
            &&& le64(r, at + 40) == v.timecode.0
            &&& le64(r, at + 48) == v.timecode.1
            &&& le32(r, at + 56) == v.sequence
            &&& le32(r, at + 60) == v.memory.code()
            &&& le64(r, at + 64) == (if v.queue.multiplanar() {
                0
            } else {
                v.m
            })
            &&& le32(r, at + 72) == v.length
            &&& le32(r, at + 76) == v.reserved2
            &&& le32(r, at + 80) == v.request_fd
        }),
{
    let sec = unsigned64(v.timestamp.sec as int) as u64;
    let usec = unsigned64(v.timestamp.usec as int) as u64;
    let m = if v.queue.multiplanar() {
        0
    } else {
        v.m
    };
    signs_survive(v.timestamp.sec);
    signs_survive(v.timestamp.usec);
    let a1 = put32(h, v.index);
    let a2 = put32(a1, v.queue.code());
    let a3 = put32(a2, v.bytesused);
    let a4 = put32(a3, v.flags);
    let a5 = put32(a4, v.field);
    let a6 = a5 + zeros(4);
    let a7 = put64(a6, sec);
    let a8 = put64(a7, usec);
    let a9 = put64(a8, v.timecode.0);
    let b1 = put64(a9, v.timecode.1);
    let b2 = put32(b1, v.sequence);
    let b3 = put32(b2, v.memory.code());
    let b4 = put64(b3, m);
    let b5 = put32(b4, v.length);
    let b6 = put32(b5, v.reserved2);
    let b7 = put32(b6, v.request_fd);
    after_put32(h, v.index);
    after_put32(a1, v.queue.code());
    after_put32(a2, v.bytesused);
    after_put32(a3, v.flags);
    after_put32(a4, v.field);
    after_zeros(a5, 4);
    after_put64(a6, sec);
    after_put64(a7, usec);
    after_put64(a8, v.timecode.0);
    after_put64(a9, v.timecode.1);
    after_put32(b1, v.sequence);
    after_put32(b2, v.memory.code());
    after_put64(b3, m);
    after_put32(b4, v.length);
    after_put32(b5, v.reserved2);
    after_put32(b6, v.request_fd);
    after_zeros(b7, 4);
    assert(put_signed64(a6, v.timestamp.sec) == a7);
    assert(put_signed64(a7, v.timestamp.usec) == a8);
    assert(put_buffer_struct(h, v) == b7 + zeros(4));
}

/// A buffer is told as `struct v4l2_buffer`, with no pointer to its planes, and behind it as many
/// of its planes, each as `struct v4l2_plane`, as it has and the guest has room for.
#[verifier::spinoff_prover]
pub proof fn buffer_fields(out: Seq<u8>, buffer: V4l2Buffer, planes: u32)
    requires
        buffer.queue == QueueType::VideoOutputMplane || buffer.queue
            == QueueType::VideoCaptureMplane,
        buffer.length <= 8,
    ensures
        ({
            let r = put_reply(out, IoctlReply::Buffer { buffer, planes });
            let at = out.len() as int + 8;
            let told = if planes <= buffer.length {
                planes as int
            } else {
                buffer.length as int
            };
            &&& r.len() == at + 88 + 64 * told
            &&& le32(r, out.len() as int) == 0
            &&& le32(r, at) == buffer.index
            &&& le32(r, at + 4) == (if buffer.queue == QueueType::VideoOutputMplane {
                10int
            } else {
                9int
            })
            &&& le32(r, at + 12) == buffer.flags
            &&& le32(r, at + 16) == buffer.field
            &&& signed64(le64(r, at + 24)) == buffer.timestamp.sec
            &&& signed64(le64(r, at + 32)) == buffer.timestamp.usec
            &&& le32(r, at + 56) == buffer.sequence
            &&& buffer.memory == MemoryType::Mmap ==> le32(r, at + 60) == 1
            &&& buffer.memory == MemoryType::UserPtr ==> le32(r, at + 60) == 2
            &&& le64(r, at + 64) == 0
            &&& le32(r, at + 72) == buffer.length
            &&& forall|i: int|
                0 <= i < told ==> {
                    let p = #[trigger] buffer.plane(i);
                    &&& le32(r, at + 88 + 64 * i) == p.bytesused
                    &&& le32(r, at + 88 + 64 * i + 4) == p.length
                    &&& le64(r, at + 88 + 64 * i + 8) == p.m
                    &&& le32(r, at + 88 + 64 * i + 16) == p.data_offset
                }
        }),
{
    let h = put_header(out, 0);
    good_header(out);
    let head = put_buffer_struct(h, buffer);
    after_buffer_fields(h, buffer);
    let told = if planes <= buffer.length {
        planes as nat
    } else {
        buffer.length as nat
    };
    let r = put_planes(head, buffer, told);
    after_planes(head, buffer, told);
    assert(r == put_reply(out, IoctlReply::Buffer { buffer, planes }));
    fields_stay(r, head);
    fields_stay(head, h);
    assert forall|i: int| 0 <= i < told implies {
        let p = #[trigger] buffer.plane(i);
        let at = out.len() as int + 8;
        &&& le32(r, at + 88 + 64 * i) == p.bytesused
        &&& le32(r, at + 88 + 64 * i + 4) == p.length
        &&& le64(r, at + 88 + 64 * i + 8) == p.m
        &&& le32(r, at + 88 + 64 * i + 16) == p.data_offset
    } by {
        let p = buffer.plane(i);
        let k = head.len() as int + 64 * i;
        assert(plane_of(r, k) == p);
        assert(0 <= le32(r, k) <= 0xffff_ffff && 0 <= le32(r, k + 4) <= 0xffff_ffff);
        assert(0 <= le32(r, k + 16) <= 0xffff_ffff);
        assert(0 <= le32(r, k + 8) <= 0xffff_ffff && 0 <= le32(r, k + 12) <= 0xffff_ffff);
    }
}

/// A format behind some bytes.
#[verifier::spinoff_prover]
proof fn after_format(h: Seq<u8>, format: V4l2Format, p: PixFormatMplane)
    requires
        format.fmt == FormatBody::PixMp(p),
    ensures
        ({
            let r = put_format(h, format);
            let at = h.len() as int;
            &&& r.len() == at + 208
            &&& begins_with(r, h)
            &&& le32(r, at) == format.type_
            &&& le32(r, at + 8) == p.width
            &&& le32(r, at + 12) == p.height
            &&& le32(r, at + 16) == p.pixelformat
            &&& le32(r, at + 20) == p.field
            &&& le32(r, at + 24) == p.colorspace
            &&& le32(r, at + 28) == p.plane0.sizeimage
            &&& le32(r, at + 32) == p.plane0.bytesperline
            &&& forall|i: int|
                0 <= i < 7 ==> le32(r, at + 48 + 20 * i) == (#[trigger] p.more@[i]).sizeimage
                    && le32(r, at + 52 + 20 * i) == p.more@[i].bytesperline
            &&& r[at + 188] == p.num_planes
            &&& r[at + 189] == p.flags
            &&& r[at + 190] == p.ycbcr_enc
            &&& r[at + 191] == p.quantization
            &&& r[at + 192] == p.xfer_func
        }),
{
    let a = put32(h, format.type_);
    let b = a + zeros(4);
    after_put32(h, format.type_);
    after_zeros(a, 4);
    after_pix_mp(b, p);
    let r = put_format(h, format);
    assert(r == put_pix_mp(b, p));
    fields_stay(r, b);
    beginnings_chain(b, a, h);
    beginnings_chain(r, b, h);
    let at = h.len() as int;
    assert(0 <= le32(r, at + 28) <= 0xffff_ffff && 0 <= le32(r, at + 32) <= 0xffff_ffff);
    assert forall|i: int| 0 <= i < 7 implies le32(r, at + 48 + 20 * i) == (
    #[trigger] p.more@[i]).sizeimage && le32(r, at + 52 + 20 * i) == p.more@[i].bytesperline by {
        assert(p.more@[i] == super::requests::plane_format_at(r, b.len() + 40 + 20 * i));
        assert(0 <= le32(r, at + 48 + 20 * i) <= 0xffff_ffff);
        assert(0 <= le32(r, at + 52 + 20 * i) <= 0xffff_ffff);
    }
}

/// A format is told as `struct v4l2_format`.
pub proof fn format_fields(out: Seq<u8>, format: V4l2Format, p: PixFormatMplane)
    requires
        format.fmt == FormatBody::PixMp(p),
    ensures
        ({
            let r = put_reply(out, IoctlReply::Format { format });
            let at = out.len() as int + 8;
            &&& r.len() == at + 208
            &&& le32(r, out.len() as int) == 0
            &&& le32(r, at) == format.type_
            &&& le32(r, at + 8) == p.width
            &&& le32(r, at + 12) == p.height
            &&& le32(r, at + 16) == p.pixelformat
            &&& le32(r, at + 20) == p.field
            &&& le32(r, at + 24) == p.colorspace
            &&& le32(r, at + 28) == p.plane0.sizeimage
            &&& le32(r, at + 32) == p.plane0.bytesperline
            &&& forall|i: int|
                0 <= i < 7 ==> le32(r, at + 48 + 20 * i) == (#[trigger] p.more@[i]).sizeimage
                    && le32(r, at + 52 + 20 * i) == p.more@[i].bytesperline
            &&& r[at + 188] == p.num_planes
            &&& r[at + 189] == p.flags
            &&& r[at + 190] == p.ycbcr_enc
            &&& r[at + 191] == p.quantization
            &&& r[at + 192] == p.xfer_func
        }),
{
    let h = put_header(out, 0);
    good_header(out);
    after_format(h, format, p);
    fields_stay(put_format(h, format), h);
}

/// Created buffers are told as `struct v4l2_create_buffers`.
#[verifier::spinoff_prover]
pub proof fn created_buffers_fields(out: Seq<u8>, answer: CreateBuffers, p: PixFormatMplane)
    requires
        answer.format.fmt == FormatBody::PixMp(p),
    ensures
        ({
            let r = put_reply(out, IoctlReply::CreateBuffers { answer });
            let at = out.len() as int + 8;
            &&& r.len() == at + 256
            &&& le32(r, out.len() as int) == 0
            &&& le32(r, at) == answer.index
            &&& le32(r, at + 4) == answer.count
            &&& le32(r, at + 8) == answer.memory
            &&& le32(r, at + 16) == answer.format.type_
            &&& le32(r, at + 24) == p.width
            &&& le32(r, at + 28) == p.height
            &&& le32(r, at + 32) == p.pixelformat
            &&& le32(r, at + 44) == p.plane0.sizeimage
            &&& le32(r, at + 48) == p.plane0.bytesperline
            &&& r[at + 204] == p.num_planes
            &&& le32(r, at + 224) == answer.capabilities
            &&& le32(r, at + 228) == answer.flags
        }),
{
    let h = put_header(out, 0);
    good_header(out);
    let a1 = put32(h, answer.index);
    let a2 = put32(a1, answer.count);
    let a3 = put32(a2, answer.memory);
    let a4 = a3 + zeros(4);
    let a5 = put_format(a4, answer.format);
    let a6 = put32(a5, answer.capabilities);
    let a7 = put32(a6, answer.flags);
    after_put32(h, answer.index);
    after_put32(a1, answer.count);
    after_put32(a2, answer.memory);
    after_zeros(a3, 4);
    after_format(a4, answer.format, p);
    fields_stay(a5, a4);
    after_put32(a5, answer.capabilities);
    after_put32(a6, answer.flags);
    after_zeros(a7, 24);
    let r = a7 + zeros(24);
    assert(r == put_reply(out, IoctlReply::CreateBuffers { answer }));
    beginnings_chain(r, a7, a6);
    beginnings_chain(r, a6, a5);
    assert(r[a4.len() as int + 188] == a5[a4.len() as int + 188]);
}

/// A set of controls is told as `struct v4l2_ext_controls`, with no pointer to its controls, and
/// behind it each control as `struct v4l2_ext_control`; a refused one the same, behind its errno.
#[verifier::spinoff_prover]
pub proof fn control_set_fields(
    out: Seq<u8>,
    refused: Option<i32>,
    ctrls: ExtControls,
    ctrl_array: Vec<ExtControl>,
)
    ensures
        ({
            let reply = match refused {
                Some(errno) => IoctlReply::RefusedControls { errno, ctrls, ctrl_array },
                None => IoctlReply::Controls { ctrls, ctrl_array },
            };
            let r = put_reply(out, reply);
            let at = out.len() as int + 8;
            &&& r.len() == at + 32 + 20 * ctrl_array@.len()
            &&& signed32(le32(r, out.len() as int)) == (match refused {
                Some(errno) => errno as int,
                None => 0,
            })
            &&& le32(r, at) == ctrls.which
            &&& le32(r, at + 4) == ctrls.count
            &&& le32(r, at + 8) == ctrls.error_idx
            &&& signed32(le32(r, at + 12)) == ctrls.request_fd
            &&& forall|i: int|
                0 <= i < ctrl_array@.len() ==> {
                    let c = #[trigger] ctrl_array@[i];
                    &&& le32(r, at + 32 + 20 * i) == c.id
                    &&& le32(r, at + 32 + 20 * i + 4) == c.size
                    &&& le64(r, at + 32 + 20 * i + 12) == c.payload
                }
        }),
{
    let errno = match refused {
        Some(errno) => errno,
        None => 0,
    };
    let e = unsigned32(errno as int) as u32;
    after_put32(out, e);
    assert(put_signed(out, errno) == put32(out, e));
    after_put32(put32(out, e), 0);
    let h = put_header(out, errno);
    let a = put_controls_header(h, ctrls);
    after_controls_header(h, ctrls);
    fields_stay(a, h);
    after_controls(a, ctrl_array@, ctrl_array@.len());
    let r = put_ext_control_array(a, ctrl_array@, ctrl_array@.len());
    fields_stay(r, a);
    assert(r == put_controls(h, ctrls, ctrl_array@));
    assert forall|i: int| 0 <= i < ctrl_array@.len() implies {
        let c = #[trigger] ctrl_array@[i];
        let at = out.len() as int + 8;
        &&& le32(r, at + 32 + 20 * i) == c.id
        &&& le32(r, at + 32 + 20 * i + 4) == c.size
        &&& le64(r, at + 32 + 20 * i + 12) == c.payload
    } by {
        let k = a.len() as int + 20 * i;
        assert(ext_control_at(r, k) == ctrl_array@[i]);
        assert(0 <= le32(r, k) <= 0xffff_ffff && 0 <= le32(r, k + 4) <= 0xffff_ffff);
        assert(0 <= le32(r, k + 12) <= 0xffff_ffff && 0 <= le32(r, k + 16) <= 0xffff_ffff);
    }
}

/// A structure that a handler makes up as bytes is told as those bytes.
pub proof fn raw_fields(out: Seq<u8>, reply: IoctlReply)
    ensures
        ({
            let r = put_reply(out, reply);
            let at = out.len() as int + 8;
            let body = r.subrange(at, r.len() as int);
            &&& reply matches IoctlReply::Standard { raw } ==> body == raw@
            &&& reply matches IoctlReply::Input { raw } ==> body == raw@
            &&& reply matches IoctlReply::Tuner { raw } ==> body == raw@
            &&& reply matches IoctlReply::Audio { raw } ==> body == raw@
            &&& reply matches IoctlReply::Output { raw } ==> body == raw@
            &&& reply matches IoctlReply::Modulator { raw } ==> body == raw@
            &&& reply matches IoctlReply::Frequency { raw } ==> body == raw@
            &&& reply matches IoctlReply::EncIdx { raw } ==> body == raw@
            &&& reply matches IoctlReply::DecoderCmd { cmd } ==> body == cmd@
            &&& reply matches IoctlReply::DvTimings { timings } ==> body == timings@
            &&& reply matches IoctlReply::DvTimingsCap { raw } ==> body == raw@
            &&& reply matches IoctlReply::FrequencyBand { raw } ==> body == raw@
            &&& reply matches IoctlReply::EnumDvTimings { raw, timings } ==> body == raw@ + timings@
            &&& reply is Done ==> r.len() == at && le32(r, out.len() as int) == 0
            &&& reply matches IoctlReply::Refused { errno } ==> r.len() == at && signed32(
                le32(r, out.len() as int),
            ) == errno
        }),
{
    let h = put_header(out, 0);
    good_header(out);
    let r = put_reply(out, reply);
    match reply {
        IoctlReply::Standard { raw } => {
            after_bytes(h, raw@);
        },
        IoctlReply::Input { raw } => {
            after_bytes(h, raw@);
        },
        IoctlReply::Tuner { raw } => {
            after_bytes(h, raw@);
        },
        IoctlReply::Audio { raw } => {
            after_bytes(h, raw@);
        },
        IoctlReply::Output { raw } => {
            after_bytes(h, raw@);
        },
        IoctlReply::Modulator { raw } => {
            after_bytes(h, raw@);
        },
        IoctlReply::Frequency { raw } => {
            after_bytes(h, raw@);
        },
        IoctlReply::EncIdx { raw } => {
            after_bytes(h, raw@);
        },
        IoctlReply::DecoderCmd { cmd } => {
            after_bytes(h, cmd@);
        },
        IoctlReply::DvTimings { timings } => {
            after_bytes(h, timings@);
        },
        IoctlReply::DvTimingsCap { raw } => {
            after_bytes(h, raw@);
        },
        IoctlReply::FrequencyBand { raw } => {
            after_bytes(h, raw@);
        },
        IoctlReply::EnumDvTimings { raw, timings } => {
            assert(h + raw@ + timings@ =~= h + (raw@ + timings@));
            after_bytes(h, raw@ + timings@);
        },
        IoctlReply::Refused { errno } => {
            let e = unsigned32(errno as int) as u32;
            after_put32(out, e);
            assert(put_signed(out, errno) == put32(out, e));
            after_put32(put32(out, e), 0);
        },
        _ => {},
    }
}

} // verus!
