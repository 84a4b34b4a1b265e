//! What a device answers to an ioctl, written as the bytes the guest reads.
use vstd::prelude::*;

use super::requests::{DecoderCmd, DvTimings};
use super::types::{
    Control, CreateBuffers, EncoderCmd, ExtControl, ExtControls, FmtDesc, FrmIvalEnum, FrmSizeEnum,
    QueryCtrl, QueryExtCtrl, QueryMenu, RequestBuffers,
};
use crate::bytes::{
    bytes32, bytes64, push_i32, push_slice, push_u32, push_u64, push_zeros, to_unsigned64,
    unsigned32, unsigned64, zeros,
};
use crate::formats::{FormatBody, PixFormatMplane, PlanePixFormat, StreamParm, V4l2Format};
use crate::v4l2::{Rect, V4l2Buffer, V4l2Plane, VIDEO_MAX_PLANES};

verus! {

/// The answer to an ioctl.
#[allow(inconsistent_fields)]
pub enum IoctlReply {
    /// An errno alone.
    Refused { errno: i32 },
    /// An errno, with the set of controls it is about.
    RefusedControls { errno: i32, ctrls: ExtControls, ctrl_array: Vec<ExtControl> },
    /// Done, and nothing to tell.
    Done,
    FmtDesc { desc: FmtDesc },
    Format { format: V4l2Format },
    RequestBuffers { answer: RequestBuffers },
    /// A buffer, of which the guest has room for that many plane descriptions.
    Buffer { buffer: V4l2Buffer, planes: u32 },
    Parm { parm: StreamParm },
    Std { std: u64 },
    Standard { raw: [u8; 72] },
    Input { raw: [u8; 80] },
    Control { ctrl: Control },
    Tuner { raw: [u8; 84] },
    Audio { raw: [u8; 52] },
    QueryCtrl { ctrl: QueryCtrl },
    QueryMenu { item: QueryMenu },
    Number { value: i32 },
    Output { raw: [u8; 72] },
    Modulator { raw: [u8; 68] },
    Frequency { raw: [u8; 44] },
    Controls { ctrls: ExtControls, ctrl_array: Vec<ExtControl> },
    FrmSize { size: FrmSizeEnum },
    FrmIval { interval: FrmIvalEnum },
    EncIdx { raw: [u8; 2072] },
    EncoderCmd { cmd: EncoderCmd },
    DecoderCmd { cmd: DecoderCmd },
    DvTimings { timings: DvTimings },
    CreateBuffers { answer: CreateBuffers },
    /// The request with another rectangle in it.
    Selection { raw: [u8; 64], rect: Rect },
    /// The start of the request with timings behind it.
    EnumDvTimings { raw: [u8; 16], timings: DvTimings },
    DvTimingsCap { raw: [u8; 144] },
    FrequencyBand { raw: [u8; 64] },
    QueryExtCtrl { ctrl: QueryExtCtrl },
}

impl IoctlReply {
    /// The errno of a refusal.
    pub open spec fn errno(self) -> i32 {
        match self {
            IoctlReply::Refused { errno } => errno,
            IoctlReply::RefusedControls { errno, .. } => errno,
            _ => 0,
        }
    }

    /// What an answer that tells nothing says.
    pub open spec fn done(self) -> Result<(), i32> {
        match self {
            IoctlReply::Refused { .. } | IoctlReply::RefusedControls { .. } => Err(self.errno()),
            _ => Ok(()),
        }
    }

    /// The header of the set of controls in an answer.
    pub open spec fn header(self) -> ExtControls {
        match self {
            IoctlReply::RefusedControls { ctrls, .. } => ctrls,
            IoctlReply::Controls { ctrls, .. } => ctrls,
            _ => arbitrary(),
        }
    }

    /// The set of controls in an answer.
    pub open spec fn controls(self) -> Seq<ExtControl> {
        match self {
            IoctlReply::RefusedControls { ctrl_array, .. } => ctrl_array@,
            IoctlReply::Controls { ctrl_array, .. } => ctrl_array@,
            _ => Seq::empty(),
        }
    }

    /// The `FmtDesc` an answer tells, or its errno.
    pub open spec fn fmtdesc(self) -> Result<FmtDesc, i32> {
        match self {
            IoctlReply::FmtDesc { desc } => Ok(desc),
            _ => Err(self.errno()),
        }
    }

    /// The `V4l2Format` an answer tells, or its errno.
    pub open spec fn format(self) -> Result<V4l2Format, i32> {
        match self {
            IoctlReply::Format { format } => Ok(format),
            _ => Err(self.errno()),
        }
    }

    /// The `RequestBuffers` an answer tells, or its errno.
    pub open spec fn requestbuffers(self) -> Result<RequestBuffers, i32> {
        match self {
            IoctlReply::RequestBuffers { answer } => Ok(answer),
            _ => Err(self.errno()),
        }
    }

    /// The `V4l2Buffer` an answer tells, or its errno.
    pub open spec fn buffer(self) -> Result<V4l2Buffer, i32> {
        match self {
            IoctlReply::Buffer { buffer, .. } => Ok(buffer),
            _ => Err(self.errno()),
        }
    }

    /// The `StreamParm` an answer tells, or its errno.
    pub open spec fn parm(self) -> Result<StreamParm, i32> {
        match self {
            IoctlReply::Parm { parm } => Ok(parm),
            _ => Err(self.errno()),
        }
    }

    /// The `Control` an answer tells, or its errno.
    pub open spec fn control(self) -> Result<Control, i32> {
        match self {
            IoctlReply::Control { ctrl } => Ok(ctrl),
            _ => Err(self.errno()),
        }
    }

    /// The `QueryCtrl` an answer tells, or its errno.
    pub open spec fn queryctrl(self) -> Result<QueryCtrl, i32> {
        match self {
            IoctlReply::QueryCtrl { ctrl } => Ok(ctrl),
            _ => Err(self.errno()),
        }
    }

    /// The `QueryMenu` an answer tells, or its errno.
    pub open spec fn querymenu(self) -> Result<QueryMenu, i32> {
        match self {
            IoctlReply::QueryMenu { item } => Ok(item),
            _ => Err(self.errno()),
        }
    }

    /// The `FrmSizeEnum` an answer tells, or its errno.
    pub open spec fn frmsize(self) -> Result<FrmSizeEnum, i32> {
        match self {
            IoctlReply::FrmSize { size } => Ok(size),
            _ => Err(self.errno()),
        }
    }

    /// The `FrmIvalEnum` an answer tells, or its errno.
    pub open spec fn frmival(self) -> Result<FrmIvalEnum, i32> {
        match self {
            IoctlReply::FrmIval { interval } => Ok(interval),
            _ => Err(self.errno()),
        }
    }

    /// The `EncoderCmd` an answer tells, or its errno.
    pub open spec fn encoder_cmd(self) -> Result<EncoderCmd, i32> {
        match self {
            IoctlReply::EncoderCmd { cmd } => Ok(cmd),
            _ => Err(self.errno()),
        }
    }

    /// The `CreateBuffers` an answer tells, or its errno.
    pub open spec fn create_buffers(self) -> Result<CreateBuffers, i32> {
        match self {
            IoctlReply::CreateBuffers { answer } => Ok(answer),
            _ => Err(self.errno()),
        }
    }

    /// The `Rect` an answer tells, or its errno.
    pub open spec fn rect(self) -> Result<Rect, i32> {
        match self {
            IoctlReply::Selection { rect, .. } => Ok(rect),
            _ => Err(self.errno()),
        }
    }

    /// The `QueryExtCtrl` an answer tells, or its errno.
    pub open spec fn query_ext_ctrl(self) -> Result<QueryExtCtrl, i32> {
        match self {
            IoctlReply::QueryExtCtrl { ctrl } => Ok(ctrl),
            _ => Err(self.errno()),
        }
    }
}

/// Bytes with a 32-bit field behind them.
pub open spec fn put32(out: Seq<u8>, v: u32) -> Seq<u8> {
    out + bytes32(v as int)
}

/// Bytes with a signed 32-bit field behind them.
pub open spec fn put_signed(out: Seq<u8>, v: i32) -> Seq<u8> {
    out + bytes32(unsigned32(v as int))
}

/// Bytes with a 64-bit field behind them.
pub open spec fn put64(out: Seq<u8>, v: u64) -> Seq<u8> {
    out + bytes64(v as int)
}

/// Bytes with a signed 64-bit field behind them.
pub open spec fn put_signed64(out: Seq<u8>, v: i64) -> Seq<u8> {
    out + bytes64(unsigned64(v as int))
}

/// Bytes with a response header behind them: an errno, zero where there is none.
pub open spec fn put_header(out: Seq<u8>, errno: i32) -> Seq<u8> {
    put32(put_signed(out, errno), 0)
}

/// Bytes with a `struct v4l2_fmtdesc` behind them.
pub open spec fn put_fmtdesc(out: Seq<u8>, d: FmtDesc) -> Seq<u8> {
    let start = put32(put32(put32(out, d.index), d.type_), d.flags) + d.description@;
    put32(put32(start, d.pixelformat), d.mbus_code) + zeros(12)
}

/// Bytes with the layout of one plane of a format behind them.
pub open spec fn put_plane_format(out: Seq<u8>, p: PlanePixFormat) -> Seq<u8> {
    put32(put32(out, p.sizeimage), p.bytesperline) + zeros(12)
}

/// Bytes with a `struct v4l2_pix_format_mplane` behind them, padded to the size of a format's
/// body.
#[verifier::opaque]
pub open spec fn put_pix_mp(out: Seq<u8>, p: PixFormatMplane) -> Seq<u8> {
    let a = put32(put32(put32(out, p.width), p.height), p.pixelformat);
    let b = put_plane_format(put32(put32(a, p.field), p.colorspace), p.plane0);
    let c = put_plane_format(put_plane_format(b, p.more@[0]), p.more@[1]);
    let d = put_plane_format(put_plane_format(c, p.more@[2]), p.more@[3]);
    let e = put_plane_format(put_plane_format(d, p.more@[4]), p.more@[5]);
    let f = put_plane_format(e, p.more@[6]);
    f.push(p.num_planes).push(p.flags).push(p.ycbcr_enc).push(p.quantization).push(p.xfer_func)
        + zeros(15)
}

/// Bytes with a `struct v4l2_format` behind them.
pub open spec fn put_format(out: Seq<u8>, f: V4l2Format) -> Seq<u8> {
    let start = put32(out, f.type_) + zeros(4);
    match f.fmt {
        FormatBody::PixMp(p) => put_pix_mp(start, p),
        FormatBody::Raw(raw) => start + raw@,
    }
}

/// Bytes with a `struct v4l2_requestbuffers` behind them.
pub open spec fn put_requestbuffers(out: Seq<u8>, v: RequestBuffers) -> Seq<u8> {
    put32(put32(put32(put32(out, v.count), v.type_), v.memory), v.capabilities).push(v.flags)
        + zeros(3)
}

/// Bytes with a `struct v4l2_create_buffers` behind them.
pub open spec fn put_create_buffers(out: Seq<u8>, v: CreateBuffers) -> Seq<u8> {
    let start = put32(put32(put32(out, v.index), v.count), v.memory) + zeros(4);
    put32(put32(put_format(start, v.format), v.capabilities), v.flags) + zeros(24)
}

/// Bytes with a `struct v4l2_plane` behind them.
pub open spec fn put_plane(out: Seq<u8>, p: V4l2Plane) -> Seq<u8> {
    let a = put32(put64(put32(put32(out, p.bytesused), p.length), p.m), p.data_offset);
    let b = put64(put64(put64(a, p.reserved.0), p.reserved.1), p.reserved.2);
    put32(put64(put64(b, p.reserved.3), p.reserved.4), p.reserved.5)
}

/// Bytes with the first `n` planes of a buffer behind them.
pub open spec fn put_planes(out: Seq<u8>, v: V4l2Buffer, n: nat) -> Seq<u8>
    decreases n,
{
    if n == 0 {
        out
    } else {
        put_plane(put_planes(out, v, (n - 1) as nat), v.plane(n - 1))
    }
}

/// Bytes with a `struct v4l2_buffer` behind them. The pointer to the plane array of a multi-planar
/// buffer is null: no host address leaves the host.
pub open spec fn put_buffer_struct(out: Seq<u8>, v: V4l2Buffer) -> Seq<u8> {
    let a = put32(put32(put32(out, v.index), v.queue.code()), v.bytesused);
    let b = put32(put32(a, v.flags), v.field) + zeros(4);
    let c = put_signed64(put_signed64(b, v.timestamp.sec), v.timestamp.usec);
    let d = put64(put64(c, v.timecode.0), v.timecode.1);
    let e = put32(put32(d, v.sequence), v.memory.code());
    let f = put64(
        e,
        if v.queue.multiplanar() {
            0
        } else {
            v.m
        },
    );
    put32(put32(put32(f, v.length), v.reserved2), v.request_fd) + zeros(4)
}

/// How many planes of a buffer are told to a guest with room for `room` of them.
pub open spec fn planes_told(v: V4l2Buffer, room: u32) -> nat {
    let n = if v.queue.multiplanar() && v.length <= VIDEO_MAX_PLANES {
        v.length
    } else if v.queue.multiplanar() {
        VIDEO_MAX_PLANES
    } else {
        0
    };
    if room < n {
        room as nat
    } else {
        n as nat
    }
}

/// Bytes with a buffer and as many of its planes as the guest has room for behind them.
pub open spec fn put_buffer(out: Seq<u8>, v: V4l2Buffer, room: u32) -> Seq<u8> {
    put_planes(put_buffer_struct(out, v), v, planes_told(v, room))
}

/// Bytes with a `struct v4l2_streamparm` behind them; no buffers for reading and writing are told
/// of.
pub open spec fn put_streamparm(out: Seq<u8>, v: StreamParm) -> Seq<u8> {
    let a = put32(put32(put32(out, v.type_), v.capability), v.mode);
    put32(put32(put32(put32(a, v.numerator), v.denominator), v.extendedmode), 0) + zeros(176)
}

/// Bytes with a `struct v4l2_queryctrl` behind them.
pub open spec fn put_queryctrl(out: Seq<u8>, v: QueryCtrl) -> Seq<u8> {
    let a = put32(put32(out, v.id), v.type_) + v.name@;
    let b = put_signed(put_signed(put_signed(a, v.minimum), v.maximum), v.step);
    put32(put_signed(b, v.default_value), v.flags) + zeros(8)
}

/// Bytes with a `struct v4l2_query_ext_ctrl` behind them.
pub open spec fn put_query_ext_ctrl(out: Seq<u8>, v: QueryExtCtrl) -> Seq<u8> {
    let a = put32(put32(out, v.id), v.type_) + v.name@;
    let b = put64(put_signed64(put_signed64(a, v.minimum), v.maximum), v.step);
    let c = put32(put32(put_signed64(b, v.default_value), v.flags), v.elem_size);
    let d = put32(put32(c, v.elems), v.nr_of_dims);
    put32(put32(put32(put32(d, v.dims.0), v.dims.1), v.dims.2), v.dims.3) + zeros(128)
}

/// Bytes with a `struct v4l2_querymenu` behind them.
pub open spec fn put_querymenu(out: Seq<u8>, v: QueryMenu) -> Seq<u8> {
    put32(put32(put32(out, v.id), v.index) + v.name@, 0)
}

/// Bytes with a `struct v4l2_ext_control` behind them.
pub open spec fn put_ext_control(out: Seq<u8>, v: ExtControl) -> Seq<u8> {
    put64(put32(put32(put32(out, v.id), v.size), v.reserved2), v.payload)
}

/// Bytes with the first `n` controls of a set behind them.
pub open spec fn put_ext_control_array(out: Seq<u8>, ctrls: Seq<ExtControl>, n: nat) -> Seq<u8>
    decreases n,
{
    if n == 0 {
        out
    } else {
        put_ext_control(put_ext_control_array(out, ctrls, (n - 1) as nat), ctrls[n - 1])
    }
}

/// Bytes with a set of controls behind them. The pointer to the array is null: no host address
/// leaves the host.
pub open spec fn put_controls(out: Seq<u8>, v: ExtControls, ctrls: Seq<ExtControl>) -> Seq<u8> {
    let a = put32(put32(put32(out, v.which), v.count), v.error_idx);
    let b = put32(put_signed(a, v.request_fd), v.reserved) + zeros(12);
    put_ext_control_array(b, ctrls, ctrls.len())
}

/// Bytes with a `struct v4l2_frmsizeenum` behind them.
pub open spec fn put_frmsize(out: Seq<u8>, v: FrmSizeEnum) -> Seq<u8> {
    let a = put32(put32(put32(out, v.index), v.pixel_format), v.type_);
    let b = put32(put32(put32(a, v.min_width), v.max_width), v.step_width);
    put32(put32(put32(b, v.min_height), v.max_height), v.step_height) + zeros(8)
}

/// Bytes with a `struct v4l2_frmivalenum` behind them.
pub open spec fn put_frmival(out: Seq<u8>, v: FrmIvalEnum) -> Seq<u8> {
    let a = put32(put32(put32(out, v.index), v.pixel_format), v.width);
    let b = put32(put32(a, v.height), v.type_);
    let c = put32(put32(b, v.min.numerator), v.min.denominator);
    let d = put32(put32(c, v.max.numerator), v.max.denominator);
    put32(put32(d, v.step.numerator), v.step.denominator) + zeros(8)
}

/// Bytes with a `struct v4l2_encoder_cmd` behind them.
pub open spec fn put_encoder_cmd(out: Seq<u8>, v: EncoderCmd) -> Seq<u8> {
    let a = put32(put32(out, v.cmd), v.flags);
    put64(put64(put64(put64(a, v.data.0), v.data.1), v.data.2), v.data.3)
}

/// Bytes with a `struct v4l2_rect` behind them.
pub open spec fn put_rect(out: Seq<u8>, v: Rect) -> Seq<u8> {
    put32(put32(put_signed(put_signed(out, v.left), v.top), v.width), v.height)
}

/// Bytes with an answer behind them: the response header, then what the answer tells.
pub open spec fn put_reply(out: Seq<u8>, reply: IoctlReply) -> Seq<u8> {
    let ok = put_header(out, 0);
    match reply {
        IoctlReply::Refused { errno } => put_header(out, errno),
        IoctlReply::RefusedControls { errno, ctrls, ctrl_array } => put_controls(
            put_header(out, errno),
            ctrls,
            ctrl_array@,
        ),
        IoctlReply::Done => ok,
        IoctlReply::FmtDesc { desc } => put_fmtdesc(ok, desc),
        IoctlReply::Format { format } => put_format(ok, format),
        IoctlReply::RequestBuffers { answer } => put_requestbuffers(ok, answer),
        IoctlReply::Buffer { buffer, planes } => put_buffer(ok, buffer, planes),
        IoctlReply::Parm { parm } => put_streamparm(ok, parm),
        IoctlReply::Std { std } => put64(ok, std),
        IoctlReply::Standard { raw } => ok + raw@,
        IoctlReply::Input { raw } => ok + raw@,
        IoctlReply::Control { ctrl } => put_signed(put32(ok, ctrl.id), ctrl.value),
        IoctlReply::Tuner { raw } => ok + raw@,
        IoctlReply::Audio { raw } => ok + raw@,
        IoctlReply::QueryCtrl { ctrl } => put_queryctrl(ok, ctrl),
        IoctlReply::QueryMenu { item } => put_querymenu(ok, item),
        IoctlReply::Number { value } => put_signed(ok, value),
        IoctlReply::Output { raw } => ok + raw@,
        IoctlReply::Modulator { raw } => ok + raw@,
        IoctlReply::Frequency { raw } => ok + raw@,
        IoctlReply::Controls { ctrls, ctrl_array } => put_controls(ok, ctrls, ctrl_array@),
        IoctlReply::FrmSize { size } => put_frmsize(ok, size),
        IoctlReply::FrmIval { interval } => put_frmival(ok, interval),
        IoctlReply::EncIdx { raw } => ok + raw@,
        IoctlReply::EncoderCmd { cmd } => put_encoder_cmd(ok, cmd),
        IoctlReply::DecoderCmd { cmd } => ok + cmd@,
        IoctlReply::DvTimings { timings } => ok + timings@,
        IoctlReply::CreateBuffers { answer } => put_create_buffers(ok, answer),
        IoctlReply::Selection { raw, rect } => put_rect(ok + raw@.subrange(0, 12), rect)
            + raw@.subrange(28, 64),
        IoctlReply::EnumDvTimings { raw, timings } => ok + raw@ + timings@,
        IoctlReply::DvTimingsCap { raw } => ok + raw@,
        IoctlReply::FrequencyBand { raw } => ok + raw@,
        IoctlReply::QueryExtCtrl { ctrl } => put_query_ext_ctrl(ok, ctrl),
    }
}

/// Appends a response header.
pub fn write_header(out: &mut Vec<u8>, errno: i32)
    ensures
        final(out)@ == put_header(old(out)@, errno),
{
    push_i32(out, errno);
    push_u32(out, 0);
}

fn write_fmtdesc(out: &mut Vec<u8>, d: &FmtDesc)
    ensures
        final(out)@ == put_fmtdesc(old(out)@, *d),
{
    push_u32(out, d.index);
    push_u32(out, d.type_);
    push_u32(out, d.flags);
    push_slice(out, &d.description);
    push_u32(out, d.pixelformat);
    push_u32(out, d.mbus_code);
    push_zeros(out, 12);
}

fn write_plane_format(out: &mut Vec<u8>, p: &PlanePixFormat)
    ensures
        final(out)@ == put_plane_format(old(out)@, *p),
{
    push_u32(out, p.sizeimage);
    push_u32(out, p.bytesperline);
    push_zeros(out, 12);
}

fn write_format(out: &mut Vec<u8>, f: &V4l2Format)
    ensures
        final(out)@ == put_format(old(out)@, *f),
{
    proof {
        reveal(put_pix_mp);
    }
    push_u32(out, f.type_);
    push_zeros(out, 4);
    match &f.fmt {
        FormatBody::PixMp(p) => {
            push_u32(out, p.width);
            push_u32(out, p.height);
            push_u32(out, p.pixelformat);
            push_u32(out, p.field);
            push_u32(out, p.colorspace);
            write_plane_format(out, &p.plane0);
            write_plane_format(out, &p.more[0]);
            write_plane_format(out, &p.more[1]);
            write_plane_format(out, &p.more[2]);
            write_plane_format(out, &p.more[3]);
            write_plane_format(out, &p.more[4]);
            write_plane_format(out, &p.more[5]);
            write_plane_format(out, &p.more[6]);
            out.push(p.num_planes);
            out.push(p.flags);
            out.push(p.ycbcr_enc);
            out.push(p.quantization);
            out.push(p.xfer_func);
            push_zeros(out, 15);
        },
        FormatBody::Raw(raw) => push_slice(out, raw),
    }
}

fn write_requestbuffers(out: &mut Vec<u8>, v: &RequestBuffers)
    ensures
        final(out)@ == put_requestbuffers(old(out)@, *v),
{
    push_u32(out, v.count);
    push_u32(out, v.type_);
    push_u32(out, v.memory);
    push_u32(out, v.capabilities);
    out.push(v.flags);
    push_zeros(out, 3);
}

fn write_create_buffers(out: &mut Vec<u8>, v: &CreateBuffers)
    ensures
        final(out)@ == put_create_buffers(old(out)@, *v),
{
    push_u32(out, v.index);
    push_u32(out, v.count);
    push_u32(out, v.memory);
    push_zeros(out, 4);
    write_format(out, &v.format);
    push_u32(out, v.capabilities);
    push_u32(out, v.flags);
    push_zeros(out, 24);
}

fn write_plane(out: &mut Vec<u8>, p: &V4l2Plane)
    ensures
        final(out)@ == put_plane(old(out)@, *p),
{
    push_u32(out, p.bytesused);
    push_u32(out, p.length);
    push_u64(out, p.m);
    push_u32(out, p.data_offset);
    push_u64(out, p.reserved.0);
    push_u64(out, p.reserved.1);
    push_u64(out, p.reserved.2);
    push_u64(out, p.reserved.3);
    push_u64(out, p.reserved.4);
    push_u32(out, p.reserved.5);
}

fn write_buffer(out: &mut Vec<u8>, v: &V4l2Buffer, room: u32)
    ensures
        final(out)@ == put_buffer(old(out)@, *v, room),
{
    push_u32(out, v.index);
    push_u32(out, v.queue.to_u32());
    push_u32(out, v.bytesused);
    push_u32(out, v.flags);
    push_u32(out, v.field);
    push_zeros(out, 4);
    push_u64(out, to_unsigned64(v.timestamp.sec));
    push_u64(out, to_unsigned64(v.timestamp.usec));
    push_u64(out, v.timecode.0);
    push_u64(out, v.timecode.1);
    push_u32(out, v.sequence);
    push_u32(out, v.memory.to_u32());
    let multiplanar: bool = v.queue.is_multiplanar();
    push_u64(
        out,
        if multiplanar {
            0
        } else {
            v.m
        },
    );
    push_u32(out, v.length);
    push_u32(out, v.reserved2);
    push_u32(out, v.request_fd);
    push_zeros(out, 4);
    let ghost head = out@;
    let has: u32 = if !multiplanar {
        0
    } else if v.length <= VIDEO_MAX_PLANES {
        v.length
    } else {
        VIDEO_MAX_PLANES
    };
    let told: u32 = if room < has {
        room
    } else {
        has
    };
    let mut i: usize = 0;
    while i < told as usize
        invariant
            i <= told <= 8,
            out@ == put_planes(head, *v, i as nat),
        decreases told - i,
    {
        if i == 0 {
            write_plane(out, &v.plane0);
        } else {
            write_plane(out, &v.more[i - 1]);
        }
        i = i + 1;
    }
}

fn write_streamparm(out: &mut Vec<u8>, v: &StreamParm)
    ensures
        final(out)@ == put_streamparm(old(out)@, *v),
{
    push_u32(out, v.type_);
    push_u32(out, v.capability);
    push_u32(out, v.mode);
    push_u32(out, v.numerator);
    push_u32(out, v.denominator);
    push_u32(out, v.extendedmode);
    push_u32(out, 0);
    push_zeros(out, 176);
}

fn write_queryctrl(out: &mut Vec<u8>, v: &QueryCtrl)
    ensures
        final(out)@ == put_queryctrl(old(out)@, *v),
{
    push_u32(out, v.id);
    push_u32(out, v.type_);
    push_slice(out, &v.name);
    push_i32(out, v.minimum);
    push_i32(out, v.maximum);
    push_i32(out, v.step);
    push_i32(out, v.default_value);
    push_u32(out, v.flags);
    push_zeros(out, 8);
}

fn write_query_ext_ctrl(out: &mut Vec<u8>, v: &QueryExtCtrl)
    ensures
        final(out)@ == put_query_ext_ctrl(old(out)@, *v),
{
    push_u32(out, v.id);
    push_u32(out, v.type_);
    push_slice(out, &v.name);
    push_u64(out, to_unsigned64(v.minimum));
    push_u64(out, to_unsigned64(v.maximum));
    push_u64(out, v.step);
    push_u64(out, to_unsigned64(v.default_value));
    push_u32(out, v.flags);
    push_u32(out, v.elem_size);
    push_u32(out, v.elems);
    push_u32(out, v.nr_of_dims);
    push_u32(out, v.dims.0);
    push_u32(out, v.dims.1);
    push_u32(out, v.dims.2);
    push_u32(out, v.dims.3);
    push_zeros(out, 128);
}

fn write_controls(out: &mut Vec<u8>, v: &ExtControls, ctrls: &Vec<ExtControl>)
    ensures
        final(out)@ == put_controls(old(out)@, *v, ctrls@),
{
    push_u32(out, v.which);
    push_u32(out, v.count);
    push_u32(out, v.error_idx);
    push_i32(out, v.request_fd);
    push_u32(out, v.reserved);
    push_zeros(out, 12);
    let ghost head = out@;
    let mut i: usize = 0;
    while i < ctrls.len()
        invariant
            i <= ctrls@.len(),
            out@ == put_ext_control_array(head, ctrls@, i as nat),
        decreases ctrls@.len() - i,
    {
        let c: ExtControl = ctrls[i];
        push_u32(out, c.id);
        push_u32(out, c.size);
        push_u32(out, c.reserved2);
        push_u64(out, c.payload);
        i = i + 1;
    }
}

fn write_frmsize(out: &mut Vec<u8>, v: &FrmSizeEnum)
    ensures
        final(out)@ == put_frmsize(old(out)@, *v),
{
    push_u32(out, v.index);
    push_u32(out, v.pixel_format);
    push_u32(out, v.type_);
    push_u32(out, v.min_width);
    push_u32(out, v.max_width);
    push_u32(out, v.step_width);
    push_u32(out, v.min_height);
    push_u32(out, v.max_height);
    push_u32(out, v.step_height);
    push_zeros(out, 8);
}

fn write_frmival(out: &mut Vec<u8>, v: &FrmIvalEnum)
    ensures
        final(out)@ == put_frmival(old(out)@, *v),
{
    push_u32(out, v.index);
    push_u32(out, v.pixel_format);
    push_u32(out, v.width);
    push_u32(out, v.height);
    push_u32(out, v.type_);
    push_u32(out, v.min.numerator);
    push_u32(out, v.min.denominator);
    push_u32(out, v.max.numerator);
    push_u32(out, v.max.denominator);
    push_u32(out, v.step.numerator);
    push_u32(out, v.step.denominator);
    push_zeros(out, 8);
}

fn write_encoder_cmd(out: &mut Vec<u8>, v: &EncoderCmd)
    ensures
        final(out)@ == put_encoder_cmd(old(out)@, *v),
{
    push_u32(out, v.cmd);
    push_u32(out, v.flags);
    push_u64(out, v.data.0);
    push_u64(out, v.data.1);
    push_u64(out, v.data.2);
    push_u64(out, v.data.3);
}

fn write_selection(out: &mut Vec<u8>, raw: &[u8; 64], rect: &Rect)
    ensures
        final(out)@ == put_rect(old(out)@ + raw@.subrange(0, 12), *rect) + raw@.subrange(28, 64),
{
    let all: &[u8] = raw;
    push_slice(out, vstd::slice::slice_subrange(all, 0, 12));
    push_i32(out, rect.left);
    push_i32(out, rect.top);
    push_u32(out, rect.width);
    push_u32(out, rect.height);
    push_slice(out, vstd::slice::slice_subrange(all, 28, 64));
}

/// Appends an answer.
pub fn write_reply(out: &mut Vec<u8>, reply: &IoctlReply)
    ensures
        final(out)@ == put_reply(old(out)@, *reply),
{
    let errno: i32 = match reply {
        IoctlReply::Refused { errno } => *errno,
        IoctlReply::RefusedControls { errno, .. } => *errno,
        _ => 0,
    };
    write_header(out, errno);
    match reply {
        IoctlReply::Refused { .. } => {},
        IoctlReply::RefusedControls { ctrls, ctrl_array, .. } => write_controls(
            out,
            ctrls,
            ctrl_array,
        ),
        IoctlReply::Done => {},
        IoctlReply::FmtDesc { desc } => write_fmtdesc(out, desc),
        IoctlReply::Format { format } => write_format(out, format),
        IoctlReply::RequestBuffers { answer } => write_requestbuffers(out, answer),
        IoctlReply::Buffer { buffer, planes } => write_buffer(out, buffer, *planes),
        IoctlReply::Parm { parm } => write_streamparm(out, parm),
        IoctlReply::Std { std } => push_u64(out, *std),
        IoctlReply::Standard { raw } => push_slice(out, raw),
        IoctlReply::Input { raw } => push_slice(out, raw),
        IoctlReply::Control { ctrl } => {
            push_u32(out, ctrl.id);
            push_i32(out, ctrl.value);
        },
        IoctlReply::Tuner { raw } => push_slice(out, raw),
        IoctlReply::Audio { raw } => push_slice(out, raw),
        IoctlReply::QueryCtrl { ctrl } => write_queryctrl(out, ctrl),
        IoctlReply::QueryMenu { item } => {
            push_u32(out, item.id);
            push_u32(out, item.index);
            push_slice(out, &item.name);
            push_u32(out, 0);
        },
        IoctlReply::Number { value } => push_i32(out, *value),
        IoctlReply::Output { raw } => push_slice(out, raw),
        IoctlReply::Modulator { raw } => push_slice(out, raw),
        IoctlReply::Frequency { raw } => push_slice(out, raw),
        IoctlReply::Controls { ctrls, ctrl_array } => write_controls(out, ctrls, ctrl_array),
        IoctlReply::FrmSize { size } => write_frmsize(out, size),
        IoctlReply::FrmIval { interval } => write_frmival(out, interval),
        IoctlReply::EncIdx { raw } => push_slice(out, raw),
        IoctlReply::EncoderCmd { cmd } => write_encoder_cmd(out, cmd),
        IoctlReply::DecoderCmd { cmd } => push_slice(out, cmd),
        IoctlReply::DvTimings { timings } => push_slice(out, timings),
        IoctlReply::CreateBuffers { answer } => write_create_buffers(out, answer),
        IoctlReply::Selection { raw, rect } => write_selection(out, raw, rect),
        IoctlReply::EnumDvTimings { raw, timings } => {
            push_slice(out, raw);
            push_slice(out, timings);
        },
        IoctlReply::DvTimingsCap { raw } => push_slice(out, raw),
        IoctlReply::FrequencyBand { raw } => push_slice(out, raw),
        IoctlReply::QueryExtCtrl { ctrl } => write_query_ext_ctrl(out, ctrl),
    }
}

} // verus!
