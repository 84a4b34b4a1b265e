//! What is written for a guest is what it reads, and what a dispatched ioctl is answered.
use vstd::prelude::*;

use super::codes::V4l2Ioctl;
use super::handler::{dispatched, unsupported, VirtioMediaIoctlHandler};
use super::read::{
    array_fits, buffer_extent, buffer_readable, controls_of, controls_readable, header_of,
    is_buffer, is_guest_controls, memory_of, plane_of, queue_of,
};
use super::reply::{
    put32, put64, put_buffer, put_buffer_struct, put_controls, put_ext_control_array, put_format,
    put_header, put_pix_mp, put_plane, put_plane_format, put_planes, put_reply, put_signed,
    put_signed64, IoctlReply,
};
use super::requests::{is_format_at, is_pix_mp_at, plane_format_at, Decoded, IoctlRequest};
use super::types::{which_of, ExtControl, ExtControls};
use crate::bytes::{
    bytes32, bytes64, le32, le32_of_bytes32, le64, le64_of_bytes64, signed64, unsigned32,
    unsigned64, zeros,
};
use crate::errno::{EINVAL, ENOTTY};
use crate::formats::{FormatBody, PixFormatMplane, PlanePixFormat, V4l2Format};
use crate::v4l2::{MemoryType, QueueType, V4l2Buffer, V4l2Plane, VIDEO_MAX_PLANES};

verus! {

/// Whether some bytes begin with others.
pub open spec fn begins_with(b: Seq<u8>, a: Seq<u8>) -> bool {
    a.len() <= b.len() && forall|k: int| 0 <= k < a.len() ==> #[trigger] b[k] == a[k]
}

/// The fields of bytes that begin others are fields of those.
pub proof fn fields_stay(b: Seq<u8>, a: Seq<u8>)
    requires
        begins_with(b, a),
    ensures
        forall|k: int| 0 <= k && k + 4 <= a.len() ==> #[trigger] le32(b, k) == le32(a, k),
        forall|k: int| 0 <= k && k + 8 <= a.len() ==> #[trigger] le64(b, k) == le64(a, k),
{
    assert forall|k: int| 0 <= k && k + 4 <= a.len() implies #[trigger] le32(b, k) == le32(
        a,
        k,
    ) by {
        assert(b[k] == a[k] && b[k + 1] == a[k + 1] && b[k + 2] == a[k + 2] && b[k + 3] == a[k
            + 3]);
    }
    assert forall|k: int| 0 <= k && k + 8 <= a.len() implies #[trigger] le64(b, k) == le64(
        a,
        k,
    ) by {
        assert(le32(b, k) == le32(a, k));
        assert(le32(b, k + 4) == le32(a, k + 4));
    }
}

/// A 32-bit field behind some bytes.
pub proof fn after_put32(out: Seq<u8>, v: u32)
    ensures
        ({
            let r = put32(out, v);
            &&& r.len() == out.len() + 4
            &&& begins_with(r, out)
            &&& le32(r, out.len() as int) == v
            &&& forall|k: int| 0 <= k && k + 4 <= out.len() ==> #[trigger] le32(r, k) == le32(
                out,
                k,
            )
            &&& forall|k: int| 0 <= k && k + 8 <= out.len() ==> #[trigger] le64(r, k) == le64(
                out,
                k,
            )
        }),
{
    let r = put32(out, v);
    let f = bytes32(v as int);
    let n = out.len() as int;
    le32_of_bytes32(v);
    assert(r[n] == f[0] && r[n + 1] == f[1] && r[n + 2] == f[2] && r[n + 3] == f[3]);
    fields_stay(r, out);
}

/// A 64-bit field behind some bytes.
pub proof fn after_put64(out: Seq<u8>, v: u64)
    ensures
        ({
            let r = put64(out, v);
            &&& r.len() == out.len() + 8
            &&& begins_with(r, out)
            &&& le64(r, out.len() as int) == v
            &&& forall|k: int| 0 <= k && k + 4 <= out.len() ==> #[trigger] le32(r, k) == le32(
                out,
                k,
            )
            &&& forall|k: int| 0 <= k && k + 8 <= out.len() ==> #[trigger] le64(r, k) == le64(
                out,
                k,
            )
        }),
{
    let r = put64(out, v);
    let f = bytes64(v as int);
    let n = out.len() as int;
    le64_of_bytes64(v);
    assert(forall|j: int| 0 <= j < 8 ==> r[n + j] == #[trigger] f[j]);
    assert(r[n] == f[0] && r[n + 1] == f[1] && r[n + 2] == f[2] && r[n + 3] == f[3]);
    assert(r[n + 4] == f[4] && r[n + 5] == f[5] && r[n + 6] == f[6] && r[n + 7] == f[7]);
    assert(le32(r, n) == le32(f, 0));
    assert(le32(r, n + 4) == le32(f, 4));
    fields_stay(r, out);
}

/// Zero bytes behind some bytes.
pub proof fn after_zeros(out: Seq<u8>, n: nat)
    ensures
        ({
            let r = out + zeros(n);
            &&& r.len() == out.len() + n
            &&& begins_with(r, out)
            &&& forall|k: int| 0 <= k && k + 4 <= out.len() ==> #[trigger] le32(r, k) == le32(
                out,
                k,
            )
            &&& forall|k: int| 0 <= k && k + 8 <= out.len() ==> #[trigger] le64(r, k) == le64(
                out,
                k,
            )
        }),
{
    fields_stay(out + zeros(n), out);
}

/// A signed number, written as the unsigned one with its bits, is read as it was.
pub proof fn signs_survive(v: i64)
    ensures
        0 <= unsigned64(v as int) <= u64::MAX,
        signed64(unsigned64(v as int)) == v,
{
}

/// The control at a place.
pub open spec fn ext_control_at(b: Seq<u8>, at: int) -> ExtControl {
    ExtControl {
        id: le32(b, at) as u32,
        size: le32(b, at + 4) as u32,
        reserved2: le32(b, at + 8) as u32,
        payload: le64(b, at + 12) as u64,
    }
}

/// Controls behind some bytes take twenty bytes each, are read as they were written, and leave
/// the rest as it was.
#[verifier::spinoff_prover]
pub proof fn after_controls(out: Seq<u8>, ctrls: Seq<ExtControl>, n: nat)
    ensures
        put_ext_control_array(out, ctrls, n).len() == out.len() + 20 * n,
        begins_with(put_ext_control_array(out, ctrls, n), out),
        forall|i: int|
            0 <= i < n ==> ext_control_at(
                put_ext_control_array(out, ctrls, n),
                out.len() + 20 * i,
            ) == #[trigger] ctrls[i],
    decreases n,
{
    if n > 0 {
        let before = put_ext_control_array(out, ctrls, (n - 1) as nat);
        let all = put_ext_control_array(out, ctrls, n);
        after_controls(out, ctrls, (n - 1) as nat);
        let c = ctrls[n - 1];
        after_put32(before, c.id);
        after_put32(put32(before, c.id), c.size);
        after_put32(put32(put32(before, c.id), c.size), c.reserved2);
        after_put64(put32(put32(put32(before, c.id), c.size), c.reserved2), c.payload);
        fields_stay(all, before);
    }
}

/// Bytes with the header of a set of controls behind them, and room for the pointer to the array.
pub open spec fn put_controls_header(out: Seq<u8>, v: ExtControls) -> Seq<u8> {
    let a = put32(put32(put32(out, v.which), v.count), v.error_idx);
    put32(put_signed(a, v.request_fd), v.reserved) + zeros(12)
}

/// The header of a set of controls behind some bytes is read as it was written.
#[verifier::spinoff_prover]
pub proof fn after_controls_header(out: Seq<u8>, v: ExtControls)
    ensures
        ({
            let r = put_controls_header(out, v);
            let n = out.len() as int;
            &&& r.len() == n + 32
            &&& begins_with(r, out)
            &&& le32(r, n) == v.which
            &&& le32(r, n + 4) == v.count
            &&& le32(r, n + 8) == v.error_idx
            &&& le32(r, n + 12) == unsigned32(v.request_fd as int)
            &&& le32(r, n + 16) == v.reserved
        }),
{
    let a1 = put32(out, v.which);
    let a2 = put32(a1, v.count);
    let a3 = put32(a2, v.error_idx);
    let fd = unsigned32(v.request_fd as int) as u32;
    let a4 = put32(a3, fd);
    let a5 = put32(a4, v.reserved);
    after_put32(out, v.which);
    after_put32(a1, v.count);
    after_put32(a2, v.error_idx);
    after_put32(a3, fd);
    after_put32(a4, v.reserved);
    after_zeros(a5, 12);
    assert(a4 == put_signed(a3, v.request_fd));
}

/// A set of controls written for a guest is the set the guest sends when it sends those bytes
/// back.
#[verifier::spinoff_prover]
pub proof fn written_controls_are_read_back(ctrls: ExtControls, ctrl_array: Seq<ExtControl>)
    requires
        ctrls.count == ctrl_array.len(),
    ensures
        ({
            let b = put_controls(Seq::empty(), ctrls, ctrl_array);
            &&& b.len() == 32 + 20 * ctrl_array.len()
            &&& header_of(b) == ctrls
            &&& controls_of(b) == ctrl_array
        }),
{
    let z = Seq::<u8>::empty();
    let h = put_controls_header(z, ctrls);
    after_controls_header(z, ctrls);
    after_controls(h, ctrl_array, ctrl_array.len());
    let all = put_ext_control_array(h, ctrl_array, ctrl_array.len());
    assert(all == put_controls(z, ctrls, ctrl_array));
    fields_stay(all, h);
    assert(header_of(all) == ctrls);
    assert forall|i: int| 0 <= i < ctrl_array.len() implies controls_of(all)[i]
        == #[trigger] ctrl_array[i] by {
        assert(ext_control_at(all, 32 + 20 * i) == ctrl_array[i]);
        assert(controls_of(all)[i] == ext_control_at(all, 32 + 20 * i));
    }
    assert(controls_of(all) =~= ctrl_array);
}

/// A refused set of controls goes back whole: the errno, then the header with the index of the
/// control that caused it, then every control.
#[verifier::spinoff_prover]
pub proof fn refused_controls_go_back(
    errno: i32,
    ctrls: ExtControls,
    ctrl_array: Vec<ExtControl>,
)
    ensures
        ({
            let b = put_reply(
                Seq::empty(),
                IoctlReply::RefusedControls { errno, ctrls, ctrl_array },
            );
            &&& b.len() == 8 + 32 + 20 * ctrl_array@.len()
            &&& le32(b, 0) == unsigned32(errno as int)
            &&& le32(b, 8) == ctrls.which
            &&& le32(b, 12) == ctrls.count
            &&& le32(b, 16) == ctrls.error_idx
        }),
{
    let e = unsigned32(errno as int) as u32;
    let z = Seq::<u8>::empty();
    after_put32(z, e);
    assert(put_signed(z, errno) == put32(z, e));
    let h0 = put32(z, e);
    after_put32(h0, 0);
    let h = put32(h0, 0);
    assert(h == put_header(z, errno));
    let a = put_controls_header(h, ctrls);
    after_controls_header(h, ctrls);
    fields_stay(a, h);
    after_controls(a, ctrl_array@, ctrl_array@.len());
    let all = put_ext_control_array(a, ctrl_array@, ctrl_array@.len());
    fields_stay(all, a);
    assert(all == put_controls(h, ctrls, ctrl_array@));
}

/// A plane behind some bytes is read as it was written.
#[verifier::spinoff_prover]
pub proof fn after_plane(out: Seq<u8>, p: V4l2Plane)
    ensures
        put_plane(out, p).len() == out.len() + 64,
        begins_with(put_plane(out, p), out),
        plane_of(put_plane(out, p), out.len() as int) == p,
{
    let a1 = put32(out, p.bytesused);
    let a2 = put32(a1, p.length);
    let a3 = put64(a2, p.m);
    let a4 = put32(a3, p.data_offset);
    let a5 = put64(a4, p.reserved.0);
    let a6 = put64(a5, p.reserved.1);
    let a7 = put64(a6, p.reserved.2);
    let a8 = put64(a7, p.reserved.3);
    let a9 = put64(a8, p.reserved.4);
    after_put32(out, p.bytesused);
    after_put32(a1, p.length);
    after_put64(a2, p.m);
    after_put32(a3, p.data_offset);
    after_put64(a4, p.reserved.0);
    after_put64(a5, p.reserved.1);
    after_put64(a6, p.reserved.2);
    after_put64(a7, p.reserved.3);
    after_put64(a8, p.reserved.4);
    after_put32(a9, p.reserved.5);
    assert(put_plane(out, p) == put32(a9, p.reserved.5));
}

/// A plane in bytes that begin others is a plane of those.
pub proof fn planes_stay(b: Seq<u8>, a: Seq<u8>, at: int)
    requires
        begins_with(b, a),
        0 <= at,
        at + 64 <= a.len(),
    ensures
        plane_of(b, at) == plane_of(a, at),
{
    fields_stay(b, a);
}

/// Planes behind some bytes are read as they were written.
#[verifier::spinoff_prover]
pub proof fn after_planes(out: Seq<u8>, v: V4l2Buffer, n: nat)
    ensures
        put_planes(out, v, n).len() == out.len() + 64 * n,
        begins_with(put_planes(out, v, n), out),
        forall|i: int|
            0 <= i < n ==> plane_of(put_planes(out, v, n), out.len() + 64 * i)
                == #[trigger] v.plane(i),
    decreases n,
{
    if n > 0 {
        let before = put_planes(out, v, (n - 1) as nat);
        let all = put_planes(out, v, n);
        after_planes(out, v, (n - 1) as nat);
        after_plane(before, v.plane(n - 1));
        assert forall|i: int| 0 <= i < n implies plane_of(all, out.len() + 64 * i)
            == #[trigger] v.plane(i) by {
            if i < n - 1 {
                planes_stay(all, before, out.len() + 64 * i);
            } else {
                assert(before.len() == out.len() + 64 * i);
            }
        }
    }
}

/// A buffer's fields are read as they were written, but for the pointer to its plane array.
#[verifier::spinoff_prover]
proof fn after_buffer_struct(v: V4l2Buffer)
    ensures
        ({
            let b = put_buffer_struct(Seq::empty(), v);
            &&& b.len() == 88
            &&& le32(b, 0) == v.index
            &&& le32(b, 4) == v.queue.code()
            &&& le32(b, 8) == v.bytesused
            &&& le32(b, 12) == v.flags
            &&& le32(b, 16) == v.field
            &&& signed64(le64(b, 24)) == v.timestamp.sec
            &&& signed64(le64(b, 32)) == v.timestamp.usec
            &&& le64(b, 40) == v.timecode.0
            &&& le64(b, 48) == v.timecode.1
            &&& le32(b, 56) == v.sequence
            &&& le32(b, 60) == v.memory.code()
            &&& le64(b, 64) == (if v.queue.multiplanar() {
                0
            } else {
                v.m
            })
            &&& le32(b, 72) == v.length
            &&& le32(b, 76) == v.reserved2
            &&& le32(b, 80) == v.request_fd
        }),
{
    let z = Seq::<u8>::empty();
    let sec = unsigned64(v.timestamp.sec as int) as u64;
    let usec = unsigned64(v.timestamp.usec as int) as u64;
    let m = if v.queue.multiplanar() {
        0
    } else {
        v.m
    };
    signs_survive(v.timestamp.sec);
    signs_survive(v.timestamp.usec);
    let a1 = put32(z, v.index);
    let a2 = put32(a1, v.queue.code());
    let a3 = put32(a2, v.bytesused);
    let a4 = put32(a3, v.flags);
    let a5 = put32(a4, v.field);
    let a6 = a5 + zeros(4);
    let a7 = put64(a6, sec);
    let a8 = put64(a7, usec);
    let a9 = put64(a8, v.timecode.0);
    let b1 = put64(a9, v.timecode.1);
    let b2 = put32(b1, v.sequence);
    let b3 = put32(b2, v.memory.code());
    let b4 = put64(b3, m);
    let b5 = put32(b4, v.length);
    let b6 = put32(b5, v.reserved2);
    let b7 = put32(b6, v.request_fd);
    after_put32(z, v.index);
    after_put32(a1, v.queue.code());
    after_put32(a2, v.bytesused);
    after_put32(a3, v.flags);
    after_put32(a4, v.field);
    after_zeros(a5, 4);
    after_put64(a6, sec);
    after_put64(a7, usec);
    after_put64(a8, v.timecode.0);
    after_put64(a9, v.timecode.1);
    after_put32(b1, v.sequence);
    after_put32(b2, v.memory.code());
    after_put64(b3, m);
    after_put32(b4, v.length);
    after_put32(b5, v.reserved2);
    after_put32(b6, v.request_fd);
    after_zeros(b7, 4);
    assert(put_signed64(a6, v.timestamp.sec) == a7);
    assert(put_signed64(a7, v.timestamp.usec) == a8);
    assert(put_buffer_struct(z, v) == b7 + zeros(4));
}

/// A buffer written for a guest with room for its planes is the buffer the guest sends when it
/// sends those bytes back, but that the pointer to the plane array is null; provided the buffer
/// holds the payloads it declares.
#[verifier::spinoff_prover]
pub proof fn written_buffers_are_read_back(v: V4l2Buffer)
    requires
        v.queue.multiplanar(),
        array_fits(v.queue, v.length as int),
        forall|i: int|
            0 <= i < 8 ==> if i < v.length {
                (#[trigger] v.plane(i)).payload_fits()
            } else {
                v.plane(i) == V4l2Plane::zero()
            },
    ensures
        ({
            let b = put_buffer(Seq::empty(), v, v.length);
            &&& b.len() == buffer_extent(v.queue, v.length as int)
            &&& queue_of(le32(b, 4)) == Some(v.queue)
            &&& memory_of(le32(b, 60)) == Some(v.memory)
            &&& is_buffer((V4l2Buffer { m: 0, ..v }), b, v.queue, v.memory)
        }),
{
    let head = put_buffer_struct(Seq::empty(), v);
    let b = put_buffer(Seq::empty(), v, v.length);
    after_buffer_struct(v);
    after_planes(head, v, v.length as nat);
    assert(b == put_planes(head, v, v.length as nat));
    fields_stay(b, head);
    assert(le32(b, 4) == v.queue.code());
    assert(le32(b, 60) == v.memory.code());
    let w = V4l2Buffer { m: 0, ..v };
    assert forall|i: int| 0 <= i < 8 implies #[trigger] w.plane(i) == if v.queue.multiplanar() && i
        < le32(b, 72) {
        super::read::cleaned(plane_of(b, 88 + 64 * i))
    } else {
        V4l2Plane::zero()
    } by {
        assert(w.plane(i) == v.plane(i));
    }
}

/// The layout of a plane behind some bytes is read as it was written.
proof fn after_plane_format(out: Seq<u8>, p: PlanePixFormat)
    ensures
        ({
            let r = put_plane_format(out, p);
            &&& r.len() == out.len() + 20
            &&& begins_with(r, out)
            &&& plane_format_at(r, out.len() as int) == p
        }),
{
    let a1 = put32(out, p.sizeimage);
    let a2 = put32(a1, p.bytesperline);
    after_put32(out, p.sizeimage);
    after_put32(a1, p.bytesperline);
    after_zeros(a2, 12);
}

/// The layout of a plane in bytes that begin others is one of those.
proof fn plane_format_stays(b: Seq<u8>, a: Seq<u8>, at: int)
    requires
        begins_with(b, a),
        0 <= at,
        at + 8 <= a.len(),
    ensures
        plane_format_at(b, at) == plane_format_at(a, at),
{
    fields_stay(b, a);
}

/// The layouts of four planes behind some bytes are read as they were written.
proof fn after_four_plane_formats(
    out: Seq<u8>,
    p0: PlanePixFormat,
    p1: PlanePixFormat,
    p2: PlanePixFormat,
    p3: PlanePixFormat,
)
    ensures
        ({
            let r = put_plane_format(
                put_plane_format(put_plane_format(put_plane_format(out, p0), p1), p2),
                p3,
            );
            &&& r.len() == out.len() + 80
            &&& begins_with(r, out)
            &&& plane_format_at(r, out.len() as int) == p0
            &&& plane_format_at(r, out.len() as int + 20) == p1
            &&& plane_format_at(r, out.len() as int + 40) == p2
            &&& plane_format_at(r, out.len() as int + 60) == p3
        }),
{
    let at = out.len() as int;
    let b0 = put_plane_format(out, p0);
    let b1 = put_plane_format(b0, p1);
    let b2 = put_plane_format(b1, p2);
    let b3 = put_plane_format(b2, p3);
    after_plane_format(out, p0);
    after_plane_format(b0, p1);
    after_plane_format(b1, p2);
    after_plane_format(b2, p3);
    assert(begins_with(b3, b2) && begins_with(b3, b1) && begins_with(b3, b0));
    plane_format_stays(b3, b0, at);
    plane_format_stays(b3, b1, at + 20);
    plane_format_stays(b3, b2, at + 40);
}

/// The numbers a multi-planar format begins with are read as they were written.
proof fn after_pix_mp_head(out: Seq<u8>, p: PixFormatMplane)
    ensures
        ({
            let r = put32(
                put32(put32(put32(put32(out, p.width), p.height), p.pixelformat), p.field),
                p.colorspace,
            );
            let at = out.len() as int;
            &&& r.len() == at + 20
            &&& begins_with(r, out)
            &&& le32(r, at) == p.width
            &&& le32(r, at + 4) == p.height
            &&& le32(r, at + 8) == p.pixelformat
            &&& le32(r, at + 12) == p.field
            &&& le32(r, at + 16) == p.colorspace
        }),
{
    let a1 = put32(out, p.width);
    let a2 = put32(a1, p.height);
    let a3 = put32(a2, p.pixelformat);
    let a4 = put32(a3, p.field);
    after_put32(out, p.width);
    after_put32(a1, p.height);
    after_put32(a2, p.pixelformat);
    after_put32(a3, p.field);
    after_put32(a4, p.colorspace);
}

/// The small numbers a multi-planar format ends with are read as they were written.
proof fn after_pix_mp_tail(c: Seq<u8>, p: PixFormatMplane)
    ensures
        ({
            let b = c.push(p.num_planes).push(p.flags).push(p.ycbcr_enc).push(p.quantization).push(
                p.xfer_func,
            ) + zeros(15);
            let at = c.len() as int;
            &&& b.len() == at + 20
            &&& begins_with(b, c)
            &&& b[at] == p.num_planes
            &&& b[at + 1] == p.flags
            &&& b[at + 2] == p.ycbcr_enc
            &&& b[at + 3] == p.quantization
            &&& b[at + 4] == p.xfer_func
        }),
{
}

/// Bytes that begin bytes that begin others begin those.
pub proof fn beginnings_chain(c: Seq<u8>, b: Seq<u8>, a: Seq<u8>)
    requires
        begins_with(c, b),
        begins_with(b, a),
    ensures
        begins_with(c, a),
{
    assert forall|k: int| 0 <= k < a.len() implies #[trigger] c[k] == a[k] by {
        assert(b[k] == a[k]);
    }
}

/// A multi-planar format is read from bytes made of its parts: the numbers it begins with, its
/// planes and the small numbers it ends with.
#[verifier::spinoff_prover]
proof fn pix_mp_of_its_parts(
    all: Seq<u8>,
    c: Seq<u8>,
    b: Seq<u8>,
    a: Seq<u8>,
    at: int,
    p: PixFormatMplane,
)
    requires
        begins_with(all, c),
        begins_with(c, b),
        begins_with(b, a),
        0 <= at,
        a.len() == at + 20,
        b.len() == at + 100,
        c.len() == at + 180,
        all.len() == at + 200,
        le32(a, at) == p.width,
        le32(a, at + 4) == p.height,
        le32(a, at + 8) == p.pixelformat,
        le32(a, at + 12) == p.field,
        le32(a, at + 16) == p.colorspace,
        plane_format_at(b, at + 20) == p.plane0,
        plane_format_at(b, at + 40) == p.more@[0],
        plane_format_at(b, at + 60) == p.more@[1],
        plane_format_at(b, at + 80) == p.more@[2],
        plane_format_at(c, at + 100) == p.more@[3],
        plane_format_at(c, at + 120) == p.more@[4],
        plane_format_at(c, at + 140) == p.more@[5],
        plane_format_at(c, at + 160) == p.more@[6],
        all[at + 180] == p.num_planes,
        all[at + 181] == p.flags,
        all[at + 182] == p.ycbcr_enc,
        all[at + 183] == p.quantization,
        all[at + 184] == p.xfer_func,
    ensures
        is_pix_mp_at(p, all, at),
{
    beginnings_chain(all, c, b);
    beginnings_chain(all, b, a);
    fields_stay(all, a);
    plane_format_stays(all, b, at + 20);
    plane_format_stays(all, b, at + 40);
    plane_format_stays(all, b, at + 60);
    plane_format_stays(all, b, at + 80);
    plane_format_stays(all, c, at + 100);
    plane_format_stays(all, c, at + 120);
    plane_format_stays(all, c, at + 140);
    plane_format_stays(all, c, at + 160);
    assert forall|i: int| 0 <= i < 7 implies #[trigger] p.more@[i] == plane_format_at(
        all,
        at + 40 + 20 * i,
    ) by {
        if i == 0 {
        } else if i == 1 {
        } else if i == 2 {
        } else if i == 3 {
        } else if i == 4 {
        } else if i == 5 {
        }
    }
}

/// A multi-planar format behind some bytes is read as it was written.
#[verifier::spinoff_prover]
pub proof fn after_pix_mp(out: Seq<u8>, p: PixFormatMplane)
    ensures
        put_pix_mp(out, p).len() == out.len() + 200,
        begins_with(put_pix_mp(out, p), out),
        is_pix_mp_at(p, put_pix_mp(out, p), out.len() as int),
{
    reveal(put_pix_mp);
    let at = out.len() as int;
    let a = put32(
        put32(put32(put32(put32(out, p.width), p.height), p.pixelformat), p.field),
        p.colorspace,
    );
    let m = p.more@;
    let b = put_plane_format(
        put_plane_format(put_plane_format(put_plane_format(a, p.plane0), m[0]), m[1]),
        m[2],
    );
    let c = put_plane_format(
        put_plane_format(put_plane_format(put_plane_format(b, m[3]), m[4]), m[5]),
        m[6],
    );
    after_pix_mp_head(out, p);
    after_four_plane_formats(a, p.plane0, m[0], m[1], m[2]);
    after_four_plane_formats(b, m[3], m[4], m[5], m[6]);
    after_pix_mp_tail(c, p);
    let all = put_pix_mp(out, p);
    pix_mp_of_its_parts(all, c, b, a, at, p);
    beginnings_chain(all, c, b);
    beginnings_chain(all, b, a);
    beginnings_chain(all, a, out);
}

/// A format written for a guest is the format the guest sends when it sends those bytes back.
#[verifier::spinoff_prover]
pub proof fn written_formats_are_read_back(f: V4l2Format)
    requires
        f.fmt is PixMp <==> (queue_of(f.type_ as int) matches Some(q) && q.multiplanar()),
    ensures
        put_format(Seq::empty(), f).len() == 208,
        is_format_at(f, put_format(Seq::empty(), f), 0),
{
    let z = Seq::<u8>::empty();
    let a1 = put32(z, f.type_);
    let a2 = a1 + zeros(4);
    after_put32(z, f.type_);
    after_zeros(a1, 4);
    let all = put_format(z, f);
    match f.fmt {
        FormatBody::PixMp(p) => {
            after_pix_mp(a2, p);
        },
        FormatBody::Raw(raw) => {
            assert(all.subrange(8, 208) =~= raw@);
        },
    }
    assert(begins_with(all, a2));
    fields_stay(all, a2);
}

/// An answer begins with its errno, zero where there is none.
pub proof fn answers_begin_with_the_errno(out: Seq<u8>, errno: i32)
    ensures
        ({
            let b = put_header(out, errno);
            &&& b.len() == out.len() + 8
            &&& le32(b, out.len() as int) == unsigned32(errno as int)
        }),
{
    let e = unsigned32(errno as int) as u32;
    after_put32(out, e);
    assert(put_signed(out, errno) == put32(out, e));
    after_put32(put32(out, e), 0);
}

/// The errno of an answer is the one it begins with, whatever else it tells.
#[verifier::spinoff_prover]
proof fn errnos_come_first(out: Seq<u8>, reply: IoctlReply)
    requires
        reply.errno() != 0,
    ensures
        put_reply(out, reply).len() >= out.len() + 8,
        le32(put_reply(out, reply), out.len() as int) == unsigned32(reply.errno() as int),
        reply is Refused ==> put_reply(out, reply) == put_header(out, reply.errno()),
{
    let h = put_header(out, reply.errno());
    answers_begin_with_the_errno(out, reply.errno());
    match reply {
        IoctlReply::RefusedControls { errno, ctrls, ctrl_array } => {
            let a = put_controls_header(h, ctrls);
            after_controls_header(h, ctrls);
            fields_stay(a, h);
            after_controls(a, ctrl_array@, ctrl_array@.len());
            let all = put_ext_control_array(a, ctrl_array@, ctrl_array@.len());
            fields_stay(all, a);
            assert(all == put_controls(h, ctrls, ctrl_array@));
        },
        _ => {},
    }
}

/// The errno a handler answers a request with is the errno of the response.
pub proof fn a_handlers_errno_is_answered<H: VirtioMediaIoctlHandler>(
    handler: H,
    session: H::Session,
    ioctl: V4l2Ioctl,
    input: Seq<u8>,
    before: Seq<u8>,
    request: Decoded,
    reply: IoctlReply,
    after: H,
    session2: H::Session,
    written: Seq<u8>,
)
    requires
        dispatched(
            handler,
            session,
            ioctl,
            input,
            before,
            request,
            reply,
            after,
            session2,
            written,
        ),
        reply.errno() != 0,
    ensures
        written.len() >= before.len() + 8,
        le32(written, before.len() as int) == unsigned32(reply.errno() as int),
{
    errnos_come_first(before, reply);
}

/// What cannot be read is never served: only the refusal is written, and neither the handler nor
/// the session changes.
pub proof fn unread_requests_are_not_served<H: VirtioMediaIoctlHandler>(
    handler: H,
    session: H::Session,
    ioctl: V4l2Ioctl,
    input: Seq<u8>,
    before: Seq<u8>,
    request: Decoded,
    reply: IoctlReply,
    after: H,
    session2: H::Session,
    written: Seq<u8>,
)
    requires
        dispatched(
            handler,
            session,
            ioctl,
            input,
            before,
            request,
            reply,
            after,
            session2,
            written,
        ),
        request is Err,
    ensures
        after == handler,
        session2 == session,
        written == put_reply(before, request->Err_0),
        request->Err_0.errno() == EINVAL || request->Err_0.errno() == ENOTTY,
{
}

/// A set of controls that cannot be read is `EINVAL` and nothing more, and is not served; one that
/// can be read, and is about values there are, is served as it was read.
pub proof fn controls_are_served_as_read<H: VirtioMediaIoctlHandler>(
    handler: H,
    session: H::Session,
    ioctl: V4l2Ioctl,
    input: Seq<u8>,
    before: Seq<u8>,
    request: Decoded,
    reply: IoctlReply,
    after: H,
    session2: H::Session,
    written: Seq<u8>,
)
    requires
        ioctl == V4l2Ioctl::VIDIOC_G_EXT_CTRLS || ioctl == V4l2Ioctl::VIDIOC_S_EXT_CTRLS || ioctl
            == V4l2Ioctl::VIDIOC_TRY_EXT_CTRLS,
        dispatched(
            handler,
            session,
            ioctl,
            input,
            before,
            request,
            reply,
            after,
            session2,
            written,
        ),
    ensures
        !controls_readable(input) ==> after == handler && session2 == session && written
            == put_header(before, EINVAL),
        controls_readable(input) && which_of(header_of(input)) is Some ==> {
            &&& request matches Ok(q) && handler.does(&session, q, &after, &session2, reply)
            &&& match request->Ok_0 {
                IoctlRequest::GExtCtrls { input: set, .. }
                | IoctlRequest::SExtCtrls { input: set, .. }
                | IoctlRequest::TryExtCtrls { input: set, .. } => is_guest_controls(set, input),
                _ => false,
            }
        },
{
}

/// A device that supports no ioctl answers `ENOTTY` to every request it is sent to prepare a
/// buffer that can be read, whatever payload and however many planes the buffer describes; a buffer
/// that cannot be read is `EINVAL`.
pub proof fn unsupported_buffers_are_enotty<H: VirtioMediaIoctlHandler>(
    handler: H,
    session: H::Session,
    input: Seq<u8>,
    before: Seq<u8>,
    request: Decoded,
    reply: IoctlReply,
    after: H,
    session2: H::Session,
    written: Seq<u8>,
)
    requires
        forall|q: IoctlRequest, r: IoctlReply| #[trigger]
            handler.does(&session, q, &after, &session2, r) ==> unsupported(q, r),
        dispatched(
            handler,
            session,
            V4l2Ioctl::VIDIOC_PREPARE_BUF,
            input,
            before,
            request,
            reply,
            after,
            session2,
            written,
        ),
    ensures
        written == put_header(
            before,
            if buffer_readable(input) {
                ENOTTY
            } else {
                EINVAL
            },
        ),
{
}

/// A buffer whose queue and memory exist is read whatever its planes say of their payloads: a
/// multi-planar one where its one to eight plane descriptions are all there, another always.
pub proof fn payloads_do_not_matter_to_reading(b: Seq<u8>, queue: QueueType, memory: MemoryType)
    requires
        b.len() >= 88,
        queue_of(le32(b, 4)) == Some(queue),
        memory_of(le32(b, 60)) == Some(memory),
        memory != MemoryType::UserPtr,
    ensures
        buffer_readable(b) <==> !queue.multiplanar() || (1 <= le32(b, 72) <= VIDEO_MAX_PLANES
            && b.len() >= 88 + 64 * le32(b, 72)),
{
}

/// A device that supports no ioctl answers `ENOTTY` to every request that can be read; a set of
/// controls goes back with it as it was.
pub proof fn unsupported_requests_are_enotty<H: VirtioMediaIoctlHandler>(
    handler: H,
    session: H::Session,
    ioctl: V4l2Ioctl,
    input: Seq<u8>,
    before: Seq<u8>,
    request: Decoded,
    reply: IoctlReply,
    after: H,
    session2: H::Session,
    written: Seq<u8>,
)
    requires
        forall|q: IoctlRequest, r: IoctlReply| #[trigger]
            handler.does(&session, q, &after, &session2, r) ==> unsupported(q, r),
        dispatched(
            handler,
            session,
            ioctl,
            input,
            before,
            request,
            reply,
            after,
            session2,
            written,
        ),
        request is Ok,
    ensures
        written.len() >= before.len() + 8,
        le32(written, before.len() as int) == 25,
        reply is Refused ==> written.len() == before.len() + 8,
        reply is Refused || reply is RefusedControls,
        request->Ok_0 matches IoctlRequest::GExtCtrls { input: set, .. } ==> {
            &&& reply is RefusedControls
            &&& reply->RefusedControls_ctrls == set.ctrls
            &&& reply->RefusedControls_ctrl_array@ == set.ctrl_array@
        },
{
    errnos_come_first(before, reply);
    answers_begin_with_the_errno(before, ENOTTY);
}

/// The answer about a buffer tells as many planes as the request has room for.
pub proof fn buffers_are_answered_with_their_planes<H: VirtioMediaIoctlHandler>(
    handler: H,
    session: H::Session,
    ioctl: V4l2Ioctl,
    input: Seq<u8>,
    before: Seq<u8>,
    request: Decoded,
    reply: IoctlReply,
    after: H,
    session2: H::Session,
    written: Seq<u8>,
)
    requires
        ioctl == V4l2Ioctl::VIDIOC_QUERYBUF || ioctl == V4l2Ioctl::VIDIOC_QBUF || ioctl
            == V4l2Ioctl::VIDIOC_PREPARE_BUF,
        le32(input, 4) == 9 || le32(input, 4) == 10,
        dispatched(
            handler,
            session,
            ioctl,
            input,
            before,
            request,
            reply,
            after,
            session2,
            written,
        ),
    ensures
        reply is Buffer || reply is Refused,
        reply matches IoctlReply::Buffer { buffer, planes } ==> planes == le32(input, 72) && written
            == put_reply(before, IoctlReply::Buffer { buffer, planes }),
{
}

} // verus!
