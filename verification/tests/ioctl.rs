//! Ioctls as they travel: scatter lists, buffers, sets of controls, requests and answers.
use virtio_media::bytes::ChainReader;
use virtio_media::formats::{FormatBody, SelectionTarget, SelectionType, StreamParm, V4l2Format};
use virtio_media::ioctl::codes::V4l2Ioctl;
use virtio_media::ioctl::handler::{
    ext_ctrls_response, not_supported, virtio_media_dispatch_ioctl, VirtioMediaIoctlHandler,
};
use virtio_media::ioctl::read::{
    get_userptr_regions, GuestControls, GuestV4l2Buffer, InvalidData, MAX_SG_ENTRIES,
};
use virtio_media::ioctl::reply::{write_reply, IoctlReply};
use virtio_media::ioctl::requests::{
    decode, AudioMode, IoctlRequest, TunerMode, TunerTransmissionFlags, TunerType,
};
use virtio_media::ioctl::types::{
    parse_ctrl_id_and_flags, Control, CreateBuffers, CtrlWhich, EventType, ExtControl, ExtControls,
    FmtDesc, Fract, FrmIvalEnum, FrmSizeEnum, QueryCtrl, QueryCtrlFlags,
    QueryExtCtrl, QueryMenu, RequestBuffers, SelectionFlags,
};
use virtio_media::payload::PayloadValidity;
use virtio_media::protocol::SgEntry;
use virtio_media::v4l2::{
    MemoryType, QueueDirection, QueueType, Rect, Timeval, V4l2Buffer, V4l2Plane,
    VIDEO_MAX_PLANES,
};

/// Scatter list entries the way the guest puts them on the descriptor chain.
fn sg_bytes(entries: &[(u64, u32)]) -> Vec<u8> {
    let mut out = Vec::new();
    for &(start, len) in entries {
        out.extend_from_slice(&start.to_le_bytes());
        out.extend_from_slice(&len.to_le_bytes());
        out.extend_from_slice(&[0; 4]);
    }
    out
}

fn regions(bytes: &[u8], size: usize) -> Result<Vec<SgEntry>, InvalidData> {
    get_userptr_regions(&mut ChainReader::new(bytes), size)
}

#[test]
fn userptr_regions_are_read_up_to_size() {
    let bytes = sg_bytes(&[(0x1000, 0x1000), (0x3000, 0x800)]);
    let regions = regions(&bytes, 0x1800).unwrap();
    assert_eq!(regions.len(), 2);
    assert_eq!((regions[0].start, regions[0].len), (0x1000, 0x1000));
    assert_eq!((regions[1].start, regions[1].len), (0x3000, 0x800));
}

#[test]
fn zero_length_sg_entry_is_refused_instead_of_spinning() {
    let bytes = sg_bytes(&[(0x1000, 0)]);
    assert!(regions(&bytes, 0x1000).is_err());
}

#[test]
fn sg_list_is_capped() {
    let entries: Vec<(u64, u32)> = (0..(MAX_SG_ENTRIES as u64 + 1))
        .map(|i| (i * 0x1000, 0x1000))
        .collect();
    let bytes = sg_bytes(&entries);
    let too_much = (MAX_SG_ENTRIES + 1) * 0x1000;
    assert!(regions(&bytes, too_much).is_err());
    let just_enough = MAX_SG_ENTRIES * 0x1000;
    assert_eq!(regions(&bytes, just_enough).unwrap().len(), MAX_SG_ENTRIES);
}

#[test]
fn a_scatter_list_ends_where_its_size_is_covered() {
    let bytes = sg_bytes(&[(0x1000, 0x1000), (0x3000, 0x800), (0x5000, 1)]);
    let mut reader = ChainReader::new(&bytes);
    assert_eq!(get_userptr_regions(&mut reader, 0x1001).unwrap().len(), 2);
    assert_eq!(reader.pos, 32);
    // Nothing to cover, nothing read.
    assert_eq!(get_userptr_regions(&mut reader, 0).unwrap().len(), 0);
    assert_eq!(reader.pos, 32);
    // A list that ends before its size is covered.
    assert_eq!(get_userptr_regions(&mut reader, 2), Err(InvalidData));
}

/// A device that implements no ioctl at all.
struct NoopHandler;

impl VirtioMediaIoctlHandler for NoopHandler {
    type Session = ();

    fn does(&self, _: &(), _: IoctlRequest, _: &Self, _: &(), reply: IoctlReply) -> bool {
        matches!(
            reply,
            IoctlReply::Refused { .. } | IoctlReply::RefusedControls { .. }
        )
    }

    fn serve(&mut self, _: &mut (), request: IoctlRequest) -> IoctlReply {
        not_supported(request)
    }
}

fn dispatch(ioctl: V4l2Ioctl, bytes: &[u8]) -> Vec<u8> {
    let mut out = Vec::new();
    virtio_media_dispatch_ioctl(
        &mut NoopHandler,
        &mut (),
        ioctl,
        &mut ChainReader::new(bytes),
        &mut out,
    );
    out
}

fn errno(out: &[u8]) -> i32 {
    i32::from_le_bytes(out[0..4].try_into().unwrap())
}

fn dispatch_prepare_buf(bytes: &[u8]) -> i32 {
    errno(&dispatch(V4l2Ioctl::VIDIOC_PREPARE_BUF, bytes))
}

fn put(out: &mut [u8], at: usize, v: u32) {
    out[at..at + 4].copy_from_slice(&v.to_le_bytes());
}

fn buffer_bytes(queue: QueueType, memory: MemoryType, length: u32) -> Vec<u8> {
    let mut out = vec![0u8; 88];
    put(&mut out, 4, queue.to_u32());
    put(&mut out, 60, memory.to_u32());
    put(&mut out, 72, length);
    out
}

fn plane_bytes(bytesused: u32, length: u32, data_offset: u32) -> Vec<u8> {
    let mut out = vec![0u8; 64];
    put(&mut out, 0, bytesused);
    put(&mut out, 4, length);
    put(&mut out, 16, data_offset);
    out
}

/// One buffer on the wire: multi-planar OUTPUT, MMAP, one plane with `bytesused` and `length`.
fn mplane_buffer_bytes(bytesused: u32, length: u32) -> Vec<u8> {
    let mut out = buffer_bytes(QueueType::VideoOutputMplane, MemoryType::Mmap, 1);
    out.extend(plane_bytes(bytesused, length, 0));
    out
}

/// An ioctl a device does not implement answers `ENOTTY` whatever the guest sent.
#[test]
fn an_unimplemented_ioctl_is_enotty_for_a_malformed_payload_too() {
    assert_eq!(
        dispatch_prepare_buf(&mplane_buffer_bytes(0, 4096)),
        libc::ENOTTY
    );
    // A payload the buffer cannot hold is cleared by the reader.
    assert_eq!(
        dispatch_prepare_buf(&mplane_buffer_bytes(4097, 4096)),
        libc::ENOTTY
    );
    // A buffer that is not addressable at all is still `EINVAL`: there is no ioctl to run.
    let mut broken = mplane_buffer_bytes(0, 4096);
    broken[4..8].copy_from_slice(&0xdead_beefu32.to_le_bytes());
    assert_eq!(dispatch_prepare_buf(&broken), libc::EINVAL);
}

/// One buffer on the wire with a plane array of `length` entries: the first a real 4096-byte plane,
/// the rest the zeroed tail a client leaves behind it.
fn mplane_buffer_with_plane_array(length: u32) -> Vec<u8> {
    let mut out = buffer_bytes(QueueType::VideoOutputMplane, MemoryType::Mmap, length);
    for i in 0..length {
        out.extend(plane_bytes(0, if i == 0 { 4096 } else { 0 }, 0));
    }
    out
}

/// `length` is the size of the guest's plane array, not the number of planes the format uses, and
/// exactly eight entries are allowed.
#[test]
fn a_plane_array_of_video_max_planes_reaches_the_device() {
    for length in 1..=VIDEO_MAX_PLANES {
        assert_eq!(
            dispatch_prepare_buf(&mplane_buffer_with_plane_array(length)),
            libc::ENOTTY,
            "a plane array of {} entries never reached the handler",
            length
        );
    }
    // One entry more than a buffer can hold is refused by the reader, before any handler is
    // asked: there is no buffer to run an ioctl on.
    assert_eq!(
        dispatch_prepare_buf(&mplane_buffer_with_plane_array(VIDEO_MAX_PLANES + 1)),
        libc::EINVAL
    );
}

/// The dirty stack a client leaves in the planes behind the first, as `(bytesused, length,
/// data_offset)`. The second triple happens to be self-consistent, which is exactly why the reader
/// must judge the slots one at a time.
const DIRTY_TAIL: [(u32, u32, u32); 7] = [
    (1, 3425573041, 119),
    (119, 3750202224, 1),
    (3019899000, 912, 3133457408),
    (2626962592, 44344, 4294967295),
    (3019899000, 912, 3133457408),
    (2626962592, 44344, 4294967295),
    (3019899000, 912, 3133457408),
];

fn ffmpeg_qbuf_bytes(queue: QueueType, memory: MemoryType, plane0: (u32, u32)) -> Vec<u8> {
    let mut out = buffer_bytes(queue, memory, VIDEO_MAX_PLANES);
    out.extend(plane_bytes(plane0.0, plane0.1, 0));
    for (bytesused, length, data_offset) in DIRTY_TAIL {
        out.extend(plane_bytes(bytesused, length, data_offset));
    }
    out
}

fn read_buffer(bytes: &[u8]) -> Result<GuestV4l2Buffer, InvalidData> {
    GuestV4l2Buffer::read_from_chain(&mut ChainReader::new(bytes))
}

/// The reader judges each plane slot on its own, so a device can apply its queue's plane count to
/// the answer.
#[test]
fn each_plane_slot_is_judged_on_its_own() {
    let bytes = ffmpeg_qbuf_bytes(
        QueueType::VideoCaptureMplane,
        MemoryType::Mmap,
        (0, 1382400),
    );
    let read = read_buffer(&bytes).ok().unwrap();

    // The plane the format actually has was taken as sent, so a one-plane queue accepts it.
    assert!(read.payload.plane_is_valid(0));
    assert!(read.payload.planes_are_valid(1));
    assert_eq!(read.buffer.first_plane_length(), 1382400);
    // The dirty tail: slots 1, 3 and 4 (and 5..7, which repeat them) are not descriptions this
    // buffer could hold, slot 2's triple happens to be self-consistent.
    for plane in [1, 3, 4, 5, 6, 7] {
        assert!(!read.payload.plane_is_valid(plane), "slot {plane}");
    }
    assert!(read.payload.plane_is_valid(2));
    assert!(
        !read.payload.planes_are_valid(2),
        "slot 1 is in the first two"
    );
    assert_ne!(read.payload, PayloadValidity::all());

    // Only the slots it could not represent were zeroed; plane 0's numbers survive.
    let planes = read.buffer.as_v4l2_planes();
    assert_eq!((planes[0].bytesused, planes[0].length), (0, 1382400));
    assert_eq!((planes[1].bytesused, planes[1].data_offset), (0, 0));
    assert_eq!((planes[2].bytesused, planes[2].data_offset), (119, 1));
    assert_eq!((planes[3].bytesused, planes[3].data_offset), (0, 0));

    // Garbage in plane 0 is the one an output queue must still refuse.
    let bad = ffmpeg_qbuf_bytes(
        QueueType::VideoOutputMplane,
        MemoryType::Mmap,
        (4097, 4096),
    );
    let read = read_buffer(&bad).ok().unwrap();
    assert!(!read.payload.plane_is_valid(0));
    assert!(!read.payload.planes_are_valid(1));
    assert_eq!(read.buffer.first_plane_bytesused(), 0);
}

/// The rule the devices apply to what the reader reports, both halves of it.
#[test]
fn payload_validity_follows_verify_length() {
    let dirty_tail = PayloadValidity::all().without(1).without(3);
    // A one-plane format never looks past slot 0.
    assert!(dirty_tail.is_accepted_by(QueueDirection::Output, MemoryType::UserPtr, 1));
    assert!(!dirty_tail.is_accepted_by(QueueDirection::Output, MemoryType::UserPtr, 2));
    // Plane 0 is the bitstream length on an output queue, whatever the memory type.
    let bad_plane_0 = PayloadValidity::all().without(0);
    for memory in [MemoryType::Mmap, MemoryType::UserPtr] {
        assert!(!bad_plane_0.is_accepted_by(QueueDirection::Output, memory, 1));
    }
    // A capture `MMAP` buffer's payload is the device's to report, so the guest's is ignored.
    assert!(bad_plane_0.is_accepted_by(QueueDirection::Capture, MemoryType::Mmap, 1));
    // A `USERPTR` capture buffer is held to the stricter rule these devices keep.
    assert!(!bad_plane_0.is_accepted_by(QueueDirection::Capture, MemoryType::UserPtr, 1));
    // A count no plane array could satisfy is never valid.
    assert!(!PayloadValidity::all().is_accepted_by(QueueDirection::Output, MemoryType::Mmap, 9));
}

/// A multi-planar buffer with an empty plane array is not a buffer: the reader refuses it before
/// any device can reach for a plane.
#[test]
fn a_multiplanar_buffer_with_no_plane_is_refused_by_the_reader() {
    let bytes = buffer_bytes(QueueType::VideoCaptureMplane, MemoryType::Mmap, 0);
    assert!(read_buffer(&bytes).is_err());
    assert_eq!(dispatch_prepare_buf(&bytes), libc::EINVAL);

    // A single-planar buffer has no plane array to be empty, and is unaffected.
    let bytes = buffer_bytes(QueueType::VideoCapture, MemoryType::Mmap, 0);
    assert!(read_buffer(&bytes).is_ok());
}

#[test]
fn a_single_planar_payload_is_judged_on_the_buffer() {
    let mut bytes = buffer_bytes(QueueType::VideoOutput, MemoryType::Mmap, 4096);
    put(&mut bytes, 8, 4096);
    let read = read_buffer(&bytes).ok().unwrap();
    assert_eq!(read.buffer.bytesused, 4096);
    assert_eq!(read.payload, PayloadValidity::all());
    put(&mut bytes, 8, 4097);
    let read = read_buffer(&bytes).ok().unwrap();
    assert_eq!(read.buffer.bytesused, 0);
    assert_eq!(read.payload, PayloadValidity::all().without(0));
    assert_eq!(read.buffer.num_planes(), 1);
    assert!(read.buffer.as_v4l2_planes().is_empty());
    // No such memory type; a buffer cut short.
    put(&mut bytes, 60, 5);
    assert!(read_buffer(&bytes).is_err());
    assert!(read_buffer(&bytes[..87]).is_err());
}

#[test]
fn a_data_offset_outside_the_payload_is_cleared() {
    let judged = |bytesused, length, data_offset| {
        let mut bytes = buffer_bytes(QueueType::VideoOutputMplane, MemoryType::Mmap, 1);
        bytes.extend(plane_bytes(bytesused, length, data_offset));
        let read = read_buffer(&bytes).ok().unwrap();
        (
            read.payload.plane_is_valid(0),
            read.buffer.plane0.bytesused,
            read.buffer.plane0.data_offset,
        )
    };
    assert_eq!(judged(100, 4096, 99), (true, 100, 99));
    assert_eq!(judged(100, 4096, 100), (false, 0, 0));
    // Where no payload is declared the offset is held to the length.
    assert_eq!(judged(0, 4096, 4095), (true, 0, 4095));
    assert_eq!(judged(0, 4096, 4096), (false, 0, 0));
}

/// The scatter lists of a guest-owned buffer follow its plane array, one for each plane with
/// bytes.
#[test]
fn the_scatter_lists_of_userptr_planes_are_read() {
    let mut bytes = buffer_bytes(QueueType::VideoOutputMplane, MemoryType::UserPtr, 3);
    bytes.extend(plane_bytes(0, 0x1800, 0));
    bytes.extend(plane_bytes(0, 0, 0));
    bytes.extend(plane_bytes(0, 0x10, 0));
    let lists = sg_bytes(&[(0x1000, 0x1000), (0x3000, 0x800), (0x9000, 0x10)]);
    bytes.extend(&lists);
    let read = read_buffer(&bytes).ok().unwrap();
    assert_eq!(
        read.guest_regions,
        vec![
            vec![SgEntry::new(0x1000, 0x1000), SgEntry::new(0x3000, 0x800)],
            vec![SgEntry::new(0x9000, 0x10)],
        ]
    );
    assert_eq!(read.buffer.num_planes(), 3);
    // The second list is missing.
    assert!(read_buffer(&bytes[..bytes.len() - 16]).is_err());
}

fn controls_bytes(which: u32, ids: &[(u32, u32, i32)]) -> Vec<u8> {
    let mut out = vec![0u8; 32];
    put(&mut out, 0, which);
    put(&mut out, 4, ids.len() as u32);
    put(&mut out, 8, 0x55);
    put(&mut out, 12, (-1i32) as u32);
    for &(id, size, value) in ids {
        let mut c = vec![0u8; 20];
        put(&mut c, 0, id);
        put(&mut c, 4, size);
        put(&mut c, 12, value as u32);
        out.extend(c);
    }
    out
}

#[test]
fn a_set_of_controls_is_read_with_its_payloads() {
    let mut bytes = controls_bytes(0x99_0000, &[(0x99_09cb, 0, -7), (0x99_09cf, 8, 1)]);
    bytes.extend(sg_bytes(&[(0x4000, 8)]));
    let read = GuestControls::read_from_chain(&mut ChainReader::new(&bytes))
        .ok()
        .unwrap();
    assert_eq!(
        read.ctrls,
        ExtControls {
            which: 0x99_0000,
            count: 2,
            error_idx: 0x55,
            request_fd: -1,
            reserved: 0
        }
    );
    assert_eq!(read.ctrl_array.len(), 2);
    assert_eq!(read.ctrl_array[0].value(), -7);
    assert_eq!(read.user_regions, vec![vec![SgEntry::new(0x4000, 8)]]);
    // The scatter list, then the second control, cut off.
    for cut in [bytes.len() - 1, 71, 31] {
        assert!(GuestControls::read_from_chain(&mut ChainReader::new(&bytes[..cut])).is_err());
    }
}

/// A refused set of controls goes back with its header, in which the driver finds the index of
/// the control that caused the error.
#[test]
fn a_failed_ext_ctrls_writes_the_header_back_with_error_idx() {
    let ids = [(0x99_09cb, 0, 3), (0x99_09cf, 0, 4)];
    // A set the device does not serve at all: the header as it was sent.
    let out = dispatch(
        V4l2Ioctl::VIDIOC_S_EXT_CTRLS,
        &controls_bytes(0x99_0000, &ids),
    );
    assert_eq!(errno(&out), libc::ENOTTY);
    assert_eq!(out.len(), 8 + 32 + 2 * 20);
    assert_eq!(out[8..40], controls_bytes(0x99_0000, &ids)[..32]);
    // A set about no values there are: `EINVAL`, with the count, or for a try the first control.
    for (ioctl, index) in [
        (V4l2Ioctl::VIDIOC_G_EXT_CTRLS, 2),
        (V4l2Ioctl::VIDIOC_S_EXT_CTRLS, 2),
        (V4l2Ioctl::VIDIOC_TRY_EXT_CTRLS, 0),
    ] {
        let out = dispatch(ioctl, &controls_bytes(0x0f02_0000, &ids));
        assert_eq!(errno(&out), libc::EINVAL);
        assert_eq!(out.len(), 8 + 32 + 2 * 20);
        assert_eq!(u32::from_le_bytes(out[16..20].try_into().unwrap()), index);
    }
    // A set that is cut short has no header to give back.
    assert_eq!(
        dispatch(
            V4l2Ioctl::VIDIOC_S_EXT_CTRLS,
            &controls_bytes(0x99_0000, &ids)[..50]
        )
        .len(),
        8
    );
}

#[test]
fn the_answer_to_a_set_of_controls_carries_it() {
    let ctrls = ExtControls {
        which: 0,
        count: 1,
        error_idx: 1,
        request_fd: 0,
        reserved: 0,
    };
    assert!(matches!(
        ext_ctrls_response(ctrls, vec![ExtControl::new(7, 9)], Ok(())),
        IoctlReply::Controls { .. }
    ));
    match ext_ctrls_response(ctrls, vec![ExtControl::new(7, 9)], Err(libc::EACCES)) {
        IoctlReply::RefusedControls {
            errno,
            ctrls,
            ctrl_array,
        } => {
            assert_eq!((errno, ctrls.error_idx, ctrl_array[0].value()), (libc::EACCES, 1, 9));
        }
        _ => panic!("an error without its controls"),
    }
}

fn ask(ioctl: V4l2Ioctl, bytes: &[u8]) -> Result<IoctlRequest, i32> {
    match decode(ioctl, &mut ChainReader::new(bytes)) {
        Ok(request) => Ok(request),
        Err(IoctlReply::Refused { errno }) => Err(errno),
        Err(_) => panic!("an answer with a payload"),
    }
}

/// Each structure is read where the kernel has its fields, and not from a chain too short for it.
#[test]
fn requests_are_read_field_by_field() {
    let words = |n: usize, fields: &[(usize, u32)]| {
        let mut out = vec![0u8; n];
        for &(at, v) in fields {
            put(&mut out, at, v);
        }
        out
    };
    let b = words(64, &[(0, 3), (4, 9)]);
    assert!(matches!(
        ask(V4l2Ioctl::VIDIOC_ENUM_FMT, &b),
        Ok(IoctlRequest::EnumFmt { queue: QueueType::VideoCaptureMplane, index: 3 })
    ));
    assert_eq!(
        ask(V4l2Ioctl::VIDIOC_ENUM_FMT, &b[..63]).err(),
        Some(libc::EINVAL)
    );
    let b = words(20, &[(0, 5), (4, 10), (8, 2)]);
    assert!(matches!(
        ask(V4l2Ioctl::VIDIOC_REQBUFS, &b),
        Ok(IoctlRequest::ReqBufs {
            queue: QueueType::VideoOutputMplane,
            memory: MemoryType::UserPtr,
            count: 5
        })
    ));
    for memory in [0, 3, 4, 5] {
        let b = words(20, &[(0, 5), (4, 10), (8, memory)]);
        assert_eq!(ask(V4l2Ioctl::VIDIOC_REQBUFS, &b).err(), Some(libc::EINVAL));
    }
    let b = words(88, &[(0, 1), (4, 9), (72, 6)]);
    assert!(matches!(
        ask(V4l2Ioctl::VIDIOC_QUERYBUF, &b),
        Ok(IoctlRequest::QueryBuf { index: 1, planes: 6, .. })
    ));
    let b = words(88, &[(0, 1), (4, 1), (72, 6)]);
    assert!(matches!(
        ask(V4l2Ioctl::VIDIOC_QUERYBUF, &b),
        Ok(IoctlRequest::QueryBuf { planes: 0, .. })
    ));
    assert!(matches!(
        ask(V4l2Ioctl::VIDIOC_STREAMON, &words(4, &[(0, 10)])),
        Ok(IoctlRequest::StreamOn { queue: QueueType::VideoOutputMplane })
    ));
    assert_eq!(
        ask(V4l2Ioctl::VIDIOC_STREAMOFF, &words(4, &[(0, 15)])).err(),
        Some(libc::EINVAL)
    );
    let b = words(204, &[(0, 10), (4, 1), (8, 2), (12, 3), (16, 4), (20, 5), (24, 6)]);
    match ask(V4l2Ioctl::VIDIOC_S_PARM, &b) {
        Ok(IoctlRequest::SParm { parm }) => assert_eq!(
            parm,
            StreamParm {
                type_: 10,
                capability: 1,
                mode: 2,
                numerator: 3,
                denominator: 4,
                extendedmode: 5,
                buffers: 0
            }
        ),
        _ => panic!("not a stream parameter"),
    }
    assert!(matches!(
        ask(V4l2Ioctl::VIDIOC_S_STD, &words(8, &[(0, 1), (4, 2)])),
        Ok(IoctlRequest::SStd { std: 0x2_0000_0001 })
    ));
    assert!(matches!(
        ask(V4l2Ioctl::VIDIOC_S_CTRL, &words(8, &[(0, 7), (4, 0xffff_fffe)])),
        Ok(IoctlRequest::SCtrl { id: 7, value: -2 })
    ));
    for (mode, expected) in [
        (0, Some(TunerMode::Mono)),
        (1, Some(TunerMode::Stereo)),
        (2, Some(TunerMode::Lang2)),
        (3, Some(TunerMode::Lang1)),
        (4, Some(TunerMode::Lang1Lang2)),
        (5, None),
    ] {
        match (
            ask(V4l2Ioctl::VIDIOC_S_TUNER, &words(84, &[(56, mode)])),
            expected,
        ) {
            (Ok(IoctlRequest::STuner { index: 0, mode }), Some(expected)) => {
                assert_eq!(mode, expected)
            }
            (Err(e), None) => assert_eq!(e, libc::EINVAL),
            _ => panic!("tuner mode {mode}"),
        }
    }
    assert!(matches!(
        ask(V4l2Ioctl::VIDIOC_S_AUDIO, &words(52, &[(0, 2), (40, 1)])),
        Ok(IoctlRequest::SAudio { index: 2, mode: Some(AudioMode::Avl) })
    ));
    assert!(matches!(
        ask(V4l2Ioctl::VIDIOC_S_AUDIO, &words(52, &[(40, 2)])),
        Ok(IoctlRequest::SAudio { mode: None, .. })
    ));
    assert!(matches!(
        ask(V4l2Ioctl::VIDIOC_S_MODULATOR, &words(68, &[(0, 1), (48, 0x1f)])),
        Ok(IoctlRequest::SModulator { index: 1, flags: TunerTransmissionFlags(0x1f) })
    ));
    assert_eq!(
        ask(V4l2Ioctl::VIDIOC_S_MODULATOR, &words(68, &[(48, 0x20)])).err(),
        Some(libc::EINVAL)
    );
    for (type_, expected) in [
        (1, TunerType::Radio),
        (2, TunerType::AnalogTv),
        (3, TunerType::DigitalTv),
        (4, TunerType::Sdr),
        (5, TunerType::Rf),
    ] {
        match ask(
            V4l2Ioctl::VIDIOC_S_FREQUENCY,
            &words(44, &[(0, 1), (4, type_), (8, 99)]),
        ) {
            Ok(IoctlRequest::SFrequency { tuner: 1, type_, frequency: 99 }) => {
                assert_eq!(type_, expected)
            }
            _ => panic!("tuner type {type_}"),
        }
    }
    assert_eq!(
        ask(V4l2Ioctl::VIDIOC_ENUM_FREQ_BANDS, &words(64, &[(4, 0)])).err(),
        Some(libc::EINVAL)
    );
    assert!(matches!(
        ask(
            V4l2Ioctl::VIDIOC_ENUM_FRAMEINTERVALS,
            &words(52, &[(0, 1), (4, 2), (8, 3), (12, 4)])
        ),
        Ok(IoctlRequest::EnumFrameIntervals { index: 1, pixel_format: 2, width: 3, height: 4 })
    ));
    assert!(matches!(
        ask(V4l2Ioctl::VIDIOC_SUBSCRIBE_EVENT, &words(32, &[(0, 3), (4, 9), (8, 1)])),
        Ok(IoctlRequest::SubscribeEvent { event: EventType::Ctrl(9), .. })
    ));
    assert_eq!(
        ask(V4l2Ioctl::VIDIOC_SUBSCRIBE_EVENT, &words(32, &[(0, 7)])).err(),
        Some(libc::EINVAL)
    );
    assert_eq!(
        ask(V4l2Ioctl::VIDIOC_SUBSCRIBE_EVENT, &words(32, &[(0, 2), (8, 4)])).err(),
        Some(libc::EINVAL)
    );
    let b = words(
        64,
        &[(0, 2), (4, 0x100), (8, 7), (12, 0xffff_ffff), (16, 1), (20, 2), (24, 3)],
    );
    match ask(V4l2Ioctl::VIDIOC_S_SELECTION, &b) {
        Ok(IoctlRequest::SSelection { sel_type, sel_target, sel_rect, sel_flags, raw }) => {
            assert_eq!(sel_type, SelectionType::Output);
            assert_eq!(sel_target, SelectionTarget::Compose);
            assert_eq!(sel_rect, Rect { left: -1, top: 1, width: 2, height: 3 });
            assert_eq!(sel_flags, SelectionFlags(7));
            assert_eq!(raw[..], b[..]);
        }
        _ => panic!("not a selection"),
    }
    for bad in [
        words(64, &[(0, 3)]),
        words(64, &[(0, 1), (4, 4)]),
        words(64, &[(0, 1), (8, 8)]),
    ] {
        assert_eq!(ask(V4l2Ioctl::VIDIOC_S_SELECTION, &bad).err(), Some(libc::EINVAL));
    }
    // The flags are not looked at where a rectangle is only asked for.
    assert!(ask(V4l2Ioctl::VIDIOC_G_SELECTION, &words(64, &[(0, 1), (8, 8)])).is_ok());
}

#[test]
fn formats_are_read_by_the_queue_they_are_for() {
    let mut b = vec![0u8; 208];
    put(&mut b, 0, 9);
    for (i, at) in (8..28).step_by(4).enumerate() {
        put(&mut b, at, 100 + i as u32);
    }
    put(&mut b, 28, 7);
    put(&mut b, 32, 8);
    put(&mut b, 8 + 160, 77);
    b[188] = 1;
    b[189] = 2;
    b[190] = 3;
    b[191] = 4;
    b[192] = 5;
    match ask(V4l2Ioctl::VIDIOC_S_FMT, &b) {
        Ok(IoctlRequest::SFmt { queue, format }) => {
            assert_eq!(queue, QueueType::VideoCaptureMplane);
            match format.fmt {
                FormatBody::PixMp(p) => {
                    assert_eq!(
                        (p.width, p.height, p.pixelformat, p.field, p.colorspace),
                        (100, 101, 102, 103, 104)
                    );
                    assert_eq!((p.plane0.sizeimage, p.plane0.bytesperline), (7, 8));
                    assert_eq!(p.more[6].sizeimage, 77);
                    assert_eq!(
                        (p.num_planes, p.flags, p.ycbcr_enc, p.quantization, p.xfer_func),
                        (1, 2, 3, 4, 5)
                    );
                }
                FormatBody::Raw(_) => panic!("a multi-planar format"),
            }
        }
        _ => panic!("not a format"),
    }
    put(&mut b, 0, 1);
    match ask(V4l2Ioctl::VIDIOC_TRY_FMT, &b) {
        Ok(IoctlRequest::TryFmt { format: V4l2Format { fmt: FormatBody::Raw(raw), .. }, .. }) => {
            assert_eq!(raw[..], b[8..208])
        }
        _ => panic!("not a raw format"),
    }
    let mut c = vec![0u8; 256];
    put(&mut c, 4, 3);
    put(&mut c, 8, 1);
    put(&mut c, 16, 9);
    put(&mut c, 16 + 8, 640);
    match ask(V4l2Ioctl::VIDIOC_CREATE_BUFS, &c) {
        Ok(IoctlRequest::CreateBufs { count: 3, memory: MemoryType::Mmap, format, .. }) => {
            assert!(matches!(format.fmt, FormatBody::PixMp(p) if p.width == 640))
        }
        _ => panic!("not a creation"),
    }
}

/// What a virtual device cannot offer is `ENOTTY` without a look at what was sent.
#[test]
fn ioctls_no_device_serves_are_enotty() {
    for ioctl in [
        V4l2Ioctl::VIDIOC_QUERYCAP,
        V4l2Ioctl::VIDIOC_G_FBUF,
        V4l2Ioctl::VIDIOC_S_FBUF,
        V4l2Ioctl::VIDIOC_OVERLAY,
        V4l2Ioctl::VIDIOC_EXPBUF,
        V4l2Ioctl::VIDIOC_DQBUF,
        V4l2Ioctl::VIDIOC_G_EDID,
        V4l2Ioctl::VIDIOC_S_EDID,
        V4l2Ioctl::VIDIOC_CROPCAP,
        V4l2Ioctl::VIDIOC_G_CROP,
        V4l2Ioctl::VIDIOC_S_CROP,
        V4l2Ioctl::VIDIOC_G_JPEGCOMP,
        V4l2Ioctl::VIDIOC_S_JPEGCOMP,
        V4l2Ioctl::VIDIOC_G_PRIORITY,
        V4l2Ioctl::VIDIOC_S_PRIORITY,
        V4l2Ioctl::VIDIOC_G_SLICED_VBI_CAP,
        V4l2Ioctl::VIDIOC_LOG_STATUS,
        V4l2Ioctl::VIDIOC_DBG_G_REGISTER,
        V4l2Ioctl::VIDIOC_DBG_S_REGISTER,
        V4l2Ioctl::VIDIOC_S_HW_FREQ_SEEK,
        V4l2Ioctl::VIDIOC_DQEVENT,
        V4l2Ioctl::VIDIOC_DBG_G_CHIP_INFO,
    ] {
        assert_eq!(ask(ioctl, &[]).err(), Some(libc::ENOTTY));
    }
}

#[test]
fn ioctl_numbers_are_the_kernels() {
    assert_eq!(V4l2Ioctl::n(15), Some(V4l2Ioctl::VIDIOC_QBUF));
    assert_eq!(V4l2Ioctl::n(72), Some(V4l2Ioctl::VIDIOC_S_EXT_CTRLS));
    assert_eq!(V4l2Ioctl::n(103), Some(V4l2Ioctl::VIDIOC_QUERY_EXT_CTRL));
    assert_eq!(V4l2Ioctl::n(1), None);
    assert_eq!(V4l2Ioctl::n(104), None);
}

/// A device that answers every ioctl with a recognisable value.
struct Echo;

impl VirtioMediaIoctlHandler for Echo {
    type Session = u32;

    fn does(&self, _: &u32, _: IoctlRequest, _: &Self, _: &u32, _: IoctlReply) -> bool {
        true
    }

    fn serve(&mut self, session: &mut u32, request: IoctlRequest) -> IoctlReply {
        match request {
            IoctlRequest::EnumFmt { queue, index } => IoctlReply::FmtDesc {
                desc: FmtDesc {
                    index,
                    type_: queue.to_u32(),
                    flags: 1,
                    description: [b'x'; 32],
                    pixelformat: 2,
                    mbus_code: 3,
                },
            },
            IoctlRequest::QueryBuf {
                queue,
                index,
                planes,
            } => {
                let mut buffer = V4l2Buffer::new(queue, index, MemoryType::Mmap);
                buffer.length = 2;
                buffer.m = 0xdead;
                buffer.timestamp = Timeval { sec: -1, usec: 5 };
                buffer.plane0.length = 10;
                buffer.more[0].length = 20;
                IoctlReply::Buffer { buffer, planes }
            }
            IoctlRequest::StreamOn { queue } => {
                *session = queue.to_u32();
                IoctlReply::Done
            }
            IoctlRequest::GStd => IoctlReply::Std {
                std: 0x1122_3344_5566_7788,
            },
            IoctlRequest::SInput { input } => IoctlReply::Number { value: -input },
            IoctlRequest::GTuner { index } => IoctlReply::Tuner {
                raw: [index as u8; 84],
            },
            IoctlRequest::QueryCtrl { id, flags } => IoctlReply::QueryCtrl {
                ctrl: QueryCtrl {
                    id,
                    type_: flags.next as u32,
                    name: [0; 32],
                    minimum: -1,
                    maximum: 2,
                    step: 3,
                    default_value: 4,
                    flags: 5,
                },
            },
            IoctlRequest::GSelection { raw, .. } => IoctlReply::Selection {
                raw,
                rect: Rect {
                    left: -2,
                    top: 3,
                    width: 4,
                    height: 5,
                },
            },
            IoctlRequest::EnumDvTimings { index, raw } => IoctlReply::EnumDvTimings {
                raw,
                timings: [index as u8; 132],
            },
            IoctlRequest::SCtrl { value, .. } => IoctlReply::Refused { errno: value },
            request => not_supported(request),
        }
    }
}

fn echo(ioctl: V4l2Ioctl, bytes: &[u8]) -> (Vec<u8>, u32) {
    let mut session = 0;
    let mut out = Vec::new();
    virtio_media_dispatch_ioctl(
        &mut Echo,
        &mut session,
        ioctl,
        &mut ChainReader::new(bytes),
        &mut out,
    );
    (out, session)
}

fn word(out: &[u8], at: usize) -> u32 {
    u32::from_le_bytes(out[at..at + 4].try_into().unwrap())
}

/// A request reaches the handler as it was read, and its answer the guest.
#[test]
fn requests_are_handed_on_and_answered() {
    let mut b = vec![0u8; 64];
    put(&mut b, 0, 7);
    put(&mut b, 4, 9);
    let (out, _) = echo(V4l2Ioctl::VIDIOC_ENUM_FMT, &b);
    assert_eq!(out.len(), 8 + 64);
    assert_eq!((word(&out, 0), word(&out, 4)), (0, 0));
    assert_eq!((word(&out, 8), word(&out, 12), word(&out, 16)), (7, 9, 1));
    assert_eq!(&out[20..52], &[b'x'; 32]);
    assert_eq!((word(&out, 52), word(&out, 56)), (2, 3));

    // The planes told are those the guest has room for, and no host address is among them.
    for (room, told) in [(0, 0), (1, 1), (2, 2), (8, 2)] {
        let b = buffer_bytes(QueueType::VideoCaptureMplane, MemoryType::Mmap, room);
        let (out, _) = echo(V4l2Ioctl::VIDIOC_QUERYBUF, &b);
        assert_eq!(out.len(), 8 + 88 + 64 * told);
        assert_eq!((word(&out, 8 + 64), word(&out, 8 + 68)), (0, 0));
        assert_eq!(word(&out, 8 + 72), 2);
        assert_eq!(&out[8 + 24..8 + 32], &(-1i64).to_le_bytes());
        if told == 2 {
            assert_eq!(word(&out, 8 + 88 + 4), 10);
            assert_eq!(word(&out, 8 + 88 + 64 + 4), 20);
        }
    }

    let (out, session) = echo(V4l2Ioctl::VIDIOC_STREAMON, &10u32.to_le_bytes());
    assert_eq!(out, vec![0; 8]);
    assert_eq!(session, 10);
    let (out, _) = echo(V4l2Ioctl::VIDIOC_G_STD, &[]);
    assert_eq!(&out[8..], &0x1122_3344_5566_7788u64.to_le_bytes());
    let (out, _) = echo(V4l2Ioctl::VIDIOC_S_INPUT, &3i32.to_le_bytes());
    assert_eq!(&out[8..], &(-3i32).to_le_bytes());
    let mut b = vec![0u8; 84];
    put(&mut b, 0, 6);
    let (out, _) = echo(V4l2Ioctl::VIDIOC_G_TUNER, &b);
    assert_eq!(out[8..], [6; 84]);
    // The flags in a control id are split off.
    let mut b = vec![0u8; 68];
    put(&mut b, 0, 0x8000_0000 | 0x98_0900);
    let (out, _) = echo(V4l2Ioctl::VIDIOC_QUERYCTRL, &b);
    assert_eq!(out.len(), 8 + 68);
    assert_eq!((word(&out, 8), word(&out, 12)), (0x98_0900, 1));
    assert_eq!(&out[48..52], &(-1i32).to_le_bytes());
    // A selection goes back as it came, but for the rectangle.
    let b: Vec<u8> = (0..64)
        .map(|i| match i {
            0 => 2,
            1..=7 => 0,
            i => i as u8,
        })
        .collect();
    let (out, _) = echo(V4l2Ioctl::VIDIOC_G_SELECTION, &b);
    assert_eq!(out[8..20], b[..12]);
    assert_eq!(&out[20..24], &(-2i32).to_le_bytes());
    assert_eq!((word(&out, 24), word(&out, 28), word(&out, 32)), (3, 4, 5));
    assert_eq!(out[36..], b[28..]);
    let b: Vec<u8> = (0..148).map(|i| if i < 4 { (i == 0) as u8 } else { 9 }).collect();
    let (out, _) = echo(V4l2Ioctl::VIDIOC_ENUM_DV_TIMINGS, &b);
    assert_eq!(out[8..24], b[..16]);
    assert_eq!(out[24..], [1; 132]);
    // An errno goes back alone.
    let mut b = vec![0u8; 8];
    put(&mut b, 4, libc::EBUSY as u32);
    let (out, _) = echo(V4l2Ioctl::VIDIOC_S_CTRL, &b);
    assert_eq!(out.len(), 8);
    assert_eq!(errno(&out), libc::EBUSY);
}

/// Counts the requests it is handed, and refuses each with the errno it was made with.
struct Refuser {
    errno: i32,
    served: u32,
}

impl VirtioMediaIoctlHandler for Refuser {
    type Session = Vec<u32>;

    fn does(&self, _: &Vec<u32>, _: IoctlRequest, _: &Self, _: &Vec<u32>, _: IoctlReply) -> bool {
        true
    }

    fn serve(&mut self, session: &mut Vec<u32>, request: IoctlRequest) -> IoctlReply {
        self.served += 1;
        if let IoctlRequest::SInput { input } = request {
            session.push(input as u32);
        }
        IoctlReply::Refused { errno: self.errno }
    }
}

/// A request is served once, with what was read, and the handler's errno is the response's. What
/// cannot be read is not served.
#[test]
fn requests_are_served_once_and_unread_ones_never() {
    for errno_given in [libc::EBUSY, libc::ENODEV, 4242, -1] {
        let mut handler = Refuser {
            errno: errno_given,
            served: 0,
        };
        let mut session = Vec::new();
        let mut out = Vec::new();
        virtio_media_dispatch_ioctl(
            &mut handler,
            &mut session,
            V4l2Ioctl::VIDIOC_S_INPUT,
            &mut ChainReader::new(&77u32.to_le_bytes()),
            &mut out,
        );
        assert_eq!((handler.served, session.as_slice()), (1, &[77][..]));
        assert_eq!(out.len(), 8);
        assert_eq!(errno(&out), errno_given);
        // One byte is missing.
        let mut out = Vec::new();
        virtio_media_dispatch_ioctl(
            &mut handler,
            &mut session,
            V4l2Ioctl::VIDIOC_S_INPUT,
            &mut ChainReader::new(&[77, 0, 0]),
            &mut out,
        );
        assert_eq!((handler.served, session.len()), (1, 1));
        assert_eq!(out.len(), 8);
        assert_eq!(errno(&out), libc::EINVAL);
    }
}

/// Every ioctl a handler does not implement is refused, and nothing is changed.
#[test]
fn every_default_is_enotty() {
    let long = vec![0u8; 4096];
    let refused = |ioctl, bytes: &[u8]| {
        let out = dispatch(ioctl, bytes);
        assert_eq!(errno(&out), libc::ENOTTY, "{:?}", ioctl);
    };
    let typed = |queue: u32, at: usize| {
        let mut b = long.clone();
        put(&mut b, at, queue);
        b
    };
    refused(V4l2Ioctl::VIDIOC_ENUM_FMT, &typed(9, 4));
    for ioctl in [
        V4l2Ioctl::VIDIOC_G_FMT,
        V4l2Ioctl::VIDIOC_S_FMT,
        V4l2Ioctl::VIDIOC_TRY_FMT,
        V4l2Ioctl::VIDIOC_STREAMON,
        V4l2Ioctl::VIDIOC_STREAMOFF,
        V4l2Ioctl::VIDIOC_G_PARM,
        V4l2Ioctl::VIDIOC_S_PARM,
    ] {
        refused(ioctl, &typed(9, 0));
    }
    for ioctl in [
        V4l2Ioctl::VIDIOC_G_STD,
        V4l2Ioctl::VIDIOC_S_STD,
        V4l2Ioctl::VIDIOC_ENUMSTD,
        V4l2Ioctl::VIDIOC_ENUMINPUT,
        V4l2Ioctl::VIDIOC_G_CTRL,
        V4l2Ioctl::VIDIOC_S_CTRL,
        V4l2Ioctl::VIDIOC_G_TUNER,
        V4l2Ioctl::VIDIOC_S_TUNER,
        V4l2Ioctl::VIDIOC_G_AUDIO,
        V4l2Ioctl::VIDIOC_S_AUDIO,
        V4l2Ioctl::VIDIOC_QUERYCTRL,
        V4l2Ioctl::VIDIOC_QUERYMENU,
        V4l2Ioctl::VIDIOC_G_INPUT,
        V4l2Ioctl::VIDIOC_S_INPUT,
        V4l2Ioctl::VIDIOC_G_OUTPUT,
        V4l2Ioctl::VIDIOC_S_OUTPUT,
        V4l2Ioctl::VIDIOC_ENUMOUTPUT,
        V4l2Ioctl::VIDIOC_G_AUDOUT,
        V4l2Ioctl::VIDIOC_S_AUDOUT,
        V4l2Ioctl::VIDIOC_G_MODULATOR,
        V4l2Ioctl::VIDIOC_S_MODULATOR,
        V4l2Ioctl::VIDIOC_G_FREQUENCY,
        V4l2Ioctl::VIDIOC_QUERYSTD,
        V4l2Ioctl::VIDIOC_ENUMAUDIO,
        V4l2Ioctl::VIDIOC_ENUMAUDOUT,
        V4l2Ioctl::VIDIOC_G_EXT_CTRLS,
        V4l2Ioctl::VIDIOC_S_EXT_CTRLS,
        V4l2Ioctl::VIDIOC_TRY_EXT_CTRLS,
        V4l2Ioctl::VIDIOC_ENUM_FRAMESIZES,
        V4l2Ioctl::VIDIOC_ENUM_FRAMEINTERVALS,
        V4l2Ioctl::VIDIOC_G_ENC_INDEX,
        V4l2Ioctl::VIDIOC_ENCODER_CMD,
        V4l2Ioctl::VIDIOC_TRY_ENCODER_CMD,
        V4l2Ioctl::VIDIOC_S_DV_TIMINGS,
        V4l2Ioctl::VIDIOC_G_DV_TIMINGS,
        V4l2Ioctl::VIDIOC_UNSUBSCRIBE_EVENT,
        V4l2Ioctl::VIDIOC_DECODER_CMD,
        V4l2Ioctl::VIDIOC_TRY_DECODER_CMD,
        V4l2Ioctl::VIDIOC_ENUM_DV_TIMINGS,
        V4l2Ioctl::VIDIOC_QUERY_DV_TIMINGS,
        V4l2Ioctl::VIDIOC_DV_TIMINGS_CAP,
        V4l2Ioctl::VIDIOC_QUERY_EXT_CTRL,
    ] {
        refused(ioctl, &long);
    }
    refused(V4l2Ioctl::VIDIOC_S_FREQUENCY, &typed(1, 4));
    refused(V4l2Ioctl::VIDIOC_ENUM_FREQ_BANDS, &typed(1, 4));
    refused(V4l2Ioctl::VIDIOC_SUBSCRIBE_EVENT, &typed(2, 0));
    refused(V4l2Ioctl::VIDIOC_G_SELECTION, &typed(1, 0));
    refused(V4l2Ioctl::VIDIOC_S_SELECTION, &typed(1, 0));
    refused(V4l2Ioctl::VIDIOC_QUERYBUF, &typed(9, 4));
    let mut b = typed(9, 4);
    put(&mut b, 8, 1);
    refused(V4l2Ioctl::VIDIOC_REQBUFS, &b);
    let mut b = typed(9, 16);
    put(&mut b, 8, 1);
    refused(V4l2Ioctl::VIDIOC_CREATE_BUFS, &b);
    refused(V4l2Ioctl::VIDIOC_QBUF, &mplane_buffer_bytes(0, 4096));
}

fn written(reply: IoctlReply) -> Vec<u8> {
    let mut out = Vec::new();
    write_reply(&mut out, &reply);
    out
}

/// Each answer has the size of the kernel's structure behind the response header.
#[test]
fn answers_have_the_kernels_sizes() {
    let format = V4l2Format {
        type_: 1,
        fmt: FormatBody::Raw([7; 200]),
    };
    let sizes = [
        (written(IoctlReply::Refused { errno: 22 }), 0),
        (written(IoctlReply::Done), 0),
        (written(IoctlReply::Format { format }), 208),
        (
            written(IoctlReply::RequestBuffers {
                answer: RequestBuffers {
                    count: 1,
                    type_: 2,
                    memory: 3,
                    capabilities: 4,
                    flags: 5,
                },
            }),
            20,
        ),
        (
            written(IoctlReply::CreateBuffers {
                answer: CreateBuffers {
                    index: 1,
                    count: 2,
                    memory: 3,
                    format,
                    capabilities: 4,
                    flags: 5,
                },
            }),
            256,
        ),
        (
            written(IoctlReply::Control {
                ctrl: Control { id: 1, value: -1 },
            }),
            8,
        ),
        (
            written(IoctlReply::QueryMenu {
                item: QueryMenu {
                    id: 1,
                    index: 2,
                    name: [3; 32],
                },
            }),
            44,
        ),
        (
            written(IoctlReply::FrmSize {
                size: FrmSizeEnum {
                    index: 0,
                    pixel_format: 1,
                    type_: 3,
                    min_width: 4,
                    max_width: 5,
                    step_width: 6,
                    min_height: 7,
                    max_height: 8,
                    step_height: 9,
                },
            }),
            44,
        ),
        (
            written(IoctlReply::FrmIval {
                interval: FrmIvalEnum {
                    index: 0,
                    pixel_format: 1,
                    width: 2,
                    height: 3,
                    type_: 2,
                    min: Fract {
                        numerator: 1,
                        denominator: 2,
                    },
                    max: Fract {
                        numerator: 3,
                        denominator: 4,
                    },
                    step: Fract {
                        numerator: 5,
                        denominator: 6,
                    },
                },
            }),
            52,
        ),
        (
            written(IoctlReply::QueryExtCtrl {
                ctrl: QueryExtCtrl {
                    id: 1,
                    type_: 2,
                    name: [0; 32],
                    minimum: -1,
                    maximum: 1,
                    step: 1,
                    default_value: 0,
                    flags: 0,
                    elem_size: 4,
                    elems: 1,
                    nr_of_dims: 0,
                    dims: (0, 0, 0, 0),
                },
            }),
            232,
        ),
        (written(IoctlReply::EncIdx { raw: [1; 2072] }), 2072),
        (written(IoctlReply::DvTimingsCap { raw: [1; 144] }), 144),
    ];
    for (out, size) in &sizes {
        assert_eq!(out.len(), 8 + size);
    }
    assert_eq!(word(&sizes[0].0, 0), 22);
    let create = &sizes[4].0;
    assert_eq!((word(create, 8), word(create, 12), word(create, 16)), (1, 2, 3));
    assert_eq!(word(create, 8 + 16), 1);
    assert_eq!(create[8 + 24], 7);
    assert_eq!((word(create, 8 + 224), word(create, 8 + 228)), (4, 5));
    let interval = &sizes[8].0;
    assert_eq!(word(interval, 8 + 16), 2);
    assert_eq!((word(interval, 8 + 20), word(interval, 8 + 40)), (1, 6));
    let query = &sizes[9].0;
    assert_eq!(&query[8 + 40..8 + 48], &(-1i64).to_le_bytes());
    assert_eq!((word(query, 8 + 76), word(query, 8 + 80)), (4, 1));
}

/// What is written of a buffer, a format and a set of controls reads back as it was.
#[test]
fn what_is_written_reads_back() {
    let mut v = V4l2Buffer::new(QueueType::VideoOutputMplane, 5, MemoryType::Mmap);
    v.length = 3;
    v.flags = 0x4000;
    v.field = 1;
    v.timestamp = Timeval { sec: -3, usec: 9 };
    v.timecode = (11, 12);
    v.sequence = 77;
    v.request_fd = 4;
    v.plane0 = V4l2Plane {
        bytesused: 10,
        length: 20,
        m: 0x1_0000_0002,
        data_offset: 3,
        reserved: (1, 2, 3, 4, 5, 6),
    };
    v.more[1].length = 9;
    let out = written(IoctlReply::Buffer { buffer: v, planes: 3 });
    let read = read_buffer(&out[8..]).ok().unwrap();
    assert_eq!(read.buffer, v);
    assert_eq!(read.payload, PayloadValidity::all());
    // A pointer to the plane array does not travel.
    v.m = 0xffff_0000;
    let out = written(IoctlReply::Buffer { buffer: v, planes: 3 });
    v.m = 0;
    assert_eq!(read_buffer(&out[8..]).ok().unwrap().buffer, v);

    let ctrls = ExtControls {
        which: 0x99_0000,
        count: 2,
        error_idx: 1,
        request_fd: -5,
        reserved: 6,
    };
    let ctrl_array = vec![ExtControl::new(1, -2), ExtControl::new(3, 4)];
    let out = written(IoctlReply::Controls {
        ctrls,
        ctrl_array: ctrl_array.clone(),
    });
    let read = GuestControls::read_from_chain(&mut ChainReader::new(&out[8..]))
        .ok()
        .unwrap();
    assert_eq!(read.ctrls, ctrls);
    assert_eq!(read.ctrl_array, ctrl_array);

    let mut b = vec![0u8; 208];
    put(&mut b, 0, 10);
    for at in 8..188 {
        b[at] = at as u8;
    }
    // The reserved words of a plane do not travel.
    for plane in 0..8 {
        for at in 0..12 {
            b[8 + 20 + plane * 20 + 8 + at] = 0;
        }
    }
    b[188] = 1;
    b[192] = 2;
    match ask(V4l2Ioctl::VIDIOC_S_FMT, &b) {
        Ok(IoctlRequest::SFmt { format, .. }) => {
            assert_eq!(written(IoctlReply::Format { format })[8..], b[..])
        }
        _ => panic!("not a format"),
    }
}

#[test]
fn control_ids_carry_query_flags() {
    assert_eq!(
        parse_ctrl_id_and_flags(0x0099_0a67),
        (
            0x0099_0a67,
            QueryCtrlFlags {
                next: false,
                compound: false
            }
        )
    );
    assert_eq!(
        parse_ctrl_id_and_flags(0xc000_0000),
        (
            0,
            QueryCtrlFlags {
                next: true,
                compound: true
            }
        )
    );
}

#[test]
fn sets_of_controls_say_which_values_they_are_about() {
    let of = |which, request_fd| {
        CtrlWhich::of(&ExtControls {
            which,
            count: 0,
            error_idx: 0,
            request_fd,
            reserved: 0,
        })
    };
    assert_eq!(of(0, 0), Some(CtrlWhich::Current));
    assert_eq!(of(0x0f00_0000, 0), Some(CtrlWhich::Default));
    assert_eq!(of(0x0f01_0000, 9), Some(CtrlWhich::Request(9)));
    assert_eq!(of(0x0099_0000, 0), Some(CtrlWhich::Class(0x0099_0000)));
    assert_eq!(of(0x0099_0001, 0), None);
    assert_eq!(of(0x0097_0000, 0), None);
}
