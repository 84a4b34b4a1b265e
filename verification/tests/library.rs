//! The parts of the library on their own: sizes, ranges, controls, offsets, the allocator's books.
use virtio_media::devices::video_encoder::capabilities::{
    CodedFormat, EncoderCapabilities, VideoBitrateMode,
};
use virtio_media::devices::video_encoder::control_table::controls_for;
use virtio_media::devices::video_encoder::controls::{ctrl_class, CtrlType};
use virtio_media::devices::video_encoder::format_ioctls::fourcc_description;
use virtio_media::devices::video_encoder::menus::MenuKind;
use virtio_media::devices::video_encoder::ranges::{
    fit_bitstream_size, fit_crop_axis, nv12_sizeimage, ControlRange, FrameRateRange, QpRange,
    SizeRange,
};
use virtio_media::errno;
use virtio_media::host::{
    guest_mapping_errno, map_fd_range, GuestMappingError, HostBuffer, PoolPort,
    VirtioMediaBufferAllocator, VirtioMediaHostMemoryMapper,
};
use virtio_media::ioctl::types::copy_name;
use virtio_media::memfd::{
    mapping_len, memfd_size, MemFdAllocator, MemFdFailure, MemFdMapping, MemFdMmapError,
    NewMemFdBufferError,
};
use virtio_media::mmap::{MmapMappingManager, RetiredBuffers};
use virtio_media::payload::PayloadValidity;
use virtio_media::v4l2::{
    MemoryType, PixelFormat, QueueDirection, QueueType, V4l2Buffer, FOURCC_AV01, FOURCC_H264,
    FOURCC_HEVC, FOURCC_NV12, FOURCC_VP80, FOURCC_VP90,
};

#[test]
fn nv12_sizeimage_saturates_instead_of_aborting() {
    assert_eq!(nv12_sizeimage(320, 240), 320 * 240 * 3 / 2);
    assert_eq!(nv12_sizeimage(3, 3), 9 + 2 * 2 * 2);
    assert_eq!(nv12_sizeimage(65536, 65536), u32::MAX);
    assert_eq!(nv12_sizeimage(u32::MAX, u32::MAX), u32::MAX);
    assert_eq!(nv12_sizeimage(u32::MAX, 1), u32::MAX);
}

#[test]
fn errnos_are_the_systems() {
    assert_eq!(errno::EIO, libc::EIO);
    assert_eq!(errno::ENOMEM, libc::ENOMEM);
    assert_eq!(errno::EACCES, libc::EACCES);
    assert_eq!(errno::EBUSY, libc::EBUSY);
    assert_eq!(errno::ENODEV, libc::ENODEV);
    assert_eq!(errno::EINVAL, libc::EINVAL);
    assert_eq!(errno::ENOTTY, libc::ENOTTY);
    assert_eq!(errno::ERANGE, libc::ERANGE);
}

/// Every fourcc a device advertises is spelled as the kernel's `V4L2_PIX_FMT_*`, and described by
/// the kernel's name for it.
#[test]
fn advertised_fourccs_match_videodev2_h() {
    let f = |s: &[u8; 4]| PixelFormat::from_fourcc(s);
    for (name, code, constant) in [
        (b"H264", 0x3436_3248, FOURCC_H264),
        (b"HEVC", 0x4356_4548, FOURCC_HEVC),
        (b"VP80", 0x3038_5056, FOURCC_VP80),
        (b"VP90", 0x3039_5056, FOURCC_VP90),
        (b"AV01", 0x3130_5641, FOURCC_AV01),
        (b"NV12", 0x3231_564e, FOURCC_NV12),
    ] {
        assert_eq!(f(name), PixelFormat(code));
        assert_eq!(constant, code);
    }
    for spelled in [b"H264", b"HEVC", b"VP80", b"VP90", b"AV01"] {
        assert_ne!(
            fourcc_description(f(spelled).0),
            "Unknown",
            "advertised fourcc {} must be a known V4L2 format",
            std::str::from_utf8(spelled).unwrap()
        );
    }
    assert_eq!(fourcc_description(f(b"AV01").0), "AV1");
    assert_eq!(fourcc_description(FOURCC_NV12), "Y/UV 4:2:0");
    assert_eq!(
        fourcc_description(f(b"AV10").0),
        "Unknown",
        "AV10 is not a V4L2 pixel format"
    );
    assert_eq!(fourcc_description(f(b"H264").0), "H.264");
    assert_eq!(fourcc_description(f(b"HEVC").0), "HEVC");
    assert_eq!(fourcc_description(f(b"VP80").0), "VP8");
    assert_eq!(fourcc_description(f(b"VP90").0), "VP9");
}

#[test]
fn sizes_are_fitted_to_their_range() {
    let r = SizeRange::new(16, 4096, 2);
    assert_eq!(r.fit(0), 16);
    assert_eq!(r.fit(635), 636);
    assert_eq!(r.fit(5000), 4096);
    assert!(r.accepts(16) && r.accepts(4096));
    assert!(!r.accepts(15) && !r.accepts(4097) && !r.accepts(17));
    // Rounding up would leave the range.
    let r = SizeRange::new(10, 100, 64);
    assert_eq!(r.fit(65), 64);
    assert_eq!(r.fit(3), 64);
    // Bounds that contradict each other, and a step of nothing.
    let r = SizeRange::new(100, 50, 0);
    assert_eq!(r.fit(1), 100);
    assert_eq!(r.fit(1000), 100);
    // A fitted size is its own fit.
    for (min, max, step) in [(16, 4096, 2), (64, 8192, 8), (10, 100, 64), (0, 0, 0), (7, 9, 5)] {
        let r = SizeRange::new(min, max, step);
        for v in [0, 1, 15, 16, 63, 64, 65, 4095, 4096, 8192, u32::MAX] {
            assert_eq!(r.fit(r.fit(v)), r.fit(v));
        }
    }
    assert_eq!(SizeRange::new(1, u32::MAX, 1 << 31).fit(u32::MAX), 1 << 31);
}

#[test]
fn crops_are_fitted_axis_by_axis() {
    let r = SizeRange::new(16, 4096, 2);
    assert_eq!(fit_crop_axis(&r, 320, 2, 301), (2, 302));
    assert_eq!(fit_crop_axis(&r, 320, 1, 0), (0, 320));
    assert_eq!(fit_crop_axis(&r, 320, -5, 20), (0, 20));
    assert_eq!(fit_crop_axis(&r, 320, i32::MAX, 20), (304, 16));
}

#[test]
fn bitstream_sizes_are_held_to_what_a_frame_can_need() {
    assert_eq!(fit_bitstream_size(640, 480, 0), 0x4_0000);
    assert_eq!(fit_bitstream_size(640, 480, 0xffff), 0x4_0000);
    assert_eq!(fit_bitstream_size(640, 480, 0x1_0000), 0x1_0000);
    assert_eq!(fit_bitstream_size(640, 480, 32 << 20), 4 << 20);
    assert_eq!(
        fit_bitstream_size(4096, 2160, u32::MAX),
        4 * (4096 * 2160 * 3 / 2 / 2)
    );
    assert_eq!(fit_bitstream_size(u32::MAX, u32::MAX, u32::MAX), u32::MAX);
}

#[test]
fn frame_intervals_are_held_to_the_sustained_rates() {
    let r = FrameRateRange { min: 5, max: 60 };
    assert_eq!(r.fit_interval(1001, 30000), (1001, 30000));
    assert_eq!(r.fit_interval(1, 240), (1, 60));
    assert_eq!(r.fit_interval(1, 1), (1, 5));
    assert_eq!(r.fit_interval(0, 7), (1, 30));
    assert_eq!(r.fit_interval(7, 0), (1, 30));
    assert_eq!(r.fit_interval(u32::MAX, u32::MAX), (1, 5));
    assert_eq!(FrameRateRange { min: 0, max: 0 }.default_fps(), 1);
    assert_eq!(FrameRateRange { min: 50, max: 60 }.default_fps(), 50);
}

#[test]
fn control_values_are_clamped_or_refused() {
    let range = ControlRange::new(10, 20, 15);
    assert_eq!(range.clamp(9), 10);
    assert_eq!(range.clamp(21), 20);
    assert_eq!(range.clamp(15), 15);
    let integer = CtrlType::Integer {
        range,
        read_only: false,
    };
    assert_eq!(integer.validate(9), Ok(10));
    let menu = CtrlType::Menu {
        menu: MenuKind::H264Profile,
        items: vec![0, 2, 4],
        default: 4,
    };
    assert_eq!(menu.validate(2), Ok(2));
    assert_eq!(menu.validate(1), Err(libc::EINVAL));
    assert_eq!(menu.validate(5), Err(libc::ERANGE));
    assert_eq!(menu.menu_name(4), Some("High"));
    assert_eq!(menu.menu_name(1), None);
    assert_eq!(CtrlType::Boolean { on: false }.validate(-7), Ok(1));
    assert_eq!(CtrlType::Button.validate(7), Ok(0));
    assert_eq!(CtrlType::Class.validate(7), Err(libc::EINVAL));
    assert_eq!(ctrl_class(0x8099_0a67), 0x99_0000);
}

fn format(fourcc: u32, profiles: Vec<i32>) -> CodedFormat {
    CodedFormat {
        fourcc: PixelFormat(fourcc),
        width: SizeRange::new(16, 4096, 2),
        height: SizeRange::new(16, 4096, 2),
        frame_rate: FrameRateRange { min: 1, max: 60 },
        bitrate: ControlRange::new(1, 2, 1),
        gop_size: ControlRange::new(0, 9, 3),
        bitrate_modes: vec![VideoBitrateMode::ConstantBitrate],
        profiles,
        levels: vec![],
        qp: Some(QpRange { min: 1, max: 2 }),
    }
}

/// Where two formats have one fourcc the first one's controls stand; a format without profiles has
/// no profile control.
#[test]
fn the_first_format_of_a_fourcc_decides_its_controls() {
    let caps = EncoderCapabilities {
        coded_formats: vec![
            format(FOURCC_H264, vec![2]),
            format(FOURCC_H264, vec![4]),
            format(FOURCC_HEVC, vec![]),
        ],
        min_output_buffers: 0,
    };
    let table = controls_for(&caps);
    let find = |id: u32| table.iter().find(|c| c.id == id);
    assert_eq!(
        find(0x99_0a6b).unwrap().ty,
        CtrlType::Menu {
            menu: MenuKind::H264Profile,
            items: vec![2],
            default: 2
        }
    );
    assert!(find(0x99_0b67).is_none());
    assert!(find(0x99_0b58).is_some());
    // At least one raw buffer is needed.
    assert_eq!(find(0x98_0928).unwrap().ty.bounds().default, 1);
    assert!(table.windows(2).all(|w| w[0].id < w[1].id));
}

/// The count of raw buffers a codec needs is told within the bounds, however large it is.
#[test]
fn the_needed_raw_buffers_are_told_within_bounds() {
    for (needed, told) in [
        (0, 1),
        (1, 1),
        (4, 4),
        (32, 32),
        (33, 32),
        (0x7fff_ffff, 32),
        (0x8000_0000, 32),
        (u32::MAX, 32),
    ] {
        let caps = EncoderCapabilities {
            coded_formats: vec![format(FOURCC_H264, vec![2])],
            min_output_buffers: needed,
        };
        let table = controls_for(&caps);
        let control = table.iter().find(|c| c.id == 0x98_0928).unwrap();
        assert_eq!(control.ty.bounds().default, told);
    }
}

/// Where some size is accepted, the accepted sizes are those that fit as they are.
#[test]
fn sizes_that_fit_as_they_are_are_accepted() {
    for (min, max, step) in [(10, 100, 16), (1, 16, 16), (0, 7, 3), (5, 40, 0), (64, 64, 64)] {
        let r = SizeRange::new(min, max, step);
        for v in 1..200 {
            assert_eq!(r.accepts(v), r.fit(v) == v, "{v} in {min}..={max} by {step}");
        }
    }
}

/// A mapping of a memfd is as long as the memfd was asked to be, and never empty.
#[test]
fn memfd_mappings_cover_their_buffer() {
    for size in [1, 4095, 4096, 1 << 31] {
        let len = mapping_len(memfd_size(size).unwrap()).unwrap();
        let m = MemFdMapping { addr: 0x1000, len };
        assert_eq!(m.size() as u64, size);
    }
    assert!(memfd_size(0).is_err());
}

#[test]
fn names_fit_their_field() {
    let name = copy_name("Video Bitrate");
    assert!(name.starts_with(b"Video Bitrate\0"));
    let long = copy_name("a name that is far too long for its field");
    assert_eq!(&long[..31], &b"a name that is far too long for its field"[..31]);
    assert_eq!(long[31], 0);
}

#[test]
fn queue_and_memory_types_have_the_kernels_numbers() {
    for n in 1..=14 {
        assert_eq!(QueueType::n(n).unwrap().to_u32(), n);
    }
    assert_eq!(QueueType::n(0), None);
    assert_eq!(QueueType::n(15), None);
    for n in 1..=4 {
        assert_eq!(MemoryType::n(n).unwrap().to_u32(), n);
    }
    assert_eq!(MemoryType::n(5), None);
    assert_eq!(
        QueueType::VideoOutputMplane.direction_or_einval(),
        Ok(QueueDirection::Output)
    );
    assert_eq!(
        QueueType::VideoCapture.direction_or_einval(),
        Err(libc::EINVAL)
    );
}

#[test]
fn flags_a_buffer_does_not_define_go_with_the_next_change() {
    let mut b = V4l2Buffer::new(QueueType::VideoCaptureMplane, 0, MemoryType::Mmap);
    b.flags = 0xffff_ffff;
    b.clear_flags(0x2);
    assert_eq!(b.flags, 0x91_7d7d);
    b.add_flags(0x2);
    assert_eq!(b.flags, 0x91_7d7f);
}

#[test]
fn slots_past_the_plane_array_are_never_valid() {
    let p = PayloadValidity::all();
    assert!(p.plane_is_valid(7));
    assert!(!p.plane_is_valid(8));
    assert_eq!(p.without(8), p);
    assert!(p.planes_are_valid(8));
    assert!(!p.planes_are_valid(9));
}

#[test]
fn failed_mappings_name_their_errno_or_are_einval() {
    assert_eq!(guest_mapping_errno(&Some(GuestMappingError(libc::EFAULT))), libc::EFAULT);
    assert_eq!(guest_mapping_errno(&None), libc::EINVAL);
}

#[test]
fn ranges_of_a_descriptor_are_checked_before_they_are_mapped() {
    assert_eq!(map_fd_range(4096, 0x1800), Ok((4096, 0x1800)));
    assert_eq!(map_fd_range(0, 0), Err(libc::EINVAL));
    assert_eq!(map_fd_range(u64::MAX, 1), Err(libc::EINVAL));
}

#[test]
fn the_empty_vmm_serves_nothing() {
    assert_eq!(().allocate(1).err(), Some(libc::ENOMEM));
    let buffer = HostBuffer::from_raw_parts((), 0, 1, 2, None);
    assert_eq!(buffer.as_ptr(), 2);
    assert_eq!(().add_mapping(&buffer, 0, true), Err(libc::ENOTTY));
    assert_eq!(().remove_mapping(0), Err(libc::ENOTTY));
}

/// Buffers from memory there is plenty of.
struct Heap {
    books: MemFdAllocator,
}

impl VirtioMediaBufferAllocator for Heap {
    type Handle = Vec<u8>;

    fn allocate(&mut self, len: u64) -> Result<HostBuffer<Vec<u8>>, i32> {
        let made = memfd_size(len)
            .map_err(MemFdFailure::Create)
            .map(|len| HostBuffer::from_raw_parts(vec![0; len as usize], 0, len, 0x1000, None));
        self.books.hand_out(made)
    }

    fn release(&mut self, buf: HostBuffer<Vec<u8>>) {
        drop(self.books.take_back(buf));
    }
}

#[test]
fn memfd_allocator_round_trip() {
    let mut allocator = Heap {
        books: MemFdAllocator::new(),
    };
    assert_eq!(allocator.allocate(0).err(), Some(libc::EINVAL));

    let mut buffer = allocator.allocate(0x1800).ok().expect("allocation failed");
    assert_eq!(buffer.len, 0x1800);
    assert_eq!(buffer.fd_offset, 0);
    assert_eq!(buffer.pool_offset, None);
    assert_eq!(allocator.books.live_buffers(), 1);

    buffer.handle.fill(0x5a);
    buffer.handle[0x17ff] = 0xa5;
    assert_eq!(buffer.handle[0], 0x5a);
    assert_eq!(buffer.handle[0x17ff], 0xa5);

    allocator.release(buffer);
    assert_eq!(allocator.books.live_buffers(), 0);
    // More buffers taken back than were handed out are not counted below nothing.
    allocator.release(HostBuffer::from_raw_parts(vec![], 0, 0, 0, None));
    assert_eq!(allocator.books.live_buffers(), 0);
}

#[test]
fn failed_allocations_are_answered_by_their_cause() {
    let mut books = MemFdAllocator::new();
    for (failure, errno) in [
        (MemFdFailure::Create(NewMemFdBufferError::ZeroSize), libc::EINVAL),
        (MemFdFailure::Create(NewMemFdBufferError::FailedToCreate(1)), libc::ENOMEM),
        (MemFdFailure::Create(NewMemFdBufferError::FailedToSetSize(1)), libc::ENOMEM),
        (MemFdFailure::Create(NewMemFdBufferError::FailedToSeal(1)), libc::ENOMEM),
        (MemFdFailure::HostMapping(libc::EACCES), libc::EACCES),
    ] {
        assert_eq!(books.hand_out::<()>(Err(failure)).err(), Some(errno));
    }
    assert_eq!(books.live_buffers(), 0);
    assert_eq!(memfd_size(0), Err(NewMemFdBufferError::ZeroSize));
    assert_eq!(mapping_len(7), Ok(7));
    assert!(matches!(
        mapping_len(u64::MAX),
        Ok(usize::MAX) | Err(MemFdMmapError::BufferTooLarge(_))
    ));
    assert_eq!(MemFdMapping { addr: 1, len: 9 }.size(), 9);
}

/// Sees every buffer at its offset.
#[derive(Default)]
struct Window {
    removed: Vec<u64>,
    stuck: bool,
}

impl VirtioMediaHostMemoryMapper for Window {
    type Handle = Vec<u8>;

    fn add_mapping(
        &mut self,
        _: &HostBuffer<Vec<u8>>,
        offset: u64,
        rw: bool,
    ) -> Result<u64, i32> {
        if rw {
            Ok(0x8000_0000 + offset)
        } else {
            Err(libc::EACCES)
        }
    }

    fn remove_mapping(&mut self, shm_offset: u64) -> Result<(), i32> {
        if self.stuck {
            return Err(libc::EIO);
        }
        self.removed.push(shm_offset);
        Ok(())
    }
}

fn host_buffer(len: u64) -> HostBuffer<Vec<u8>> {
    HostBuffer::from_raw_parts(vec![], 0, len, 0, None)
}

#[test]
fn offsets_are_page_aligned_and_reused() {
    let mut m = MmapMappingManager::new(Window::default());
    assert_eq!(m.register_buffer(0x1800), Ok(0));
    assert_eq!(m.register_buffer(1), Ok(0x2000));
    assert_eq!(m.register_buffer(0), Ok(0x3000));
    assert_eq!(m.register_buffer(0x1000), Ok(0x4000));
    m.unregister_buffer(0x2000);
    assert_eq!(m.register_buffer(0x1001), Ok(0x5000));
    assert_eq!(m.register_buffer(0x1000), Ok(0x2000));
    assert_eq!(m.register_buffer(u32::MAX), Err(libc::EINVAL));
}

#[test]
fn guest_mappings_are_made_and_removed() {
    let mut m = MmapMappingManager::new(Window::default());
    let offset = m.register_buffer(0x1000).unwrap();
    let buffer = host_buffer(0x1000);
    assert_eq!(m.create_mapping(0x7000, &buffer, true), Err(libc::EINVAL));
    assert_eq!(m.create_mapping(offset, &buffer, false), Err(libc::EACCES));
    assert!(!m.is_mapped(offset));
    assert_eq!(m.create_mapping(offset, &buffer, true), Ok((0x8000_0000, 0x1000)));
    assert!(m.is_mapped(offset));
    assert_eq!(m.remove_mapping(1), Err(libc::EINVAL));
    m.mapper.mapper.stuck = true;
    assert_eq!(m.remove_mapping(0x8000_0000), Err(libc::EIO));
    assert!(m.is_mapped(offset));
    m.mapper.mapper.stuck = false;
    assert_eq!(m.remove_mapping(0x8000_0000), Ok(()));
    assert!(!m.is_mapped(offset));
    assert_eq!(m.mapper.mapper.removed, vec![0x8000_0000]);
}

/// A buffer the guest maps is held until it no longer does; its offset is not given out meanwhile.
#[test]
fn retired_buffers_are_held_while_the_guest_maps_them() {
    let mut m = MmapMappingManager::new(Window::default());
    let mut pool = PoolPort::new(Heap {
        books: MemFdAllocator::new(),
    });
    let mut retired = RetiredBuffers::new();
    let a = pool.allocate(0x1000).ok().unwrap();
    let b = pool.allocate(0x1000).ok().unwrap();
    let (at_a, at_b) = (
        m.register_buffer(0x1000).unwrap(),
        m.register_buffer(0x1000).unwrap(),
    );
    m.create_mapping(at_a, &a, true).unwrap();
    retired.retire(&mut m, &mut pool, at_a, a);
    retired.retire(&mut m, &mut pool, at_b, b);
    assert_eq!(retired.held.len(), 1);
    assert_eq!(pool.allocator.books.live_buffers(), 1);
    assert_eq!(m.register_buffer(0x1000), Ok(at_b));
    retired.reap(&mut m, &mut pool);
    assert_eq!(retired.held.len(), 1);
    m.remove_mapping(0x8000_0000).unwrap();
    retired.reap(&mut m, &mut pool);
    assert!(retired.held.is_empty());
    assert_eq!(pool.allocator.books.live_buffers(), 0);
    assert_eq!(m.register_buffer(0x1000), Ok(at_a));
}
