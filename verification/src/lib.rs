//! Host-side helpers to write virtio-media devices, and a stateful V4L2 video encoder.
//!
//! Everything here is independent of the VMM and of the codec it runs on. A VMM implements a
//! handful of traits (`host`): how events reach the guest, how guest memory is mapped, where
//! host-owned buffers come from and how they are made visible to the guest. A codec implements
//! the two traits of `devices::video_encoder::backend`. In between, `runner` serves the commands of
//! the guest driver, `ioctl` reads, hands on and answers its ioctls, and the device keeps the
//! queues, formats and controls.
//!
//! Contracts are stated over mathematical views. Whatever a VMM or a codec answers is recorded in
//! the ghost part of a port, so a contract says which calls an operation makes, in which order, and
//! what it does for every answer; the invariants say that what is on record was done.
pub mod bytes;
pub mod device;
pub mod devices;
pub mod errno;
pub mod formats;
pub mod host;
pub mod ioctl;
pub mod memfd;
pub mod mmap;
pub mod payload;
pub mod protocol;
pub mod runner;
pub mod v4l2;

pub use device::{VirtioMediaDevice, VirtioMediaDeviceSession};
pub use host::{
    guest_mapping_errno, GuestMappingError, GuestMemoryRange, HostBuffer,
    VirtioMediaBufferAllocator, VirtioMediaEventQueue, VirtioMediaGuestMemoryMapper,
    VirtioMediaHostMemoryMapper,
};
pub use memfd::MemFdAllocator;
pub use runner::VirtioMediaDeviceRunner;
