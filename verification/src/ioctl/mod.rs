//! The ioctl interface: what a guest may ask of a device, and how it travels.
pub mod codes;
pub mod handler;
pub mod laws;
pub mod layout;
pub mod read;
pub mod reply;
pub mod request_laws;
pub mod requests;
pub mod types;
pub mod word_laws;

pub use crate::payload::PayloadValidity;
pub use handler::{not_supported, virtio_media_dispatch_ioctl, VirtioMediaIoctlHandler};
pub use read::{get_userptr_regions, GuestV4l2Buffer, MAX_SG_ENTRIES};
pub use types::IoctlResult;
