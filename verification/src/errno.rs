//! The Linux error codes a device answers the guest with.
use vstd::prelude::*;

verus! {

/// Input/output error.
pub const EIO: i32 = 5;

/// Out of memory: the backing store of an allocator is exhausted.
pub const ENOMEM: i32 = 12;

/// Permission denied: a read-only control was set, or a write-only one read.
pub const EACCES: i32 = 13;

/// Device or resource busy.
pub const EBUSY: i32 = 16;

/// No such device: the session is over.
pub const ENODEV: i32 = 19;

/// Invalid argument.
pub const EINVAL: i32 = 22;

/// Inappropriate ioctl: the device does not implement it.
pub const ENOTTY: i32 = 25;

/// A menu value outside the range of the menu.
pub const ERANGE: i32 = 34;

} // verus!
