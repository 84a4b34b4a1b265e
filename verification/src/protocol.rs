//! What travels between the device and the guest driver: scatter lists and events.
use vstd::prelude::*;

use crate::v4l2::V4l2Buffer;

verus! {

/// The guest asked for a writable mapping.
pub const VIRTIO_MEDIA_MMAP_FLAG_RW: u32 = 1;

/// One entry of a scatter list: `len` bytes of guest-physical memory at `start`.
#[derive(Clone, Copy, Debug, PartialEq, Eq, Structural)]
pub struct SgEntry {
    pub start: u64,
    pub len: u32,
}

impl SgEntry {
    /// An entry.
    pub fn new(start: u64, len: u32) -> (r: SgEntry)
        ensures
            r == (SgEntry { start, len }),
    {
        SgEntry { start, len }
    }
}

/// The state of a control, as a control event carries it.
#[derive(Clone, Copy, Debug, PartialEq, Eq, Structural)]
pub struct CtrlEvent {
    pub changes: u32,
    pub type_: u32,
    pub value: i32,
    pub flags: u32,
    pub minimum: i32,
    pub maximum: i32,
    pub step: i32,
    pub default_value: i32,
}

/// A `struct v4l2_event`.
#[derive(Clone, Copy, Debug, PartialEq, Eq)]
pub struct SessionEventData {
    pub type_: u32,
    pub id: u32,
    /// The control's state, on a control event.
    pub ctrl: Option<CtrlEvent>,
}

/// Something the device tells the guest about a session.
#[derive(Clone, Copy, Debug, PartialEq, Eq)]
pub enum V4l2Event {
    /// The session failed.
    Error { session_id: u32, errno: i32 },
    /// A buffer is back with the guest.
    DequeueBuffer { session_id: u32, buffer: V4l2Buffer },
    /// A V4L2 event.
    Event { session_id: u32, event: SessionEventData },
}

} // verus!
