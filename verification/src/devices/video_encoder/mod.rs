//! A stateful V4L2 memory-to-memory video encoder over a codec backend.
pub mod backend;
pub mod buffer_ioctls;
pub mod buffer_laws;
pub mod buffers;
pub mod capabilities;
pub mod codec;
pub mod config;
pub mod control_ioctls;
pub mod control_laws;
pub mod control_set_laws;
pub mod control_table;
pub mod controls;
pub mod device;
pub mod endings;
pub mod format_ioctls;
pub mod format_laws;
pub mod frames;
pub mod ioctls;
pub mod laws;
pub mod lifecycle;
pub mod loans;
pub mod menus;
pub mod name_laws;
pub mod parameters;
pub mod places;
pub mod queue;
pub mod queueing_laws;
pub mod ranges;
pub mod refusal_laws;
pub mod report_laws;
pub mod session;
pub mod session_laws;
pub mod start_laws;
pub mod stream_ioctls;
pub mod virtio;

pub use backend::{
    Colorimetry, EncoderConfig, EncoderEvent, FrameKind, FrameRate, InputBuffer, OutputBuffer,
    SendPtr, VideoEncoderBackend, VideoEncoderBackendSession,
};
pub use capabilities::{CodedFormat, EncoderCapabilities};
pub use device::VideoEncoder;
pub use ranges::{ControlRange, FrameRateRange, QpRange, SizeRange};
pub use session::VideoEncoderSession;
