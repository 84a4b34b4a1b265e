//! The devices.
pub mod video_encoder;
