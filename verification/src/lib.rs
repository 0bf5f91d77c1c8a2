//! Playback of still and animated images as timed sequences of pixel buffers.
//!
//! A picture is scaled to the size of the surfaces that show it and handed out
//! as tightly packed BGRA bytes. An animated source is played once from its
//! decoded frames while a compressed copy of every frame is collected, and
//! then replayed from that copy for as long as at least one output listens.

pub mod cache;
pub mod driver;
pub mod outputs;
pub mod resize;
pub mod router;
pub mod timing;
pub mod trace;
