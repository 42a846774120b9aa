//! The host side of GPU replay: frames, the replay-process protocol, and the plans that the
//! Vulkan calls follow.
pub mod checks;
pub mod descriptors;
pub mod device;
pub mod draw;
pub mod fitting;
pub mod frame;
pub mod outcome;
pub mod pipelines;
pub mod plans;
pub mod present;
pub mod process;
pub mod record;
pub mod server;
