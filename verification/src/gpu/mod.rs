//! What the GPU is asked to do, as plain data: object and command plans in Vulkan's numbers,
//! and the decisions that go with them.
pub mod bounded;
pub mod commands;
pub mod machine;
pub mod memo;
pub mod memory;
pub mod scratch;
pub mod steps;
pub mod vk;
