//! The GPU broker: admission, token-bucket fair share and accounting for many VMs that
//! share one physical GPU.
pub mod account;
pub mod broker;
pub mod clock;
pub mod decisions;
pub mod laws;
pub mod policy;
pub mod roster;
