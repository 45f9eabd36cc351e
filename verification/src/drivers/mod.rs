//! What the kernel keeps for its devices.

pub mod input;
