//! Helpers of the kernel.

pub mod logger;
