//! What programs in user mode are built with.

pub mod io;
pub mod rand;
