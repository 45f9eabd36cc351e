//! The process subsystem of a small multitasking kernel, with the pieces of
//! its storage and user libraries whose behaviour can be stated exactly.
//!
//! Everything that touches hardware (page tables, the frame allocator,
//! control registers, the disk) stays with the caller. The functions here
//! decide what has to be done and keep the books: a function that needs
//! pages mapped comes with a `*_plan` function that names the pages, and
//! takes as an argument whether the caller could map them.

pub mod apps;
pub mod drivers;
pub mod proc;
pub mod storage;
pub mod syscall;
pub mod user;
pub mod utils;
