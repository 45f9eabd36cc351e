//! The handle by which a process names its page table.

use vstd::prelude::*;

verus! {

/// A handle to a page table: the address of the frame of its top level.
///
/// Handles with the same address name the same table. The process table
/// counts the address spaces that use each.
#[derive(Clone, Copy, Debug, PartialEq, Eq, Structural)]
pub struct PageTableContext {
    pub addr: u64,
}

impl PageTableContext {
    /// The handle to the table whose top level lies in the frame at `addr`.
    pub fn new(addr: u64) -> (table: PageTableContext)
        ensures
            table.addr == addr,
    {
        PageTableContext { addr }
    }

    /// The handle to a copy of this table's top level, which the caller
    /// has made in the frame at `frame`.
    pub fn clone_level_4(&self, frame: u64) -> (table: PageTableContext)
        ensures
            table.addr == frame,
    {
        PageTableContext { addr: frame }
    }

    /// One more handle to this table.
    pub fn fork(&self) -> (table: PageTableContext)
        ensures
            table == *self,
    {
        PageTableContext { addr: self.addr }
    }
}

} // verus!
