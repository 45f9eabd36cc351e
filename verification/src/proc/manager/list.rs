//! The list of the living processes.

use vstd::prelude::*;
use crate::proc::ProgramStatus;
use crate::proc::pid::ProcessId;
use crate::proc::process::Process;

use super::ProcessManager;

verus! {

/// What the list of processes shows of one process.
pub struct ProcessRow {
    pub pid: ProcessId,
    /// The number of the parent, or 0 where the process has none.
    pub ppid: u16,
    pub name: String,
    pub ticks: usize,
    /// The memory that the process uses, in bytes.
    pub memory: u64,
    pub status: ProgramStatus,
}

/// The list of the living processes, with the ready queue.
pub struct ProcessList {
    pub rows: Vec<ProcessRow>,
    pub ready_queue: Vec<ProcessId>,
}

/// Whether `row` shows the living process `process`.
pub open spec fn spec_row_shows(row: ProcessRow, process: Process) -> bool {
    &&& row.pid == process.pid
    &&& row.ppid == (match process.inner.parent {
        Some(parent) => parent.0,
        None => 0,
    })
    &&& row.name@ == process.inner.name@
    &&& row.ticks == process.inner.ticks_passed
    &&& row.memory == process.inner.proc_vm->0.spec_memory_usage()
    &&& row.status == process.inner.status
}

impl ProcessManager {
    /// The list of the processes, for the caller to print.
    ///
    /// It has a row for each living process and for no other, in the order
    /// of their identifiers, and the ready queue as it stands.
    pub fn print_process_list(&self) -> (list: ProcessList)
        requires
            self.wf(),
        ensures
            forall|i: int|
                0 <= i < list.rows@.len() ==> self.spec_alive((#[trigger] list.rows@[i]).pid.0)
                    && spec_row_shows(list.rows@[i], self.processes@[list.rows@[i].pid.0]),
            forall|k: u16| #[trigger]
                self.spec_alive(k) ==> exists|i: int|
                    0 <= i < list.rows@.len() && (#[trigger] list.rows@[i]).pid.0 == k,
            forall|i: int, j: int|
                0 <= i < j < list.rows@.len() ==> (#[trigger] list.rows@[i]).pid.0 < (
                #[trigger] list.rows@[j]).pid.0,
            list.ready_queue@ == self.ready_queue@,
    {
        let mut rows: Vec<ProcessRow> = Vec::new();
        let mut pid: u16 = 0;
        loop
            invariant_except_break
                forall|i: int|
                    0 <= i < rows@.len() ==> self.spec_alive((#[trigger] rows@[i]).pid.0)
                        && spec_row_shows(rows@[i], self.processes@[rows@[i].pid.0])
                        && rows@[i].pid.0 < pid,
                forall|k: u16|
                    k < pid && #[trigger] self.spec_alive(k) ==> exists|i: int|
                        0 <= i < rows@.len() && (#[trigger] rows@[i]).pid.0 == k,
                forall|i: int, j: int|
                    0 <= i < j < rows@.len() ==> (#[trigger] rows@[i]).pid.0 < (
                    #[trigger] rows@[j]).pid.0,
            invariant
                self.wf(),
            ensures
                forall|i: int|
                    0 <= i < rows@.len() ==> self.spec_alive((#[trigger] rows@[i]).pid.0)
                        && spec_row_shows(rows@[i], self.processes@[rows@[i].pid.0]),
                forall|k: u16| #[trigger]
                    self.spec_alive(k) ==> exists|i: int|
                        0 <= i < rows@.len() && (#[trigger] rows@[i]).pid.0 == k,
                forall|i: int, j: int|
                    0 <= i < j < rows@.len() ==> (#[trigger] rows@[i]).pid.0 < (
                    #[trigger] rows@[j]).pid.0,
            decreases u16::MAX - pid,
        {
            let ghost before = rows@;
            match self.processes.get(&pid) {
                Some(process) => match &process.inner.proc_vm {
                    Some(vm) => {
                        let row = ProcessRow {
                            pid: process.pid,
                            ppid: match process.inner.parent {
                                Some(parent) => parent.0,
                                None => 0,
                            },
                            name: process.inner.name.clone(),
                            ticks: process.inner.ticks_passed,
                            memory: vm.memory_usage(),
                            status: process.inner.status,
                        };
                        rows.push(row);
                        assert(rows@[before.len() as int].pid.0 == pid);
                    },
                    None => {},
                },
                None => {},
            }
            proof {
                assert forall|i: int| 0 <= i < before.len() implies rows@[i] == before[i] by {}
                assert forall|k: u16| k <= pid && #[trigger] self.spec_alive(k) implies exists|
                    i: int,
                |
                    0 <= i < rows@.len() && (#[trigger] rows@[i]).pid.0 == k by {
                    if k < pid {
                        let i = choose|i: int|
                            0 <= i < before.len() && (#[trigger] before[i]).pid.0 == k;
                        assert(rows@[i].pid.0 == k);
                    } else {
                        assert(rows@[before.len() as int].pid.0 == k);
                    }
                }
            }
            if pid == u16::MAX {
                break ;
            }
            pid = pid + 1;
        }
        let mut ready_queue: Vec<ProcessId> = Vec::new();
        let mut i: usize = 0;
        while i < self.ready_queue.len()
            invariant
                0 <= i <= self.ready_queue.len(),
                ready_queue@ == self.ready_queue@.take(i as int),
            decreases self.ready_queue.len() - i,
        {
            ready_queue.push(self.ready_queue[i]);
            assert(self.ready_queue@.take(i as int).push(self.ready_queue@[i as int])
                =~= self.ready_queue@.take(i + 1));
            i = i + 1;
        }
        assert(self.ready_queue@.take(i as int) =~= self.ready_queue@);
        ProcessList { rows, ready_queue }
    }
}

} // verus!
