use yatsenos::proc::manager::Image;
use yatsenos::proc::vm::PageRun;
use yatsenos::proc::{
    elf_spawn, exit, fork, init, switch, wait_pid, PageTableContext, ProcessContext, ProcessId,
    ProcessManager, ProgramStatus,
};
use yatsenos::storage::partition::{MbrPartition, MbrTable, PartitionTable};
use yatsenos::storage::{Block, BlockDevice, FsError, RamDisk};

fn image(table: u64) -> Option<Image> {
    Some(Image {
        page_table: PageTableContext::new(table),
        code: vec![PageRun { start: 0x40_0000, count: 1 }],
        entry: 0x40_0000,
    })
}

/// Every process of the ready queue is ready and stands there once, and
/// every process of the table stands under its own number.
fn in_order(manager: &ProcessManager) {
    let mut seen = std::collections::BTreeSet::new();
    for pid in manager.ready_queue.iter() {
        assert!(seen.insert(pid.0), "{} stands in the ready queue twice", pid.0);
        let process = manager.get_proc(pid).unwrap();
        assert_eq!(process.read().status(), ProgramStatus::Ready);
    }
    for (number, process) in manager.processes.iter() {
        assert_eq!(process.pid(), ProcessId(*number));
    }
    let running = manager
        .processes
        .values()
        .filter(|process| process.read().status() == ProgramStatus::Running)
        .count();
    assert!(running <= 1);
}

#[test]
fn ready_queue_stays_in_order() {
    let mut manager = init(PageTableContext::new(0x1000), &Vec::new(), None);
    let mut context = ProcessContext::new();
    in_order(&manager);
    let a = elf_spawn(&mut manager, String::from("a"), image(0x2000)).unwrap();
    in_order(&manager);
    let b = elf_spawn(&mut manager, String::from("b"), image(0x3000)).unwrap();
    in_order(&manager);
    switch(&mut manager, &mut context);
    in_order(&manager);
    assert_eq!(manager.current, a);
    let c = fork(&mut manager, &mut context, 1).unwrap();
    in_order(&manager);
    assert_eq!(manager.current, b);
    let d = fork(&mut manager, &mut context, 1).unwrap();
    in_order(&manager);
    assert_eq!(manager.current, ProcessId(1));
    wait_pid(&mut manager, d.0, &mut context);
    in_order(&manager);
    assert_eq!(manager.current, a);
    // the current process ends: it stands in no queue
    assert!(exit(&mut manager, 1, &mut context).is_some());
    in_order(&manager);
    assert_eq!(manager.current, c);
    for _ in 0..6 {
        switch(&mut manager, &mut context);
        in_order(&manager);
    }
    // a blocked process is killed: it stands in no queue
    manager.kill(ProcessId(1), 3);
    in_order(&manager);
    let mut pids: Vec<u16> = manager.processes.keys().copied().collect();
    pids.dedup();
    assert_eq!(pids, vec![1, a.0, b.0, c.0, d.0]);
    let e = elf_spawn(&mut manager, String::from("e"), image(0x4000)).unwrap();
    assert!(![1, a.0, b.0, c.0, d.0].contains(&e.0));
    in_order(&manager);
}

#[test]
fn killing_a_queued_process_takes_it_out_of_the_queue() {
    let mut manager = init(PageTableContext::new(0x1000), &Vec::new(), None);
    let a = elf_spawn(&mut manager, String::from("a"), image(0x2000)).unwrap();
    let b = elf_spawn(&mut manager, String::from("b"), image(0x3000)).unwrap();
    let c = elf_spawn(&mut manager, String::from("c"), image(0x4000)).unwrap();
    in_order(&manager);
    manager.kill(b, 42);
    assert_eq!(manager.get_exit_code(&b), Some(42));
    assert_eq!(manager.ready_queue.iter().copied().collect::<Vec<_>>(), vec![a, c]);
    in_order(&manager);
    assert!(manager.processes.contains_key(&b.0));
    let mut context = ProcessContext::new();
    for _ in 0..6 {
        switch(&mut manager, &mut context);
        assert!(!manager.ready_queue.contains(&b));
        assert!(manager.current != b);
        in_order(&manager);
    }
    manager.kill(a, 1);
    manager.kill(c, 2);
    manager.kill(ProcessId(1), 3);
    assert!(manager.ready_queue.is_empty());
    in_order(&manager);
}

fn mbr_block() -> Block {
    let mut block = Block::default();
    let entries: [(u8, u8, u32, u32); 4] =
        [(0x00, 0x06, 1, 10), (0x80, 0x06, 0x0800, 0x1_0000), (0x80, 0x0b, 0x2_0000, 5), (0, 0, 0, 0)];
    for (i, (status, kind, begin, total)) in entries.iter().enumerate() {
        let at = 0x1BE + 16 * i;
        block.contents[at] = *status;
        block.contents[at + 4] = *kind;
        block.contents[at + 8..at + 12].copy_from_slice(&begin.to_le_bytes());
        block.contents[at + 12..at + 16].copy_from_slice(&total.to_le_bytes());
    }
    block.contents[510] = 0x55;
    block.contents[511] = 0xAA;
    block
}

#[test]
fn partition_table_names_the_active_partitions() {
    let block = mbr_block();
    assert_eq!(
        MbrPartition::parse(&block, 1),
        MbrPartition { status: 0x80, kind: 0x06, begin_lba: 0x0800, total_lba: 0x1_0000 }
    );
    assert!(MbrPartition::parse(&block, 1).is_active());
    assert!(!MbrPartition::parse(&block, 0).is_active());
    let table = MbrTable::read(RamDisk::new(vec![mbr_block()])).unwrap();
    assert_eq!(table.active(), vec![(0x0800, 0x1_0000), (0x2_0000, 5)]);
    assert_eq!(table.partitions[3], MbrPartition { status: 0, kind: 0, begin_lba: 0, total_lba: 0 });
    assert_eq!(
        MbrTable::from_block(RamDisk::new(Vec::new()), &Block::default()).err(),
        Some(FsError::InvalidOperation)
    );
    assert_eq!(MbrTable::read(RamDisk::new(Vec::new())).err(), Some(FsError::InvalidOffset));
    let disk = RamDisk::new(vec![mbr_block()]);
    assert_eq!(disk.block_count(), Ok(1));
}

/// A device that can be copied: it holds a partition table and nothing
/// else.
#[derive(Clone, Copy)]
struct TableOnly;

impl BlockDevice for TableOnly {
    fn blocks(&self) -> vstd::seq::Seq<vstd::seq::Seq<u8>> {
        panic!("what a device holds is only spoken of in proofs")
    }

    fn reliable(&self) -> bool {
        panic!("whether a device is reliable is only spoken of in proofs")
    }

    fn block_count(&self) -> Result<usize, FsError> {
        Ok(1)
    }

    fn read_block(&self, offset: usize, block: &mut Block) -> Result<(), FsError> {
        if offset != 0 {
            return Err(FsError::InvalidOffset);
        }
        block.contents = mbr_block().contents;
        Ok(())
    }

    fn write_block(&mut self, _offset: usize, _block: &Block) -> Result<(), FsError> {
        Err(FsError::ReadOnly)
    }
}

#[test]
fn partitions_of_a_device() {
    let table: MbrTable<TableOnly> = PartitionTable::parse(TableOnly).unwrap();
    let partitions = table.partitions().unwrap();
    assert_eq!(partitions.len(), 2);
    assert_eq!((partitions[0].offset, partitions[0].size), (0x0800, 0x1_0000));
    assert_eq!((partitions[1].offset, partitions[1].size), (0x2_0000, 5));
    let mut block = Block::default();
    assert_eq!(partitions[0].read_block(0, &mut block), Err(FsError::InvalidOffset));
}
