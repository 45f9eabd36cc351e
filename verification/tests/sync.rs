use yatsenos::proc::{ProcessId, Semaphore, SemaphoreResult, SemaphoreSet};

#[test]
fn fresh_semaphore_lets_as_many_pass_as_it_has_permits() {
    let mut sem = Semaphore::new(3);
    assert_eq!(sem.wait(ProcessId(10)), SemaphoreResult::Done);
    assert_eq!(sem.wait(ProcessId(11)), SemaphoreResult::Done);
    assert_eq!(sem.wait(ProcessId(12)), SemaphoreResult::Done);
    assert_eq!(sem.count, 0);
    assert!(sem.wait_queue.is_empty());
    assert_eq!(sem.wait(ProcessId(13)), SemaphoreResult::Block(ProcessId(13)));
    assert_eq!(sem.count, 0);
    assert_eq!(sem.wait_queue.len(), 1);
}

#[test]
fn semaphore_with_no_permits_blocks_the_first() {
    let mut sem = Semaphore::new(0);
    assert_eq!(sem.wait(ProcessId(2)), SemaphoreResult::Block(ProcessId(2)));
}

#[test]
fn signal_wakes_the_oldest_waiter_first() {
    let mut sem = Semaphore::new(0);
    sem.wait(ProcessId(5));
    sem.wait(ProcessId(3));
    sem.wait(ProcessId(9));
    assert_eq!(sem.signal(), SemaphoreResult::WakeUp(ProcessId(5)));
    assert_eq!(sem.count, 0);
    assert_eq!(sem.signal(), SemaphoreResult::WakeUp(ProcessId(3)));
    assert_eq!(sem.signal(), SemaphoreResult::WakeUp(ProcessId(9)));
    assert_eq!(sem.count, 0);
    assert_eq!(sem.signal(), SemaphoreResult::Done);
    assert_eq!(sem.count, 1);
    assert_eq!(sem.signal(), SemaphoreResult::Done);
    assert_eq!(sem.count, 2);
}

#[test]
fn semaphore_set_create_and_remove() {
    let mut set = SemaphoreSet::new();
    assert!(set.insert(1, 2));
    assert!(!set.insert(1, 7));
    assert_eq!(set.sems.get(&1).unwrap().count, 2);
    assert!(set.insert(2, 0));
    assert!(set.remove(1));
    assert!(!set.remove(1));
    assert!(!set.remove(3));
    assert_eq!(set.sems.len(), 1);
}

#[test]
fn semaphore_set_unknown_key() {
    let mut set = SemaphoreSet::new();
    assert_eq!(set.wait(4, ProcessId(1)), SemaphoreResult::NotExist);
    assert_eq!(set.signal(4), SemaphoreResult::NotExist);
    assert!(set.sems.is_empty());
}

#[test]
fn semaphore_set_wait_and_signal() {
    let mut set = SemaphoreSet::new();
    set.insert(7, 1);
    assert_eq!(set.wait(7, ProcessId(1)), SemaphoreResult::Done);
    assert_eq!(set.wait(7, ProcessId(2)), SemaphoreResult::Block(ProcessId(2)));
    assert_eq!(set.wait(7, ProcessId(3)), SemaphoreResult::Block(ProcessId(3)));
    assert_eq!(set.signal(7), SemaphoreResult::WakeUp(ProcessId(2)));
    assert_eq!(set.signal(7), SemaphoreResult::WakeUp(ProcessId(3)));
    assert_eq!(set.signal(7), SemaphoreResult::Done);
    assert_eq!(set.sems.get(&7).unwrap().count, 1);
}
