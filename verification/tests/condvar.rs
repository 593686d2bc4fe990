use vexide::sync::condvar::{Condvar, WaitStage};
use vexide::sync::mutex::Mutex;

#[test]
fn wait_releases_the_mutex_and_queues_the_task() {
    let mut mutex = Mutex::new(0u32);
    let mut condvar = Condvar::new();
    let guard = mutex.try_lock().unwrap();
    let mut wait = condvar.wait(guard, 1);
    assert_eq!(wait.current_stage(), WaitStage::Armed);
    assert!(mutex.is_locked());
    let out = wait.poll(&mut condvar, &mut mutex);
    assert!(out.guard.is_none());
    assert_eq!(out.wake, None);
    assert_eq!(wait.current_stage(), WaitStage::Waiting);
    assert!(!mutex.is_locked());
    assert_eq!(condvar.waiting(), 1);
}

#[test]
fn wait_hands_the_mutex_to_a_task_that_waits_for_it() {
    let mut mutex = Mutex::new(());
    let mut condvar = Condvar::new();
    let guard = mutex.try_lock().unwrap();
    assert!(mutex.poll_lock(7).is_none());
    let mut wait = condvar.wait(guard, 1);
    let out = wait.poll(&mut condvar, &mut mutex);
    assert_eq!(out.wake, Some(7));
    assert!(mutex.is_locked());
    assert!(mutex.poll_lock(7).is_some());
}

#[test]
fn a_task_is_not_woken_without_a_notification() {
    let mut mutex = Mutex::new(());
    let mut condvar = Condvar::new();
    let guard = mutex.try_lock().unwrap();
    let mut wait = condvar.wait(guard, 1);
    wait.poll(&mut condvar, &mut mutex);
    for _ in 0..5 {
        let out = wait.poll(&mut condvar, &mut mutex);
        assert!(out.guard.is_none());
        assert_eq!(wait.current_stage(), WaitStage::Waiting);
    }
    assert!(!mutex.is_locked());
    assert_eq!(condvar.waiting(), 1);
}

#[test]
fn notify_one_wakes_exactly_one_task_in_fifo_order() {
    let mut mutex = Mutex::new(());
    let mut condvar = Condvar::new();
    let mut waits = Vec::new();
    for task in 1..=3u64 {
        let guard = mutex.try_lock().unwrap();
        let mut wait = condvar.wait(guard, task);
        wait.poll(&mut condvar, &mut mutex);
        waits.push(wait);
    }
    assert_eq!(condvar.waiting(), 3);
    assert_eq!(condvar.notify_one(), Some(1));
    assert_eq!(condvar.waiting(), 2);
    // Only the notified task gets through.
    assert!(waits[1].poll(&mut condvar, &mut mutex).guard.is_none());
    assert!(waits[2].poll(&mut condvar, &mut mutex).guard.is_none());
    let guard = waits[0].poll(&mut condvar, &mut mutex).guard.expect("task 1 was notified");
    assert_eq!(waits[0].current_stage(), WaitStage::Done);
    mutex.unlock(guard);
    assert_eq!(condvar.notify_one(), Some(2));
    assert_eq!(condvar.notify_one(), Some(3));
    assert_eq!(condvar.notify_one(), None);
}

#[test]
fn notify_on_an_empty_condvar_wakes_nobody() {
    let mut condvar = Condvar::new();
    assert_eq!(condvar.notify_one(), None);
    assert_eq!(condvar.notify_all(), Vec::<u64>::new());
}

#[test]
fn notify_all_wakes_every_waiter_and_they_take_turns() {
    let mut mutex = Mutex::new(0u32);
    let mut condvar = Condvar::new();
    let mut waits = Vec::new();
    for task in 1..=3u64 {
        let guard = mutex.try_lock().unwrap();
        let mut wait = condvar.wait(guard, task);
        wait.poll(&mut condvar, &mut mutex);
        waits.push(wait);
    }
    assert_eq!(condvar.notify_all(), vec![1, 2, 3]);
    assert_eq!(condvar.waiting(), 0);
    // All three resume. One gets the mutex, the others queue for it.
    let mut holding = Vec::new();
    for wait in waits.iter_mut() {
        if let Some(guard) = wait.poll(&mut condvar, &mut mutex).guard {
            holding.push(guard);
        }
    }
    assert_eq!(holding.len(), 1);
    assert_eq!(waits[0].current_stage(), WaitStage::Done);
    assert_eq!(waits[1].current_stage(), WaitStage::Relocking);
    assert_eq!(waits[2].current_stage(), WaitStage::Relocking);
    assert!(mutex.is_locked());
    // Each release lets the next one in; never two at once.
    assert_eq!(mutex.unlock(holding.pop().unwrap()), Some(2));
    assert!(waits[2].poll(&mut condvar, &mut mutex).guard.is_none());
    let guard = waits[1].poll(&mut condvar, &mut mutex).guard.expect("task 2 holds the lock");
    assert_eq!(mutex.unlock(guard), Some(3));
    let guard = waits[2].poll(&mut condvar, &mut mutex).guard.expect("task 3 holds the lock");
    assert_eq!(mutex.unlock(guard), None);
    assert!(!mutex.is_locked());
}

#[test]
fn a_woken_task_checks_its_predicate_again() {
    // A consumer waits until the value is nonzero. Two producers notify; by the
    // time the consumer holds the lock a second consumer has taken the value.
    let mut mutex = Mutex::new(0u32);
    let mut condvar = Condvar::new();
    let guard = mutex.try_lock().unwrap();
    let mut wait = condvar.wait(guard, 1);
    wait.poll(&mut condvar, &mut mutex);
    // Producer sets the value and notifies.
    let mut guard = mutex.try_lock().unwrap();
    *mutex.get_mut(&mut guard) = 1;
    assert_eq!(condvar.notify_all(), vec![1]);
    mutex.unlock(guard);
    // Another task takes the value before the consumer runs.
    let mut guard = mutex.try_lock().unwrap();
    *mutex.get_mut(&mut guard) = 0;
    // The consumer resumes: it has to wait for the mutex first.
    assert!(wait.poll(&mut condvar, &mut mutex).guard.is_none());
    assert_eq!(mutex.unlock(guard), Some(1));
    let guard = wait.poll(&mut condvar, &mut mutex).guard.expect("the consumer holds the lock");
    // It holds the lock, but its condition does not hold: it waits again.
    assert_eq!(*mutex.get(&guard), 0);
    let mut again = condvar.wait(guard, 1);
    again.poll(&mut condvar, &mut mutex);
    assert_eq!(again.current_stage(), WaitStage::Waiting);
    assert_eq!(condvar.waiting(), 1);
}

#[test]
fn cancelling_an_armed_wait_releases_the_mutex() {
    let mut mutex = Mutex::new(());
    let mut condvar = Condvar::new();
    let guard = mutex.try_lock().unwrap();
    assert!(mutex.poll_lock(5).is_none());
    let wait = condvar.wait(guard, 1);
    assert_eq!(wait.cancel(&mut condvar, &mut mutex), Some(5));
    assert_eq!(condvar.waiting(), 0);
}

#[test]
fn cancelling_a_waiting_task_removes_it_from_the_condvar() {
    let mut mutex = Mutex::new(());
    let mut condvar = Condvar::new();
    let mut waits = Vec::new();
    for task in 1..=2u64 {
        let guard = mutex.try_lock().unwrap();
        let mut wait = condvar.wait(guard, task);
        wait.poll(&mut condvar, &mut mutex);
        waits.push(wait);
    }
    let first = waits.remove(0);
    assert_eq!(first.cancel(&mut condvar, &mut mutex), None);
    assert_eq!(condvar.waiting(), 1);
    assert_eq!(condvar.notify_one(), Some(2));
}

#[test]
fn cancelling_a_relocking_task_passes_the_mutex_on() {
    let mut mutex = Mutex::new(());
    let mut condvar = Condvar::new();
    let guard = mutex.try_lock().unwrap();
    let mut wait = condvar.wait(guard, 1);
    wait.poll(&mut condvar, &mut mutex);
    let holder = mutex.try_lock().unwrap();
    condvar.notify_one();
    assert!(wait.poll(&mut condvar, &mut mutex).guard.is_none());
    assert_eq!(wait.current_stage(), WaitStage::Relocking);
    assert!(mutex.poll_lock(2).is_none());
    assert_eq!(mutex.unlock(holder), Some(1));
    // Task 1 is dropped after it was granted the lock.
    assert_eq!(wait.cancel(&mut condvar, &mut mutex), Some(2));
    assert!(mutex.poll_lock(2).is_some());
}

#[test]
fn a_finished_wait_yields_nothing_more() {
    let mut mutex = Mutex::new(());
    let mut condvar = Condvar::new();
    let guard = mutex.try_lock().unwrap();
    let mut wait = condvar.wait(guard, 1);
    wait.poll(&mut condvar, &mut mutex);
    condvar.notify_one();
    let guard = wait.poll(&mut condvar, &mut mutex).guard.unwrap();
    let out = wait.poll(&mut condvar, &mut mutex);
    assert!(out.guard.is_none());
    assert_eq!(out.wake, None);
    assert_eq!(mutex.unlock(guard), None);
}
