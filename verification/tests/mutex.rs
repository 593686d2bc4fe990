use vexide::sync::mutex::{Mutex, MutexGuard, MutexLockFuture, RawMutex};

#[test]
fn raw_mutex_try_lock_succeeds_only_when_unlocked() {
    let mut raw = RawMutex::new();
    assert!(!raw.is_locked());
    assert!(raw.try_lock());
    assert!(raw.is_locked());
    assert!(!raw.try_lock());
    assert_eq!(raw.unlock(), None);
    assert!(!raw.is_locked());
    assert!(raw.try_lock());
}

#[test]
fn raw_mutex_fast_path_acquires_at_the_first_poll() {
    let mut raw = RawMutex::new();
    assert!(raw.poll_lock(1));
    assert!(raw.is_locked());
    assert_eq!(raw.waiting(), 0);
}

#[test]
fn raw_mutex_unlock_transfers_ownership_to_the_head_waiter() {
    let mut raw = RawMutex::new();
    assert!(raw.try_lock());
    assert!(!raw.poll_lock(1));
    assert!(!raw.poll_lock(2));
    assert_eq!(raw.waiting(), 2);
    assert_eq!(raw.unlock(), Some(1));
    // The lock stays locked: it is committed to task 1.
    assert!(raw.is_locked());
    assert!(!raw.try_lock());
    assert!(!raw.poll_lock(3));
    assert!(raw.poll_lock(1));
    assert_eq!(raw.unlock(), Some(2));
    assert!(raw.poll_lock(2));
    assert_eq!(raw.unlock(), Some(3));
    assert!(raw.poll_lock(3));
    assert_eq!(raw.unlock(), None);
    assert!(!raw.is_locked());
}

#[test]
fn raw_mutex_repeated_poll_of_a_waiter_keeps_its_place() {
    let mut raw = RawMutex::new();
    assert!(raw.try_lock());
    assert!(!raw.poll_lock(1));
    assert!(!raw.poll_lock(2));
    assert!(!raw.poll_lock(1));
    assert_eq!(raw.waiting(), 2);
    assert_eq!(raw.unlock(), Some(1));
}

#[test]
fn raw_mutex_cancel_removes_a_waiter() {
    let mut raw = RawMutex::new();
    assert!(raw.try_lock());
    assert!(!raw.poll_lock(1));
    assert!(!raw.poll_lock(2));
    assert_eq!(raw.cancel(1), None);
    assert_eq!(raw.waiting(), 1);
    assert_eq!(raw.unlock(), Some(2));
}

#[test]
fn raw_mutex_cancel_of_the_granted_task_passes_the_lock_on() {
    let mut raw = RawMutex::new();
    assert!(raw.try_lock());
    assert!(!raw.poll_lock(1));
    assert!(!raw.poll_lock(2));
    assert_eq!(raw.unlock(), Some(1));
    assert_eq!(raw.cancel(1), Some(2));
    assert!(raw.is_locked());
    assert!(raw.poll_lock(2));
    assert_eq!(raw.unlock(), None);
}

#[test]
fn raw_mutex_cancel_of_the_last_granted_task_unlocks() {
    let mut raw = RawMutex::new();
    assert!(raw.try_lock());
    assert!(!raw.poll_lock(1));
    assert_eq!(raw.unlock(), Some(1));
    assert_eq!(raw.cancel(1), None);
    assert!(!raw.is_locked());
    assert!(raw.try_lock());
}

#[test]
fn raw_mutex_cancel_of_an_unknown_task_changes_nothing() {
    let mut raw = RawMutex::new();
    assert!(raw.try_lock());
    assert!(!raw.poll_lock(1));
    assert_eq!(raw.cancel(9), None);
    assert_eq!(raw.waiting(), 1);
    assert!(raw.is_locked());
}

#[test]
fn mutex_try_lock_gives_the_guard_or_would_block() {
    let mut mutex = Mutex::new(5u32);
    let guard = mutex.try_lock();
    assert!(guard.is_some());
    assert!(mutex.try_lock().is_none());
    assert_eq!(*mutex.get(guard.as_ref().unwrap()), 5);
    assert_eq!(mutex.unlock(guard.unwrap()), None);
    assert!(mutex.try_lock().is_some());
}

#[test]
fn mutex_guard_gives_read_and_write_access() {
    let mut mutex = Mutex::new(vec![1, 2]);
    let mut guard = mutex.try_lock().unwrap();
    mutex.get_mut(&mut guard).push(3);
    assert_eq!(*mutex.get(&guard), vec![1, 2, 3]);
    let previous = mutex.replace(&mut guard, vec![9]);
    assert_eq!(previous, vec![1, 2, 3]);
    assert_eq!(mutex.unlock(guard), None);
    assert_eq!(mutex.into_inner(), vec![9]);
}

enum Task {
    Waiting(MutexLockFuture),
    Holding(MutexGuard, u32),
    Finished,
}

#[test]
fn mutual_exclusion_counter_never_exceeds_one() {
    // Five tasks enter the critical section three times each and stay in it for
    // two steps of the scheduler. `inside` is raised on entry, lowered on exit.
    let mut mutex = Mutex::new(0u32);
    let mut inside: u32 = 0;
    let mut entries_left = [3u32; 5];
    let mut tasks: Vec<Task> = (0..5u64).map(|task| Task::Waiting(mutex.lock(task))).collect();
    let mut steps = 0;
    while tasks.iter().any(|task| !matches!(task, Task::Finished)) {
        steps += 1;
        assert!(steps < 1000);
        for index in 0..tasks.len() {
            let state = std::mem::replace(&mut tasks[index], Task::Finished);
            tasks[index] = match state {
                Task::Waiting(mut future) => match future.poll(&mut mutex) {
                    Some(mut guard) => {
                        inside += 1;
                        assert!(inside <= 1);
                        *mutex.get_mut(&mut guard) += 1;
                        Task::Holding(guard, 2)
                    }
                    None => Task::Waiting(future),
                },
                Task::Holding(guard, 0) => {
                    assert_eq!(inside, 1);
                    inside -= 1;
                    mutex.unlock(guard);
                    entries_left[index] -= 1;
                    if entries_left[index] > 0 {
                        Task::Waiting(mutex.lock(index as u64))
                    } else {
                        Task::Finished
                    }
                }
                Task::Holding(guard, left) => {
                    assert_eq!(inside, 1);
                    Task::Holding(guard, left - 1)
                }
                Task::Finished => Task::Finished,
            };
        }
    }
    assert_eq!(inside, 0);
    assert!(!mutex.is_locked());
    assert_eq!(mutex.into_inner(), 15);
}

#[test]
fn no_lost_wakeup_after_release() {
    // Task A locks, task B attempts, task A unlocks: B is woken and resumes at
    // its next poll.
    let mut mutex = Mutex::new(());
    let mut a = mutex.lock(1);
    let mut b = mutex.lock(2);
    let guard_a = a.poll(&mut mutex).expect("the mutex is free");
    assert!(b.poll(&mut mutex).is_none());
    assert_eq!(mutex.unlock(guard_a), Some(2));
    let guard_b = b.poll(&mut mutex).expect("the lock was handed to B");
    assert!(b.is_completed());
    assert_eq!(mutex.unlock(guard_b), None);
    assert!(!mutex.is_locked());
}

#[test]
fn fifo_fairness_tasks_acquire_in_queue_order() {
    let mut mutex = Mutex::new(Vec::<u64>::new());
    let mut holder = mutex.try_lock();
    let mut futures: Vec<MutexLockFuture> = (1..=8u64).map(|task| mutex.lock(task)).collect();
    for future in futures.iter_mut() {
        assert!(future.poll(&mut mutex).is_none());
    }
    let mut woken = Vec::new();
    for _ in 0..8 {
        let wake = mutex.unlock(holder.take().unwrap()).expect("tasks wait");
        woken.push(wake);
        // Every pending task is polled; only the woken one acquires.
        let mut acquired = Vec::new();
        for (index, future) in futures.iter_mut().enumerate() {
            if let Some(mut guard) = future.poll(&mut mutex) {
                mutex.get_mut(&mut guard).push(index as u64 + 1);
                acquired.push(guard);
            }
        }
        assert_eq!(acquired.len(), 1);
        holder = acquired.pop();
    }
    assert_eq!(mutex.unlock(holder.take().unwrap()), None);
    assert_eq!(woken, vec![1, 2, 3, 4, 5, 6, 7, 8]);
    assert_eq!(mutex.into_inner(), vec![1, 2, 3, 4, 5, 6, 7, 8]);
}

#[test]
fn a_late_arrival_cannot_overtake_the_woken_task() {
    let mut mutex = Mutex::new(());
    let guard = mutex.try_lock().unwrap();
    let mut waiter = mutex.lock(1);
    assert!(waiter.poll(&mut mutex).is_none());
    assert_eq!(mutex.unlock(guard), Some(1));
    // Task 2 arrives before task 1 has resumed.
    assert!(mutex.try_lock().is_none());
    let mut late = mutex.lock(2);
    assert!(late.poll(&mut mutex).is_none());
    let guard = waiter.poll(&mut mutex).expect("the lock is committed to task 1");
    assert_eq!(mutex.unlock(guard), Some(2));
    assert!(late.poll(&mut mutex).is_some());
}

#[test]
fn a_completed_lock_future_yields_nothing_more() {
    let mut mutex = Mutex::new(());
    let mut future = mutex.lock(1);
    assert!(!future.is_completed());
    let guard = future.poll(&mut mutex).unwrap();
    assert!(future.is_completed());
    assert!(future.poll(&mut mutex).is_none());
    // The second poll has not queued the task.
    assert_eq!(mutex.unlock(guard), None);
    assert_eq!(future.cancel(&mut mutex), None);
    assert!(!mutex.is_locked());
}

#[test]
fn cancelling_a_pending_lock_future_leaves_the_queue() {
    let mut mutex = Mutex::new(());
    let guard = mutex.try_lock().unwrap();
    let mut first = mutex.lock(1);
    let mut second = mutex.lock(2);
    assert!(first.poll(&mut mutex).is_none());
    assert!(second.poll(&mut mutex).is_none());
    assert_eq!(first.cancel(&mut mutex), None);
    assert_eq!(mutex.unlock(guard), Some(2));
    assert!(second.poll(&mut mutex).is_some());
}

#[test]
fn cancelling_a_woken_lock_future_wakes_the_next() {
    let mut mutex = Mutex::new(());
    let guard = mutex.try_lock().unwrap();
    let mut first = mutex.lock(1);
    let mut second = mutex.lock(2);
    assert!(first.poll(&mut mutex).is_none());
    assert!(second.poll(&mut mutex).is_none());
    assert_eq!(mutex.unlock(guard), Some(1));
    assert_eq!(first.cancel(&mut mutex), Some(2));
    let guard = second.poll(&mut mutex).expect("the lock went on to task 2");
    assert_eq!(mutex.unlock(guard), None);
}

#[test]
fn relocking_by_the_holder_waits_for_ever() {
    // A task that holds the lock and asks for it again is queued like any other;
    // nothing detects that it waits for itself.
    let mut mutex = Mutex::new(());
    let guard = mutex.poll_lock(1).unwrap();
    assert!(mutex.poll_lock(1).is_none());
    assert!(mutex.poll_lock(1).is_none());
    // Only the release of the guard that it holds lets it through.
    assert_eq!(mutex.unlock(guard), Some(1));
    assert!(mutex.poll_lock(1).is_some());
}

#[test]
fn a_long_run_never_hands_out_two_guards_and_wakes_in_order() {
    // A fixed pseudo-random run of attempts, polls, releases and withdrawals by
    // six tasks, held against a plain record of who holds and who waits.
    let mut raw = RawMutex::new();
    let mut guards = 0u32;
    let mut granted: Option<u64> = None;
    let mut waiting: Vec<u64> = Vec::new();
    let mut seed: u64 = 0x9E37_79B9_7F4A_7C15;
    let mut acquisitions = 0;
    for _ in 0..20_000 {
        seed = seed.wrapping_mul(6364136223846793005).wrapping_add(1442695040888963407);
        let task = (seed >> 33) % 6;
        match (seed >> 29) % 8 {
            0 => {
                let free = guards == 0 && granted.is_none();
                assert_eq!(raw.try_lock(), free);
                if free {
                    guards += 1;
                    acquisitions += 1;
                }
            }
            1 | 2 | 3 => {
                let acquired = raw.poll_lock(task);
                if granted == Some(task) {
                    assert!(acquired);
                    granted = None;
                } else if guards == 0 && granted.is_none() {
                    assert!(acquired);
                } else {
                    assert!(!acquired);
                    if !waiting.contains(&task) {
                        waiting.push(task);
                    }
                }
                if acquired {
                    guards += 1;
                    acquisitions += 1;
                }
            }
            4 | 5 => {
                if guards == 1 {
                    let wake = raw.unlock();
                    guards -= 1;
                    let expected = if waiting.is_empty() { None } else { Some(waiting.remove(0)) };
                    assert_eq!(wake, expected);
                    granted = wake;
                }
            }
            _ => {
                let wake = raw.cancel(task);
                if granted == Some(task) {
                    let expected = if waiting.is_empty() { None } else { Some(waiting.remove(0)) };
                    assert_eq!(wake, expected);
                    granted = wake;
                } else {
                    assert_eq!(wake, None);
                    waiting.retain(|waiter| *waiter != task);
                }
            }
        }
        assert!(guards <= 1);
        assert_eq!(raw.is_held(), guards == 1);
        assert_eq!(raw.is_locked(), guards == 1 || granted.is_some());
        assert_eq!(raw.waiting(), waiting.len());
    }
    assert!(acquisitions > 1000);
}
