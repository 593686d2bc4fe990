use vexide::sync::rwlock::RwLock;

#[test]
fn many_readers_share_the_lock() {
    let mut lock = RwLock::new(7u32);
    let mut guards = Vec::new();
    for _ in 0..100 {
        guards.push(lock.try_read().expect("readers share"));
    }
    assert_eq!(lock.reader_count(), 100);
    for guard in guards.iter() {
        assert_eq!(*lock.get(guard), 7);
    }
    for guard in guards {
        assert_eq!(lock.release_read(guard), Vec::<u64>::new());
    }
    assert_eq!(lock.reader_count(), 0);
}

#[test]
fn a_writer_is_not_admitted_while_a_reader_holds() {
    let mut lock = RwLock::new(());
    let reader = lock.try_read().unwrap();
    assert!(lock.try_write().is_none());
    assert_eq!(lock.release_read(reader), Vec::<u64>::new());
    assert!(lock.try_write().is_some());
}

#[test]
fn no_reader_is_admitted_while_a_writer_holds() {
    let mut lock = RwLock::new(1u8);
    let mut writer = lock.try_write().unwrap();
    assert!(lock.is_write_locked());
    assert!(lock.try_read().is_none());
    assert!(lock.try_write().is_none());
    *lock.get_mut(&mut writer) = 2;
    assert_eq!(*lock.peek(&writer), 2);
    assert_eq!(lock.replace(&mut writer, 3), 2);
    assert_eq!(lock.release_write(writer), Vec::<u64>::new());
    let reader = lock.try_read().unwrap();
    assert_eq!(*lock.get(&reader), 3);
}

#[test]
fn a_queued_writer_blocks_new_readers() {
    let mut lock = RwLock::new(());
    let first = lock.try_read().unwrap();
    let mut writer = lock.write(10);
    assert!(writer.poll(&mut lock).is_none());
    // A reader that arrives now queues behind the writer, although readers hold.
    assert!(lock.try_read().is_none());
    let mut late = lock.read(11);
    assert!(late.poll(&mut lock).is_none());
    assert_eq!(lock.reader_count(), 1);
    // The reader that already holds finishes normally; the writer is next.
    assert_eq!(lock.release_read(first), vec![10]);
    assert!(late.poll(&mut lock).is_none());
    let guard = writer.poll(&mut lock).expect("the lock was handed to the writer");
    assert!(late.poll(&mut lock).is_none());
    assert_eq!(lock.release_write(guard), vec![11]);
    assert!(late.poll(&mut lock).is_some());
}

#[test]
fn release_prefers_a_waiting_writer_over_waiting_readers() {
    let mut lock = RwLock::new(());
    let holder = lock.try_write().unwrap();
    let mut reader = lock.read(1);
    let mut writer = lock.write(2);
    let mut second_writer = lock.write(3);
    assert!(reader.poll(&mut lock).is_none());
    assert!(writer.poll(&mut lock).is_none());
    assert!(second_writer.poll(&mut lock).is_none());
    assert_eq!(lock.release_write(holder), vec![2]);
    let guard = writer.poll(&mut lock).unwrap();
    assert_eq!(lock.release_write(guard), vec![3]);
    let guard = second_writer.poll(&mut lock).unwrap();
    assert_eq!(lock.release_write(guard), vec![1]);
    assert!(reader.poll(&mut lock).is_some());
}

#[test]
fn release_wakes_all_waiting_readers_together() {
    let mut lock = RwLock::new(());
    let holder = lock.try_write().unwrap();
    let mut readers: Vec<_> = (1..=4u64).map(|task| lock.read(task)).collect();
    for reader in readers.iter_mut() {
        assert!(reader.poll(&mut lock).is_none());
    }
    assert_eq!(lock.release_write(holder), vec![1, 2, 3, 4]);
    assert_eq!(lock.reader_count(), 4);
    // Access is committed to them: no writer gets in before they resume.
    assert!(lock.try_write().is_none());
    let mut guards = Vec::new();
    for reader in readers.iter_mut() {
        guards.push(reader.poll(&mut lock).expect("read access was granted"));
    }
    for guard in guards {
        lock.release_read(guard);
    }
    assert!(lock.try_write().is_some());
}

#[test]
fn the_last_reader_hands_the_lock_over() {
    let mut lock = RwLock::new(());
    let a = lock.try_read().unwrap();
    let b = lock.try_read().unwrap();
    let mut writer = lock.write(5);
    assert!(writer.poll(&mut lock).is_none());
    assert_eq!(lock.release_read(a), Vec::<u64>::new());
    assert!(writer.poll(&mut lock).is_none());
    assert_eq!(lock.release_read(b), vec![5]);
    assert!(writer.poll(&mut lock).is_some());
}

#[test]
fn cancelling_a_waiting_writer_leaves_the_queue() {
    let mut lock = RwLock::new(());
    let holder = lock.try_write().unwrap();
    let mut first = lock.write(1);
    let mut second = lock.write(2);
    assert!(first.poll(&mut lock).is_none());
    assert!(second.poll(&mut lock).is_none());
    assert_eq!(first.cancel(&mut lock), Vec::<u64>::new());
    assert_eq!(lock.release_write(holder), vec![2]);
    assert!(second.poll(&mut lock).is_some());
}

#[test]
fn cancelling_a_granted_writer_hands_the_lock_over() {
    let mut lock = RwLock::new(());
    let holder = lock.try_write().unwrap();
    let mut writer = lock.write(1);
    let mut reader = lock.read(2);
    assert!(writer.poll(&mut lock).is_none());
    assert!(reader.poll(&mut lock).is_none());
    assert_eq!(lock.release_write(holder), vec![1]);
    assert_eq!(writer.cancel(&mut lock), vec![2]);
    assert!(reader.poll(&mut lock).is_some());
    assert!(!lock.is_write_locked());
}

#[test]
fn cancelling_a_granted_reader_ends_its_access() {
    let mut lock = RwLock::new(());
    let holder = lock.try_write().unwrap();
    let mut reader = lock.read(1);
    let mut writer = lock.write(2);
    assert!(reader.poll(&mut lock).is_none());
    assert_eq!(lock.release_write(holder), vec![1]);
    assert!(writer.poll(&mut lock).is_none());
    assert_eq!(reader.cancel(&mut lock), vec![2]);
    assert_eq!(lock.reader_count(), 0);
    assert!(writer.poll(&mut lock).is_some());
}

#[test]
fn completed_access_futures_yield_nothing_more() {
    let mut lock = RwLock::new(());
    let mut read = lock.read(1);
    let guard = read.poll(&mut lock).unwrap();
    assert!(read.is_completed());
    assert!(read.poll(&mut lock).is_none());
    assert_eq!(lock.reader_count(), 1);
    assert_eq!(read.cancel(&mut lock), Vec::<u64>::new());
    lock.release_read(guard);
    let mut write = lock.write(2);
    let guard = write.poll(&mut lock).unwrap();
    assert!(write.is_completed());
    assert!(write.poll(&mut lock).is_none());
    assert_eq!(write.cancel(&mut lock), Vec::<u64>::new());
    assert_eq!(lock.release_write(guard), Vec::<u64>::new());
    assert_eq!(lock.into_inner(), ());
}

#[test]
fn readers_and_writers_never_overlap_in_a_scripted_run() {
    // Tasks 0..3 read, tasks 3..5 write, each twice. The scheduler polls every
    // pending task at every step and releases a held guard one step later.
    let mut lock = RwLock::new(0u32);
    let mut reading = 0u32;
    let mut writing = 0u32;
    let mut most_readers = 0u32;
    for _ in 0..2 {
        let mut reads: Vec<_> = (0..3u64).map(|task| lock.read(task)).collect();
        let mut writes: Vec<_> = (3..5u64).map(|task| lock.write(task)).collect();
        let mut read_guards = Vec::new();
        let mut write_guards = Vec::new();
        let mut done = 0;
        let mut steps = 0;
        while done < 5 {
            steps += 1;
            assert!(steps < 100);
            for guard in read_guards.drain(..) {
                reading -= 1;
                done += 1;
                lock.release_read(guard);
            }
            for guard in write_guards.drain(..) {
                writing -= 1;
                done += 1;
                lock.release_write(guard);
            }
            for write in writes.iter_mut() {
                if let Some(mut guard) = write.poll(&mut lock) {
                    writing += 1;
                    *lock.get_mut(&mut guard) += 1;
                    write_guards.push(guard);
                }
                assert!(writing <= 1);
                assert!(writing == 0 || reading == 0);
            }
            for read in reads.iter_mut() {
                if let Some(guard) = read.poll(&mut lock) {
                    reading += 1;
                    read_guards.push(guard);
                }
                assert!(writing == 0 || reading == 0);
                most_readers = most_readers.max(reading);
            }
        }
    }
    assert_eq!(most_readers, 3);
    assert_eq!(lock.into_inner(), 4);
}

#[test]
fn a_long_run_keeps_readers_and_writers_apart() {
    // A fixed pseudo-random run by eight tasks. Tasks 0..7 read, task 7 writes;
    // each holds at most one guard and has at most one access pending.
    let mut lock = RwLock::new(0u64);
    let mut read_guards: Vec<(u64, vexide::sync::rwlock::RwLockReadGuard)> = Vec::new();
    let mut write_guard: Option<(u64, vexide::sync::rwlock::RwLockWriteGuard)> = None;
    let mut seed: u64 = 0xD1B5_4A32_D192_ED03;
    let mut reads = 0;
    let mut writes = 0;
    let mut most_readers = 0;
    for _ in 0..20_000 {
        seed = seed.wrapping_mul(6364136223846793005).wrapping_add(1442695040888963407);
        let task = (seed >> 33) % 8;
        let holds = read_guards.iter().any(|(holder, _)| *holder == task)
            || write_guard.as_ref().map_or(false, |(holder, _)| *holder == task);
        match (seed >> 29) % 16 {
            0..=7 => {
                if holds {
                    continue;
                }
                if task < 7 {
                    if let Some(guard) = lock.poll_read(task) {
                        assert!(write_guard.is_none());
                        read_guards.push((task, guard));
                        reads += 1;
                    }
                } else if let Some(mut guard) = lock.poll_write(task) {
                    assert!(write_guard.is_none());
                    assert!(read_guards.is_empty());
                    *lock.get_mut(&mut guard) += 1;
                    write_guard = Some((task, guard));
                    writes += 1;
                }
            }
            8..=13 => {
                if let Some(place) = read_guards.iter().position(|(holder, _)| *holder == task) {
                    let (_, guard) = read_guards.remove(place);
                    lock.release_read(guard);
                } else if write_guard.as_ref().map_or(false, |(holder, _)| *holder == task) {
                    let (_, guard) = write_guard.take().unwrap();
                    lock.release_write(guard);
                }
            }
            14 => {
                if !holds {
                    if task < 7 {
                        lock.cancel_read(task);
                    } else {
                        lock.cancel_write(task);
                    }
                }
            }
            _ => {}
        }
        assert!(write_guard.is_none() || read_guards.is_empty());
        assert_eq!(lock.read_guards(), read_guards.len());
        assert_eq!(lock.is_write_held(), write_guard.is_some());
        most_readers = most_readers.max(read_guards.len());
    }
    assert!(reads > 100);
    assert!(writes > 10);
    assert!(most_readers > 1);
    drop(read_guards);
    drop(write_guard);
    assert_eq!(lock.into_inner(), writes);
}
