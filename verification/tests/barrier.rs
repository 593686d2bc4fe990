use vexide::sync::barrier::Barrier;

#[test]
fn nobody_passes_before_all_have_arrived() {
    let mut barrier = Barrier::new(4);
    assert_eq!(barrier.parties(), 4);
    let mut waits: Vec<_> = (1..=3u64).map(|task| barrier.wait(task)).collect();
    for (arrived, wait) in waits.iter_mut().enumerate() {
        let out = wait.poll(&mut barrier);
        assert!(out.result.is_none());
        assert!(out.wake.is_empty());
        assert_eq!(barrier.arrived(), arrived + 1);
    }
    // Polling again does not count again.
    for wait in waits.iter_mut() {
        assert!(wait.poll(&mut barrier).result.is_none());
    }
    assert_eq!(barrier.arrived(), 3);
}

#[test]
fn the_last_arrival_is_the_one_leader_and_wakes_the_others() {
    let mut barrier = Barrier::new(4);
    let mut waits: Vec<_> = (1..=4u64).map(|task| barrier.wait(task)).collect();
    for wait in waits.iter_mut().take(3) {
        assert!(wait.poll(&mut barrier).result.is_none());
    }
    let out = waits[3].poll(&mut barrier);
    assert!(out.result.expect("the last arrival passes").is_leader());
    assert_eq!(out.wake, vec![1, 2, 3]);
    assert_eq!(barrier.arrived(), 0);
    let mut leaders = 1;
    for wait in waits.iter_mut().take(3) {
        let out = wait.poll(&mut barrier);
        let result = out.result.expect("a woken party passes");
        if result.is_leader() {
            leaders += 1;
        }
        assert!(out.wake.is_empty());
        assert!(wait.is_completed());
    }
    assert_eq!(leaders, 1);
}

#[test]
fn a_barrier_is_reusable_for_a_second_generation() {
    let mut barrier = Barrier::new(3);
    for generation in 0..2u64 {
        let base = generation * 10;
        let mut waits: Vec<_> = (1..=3u64).map(|task| barrier.wait(base + task)).collect();
        assert!(waits[0].poll(&mut barrier).result.is_none());
        assert!(waits[1].poll(&mut barrier).result.is_none());
        let out = waits[2].poll(&mut barrier);
        assert!(out.result.unwrap().is_leader());
        assert_eq!(out.wake, vec![base + 1, base + 2]);
        assert!(!waits[0].poll(&mut barrier).result.unwrap().is_leader());
        assert!(!waits[1].poll(&mut barrier).result.unwrap().is_leader());
        assert_eq!(barrier.arrived(), 0);
    }
}

#[test]
fn the_next_generation_can_start_before_the_woken_parties_resume() {
    let mut barrier = Barrier::new(2);
    let mut a = barrier.wait(1);
    let mut b = barrier.wait(2);
    assert!(a.poll(&mut barrier).result.is_none());
    assert!(b.poll(&mut barrier).result.unwrap().is_leader());
    // Task 1 was woken but has not run yet; tasks 3 and 4 meet meanwhile.
    let mut c = barrier.wait(3);
    let mut d = barrier.wait(4);
    assert!(c.poll(&mut barrier).result.is_none());
    let out = d.poll(&mut barrier);
    assert!(out.result.unwrap().is_leader());
    assert_eq!(out.wake, vec![3]);
    assert!(!a.poll(&mut barrier).result.unwrap().is_leader());
    assert!(!c.poll(&mut barrier).result.unwrap().is_leader());
}

#[test]
fn a_barrier_for_one_or_zero_parties_never_suspends() {
    for parties in 0..=1usize {
        let mut barrier = Barrier::new(parties);
        for task in 0..3u64 {
            let out = barrier.poll_wait(task);
            assert!(out.result.unwrap().is_leader());
            assert!(out.wake.is_empty());
            assert_eq!(barrier.arrived(), 0);
        }
    }
}

#[test]
fn a_cancelled_waiter_still_counts_but_is_not_woken() {
    let mut barrier = Barrier::new(3);
    let mut a = barrier.wait(1);
    let mut b = barrier.wait(2);
    let mut c = barrier.wait(3);
    assert!(a.poll(&mut barrier).result.is_none());
    assert!(b.poll(&mut barrier).result.is_none());
    a.cancel(&mut barrier);
    assert_eq!(barrier.arrived(), 2);
    let out = c.poll(&mut barrier);
    assert!(out.result.unwrap().is_leader());
    assert_eq!(out.wake, vec![2]);
}

#[test]
fn a_wait_that_has_passed_yields_nothing_more() {
    let mut barrier = Barrier::new(1);
    let mut wait = barrier.wait(1);
    assert!(!wait.is_completed());
    assert!(wait.poll(&mut barrier).result.is_some());
    assert!(wait.is_completed());
    let out = wait.poll(&mut barrier);
    assert!(out.result.is_none());
    assert!(out.wake.is_empty());
    wait.cancel(&mut barrier);
    assert_eq!(barrier.arrived(), 0);
}
