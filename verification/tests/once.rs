use std::cell::Cell;
use vexide::sync::lazy::LazyLock;
use vexide::sync::once::{Once, OnceBegin, OnceLock, OnceStage};

#[test]
fn call_once_runs_the_initializer_exactly_once() {
    let counter = Cell::new(0u32);
    let mut once = Once::new();
    assert!(!once.is_completed());
    for task in 0..10u64 {
        assert!(once.call_once(task, || counter.set(counter.get() + 1)));
        assert_eq!(counter.get(), 1);
    }
    assert!(once.is_completed());
    assert_eq!(once.stage(), OnceStage::Initialized);
}

#[test]
fn exactly_one_task_is_told_to_run_the_initializer() {
    let mut once = Once::new();
    let mut tickets = Vec::new();
    let mut waiting = 0;
    for task in 0..5u64 {
        match once.begin(task) {
            OnceBegin::Run(ticket) => tickets.push(ticket),
            OnceBegin::Wait => waiting += 1,
            OnceBegin::Done => panic!("nothing has completed"),
        }
    }
    assert_eq!(tickets.len(), 1);
    assert_eq!(waiting, 4);
    assert_eq!(once.stage(), OnceStage::Initializing);
    let wake = once.complete(tickets.pop().unwrap());
    assert_eq!(wake, vec![1, 2, 3, 4]);
    for task in 0..5u64 {
        assert!(matches!(once.begin(task), OnceBegin::Done));
    }
}

#[test]
fn call_once_suspends_while_another_task_initializes() {
    let ran = Cell::new(false);
    let mut once = Once::new();
    let ticket = match once.begin(1) {
        OnceBegin::Run(ticket) => ticket,
        _ => panic!("the first task runs the initializer"),
    };
    assert!(!once.call_once(2, || ran.set(true)));
    assert!(!ran.get());
    assert_eq!(once.complete(ticket), vec![2]);
    assert!(once.call_once(2, || ran.set(true)));
    assert!(!ran.get());
}

#[test]
fn a_failed_initializer_rearms_the_once_and_wakes_the_waiters() {
    let mut once = Once::new();
    let ticket = match once.begin(1) {
        OnceBegin::Run(ticket) => ticket,
        _ => panic!("the first task runs the initializer"),
    };
    assert!(matches!(once.begin(2), OnceBegin::Wait));
    assert!(matches!(once.begin(3), OnceBegin::Wait));
    assert_eq!(once.fail(ticket), vec![2, 3]);
    assert_eq!(once.stage(), OnceStage::Uninitialized);
    // The first waiter that asks again runs the initializer; the other waits.
    let retry = match once.begin(2) {
        OnceBegin::Run(ticket) => ticket,
        _ => panic!("the once is uninitialized again"),
    };
    assert!(matches!(once.begin(3), OnceBegin::Wait));
    assert_eq!(once.complete(retry), vec![3]);
    assert!(once.is_completed());
}

#[test]
fn a_cancelled_waiter_is_not_woken() {
    let mut once = Once::new();
    let ticket = match once.begin(1) {
        OnceBegin::Run(ticket) => ticket,
        _ => panic!("the first task runs the initializer"),
    };
    assert!(matches!(once.begin(2), OnceBegin::Wait));
    assert!(matches!(once.begin(3), OnceBegin::Wait));
    once.cancel(2);
    assert_eq!(once.complete(ticket), vec![3]);
}

#[test]
fn get_or_init_gives_every_caller_the_same_value() {
    let counter = Cell::new(0u32);
    let mut cell: OnceLock<u32> = OnceLock::new();
    assert_eq!(cell.get(), None);
    assert!(!cell.is_initialized());
    for task in 0..10u64 {
        let value = cell.get_or_init(task, || {
            counter.set(counter.get() + 1);
            40 + counter.get()
        });
        assert_eq!(value, Some(&41));
    }
    assert_eq!(counter.get(), 1);
    assert_eq!(cell.get(), Some(&41));
    assert!(cell.is_initialized());
    assert_eq!(cell.stage(), OnceStage::Initialized);
    assert_eq!(cell.into_inner(), Some(41));
}

#[test]
fn once_lock_set_writes_only_an_empty_cell() {
    let mut cell: OnceLock<&str> = OnceLock::new();
    assert_eq!(cell.set("first"), Ok(()));
    assert_eq!(cell.set("second"), Err("second"));
    assert_eq!(cell.get(), Some(&"first"));
    assert_eq!(cell.get_or_init(1, || "third"), Some(&"first"));
}

#[test]
fn once_lock_waiters_find_the_value_after_completion() {
    let mut cell: OnceLock<u8> = OnceLock::new();
    let ticket = match cell.begin(1) {
        OnceBegin::Run(ticket) => ticket,
        _ => panic!("the first task produces the value"),
    };
    assert_eq!(cell.get_or_init(2, || 0), None);
    assert_eq!(cell.set(9), Err(9));
    assert_eq!(cell.get(), None);
    assert_eq!(cell.complete(ticket, 5), vec![2]);
    assert_eq!(cell.get_or_init(2, || 0), Some(&5));
}

#[test]
fn once_lock_failure_lets_a_later_caller_retry() {
    let mut cell: OnceLock<u8> = OnceLock::new();
    let ticket = match cell.begin(1) {
        OnceBegin::Run(ticket) => ticket,
        _ => panic!("the first task produces the value"),
    };
    assert!(matches!(cell.begin(2), OnceBegin::Wait));
    assert_eq!(cell.fail(ticket), vec![2]);
    assert_eq!(cell.get(), None);
    assert_eq!(cell.get_or_init(2, || 7), Some(&7));
}

#[test]
fn once_lock_cancel_removes_a_waiter() {
    let mut cell: OnceLock<u8> = OnceLock::new();
    let ticket = match cell.begin(1) {
        OnceBegin::Run(ticket) => ticket,
        _ => panic!("the first task produces the value"),
    };
    assert!(matches!(cell.begin(2), OnceBegin::Wait));
    cell.cancel(2);
    assert_eq!(cell.complete(ticket, 1), Vec::<u64>::new());
}

#[test]
fn lazy_lock_invokes_its_initializer_once() {
    let counter = Cell::new(0u32);
    let mut lazy = LazyLock::new(|| {
        counter.set(counter.get() + 1);
        String::from("computed")
    });
    assert_eq!(counter.get(), 0);
    assert_eq!(lazy.get(), None);
    let first = format!("{:p}", lazy.force());
    for _ in 0..20 {
        let value = lazy.force();
        assert_eq!(value, "computed");
        // The same reference is returned on every access.
        assert_eq!(format!("{:p}", value), first);
    }
    let one = lazy.get().unwrap();
    let other = lazy.get().unwrap();
    assert!(std::ptr::eq(one, other));
    assert_eq!(format!("{:p}", one), first);
    assert_eq!(counter.get(), 1);
    assert_eq!(lazy.get().map(|value| value.as_str()), Some("computed"));
    assert_eq!(lazy.into_inner(), Some(String::from("computed")));
}

#[test]
fn lazy_lock_that_is_never_accessed_computes_nothing() {
    let counter = Cell::new(0u32);
    let lazy = LazyLock::new(|| {
        counter.set(counter.get() + 1);
        1u8
    });
    assert_eq!(lazy.into_inner(), None);
    assert_eq!(counter.get(), 0);
}

#[test]
fn try_begin_hands_out_the_ticket_without_queueing() {
    let mut once = Once::new();
    let ticket = once.try_begin().expect("the once is uninitialized");
    assert!(once.try_begin().is_none());
    assert_eq!(once.stage(), OnceStage::Initializing);
    // Nobody was queued by the failed attempt.
    assert_eq!(once.complete(ticket), Vec::<u64>::new());
    assert!(once.try_begin().is_none());
    assert!(once.is_completed());
}
