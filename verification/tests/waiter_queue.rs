use vexide::sync::waiter_queue::WaiterQueue;

#[test]
fn new_queue_is_empty() {
    let queue = WaiterQueue::new();
    assert!(queue.is_empty());
    assert_eq!(queue.len(), 0);
    assert_eq!(queue.front(), None);
    assert!(!queue.contains(1));
    assert_eq!(queue.position(1), None);
}

#[test]
fn push_back_keeps_arrival_order() {
    let mut queue = WaiterQueue::new();
    assert!(queue.push_back(7));
    assert!(queue.push_back(3));
    assert!(queue.push_back(9));
    assert_eq!(queue.len(), 3);
    assert_eq!(queue.front(), Some(7));
    assert_eq!(queue.to_vec(), vec![7, 3, 9]);
    assert_eq!(queue.position(7), Some(0));
    assert_eq!(queue.position(3), Some(1));
    assert_eq!(queue.position(9), Some(2));
}

#[test]
fn push_back_of_a_waiting_task_changes_nothing() {
    let mut queue = WaiterQueue::new();
    assert!(queue.push_back(1));
    assert!(queue.push_back(2));
    assert!(!queue.push_back(1));
    assert_eq!(queue.to_vec(), vec![1, 2]);
}

#[test]
fn pop_front_takes_the_oldest() {
    let mut queue = WaiterQueue::new();
    queue.push_back(4);
    queue.push_back(5);
    queue.push_back(6);
    assert_eq!(queue.pop_front(), Some(4));
    assert_eq!(queue.pop_front(), Some(5));
    assert_eq!(queue.to_vec(), vec![6]);
    assert_eq!(queue.pop_front(), Some(6));
    assert_eq!(queue.pop_front(), None);
    assert!(queue.is_empty());
}

#[test]
fn remove_takes_a_task_from_the_middle() {
    let mut queue = WaiterQueue::new();
    queue.push_back(1);
    queue.push_back(2);
    queue.push_back(3);
    assert!(queue.remove(2));
    assert_eq!(queue.to_vec(), vec![1, 3]);
    assert!(!queue.contains(2));
    assert!(!queue.remove(2));
    assert_eq!(queue.to_vec(), vec![1, 3]);
    assert!(queue.remove(1));
    assert!(queue.remove(3));
    assert!(queue.is_empty());
}

#[test]
fn drain_returns_all_in_order_and_empties() {
    let mut queue = WaiterQueue::new();
    queue.push_back(10);
    queue.push_back(20);
    let all = queue.drain();
    assert_eq!(all, vec![10, 20]);
    assert!(queue.is_empty());
    assert_eq!(queue.drain(), Vec::<u64>::new());
}

#[test]
fn append_puts_tasks_behind_the_waiting_ones() {
    let mut queue = WaiterQueue::new();
    queue.push_back(1);
    queue.append(&vec![2, 3]);
    assert_eq!(queue.to_vec(), vec![1, 2, 3]);
    queue.append(&Vec::new());
    assert_eq!(queue.to_vec(), vec![1, 2, 3]);
}

#[test]
fn a_removed_task_can_wait_again_at_the_back() {
    let mut queue = WaiterQueue::new();
    queue.push_back(1);
    queue.push_back(2);
    queue.remove(1);
    assert!(queue.push_back(1));
    assert_eq!(queue.to_vec(), vec![2, 1]);
}

#[test]
fn the_queue_agrees_with_a_plain_list_over_a_long_run() {
    // A fixed pseudo-random run of all operations, held against a vector.
    let mut queue = WaiterQueue::new();
    let mut model: Vec<u64> = Vec::new();
    let mut seed: u64 = 0x2545_F491_4F6C_DD1D;
    for _ in 0..20_000 {
        seed = seed.wrapping_mul(6364136223846793005).wrapping_add(1442695040888963407);
        let task = (seed >> 33) % 24;
        match (seed >> 29) % 8 {
            0 | 1 | 2 => {
                let fresh = !model.contains(&task);
                assert_eq!(queue.push_back(task), fresh);
                if fresh {
                    model.push(task);
                }
            }
            3 | 4 => {
                let expected = if model.is_empty() { None } else { Some(model.remove(0)) };
                assert_eq!(queue.pop_front(), expected);
            }
            5 | 6 => {
                let place = model.iter().position(|waiting| *waiting == task);
                assert_eq!(queue.position(task), place);
                assert_eq!(queue.remove(task), place.is_some());
                if let Some(place) = place {
                    model.remove(place);
                }
            }
            _ => {
                if task == 0 {
                    assert_eq!(queue.drain(), model);
                    model.clear();
                }
            }
        }
        assert_eq!(queue.len(), model.len());
        assert_eq!(queue.is_empty(), model.is_empty());
        assert_eq!(queue.front(), model.first().copied());
        assert_eq!(queue.contains(task), model.contains(&task));
        assert_eq!(queue.to_vec(), model);
    }
}
