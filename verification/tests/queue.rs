use rss_autodl::queue::QueueType;

fn drain(q: &mut QueueType<u64>) -> Vec<u64> {
    let mut out = Vec::new();
    while let Some(x) = q.dequeue() {
        out.push(x);
    }
    out
}

#[test]
fn fifo_queue_is_sorted_at_start() {
    let mut q = QueueType::from_iter(vec![5u64, 1, 4, 1, 3], false);
    assert!(!q.is_empty());
    assert_eq!(drain(&mut q), vec![1, 1, 3, 4, 5]);
    assert!(q.is_empty());
}

#[test]
fn fifo_queue_appends_at_back() {
    let mut q = QueueType::from_iter(vec![2u64, 7], false);
    q.enqueue(1);
    assert_eq!(q.dequeue(), Some(2));
    q.enqueue(0);
    assert_eq!(drain(&mut q), vec![7, 1, 0]);
}

#[test]
fn priority_queue_hands_out_least_first() {
    let mut q = QueueType::from_iter(vec![5u64, 1, 4], true);
    q.enqueue(0);
    q.enqueue(9);
    assert_eq!(drain(&mut q), vec![0, 1, 4, 5, 9]);
}

#[test]
fn empty_queues() {
    let mut q: QueueType<u64> = QueueType::from_iter(Vec::new(), true);
    assert!(q.is_empty());
    assert_eq!(q.dequeue(), None);
    let mut q: QueueType<u64> = QueueType::from_iter(Vec::new(), false);
    assert!(q.is_empty());
    assert_eq!(q.dequeue(), None);
}

#[test]
fn signed_keys_sort() {
    let mut q = QueueType::from_iter(vec![3i64, -2, 0], false);
    let mut out = Vec::new();
    while let Some(x) = q.dequeue() {
        out.push(x);
    }
    assert_eq!(out, vec![-2, 0, 3]);
}

#[test]
fn what_goes_in_comes_out() {
    for priority in [false, true] {
        let mut q: QueueType<u64> = QueueType::from_iter(Vec::new(), priority);
        q.enqueue(42);
        assert_eq!(q.dequeue(), Some(42));
        assert!(q.is_empty());
    }
}

#[test]
fn items_counted_through_calls() {
    for priority in [false, true] {
        let mut q = QueueType::from_iter(vec![3u64, 1], priority);
        q.enqueue(2);
        assert!(q.dequeue().is_some());
        q.enqueue(5);
        assert!(q.dequeue().is_some());
        assert!(q.dequeue().is_some());
        assert!(!q.is_empty());
        assert!(q.dequeue().is_some());
        assert!(q.is_empty());
        assert_eq!(q.dequeue(), None);
    }
}
