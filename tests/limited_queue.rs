use rosu_pp::LimitedQueue;

#[test]
fn empty_queue() {
    let queue: LimitedQueue<u32, 3> = LimitedQueue::new();
    assert!(queue.is_empty());
    assert!(!queue.is_full());
    assert_eq!(queue.len(), 0);
    assert_eq!(queue.last(), None);
    let (head, tail) = queue.as_slices();
    assert!(head.is_empty());
    assert!(tail.is_empty());
    assert_eq!(queue.iter().next(), None);
}

#[test]
fn default_is_empty() {
    let queue: LimitedQueue<u32, 4> = LimitedQueue::default();
    assert!(queue.is_empty());
}

#[test]
fn push_below_capacity() {
    let mut queue: LimitedQueue<u32, 3> = LimitedQueue::new();
    queue.push(1);
    queue.push(2);
    assert_eq!(queue.len(), 2);
    assert!(!queue.is_full());
    assert_eq!(queue.last(), Some(&2));
    assert_eq!(*queue.index(0), 1);
    assert_eq!(*queue.index(1), 2);
    let (head, tail) = queue.as_slices();
    assert!(head.is_empty());
    assert_eq!(tail, &[1, 2]);
}

#[test]
fn push_drops_oldest_when_full() {
    let mut queue: LimitedQueue<u32, 3> = LimitedQueue::new();
    for v in 1..=4 {
        queue.push(v);
    }
    assert!(queue.is_full());
    assert_eq!(queue.len(), 3);
    assert_eq!(queue.last(), Some(&4));
    assert_eq!(*queue.index(0), 2);
    assert_eq!(*queue.index(1), 3);
    assert_eq!(*queue.index(2), 4);
    let (head, tail) = queue.as_slices();
    let mut all = head.to_vec();
    all.extend_from_slice(tail);
    assert_eq!(all, vec![2, 3, 4]);
}

#[test]
fn wraps_many_times() {
    let mut queue: LimitedQueue<u32, 4> = LimitedQueue::new();
    for v in 0..103 {
        queue.push(v);
    }
    let mut iter = queue.iter();
    let mut seen = Vec::new();
    while let Some(v) = iter.next() {
        seen.push(*v);
    }
    assert_eq!(seen, vec![99, 100, 101, 102]);
}

#[test]
fn iterate_both_ends() {
    let mut queue: LimitedQueue<u32, 3> = LimitedQueue::new();
    for v in 1..=4 {
        queue.push(v);
    }
    let mut iter = queue.iter();
    assert_eq!(iter.size_hint(), (3, Some(3)));
    assert_eq!(iter.next(), Some(&2));
    assert_eq!(iter.next_back(), Some(&4));
    assert_eq!(iter.len(), 1);
    assert_eq!(iter.next(), Some(&3));
    assert_eq!(iter.next(), None);
    assert_eq!(iter.next_back(), None);
}

#[test]
fn iterator_nth_and_last() {
    let mut queue: LimitedQueue<u32, 3> = LimitedQueue::new();
    for v in 1..=5 {
        queue.push(v);
    }
    let mut iter = queue.iter();
    assert_eq!(iter.nth(1), Some(&4));
    assert_eq!(iter.next(), Some(&5));
    assert_eq!(queue.iter().last(), Some(&5));
    assert_eq!(queue.iter().nth(3), None);
}
