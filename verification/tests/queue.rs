use gemini_proxy::queue::BoundedQueue;

#[test]
fn new_queue_is_empty() {
    let queue: BoundedQueue<u32> = BoundedQueue::new(3);
    assert_eq!(queue.capacity(), 3);
    assert_eq!(queue.len(), 0);
    assert!(queue.is_empty());
    assert!(!queue.is_full());
}

#[test]
fn items_leave_in_the_order_they_came() {
    let mut queue = BoundedQueue::new(3);
    assert_eq!(queue.try_push("a"), Ok(()));
    assert_eq!(queue.try_push("b"), Ok(()));
    assert_eq!(queue.try_push("c"), Ok(()));
    assert_eq!(queue.pop(), Some("a"));
    assert_eq!(queue.pop(), Some("b"));
    assert_eq!(queue.try_push("d"), Ok(()));
    assert_eq!(queue.pop(), Some("c"));
    assert_eq!(queue.pop(), Some("d"));
    assert_eq!(queue.pop(), None);
}

#[test]
fn full_queue_refuses_and_stays_as_it_was() {
    let mut queue = BoundedQueue::new(2);
    assert_eq!(queue.try_push(1), Ok(()));
    assert!(!queue.is_full());
    assert_eq!(queue.try_push(2), Ok(()));
    assert!(queue.is_full());
    assert_eq!(queue.try_push(3), Err(3));
    assert_eq!(queue.len(), 2);
    assert_eq!(queue.pop(), Some(1));
    assert_eq!(queue.pop(), Some(2));
    assert!(queue.is_empty());
}

#[test]
fn queue_without_room_refuses_everything() {
    let mut queue = BoundedQueue::new(0);
    assert!(queue.is_full());
    assert_eq!(queue.try_push('x'), Err('x'));
    assert_eq!(queue.pop(), None);
}
