use thingbuf::wait::WaitQueue;

#[test]
fn waiters_wake_in_arrival_order() {
    let mut q: WaitQueue<u32> = WaitQueue::new();
    let _a = q.start_wait(10).unwrap();
    let _b = q.start_wait(20).unwrap();
    let _c = q.start_wait(30).unwrap();
    assert_eq!(q.len(), 3);
    assert_eq!(q.notify_one().map(|w| w.token), Some(10));
    assert_eq!(q.notify_one().map(|w| w.token), Some(20));
    assert_eq!(q.notify_one().map(|w| w.token), Some(30));
    assert_eq!(q.notify_one().map(|w| w.token), None);
}

#[test]
fn remove_is_idempotent() {
    let mut q: WaitQueue<u32> = WaitQueue::new();
    let a = q.start_wait(10).unwrap();
    let b = q.start_wait(20).unwrap();
    assert_eq!(q.remove(a), Some(10));
    assert_eq!(q.remove(a), None);
    assert_eq!(q.len(), 1);
    assert_eq!(q.notify_one().map(|w| w.token), Some(20));
    assert_eq!(q.remove(b), None);
}

#[test]
fn continue_wait_replaces_the_parked_token() {
    let mut q: WaitQueue<u32> = WaitQueue::new();
    let a = q.start_wait(10).unwrap();
    let displaced = q.continue_wait(a, 11);
    assert_eq!(displaced, 10);
    assert_eq!(q.notify_one().map(|w| w.token), Some(11));
    // an identifier that is no longer parked keeps the new token out
    let not_kept = q.continue_wait(a, 12);
    assert_eq!(not_kept, 12);
}

#[test]
fn close_drains_every_waiter() {
    let mut q: WaitQueue<u32> = WaitQueue::new();
    let _a = q.start_wait(1).unwrap();
    let _b = q.start_wait(2).unwrap();
    let drained: Vec<u32> = q.close().into_iter().map(|w| w.token).collect();
    assert_eq!(drained, vec![1, 2]);
    assert_eq!(q.len(), 0);
    assert!(q.is_closed());
    assert!(q.start_wait(3).is_err());
}
