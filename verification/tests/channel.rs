use thingbuf::errors::{TryRecvError, TrySendError};
use thingbuf::mpsc::{channel, RecvPoll, SendPoll};

fn _assert_sync<T: Sync>(_: T) {}
fn _assert_send<T: Send>(_: T) {}

#[test]
fn recv_ref_future_is_send() {
    fn _compiles() {
        let (_ch, _tx, rx) = channel::<usize, u32>(10);
        _assert_send(rx.recv_ref());
    }
}

#[test]
fn recv_ref_future_is_sync() {
    fn _compiles() {
        let (_ch, _tx, rx) = channel::<usize, u32>(10);
        _assert_sync(rx.recv_ref());
    }
}

#[test]
fn send_ref_future_is_send() {
    fn _compiles() {
        let (_ch, tx, _rx) = channel::<usize, u32>(10);
        _assert_send(tx.send_ref());
    }
}

#[test]
fn send_ref_future_is_sync() {
    fn _compiles() {
        let (_ch, tx, _rx) = channel::<usize, u32>(10);
        _assert_sync(tx.send_ref());
    }
}

#[test]
fn fifo_until_full_then_drain() {
    // capacity 4: sends 1..=4 succeed, the 5th is Full until one receive
    let (mut ch, tx, rx) = channel::<u64, u32>(4);
    for v in 1..=4u64 {
        assert!(tx.try_send(&mut ch, v).is_ok());
    }
    match tx.try_send(&mut ch, 5) {
        Err(TrySendError::Full(v)) => assert_eq!(v, 5),
        _ => panic!("fifth send must report Full and return the value"),
    }
    match rx.poll_recv(&mut ch, 0u32) {
        RecvPoll::Ready(v, _) => assert_eq!(v, 1),
        _ => panic!("first receive must yield the first send"),
    }
    assert!(tx.try_send(&mut ch, 5).is_ok());
    for expect in 2..=5u64 {
        match rx.poll_recv(&mut ch, 0u32) {
            RecvPoll::Ready(v, _) => assert_eq!(v, expect),
            _ => panic!("receive must yield in send order"),
        }
    }
    assert!(matches!(rx.poll_recv(&mut ch, 0u32), RecvPoll::Pending));
}

#[test]
fn two_producers_interleaved() {
    let (mut ch, tx_a, rx) = channel::<String, u32>(2);
    let tx_b = ch.clone_sender(&tx_a);
    let mut got: Vec<String> = Vec::new();
    assert!(tx_a.try_send(&mut ch, String::from("a1")).is_ok());
    assert!(tx_b.try_send(&mut ch, String::from("b1")).is_ok());
    for _ in 0..2 {
        match rx.poll_recv(&mut ch, 0u32) {
            RecvPoll::Ready(v, _) => got.push(v),
            _ => panic!("two messages are pending"),
        }
    }
    assert!(tx_a.try_send(&mut ch, String::from("a2")).is_ok());
    assert!(tx_b.try_send(&mut ch, String::from("b2")).is_ok());
    for _ in 0..2 {
        match rx.poll_recv(&mut ch, 0u32) {
            RecvPoll::Ready(v, _) => got.push(v),
            _ => panic!("two messages are pending"),
        }
    }
    let mut sorted = got.clone();
    sorted.sort();
    assert_eq!(sorted, vec!["a1", "a2", "b1", "b2"]);
    // per-producer order: a1 before a2, b1 before b2
    let pos = |s: &str| got.iter().position(|x| x == s).unwrap();
    assert!(pos("a1") < pos("a2"));
    assert!(pos("b1") < pos("b2"));
}

#[test]
fn close_from_sender_drains_then_ends() {
    let (mut ch, tx, rx) = channel::<u64, u32>(2);
    assert!(tx.try_send(&mut ch, 1).is_ok());
    assert!(tx.try_send(&mut ch, 2).is_ok());
    ch.drop_sender(tx);
    assert!(rx.is_closed(&ch));
    match rx.poll_recv(&mut ch, 0u32) {
        RecvPoll::Ready(v, _) => assert_eq!(v, 1),
        _ => panic!("pending messages stay drainable after close"),
    }
    match rx.poll_recv(&mut ch, 0u32) {
        RecvPoll::Ready(v, _) => assert_eq!(v, 2),
        _ => panic!("pending messages stay drainable after close"),
    }
    assert!(matches!(rx.poll_recv(&mut ch, 0u32), RecvPoll::End(_)));
}

#[test]
fn close_from_receiver_returns_value() {
    let (mut ch, tx, rx) = channel::<u64, u32>(2);
    assert!(tx.try_send(&mut ch, 1).is_ok());
    ch.close_rx(rx);
    match tx.try_send(&mut ch, 2) {
        Err(TrySendError::Closed(v)) => assert_eq!(v, 2),
        _ => panic!("send after receiver drop must report Closed with the value"),
    }
}

#[test]
fn close_is_sticky() {
    let (mut ch, tx, rx) = channel::<u64, u32>(1);
    ch.close_rx(rx);
    for _ in 0..3 {
        assert!(matches!(tx.try_send(&mut ch, 7), Err(TrySendError::Closed(7))));
    }
}

#[test]
fn cancelled_send_passes_wakeup_on() {
    // capacity 1: one pending producer is parked, cancelled, and a fresh
    // send still succeeds afterwards
    let (mut ch, tx, rx) = channel::<u64, u32>(1);
    assert!(tx.try_send(&mut ch, 1).is_ok());
    let mut pending = tx.send_ref();
    assert!(matches!(pending.poll(&mut ch, 22u32), SendPoll::Pending));
    pending.cancel(&mut ch);
    match rx.poll_recv(&mut ch, 0u32) {
        RecvPoll::Ready(v, _) => assert_eq!(v, 1),
        _ => panic!("the first message is pending"),
    }
    assert!(tx.try_send(&mut ch, 3).is_ok());
    match rx.poll_recv(&mut ch, 0u32) {
        RecvPoll::Ready(v, _) => assert_eq!(v, 3),
        _ => panic!("the channel stays usable after a cancellation"),
    }
}

#[test]
fn parked_producer_token_is_handed_back() {
    // a Full send parks its token; a receive hands it into the outbox
    let (mut ch, tx, rx) = channel::<u64, u32>(1);
    assert!(tx.try_send(&mut ch, 10).is_ok());
    let mut fut = tx.send_ref();
    assert!(matches!(fut.poll(&mut ch, 42u32), SendPoll::Pending));
    assert!(ch.take_wakes().is_empty());
    match rx.poll_recv(&mut ch, 0u32) {
        RecvPoll::Ready(v, _) => assert_eq!(v, 10),
        _ => panic!("one message is pending"),
    }
    assert_eq!(ch.take_wakes(), vec![42u32]);
    // the woken producer's next poll claims the freed slot
    match fut.poll(&mut ch, 43u32) {
        SendPoll::Ready(slot, _) => ch.publish(slot, 11),
        _ => panic!("after the wakeup a slot is writable"),
    }
    match rx.poll_recv(&mut ch, 0u32) {
        RecvPoll::Ready(v, _) => assert_eq!(v, 11),
        _ => panic!("the published message arrives"),
    }
}

#[test]
fn parked_consumer_token_is_handed_back() {
    let (mut ch, tx, rx) = channel::<u64, u32>(2);
    assert!(matches!(rx.poll_recv(&mut ch, 7u32), RecvPoll::Pending));
    assert!(ch.take_wakes().is_empty());
    assert!(tx.try_send(&mut ch, 5).is_ok());
    assert_eq!(ch.take_wakes(), vec![7u32]);
    match rx.poll_recv(&mut ch, 8u32) {
        RecvPoll::Ready(v, _) => assert_eq!(v, 5),
        _ => panic!("the message sent after parking is readable"),
    }
}

#[test]
fn producer_close_wakes_parked_consumer() {
    let (mut ch, tx, rx) = channel::<u64, u32>(2);
    assert!(matches!(rx.poll_recv(&mut ch, 9u32), RecvPoll::Pending));
    ch.drop_sender(tx);
    assert_eq!(ch.take_wakes(), vec![9u32]);
    assert!(matches!(rx.poll_recv(&mut ch, 9u32), RecvPoll::End(_)));
}

#[test]
fn receiver_close_wakes_parked_producers() {
    let (mut ch, tx, rx) = channel::<u64, u32>(1);
    assert!(tx.try_send(&mut ch, 1).is_ok());
    let mut f1 = tx.send_ref();
    assert!(matches!(f1.poll(&mut ch, 31u32), SendPoll::Pending));
    ch.close_rx(rx);
    assert_eq!(ch.take_wakes(), vec![31u32]);
    assert!(matches!(f1.poll(&mut ch, 31u32), SendPoll::Closed(_)));
}

#[test]
fn clone_and_drop_senders_close_only_at_zero() {
    let (mut ch, tx1, rx) = channel::<u64, u32>(2);
    let tx2 = ch.clone_sender(&tx1);
    ch.drop_sender(tx1);
    assert!(!rx.is_closed(&ch));
    assert!(tx2.try_send(&mut ch, 1).is_ok());
    ch.drop_sender(tx2);
    assert!(rx.is_closed(&ch));
    assert!(matches!(rx.poll_recv(&mut ch, 0u32), RecvPoll::Ready(1, _)));
    assert!(matches!(rx.poll_recv(&mut ch, 0u32), RecvPoll::End(_)));
}

#[test]
fn send_ref_claims_and_publishes() {
    let (mut ch, tx, rx) = channel::<String, u32>(2);
    let slot = match tx.try_send_ref(&mut ch) {
        Ok(s) => s,
        Err(_) => panic!("an empty open channel accepts a claim"),
    };
    ch.publish(slot, String::from("hello"));
    match rx.poll_recv_ref(&mut ch, 0u32) {
        RecvPoll::Ready(r, _) => {
            let v = ch.take(&r);
            assert_eq!(v, "hello");
            ch.release(r);
        },
        _ => panic!("the published claim is readable"),
    }
}

#[test]
fn recv_future_polls_like_poll_recv() {
    let (mut ch, tx, rx) = channel::<u64, u32>(2);
    let fut = rx.recv();
    assert!(matches!(fut.poll(&rx, &mut ch, 0u32), RecvPoll::Pending));
    assert!(tx.try_send(&mut ch, 12).is_ok());
    assert!(matches!(fut.poll(&rx, &mut ch, 0u32), RecvPoll::Ready(12, _)));
}

#[test]
fn empty_and_end_are_distinct() {
    let (mut ch, tx, rx) = channel::<u64, u32>(2);
    assert_eq!(ch.ring.try_pop().unwrap_err(), TryRecvError::Empty);
    ch.drop_sender(tx);
    assert_eq!(ch.ring.try_pop().unwrap_err(), TryRecvError::Closed);
    assert!(rx.is_closed(&ch));
}

#[test]
fn len_and_capacity_track_sends() {
    let (mut ch, tx, rx) = channel::<u64, u32>(3);
    assert_eq!(ch.capacity(), 3);
    assert_eq!(ch.len(), 0);
    assert!(tx.try_send(&mut ch, 1).is_ok());
    assert!(tx.try_send(&mut ch, 2).is_ok());
    assert_eq!(ch.len(), 2);
    assert!(matches!(rx.poll_recv(&mut ch, 0u32), RecvPoll::Ready(1, _)));
    assert_eq!(ch.len(), 1);
}

#[test]
fn counts_balance_after_close_and_drain() {
    // every send is received exactly once, and end of stream comes only
    // when the counts balance
    let (mut ch, tx, rx) = channel::<u64, u32>(8);
    let mut sent: u64 = 0;
    let mut received: u64 = 0;
    for round in 0..5u64 {
        for k in 0..3u64 {
            assert!(tx.try_send(&mut ch, round * 3 + k).is_ok());
            sent += 1;
        }
        for _ in 0..3 {
            match rx.poll_recv(&mut ch, 0u32) {
                RecvPoll::Ready(v, _) => {
                    assert_eq!(v, received);
                    received += 1;
                },
                _ => panic!("a sent message must be receivable"),
            }
        }
    }
    ch.drop_sender(tx);
    assert_eq!(sent, received);
    assert!(matches!(rx.poll_recv(&mut ch, 0u32), RecvPoll::End(_)));
}

#[test]
fn repolled_producer_keeps_its_place_in_line() {
    // two producers park in order; the first re-polls with a fresh token
    // and must still be woken first
    let (mut ch, tx, rx) = channel::<u64, u32>(1);
    assert!(tx.try_send(&mut ch, 1).is_ok());
    let mut first = tx.send_ref();
    let mut second = tx.send_ref();
    assert!(matches!(first.poll(&mut ch, 100u32), SendPoll::Pending));
    assert!(matches!(second.poll(&mut ch, 200u32), SendPoll::Pending));
    assert!(matches!(first.poll(&mut ch, 101u32), SendPoll::Pending));
    assert!(matches!(rx.poll_recv(&mut ch, 0u32), RecvPoll::Ready(1, _)));
    // the wakeup goes to the refreshed token of the first producer
    assert_eq!(ch.take_wakes(), vec![101u32]);
    match first.poll(&mut ch, 102u32) {
        SendPoll::Ready(slot, _) => ch.publish(slot, 2),
        _ => panic!("the woken producer claims the freed slot"),
    }
    second.cancel(&mut ch);
}

#[test]
fn closed_channel_send_poll_reports_closed_at_once() {
    let (mut ch, tx, rx) = channel::<u64, u32>(2);
    ch.close_rx(rx);
    let mut fut = tx.send_ref();
    assert!(matches!(fut.poll(&mut ch, 1u32), SendPoll::Closed(_)));
}
