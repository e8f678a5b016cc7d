use thingbuf::static_thingbuf::StaticThingBuf;
use thingbuf::track::Track;

#[test]
fn buffer_new_is_empty() {
    let buf: StaticThingBuf<u64, 4> = StaticThingBuf::new();
    assert_eq!(buf.capacity(), 4);
    assert_eq!(buf.len(), 0);
    assert!(buf.is_empty());
}

#[test]
fn buffer_push_pop_in_order() {
    let mut buf: StaticThingBuf<u64, 4> = StaticThingBuf::new();
    for v in 1..=4u64 {
        assert!(buf.push_with(v).is_ok());
    }
    assert_eq!(buf.len(), 4);
    assert!(buf.push_with(5).is_err());
    for expect in 1..=4u64 {
        assert_eq!(buf.pop_with(), Some(expect));
    }
    assert_eq!(buf.pop_with(), None);
    assert!(buf.is_empty());
}

#[test]
fn buffer_wraps_around_many_laps() {
    let mut buf: StaticThingBuf<u64, 2> = StaticThingBuf::new();
    for lap in 0..100u64 {
        assert!(buf.push_with(lap * 2).is_ok());
        assert!(buf.push_with(lap * 2 + 1).is_ok());
        assert!(buf.push_with(999).is_err());
        assert_eq!(buf.pop_with(), Some(lap * 2));
        assert_eq!(buf.pop_with(), Some(lap * 2 + 1));
        assert_eq!(buf.pop_with(), None);
    }
}

#[test]
fn buffer_ref_cycle_reuses_slot() {
    let mut buf: StaticThingBuf<String, 1> = StaticThingBuf::new();
    let w = buf.push_ref().expect("an empty buffer accepts a claim");
    buf.publish(w, String::from("x".repeat(100)));
    // one slot: full until the reader releases it
    assert!(buf.push_ref().is_err());
    let r = buf.pop_ref().expect("a published entry is readable");
    let v = buf.take(&r);
    assert_eq!(v.len(), 100);
    buf.release(r);
    let w2 = buf.push_ref().expect("a released slot is writable again");
    buf.publish(w2, String::from("y"));
    assert_eq!(buf.pop_with(), Some(String::from("y")));
}

#[test]
fn buffer_capacity_one_blocks_after_one() {
    let mut buf: StaticThingBuf<u64, 1> = StaticThingBuf::new();
    assert!(buf.push_with(1).is_ok());
    assert!(buf.push_with(2).is_err());
    assert_eq!(buf.pop_with(), Some(1));
    assert!(buf.push_with(2).is_ok());
    assert_eq!(buf.pop_with(), Some(2));
}

#[test]
fn track_passes_value_through() {
    let mut t = Track::new(41u64);
    assert_eq!(*t.get_ref(), 41);
    *t.get_mut() += 1;
    assert_eq!(*t.get_ref(), 42);
    assert_eq!(t.into_inner(), 42);
}

#[test]
fn index_words_split_into_slot_and_lap() {
    let buf: StaticThingBuf<u64, 4> = StaticThingBuf::new();
    // ring size four: the low bits are the slot, the rest the lap
    assert_eq!(buf.ring.core.idx_gen(0), (0, 0));
    assert_eq!(buf.ring.core.idx_gen(5), (1, 1));
    assert_eq!(buf.ring.core.idx_gen(11), (3, 2));
}

#[test]
fn capacity_rounds_ring_up_but_len_is_logical() {
    let mut buf: StaticThingBuf<u64, 3> = StaticThingBuf::new();
    assert_eq!(buf.capacity(), 3);
    assert!(buf.push_with(1).is_ok());
    assert!(buf.push_with(2).is_ok());
    assert!(buf.push_with(3).is_ok());
    assert_eq!(buf.len(), 3);
    assert!(buf.push_with(4).is_err());
    assert_eq!(buf.pop_with(), Some(1));
}
