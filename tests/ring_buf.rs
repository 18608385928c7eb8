use serial_bridge::ring_buf::SimpleRingBuf;

#[test]
fn fifo_returns_pushed_bytes_in_order() {
    let mut b: SimpleRingBuf<8> = SimpleRingBuf::new();
    for x in [10u8, 20, 30, 40, 50, 60, 70] {
        assert!(b.push(x));
    }
    for x in [10u8, 20, 30, 40, 50, 60, 70] {
        assert_eq!(b.pop(), Some(x));
    }
    assert_eq!(b.pop(), None);
    assert!(b.is_empty());
}

#[test]
fn fifo_across_wrap_around() {
    let mut b: SimpleRingBuf<4> = SimpleRingBuf::new();
    let mut next: u8 = 0;
    let mut expect: u8 = 0;
    for _ in 0..10 {
        assert!(b.push(next));
        assert!(b.push(next + 1));
        next += 2;
        assert_eq!(b.pop(), Some(expect));
        assert_eq!(b.pop(), Some(expect + 1));
        expect += 2;
    }
    assert!(b.is_empty());
}

#[test]
fn full_buffer_rejects_and_keeps_contents() {
    let mut b: SimpleRingBuf<4> = SimpleRingBuf::new();
    assert!(b.push(1));
    assert!(b.push(2));
    assert!(b.push(3));
    assert!(b.is_full());
    assert_eq!(b.len(), 3);
    assert_eq!(b.dropped(), 0);
    assert!(!b.push(99));
    assert!(!b.push(98));
    assert_eq!(b.dropped(), 2);
    assert_eq!(b.len(), 3);
    assert_eq!(b.pop(), Some(1));
    assert_eq!(b.pop(), Some(2));
    assert_eq!(b.pop(), Some(3));
    assert_eq!(b.pop(), None);
}

#[test]
fn empty_buffer_pops_nothing() {
    let mut b: SimpleRingBuf<2> = SimpleRingBuf::new();
    assert!(b.is_empty());
    assert_eq!(b.len(), 0);
    assert_eq!(b.pop(), None);
    assert!(b.push(5));
    assert!(b.is_full());
    assert!(!b.push(6));
    assert_eq!(b.pop(), Some(5));
}

#[test]
fn single_slot_buffer_holds_nothing() {
    let mut b: SimpleRingBuf<1> = SimpleRingBuf::new();
    assert!(b.is_full());
    assert!(!b.push(1));
    assert_eq!(b.pop(), None);
}

#[test]
fn large_buffer_holds_capacity_minus_one() {
    let mut b: SimpleRingBuf<8192> = SimpleRingBuf::new();
    for i in 0..8191usize {
        assert!(b.push((i % 256) as u8));
    }
    assert!(!b.push(0));
    assert_eq!(b.len(), 8191);
    for i in 0..8191usize {
        assert_eq!(b.pop(), Some((i % 256) as u8));
    }
    assert!(b.is_empty());
}
