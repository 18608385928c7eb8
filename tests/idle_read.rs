use serial_bridge::idle_read::{IdleRead, ReadStatus};
use serial_bridge::ring_buf::SimpleRingBuf;

fn run(reader: &mut IdleRead, buf: &mut SimpleRingBuf<64>, polls: &[Option<u8>]) -> Vec<ReadStatus> {
    let mut out = Vec::new();
    for p in polls {
        out.push(reader.step(*p, buf));
    }
    out
}

fn drain(buf: &mut SimpleRingBuf<64>) -> Vec<u8> {
    let mut out = Vec::new();
    while let Some(b) = buf.pop() {
        out.push(b);
    }
    out
}

#[test]
fn burst_then_silence_reports_activity() {
    let mut r = IdleRead::new(3);
    let mut buf: SimpleRingBuf<64> = SimpleRingBuf::new();
    let polls = [Some(7u8), Some(8), Some(9), None, None, None, None];
    let st = run(&mut r, &mut buf, &polls);
    assert_eq!(&st[..6], &[ReadStatus::Polling; 6]);
    assert_eq!(st[6], ReadStatus::Finished(true));
    assert_eq!(drain(&mut buf), vec![7, 8, 9]);
    assert!(!r.in_burst());
}

#[test]
fn no_data_reports_no_activity() {
    let mut r = IdleRead::new(3);
    let mut buf: SimpleRingBuf<64> = SimpleRingBuf::new();
    assert_eq!(r.step(None, &mut buf), ReadStatus::Finished(false));
    assert!(buf.is_empty());
}

#[test]
fn threshold_boundary_needs_t_plus_one_empty_polls() {
    for t in [0usize, 1, 5, 20] {
        let mut r = IdleRead::new(t);
        let mut buf: SimpleRingBuf<64> = SimpleRingBuf::new();
        assert_eq!(r.step(Some(1), &mut buf), ReadStatus::Polling);
        for _ in 0..t {
            assert_eq!(r.step(None, &mut buf), ReadStatus::Polling);
        }
        assert_eq!(r.step(None, &mut buf), ReadStatus::Finished(true));
    }
}

#[test]
fn byte_in_gap_resets_silence_count() {
    let mut r = IdleRead::new(2);
    let mut buf: SimpleRingBuf<64> = SimpleRingBuf::new();
    let polls = [Some(1u8), None, None, Some(2), None, None, None];
    let st = run(&mut r, &mut buf, &polls);
    assert_eq!(&st[..6], &[ReadStatus::Polling; 6]);
    assert_eq!(st[6], ReadStatus::Finished(true));
    assert_eq!(drain(&mut buf), vec![1, 2]);
}

#[test]
fn largest_threshold_does_not_overflow() {
    let mut r = IdleRead::new(usize::MAX);
    let mut buf: SimpleRingBuf<64> = SimpleRingBuf::new();
    assert_eq!(r.step(Some(1), &mut buf), ReadStatus::Polling);
    assert_eq!(r.step(None, &mut buf), ReadStatus::Polling);
    assert_eq!(r.threshold(), usize::MAX);
}

#[test]
fn overflowing_burst_drops_excess_bytes() {
    let mut r = IdleRead::new(0);
    let mut buf: SimpleRingBuf<3> = SimpleRingBuf::new();
    for b in [1u8, 2, 3, 4] {
        assert_eq!(r.step(Some(b), &mut buf), ReadStatus::Polling);
    }
    assert_eq!(r.step(None, &mut buf), ReadStatus::Finished(true));
    assert_eq!(buf.pop(), Some(1));
    assert_eq!(buf.pop(), Some(2));
    assert_eq!(buf.pop(), None);
}
