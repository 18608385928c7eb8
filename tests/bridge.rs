use serial_bridge::bridge::{Action, Bridge, Phase, Side};

/// Records one bridge pass against two scripted channels; a channel whose script
/// has run out reports no data. `end` is the action that closed the pass.
struct Trace {
    to_a: Vec<u8>,
    to_b: Vec<u8>,
    actions: Vec<Action>,
    end: Action,
}

fn run_pass<const N: usize>(bridge: &mut Bridge<N>, script_a: &[Option<u8>], script_b: &[Option<u8>]) -> Trace {
    let mut ia = 0usize;
    let mut ib = 0usize;
    let mut to_a = Vec::new();
    let mut to_b = Vec::new();
    let mut actions = Vec::new();
    loop {
        let before = bridge.phase();
        let action = bridge.next_action();
        let flushing = before == Phase::FlushAToB || before == Phase::FlushBToA;
        if flushing && bridge.phase() == Phase::ReadA {
            return Trace { to_a, to_b, actions, end: action };
        }
        actions.push(action);
        match action {
            Action::Poll(Side::A) => {
                let p = script_a.get(ia).copied().flatten();
                ia += 1;
                bridge.polled(p);
            }
            Action::Poll(Side::B) => {
                let p = script_b.get(ib).copied().flatten();
                ib += 1;
                bridge.polled(p);
            }
            Action::Write(Side::A, b) => to_a.push(b),
            Action::Write(Side::B, b) => to_b.push(b),
            Action::Yield => panic!("yield inside a pass"),
        }
    }
}

#[test]
fn one_pass_forwards_a_to_b_in_order() {
    let mut bridge: Bridge<64> = Bridge::new(2, 5);
    let script_a = [Some(1u8), Some(2), Some(3)];
    let t = run_pass(&mut bridge, &script_a, &[]);
    assert_eq!(t.to_b, vec![1, 2, 3]);
    assert!(t.to_a.is_empty());
    assert_eq!(t.end, Action::Poll(Side::A));
    assert_eq!(bridge.phase(), Phase::ReadA);
}

#[test]
fn idle_pass_yields() {
    let mut bridge: Bridge<16> = Bridge::new(2, 5);
    assert_eq!(bridge.next_action(), Action::Poll(Side::A));
    assert!(!bridge.polled(None));
    assert_eq!(bridge.phase(), Phase::ReadB);
    assert_eq!(bridge.next_action(), Action::Poll(Side::B));
    assert!(!bridge.polled(None));
    assert_eq!(bridge.phase(), Phase::FlushAToB);
    assert_eq!(bridge.next_action(), Action::Yield);
    assert_eq!(bridge.phase(), Phase::ReadA);
}

#[test]
fn active_pass_loops_without_yield() {
    let mut bridge: Bridge<16> = Bridge::new(0, 0);
    assert_eq!(bridge.next_action(), Action::Poll(Side::A));
    assert!(!bridge.polled(None));
    assert_eq!(bridge.next_action(), Action::Poll(Side::B));
    assert!(!bridge.polled(Some(9)));
    assert_eq!(bridge.pending_b_to_a(), 1);
    assert!(bridge.polled(None));
    assert_eq!(bridge.next_action(), Action::Write(Side::A, 9));
    assert_eq!(bridge.next_action(), Action::Poll(Side::A));
    assert_eq!(bridge.phase(), Phase::ReadA);
}

#[test]
fn error_probe_only_within_a_burst() {
    let mut bridge: Bridge<16> = Bridge::new(1, 1);
    assert!(!bridge.polled(Some(4)));
    assert!(bridge.polled(None));
    assert!(bridge.polled(None));
    assert_eq!(bridge.phase(), Phase::ReadB);
    assert!(!bridge.polled(None));
    assert_eq!(bridge.pending_a_to_b(), 1);
}

#[test]
fn interleaved_ping_pong_forwarded_whole() {
    let mut bridge: Bridge<64> = Bridge::new(3, 5);
    let script_a = [Some(b'P'), None, None, Some(b'I'), None, Some(b'N'), None, None, None, Some(b'G')];
    let script_b = [Some(b'P'), None, None, None, None, Some(b'O'), Some(b'N'), None, None, None, Some(b'G')];
    let t = run_pass(&mut bridge, &script_a, &script_b);
    assert_eq!(t.to_b, b"PING".to_vec());
    assert_eq!(t.to_a, b"PONG".to_vec());
    let first_write = t.actions.iter().position(|a| matches!(a, Action::Write(_, _))).unwrap();
    let last_poll = t.actions.iter().rposition(|a| matches!(a, Action::Poll(_))).unwrap();
    assert!(last_poll < first_write);
    let polls_a = t.actions.iter().filter(|a| **a == Action::Poll(Side::A)).count();
    let polls_b = t.actions.iter().filter(|a| **a == Action::Poll(Side::B)).count();
    assert_eq!(polls_a, script_a.len() + 4);
    assert_eq!(polls_b, script_b.len() + 6);
    assert_eq!(t.end, Action::Poll(Side::A));
}

#[test]
fn overflowing_direction_drops_excess() {
    let mut bridge: Bridge<3> = Bridge::new(0, 0);
    let script_a = [Some(1u8), Some(2), Some(3), Some(4)];
    let t = run_pass(&mut bridge, &script_a, &[]);
    assert_eq!(t.to_b, vec![1, 2]);
}
