use serial_bridge::reset::{reset_sequence, ResetStep};

#[test]
fn reset_sequence_order_and_dwell() {
    let plan = reset_sequence(50, 10);
    assert_eq!(
        plan,
        vec![
            ResetStep::SetHold(true),
            ResetStep::SetReset(true),
            ResetStep::WaitMs(50),
            ResetStep::SetReset(false),
            ResetStep::WaitMs(10),
            ResetStep::Ready,
        ]
    );
    let hold = plan.iter().position(|s| *s == ResetStep::SetHold(true)).unwrap();
    let assert_reset = plan.iter().position(|s| *s == ResetStep::SetReset(true)).unwrap();
    let release = plan.iter().position(|s| *s == ResetStep::SetReset(false)).unwrap();
    assert!(hold < release);
    let dwell: u32 = plan[assert_reset + 1..release]
        .iter()
        .map(|s| if let ResetStep::WaitMs(ms) = s { *ms } else { 0 })
        .sum();
    assert!(dwell >= 50);
}
