use vstd::prelude::*;

verus! {

/// One step of the hold/reset sequence that puts the attached device into its
/// boot mode.
#[derive(Clone, Copy, Debug, PartialEq, Eq, Structural)]
pub enum ResetStep {
    /// Drive the hold-in-bootloader line to the given level.
    SetHold(bool),
    /// Drive the reset line to the given level (`true` holds the device in reset).
    SetReset(bool),
    /// Wait the given number of milliseconds.
    WaitMs(u32),
    /// The sequence is complete: announce that the bridge is ready.
    Ready,
}

/// The sequence: assert hold, assert reset, wait `dwell_ms`, release reset while
/// hold stays asserted, wait `settle_ms`, announce readiness.
pub open spec fn reset_plan(dwell_ms: u32, settle_ms: u32) -> Seq<ResetStep> {
    seq![
        ResetStep::SetHold(true),
        ResetStep::SetReset(true),
        ResetStep::WaitMs(dwell_ms),
        ResetStep::SetReset(false),
        ResetStep::WaitMs(settle_ms),
        ResetStep::Ready,
    ]
}

/// Milliseconds waited over the steps of `p`.
pub open spec fn waited_ms(p: Seq<ResetStep>) -> nat
    decreases p.len(),
{
    if p.len() == 0 {
        0
    } else {
        (match p.last() {
            ResetStep::WaitMs(ms) => ms as nat,
            _ => 0,
        }) + waited_ms(p.drop_last())
    }
}

/// Every release of the reset line comes after the hold line was asserted, and
/// the hold line is never released.
pub open spec fn hold_precedes_release(p: Seq<ResetStep>) -> bool {
    &&& forall|k: int| 0 <= k < p.len() && p[k] == ResetStep::SetReset(false)
        ==> exists|i: int| 0 <= i < k && p[i] == ResetStep::SetHold(true)
    &&& forall|k: int| 0 <= k < p.len() ==> p[k] != ResetStep::SetHold(false)
}

/// Between asserting and releasing the reset line, at least `min_ms` pass.
pub open spec fn reset_dwell_at_least(p: Seq<ResetStep>, min_ms: nat) -> bool {
    forall|j: int, k: int|
        0 <= j < k < p.len() && p[j] == ResetStep::SetReset(true) && p[k] == ResetStep::SetReset(false)
        ==> waited_ms(p.subrange(j + 1, k)) >= min_ms
}

/// The steps of the reset sequence, in the order the host performs them.
pub fn reset_sequence(dwell_ms: u32, settle_ms: u32) -> (r: Vec<ResetStep>)
    ensures
        r@ == reset_plan(dwell_ms, settle_ms),
{
    let r = vec![
        ResetStep::SetHold(true),
        ResetStep::SetReset(true),
        ResetStep::WaitMs(dwell_ms),
        ResetStep::SetReset(false),
        ResetStep::WaitMs(settle_ms),
        ResetStep::Ready,
    ];
    assert(r@ =~= reset_plan(dwell_ms, settle_ms));
    r
}

/// The sequence asserts the hold line before it ever releases reset, never
/// releases hold, and keeps reset asserted for at least the configured dwell.
pub proof fn lemma_reset_sequence_safe(dwell_ms: u32, settle_ms: u32)
    ensures
        hold_precedes_release(reset_plan(dwell_ms, settle_ms)),
        reset_dwell_at_least(reset_plan(dwell_ms, settle_ms), dwell_ms as nat),
{
    let p = reset_plan(dwell_ms, settle_ms);
    assert forall|k: int| 0 <= k < p.len() && p[k] == ResetStep::SetReset(false)
        implies exists|i: int| 0 <= i < k && p[i] == ResetStep::SetHold(true) by {
        assert(k == 3);
        assert(p[0] == ResetStep::SetHold(true));
    }
    assert forall|j: int, k: int|
        0 <= j < k < p.len() && p[j] == ResetStep::SetReset(true) && p[k] == ResetStep::SetReset(false)
        implies waited_ms(p.subrange(j + 1, k)) >= dwell_ms as nat by {
        assert(j == 1 && k == 3);
        let w = p.subrange(2, 3);
        assert(w.drop_last() =~= Seq::<ResetStep>::empty());
        assert(w.last() == ResetStep::WaitMs(dwell_ms));
        reveal_with_fuel(waited_ms, 2);
    }
}

} // verus!
