use vstd::prelude::*;
use crate::idle_read::{
    data_polls, empty_polls, fresh_reader, lemma_burst_then_silence, lemma_no_data, read_run, read_step, IdleRead,
    ReadStatus, ReaderModel,
};
use crate::ring_buf::SimpleRingBuf;

verus! {

/// One of the two bridged channels.
#[derive(Clone, Copy, Debug, PartialEq, Eq, Structural)]
pub enum Side {
    A,
    B,
}

/// What the bridge asks its host to do next.
#[derive(Clone, Copy, Debug, PartialEq, Eq, Structural)]
pub enum Action {
    /// Poll the channel once without blocking and hand the result to `polled`.
    Poll(Side),
    /// Write the byte to the channel.
    Write(Side, u8),
    /// Nothing happened in the last pass: yield to the scheduler.
    Yield,
}

/// Step of a bridge pass.
#[derive(Clone, Copy, Debug, PartialEq, Eq, Structural)]
pub enum Phase {
    /// Idle-reading channel A into the A-to-B buffer.
    ReadA,
    /// Idle-reading channel B into the B-to-A buffer.
    ReadB,
    /// Writing the A-to-B buffer out to channel B.
    FlushAToB,
    /// Writing the B-to-A buffer out to channel A.
    FlushBToA,
}

/// Abstract state of a bridge.
pub struct BridgeModel {
    pub phase: Phase,
    /// Whether an idle-read in the current pass captured bytes.
    pub activity: bool,
    pub reader_a: ReaderModel,
    pub reader_b: ReaderModel,
    pub a_to_b: Seq<u8>,
    pub b_to_a: Seq<u8>,
}

/// End of a pass: start the next one, yielding first when the pass saw no traffic.
pub open spec fn finish_pass(m: BridgeModel) -> (BridgeModel, Action) {
    (
        BridgeModel { phase: Phase::ReadA, activity: false, ..m },
        if m.activity { Action::Poll(Side::A) } else { Action::Yield },
    )
}

/// Drains the B-to-A buffer, one byte per action, then ends the pass.
pub open spec fn flush_b_to_a(m: BridgeModel) -> (BridgeModel, Action) {
    if m.b_to_a.len() > 0 {
        (
            BridgeModel { phase: Phase::FlushBToA, b_to_a: m.b_to_a.drop_first(), ..m },
            Action::Write(Side::A, m.b_to_a[0]),
        )
    } else {
        finish_pass(m)
    }
}

/// The action a bridge in state `m` asks for, and its state afterwards.
pub open spec fn next_action_spec(m: BridgeModel) -> (BridgeModel, Action) {
    match m.phase {
        Phase::ReadA => (m, Action::Poll(Side::A)),
        Phase::ReadB => (m, Action::Poll(Side::B)),
        Phase::FlushAToB => if m.a_to_b.len() > 0 {
            (BridgeModel { a_to_b: m.a_to_b.drop_first(), ..m }, Action::Write(Side::B, m.a_to_b[0]))
        } else {
            flush_b_to_a(m)
        },
        Phase::FlushBToA => flush_b_to_a(m),
    }
}

/// State after a poll of the channel being read returned `polled`, for buffers of
/// capacity `cap` and silence thresholds `threshold_a` and `threshold_b`; and
/// whether the channel's error probe is due (a poll found nothing within a burst).
pub open spec fn polled_spec(m: BridgeModel, cap: nat, threshold_a: nat, threshold_b: nat, polled: Option<u8>)
    -> (BridgeModel, bool)
{
    if m.phase == Phase::ReadA {
        let (r, q, st) = read_step(m.reader_a, m.a_to_b, cap, threshold_a, polled);
        (
            BridgeModel {
                phase: if st == ReadStatus::Polling { Phase::ReadA } else { Phase::ReadB },
                activity: m.activity || st == ReadStatus::Finished(true),
                reader_a: r,
                a_to_b: q,
                ..m
            },
            polled is None && m.reader_a.started,
        )
    } else {
        let (r, q, st) = read_step(m.reader_b, m.b_to_a, cap, threshold_b, polled);
        (
            BridgeModel {
                phase: if st == ReadStatus::Polling { Phase::ReadB } else { Phase::FlushAToB },
                activity: m.activity || st == ReadStatus::Finished(true),
                reader_b: r,
                b_to_a: q,
                ..m
            },
            polled is None && m.reader_b.started,
        )
    }
}

/// The state after `k` calls of `next_action` from `m`, and the actions returned.
pub open spec fn actions_run(m: BridgeModel, k: nat) -> (BridgeModel, Seq<Action>)
    decreases k,
{
    if k == 0 {
        (m, Seq::empty())
    } else {
        let (m1, a) = next_action_spec(m);
        let (m2, rest) = actions_run(m1, (k - 1) as nat);
        (m2, seq![a] + rest)
    }
}

/// One write action to `side` per byte of `bytes`, in order.
pub open spec fn writes_to(side: Side, bytes: Seq<u8>) -> Seq<Action> {
    bytes.map_values(|b: u8| Action::Write(side, b))
}

/// The state in which a pass that started in `m` leaves the bridge once both
/// buffers are flushed.
pub open spec fn after_flush(m: BridgeModel) -> BridgeModel {
    BridgeModel { phase: Phase::ReadA, activity: false, a_to_b: Seq::empty(), b_to_a: Seq::empty(), ..m }
}

/// The action that closes a pass with activity flag `activity`.
pub open spec fn pass_end(activity: bool) -> Action {
    if activity { Action::Poll(Side::A) } else { Action::Yield }
}

proof fn lemma_flush_b_to_a(m: BridgeModel)
    requires
        m.phase == Phase::FlushBToA || m.phase == Phase::FlushAToB,
        m.a_to_b.len() == 0,
    ensures
        actions_run(m, m.b_to_a.len() + 1) == (
            after_flush(m),
            writes_to(Side::A, m.b_to_a) + seq![pass_end(m.activity)],
        ),
    decreases m.b_to_a.len(),
{
    if m.b_to_a.len() == 0 {
        reveal_with_fuel(actions_run, 2);
        assert(m.a_to_b =~= Seq::<u8>::empty());
        assert(m.b_to_a =~= Seq::<u8>::empty());
        assert(after_flush(m) == finish_pass(m).0);
        assert(writes_to(Side::A, m.b_to_a) + seq![pass_end(m.activity)] =~= seq![pass_end(m.activity)] + Seq::empty());
    } else {
        let (m1, a) = next_action_spec(m);
        assert(m1 == BridgeModel { phase: Phase::FlushBToA, b_to_a: m.b_to_a.drop_first(), ..m });
        lemma_flush_b_to_a(m1);
        assert(after_flush(m1) == after_flush(m));
        assert(seq![a] + (writes_to(Side::A, m1.b_to_a) + seq![pass_end(m.activity)])
            =~= writes_to(Side::A, m.b_to_a) + seq![pass_end(m.activity)]);
    }
}

proof fn lemma_flush_a_to_b(m: BridgeModel)
    requires
        m.phase == Phase::FlushAToB,
    ensures
        actions_run(m, m.a_to_b.len() + m.b_to_a.len() + 1) == (
            after_flush(m),
            writes_to(Side::B, m.a_to_b) + writes_to(Side::A, m.b_to_a) + seq![pass_end(m.activity)],
        ),
    decreases m.a_to_b.len(),
{
    if m.a_to_b.len() == 0 {
        lemma_flush_b_to_a(m);
        assert(writes_to(Side::B, m.a_to_b) + writes_to(Side::A, m.b_to_a) =~= writes_to(Side::A, m.b_to_a));
    } else {
        let (m1, a) = next_action_spec(m);
        assert(m1 == BridgeModel { a_to_b: m.a_to_b.drop_first(), ..m });
        lemma_flush_a_to_b(m1);
        assert(after_flush(m1) == after_flush(m));
        assert(seq![a] + (writes_to(Side::B, m1.a_to_b) + writes_to(Side::A, m.b_to_a) + seq![pass_end(m.activity)])
            =~= writes_to(Side::B, m.a_to_b) + writes_to(Side::A, m.b_to_a) + seq![pass_end(m.activity)]);
    }
}

/// Once a pass starts flushing, the next calls of `next_action` write every byte
/// buffered from A to channel B in the order it was buffered, then every byte
/// buffered from B to channel A in order, and then close the pass: with a yield
/// when neither idle-read saw traffic, otherwise by polling A again at once.
/// Both buffers are then empty.
pub proof fn lemma_flush_in_order(m: BridgeModel)
    requires
        m.phase == Phase::FlushAToB,
    ensures
        actions_run(m, m.a_to_b.len() + m.b_to_a.len() + 1) == (
            after_flush(m),
            writes_to(Side::B, m.a_to_b) + writes_to(Side::A, m.b_to_a) + seq![pass_end(m.activity)],
        ),
{
    lemma_flush_a_to_b(m);
}

/// A bridge about to start its first pass, with both buffers empty.
pub open spec fn fresh_bridge() -> BridgeModel {
    BridgeModel {
        phase: Phase::ReadA,
        activity: false,
        reader_a: fresh_reader(),
        reader_b: fresh_reader(),
        a_to_b: Seq::empty(),
        b_to_a: Seq::empty(),
    }
}

/// The state after handing each result of `polls` in turn to `polled`.
pub open spec fn polled_run(m: BridgeModel, cap: nat, threshold_a: nat, threshold_b: nat, polls: Seq<Option<u8>>)
    -> BridgeModel
    decreases polls.len(),
{
    if polls.len() == 0 {
        m
    } else {
        polled_run(polled_spec(m, cap, threshold_a, threshold_b, polls[0]).0, cap, threshold_a, threshold_b, polls.drop_first())
    }
}

/// Statuses of a pass that ends on its last poll.
pub open spec fn ends_last(n: nat, activity: bool) -> Seq<ReadStatus> {
    Seq::new((n - 1) as nat, |i: int| ReadStatus::Polling).push(ReadStatus::Finished(activity))
}

proof fn lemma_polled_run_concat(m: BridgeModel, cap: nat, ta: nat, tb: nat, p1: Seq<Option<u8>>, p2: Seq<Option<u8>>)
    ensures
        polled_run(m, cap, ta, tb, p1 + p2) == polled_run(polled_run(m, cap, ta, tb, p1), cap, ta, tb, p2),
    decreases p1.len(),
{
    if p1.len() == 0 {
        assert(p1 + p2 =~= p2);
    } else {
        assert((p1 + p2).drop_first() =~= p1.drop_first() + p2);
        assert((p1 + p2)[0] == p1[0]);
        lemma_polled_run_concat(polled_spec(m, cap, ta, tb, p1[0]).0, cap, ta, tb, p1.drop_first(), p2);
    }
}

proof fn lemma_read_phase(m: BridgeModel, cap: nat, ta: nat, tb: nat, polls: Seq<Option<u8>>, act: bool)
    requires
        m.phase == Phase::ReadA || m.phase == Phase::ReadB,
        polls.len() > 0,
        m.phase == Phase::ReadA ==> read_run(m.reader_a, m.a_to_b, cap, ta, polls).2 == ends_last(polls.len(), act),
        m.phase == Phase::ReadB ==> read_run(m.reader_b, m.b_to_a, cap, tb, polls).2 == ends_last(polls.len(), act),
    ensures
        m.phase == Phase::ReadA ==> polled_run(m, cap, ta, tb, polls) == (BridgeModel {
            phase: Phase::ReadB,
            activity: m.activity || act,
            reader_a: read_run(m.reader_a, m.a_to_b, cap, ta, polls).0,
            a_to_b: read_run(m.reader_a, m.a_to_b, cap, ta, polls).1,
            ..m
        }),
        m.phase == Phase::ReadB ==> polled_run(m, cap, ta, tb, polls) == (BridgeModel {
            phase: Phase::FlushAToB,
            activity: m.activity || act,
            reader_b: read_run(m.reader_b, m.b_to_a, cap, tb, polls).0,
            b_to_a: read_run(m.reader_b, m.b_to_a, cap, tb, polls).1,
            ..m
        }),
    decreases polls.len(),
{
    let m1 = polled_spec(m, cap, ta, tb, polls[0]).0;
    let n = polls.len();
    let st = ends_last(n, act);
    assert(st[0] == if n == 1 { ReadStatus::Finished(act) } else { ReadStatus::Polling });
    if n == 1 {
        reveal_with_fuel(read_run, 2);
        reveal_with_fuel(polled_run, 2);
        assert(polls.drop_first() =~= Seq::<Option<u8>>::empty());
    } else {
        let rest = polls.drop_first();
        assert(st.drop_first() =~= ends_last(rest.len(), act));
        if m.phase == Phase::ReadA {
            let (r1, q1, s1) = read_step(m.reader_a, m.a_to_b, cap, ta, polls[0]);
            assert(read_run(m.reader_a, m.a_to_b, cap, ta, polls).2 == seq![s1] + read_run(r1, q1, cap, ta, rest).2);
            assert((seq![s1] + read_run(r1, q1, cap, ta, rest).2).drop_first() =~= read_run(r1, q1, cap, ta, rest).2);
            lemma_read_phase(m1, cap, ta, tb, rest, act);
        } else {
            let (r1, q1, s1) = read_step(m.reader_b, m.b_to_a, cap, tb, polls[0]);
            assert(read_run(m.reader_b, m.b_to_a, cap, tb, polls).2 == seq![s1] + read_run(r1, q1, cap, tb, rest).2);
            assert((seq![s1] + read_run(r1, q1, cap, tb, rest).2).drop_first() =~= read_run(r1, q1, cap, tb, rest).2);
            lemma_read_phase(m1, cap, ta, tb, rest, act);
        }
    }
}

/// A first pass in which channel A delivers a burst of bytes and then stays quiet
/// for more than its threshold, while channel B delivers nothing, forwards
/// exactly that burst to B in the order it arrived, writes nothing to A, and then
/// polls A again at once because the pass saw traffic.
pub proof fn lemma_one_way_pass(cap: nat, threshold_a: nat, threshold_b: nat, bytes: Seq<u8>)
    requires
        0 < bytes.len() <= cap,
    ensures
        ({
            let m = polled_run(
                fresh_bridge(),
                cap,
                threshold_a,
                threshold_b,
                data_polls(bytes) + empty_polls(threshold_a + 1) + empty_polls(1),
            );
            &&& m.phase == Phase::FlushAToB
            &&& m.a_to_b == bytes
            &&& m.b_to_a.len() == 0
            &&& actions_run(m, bytes.len() + 1) == (
                after_flush(m),
                writes_to(Side::B, bytes) + seq![Action::Poll(Side::A)],
            )
        }),
{
    let m0 = fresh_bridge();
    let pa = data_polls(bytes) + empty_polls(threshold_a + 1);
    let pb = empty_polls(1);
    lemma_burst_then_silence(Seq::empty(), cap, threshold_a, bytes);
    assert(Seq::<u8>::empty() + bytes =~= bytes);
    assert(pa.len() == bytes.len() + threshold_a + 1);
    assert(ends_last(pa.len(), true) =~= Seq::new(bytes.len() + threshold_a, |i: int| ReadStatus::Polling).push(
        ReadStatus::Finished(true),
    ));
    lemma_read_phase(m0, cap, threshold_a, threshold_b, pa, true);
    let m1 = polled_run(m0, cap, threshold_a, threshold_b, pa);
    lemma_no_data(Seq::empty(), cap, threshold_b);
    assert(ends_last(1, false) =~= seq![ReadStatus::Finished(false)]);
    lemma_read_phase(m1, cap, threshold_a, threshold_b, pb, false);
    lemma_polled_run_concat(m0, cap, threshold_a, threshold_b, pa, pb);
    let m2 = polled_run(m1, cap, threshold_a, threshold_b, pb);
    lemma_flush_in_order(m2);
    assert(writes_to(Side::B, m2.a_to_b) + writes_to(Side::A, m2.b_to_a) =~= writes_to(Side::B, bytes));
}

/// Relays bytes between two channels A and B with no framing: each pass idle-reads
/// A, then B, each into its own ring buffer of `N` slots, then writes everything
/// buffered from A to B and from B to A, and yields only after a pass with no
/// traffic. The host performs the actions the bridge asks for.
pub struct Bridge<const N: usize> {
    a_to_b: SimpleRingBuf<N>,
    b_to_a: SimpleRingBuf<N>,
    reader_a: IdleRead,
    reader_b: IdleRead,
    phase: Phase,
    activity: bool,
}

impl<const N: usize> Bridge<N> {
    pub closed spec fn view(&self) -> BridgeModel {
        BridgeModel {
            phase: self.phase,
            activity: self.activity,
            reader_a: self.reader_a.model(),
            reader_b: self.reader_b.model(),
            a_to_b: self.a_to_b@,
            b_to_a: self.b_to_a@,
        }
    }

    pub closed spec fn threshold_a_spec(&self) -> nat {
        self.reader_a.threshold_spec()
    }

    pub closed spec fn threshold_b_spec(&self) -> nat {
        self.reader_b.threshold_spec()
    }

    pub closed spec fn wf(&self) -> bool {
        &&& self.a_to_b.wf()
        &&& self.b_to_a.wf()
        &&& self.reader_a.wf()
        &&& self.reader_b.wf()
    }

    /// A bridge about to start a pass, with both buffers empty. Channel A is judged
    /// silent after more than `threshold_a` consecutive empty polls, B after more
    /// than `threshold_b`.
    pub fn new(threshold_a: usize, threshold_b: usize) -> (r: Self)
        requires
            N > 0,
        ensures
            r.wf(),
            r@ == fresh_bridge(),
            r.threshold_a_spec() == threshold_a,
            r.threshold_b_spec() == threshold_b,
    {
        Bridge {
            a_to_b: SimpleRingBuf::new(),
            b_to_a: SimpleRingBuf::new(),
            reader_a: IdleRead::new(threshold_a),
            reader_b: IdleRead::new(threshold_b),
            phase: Phase::ReadA,
            activity: false,
        }
    }

    /// The step of the pass the bridge is in.
    pub fn phase(&self) -> (r: Phase)
        ensures
            r == self@.phase,
    {
        self.phase
    }

    /// Bytes waiting to go from A to B.
    pub fn pending_a_to_b(&self) -> (r: usize)
        requires
            self.wf(),
        ensures
            r == self@.a_to_b.len(),
    {
        self.a_to_b.len()
    }

    /// Bytes waiting to go from B to A.
    pub fn pending_b_to_a(&self) -> (r: usize)
        requires
            self.wf(),
        ensures
            r == self@.b_to_a.len(),
    {
        self.b_to_a.len()
    }

    /// Decides what the host does next: poll the channel being read, write the
    /// oldest buffered byte to the other channel, or, at the end of a pass, start
    /// the next pass (after a yield when the pass saw no traffic).
    pub fn next_action(&mut self) -> (r: Action)
        requires
            old(self).wf(),
        ensures
            final(self).wf(),
            final(self).threshold_a_spec() == old(self).threshold_a_spec(),
            final(self).threshold_b_spec() == old(self).threshold_b_spec(),
            (final(self)@, r) == next_action_spec(old(self)@),
    {
        match self.phase {
            Phase::ReadA => Action::Poll(Side::A),
            Phase::ReadB => Action::Poll(Side::B),
            Phase::FlushAToB | Phase::FlushBToA => {
                if self.phase == Phase::FlushAToB {
                    if let Some(b) = self.a_to_b.pop() {
                        return Action::Write(Side::B, b);
                    }
                }
                self.phase = Phase::FlushBToA;
                if let Some(b) = self.b_to_a.pop() {
                    return Action::Write(Side::A, b);
                }
                self.phase = Phase::ReadA;
                let active = self.activity;
                self.activity = false;
                if active {
                    Action::Poll(Side::A)
                } else {
                    Action::Yield
                }
            },
        }
    }

    /// Takes the result of the poll that `next_action` asked for. Returns whether
    /// the host should now run the channel's error probe, which is for
    /// diagnostics only.
    pub fn polled(&mut self, polled: Option<u8>) -> (r: bool)
        requires
            old(self).wf(),
            old(self)@.phase == Phase::ReadA || old(self)@.phase == Phase::ReadB,
        ensures
            final(self).wf(),
            final(self).threshold_a_spec() == old(self).threshold_a_spec(),
            final(self).threshold_b_spec() == old(self).threshold_b_spec(),
            (final(self)@, r) == polled_spec(
                old(self)@,
                SimpleRingBuf::<N>::capacity(),
                old(self).threshold_a_spec(),
                old(self).threshold_b_spec(),
                polled,
            ),
    {
        if self.phase == Phase::ReadA {
            let probe = polled.is_none() && self.reader_a.in_burst();
            let st = self.reader_a.step(polled, &mut self.a_to_b);
            if let ReadStatus::Finished(active) = st {
                self.activity = self.activity || active;
                self.phase = Phase::ReadB;
            }
            probe
        } else {
            let probe = polled.is_none() && self.reader_b.in_burst();
            let st = self.reader_b.step(polled, &mut self.b_to_a);
            if let ReadStatus::Finished(active) = st {
                self.activity = self.activity || active;
                self.phase = Phase::FlushAToB;
            }
            probe
        }
    }
}

} // verus!
