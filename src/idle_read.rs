use vstd::prelude::*;
use crate::ring_buf::{pushed, SimpleRingBuf};

verus! {

/// What one poll told the idle reader.
#[derive(Clone, Copy, Debug, PartialEq, Eq, Structural)]
pub enum ReadStatus {
    /// Keep polling the same channel.
    Polling,
    /// The pass is over; `true` when at least one byte was captured in it.
    Finished(bool),
}

/// Where an idle-read pass stands: whether a byte has been captured in it, and how
/// many consecutive polls since the last byte found nothing.
pub struct ReaderModel {
    pub started: bool,
    pub silence: nat,
}

pub open spec fn fresh_reader() -> ReaderModel {
    ReaderModel { started: false, silence: 0 }
}

/// One poll of an idle-read pass whose silence threshold is `threshold`, with buffer
/// contents `q` of capacity `cap`. Returns the new pass state, the new contents and
/// the status reported for this poll.
pub open spec fn read_step(m: ReaderModel, q: Seq<u8>, cap: nat, threshold: nat, polled: Option<u8>)
    -> (ReaderModel, Seq<u8>, ReadStatus)
{
    match polled {
        Some(b) => (ReaderModel { started: true, silence: 0 }, pushed(q, cap, b), ReadStatus::Polling),
        None => if !m.started {
            (fresh_reader(), q, ReadStatus::Finished(false))
        } else if m.silence + 1 > threshold {
            (fresh_reader(), q, ReadStatus::Finished(true))
        } else {
            (ReaderModel { started: true, silence: m.silence + 1 }, q, ReadStatus::Polling)
        },
    }
}

/// The result of feeding `polls` one after another to `read_step`: the final pass
/// state, the final contents and the status reported for each poll.
pub open spec fn read_run(m: ReaderModel, q: Seq<u8>, cap: nat, threshold: nat, polls: Seq<Option<u8>>)
    -> (ReaderModel, Seq<u8>, Seq<ReadStatus>)
    decreases polls.len(),
{
    if polls.len() == 0 {
        (m, q, Seq::empty())
    } else {
        let (m1, q1, s1) = read_step(m, q, cap, threshold, polls[0]);
        let (m2, q2, ss) = read_run(m1, q1, cap, threshold, polls.drop_first());
        (m2, q2, seq![s1] + ss)
    }
}

/// Polls that deliver `bytes` back to back.
pub open spec fn data_polls(bytes: Seq<u8>) -> Seq<Option<u8>> {
    bytes.map_values(|b: u8| Some(b))
}

/// `k` polls that find nothing.
pub open spec fn empty_polls(k: nat) -> Seq<Option<u8>> {
    Seq::new(k, |i: int| None::<u8>)
}

proof fn lemma_run_concat(m: ReaderModel, q: Seq<u8>, cap: nat, threshold: nat, p1: Seq<Option<u8>>, p2: Seq<Option<u8>>)
    ensures
        ({
            let (m1, q1, s1) = read_run(m, q, cap, threshold, p1);
            let (m2, q2, s2) = read_run(m1, q1, cap, threshold, p2);
            read_run(m, q, cap, threshold, p1 + p2) == (m2, q2, s1 + s2)
        }),
    decreases p1.len(),
{
    if p1.len() == 0 {
        assert(p1 + p2 =~= p2);
        let (m2, q2, s2) = read_run(m, q, cap, threshold, p2);
        assert(Seq::<ReadStatus>::empty() + s2 =~= s2);
    } else {
        let (m1, q1, s1) = read_step(m, q, cap, threshold, p1[0]);
        assert((p1 + p2).drop_first() =~= p1.drop_first() + p2);
        assert((p1 + p2)[0] == p1[0]);
        lemma_run_concat(m1, q1, cap, threshold, p1.drop_first(), p2);
        let (ma, qa, sa) = read_run(m1, q1, cap, threshold, p1.drop_first());
        let (mb, qb, sb) = read_run(ma, qa, cap, threshold, p2);
        assert(seq![s1] + (sa + sb) =~= (seq![s1] + sa) + sb);
    }
}

proof fn lemma_run_data(m: ReaderModel, q: Seq<u8>, cap: nat, threshold: nat, bytes: Seq<u8>)
    requires
        bytes.len() > 0,
        q.len() + bytes.len() <= cap,
    ensures
        read_run(m, q, cap, threshold, data_polls(bytes)) == (
            ReaderModel { started: true, silence: 0 },
            q + bytes,
            Seq::new(bytes.len(), |i: int| ReadStatus::Polling),
        ),
    decreases bytes.len(),
{
    let polls = data_polls(bytes);
    assert(polls[0] == Some(bytes[0]));
    let (m1, q1, s1) = read_step(m, q, cap, threshold, polls[0]);
    assert(q1 == q.push(bytes[0]));
    assert(polls.drop_first() =~= data_polls(bytes.drop_first()));
    if bytes.len() == 1 {
        reveal_with_fuel(read_run, 2);
        assert(q.push(bytes[0]) =~= q + bytes);
        assert(seq![s1] + Seq::<ReadStatus>::empty() =~= Seq::new(bytes.len(), |i: int| ReadStatus::Polling));
    } else {
        lemma_run_data(m1, q1, cap, threshold, bytes.drop_first());
        assert(q.push(bytes[0]) + bytes.drop_first() =~= q + bytes);
        assert(seq![s1] + Seq::new(bytes.drop_first().len(), |i: int| ReadStatus::Polling)
            =~= Seq::new(bytes.len(), |i: int| ReadStatus::Polling));
    }
}

proof fn lemma_run_quiet(silence: nat, q: Seq<u8>, cap: nat, threshold: nat, k: nat)
    requires
        silence + k <= threshold,
    ensures
        read_run(ReaderModel { started: true, silence }, q, cap, threshold, empty_polls(k)) == (
            ReaderModel { started: true, silence: silence + k },
            q,
            Seq::new(k, |i: int| ReadStatus::Polling),
        ),
    decreases k,
{
    if k == 0 {
        assert(Seq::<ReadStatus>::empty() =~= Seq::new(k, |i: int| ReadStatus::Polling));
    } else {
        assert(empty_polls(k).drop_first() =~= empty_polls((k - 1) as nat));
        lemma_run_quiet(silence + 1, q, cap, threshold, (k - 1) as nat);
        assert(seq![ReadStatus::Polling] + Seq::new((k - 1) as nat, |i: int| ReadStatus::Polling)
            =~= Seq::new(k, |i: int| ReadStatus::Polling));
    }
}

/// A pass whose channel delivers a burst of bytes and then stays quiet for
/// `threshold + 1` polls captures exactly that burst, in order, keeps polling
/// until the last of those polls, and then reports that there was activity.
pub proof fn lemma_burst_then_silence(q: Seq<u8>, cap: nat, threshold: nat, bytes: Seq<u8>)
    requires
        bytes.len() > 0,
        q.len() + bytes.len() <= cap,
    ensures
        read_run(fresh_reader(), q, cap, threshold, data_polls(bytes) + empty_polls(threshold + 1)) == (
            fresh_reader(),
            q + bytes,
            Seq::new(bytes.len() + threshold, |i: int| ReadStatus::Polling).push(ReadStatus::Finished(true)),
        ),
{
    let started = ReaderModel { started: true, silence: 0 };
    lemma_run_data(fresh_reader(), q, cap, threshold, bytes);
    assert(empty_polls(threshold + 1) =~= empty_polls(threshold) + seq![None::<u8>]);
    lemma_run_concat(started, q + bytes, cap, threshold, empty_polls(threshold), seq![None::<u8>]);
    lemma_run_quiet(0, q + bytes, cap, threshold, threshold);
    let last = seq![None::<u8>];
    assert(last.drop_first() =~= Seq::<Option<u8>>::empty());
    reveal_with_fuel(read_run, 2);
    assert(read_run(ReaderModel { started: true, silence: threshold }, q + bytes, cap, threshold, last)
        == (fresh_reader(), q + bytes, seq![ReadStatus::Finished(true)] + Seq::<ReadStatus>::empty()));
    lemma_run_concat(fresh_reader(), q, cap, threshold, data_polls(bytes), empty_polls(threshold + 1));
    assert(Seq::new(bytes.len(), |i: int| ReadStatus::Polling)
        + (Seq::new(threshold, |i: int| ReadStatus::Polling) + (seq![ReadStatus::Finished(true)] + Seq::empty()))
        =~= Seq::new(bytes.len() + threshold, |i: int| ReadStatus::Polling).push(ReadStatus::Finished(true)));
}

/// A burst followed by only `threshold` quiet polls is not yet judged silent:
/// every poll still reports `Polling`, so exactly `threshold + 1` quiet polls are
/// needed to end the pass.
pub proof fn lemma_threshold_not_yet_silent(q: Seq<u8>, cap: nat, threshold: nat, bytes: Seq<u8>)
    requires
        bytes.len() > 0,
        q.len() + bytes.len() <= cap,
    ensures
        read_run(fresh_reader(), q, cap, threshold, data_polls(bytes) + empty_polls(threshold)) == (
            ReaderModel { started: true, silence: threshold },
            q + bytes,
            Seq::new(bytes.len() + threshold, |i: int| ReadStatus::Polling),
        ),
{
    lemma_run_data(fresh_reader(), q, cap, threshold, bytes);
    lemma_run_quiet(0, q + bytes, cap, threshold, threshold);
    lemma_run_concat(fresh_reader(), q, cap, threshold, data_polls(bytes), empty_polls(threshold));
    assert(Seq::new(bytes.len(), |i: int| ReadStatus::Polling) + Seq::new(threshold, |i: int| ReadStatus::Polling)
        =~= Seq::new(bytes.len() + threshold, |i: int| ReadStatus::Polling));
}

/// A pass whose first poll finds nothing ends at once, reports no activity and
/// leaves the buffer alone.
pub proof fn lemma_no_data(q: Seq<u8>, cap: nat, threshold: nat)
    ensures
        read_run(fresh_reader(), q, cap, threshold, empty_polls(1)) == (
            fresh_reader(),
            q,
            seq![ReadStatus::Finished(false)],
        ),
{
    reveal_with_fuel(read_run, 2);
    assert(empty_polls(1).drop_first() =~= Seq::<Option<u8>>::empty());
    assert(seq![ReadStatus::Finished(false)] + Seq::<ReadStatus>::empty() =~= seq![ReadStatus::Finished(false)]);
}

/// Drains one channel into a ring buffer until the sender has been silent for more
/// than `threshold` consecutive polls. The caller polls the channel and hands each
/// result to `step`.
pub struct IdleRead {
    threshold: usize,
    silence: usize,
    started: bool,
}

impl IdleRead {
    pub closed spec fn model(&self) -> ReaderModel {
        ReaderModel { started: self.started, silence: self.silence as nat }
    }

    pub closed spec fn threshold_spec(&self) -> nat {
        self.threshold as nat
    }

    pub closed spec fn wf(&self) -> bool {
        &&& self.silence <= self.threshold
        &&& !self.started ==> self.silence == 0
    }

    /// A reader at the start of a pass.
    pub fn new(threshold: usize) -> (r: Self)
        ensures
            r.wf(),
            r.model() == fresh_reader(),
            r.threshold_spec() == threshold,
    {
        IdleRead { threshold, silence: 0, started: false }
    }

    /// The silence threshold.
    pub fn threshold(&self) -> (r: usize)
        ensures
            r == self.threshold_spec(),
    {
        self.threshold
    }

    /// Whether a byte has been captured in the current pass.
    pub fn in_burst(&self) -> (r: bool)
        ensures
            r == self.model().started,
    {
        self.started
    }

    /// Takes the result of one poll of the channel: a byte goes into `buf` and
    /// clears the silence count; a poll that found nothing either ends the pass
    /// (at once when no byte came yet, otherwise once the count exceeds the
    /// threshold) or adds one to the count.
    pub fn step<const N: usize>(&mut self, polled: Option<u8>, buf: &mut SimpleRingBuf<N>) -> (r: ReadStatus)
        requires
            old(self).wf(),
            old(buf).wf(),
        ensures
            final(self).wf(),
            final(buf).wf(),
            final(self).threshold_spec() == old(self).threshold_spec(),
            (final(self).model(), final(buf)@, r) == read_step(
                old(self).model(),
                old(buf)@,
                SimpleRingBuf::<N>::capacity(),
                old(self).threshold_spec(),
                polled,
            ),
    {
        match polled {
            Some(b) => {
                buf.push(b);
                self.started = true;
                self.silence = 0;
                ReadStatus::Polling
            },
            None => {
                if !self.started {
                    ReadStatus::Finished(false)
                } else if self.silence >= self.threshold {
                    self.started = false;
                    self.silence = 0;
                    ReadStatus::Finished(true)
                } else {
                    self.silence = self.silence + 1;
                    ReadStatus::Polling
                }
            },
        }
    }
}

} // verus!
