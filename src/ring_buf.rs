use vstd::prelude::*;

verus! {

/// Number of live bytes between `tail` (next read) and `head` (next write).
pub open spec fn live_len(head: int, tail: int, n: int) -> int {
    if head >= tail { head - tail } else { n - tail + head }
}

/// Store index of the `i`-th live byte, counted from `tail`.
pub open spec fn slot_of(tail: int, i: int, n: int) -> int {
    if tail + i < n { tail + i } else { tail + i - n }
}

/// Contents after offering `byte` to a buffer holding `s` that keeps at most `cap` bytes:
/// the byte is appended when there is room, and the contents are left alone otherwise.
pub open spec fn pushed(s: Seq<u8>, cap: nat, byte: u8) -> Seq<u8> {
    if s.len() < cap { s.push(byte) } else { s }
}

/// Contents after offering each byte of `xs` in turn, starting from `s`.
pub open spec fn pushed_all(s: Seq<u8>, cap: nat, xs: Seq<u8>) -> Seq<u8>
    decreases xs.len(),
{
    if xs.len() == 0 {
        s
    } else {
        pushed_all(pushed(s, cap, xs[0]), cap, xs.drop_first())
    }
}

/// Bytes returned by popping `s` until it is empty, in the order they come out:
/// each pop returns the first live byte and leaves the rest.
pub open spec fn drained(s: Seq<u8>) -> Seq<u8>
    decreases s.len(),
{
    if s.len() == 0 {
        Seq::empty()
    } else {
        seq![s[0]] + drained(s.drop_first())
    }
}

proof fn lemma_pushed_all_fits(s: Seq<u8>, cap: nat, xs: Seq<u8>)
    requires
        s.len() + xs.len() <= cap,
    ensures
        pushed_all(s, cap, xs) == s + xs,
    decreases xs.len(),
{
    if xs.len() == 0 {
        assert(s + xs =~= s);
    } else {
        lemma_pushed_all_fits(s.push(xs[0]), cap, xs.drop_first());
        assert(s.push(xs[0]) + xs.drop_first() =~= s + xs);
    }
}

proof fn lemma_drained_is_identity(s: Seq<u8>)
    ensures
        drained(s) == s,
    decreases s.len(),
{
    if s.len() > 0 {
        lemma_drained_is_identity(s.drop_first());
        assert(seq![s[0]] + s.drop_first() =~= s);
    }
}

/// First-in first-out: offering at most `cap` bytes to an empty buffer of
/// capacity `cap` keeps all of them, and popping it dry returns exactly those
/// bytes in the order they were pushed.
pub proof fn lemma_fifo(cap: nat, xs: Seq<u8>)
    requires
        xs.len() <= cap,
    ensures
        pushed_all(Seq::empty(), cap, xs) == xs,
        drained(pushed_all(Seq::empty(), cap, xs)) == xs,
{
    lemma_pushed_all_fits(Seq::empty(), cap, xs);
    assert(Seq::<u8>::empty() + xs =~= xs);
    lemma_drained_is_identity(xs);
}

/// A full buffer rejects a byte and keeps its contents, whatever was offered.
pub proof fn lemma_full_keeps_contents(s: Seq<u8>, cap: nat, byte: u8)
    requires
        s.len() >= cap,
    ensures
        pushed(s, cap, byte) == s,
{
}

/// Fixed-capacity circular byte queue with `N` slots, one of which is always left
/// free so that an empty buffer (`head == tail`) differs from a full one.
pub struct SimpleRingBuf<const N: usize> {
    buf: [u8; N],
    head: usize,
    tail: usize,
    dropped: u64,
}

impl<const N: usize> SimpleRingBuf<N> {
    /// Most bytes the buffer can hold at once.
    pub open spec fn capacity() -> nat {
        (N - 1) as nat
    }

    pub closed spec fn wf(&self) -> bool {
        &&& N > 0
        &&& self.head < N
        &&& self.tail < N
    }

    /// Bytes rejected because the buffer was full, saturating at `u64::MAX`.
    pub closed spec fn dropped_spec(&self) -> nat {
        self.dropped as nat
    }

    /// Live bytes, oldest first.
    pub closed spec fn view(&self) -> Seq<u8> {
        Seq::new(
            live_len(self.head as int, self.tail as int, N as int) as nat,
            |i: int| self.buf@[slot_of(self.tail as int, i, N as int)],
        )
    }

    pub proof fn lemma_view_fits(&self)
        requires
            self.wf(),
        ensures
            self@.len() <= Self::capacity(),
    {
    }

    /// An empty buffer.
    pub fn new() -> (r: Self)
        requires
            N > 0,
        ensures
            r.wf(),
            r@ == Seq::<u8>::empty(),
            r.dropped_spec() == 0,
    {
        let r = SimpleRingBuf { buf: [0u8; N], head: 0, tail: 0, dropped: 0 };
        assert(r@ =~= Seq::<u8>::empty());
        r
    }

    /// Appends `byte` unless the buffer is full; a full buffer rejects it, keeps
    /// its contents unchanged and counts the drop.
    pub fn push(&mut self, byte: u8) -> (r: bool)
        requires
            old(self).wf(),
        ensures
            final(self).wf(),
            r == (old(self)@.len() < Self::capacity()),
            final(self)@ == pushed(old(self)@, Self::capacity(), byte),
            r ==> final(self).dropped_spec() == old(self).dropped_spec(),
            !r ==> final(self).dropped_spec() == if old(self).dropped_spec() < u64::MAX {
                old(self).dropped_spec() + 1
            } else {
                old(self).dropped_spec()
            },
    {
        let next: usize = if self.head + 1 == N { 0 } else { self.head + 1 };
        if next == self.tail {
            self.dropped = self.dropped.saturating_add(1);
            return false;
        }
        let ghost before = self@;
        self.buf[self.head] = byte;
        self.head = next;
        assert(self@ =~= before.push(byte));
        true
    }

    /// Removes and returns the oldest byte, or `None` when the buffer is empty.
    pub fn pop(&mut self) -> (r: Option<u8>)
        requires
            old(self).wf(),
        ensures
            final(self).wf(),
            old(self)@.len() == 0 ==> r == None::<u8> && final(self)@ == old(self)@,
            old(self)@.len() > 0 ==> r == Some(old(self)@[0]) && final(self)@ == old(self)@.drop_first(),
            final(self).dropped_spec() == old(self).dropped_spec(),
    {
        if self.head == self.tail {
            return None;
        }
        let ghost before = self@;
        let byte = self.buf[self.tail];
        self.tail = if self.tail + 1 == N { 0 } else { self.tail + 1 };
        assert(self@ =~= before.drop_first());
        Some(byte)
    }

    /// Whether no byte is waiting.
    pub fn is_empty(&self) -> (r: bool)
        requires
            self.wf(),
        ensures
            r == (self@.len() == 0),
    {
        self.head == self.tail
    }

    /// Number of bytes waiting.
    pub fn len(&self) -> (r: usize)
        requires
            self.wf(),
        ensures
            r == self@.len(),
    {
        if self.head >= self.tail { self.head - self.tail } else { N - self.tail + self.head }
    }

    /// Number of bytes rejected so far because the buffer was full.
    pub fn dropped(&self) -> (r: u64)
        ensures
            r == self.dropped_spec(),
    {
        self.dropped
    }

    /// Whether the next push would be rejected.
    pub fn is_full(&self) -> (r: bool)
        requires
            self.wf(),
        ensures
            r == (self@.len() == Self::capacity()),
    {
        let next: usize = if self.head + 1 == N { 0 } else { self.head + 1 };
        next == self.tail
    }
}

} // verus!
