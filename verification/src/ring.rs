//! A fixed-size window over the most recent values of a stream, kept in a
//! ring of slots that the next value overwrites oldest-first.
use vstd::prelude::*;

verus! {

/// `capacity()` slots, first all holding the fill value, then overwritten
/// one by one, oldest first, as values are pushed.
pub struct RingBuffer<T> {
    slots: Vec<T>,
    idx: usize,
    filled: bool,
    initial: Ghost<Seq<T>>,
    history: Ghost<Seq<T>>,
}

/// The last `n` values of `initial` followed by `pushed`, oldest first.
pub open spec fn last_window<T>(initial: Seq<T>, pushed: Seq<T>, n: nat) -> Seq<T> {
    (initial + pushed).subrange(pushed.len() as int, (pushed.len() + n) as int)
}

impl<T> RingBuffer<T> {
    /// The number of slots.
    pub closed spec fn capacity(&self) -> nat {
        self.slots@.len()
    }

    /// The slots as they were when the buffer was made.
    pub closed spec fn initial(&self) -> Seq<T> {
        self.initial@
    }

    /// Every value pushed so far, oldest first.
    pub closed spec fn pushed(&self) -> Seq<T> {
        self.history@
    }

    /// Whether every slot has been overwritten at least once.
    pub closed spec fn full(&self) -> bool {
        self.filled
    }

    /// The values the slots hold, oldest first.
    pub open spec fn window(&self) -> Seq<T> {
        last_window(self.initial(), self.pushed(), self.capacity())
    }

    pub closed spec fn wf(&self) -> bool {
        let n = self.slots@.len();
        &&& self.initial@.len() == n
        &&& self.filled <==> self.history@.len() >= n
        &&& !self.filled ==> self.idx == self.history@.len()
        &&& (n > 0 ==> self.idx < n)
        &&& (n == 0 ==> self.idx == 0)
        &&& self.slots@.subrange(self.idx as int, n as int) + self.slots@.subrange(0, self.idx as int)
            == last_window(self.initial@, self.history@, n)
    }

    /// `capacity` slots, each holding `fill`.
    pub fn new(capacity: usize, fill: T) -> (r: Self)
        where T: Copy
        ensures
            r.wf(),
            r.capacity() == capacity,
            r.initial() == Seq::new(capacity as nat, |_i: int| fill),
            r.pushed() == Seq::<T>::empty(),
            r.full() == (capacity == 0),
    {
        let mut slots: Vec<T> = Vec::new();
        let mut i: usize = 0;
        while i < capacity
            invariant
                i <= capacity,
                slots@ == Seq::new(i as nat, |_i: int| fill),
            decreases capacity - i,
        {
            slots.push(fill);
            i = i + 1;
            assert(slots@ =~= Seq::new(i as nat, |_i: int| fill));
        }
        let ghost init = slots@;
        let r = RingBuffer {
            slots,
            idx: 0,
            filled: capacity == 0,
            initial: Ghost(init),
            history: Ghost(Seq::empty()),
        };
        assert(r.slots@.subrange(0, capacity as int) + r.slots@.subrange(0, 0) =~= last_window(
            init,
            Seq::<T>::empty(),
            capacity as nat,
        ));
        r
    }

    /// The number of slots.
    pub fn capacity_of(&self) -> (n: usize)
        ensures
            n == self.capacity(),
    {
        self.slots.len()
    }

    /// Whether every slot has been overwritten at least once, that is,
    /// whether at least `capacity()` values have been pushed.
    pub fn is_full(&self) -> (b: bool)
        requires
            self.wf(),
        ensures
            b == self.full(),
            b == (self.pushed().len() >= self.capacity()),
    {
        self.filled
    }

    /// Overwrites the oldest slot with `value`.
    pub fn push(&mut self, value: T)
        requires
            old(self).wf(),
            old(self).capacity() > 0,
        ensures
            final(self).wf(),
            final(self).capacity() == old(self).capacity(),
            final(self).initial() == old(self).initial(),
            final(self).pushed() == old(self).pushed().push(value),
            final(self).window() == old(self).window().drop_first().push(value),
    {
        let n = self.slots.len();
        let ghost old_slots = self.slots@;
        let ghost i = self.idx as int;
        let ghost h = self.history@;
        let ghost init = self.initial@;
        self.slots.set(self.idx, value);
        self.idx = if self.idx + 1 == n { 0 } else { self.idx + 1 };
        if self.idx == 0 {
            self.filled = true;
        }
        self.history = Ghost(h.push(value));
        proof {
            let w_old = old_slots.subrange(i, n as int) + old_slots.subrange(0, i);
            let w_new = self.slots@.subrange(self.idx as int, n as int) + self.slots@.subrange(
                0,
                self.idx as int,
            );
            assert(w_new =~= w_old.drop_first().push(value));
            assert(last_window(init, h.push(value), n as nat) =~= last_window(
                init,
                h,
                n as nat,
            ).drop_first().push(value));
        }
    }

    /// The values the slots hold, oldest first.  Once the buffer is full
    /// these are exactly the last `capacity()` values pushed.
    pub fn chronological(&self) -> (w: Vec<T>)
        where T: Copy
        requires
            self.wf(),
        ensures
            w@ == self.window(),
            self.full() ==> w@ == self.pushed().subrange(
                self.pushed().len() - self.capacity(),
                self.pushed().len() as int,
            ),
    {
        let n = self.slots.len();
        let mut w: Vec<T> = Vec::new();
        let mut k: usize = 0;
        let ghost win = self.slots@.subrange(self.idx as int, n as int) + self.slots@.subrange(
            0,
            self.idx as int,
        );
        while k < n
            invariant
                self.wf(),
                n == self.slots@.len(),
                k <= n,
                win == self.slots@.subrange(self.idx as int, n as int) + self.slots@.subrange(
                    0,
                    self.idx as int,
                ),
                w@ == win.subrange(0, k as int),
            decreases n - k,
        {
            let j = if k < n - self.idx { self.idx + k } else { k - (n - self.idx) };
            w.push(self.slots[j]);
            k = k + 1;
            assert(w@ =~= win.subrange(0, k as int));
        }
        assert(w@ =~= win);
        proof {
            if self.full() {
                lemma_full_window_is_latest(self.initial(), self.pushed(), self.capacity());
            }
        }
        w
    }
}

impl<T> RingBuffer<T> {
    /// A well-formed buffer is full exactly when at least `capacity()`
    /// values have been pushed, and its window spans `capacity()` values.
    pub proof fn lemma_full_iff_pushed(&self)
        requires
            self.wf(),
        ensures
            self.full() == (self.pushed().len() >= self.capacity()),
            self.window().len() == self.capacity(),
            self.full() ==> self.window() == self.pushed().subrange(
                self.pushed().len() - self.capacity(),
                self.pushed().len() as int,
            ),
    {
        if self.full() {
            lemma_full_window_is_latest(self.initial(), self.pushed(), self.capacity());
        }
    }
}

/// Once at least `n` values have been pushed behind `n` initial ones, the
/// window of the last `n` holds only pushed values: the latest `n` of them.
pub proof fn lemma_full_window_is_latest<T>(initial: Seq<T>, pushed: Seq<T>, n: nat)
    requires
        initial.len() == n,
        pushed.len() >= n,
    ensures
        last_window(initial, pushed, n) == pushed.subrange(pushed.len() - n, pushed.len() as int),
{
    assert(last_window(initial, pushed, n) =~= pushed.subrange(
        pushed.len() - n,
        pushed.len() as int,
    ));
}

} // verus!
