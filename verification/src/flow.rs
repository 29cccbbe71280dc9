//! The order-flow strategy's per-symbol window: the latest prices and the
//! latest per-tick deltas, side by side, and the rule that a symbol holds
//! and answers no signal until its window has filled.
use vstd::prelude::*;

use crate::book::SignalBook;
use crate::ring::RingBuffer;
use crate::rules::{divergence_after, divergence_next, DivergenceReading};
use crate::types::{is_plain, Signal};

verus! {

/// Two windows of equal size over the same ticks: prices and deltas.
pub struct FlowWindow<T> {
    prices: RingBuffer<T>,
    deltas: RingBuffer<T>,
}

impl<T> FlowWindow<T> {
    /// The number of ticks the window spans.
    pub closed spec fn capacity(&self) -> nat {
        self.prices.capacity()
    }

    /// The number of ticks pushed so far.
    pub closed spec fn pushed_count(&self) -> nat {
        self.prices.pushed().len()
    }

    /// Whether every slot has been overwritten by a tick.
    pub closed spec fn full(&self) -> bool {
        self.prices.full()
    }

    /// Every price pushed so far, oldest first.
    pub closed spec fn prices_pushed(&self) -> Seq<T> {
        self.prices.pushed()
    }

    /// Every delta pushed so far, oldest first.
    pub closed spec fn deltas_pushed(&self) -> Seq<T> {
        self.deltas.pushed()
    }

    /// The prices in the window, oldest first.
    pub closed spec fn price_window(&self) -> Seq<T> {
        self.prices.window()
    }

    /// The deltas in the window, oldest first.
    pub closed spec fn delta_window(&self) -> Seq<T> {
        self.deltas.window()
    }

    pub closed spec fn wf(&self) -> bool {
        &&& self.prices.wf()
        &&& self.deltas.wf()
        &&& self.deltas.capacity() == self.prices.capacity()
        &&& self.deltas.pushed().len() == self.prices.pushed().len()
        &&& self.full() == (self.pushed_count() >= self.capacity())
    }

    /// A full window holds the latest `capacity()` prices and the latest
    /// `capacity()` deltas, oldest first.
    pub proof fn lemma_full_window_is_latest_ticks(&self)
        requires
            self.wf(),
            self.full(),
        ensures
            self.pushed_count() == self.prices_pushed().len(),
            self.pushed_count() == self.deltas_pushed().len(),
            self.price_window() == self.prices_pushed().subrange(
                self.pushed_count() - self.capacity(),
                self.pushed_count() as int,
            ),
            self.delta_window() == self.deltas_pushed().subrange(
                self.pushed_count() - self.capacity(),
                self.pushed_count() as int,
            ),
    {
        self.prices.lemma_full_iff_pushed();
        self.deltas.lemma_full_iff_pushed();
    }

    /// A window over `capacity` ticks whose slots all hold `fill`.
    pub fn new(capacity: usize, fill: T) -> (w: Self)
        where T: Copy
        ensures
            w.wf(),
            w.capacity() == capacity,
            w.pushed_count() == 0,
            w.prices_pushed() == Seq::<T>::empty(),
            w.deltas_pushed() == Seq::<T>::empty(),
    {
        let prices = RingBuffer::new(capacity, fill);
        let deltas = RingBuffer::new(capacity, fill);
        proof {
            prices.lemma_full_iff_pushed();
        }
        FlowWindow { prices, deltas }
    }

    /// Whether every slot has been overwritten by a tick.
    pub fn is_full(&self) -> (b: bool)
        requires
            self.wf(),
        ensures
            b == self.full(),
    {
        self.prices.is_full()
    }

    /// Adds one tick.
    pub fn push(&mut self, price: T, delta: T)
        requires
            old(self).wf(),
            old(self).capacity() > 0,
        ensures
            final(self).wf(),
            final(self).capacity() == old(self).capacity(),
            final(self).pushed_count() == old(self).pushed_count() + 1,
            final(self).prices_pushed() == old(self).prices_pushed().push(price),
            final(self).deltas_pushed() == old(self).deltas_pushed().push(delta),
    {
        self.prices.push(price);
        self.deltas.push(delta);
        proof {
            self.prices.lemma_full_iff_pushed();
        }
    }

    /// The prices and the deltas in the window, oldest first.
    pub fn contents(&self) -> (pd: (Vec<T>, Vec<T>))
        where T: Copy
        requires
            self.wf(),
        ensures
            pd.0@ == self.price_window(),
            pd.1@ == self.delta_window(),
            pd.0@.len() == self.capacity(),
            pd.1@.len() == self.capacity(),
    {
        proof {
            self.prices.lemma_full_iff_pushed();
            self.deltas.lemma_full_iff_pushed();
        }
        (self.prices.chronological(), self.deltas.chronological())
    }
}

/// Every window is well-formed, and a symbol whose window has not filled
/// yet holds no signal.
pub open spec fn flow_book_ok<T>(book: SignalBook<FlowWindow<T>>) -> bool {
    &&& book.wf()
    &&& forall|j: int| 0 <= j < book.states().len() ==> (#[trigger] book.states()[j]).wf()
    &&& forall|j: int|
        0 <= j < book.states().len() && !(#[trigger] book.states()[j]).full() ==> book.signals()[j]
            == Signal::NoSignal
}

/// The book of the order-flow strategy: each of `symbols` with an empty
/// window over `capacity` ticks and no signal.
pub fn flow_book<T: Copy>(symbols: &Vec<String>, capacity: usize, fill: T) -> (book: SignalBook<FlowWindow<T>>)
    ensures
        flow_book_ok(book),
        forall|k: Seq<char>| book.keys().contains(k) <==> symbols@.map_values(|s: String| s@).contains(k),
        forall|j: int| 0 <= j < book.states().len() ==> (#[trigger] book.states()[j]).capacity() == capacity
            && book.states()[j].pushed_count() == 0,
        forall|j: int| 0 <= j < book.signals().len() ==> #[trigger] book.signals()[j] == Signal::NoSignal,
{
    let mut book: SignalBook<FlowWindow<T>> = SignalBook::new();
    let ghost syms = symbols@.map_values(|s: String| s@);
    let mut n: usize = 0;
    while n < symbols.len()
        invariant
            n <= symbols@.len(),
            syms == symbols@.map_values(|s: String| s@),
            flow_book_ok(book),
            forall|k: Seq<char>| book.keys().contains(k) <==> syms.take(n as int).contains(k),
            forall|j: int| 0 <= j < book.states().len() ==> (#[trigger] book.states()[j]).capacity()
                == capacity && book.states()[j].pushed_count() == 0,
            forall|j: int| 0 <= j < book.signals().len() ==> #[trigger] book.signals()[j]
                == Signal::NoSignal,
        decreases symbols@.len() - n,
    {
        let w = FlowWindow::new(capacity, fill);
        let ghost before = book;
        let ghost k = symbols@[n as int]@;
        book.insert(symbols[n].clone(), w);
        proof {
            let t0 = syms.take(n as int);
            let t1 = syms.take(n + 1);
            assert(t1 =~= t0.push(k));
            assert forall|x: Seq<char>| t1.contains(x) <==> (t0.contains(x) || x == k) by {
                if t1.contains(x) {
                    let m = choose|m: int| 0 <= m < t1.len() && t1[m] == x;
                    if m < t0.len() {
                        assert(t0[m] == x);
                    }
                }
                if t0.contains(x) {
                    let m = choose|m: int| 0 <= m < t0.len() && t0[m] == x;
                    assert(t1[m] == x);
                }
                if x == k {
                    assert(t1[t0.len() as int] == x);
                }
            }
            if before.keys().contains(k) {
                let i = before.keys().index_of(k);
                assert forall|j: int| 0 <= j < book.states().len() implies (#[trigger] book.states()[j]).wf()
                    && book.states()[j].capacity() == capacity && book.states()[j].pushed_count() == 0 by {
                    if j != i {
                        assert(book.states()[j] == before.states()[j]);
                    }
                }
            } else {
                let last = before.keys().len() as int;
                assert forall|j: int| 0 <= j < book.states().len() implies (#[trigger] book.states()[j]).wf()
                    && book.states()[j].capacity() == capacity && book.states()[j].pushed_count() == 0 by {
                    if j != last {
                        assert(book.states()[j] == before.states()[j]);
                    }
                }
                let bk = before.keys();
                let ak = book.keys();
                assert(ak == bk.push(k));
                assert forall|x: Seq<char>| ak.contains(x) <==> (bk.contains(x) || x == k) by {
                    if ak.contains(x) {
                        let m = choose|m: int| 0 <= m < ak.len() && ak[m] == x;
                        if m < bk.len() {
                            assert(bk[m] == x);
                        }
                    }
                    if bk.contains(x) {
                        let m = choose|m: int| 0 <= m < bk.len() && bk[m] == x;
                        assert(ak[m] == x);
                    }
                    if x == k {
                        assert(ak[bk.len() as int] == x);
                    }
                }
            }
        }
        n = n + 1;
    }
    assert(syms.take(symbols@.len() as int) =~= syms);
    book
}

/// `after` is `before` with one tick added to the window at `i`, the
/// signal there decided, and `sig` answered; nothing else changes.
pub open spec fn flow_recorded<T>(
    before: SignalBook<FlowWindow<T>>,
    after: SignalBook<FlowWindow<T>>,
    i: int,
    sig: Signal,
) -> bool {
    &&& after.keys() == before.keys()
    &&& after.states().len() == before.states().len()
    &&& after.states()[i].capacity() == before.states()[i].capacity()
    &&& after.states()[i].pushed_count() == before.states()[i].pushed_count() + 1
    &&& forall|j: int| 0 <= j < before.states().len() && j != i ==> #[trigger] after.states()[j]
        == before.states()[j] && after.signals()[j] == before.signals()[j]
    &&& after.signals()[i] == sig
}

/// One order-flow tick for the symbol at `i`: the tick enters the window;
/// once the window is full, `read` compares its later half with its
/// earlier one and the divergence rule decides.  The answer is always the
/// signal the symbol then holds, and `NoSignal` while the window is not
/// yet full.
pub fn record_order_flow<T: Copy, F: FnOnce(Vec<T>, Vec<T>) -> DivergenceReading>(
    book: &mut SignalBook<FlowWindow<T>>,
    i: usize,
    price: T,
    delta: T,
    read: F,
) -> (sig: Signal)
    requires
        flow_book_ok(*old(book)),
        i < old(book).keys().len(),
        old(book).states()[i as int].capacity() > 0,
        forall|p: Vec<T>, d: Vec<T>| #[trigger] call_requires(read, (p, d)),
    ensures
        flow_book_ok(*final(book)),
        flow_recorded(*old(book), *final(book), i as int, sig),
        final(book).signal_for(old(book).keys()[i as int]) == sig,
        !final(book).states()[i as int].full() ==> sig == Signal::NoSignal,
        final(book).states()[i as int].pushed_count() < final(book).states()[i as int].capacity()
            ==> sig == Signal::NoSignal,
        is_plain(sig),
        final(book).states()[i as int].prices_pushed() == old(book).states()[i as int].prices_pushed().push(price),
        final(book).states()[i as int].deltas_pushed() == old(book).states()[i as int].deltas_pushed().push(delta),
        final(book).states()[i as int].full() ==> exists|p: Vec<T>, d: Vec<T>, r: DivergenceReading|
            p@ == final(book).states()[i as int].price_window()
                && d@ == final(book).states()[i as int].delta_window()
                && #[trigger] call_ensures(read, (p, d), r)
                && sig == divergence_next(old(book).signals()[i as int], r),
{
    let ghost before = *book;
    let w = book.state_mut(i);
    w.push(price, delta);
    let ghost mut wit: (Vec<T>, Vec<T>) = arbitrary();
    let reading = if w.is_full() {
        let (p, d) = w.contents();
        proof {
            wit = (p, d);
        }
        Some(read(p, d))
    } else {
        None
    };
    let ghost mid = *book;
    let sig = book.apply_divergence(i, reading);
    proof {
        assert(mid.signals() == before.signals());
        let after = *book;
        assert(after.states() == mid.states());
        assert forall|j: int| 0 <= j < after.states().len() && !(#[trigger] after.states()[j]).full()
            implies after.signals()[j] == Signal::NoSignal by {
            if j != i {
                assert(after.states()[j] == before.states()[j]);
            }
        }
        assert forall|j: int| 0 <= j < after.states().len() implies (#[trigger] after.states()[j]).wf() by {
            if j != i {
                assert(after.states()[j] == before.states()[j]);
            }
        }
        crate::book::lemma_only_place(after, before.keys()[i as int], i as int);
        if after.states()[i as int].full() {
            let r = reading.unwrap();
            assert(call_ensures(read, (wit.0, wit.1), r));
        }
    }
    sig
}

/// A symbol's first ticks, fewer than its window holds, all answer
/// `NoSignal`: over any run of order-flow ticks for the symbol at `i`,
/// starting from an empty window, the answers before the window fills
/// are `NoSignal`, and so is what the symbol holds.
pub proof fn lemma_no_signal_until_full<T>(
    books: Seq<SignalBook<FlowWindow<T>>>,
    answers: Seq<Signal>,
    i: int,
)
    requires
        books.len() == answers.len() + 1,
        0 <= i < books[0].states().len(),
        books[0].states()[i].pushed_count() == 0,
        forall|t: int| 0 <= t < answers.len() ==> flow_recorded(#[trigger] books[t], books[t + 1], i, answers[t]),
        forall|t: int| 0 < t < books.len() ==> #[trigger] flow_book_ok(books[t]),
    ensures
        forall|t: int| 0 <= t < answers.len() && t + 1 < books[0].states()[i].capacity()
            ==> #[trigger] answers[t] == Signal::NoSignal,
        forall|t: int| 0 <= t < books.len() ==> #[trigger] books[t].states()[i].pushed_count() == t
            && books[t].states()[i].capacity() == books[0].states()[i].capacity()
            && books[t].states().len() == books[0].states().len(),
    decreases answers.len(),
{
    if answers.len() > 0 {
        let m = answers.len() - 1;
        let b0 = books.drop_last();
        let a0 = answers.drop_last();
        assert forall|t: int| 0 <= t < a0.len() implies flow_recorded(#[trigger] b0[t], b0[t + 1], i, a0[t]) by {
            assert(flow_recorded(books[t], books[t + 1], i, answers[t]));
        }
        assert forall|t: int| 0 < t < b0.len() implies #[trigger] flow_book_ok(b0[t]) by {
            assert(flow_book_ok(books[t]));
        }
        lemma_no_signal_until_full(b0, a0, i);
        assert(flow_recorded(books[m], books[m + 1], i, answers[m]));
        assert(flow_book_ok(books[m + 1]));
        assert forall|t: int| 0 <= t < answers.len() && t + 1 < books[0].states()[i].capacity()
            implies #[trigger] answers[t] == Signal::NoSignal by {
            if t < m {
                assert(a0[t] == answers[t]);
            } else {
                let b = books[m + 1];
                assert(b0[m] == books[m]);
                assert(b.states()[i].pushed_count() == t + 1);
                assert(b.states()[i].wf());
                assert(!b.states()[i].full());
                assert(b.signals()[i] == answers[t]);
            }
        }
        assert(b0[m] == books[m]);
        assert forall|t: int| 0 <= t < books.len() implies #[trigger] books[t].states()[i].pushed_count() == t
            && books[t].states()[i].capacity() == books[0].states()[i].capacity()
            && books[t].states().len() == books[0].states().len() by {
            if t < books.len() - 1 {
                assert(b0[t] == books[t]);
            }
        }
    }
}

} // verus!
