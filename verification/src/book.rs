//! The per-symbol table of a strategy: for each configured symbol, the
//! signal it currently holds and the strategy's indicator state for it.
use vstd::prelude::*;

use crate::engine::SignalSource;
use crate::rules::{
    divergence_after, divergence_step, ema_cross_after, ema_cross_step, imbalance_after,
    imbalance_step, lemma_outcomes_stay_plain, rsi_after, rsi_step, DivergenceReading,
    ImbalanceReading, Relation, RsiReading,
};
use crate::types::{is_plain, Signal};

verus! {

/// Symbols, each with its current signal and an indicator state `S`.
/// A symbol occurs at most once; lookups of an unknown symbol find nothing.
/// The entries are kept in vectors rather than in a `HashMap<String, _>`:
/// vstd's map specifications hold only for key types with a known hashing
/// model (integers, `bool`, boxes of them), which `String` is not among.
pub struct SignalBook<S> {
    symbols: Vec<String>,
    signals: Vec<Signal>,
    states: Vec<S>,
}

/// `after` is `before` with `k` holding a fresh `state` and no signal: in
/// the place `k` already had, or appended at the end.
pub open spec fn inserted<S>(before: SignalBook<S>, after: SignalBook<S>, k: Seq<char>, state: S) -> bool {
    if before.keys().contains(k) {
        let i = before.keys().index_of(k);
        &&& after.keys() == before.keys()
        &&& after.signals() == before.signals().update(i, Signal::NoSignal)
        &&& after.states() == before.states().update(i, state)
    } else {
        &&& after.keys() == before.keys().push(k)
        &&& after.signals() == before.signals().push(Signal::NoSignal)
        &&& after.states() == before.states().push(state)
    }
}

/// `after` is `before` with the signal at `i` replaced by `sig`.
pub open spec fn resignalled<S>(before: SignalBook<S>, after: SignalBook<S>, i: int, sig: Signal) -> bool {
    &&& after.keys() == before.keys()
    &&& after.signals() == before.signals().update(i, sig)
    &&& after.states() == before.states()
}

/// Where `k` stands first in `book`, its signal is what the book answers.
pub proof fn lemma_signal_for_at<S>(book: SignalBook<S>, k: Seq<char>, i: int)
    requires
        book.first_at(k, i),
    ensures
        book.signal_for(k) == if i < book.signals().len() {
            book.signals()[i]
        } else {
            Signal::NoSignal
        },
{
    let c = choose|c: int| book.first_at(k, c);
    assert(book.first_at(k, c));
    if c < i {
        assert(book.keys()[c] == k);
    } else if c > i {
        assert(book.keys()[i] != k);
    }
    assert(c == i);
}

/// In a well-formed book the only place of `k` is its first one.
pub proof fn lemma_only_place<S>(book: SignalBook<S>, k: Seq<char>, i: int)
    requires
        book.wf(),
        0 <= i < book.keys().len(),
        book.keys()[i] == k,
    ensures
        book.first_at(k, i),
        book.signal_for(k) == book.signals()[i],
{
    assert forall|j: int| 0 <= j < i implies book.keys()[j] != k by {
        assert(book.keys()[j] != book.keys()[i]);
    }
    lemma_signal_for_at(book, k, i);
}

/// Every signal a well-formed book answers is `NoSignal`, `Buy`, `Sell`
/// or `Exit`.  Every operation keeps the book well-formed, so no strategy
/// ever answers a strong signal or `Error`.
pub proof fn lemma_answers_are_plain<S>(book: SignalBook<S>, k: Seq<char>)
    requires
        book.wf(),
    ensures
        is_plain(book.signal_for(k)),
{
    if exists|i: int| book.first_at(k, i) {
        let i = choose|i: int| book.first_at(k, i);
        lemma_signal_for_at(book, k, i);
    }
}

/// A symbol just put in the book answers `NoSignal`; every other symbol
/// answers what it answered before.
pub proof fn lemma_insert_then_signal<S>(
    before: SignalBook<S>,
    after: SignalBook<S>,
    k: Seq<char>,
    state: S,
    other: Seq<char>,
)
    requires
        before.wf(),
        after.wf(),
        inserted(before, after, k, state),
        other != k,
    ensures
        after.keys().contains(k),
        after.signal_for(k) == Signal::NoSignal,
        after.signal_for(other) == before.signal_for(other),
{
    if before.keys().contains(k) {
        let i = before.keys().index_of(k);
        lemma_only_place(after, k, i);
    } else {
        let n = before.keys().len() as int;
        assert(after.keys()[n] == k);
        lemma_only_place(after, k, n);
    }
    lemma_same_answer_elsewhere(before, after, other, k);
}

/// A symbol other than the one inserted or the one resignalled keeps its
/// answer.
proof fn lemma_same_answer_elsewhere<S>(
    before: SignalBook<S>,
    after: SignalBook<S>,
    other: Seq<char>,
    k: Seq<char>,
)
    requires
        before.wf(),
        after.wf(),
        other != k,
        after.keys().len() >= before.keys().len(),
        forall|j: int| 0 <= j < before.keys().len() ==> after.keys()[j] == before.keys()[j],
        forall|j: int| before.keys().len() <= j < after.keys().len() ==> after.keys()[j] == k,
        forall|j: int|
            0 <= j < before.keys().len() && before.keys()[j] != k ==> after.signals()[j]
                == before.signals()[j],
    ensures
        after.signal_for(other) == before.signal_for(other),
{
    if before.keys().contains(other) {
        let j = before.keys().index_of(other);
        lemma_only_place(before, other, j);
        lemma_only_place(after, other, j);
    } else {
        assert(!after.keys().contains(other)) by {
            if after.keys().contains(other) {
                let j = after.keys().index_of(other);
                assert(j < before.keys().len() ==> before.keys()[j] == other);
            }
        }
        assert(!exists|i: int| before.first_at(other, i));
        assert(!exists|i: int| after.first_at(other, i));
    }
}

/// Changing the signal of one symbol leaves the answers for every other
/// symbol as they were.
pub proof fn lemma_resignal_elsewhere<S>(
    before: SignalBook<S>,
    after: SignalBook<S>,
    i: int,
    sig: Signal,
    other: Seq<char>,
)
    requires
        before.wf(),
        after.wf(),
        0 <= i < before.keys().len(),
        resignalled(before, after, i, sig),
        other != before.keys()[i],
    ensures
        after.signal_for(other) == before.signal_for(other),
        after.signal_for(before.keys()[i]) == sig,
{
    lemma_only_place(after, before.keys()[i], i);
    lemma_same_answer_elsewhere(before, after, other, before.keys()[i]);
}

impl<S> SignalBook<S> {
    /// The symbols, in the order in which they were first inserted.
    pub closed spec fn keys(&self) -> Seq<Seq<char>> {
        self.symbols@.map_values(|s: String| s@)
    }

    /// `signals()[i]` is the signal of `keys()[i]`.
    pub closed spec fn signals(&self) -> Seq<Signal> {
        self.signals@
    }

    /// `states()[i]` is the indicator state of `keys()[i]`.
    pub closed spec fn states(&self) -> Seq<S> {
        self.states@
    }

    /// One signal and one state per symbol, no symbol twice, and only the
    /// signals a strategy can hold.
    pub open spec fn wf(&self) -> bool {
        &&& self.signals().len() == self.keys().len()
        &&& self.states().len() == self.keys().len()
        &&& self.keys().no_duplicates()
        &&& forall|i: int| 0 <= i < self.signals().len() ==> is_plain(#[trigger] self.signals()[i])
    }

    /// `i` is the first place of symbol `k`.
    pub open spec fn first_at(&self, k: Seq<char>, i: int) -> bool {
        &&& 0 <= i < self.keys().len()
        &&& self.keys()[i] == k
        &&& forall|j: int| 0 <= j < i ==> self.keys()[j] != k
    }

    /// The signal the book answers for symbol `k`: the one at its first
    /// place, or `NoSignal` for a symbol it does not hold.
    pub open spec fn signal_for(&self, k: Seq<char>) -> Signal {
        if exists|i: int| self.first_at(k, i) {
            let i = choose|i: int| self.first_at(k, i);
            if i < self.signals().len() {
                self.signals()[i]
            } else {
                Signal::NoSignal
            }
        } else {
            Signal::NoSignal
        }
    }

    /// An empty book.
    pub fn new() -> (b: Self)
        ensures
            b.wf(),
            b.keys() == Seq::<Seq<char>>::empty(),
    {
        SignalBook { symbols: Vec::new(), signals: Vec::new(), states: Vec::new() }
    }

    /// The number of symbols held.
    pub fn len(&self) -> (n: usize)
        ensures
            n == self.keys().len(),
    {
        self.symbols.len()
    }

    /// Where `symbol` first stands in the book, if it is held.
    pub fn position(&self, symbol: &str) -> (p: Option<usize>)
        ensures
            match p {
                Some(i) => self.first_at(symbol@, i as int),
                None => !self.keys().contains(symbol@),
            },
    {
        let key = symbol.to_owned();
        let n = self.symbols.len();
        let mut i: usize = 0;
        while i < n
            invariant
                n == self.symbols@.len(),
                self.keys() == self.symbols@.map_values(|s: String| s@),
                key@ == symbol@,
                i <= n,
                forall|j: int| 0 <= j < i ==> self.keys()[j] != symbol@,
            decreases n - i,
        {
            if self.symbols[i] == key {
                return Some(i);
            }
            i = i + 1;
        }
        None
    }

    /// The signal held for `symbol`, or `NoSignal` if the symbol is unknown.
    pub fn signal_of(&self, symbol: &str) -> (sig: Signal)
        ensures
            sig == self.signal_for(symbol@),
    {
        match self.position(symbol) {
            Some(i) => {
                proof {
                    lemma_signal_for_at(*self, symbol@, i as int);
                }
                if i < self.signals.len() {
                    self.signals[i]
                } else {
                    Signal::NoSignal
                }
            },
            None => Signal::NoSignal,
        }
    }

    /// The signal held at position `i`.
    pub fn signal_at(&self, i: usize) -> (sig: Signal)
        requires
            self.wf(),
            i < self.keys().len(),
        ensures
            sig == self.signals()[i as int],
    {
        self.signals[i]
    }

    /// The indicator state at position `i`.
    pub fn state_at(&self, i: usize) -> (st: &S)
        requires
            self.wf(),
            i < self.keys().len(),
        ensures
            *st == self.states()[i as int],
    {
        &self.states[i]
    }

    /// The indicator state at position `i`, to be updated in place.
    pub fn state_mut(&mut self, i: usize) -> (st: &mut S)
        requires
            old(self).wf(),
            i < old(self).keys().len(),
        ensures
            *st == old(self).states()[i as int],
            final(self).wf(),
            final(self).keys() == old(self).keys(),
            final(self).signals() == old(self).signals(),
            final(self).states() == old(self).states().update(i as int, *final(st)),
    {
        &mut self.states[i]
    }

    /// Holds `sig` at position `i`.
    fn hold(&mut self, i: usize, sig: Signal)
        requires
            old(self).wf(),
            i < old(self).keys().len(),
            is_plain(sig),
        ensures
            final(self).wf(),
            resignalled(*old(self), *final(self), i as int, sig),
    {
        self.signals.set(i, sig);
    }

    /// The crossover update at position `i`: `reading` is `None` for the
    /// first price, else the previous and current comparison of the fast
    /// average with the slow one.  Returns the signal answered.
    pub fn apply_ema_cross(&mut self, i: usize, reading: Option<(Relation, Relation)>) -> (sig: Signal)
        requires
            old(self).wf(),
            i < old(self).keys().len(),
        ensures
            final(self).wf(),
            resignalled(*old(self), *final(self), i as int, ema_cross_after(old(self).signals()[i as int], reading).0),
            sig == ema_cross_after(old(self).signals()[i as int], reading).1,
            is_plain(sig),
    {
        let current = self.signals[i];
        let next = match reading {
            Some((prev, now)) => ema_cross_step(current, prev, now),
            None => current,
        };
        proof {
            lemma_outcomes_stay_plain(current, reading, None, None, None);
        }
        self.hold(i, next);
        next
    }

    /// The RSI update at position `i`: `reading` is `None` while the index
    /// warms up.  Returns the signal answered.
    pub fn apply_rsi(&mut self, i: usize, reading: Option<RsiReading>) -> (sig: Signal)
        requires
            old(self).wf(),
            i < old(self).keys().len(),
        ensures
            final(self).wf(),
            resignalled(*old(self), *final(self), i as int, rsi_after(old(self).signals()[i as int], reading).0),
            sig == rsi_after(old(self).signals()[i as int], reading).1,
            is_plain(sig),
    {
        let current = self.signals[i];
        proof {
            lemma_outcomes_stay_plain(current, None, reading, None, None);
        }
        match reading {
            Some(r) => {
                let next = rsi_step(current, r);
                self.hold(i, next);
                next
            },
            None => {
                self.hold(i, current);
                Signal::NoSignal
            },
        }
    }

    /// The imbalance update at position `i`: `reading` is `None` for the
    /// sample that seeds the smoothing.  Returns the signal answered.
    pub fn apply_imbalance(&mut self, i: usize, reading: Option<ImbalanceReading>) -> (sig: Signal)
        requires
            old(self).wf(),
            i < old(self).keys().len(),
        ensures
            final(self).wf(),
            resignalled(*old(self), *final(self), i as int, imbalance_after(old(self).signals()[i as int], reading).0),
            sig == imbalance_after(old(self).signals()[i as int], reading).1,
            is_plain(sig),
    {
        let current = self.signals[i];
        proof {
            lemma_outcomes_stay_plain(current, None, None, reading, None);
        }
        match reading {
            Some(r) => {
                let next = imbalance_step(current, r);
                self.hold(i, next);
                next
            },
            None => {
                self.hold(i, current);
                Signal::NoSignal
            },
        }
    }

    /// The order-flow update at position `i`: `reading` is `None` while the
    /// window is not yet full.  Returns the signal answered.
    pub fn apply_divergence(&mut self, i: usize, reading: Option<DivergenceReading>) -> (sig: Signal)
        requires
            old(self).wf(),
            i < old(self).keys().len(),
        ensures
            final(self).wf(),
            resignalled(*old(self), *final(self), i as int, divergence_after(old(self).signals()[i as int], reading).0),
            sig == divergence_after(old(self).signals()[i as int], reading).1,
            is_plain(sig),
    {
        let current = self.signals[i];
        proof {
            lemma_outcomes_stay_plain(current, None, None, None, reading);
        }
        match reading {
            Some(r) => {
                let next = divergence_step(current, r);
                self.hold(i, next);
                next
            },
            None => {
                self.hold(i, current);
                Signal::NoSignal
            },
        }
    }

    /// Puts `symbol` in the book with a fresh `state` and no signal; a
    /// symbol already held keeps its place and has its entry replaced.
    pub fn insert(&mut self, symbol: String, state: S)
        requires
            old(self).wf(),
        ensures
            final(self).wf(),
            inserted(*old(self), *final(self), symbol@, state),
    {
        match self.position(symbol.as_str()) {
            Some(i) => {
                proof {
                    let j = old(self).keys().index_of(symbol@);
                    assert(old(self).keys().contains(symbol@));
                    assert(j == i);
                }
                self.signals.set(i, Signal::NoSignal);
                self.states.set(i, state);
            },
            None => {
                let ghost k = symbol@;
                self.symbols.push(symbol);
                self.signals.push(Signal::NoSignal);
                self.states.push(state);
                assert(self.keys() =~= old(self).keys().push(k));
            },
        }
    }
}

impl<S> SignalSource for SignalBook<S> {
    open spec fn answer(&self, symbol: Seq<char>) -> Signal {
        self.signal_for(symbol)
    }

    fn signal(&mut self, symbol: &str) -> (s: Signal) {
        self.signal_of(symbol)
    }
}

} // verus!
