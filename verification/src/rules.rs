//! The decisions of the four strategies.  The indicators themselves are
//! computed in floating point outside this library; each decision here takes
//! the outcome of the comparisons the strategy makes and the signal the
//! symbol currently holds, and gives the signal it holds next.
use vstd::prelude::*;

use crate::types::{is_plain, Signal};

verus! {

/// How a left-hand quantity compares with a right-hand one.  `Unordered`
/// is the outcome when either side is not a number, where every ordered
/// comparison is false.
#[derive(Clone, Copy, Debug, PartialEq, Eq, Structural)]
pub enum Relation {
    Below,
    Equal,
    Above,
    Unordered,
}

impl Relation {
    /// `left < right`
    pub open spec fn lt(self) -> bool {
        self is Below
    }

    /// `left > right`
    pub open spec fn gt(self) -> bool {
        self is Above
    }

    /// `left <= right`
    pub open spec fn le(self) -> bool {
        self is Below || self is Equal
    }

    /// `left >= right`
    pub open spec fn ge(self) -> bool {
        self is Above || self is Equal
    }

    pub fn is_lt(self) -> (b: bool)
        ensures
            b == self.lt(),
    {
        matches!(self, Relation::Below)
    }

    pub fn is_gt(self) -> (b: bool)
        ensures
            b == self.gt(),
    {
        matches!(self, Relation::Above)
    }

    pub fn is_le(self) -> (b: bool)
        ensures
            b == self.le(),
    {
        matches!(self, Relation::Below | Relation::Equal)
    }

    pub fn is_ge(self) -> (b: bool)
        ensures
            b == self.ge(),
    {
        matches!(self, Relation::Above | Relation::Equal)
    }
}

// ── EMA crossover ────────────────────────────────────────────────

/// `prev` compares the previous fast average with the previous slow one,
/// `now` the current fast average with the current slow one.
pub open spec fn ema_cross_next(current: Signal, prev: Relation, now: Relation) -> Signal {
    if prev.le() && now.gt() {
        Signal::Buy
    } else if prev.ge() && now.lt() {
        Signal::Sell
    } else if current == Signal::Buy && now.lt() {
        Signal::Exit
    } else if current == Signal::Sell && now.gt() {
        Signal::Exit
    } else {
        current
    }
}

/// The signal after a crossover update: `Buy` on an upward cross, `Sell`
/// on a downward cross, `Exit` when an open side is crossed against.
pub fn ema_cross_step(current: Signal, prev: Relation, now: Relation) -> (next: Signal)
    ensures
        next == ema_cross_next(current, prev, now),
{
    if prev.is_le() && now.is_gt() {
        Signal::Buy
    } else if prev.is_ge() && now.is_lt() {
        Signal::Sell
    } else if current == Signal::Buy && now.is_lt() {
        Signal::Exit
    } else if current == Signal::Sell && now.is_gt() {
        Signal::Exit
    } else {
        current
    }
}

// ── RSI mean reversion ───────────────────────────────────────────

/// The comparisons the RSI strategy makes: the index against the
/// oversold level, against the overbought level, and against 50.
#[derive(Clone, Copy, Debug, PartialEq, Eq, Structural)]
pub struct RsiReading {
    pub vs_oversold: Relation,
    pub vs_overbought: Relation,
    pub vs_midline: Relation,
}

pub open spec fn rsi_next(current: Signal, r: RsiReading) -> Signal {
    if r.vs_oversold.lt() && current != Signal::Buy {
        Signal::Buy
    } else if r.vs_overbought.gt() && current != Signal::Sell {
        Signal::Sell
    } else if r.vs_midline.gt() && current == Signal::Buy {
        Signal::Exit
    } else if r.vs_midline.lt() && current == Signal::Sell {
        Signal::Exit
    } else {
        current
    }
}

/// The signal once the index is warmed up: `Buy` below the oversold level,
/// `Sell` above the overbought level, `Exit` when the index crosses back
/// over 50 against the open side.
pub fn rsi_step(current: Signal, r: RsiReading) -> (next: Signal)
    ensures
        next == rsi_next(current, r),
{
    if r.vs_oversold.is_lt() && current != Signal::Buy {
        Signal::Buy
    } else if r.vs_overbought.is_gt() && current != Signal::Sell {
        Signal::Sell
    } else if r.vs_midline.is_gt() && current == Signal::Buy {
        Signal::Exit
    } else if r.vs_midline.is_lt() && current == Signal::Sell {
        Signal::Exit
    } else {
        current
    }
}

// ── Order book imbalance ─────────────────────────────────────────

/// The comparisons the imbalance strategy makes on its smoothed imbalance
/// (`smoothed`) and the previous smoothed value (`prev`) against the entry
/// threshold, its negation, the exit threshold and its negation.
#[derive(Clone, Copy, Debug, PartialEq, Eq, Structural)]
pub struct ImbalanceReading {
    pub smoothed_vs_entry: Relation,
    pub prev_vs_entry: Relation,
    pub smoothed_vs_neg_entry: Relation,
    pub prev_vs_neg_entry: Relation,
    pub smoothed_vs_exit: Relation,
    pub smoothed_vs_neg_exit: Relation,
}

pub open spec fn imbalance_next(current: Signal, r: ImbalanceReading) -> Signal {
    if r.smoothed_vs_entry.gt() && r.prev_vs_entry.le() && current != Signal::Buy {
        Signal::Buy
    } else if r.smoothed_vs_neg_entry.lt() && r.prev_vs_neg_entry.ge() && current != Signal::Sell {
        Signal::Sell
    } else if current == Signal::Buy && r.smoothed_vs_exit.lt() {
        Signal::Exit
    } else if current == Signal::Sell && r.smoothed_vs_neg_exit.gt() {
        Signal::Exit
    } else {
        current
    }
}

/// The signal after a smoothed imbalance update: `Buy` when it rises
/// through the entry threshold, `Sell` when it falls through its negation,
/// `Exit` when an open side decays past the exit threshold.
pub fn imbalance_step(current: Signal, r: ImbalanceReading) -> (next: Signal)
    ensures
        next == imbalance_next(current, r),
{
    if r.smoothed_vs_entry.is_gt() && r.prev_vs_entry.is_le() && current != Signal::Buy {
        Signal::Buy
    } else if r.smoothed_vs_neg_entry.is_lt() && r.prev_vs_neg_entry.is_ge() && current
        != Signal::Sell {
        Signal::Sell
    } else if current == Signal::Buy && r.smoothed_vs_exit.is_lt() {
        Signal::Exit
    } else if current == Signal::Sell && r.smoothed_vs_neg_exit.is_gt() {
        Signal::Exit
    } else {
        current
    }
}

// ── Order flow divergence ────────────────────────────────────────

/// The comparisons the order-flow strategy makes between the later half
/// of its window and the earlier half: lowest price, highest price, and
/// net delta.
#[derive(Clone, Copy, Debug, PartialEq, Eq, Structural)]
pub struct DivergenceReading {
    pub low_late_vs_early: Relation,
    pub high_late_vs_early: Relation,
    pub flow_late_vs_early: Relation,
}

/// Price makes a lower low while net delta is higher.
pub open spec fn bullish(r: DivergenceReading) -> bool {
    r.low_late_vs_early.lt() && r.flow_late_vs_early.gt()
}

/// Price makes a higher high while net delta is lower.
pub open spec fn bearish(r: DivergenceReading) -> bool {
    r.high_late_vs_early.gt() && r.flow_late_vs_early.lt()
}

pub open spec fn divergence_next(current: Signal, r: DivergenceReading) -> Signal {
    if bullish(r) && current != Signal::Buy {
        Signal::Buy
    } else if bearish(r) && current != Signal::Sell {
        Signal::Sell
    } else if current == Signal::Buy && !bullish(r) {
        Signal::Exit
    } else if current == Signal::Sell && !bearish(r) {
        Signal::Exit
    } else {
        current
    }
}

/// The signal after a full window: `Buy` on bullish divergence, `Sell` on
/// bearish divergence, `Exit` as soon as the divergence behind an open side
/// is gone.
pub fn divergence_step(current: Signal, r: DivergenceReading) -> (next: Signal)
    ensures
        next == divergence_next(current, r),
{
    let bull = r.low_late_vs_early.is_lt() && r.flow_late_vs_early.is_gt();
    let bear = r.high_late_vs_early.is_gt() && r.flow_late_vs_early.is_lt();
    if bull && current != Signal::Buy {
        Signal::Buy
    } else if bear && current != Signal::Sell {
        Signal::Sell
    } else if current == Signal::Buy && !bull {
        Signal::Exit
    } else if current == Signal::Sell && !bear {
        Signal::Exit
    } else {
        current
    }
}

// ── Outcomes of an update ────────────────────────────────────────
//
// An update of a strategy's indicator yields a reading, or nothing while
// the indicator is not ready yet: the first price of the crossover, the
// warm-up of the RSI, the seeding of the smoothed imbalance, a window of
// order flow that is not yet full.  Each outcome is the pair of the signal
// the symbol holds afterwards and the signal the strategy answers.

/// The crossover answers the signal it holds, before and after its first
/// price alike.
pub open spec fn ema_cross_after(current: Signal, reading: Option<(Relation, Relation)>) -> (
    Signal,
    Signal,
) {
    match reading {
        Some((prev, now)) => (
            ema_cross_next(current, prev, now),
            ema_cross_next(current, prev, now),
        ),
        None => (current, current),
    }
}

/// Not warmed up: the held signal stays, the answer is `NoSignal`.
pub open spec fn rsi_after(current: Signal, reading: Option<RsiReading>) -> (Signal, Signal) {
    match reading {
        Some(r) => (rsi_next(current, r), rsi_next(current, r)),
        None => (current, Signal::NoSignal),
    }
}

/// The seeding sample: the held signal stays, the answer is `NoSignal`.
pub open spec fn imbalance_after(current: Signal, reading: Option<ImbalanceReading>) -> (
    Signal,
    Signal,
) {
    match reading {
        Some(r) => (imbalance_next(current, r), imbalance_next(current, r)),
        None => (current, Signal::NoSignal),
    }
}

/// A window not yet full: the held signal stays, the answer is `NoSignal`.
pub open spec fn divergence_after(current: Signal, reading: Option<DivergenceReading>) -> (
    Signal,
    Signal,
) {
    match reading {
        Some(r) => (divergence_next(current, r), divergence_next(current, r)),
        None => (current, Signal::NoSignal),
    }
}

// ── Laws ─────────────────────────────────────────────────────────

/// `Exit` is only ever entered from an open `Buy` or `Sell`.
pub proof fn lemma_exit_closes_a_side(
    current: Signal,
    prev: Relation,
    now: Relation,
    rsi: RsiReading,
    imb: ImbalanceReading,
    div: DivergenceReading,
)
    requires
        current != Signal::Exit,
    ensures
        ema_cross_next(current, prev, now) == Signal::Exit ==> current is Buy || current is Sell,
        rsi_next(current, rsi) == Signal::Exit ==> current is Buy || current is Sell,
        imbalance_next(current, imb) == Signal::Exit ==> current is Buy || current is Sell,
        divergence_next(current, div) == Signal::Exit ==> current is Buy || current is Sell,
{
}

/// The crossover strategy turns to `Buy` only on an upward cross and to
/// `Sell` only on a downward cross.
pub proof fn lemma_ema_entries_need_a_cross(current: Signal, prev: Relation, now: Relation)
    ensures
        ema_cross_next(current, prev, now) == Signal::Buy && current != Signal::Buy ==> prev.le()
            && now.gt(),
        ema_cross_next(current, prev, now) == Signal::Sell && current != Signal::Sell ==> prev.ge()
            && now.lt(),
{
}

/// With no crossing and an ordered comparison that agrees with the open
/// side, the crossover strategy holds its signal.
pub proof fn lemma_ema_holds_without_cross(current: Signal, prev: Relation, now: Relation)
    requires
        !(prev.le() && now.gt()),
        !(prev.ge() && now.lt()),
        current == Signal::Buy ==> !now.lt(),
        current == Signal::Sell ==> !now.gt(),
    ensures
        ema_cross_next(current, prev, now) == current,
{
}

/// The order-flow strategy holds a `Buy` only while the bullish divergence
/// lasts, and a `Sell` only while the bearish one lasts.
pub proof fn lemma_divergence_side_needs_its_divergence(current: Signal, r: DivergenceReading)
    ensures
        current == Signal::Buy && divergence_next(current, r) == Signal::Buy ==> bullish(r),
        current == Signal::Sell && divergence_next(current, r) == Signal::Sell ==> bearish(r),
{
}

/// The RSI strategy enters `Buy` only below the oversold level and
/// `Sell` only above the overbought level.
pub proof fn lemma_rsi_entries_need_extremes(current: Signal, r: RsiReading)
    ensures
        rsi_next(current, r) == Signal::Buy && current != Signal::Buy ==> r.vs_oversold.lt(),
        rsi_next(current, r) == Signal::Sell && current != Signal::Sell ==> r.vs_overbought.gt(),
{
}

/// The imbalance strategy enters `Buy` only when the smoothed imbalance
/// crosses above the entry threshold, `Sell` only when it crosses below
/// its negation.
pub proof fn lemma_imbalance_entries_need_a_cross(current: Signal, r: ImbalanceReading)
    ensures
        imbalance_next(current, r) == Signal::Buy && current != Signal::Buy ==> r.smoothed_vs_entry.gt()
            && r.prev_vs_entry.le(),
        imbalance_next(current, r) == Signal::Sell && current != Signal::Sell
            ==> r.smoothed_vs_neg_entry.lt() && r.prev_vs_neg_entry.ge(),
{
}

/// From a plain signal, every outcome holds and answers plain signals.
pub proof fn lemma_outcomes_stay_plain(
    current: Signal,
    ema: Option<(Relation, Relation)>,
    rsi: Option<RsiReading>,
    imb: Option<ImbalanceReading>,
    div: Option<DivergenceReading>,
)
    requires
        is_plain(current),
    ensures
        is_plain(ema_cross_after(current, ema).0) && is_plain(ema_cross_after(current, ema).1),
        is_plain(rsi_after(current, rsi).0) && is_plain(rsi_after(current, rsi).1),
        is_plain(imbalance_after(current, imb).0) && is_plain(imbalance_after(current, imb).1),
        is_plain(divergence_after(current, div).0) && is_plain(divergence_after(current, div).1),
{
}

} // verus!

verus! {

// ── What each decision gives, case by case ───────────────────────

/// A cross decides the crossover, whatever signal is held: an upward cross
/// (fast at or below slow before, above it now) gives `Buy`, a downward
/// cross (at or above before, below now) gives `Sell`.  Without a cross, a
/// held side crossed against turns to `Exit`.
pub proof fn lemma_ema_cross_outcomes(current: Signal, prev: Relation, now: Relation)
    ensures
        prev.le() && now.gt() ==> ema_cross_next(current, prev, now) == Signal::Buy,
        prev.ge() && now.lt() ==> ema_cross_next(current, prev, now) == Signal::Sell,
        current == Signal::Buy && now.lt() && !prev.ge() ==> ema_cross_next(current, prev, now)
            == Signal::Exit,
        current == Signal::Sell && now.gt() && !prev.le() ==> ema_cross_next(current, prev, now)
            == Signal::Exit,
{
}

/// The RSI decision: below the oversold level any signal but `Buy` turns to
/// `Buy`; above the overbought level (and not oversold-entering) any signal
/// but `Sell` turns to `Sell`, an `Exit` included; otherwise a `Buy` exits
/// above 50 and a `Sell` exits below 50; anything else is held.
pub proof fn lemma_rsi_outcomes(current: Signal, r: RsiReading)
    ensures
        r.vs_oversold.lt() && current != Signal::Buy ==> rsi_next(current, r) == Signal::Buy,
        !(r.vs_oversold.lt() && current != Signal::Buy) && r.vs_overbought.gt() && current
            != Signal::Sell ==> rsi_next(current, r) == Signal::Sell,
        current == Signal::Buy && !r.vs_overbought.gt() && r.vs_midline.gt() ==> rsi_next(current, r)
            == Signal::Exit,
        current == Signal::Sell && !r.vs_oversold.lt() && r.vs_midline.lt() ==> rsi_next(current, r)
            == Signal::Exit,
        current == Signal::Buy && !r.vs_overbought.gt() && !r.vs_midline.gt() ==> rsi_next(
            current,
            r,
        ) == Signal::Buy,
        current == Signal::Sell && !r.vs_oversold.lt() && !r.vs_midline.lt() ==> rsi_next(
            current,
            r,
        ) == Signal::Sell,
        current != Signal::Buy && current != Signal::Sell && !r.vs_oversold.lt()
            && !r.vs_overbought.gt() ==> rsi_next(current, r) == current,
{
}

/// The imbalance decision: a rise through the entry threshold turns any
/// signal but `Buy` to `Buy`, an `Exit` included; a fall through its
/// negation (when no such rise) turns any signal but `Sell` to `Sell`;
/// otherwise a `Buy` exits below the exit threshold and a `Sell` above its
/// negation; anything else is held.
pub proof fn lemma_imbalance_outcomes(current: Signal, r: ImbalanceReading)
    ensures
        r.smoothed_vs_entry.gt() && r.prev_vs_entry.le() && current != Signal::Buy ==> imbalance_next(
            current,
            r,
        ) == Signal::Buy,
        !(r.smoothed_vs_entry.gt() && r.prev_vs_entry.le() && current != Signal::Buy)
            && r.smoothed_vs_neg_entry.lt() && r.prev_vs_neg_entry.ge() && current != Signal::Sell
            ==> imbalance_next(current, r) == Signal::Sell,
        current == Signal::Buy && !(r.smoothed_vs_neg_entry.lt() && r.prev_vs_neg_entry.ge())
            && r.smoothed_vs_exit.lt() ==> imbalance_next(current, r) == Signal::Exit,
        current == Signal::Sell && !(r.smoothed_vs_entry.gt() && r.prev_vs_entry.le())
            && r.smoothed_vs_neg_exit.gt() ==> imbalance_next(current, r) == Signal::Exit,
        current == Signal::Buy && !(r.smoothed_vs_neg_entry.lt() && r.prev_vs_neg_entry.ge())
            && !r.smoothed_vs_exit.lt() ==> imbalance_next(current, r) == Signal::Buy,
        current == Signal::Sell && !(r.smoothed_vs_entry.gt() && r.prev_vs_entry.le())
            && !r.smoothed_vs_neg_exit.gt() ==> imbalance_next(current, r) == Signal::Sell,
        current != Signal::Buy && current != Signal::Sell && !(r.smoothed_vs_entry.gt()
            && r.prev_vs_entry.le()) && !(r.smoothed_vs_neg_entry.lt() && r.prev_vs_neg_entry.ge())
            ==> imbalance_next(current, r) == current,
{
}

/// The order-flow decision: a bullish divergence (lower low, higher net
/// delta) gives `Buy`, a bearish one (higher high, lower net delta) gives
/// `Sell`, whatever is held; with neither, an open side exits and anything
/// else is held.
pub proof fn lemma_divergence_outcomes(current: Signal, r: DivergenceReading)
    ensures
        r.low_late_vs_early.lt() && r.flow_late_vs_early.gt() ==> divergence_next(current, r)
            == Signal::Buy,
        r.high_late_vs_early.gt() && r.flow_late_vs_early.lt() ==> divergence_next(current, r)
            == Signal::Sell,
        !(r.low_late_vs_early.lt() && r.flow_late_vs_early.gt()) && !(r.high_late_vs_early.gt()
            && r.flow_late_vs_early.lt()) ==> divergence_next(current, r) == if current
            == Signal::Buy || current == Signal::Sell {
            Signal::Exit
        } else {
            current
        },
{
}

/// With a reading, every strategy holds and answers the same signal, the
/// one its decision gives; without one the held signal is kept, and only
/// the crossover answers it, the others answering `NoSignal`.
pub proof fn lemma_outcome_answers(
    current: Signal,
    ema: Option<(Relation, Relation)>,
    rsi: Option<RsiReading>,
    imb: Option<ImbalanceReading>,
    div: Option<DivergenceReading>,
)
    ensures
        ema_cross_after(current, ema).1 == ema_cross_after(current, ema).0,
        ema matches Some((p, n)) ==> ema_cross_after(current, ema).0 == ema_cross_next(current, p, n),
        ema is None ==> ema_cross_after(current, ema).0 == current,
        rsi matches Some(r) ==> rsi_after(current, rsi) == (rsi_next(current, r), rsi_next(current, r)),
        rsi is None ==> rsi_after(current, rsi) == (current, Signal::NoSignal),
        imb matches Some(r) ==> imbalance_after(current, imb) == (
            imbalance_next(current, r),
            imbalance_next(current, r),
        ),
        imb is None ==> imbalance_after(current, imb) == (current, Signal::NoSignal),
        div matches Some(r) ==> divergence_after(current, div) == (
            divergence_next(current, r),
            divergence_next(current, r),
        ),
        div is None ==> divergence_after(current, div) == (current, Signal::NoSignal),
{
}

} // verus!
