use mql5_bridge::rules::{
    divergence_step, ema_cross_step, imbalance_step, rsi_step, DivergenceReading,
    ImbalanceReading, Relation, RsiReading,
};
use mql5_bridge::types::Signal;

use Relation::{Above, Below, Equal, Unordered};

#[test]
fn signal_codes_match_the_c_values() {
    assert_eq!(Signal::NoSignal.code(), 0);
    assert_eq!(Signal::Buy.code(), 1);
    assert_eq!(Signal::Sell.code(), 2);
    assert_eq!(Signal::Exit.code(), 3);
    assert_eq!(Signal::BuyStrong.code(), 4);
    assert_eq!(Signal::SellStrong.code(), 5);
    assert_eq!(Signal::Error.code(), -1);
}

#[test]
fn relation_predicates() {
    assert!(Below.is_lt() && Below.is_le() && !Below.is_gt() && !Below.is_ge());
    assert!(Equal.is_le() && Equal.is_ge() && !Equal.is_lt() && !Equal.is_gt());
    assert!(Above.is_gt() && Above.is_ge() && !Above.is_lt() && !Above.is_le());
    assert!(!Unordered.is_lt() && !Unordered.is_le() && !Unordered.is_gt() && !Unordered.is_ge());
}

#[test]
fn ema_upward_cross_buys() {
    assert_eq!(ema_cross_step(Signal::NoSignal, Below, Above), Signal::Buy);
    assert_eq!(ema_cross_step(Signal::Sell, Equal, Above), Signal::Buy);
}

#[test]
fn ema_downward_cross_sells() {
    assert_eq!(ema_cross_step(Signal::NoSignal, Above, Below), Signal::Sell);
    assert_eq!(ema_cross_step(Signal::Buy, Equal, Below), Signal::Sell);
}

#[test]
fn ema_exit_when_crossed_against_without_a_cross() {
    // previous comparison not a number: no cross, but the long side is lost
    assert_eq!(ema_cross_step(Signal::Buy, Unordered, Below), Signal::Exit);
    assert_eq!(ema_cross_step(Signal::Sell, Unordered, Above), Signal::Exit);
}

#[test]
fn ema_holds_without_cross() {
    assert_eq!(ema_cross_step(Signal::Buy, Above, Above), Signal::Buy);
    assert_eq!(ema_cross_step(Signal::NoSignal, Below, Below), Signal::NoSignal);
    assert_eq!(ema_cross_step(Signal::Exit, Equal, Equal), Signal::Exit);
}

fn rsi(o: Relation, b: Relation, m: Relation) -> RsiReading {
    RsiReading { vs_oversold: o, vs_overbought: b, vs_midline: m }
}

#[test]
fn rsi_oversold_buys_once() {
    assert_eq!(rsi_step(Signal::NoSignal, rsi(Below, Below, Below)), Signal::Buy);
    // already long: the oversold branch is skipped, the midline rule applies
    assert_eq!(rsi_step(Signal::Buy, rsi(Below, Below, Below)), Signal::Buy);
}

#[test]
fn rsi_overbought_sells() {
    assert_eq!(rsi_step(Signal::NoSignal, rsi(Above, Above, Above)), Signal::Sell);
    assert_eq!(rsi_step(Signal::Buy, rsi(Above, Above, Above)), Signal::Sell);
}

#[test]
fn rsi_midline_exits() {
    assert_eq!(rsi_step(Signal::Buy, rsi(Above, Below, Above)), Signal::Exit);
    assert_eq!(rsi_step(Signal::Sell, rsi(Above, Below, Below)), Signal::Exit);
    assert_eq!(rsi_step(Signal::Sell, rsi(Above, Below, Equal)), Signal::Sell);
}

fn imb(se: Relation, pe: Relation, sne: Relation, pne: Relation, sx: Relation, snx: Relation) -> ImbalanceReading {
    ImbalanceReading {
        smoothed_vs_entry: se,
        prev_vs_entry: pe,
        smoothed_vs_neg_entry: sne,
        prev_vs_neg_entry: pne,
        smoothed_vs_exit: sx,
        smoothed_vs_neg_exit: snx,
    }
}

#[test]
fn imbalance_entry_crossings() {
    assert_eq!(imbalance_step(Signal::NoSignal, imb(Above, Equal, Above, Above, Above, Above)), Signal::Buy);
    assert_eq!(imbalance_step(Signal::NoSignal, imb(Below, Below, Below, Equal, Below, Below)), Signal::Sell);
    // no crossing when the previous value was already beyond the threshold
    assert_eq!(imbalance_step(Signal::NoSignal, imb(Above, Above, Above, Above, Above, Above)), Signal::NoSignal);
}

#[test]
fn imbalance_exits() {
    assert_eq!(imbalance_step(Signal::Buy, imb(Below, Below, Above, Above, Below, Above)), Signal::Exit);
    assert_eq!(imbalance_step(Signal::Sell, imb(Below, Below, Above, Above, Below, Above)), Signal::Exit);
    assert_eq!(imbalance_step(Signal::Buy, imb(Above, Above, Above, Above, Above, Above)), Signal::Buy);
}

fn div(low: Relation, high: Relation, flow: Relation) -> DivergenceReading {
    DivergenceReading { low_late_vs_early: low, high_late_vs_early: high, flow_late_vs_early: flow }
}

#[test]
fn divergence_bullish_buys() {
    assert_eq!(divergence_step(Signal::NoSignal, div(Below, Below, Above)), Signal::Buy);
    assert_eq!(divergence_step(Signal::Buy, div(Below, Below, Above)), Signal::Buy);
}

#[test]
fn divergence_bearish_sells() {
    assert_eq!(divergence_step(Signal::NoSignal, div(Above, Above, Below)), Signal::Sell);
    assert_eq!(divergence_step(Signal::Buy, div(Above, Above, Below)), Signal::Sell);
}

#[test]
fn divergence_exit_when_alignment_resumes() {
    assert_eq!(divergence_step(Signal::Buy, div(Below, Below, Below)), Signal::Exit);
    assert_eq!(divergence_step(Signal::Sell, div(Below, Below, Above)), Signal::Buy);
    assert_eq!(divergence_step(Signal::Sell, div(Equal, Equal, Equal)), Signal::Exit);
    assert_eq!(divergence_step(Signal::Exit, div(Equal, Equal, Equal)), Signal::Exit);
}
