use mql5_bridge::book::SignalBook;
use mql5_bridge::engine::SignalSource;
use mql5_bridge::ring::RingBuffer;
use mql5_bridge::rules::{DivergenceReading, ImbalanceReading, Relation, RsiReading};
use mql5_bridge::types::Signal;

use Relation::{Above, Below, Equal};

fn bearish() -> Option<DivergenceReading> {
    Some(DivergenceReading { low_late_vs_early: Above, high_late_vs_early: Above, flow_late_vs_early: Below })
}

#[test]
fn unknown_symbol_has_no_signal() {
    let book: SignalBook<u32> = SignalBook::new();
    assert_eq!(book.len(), 0);
    assert_eq!(book.position("EURUSD"), None);
    assert_eq!(book.signal_of("EURUSD"), Signal::NoSignal);
}

#[test]
fn insert_and_update_entries() {
    let mut book: SignalBook<u32> = SignalBook::new();
    book.insert("EURUSD".to_string(), 7);
    book.insert("GBPUSD".to_string(), 9);
    assert_eq!(book.len(), 2);
    assert_eq!(book.position("EURUSD"), Some(0));
    assert_eq!(book.position("GBPUSD"), Some(1));
    assert_eq!(book.position("USDJPY"), None);
    assert_eq!(*book.state_at(1), 9);
    assert_eq!(book.apply_divergence(1, bearish()), Signal::Sell);
    *book.state_mut(0) += 1;
    assert_eq!(*book.state_at(0), 8);
    assert_eq!(book.signal_of("GBPUSD"), Signal::Sell);
    assert_eq!(book.signal_of("EURUSD"), Signal::NoSignal);
    assert_eq!(book.signal_at(1), Signal::Sell);
}

#[test]
fn reinserting_a_symbol_resets_it_in_place() {
    let mut book: SignalBook<u32> = SignalBook::new();
    book.insert("EURUSD".to_string(), 1);
    book.insert("GBPUSD".to_string(), 2);
    assert_eq!(book.apply_ema_cross(0, Some((Below, Above))), Signal::Buy);
    assert_eq!(book.apply_divergence(1, bearish()), Signal::Sell);
    book.insert("EURUSD".to_string(), 5);
    assert_eq!(book.len(), 2);
    assert_eq!(book.position("EURUSD"), Some(0));
    assert_eq!(*book.state_at(0), 5);
    assert_eq!(book.signal_of("EURUSD"), Signal::NoSignal);
    assert_eq!(book.signal_of("GBPUSD"), Signal::Sell);
}

#[test]
fn ring_starts_with_fill_values() {
    let r: RingBuffer<i64> = RingBuffer::new(3, 0);
    assert_eq!(r.capacity_of(), 3);
    assert!(!r.is_full());
    assert_eq!(r.chronological(), vec![0, 0, 0]);
}

#[test]
fn ring_keeps_latest_values_oldest_first() {
    let mut r: RingBuffer<i64> = RingBuffer::new(3, 0);
    r.push(1);
    r.push(2);
    assert!(!r.is_full());
    assert_eq!(r.chronological(), vec![0, 1, 2]);
    r.push(3);
    assert!(r.is_full());
    assert_eq!(r.chronological(), vec![1, 2, 3]);
    r.push(4);
    r.push(5);
    assert!(r.is_full());
    assert_eq!(r.chronological(), vec![3, 4, 5]);
}

#[test]
fn ring_of_one_slot() {
    let mut r: RingBuffer<i64> = RingBuffer::new(1, -1);
    assert!(!r.is_full());
    r.push(10);
    assert!(r.is_full());
    assert_eq!(r.chronological(), vec![10]);
    r.push(11);
    assert_eq!(r.chronological(), vec![11]);
}

#[test]
fn ring_of_no_slots_is_full_and_empty() {
    let r: RingBuffer<i64> = RingBuffer::new(0, 0);
    assert!(r.is_full());
    assert_eq!(r.chronological(), Vec::<i64>::new());
}

#[test]
fn gated_updates_hold_the_signal() {
    let mut book: SignalBook<u32> = SignalBook::new();
    book.insert("EURUSD".to_string(), 0);
    // first price of the crossover: the held signal is answered
    assert_eq!(book.apply_ema_cross(0, None), Signal::NoSignal);
    assert_eq!(book.apply_ema_cross(0, Some((Equal, Above))), Signal::Buy);
    assert_eq!(book.apply_ema_cross(0, None), Signal::Buy);
    // RSI warm-up, imbalance seeding, window not full: NoSignal is answered, Buy is held
    assert_eq!(book.apply_rsi(0, None), Signal::NoSignal);
    assert_eq!(book.apply_imbalance(0, None), Signal::NoSignal);
    assert_eq!(book.apply_divergence(0, None), Signal::NoSignal);
    assert_eq!(book.signal_of("EURUSD"), Signal::Buy);
}

#[test]
fn rsi_and_imbalance_updates_store_their_decision() {
    let mut book: SignalBook<u32> = SignalBook::new();
    book.insert("EURUSD".to_string(), 0);
    let r = RsiReading { vs_oversold: Below, vs_overbought: Below, vs_midline: Below };
    assert_eq!(book.apply_rsi(0, Some(r)), Signal::Buy);
    let i = ImbalanceReading {
        smoothed_vs_entry: Below,
        prev_vs_entry: Below,
        smoothed_vs_neg_entry: Above,
        prev_vs_neg_entry: Above,
        smoothed_vs_exit: Below,
        smoothed_vs_neg_exit: Above,
    };
    assert_eq!(book.apply_imbalance(0, Some(i)), Signal::Exit);
    assert_eq!(book.signal_of("EURUSD"), Signal::Exit);
}

#[test]
fn book_answers_polls() {
    let mut book: SignalBook<u32> = SignalBook::new();
    book.insert("EURUSD".to_string(), 0);
    book.apply_divergence(0, bearish());
    assert_eq!(book.signal("EURUSD"), Signal::Sell);
    assert_eq!(book.signal("GBPUSD"), Signal::NoSignal);
}
