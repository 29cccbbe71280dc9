use mql5_bridge::flow::{flow_book, record_order_flow, FlowWindow};
use mql5_bridge::rules::{DivergenceReading, Relation};
use mql5_bridge::types::Signal;

fn bullish(_p: Vec<i64>, _d: Vec<i64>) -> DivergenceReading {
    DivergenceReading {
        low_late_vs_early: Relation::Below,
        high_late_vs_early: Relation::Below,
        flow_late_vs_early: Relation::Above,
    }
}

#[test]
fn flow_window_fills_after_capacity_ticks() {
    let mut w: FlowWindow<i64> = FlowWindow::new(3, 0);
    assert!(!w.is_full());
    w.push(10, 1);
    w.push(11, 2);
    assert!(!w.is_full());
    assert_eq!(w.contents(), (vec![0, 10, 11], vec![0, 1, 2]));
    w.push(12, 3);
    assert!(w.is_full());
    w.push(13, 4);
    assert_eq!(w.contents(), (vec![11, 12, 13], vec![2, 3, 4]));
}

#[test]
fn flow_book_holds_each_symbol_once() {
    let syms = vec!["EURUSD".to_string(), "GBPUSD".to_string(), "EURUSD".to_string()];
    let book = flow_book(&syms, 4, 0i64);
    assert_eq!(book.len(), 2);
    assert_eq!(book.position("GBPUSD"), Some(1));
    assert_eq!(book.signal_of("EURUSD"), Signal::NoSignal);
}

#[test]
fn no_signal_until_the_window_fills() {
    let syms = vec!["EURUSD".to_string()];
    let mut book = flow_book(&syms, 3, 0i64);
    let mut seen = Vec::new();
    for t in 0..5 {
        let sig = record_order_flow(&mut book, 0, 100 - t, t, |p: Vec<i64>, d: Vec<i64>| {
            assert_eq!(p.len(), 3);
            bullish(p, d)
        });
        seen.push(sig);
        assert_eq!(book.signal_of("EURUSD"), sig);
    }
    assert_eq!(seen, vec![Signal::NoSignal, Signal::NoSignal, Signal::Buy, Signal::Buy, Signal::Buy]);
}

#[test]
fn reading_sees_the_window_oldest_first() {
    let syms = vec!["EURUSD".to_string()];
    let mut book = flow_book(&syms, 2, 0i64);
    record_order_flow(&mut book, 0, 5, 1, |_p: Vec<i64>, _d: Vec<i64>| unreachable!());
    let sig = record_order_flow(&mut book, 0, 7, 2, |p: Vec<i64>, d: Vec<i64>| {
        assert_eq!(p, vec![5, 7]);
        assert_eq!(d, vec![1, 2]);
        DivergenceReading {
            low_late_vs_early: Relation::Above,
            high_late_vs_early: Relation::Above,
            flow_late_vs_early: Relation::Below,
        }
    });
    assert_eq!(sig, Signal::Sell);
}
