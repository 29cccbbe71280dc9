use mql5_bridge::book::SignalBook;
use mql5_bridge::engine::{create_engine, destroy_engine, dispatch, get_signal, init_registry, SignalSource};
use mql5_bridge::registry::EngineRegistry;
use mql5_bridge::rules::{DivergenceReading, Relation};
use mql5_bridge::types::Signal;

/// A book holding `EURUSD` with signal `sig` (Buy or Sell) and `GBPUSD` with none.
fn engine(sig: Signal) -> SignalBook<u32> {
    let mut b = SignalBook::new();
    b.insert("EURUSD".to_string(), 0);
    b.insert("GBPUSD".to_string(), 0);
    let reading = if sig == Signal::Buy {
        DivergenceReading {
            low_late_vs_early: Relation::Below,
            high_late_vs_early: Relation::Below,
            flow_late_vs_early: Relation::Above,
        }
    } else {
        DivergenceReading {
            low_late_vs_early: Relation::Above,
            high_late_vs_early: Relation::Above,
            flow_late_vs_early: Relation::Below,
        }
    };
    assert_eq!(b.apply_divergence(0, Some(reading)), sig);
    b
}

#[test]
fn registry_hands_out_increasing_handles() {
    let mut reg: EngineRegistry<u32> = EngineRegistry::new();
    assert_eq!(reg.peek_next_handle(), 1);
    assert_eq!(reg.register(10), 1);
    assert_eq!(reg.register(20), 2);
    assert!(reg.contains(1) && reg.contains(2) && !reg.contains(3));
    assert!(reg.remove(1));
    assert!(!reg.remove(1));
    assert_eq!(reg.register(30), 3);
    assert!(!reg.contains(1));
}

#[test]
fn registry_get_mut_updates_one_engine() {
    let mut reg: EngineRegistry<u32> = EngineRegistry::new();
    reg.register(10);
    reg.register(20);
    if let Some(e) = reg.get_mut(2) {
        *e += 1;
    }
    assert_eq!(reg.get_mut(2).copied(), Some(21));
    assert_eq!(reg.get_mut(1).copied(), Some(10));
    assert!(reg.get_mut(7).is_none());
}

#[test]
fn init_registry_is_idempotent() {
    let mut reg: Option<EngineRegistry<SignalBook<u32>>> = None;
    init_registry(&mut reg);
    let h = create_engine(&mut reg, engine(Signal::Buy));
    assert_eq!(h, 1);
    init_registry(&mut reg);
    assert!(reg.as_ref().unwrap().contains(1));
    assert_eq!(reg.as_ref().unwrap().peek_next_handle(), 2);
}

#[test]
fn destroy_engine_reports_whether_it_existed() {
    let mut reg: Option<EngineRegistry<SignalBook<u32>>> = None;
    init_registry(&mut reg);
    let a = create_engine(&mut reg, engine(Signal::Buy));
    let b = create_engine(&mut reg, engine(Signal::Sell));
    assert_eq!((a, b), (1, 2));
    assert!(destroy_engine(&mut reg, a));
    assert!(!destroy_engine(&mut reg, a));
    assert!(!destroy_engine(&mut reg, 99));
    assert_eq!(get_signal(&mut reg, b, "EURUSD"), Signal::Sell);
    assert_eq!(create_engine(&mut reg, engine(Signal::Buy)), 3);
}

#[test]
fn get_signal_asks_the_engine_or_reports_error() {
    let mut reg: Option<EngineRegistry<SignalBook<u32>>> = None;
    init_registry(&mut reg);
    let h = create_engine(&mut reg, engine(Signal::Buy));
    assert_eq!(get_signal(&mut reg, h, "EURUSD"), Signal::Buy);
    assert_eq!(get_signal(&mut reg, h, "GBPUSD"), Signal::NoSignal);
    assert_eq!(get_signal(&mut reg, h, "USDJPY"), Signal::NoSignal);
    assert_eq!(get_signal(&mut reg, h + 1, "EURUSD"), Signal::Error);
    assert_eq!(get_signal(&mut reg, -1, "EURUSD"), Signal::Error);
}

#[test]
fn polling_twice_gives_the_same_answer() {
    let mut reg: Option<EngineRegistry<SignalBook<u32>>> = None;
    init_registry(&mut reg);
    let h = create_engine(&mut reg, engine(Signal::Sell));
    let first = get_signal(&mut reg, h, "EURUSD");
    let second = get_signal(&mut reg, h, "EURUSD");
    assert_eq!((first, second), (Signal::Sell, Signal::Sell));
    let e = reg.as_mut().unwrap().get_mut(h).unwrap();
    assert_eq!(e.len(), 2);
    assert_eq!(e.signal("EURUSD"), Signal::Sell);
}

#[test]
fn dispatch_runs_the_event_on_one_engine() {
    let mut reg: Option<EngineRegistry<(Signal, u32)>> = None;
    init_registry(&mut reg);
    let a = create_engine(&mut reg, (Signal::Buy, 0));
    let b = create_engine(&mut reg, (Signal::Sell, 0));
    assert_eq!(dispatch(&mut reg, b, |e: &mut (Signal, u32)| { e.1 += 10; e.0 }), Signal::Sell);
    let mut called = false;
    assert_eq!(dispatch(&mut reg, 42, |_e: &mut (Signal, u32)| { called = true; Signal::Buy }), Signal::Error);
    assert!(!called);
    let r = reg.as_mut().unwrap();
    assert_eq!(r.get_mut(a).map(|e| e.1), Some(0));
    assert_eq!(r.get_mut(b).map(|e| e.1), Some(10));
}
