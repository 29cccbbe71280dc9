use mql5_bridge::config::{parse_config, ConfigFields, StrategyConfig, StrategyKind};

fn default_config() -> StrategyConfig {
    StrategyConfig::default()
}

#[test]
fn strategy_names_select_kinds() {
    assert_eq!(StrategyKind::from_name("rsi"), StrategyKind::Rsi);
    assert_eq!(StrategyKind::from_name("orderbook_imbalance"), StrategyKind::OrderBookImbalance);
    assert_eq!(StrategyKind::from_name("obi"), StrategyKind::OrderBookImbalance);
    assert_eq!(StrategyKind::from_name("orderflow"), StrategyKind::OrderFlow);
    assert_eq!(StrategyKind::from_name("of"), StrategyKind::OrderFlow);
    assert_eq!(StrategyKind::from_name("ema_cross"), StrategyKind::EmaCross);
    assert_eq!(StrategyKind::from_name("unknown"), StrategyKind::EmaCross);
    assert_eq!(StrategyKind::from_name(""), StrategyKind::EmaCross);
    assert_eq!(StrategyKind::from_name("RSI"), StrategyKind::EmaCross);
}

#[test]
fn defaults() {
    let c = default_config();
    assert_eq!(c.strategy_type, "ema_cross");
    assert_eq!(c.symbols, vec!["EURUSD".to_string()]);
    assert_eq!((c.fast_period, c.slow_period, c.smoothing_period, c.divergence_lookback), (12, 26, 20, 50));
}

#[test]
fn empty_or_invalid_text_gives_defaults() {
    for text in ["", "not json", "{", "[1, 2]", "{}", "42", "null"] {
        let c = parse_config(text);
        assert_eq!(c.strategy_type, "ema_cross", "{}", text);
        assert_eq!(c.symbols, vec!["EURUSD".to_string()]);
        assert_eq!(c.fast_period, 12);
        assert_eq!(c.slow_period, 26);
        assert_eq!(c.smoothing_period, 20);
        assert_eq!(c.divergence_lookback, 50);
    }
}

#[test]
fn documented_example_configuration() {
    let c = parse_config(
        r#"{"strategy": "ema_cross", "symbols": ["EURUSD"], "fast_period": 12, "slow_period": 26, "oversold": 30.0, "overbought": 70.0}"#,
    );
    assert_eq!(c.strategy_type, "ema_cross");
    assert_eq!(c.symbols, vec!["EURUSD".to_string()]);
    assert_eq!((c.fast_period, c.slow_period), (12, 26));
}

#[test]
fn members_override_defaults() {
    let c = parse_config(
        r#"{"strategy": "rsi", "symbols": ["GBPUSD", "USDJPY"], "fast_period": 14, "slow_period": 30, "smoothing_period": 5, "divergence_lookback": 8}"#,
    );
    assert_eq!(c.strategy_type, "rsi");
    assert_eq!(c.symbols, vec!["GBPUSD".to_string(), "USDJPY".to_string()]);
    assert_eq!((c.fast_period, c.slow_period, c.smoothing_period, c.divergence_lookback), (14, 30, 5, 8));
}

#[test]
fn ill_typed_members_are_ignored() {
    let c = parse_config(r#"{"strategy": 3, "symbols": "EURUSD", "fast_period": -5, "slow_period": 2.5, "smoothing_period": "7"}"#);
    assert_eq!(c.strategy_type, "ema_cross");
    assert_eq!(c.symbols, vec!["EURUSD".to_string()]);
    assert_eq!((c.fast_period, c.slow_period, c.smoothing_period), (12, 26, 20));
}

#[test]
fn symbol_list_keeps_only_strings() {
    let c = parse_config(r#"{"symbols": [1, "XAUUSD", null, "EURJPY", {"a": 1}]}"#);
    assert_eq!(c.symbols, vec!["XAUUSD".to_string(), "EURJPY".to_string()]);
}

#[test]
fn symbol_list_without_strings_keeps_default() {
    let c = parse_config(r#"{"symbols": []}"#);
    assert_eq!(c.symbols, vec!["EURUSD".to_string()]);
    let c = parse_config(r#"{"symbols": [1, 2, false]}"#);
    assert_eq!(c.symbols, vec!["EURUSD".to_string()]);
}

#[test]
fn with_fields_applies_each_member() {
    let f = ConfigFields {
        strategy: Some("obi".to_string()),
        symbols: Some(vec![None, Some("AUDUSD".to_string())]),
        fast_period: None,
        slow_period: Some(40),
        smoothing_period: Some(0),
        divergence_lookback: None,
    };
    let c = default_config().with_fields(f);
    assert_eq!(c.strategy_type, "obi");
    assert_eq!(c.symbols, vec!["AUDUSD".to_string()]);
    assert_eq!((c.fast_period, c.slow_period, c.smoothing_period, c.divergence_lookback), (12, 40, 0, 50));
}

#[test]
fn with_no_fields_changes_nothing() {
    let f = ConfigFields {
        strategy: None,
        symbols: None,
        fast_period: None,
        slow_period: None,
        smoothing_period: None,
        divergence_lookback: None,
    };
    let c = default_config().with_fields(f);
    assert_eq!(c.strategy_type, "ema_cross");
    assert_eq!(c.symbols, vec!["EURUSD".to_string()]);
    assert_eq!((c.fast_period, c.slow_period, c.smoothing_period, c.divergence_lookback), (12, 26, 20, 50));
}
