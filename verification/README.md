# mql5_bridge

Signal logic behind a MetaTrader 5 bridge, verified with Verus.

- `src/types.rs` — the `Signal` enum and its integer codes at the C boundary.
- `src/rules.rs` — the decisions of the four strategies (EMA crossover, RSI
  mean reversion, order book imbalance, order flow divergence), taken over the
  outcomes of the comparisons each strategy makes; laws about them.
- `src/book.rs` — the per-symbol table of signals and indicator states.
- `src/ring.rs` — the fixed window over the latest values of a stream.
- `src/flow.rs` — the order-flow window per symbol and the rule that a symbol
  holds and answers no signal until its window has filled.
- `src/registry.rs`, `src/engine.rs` — engines under integer handles.
- `src/config.rs` — strategy selection and the configuration read from JSON
  through `serde_json`.
- `app/` — the C entry points, the process-wide registry, and the
  floating-point indicators (EMA, RSI, smoothing, window statistics).
