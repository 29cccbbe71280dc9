//! Signal logic of a trading bridge: per-symbol strategy state machines,
//! an engine registry keyed by integer handles, and configuration reading.

pub mod book;
pub mod config;
pub mod engine;
pub mod flow;
pub mod registry;
pub mod ring;
pub mod rules;
pub mod types;

pub use book::SignalBook;
pub use engine::{create_engine, destroy_engine, dispatch, get_signal, init_registry, SignalSource};
pub use registry::EngineRegistry;
pub use ring::RingBuffer;
pub use types::Signal;
