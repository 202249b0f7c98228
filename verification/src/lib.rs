//! Bridges a line-oriented stream of game telemetry events to external
//! delivery backends: a bounded FIFO of raw lines, a line codec for the
//! closed event set, a session correlator, a call tracker for in-flight
//! spans, and the request framing for an out-of-process sender.

pub mod codec;
pub mod config;
pub mod correlator;
pub mod event;
pub mod ids;
pub mod mediator;
pub mod metrics;
pub mod queue;
pub mod snapshot;
pub mod text;
pub mod tracker;
pub mod transport;
pub mod wire;

pub use queue::PipeCache;
