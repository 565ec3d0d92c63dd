//! Telemetry engine for a wireless thermal probe.
//!
//! The crate holds the decisions of the pipeline, each with a machine-checked
//! contract: which peripheral is the probe, how a connection is retried, how a
//! status payload becomes a temperature, when the polling loop reads and
//! forwards, and how readings are batched into CSV objects whose key rotates.
//! Radio, timers, sockets and the object store stay with the caller, which
//! feeds events in and carries actions out.
//!
//! Temperatures are integers throughout: hundredths of a degree Celsius.

pub mod archive;
mod clock;
pub mod connection;
pub mod finder;
pub mod payload;
pub mod poller;
pub mod push;
pub mod status;
pub mod text;
