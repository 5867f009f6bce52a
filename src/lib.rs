//! A single-loop process controller: the latest-value measurement hand-off,
//! the debounced output path, the connection watchdog, the scheduler's
//! per-tick decision and the offline replay schedule, all verified.
//!
//! The controller's floating-point arithmetic and the transport stay with the
//! caller, which hands this library plain values: payload bytes, the rounded
//! controller output, clock readings in milliseconds, and replay instants in
//! nanoseconds.

pub mod cell;
pub mod config;
pub mod control;
pub mod debounce;
pub mod decode;
pub mod record;
pub mod replay;
pub mod watchdog;
