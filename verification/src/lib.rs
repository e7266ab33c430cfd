//! Core logic of a USB hot-plug monitor daemon.
//!
//! The library holds everything the daemon decides and computes: classifying
//! raw bus events, deriving a human-readable device name from event
//! properties, bridging the Add/Remove metadata asymmetry with an identity
//! cache, rendering notification bodies, and the monitor loop's state
//! transitions. The surrounding process (bus subscription, polling, audio
//! output, notification transport, signal handling) feeds plain values in and
//! carries the computed results out.

pub mod cache;
pub mod cli;
pub mod config;
pub mod event;
pub mod monitor;
pub mod notify;
pub mod player;
pub mod text;
