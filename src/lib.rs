//! Graceful ending of a tokio application on a Unix signal.
//!
//! A [`Safeword`] names the signals that count as a request to stop. A run of a
//! workload is driven as a [`Race`]: the caller reports what happened (the
//! runtime came up or failed, the workload finished or failed, a signal came or
//! its watcher failed) and the race decides what to do next and how the run
//! ended, as a [`Shutdown`] or as `Ok(())` when a configured signal stopped it.
pub mod safeword;
pub mod race;
pub mod shutdown;

pub use race::{action_of, next, replay, Action, Event, Phase, Race};
pub use safeword::Safeword;
pub use shutdown::{Cause, Shutdown};
