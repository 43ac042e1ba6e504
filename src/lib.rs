//! A small widget runtime: per-button interaction history, click recognition,
//! a registry of actions behind opaque handles, and a queue that defers the
//! actions of recognised clicks until the scan of all widgets is over.
pub mod dispatch;
pub mod interaction;
pub mod registry;
pub mod widgets;
