//! Verified core of a tag-based time tracker.
//!
//! Anonymous clients, identified by an opaque tag key, toggle timers on and
//! off; timers are grouped into named projects.  This crate holds the data
//! model and its invariants (at most one current project per tag, at most one
//! current timer per tag, duration derivation), the toggle state machine, the
//! query shapes used to rebuild per-tag history, and the timezone-aware
//! rendering and CSV export built on stored UTC epoch seconds.

pub mod templates;
pub mod text;
pub mod timer_store;
pub mod timer_utils;
pub mod uid;
