//! Core logic of a terminal browser for a remote log store: fuzzy search over
//! log-group names, a scroll-position-aware viewport over a line list, a
//! shared result container, and the state machine that drives a
//! submit-then-poll remote query to completion.
//!
//! Network calls, terminal drawing and the event loop live outside this
//! library; everything here works on plain values and is verified.

pub mod events;
pub mod log_groups;
pub mod log_viewer;
pub mod matcher;
pub mod retrieval;
pub mod shared;
pub mod table;
