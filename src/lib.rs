//! Verified core of a live window-thumbnail capture pipeline: the per-window
//! capture negotiation, the worker's request handling, and the compositor
//! that turns captured windows into one preview canvas with click regions.
//! Beside it stand the shell's small text helpers, the path of its
//! configuration, and the messages of its other background services.

pub mod capture;
pub mod coalescer;
pub mod compositor;
pub mod handle;
pub mod labels;
pub mod messages;
pub mod paths;
pub mod session;
pub mod summary;
pub mod worker;
