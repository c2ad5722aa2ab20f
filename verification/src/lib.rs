//! Verified core of a one-shot system dashboard.
//!
//! The library holds everything the dashboard decides or computes: the
//! byte- and uptime-formatting helpers, the snapshot value assembled from
//! host facts with documented fallbacks, the parsers for the GPU probe
//! output, and the layout engine that turns terminal dimensions and a
//! snapshot into a sequence of draw operations. Terminal control, the
//! keyboard loop and the host queries themselves live outside the library.

pub mod format;
pub mod gpu;
pub mod layout;
pub mod render;
pub mod snapshot;

pub use format::format_bytes;
pub use format::format_uptime;
