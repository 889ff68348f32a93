//! Multi-monitor overlay coordination core for a screen-annotation tool.
//!
//! The crate holds the decision logic of the host process: toolbar
//! placement and clamping, the persisted-position codec, monitor
//! deduplication and startup planning, overlay fan-out, the cursor
//! deadband filter, and the global-shortcut router.  All window and
//! file effects are described as plain data (actions, byte buffers,
//! target lists) that an unverified shell carries out.

pub mod codec;
pub mod geometry;
pub mod poller;
pub mod setup;
pub mod shortcuts;
pub mod windows;
