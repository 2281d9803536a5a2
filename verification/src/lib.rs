//! Staging files for a connected device and pushing them through the
//! device bridge: the decisions behind a drop-target window, with the
//! outside work (running the bridge, drawing the window) left to the caller.

pub mod bridge;
pub mod device;
pub mod icon;
pub mod log;
pub mod state;
pub mod text;
pub mod transfer;
