//! System information bars for waybar: the verified core.
//!
//! The library decides which bars a set of configured monitors shows, keeps
//! the sliding-window maximum that scales network throughput, and writes the
//! tooltips of the measures. Reading the system, drawing and the floating
//! point scaling of bar values are left to the program around it.
pub mod config;
pub mod collector;
pub mod measure;
pub mod text;
pub mod pattern;
pub mod automax;
pub mod widget;
pub mod modules;
