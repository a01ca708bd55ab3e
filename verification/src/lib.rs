//! Per-workspace wallpapers for tiling Wayland compositors: the decisions of
//! the daemon, stated and proved over plain values.
//!
//! The library holds no socket, no file and no surface. The program around
//! it reads and sends; what it reads it hands over as plain values, and what
//! comes back says what to send.

pub mod bytes;
pub mod cli;
pub mod compositors;
pub mod image;
pub mod output;
pub mod poll;
pub mod signal;
pub mod wayland;
