//! Idle detection and overlay lifecycle control for a Wayland screensaver.
//!
//! The screensaver covers every display with an opaque overlay, watches for
//! the first sign of the user and then takes itself down. This crate holds
//! the decisions of that program and none of its windows or timers:
//!
//! - `input` sums up pointer travel and latches dismissal,
//! - `geometry` measures that travel in fixed-point steps,
//! - `fade` and `surface` carry one overlay from construction to its close,
//! - `fleet` creates the overlays of all displays and tears them down,
//! - `watchdog` ends the run once dismissal is seen and keeps the overlays in
//!   the foreground until then,
//! - `content` makes the address that the overlays show.
//!
//! The host calls in on each event and timer tick and carries out what it is
//! handed back.

pub mod content;
pub mod fade;
pub mod fleet;
pub mod geometry;
pub mod input;
pub mod surface;
pub mod watchdog;
