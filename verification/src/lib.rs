//! Interpreter for remote-control action strings.
//!
//! An action string (one per logical remote button) is expanded into an
//! ordered sequence of primitive input events: modifier press/release, key
//! click, relative mouse motion and mouse-button click. Repeated directional
//! mouse actions accelerate through a fixed step table and decay after an
//! idle window. The library computes the event sequence and the diagnostics
//! for unrecognized tokens; sending the events to a synthetic input device is
//! left to the embedding program.

pub mod config;
pub mod events;
pub mod hid;
pub mod interp;
pub mod keys;
pub mod laws;
pub mod mouse;
pub mod text;
