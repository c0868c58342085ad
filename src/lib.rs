//! A real-time stereo panning engine.
//!
//! Pan positions are fixed-point values in `0..=PAN_UNIT` (0 is full left,
//! `PAN_UNIT` full right). A control context publishes the wanted position
//! and pan law into a lock-free `ParameterChannel`; the audio context polls
//! it once per block and lets a `PanEngine` ramp the position over a fixed
//! window, frame by frame, before a pan law turns it into a gain pair.

pub mod pan;
pub mod law;
pub mod smoother;
pub mod channel;
pub mod engine;
