//! Geometry and configuration logic of a tiling layout generator.
//!
//! The crate computes, for the views that a compositor shows on an output,
//! one rectangle per view, and keeps the settings of each tag of each output
//! that decide how. It performs no input or output: events come in as plain
//! values and the requests to send go out as plain values.

pub mod geometry;
pub mod layout;
pub mod layouts;
pub mod text;
