//! Rendering orchestration for a drawing application.
//!
//! - `behaviour`: the actor that turns input events into stroke work and
//!   coalesced presentation actions.
//! - `slice`: the color-picker slice cache: sorted fixed slices, one dynamic
//!   slice per kind, exact or interpolated lookups, and the worker's job
//!   scheduling.
//! - `frame`: a frame context made on first use.
//! - `presentation`: what presentation consumers are handed.
pub mod behaviour;
pub mod frame;
pub mod presentation;
pub mod slice;
