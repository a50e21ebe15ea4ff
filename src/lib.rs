//! Runtime-adjustable, probabilistic feature toggles.
//!
//! A toggle is a name bound to a threshold, a 32-bit IEEE float held as its
//! bit pattern. Evaluating a toggle draws a sample uniformly from `[0, 1)` and
//! reports whether the sample is at most the threshold.
pub mod threshold;
pub mod toggle_set;
pub mod error;
pub mod store;
pub mod trigger;
pub mod service;
