//! Derivation of a design-storm hyetograph by the alternating block method.
//!
//! The library validates the five IDF coefficients of a storm, decides the
//! number of time steps from the duration-to-step quotient, and rearranges
//! the per-step rainfall increments into time order according to a
//! peak-placement pattern. Floating-point arithmetic itself (the IDF
//! evaluation, time stamps, chart and CSV output) stays with the caller;
//! every quantity crosses the boundary as the IEEE-754 bit pattern of the
//! `f64` value, and the logic here is verified over those plain values.

pub mod distribution;
pub mod step_count;
pub mod types;
pub mod validator;
