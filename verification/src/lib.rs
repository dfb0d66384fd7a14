//! Fixed-point simulation core for a click-the-box game: a spawn scheduler
//! drops targets at random screen positions, pointer releases hit-test and
//! destroy them for points, each destruction bursts into decaying physics
//! fragments, and every click leaves a short-lived marker dot.
//!
//! All quantities are integers in milli-units (one simulation unit is 1000
//! milli-units, one time unit is 1000 milli-time-units), so every step of the
//! simulation has an exact arithmetic specification.

pub mod click_indicator;
pub mod fragment;
pub mod geom;
pub mod rng;
pub mod score;
pub mod target;
pub mod timer;
pub mod world;
