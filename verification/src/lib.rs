//! Digital-signal-processing core of a multi-track mixing engine.
//!
//! Audio samples and continuous parameters are carried as Q16 fixed-point
//! values (`i64` scaled by `fixed::FRAC_ONE`), which keeps every arithmetic
//! step in the audio path exact, bounded and free of overflow.

pub mod approx;
pub mod biquad;
pub mod chain;
pub mod delay;
pub mod dynamics;
pub mod effects;
pub mod filters;
pub mod fixed;
pub mod mixer;
pub mod modulation;
pub mod processor;
pub mod reverb;
pub mod shaping;
pub mod shared;
pub mod strip;
pub mod transport;
pub mod trig;
