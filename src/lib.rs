//! Dispatch core that turns avatar parameter samples into haptic device commands.
//!
//! Levels are fixed-point integers: [`levels::FULL`] stands for full power (1.0) and
//! [`levels::STEP`] for one hundredth, the grain that inputs and outputs are rounded to.
use vstd::prelude::*;

pub mod dispatch;
pub mod events;
pub mod features;
pub mod levels;
pub mod populate;
pub mod processing;
pub mod rate_limiter;
pub mod supervisor;
pub mod toy;
