//! Trajectory prediction support for high-altitude balloons: request parsing,
//! model-run selection, forecast file naming and terrain source settings.
use vstd::prelude::*;

pub mod balloon;
pub mod calendar;
pub mod ensemble;
pub mod error;
pub mod forecast;
pub mod gefs;
pub mod runs;
pub mod tawhiri;
pub mod terrain;
pub mod text;
pub mod time;

verus! {

} // verus!
