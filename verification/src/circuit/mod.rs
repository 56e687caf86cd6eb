//! Circuit breaking around the network evaluation, score checks and feature
//! switches.
use vstd::prelude::*;

pub mod breaker;
pub mod check;
pub mod config;
pub mod flag;
pub mod state;

pub use breaker::Breaker;
pub use check::Check;
pub use config::Config;
pub use state::State;

verus! {

} // verus!
