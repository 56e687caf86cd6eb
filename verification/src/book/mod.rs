//! Opening book and endgame knowledge.
use vstd::prelude::*;

pub mod endgame;
pub mod loader;
pub mod opening;

pub use endgame::{Endgame, Rule};
pub use loader::{Header, Loader};
pub use opening::{Book, Entry};

verus! {

} // verus!
