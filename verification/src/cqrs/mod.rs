//! Command/query separation: commands, queries and events travel as
//! messages through a bounded queue and are logged in an event store.
use vstd::prelude::*;

pub mod bus;
pub mod command;
pub mod event;
pub mod kind;
pub mod query;
pub mod queue;
pub mod status;
pub mod store;

pub use bus::Bus;
pub use command::Command;
pub use event::Event;
pub use kind::Kind;
pub use query::Query;
pub use queue::{Item, Queue, Slot};
pub use status::Status;
pub use store::Store;

verus! {

} // verus!
