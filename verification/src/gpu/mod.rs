//! Host-side logic of the GPU batch evaluator: device memory accounting,
//! byte ring buffers, batches of positions, dispatch bookkeeping and the
//! CPU fallback scoring.
use vstd::prelude::*;

pub mod aggregator;
pub mod backend;
pub mod batch;
pub mod buffer;
pub mod device;
pub mod evaluator;
pub mod guard;
pub mod gym;
pub mod kernel;
pub mod queue;
pub mod sample;
pub mod status;

pub use aggregator::{Aggregatable, Aggregator};
pub use backend::{Adapter, Backend, Platform};
pub use batch::{Batch, Batchable};
pub use buffer::{Buffer, Storable};
pub use device::{Device, Queryable};
pub use evaluator::{Evaluable, Evaluator};
pub use guard::{Guard, Validatable};
pub use gym::{Accelerable, Gym};
pub use kernel::{Dispatchable, Kernel};
pub use queue::{Queueable, RingBuffer};
pub use sample::{Sample, Sampleable};
pub use status::Status;

verus! {

} // verus!
