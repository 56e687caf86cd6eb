//! Result codes of the GPU layer and its memory accounting.
use vstd::prelude::*;

verus! {

/// Result of a GPU or memory operation.
#[derive(Clone, Copy, Debug, PartialEq, Eq, Structural)]
pub enum Status {
    /// Ready for a new request.
    Ready,
    /// Working normally.
    Active,
    /// The safety ceiling of device memory is reached.
    Exhausted,
    /// A memory or access fault.
    Fault,
    /// Device memory is above the ceiling: split the data into chunks.
    Full,
    /// Device memory is over its hard limit.
    Fail,
    /// Fell back to the CPU.
    Cpu,
}

/// The numeric code of each status, in declaration order.
pub open spec fn code_of(s: Status) -> u8 {
    match s {
        Status::Ready => 0,
        Status::Active => 1,
        Status::Exhausted => 2,
        Status::Fault => 3,
        Status::Full => 4,
        Status::Fail => 5,
        Status::Cpu => 6,
    }
}

/// The display name of each status.
pub open spec fn name_of(s: Status) -> Seq<char> {
    match s {
        Status::Ready => "Ready"@,
        Status::Active => "Active"@,
        Status::Exhausted => "Exhausted"@,
        Status::Fault => "Fault"@,
        Status::Full => "Full"@,
        Status::Fail => "Fail"@,
        Status::Cpu => "Cpu"@,
    }
}

impl Status {
    /// Success: ready or active.
    pub fn ok(&self) -> (r: bool)
        ensures
            r == (*self == Status::Ready || *self == Status::Active),
    {
        matches!(self, Status::Ready | Status::Active)
    }

    /// No hard error: neither a fault nor a failure.
    pub fn valid(&self) -> (r: bool)
        ensures
            r == !(*self == Status::Fault || *self == Status::Fail),
    {
        !matches!(self, Status::Fault | Status::Fail)
    }

    /// Active.
    pub fn busy(&self) -> (r: bool)
        ensures
            r == (*self == Status::Active),
    {
        matches!(self, Status::Active)
    }

    /// Ready.
    pub fn done(&self) -> (r: bool)
        ensures
            r == (*self == Status::Ready),
    {
        matches!(self, Status::Ready)
    }

    /// The numeric code.
    pub fn code(&self) -> (r: u8)
        ensures
            r == code_of(*self),
    {
        match self {
            Status::Ready => 0,
            Status::Active => 1,
            Status::Exhausted => 2,
            Status::Fault => 3,
            Status::Full => 4,
            Status::Fail => 5,
            Status::Cpu => 6,
        }
    }

    /// The display name.
    pub fn name(&self) -> (r: &'static str)
        ensures
            r@ == name_of(*self),
    {
        match self {
            Status::Ready => "Ready",
            Status::Active => "Active",
            Status::Exhausted => "Exhausted",
            Status::Fault => "Fault",
            Status::Full => "Full",
            Status::Fail => "Fail",
            Status::Cpu => "Cpu",
        }
    }
}

} // verus!
