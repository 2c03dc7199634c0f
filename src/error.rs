use vstd::prelude::*;

use crate::op::Op;

verus! {

/// What can go wrong while loading or running a program.
#[derive(Debug, Clone, Copy, PartialEq, Eq, Structural)]
pub enum Error {
    BadInstruction,
    DataAbort,
    DriverMissing,
    LoadFailure,
    MalformedOp(Op),
    PrefetchAbort,
    StackOverflow,
    StackUnderflow,
    UnimplementedOp(Op),
}

impl Error {
    /// A missing driver, a malformed operation and an unimplemented one
    /// leave the machine consistent; every other error ends the run.
    pub open spec fn is_fatal(&self) -> bool {
        !(self is DriverMissing || self is MalformedOp || self is UnimplementedOp)
    }

    pub fn fatal(&self) -> (r: bool)
        ensures
            r == self.is_fatal(),
    {
        match *self {
            Error::DriverMissing => false,
            Error::MalformedOp(_) => false,
            Error::UnimplementedOp(_) => false,
            _ => true,
        }
    }
}

} // verus!
