use vstd::prelude::*;

use crate::header::Command;
use crate::ntstatus::NTStatus;

verus! {

/// The placeholder body of a response whose body this library does not decode.
#[derive(Clone, Copy, Debug, PartialEq, Eq, Structural)]
pub struct Response {
    /// The status from the header.
    pub status: NTStatus,
    /// The command that was answered.
    pub command: Command,
}

} // verus!
