use vstd::prelude::*;

verus! {

/// The recoverable failures of the execution core.
///
/// Every failure is recoverable at the handler boundary: an operation that
/// cannot complete leaves its component unchanged and reports one of these.
#[derive(Clone, Copy, Debug, PartialEq, Eq, Structural)]
pub enum VmError {
    /// A push onto an operand stack already at its maximum depth.
    StackOverflow,
    /// A pop from an empty operand stack.
    StackUnderflow,
    /// A memory range that cannot be materialized on this machine.
    MemoryOutOfRange,
}

} // verus!
