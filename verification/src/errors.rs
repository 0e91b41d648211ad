//! The error taxonomy of debugger operations. All of these are recovered at
//! the session boundary and surfaced as operator-visible reports; none of
//! them ends the session.

use vstd::prelude::*;

verus! {

#[derive(Clone, Copy, PartialEq, Eq, Structural, Debug)]
pub enum DebugError {
    /// The target executable could not be launched; fatal to the `run`
    /// command only.
    SpawnError,
    /// An OS tracing, register or memory operation failed with the given
    /// errno; the traced process is presumed unusable and is discarded.
    TraceError(i32),
    /// A breakpoint target address is not mapped or writable in the target.
    InvalidAddress,
    /// A source line or function name could not be resolved to an address;
    /// nothing is modified.
    UnresolvedSymbol,
    /// `continue` or `backtrace` was asked with no process running; the
    /// session stays ready for further commands.
    NoActiveProcess,
    /// The OS wait reported a state category the protocol does not model;
    /// this indicates a logic error and aborts the session.
    UnexpectedWaitStatus,
}

} // verus!
