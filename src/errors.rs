//! Errors reported by the runtime core.

use vstd::prelude::*;

verus! {

/// Marker for errors that the core hands back to programs.
pub trait CoreError {

}

/// Error of an operation on the message context.
#[derive(Clone, Copy, Debug, PartialEq, Eq, Structural, Hash)]
pub enum MessageError {
    /// More outgoing messages than the limit allows within one execution.
    LimitExceeded,
    /// A second reply within one execution.
    DuplicateReply,
    /// Waking a message that was already woken within one execution.
    DuplicateWaking,
    /// Pushing to or committing an already formed message.
    LateAccess,
    /// No outgoing message has the given handle.
    OutOfBounds,
    /// Initializing the same program twice within one execution.
    DuplicateInit,
    /// Sending a message with more gas than is left.
    NotEnoughGas,
    /// A non-zero message value below the existential deposit.
    InsufficientValue { message_value: u128, existential_deposit: u128 },
    /// A message value above what the program holds.
    NotEnoughValue { message_value: u128, value_left: u128 },
}

/// Error of a memory operation.
#[derive(Clone, Copy, Debug, PartialEq, Eq, Structural, Hash)]
pub enum MemoryError {
    /// The program tried to allocate more memory than allowed.
    OutOfMemory,
    /// The page cannot be freed by the current program.
    InvalidFree(u32),
    /// Access to a page not allocated to this program.
    MemoryAccessError,
    /// A wasm page's data does not cover all of its runtime pages.
    InvalidPageDataSize(usize),
}

/// Why an execution stopped, as seen by the core.
#[derive(Clone, Copy, Debug, PartialEq, Eq, Structural, Hash)]
pub enum TerminationReason {
    Exit,
    Leave,
    Wait,
    GasAllowanceExceeded,
}

/// Error of the execution itself.
#[derive(Clone, Debug, PartialEq, Eq, Hash)]
pub enum ExecutionError {
    /// Not enough gas to continue execution.
    GasLimitExceeded,
    /// More gas refunded than was spent.
    TooManyGasAdded,
    /// The program panicked with the given message.
    PanicOccurred(String),
}

/// Any error that a host function can report.
#[derive(Clone, Debug, PartialEq, Eq, Hash)]
pub enum ExtError {
    Memory(MemoryError),
    Message(MessageError),
    Execution(ExecutionError),
}

impl CoreError for ExtError {

}

impl From<MemoryError> for ExtError {
    fn from(e: MemoryError) -> (r: ExtError) {
        ExtError::Memory(e)
    }
}

impl vstd::std_specs::convert::FromSpecImpl<MemoryError> for ExtError {
    open spec fn obeys_from_spec() -> bool {
        true
    }

    open spec fn from_spec(e: MemoryError) -> ExtError {
        ExtError::Memory(e)
    }
}

impl From<MessageError> for ExtError {
    fn from(e: MessageError) -> (r: ExtError) {
        ExtError::Message(e)
    }
}

impl vstd::std_specs::convert::FromSpecImpl<MessageError> for ExtError {
    open spec fn obeys_from_spec() -> bool {
        true
    }

    open spec fn from_spec(e: MessageError) -> ExtError {
        ExtError::Message(e)
    }
}

impl From<ExecutionError> for ExtError {
    fn from(e: ExecutionError) -> (r: ExtError) {
        ExtError::Execution(e)
    }
}

impl vstd::std_specs::convert::FromSpecImpl<ExecutionError> for ExtError {
    open spec fn obeys_from_spec() -> bool {
        true
    }

    open spec fn from_spec(e: ExecutionError) -> ExtError {
        ExtError::Execution(e)
    }
}

} // verus!
