//! What the note pad reports when it refuses an instruction.

use vstd::prelude::*;

verus! {

/// The note pad's own refusals. The host sees them as custom codes.
#[derive(Clone, Copy, Debug, PartialEq, Eq, Structural)]
pub enum NotePadError {
    /// The caller may not change the slot.
    NotOwnedByHelloWrold,
    /// The record does not fit: it is larger than a note may be, or larger
    /// than the slot it is written to.
    OutOfLimitedLength,
}

/// Every way an instruction can fail inside the note pad.
#[derive(Clone, Copy, Debug, PartialEq, Eq, Structural)]
pub enum ProcessError {
    /// The instruction bytes are no instruction.
    InvalidInstructionData,
    /// Fewer accounts were passed than the instruction reads.
    NotEnoughAccountKeys,
    /// The bytes in a slot are not the record that is read from it, or a
    /// record does not go into the slot it is meant for.
    BorshIoError,
    /// No address can be derived from the creator and the title.
    InvalidSeeds,
    /// One of the note pad's own refusals.
    Custom(NotePadError),
}

/// The code under which the host reports a refusal.
pub open spec fn error_code(e: NotePadError) -> u32 {
    match e {
        NotePadError::NotOwnedByHelloWrold => 0,
        NotePadError::OutOfLimitedLength => 1,
    }
}

impl NotePadError {
    /// The code under which the host reports this refusal.
    pub fn code(&self) -> (c: u32)
        ensures
            c == error_code(*self),
    {
        match self {
            NotePadError::NotOwnedByHelloWrold => 0,
            NotePadError::OutOfLimitedLength => 1,
        }
    }

    /// The refusal that a code stands for.
    pub fn from_code(code: u32) -> (r: Option<NotePadError>)
        ensures
            r is Some <==> code <= 1,
            r is Some ==> error_code(r->0) == code,
    {
        if code == 0 {
            Some(NotePadError::NotOwnedByHelloWrold)
        } else if code == 1 {
            Some(NotePadError::OutOfLimitedLength)
        } else {
            None
        }
    }

    /// The name under which codes of this kind are decoded.
    pub fn type_of() -> (name: &'static str)
        ensures
            name@ == "NotePadError"@,
    {
        "NotePadError"
    }

    /// What the refusal means, in one line.
    pub fn message(&self) -> (text: &'static str)
        ensures
            text@ == match *self {
                NotePadError::NotOwnedByHelloWrold => "Not owned by HelloWolrd Program"@,
                NotePadError::OutOfLimitedLength => "Out of space size"@,
            },
    {
        match self {
            NotePadError::NotOwnedByHelloWrold => "Not owned by HelloWolrd Program",
            NotePadError::OutOfLimitedLength => "Out of space size",
        }
    }

    /// The line written to the log when the refusal is reported.
    pub fn print(&self) -> (line: &'static str)
        ensures
            line@ == match *self {
                NotePadError::NotOwnedByHelloWrold => "Error: Not authorized to modify note!"@,
                NotePadError::OutOfLimitedLength =>
                    "Error: Input bytes length is out of node account space limited!"@,
            },
    {
        match self {
            NotePadError::NotOwnedByHelloWrold => "Error: Not authorized to modify note!",
            NotePadError::OutOfLimitedLength =>
                "Error: Input bytes length is out of node account space limited!",
        }
    }
}

} // verus!
