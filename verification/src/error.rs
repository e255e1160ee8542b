//! What can go wrong while the clock is used.

use vstd::prelude::*;

verus! {

/// The failures that the time clock reports.
#[derive(Clone, Copy, Debug, PartialEq, Eq, Structural)]
pub enum ClockError {
    /// No record is kept for the day asked for, or a day names a session it does not hold.
    NotFound,
    /// Clocking in was asked for while a session is open.
    AlreadyActive,
    /// Clocking out, or the running session, was asked for while none is open.
    NoActiveSession,
    /// The stored records do not describe a valid set of work days.
    CorruptData,
    /// The stored records could not be read or written.
    IoFailure,
}

impl ClockError {
    /// The sentence that tells the user of this failure.
    pub open spec fn message_text(self) -> Seq<char> {
        match self {
            ClockError::NotFound => "No record found for that day or session"@,
            ClockError::AlreadyActive => {
                "Cannot create a session while there is an active session"@
            },
            ClockError::NoActiveSession => "No active session"@,
            ClockError::CorruptData => "The stored records are corrupt"@,
            ClockError::IoFailure => "The stored records could not be read or written"@,
        }
    }

    /// Gives the sentence that tells the user of this failure.
    pub fn message(&self) -> (text: &'static str)
        ensures
            text@ == self.message_text(),
    {
        match self {
            ClockError::NotFound => "No record found for that day or session",
            ClockError::AlreadyActive => "Cannot create a session while there is an active session",
            ClockError::NoActiveSession => "No active session",
            ClockError::CorruptData => "The stored records are corrupt",
            ClockError::IoFailure => "The stored records could not be read or written",
        }
    }
}

} // verus!
