//! The reasons for which an operation is turned down.

use vstd::prelude::*;

verus! {

/// Why an operation left the state untouched.
///
/// Every operation that can be turned down reports its reason with one of
/// these values and changes nothing when it does.
#[derive(Clone, Copy, Debug, PartialEq, Eq, Structural)]
pub enum FrameworkError {
    /// A profile with the requested username already exists.
    UsernameTaken,
    /// The caller has already answered this poll.
    UserAlreadyResponded,
    /// The reward is below a required minimum. No operation enforces a
    /// minimum, so no operation reports this.
    TaskRewardTooLow,
    /// The caller holds no record in the engine's user registry.
    CallerNotRegistered,
    /// No poll was ever created under the given identifier.
    PollNotFound,
    /// Only the poll's author may close it.
    NotPollAuthor,
    /// The poll is closed and the engine accepts answers to open polls only.
    PollClosed,
}

} // verus!
