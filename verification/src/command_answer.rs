//! The failed answer to a game command: its fixed status and phase, and the
//! public error that tells the client what went wrong and whether to retry.
use vstd::prelude::*;

verus! {

/// Whether a command took effect.
#[derive(Clone, Copy, Debug, PartialEq, Eq, Structural)]
pub enum CommandStatus {
    Applied,
    Failed,
}

/// How far a command got.
#[derive(Clone, Copy, Debug, PartialEq, Eq, Structural)]
pub enum CommandPhase {
    Complete,
    Failed,
}

/// An error shown to the client: a stable code, a message, and whether
/// sending the command again may succeed.
pub struct PublicError {
    pub code: String,
    pub message: String,
    pub retryable: bool,
}

/// The answer to a command that failed without taking effect.
pub struct FailedCommandAnswer {
    pub command_type: String,
    pub status: CommandStatus,
    pub phase: CommandPhase,
    pub retryable: bool,
    pub error: PublicError,
}

impl FailedCommandAnswer {
    /// Whether this is the failed answer to a `command_type` command with
    /// the public error `(code, message, retryable)`: status and phase are
    /// both failed, and the answer is retryable exactly when the error is.
    pub open spec fn is(
        &self,
        command_type: Seq<char>,
        code: Seq<char>,
        message: Seq<char>,
        retryable: bool,
    ) -> bool {
        &&& self.command_type@ == command_type
        &&& self.status == CommandStatus::Failed
        &&& self.phase == CommandPhase::Failed
        &&& self.retryable == retryable
        &&& self.error.code@ == code
        &&& self.error.message@ == message
        &&& self.error.retryable == retryable
    }
}

/// The failed answer to a `command_type` command that ran into `error`.
pub fn failed_command(command_type: &str, error: PublicError) -> (answer: FailedCommandAnswer)
    ensures
        answer.is(command_type@, error.code@, error.message@, error.retryable),
{
    let retryable = error.retryable;
    FailedCommandAnswer {
        command_type: command_type.to_string(),
        status: CommandStatus::Failed,
        phase: CommandPhase::Failed,
        retryable,
        error,
    }
}

} // verus!
