use vstd::prelude::*;

verus! {

/// An error carrying a human-readable message and the process exit code
/// that the command-line front end reports for it.
#[derive(Debug)]
pub struct AppError {
    pub message: String,
    pub exit_code: u8,
}

/// Exit code of a command-line usage error.
pub open spec fn usage_code() -> u8 { 2 }

/// Exit code of a runtime or configuration failure.
pub open spec fn runtime_code() -> u8 { 1 }

/// Exit code of invalid provenance or a failed policy check.
pub open spec fn verification_code() -> u8 { 3 }

impl AppError {
    /// A command-line usage error (exit code 2).
    pub fn usage(message: String) -> (e: AppError)
        ensures
            e.message@ == message@,
            e.exit_code == usage_code(),
    {
        AppError { message, exit_code: 2 }
    }

    /// A runtime or configuration failure (exit code 1).
    pub fn runtime(message: String) -> (e: AppError)
        ensures
            e.message@ == message@,
            e.exit_code == runtime_code(),
    {
        AppError { message, exit_code: 1 }
    }

    /// Invalid provenance or a failed policy check (exit code 3).
    pub fn verification(message: String) -> (e: AppError)
        ensures
            e.message@ == message@,
            e.exit_code == verification_code(),
    {
        AppError { message, exit_code: 3 }
    }

    /// The process exit code for this error.
    pub fn exit_code(&self) -> (code: u8)
        ensures
            code == self.exit_code,
    {
        self.exit_code
    }

    /// The error message.
    pub fn to_string(&self) -> (s: String)
        ensures
            s@ == self.message@,
    {
        self.message.clone()
    }
}

} // verus!
