//! The kinds of failure that end a launch, and what the launcher says of each.

use vstd::prelude::*;
use crate::elf::PatchError;
use crate::shebang::ScriptError;
use crate::text::{chars_of, push_all, string_of};

verus! {

/// The kinds of failure.
#[derive(Clone, Copy, Debug, PartialEq, Eq, Structural)]
pub enum ErrorKind {
    /// Something that the launch needs is not there.
    NotFound,
    /// A file does not hold what it should.
    MalformedInput,
    /// The disk could not be read or written.
    IoFailure,
    /// The call that should have started the target came back.
    HandoffFailure,
}

/// The kind of each failure of a script: a line that cannot be read is
/// malformed input, an interpreter that is nowhere is not found.
pub open spec fn script_kind(error: ScriptError) -> ErrorKind {
    match error {
        ScriptError::InvalidShebang => ErrorKind::MalformedInput,
        ScriptError::NoInterpreter => ErrorKind::MalformedInput,
        ScriptError::NoInterpreterAfterEnv => ErrorKind::MalformedInput,
        ScriptError::NotInPath => ErrorKind::NotFound,
        ScriptError::NotFound => ErrorKind::NotFound,
    }
}

/// What the launcher says of a failure to patch.
pub open spec fn patch_message(error: PatchError) -> Seq<char> {
    match error {
        PatchError::Malformed => "Malformed ELF"@,
        PatchError::MissingInterp => "Failed to find PT_INTERP header"@,
        PatchError::OutOfRange => "Current INTERP outside the file"@,
        PatchError::NotTerminated => "Current INTERP not NUL terminated"@,
        PatchError::TooSmall => "Current INTERP too small"@,
    }
}

/// What the launcher says of a failure of a script whose interpreter is
/// `interpreter`.
pub open spec fn script_message(error: ScriptError, interpreter: Seq<char>) -> Seq<char> {
    match error {
        ScriptError::InvalidShebang => "Script does not have a valid shebang!"@,
        ScriptError::NoInterpreter => "Invalid shebang: no interpreter specified!"@,
        ScriptError::NoInterpreterAfterEnv => "No interpreter specified after env!"@,
        ScriptError::NotInPath => "Interpreter '"@ + interpreter + "' not found in PATH"@,
        ScriptError::NotFound => "Interpreter '"@ + interpreter + "' not found"@,
    }
}

impl ScriptError {
    /// The kind of the failure.
    pub fn kind(self) -> (kind: ErrorKind)
        ensures
            kind == script_kind(self),
    {
        match self {
            ScriptError::InvalidShebang => ErrorKind::MalformedInput,
            ScriptError::NoInterpreter => ErrorKind::MalformedInput,
            ScriptError::NoInterpreterAfterEnv => ErrorKind::MalformedInput,
            ScriptError::NotInPath => ErrorKind::NotFound,
            ScriptError::NotFound => ErrorKind::NotFound,
        }
    }

    /// What the launcher says of the failure. `interpreter` is the interpreter
    /// that the script asked for.
    pub fn message(self, interpreter: &str) -> (message: String)
        ensures
            message@ == script_message(self, interpreter@),
    {
        match self {
            ScriptError::InvalidShebang => "Script does not have a valid shebang!".to_owned(),
            ScriptError::NoInterpreter => "Invalid shebang: no interpreter specified!".to_owned(),
            ScriptError::NoInterpreterAfterEnv => "No interpreter specified after env!".to_owned(),
            ScriptError::NotInPath => {
                let mut text = chars_of("Interpreter '");
                push_all(&mut text, chars_of(interpreter).as_slice());
                push_all(&mut text, chars_of("' not found in PATH").as_slice());
                string_of(text.as_slice())
            },
            ScriptError::NotFound => {
                let mut text = chars_of("Interpreter '");
                push_all(&mut text, chars_of(interpreter).as_slice());
                push_all(&mut text, chars_of("' not found").as_slice());
                string_of(text.as_slice())
            },
        }
    }
}

impl PatchError {
    /// The kind of the failure: every failure to patch is malformed input.
    pub fn kind(self) -> (kind: ErrorKind)
        ensures
            kind == ErrorKind::MalformedInput,
    {
        ErrorKind::MalformedInput
    }

    /// What the launcher says of the failure.
    pub fn message(self) -> (message: String)
        ensures
            message@ == patch_message(self),
    {
        match self {
            PatchError::Malformed => "Malformed ELF".to_owned(),
            PatchError::MissingInterp => "Failed to find PT_INTERP header".to_owned(),
            PatchError::OutOfRange => "Current INTERP outside the file".to_owned(),
            PatchError::NotTerminated => "Current INTERP not NUL terminated".to_owned(),
            PatchError::TooSmall => "Current INTERP too small".to_owned(),
        }
    }
}

} // verus!
