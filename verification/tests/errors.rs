use sharun::elf::PatchError;
use sharun::errors::ErrorKind;
use sharun::shebang::ScriptError;

#[test]
fn kinds_of_script_failures() {
    assert_eq!(ScriptError::InvalidShebang.kind(), ErrorKind::MalformedInput);
    assert_eq!(ScriptError::NoInterpreter.kind(), ErrorKind::MalformedInput);
    assert_eq!(ScriptError::NoInterpreterAfterEnv.kind(), ErrorKind::MalformedInput);
    assert_eq!(ScriptError::NotInPath.kind(), ErrorKind::NotFound);
    assert_eq!(ScriptError::NotFound.kind(), ErrorKind::NotFound);
}

#[test]
fn kinds_of_patch_failures() {
    for error in [
        PatchError::Malformed,
        PatchError::MissingInterp,
        PatchError::OutOfRange,
        PatchError::NotTerminated,
        PatchError::TooSmall,
    ] {
        assert_eq!(error.kind(), ErrorKind::MalformedInput);
    }
    assert_ne!(ErrorKind::IoFailure, ErrorKind::HandoffFailure);
}

#[test]
fn messages_of_script_failures() {
    assert_eq!(ScriptError::InvalidShebang.message("sh"), "Script does not have a valid shebang!");
    assert_eq!(
        ScriptError::NoInterpreter.message("sh"),
        "Invalid shebang: no interpreter specified!"
    );
    assert_eq!(
        ScriptError::NoInterpreterAfterEnv.message("sh"),
        "No interpreter specified after env!"
    );
    assert_eq!(ScriptError::NotInPath.message("foo"), "Interpreter 'foo' not found in PATH");
    assert_eq!(ScriptError::NotFound.message("/bin/foo"), "Interpreter '/bin/foo' not found");
}

#[test]
fn messages_of_patch_failures() {
    assert_eq!(PatchError::Malformed.message(), "Malformed ELF");
    assert_eq!(PatchError::MissingInterp.message(), "Failed to find PT_INTERP header");
    assert_eq!(PatchError::OutOfRange.message(), "Current INTERP outside the file");
    assert_eq!(PatchError::NotTerminated.message(), "Current INTERP not NUL terminated");
    assert_eq!(PatchError::TooSmall.message(), "Current INTERP too small");
}
