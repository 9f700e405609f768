//! What the messages of errors tell.

use vstd::prelude::*;
use crate::broker::BrokerFault;
use crate::capability::CapabilityError;
use crate::command::CommandFault;
use crate::elevation::ElevationError;
use crate::error::FerrousError;
use crate::host_path;
use crate::native::NativeFault;
use crate::shared::SharedError;
use crate::shell_executor::ExecuteFault;
use crate::shell_ir::ShellIrError;
use crate::shell_lex::ParseError;
use crate::terminal_session::SessionFault;
use crate::text;

verus! {

/// A refused command says what was not granted, which directory was denied or
/// which event could not come.
pub proof fn refused_commands_say_why(fault: CommandFault)
    ensures
        fault is NativeNotGranted ==> fault.message_text() == "native execution was not granted"@,
        fault matches CommandFault::WorkingDirectoryDenied(path) ==> fault.message_text()
            == "working directory denied: "@ + host_path::path_text(path),
        fault matches CommandFault::InvalidTransition(reason) ==> fault.message_text()
            == "invalid session transition: "@ + reason@,
{
}

/// A fault of a session names the path, the job, the variable or the reason.
pub proof fn session_faults_name_their_subject(fault: SessionFault)
    ensures
        fault matches SessionFault::PathDenied(path) ==> fault.message_text()
            == "path denied by capability policy: "@ + path,
        fault is Closed ==> fault.message_text() == "session is closed"@,
        fault matches SessionFault::JobTableFull(max) ==> fault.message_text()
            == "session job table is full (max "@ + text::decimal(max as nat) + " jobs)"@,
        fault matches SessionFault::UnknownJob(id) ==> fault.message_text() == "no job with id "@
            + text::decimal(id as nat),
        fault matches SessionFault::EnvironmentDenied(name) ==> fault.message_text()
            == "environment variable denied by capability policy: "@ + name,
        fault matches SessionFault::NotFound(path) ==> fault.message_text()
            == "path does not exist: "@ + path,
        fault matches SessionFault::Io(reason) ==> fault.message_text() == "filesystem error: "@
            + reason,
{
    reveal_strlit("");
    match fault {
        SessionFault::UnknownJob(id) => {
            assert(fault.message_text() =~= "no job with id "@ + text::decimal(id as nat));
        },
        _ => {},
    }
}

/// A fault of native execution tells the faults apart, and gives the reason.
pub proof fn native_faults_say_why(fault: NativeFault)
    ensures
        fault is WrongMode ==> fault.message_text()
            == "native backend received a non-native request"@,
        fault is NativeNotGranted ==> fault.message_text() == "native execution was not granted"@,
        fault is UnsupportedOnHost ==> fault.message_text()
            == "native execution is unsupported on this host"@,
        fault matches NativeFault::InvalidRequest(inner) ==> fault.message_text()
            == "invalid native request: "@ + inner.message_text(),
        fault matches NativeFault::SpawnFailed(reason) ==> fault.message_text()
            == "failed to spawn native process: "@ + reason,
        fault matches NativeFault::Io(reason) ==> fault.message_text() == "native I/O failure: "@
            + reason,
        fault is Cancelled ==> fault.message_text() == "native session was cancelled"@,
        fault is Timeout ==> fault.message_text()
            == "native session exceeded its wall-clock timeout"@,
        fault is OutputLimit ==> fault.message_text()
            == "native session exceeded its output budget"@,
{
}

/// A plan that cannot run says so with the message of what went wrong.
pub proof fn execution_faults_say_why(fault: ExecuteFault)
    ensures
        fault matches ExecuteFault::InvalidPlan(reason) ==> fault.message_text()
            == "invalid execution plan: "@ + reason@,
        fault matches ExecuteFault::Denied(reason) ==> fault.message_text()
            == "denied by capability policy: "@ + reason,
        fault matches ExecuteFault::Native(inner) ==> fault.message_text()
            == "native execution failed: "@ + inner.message_text(),
        fault matches ExecuteFault::Command(inner) ==> fault.message_text()
            == "invalid command request: "@ + inner.message_text(),
        fault matches ExecuteFault::Io(reason) ==> fault.message_text() == "filesystem error: "@
            + reason,
        fault matches ExecuteFault::Session(inner) ==> fault.message_text() == "session error: "@
            + inner.message_text(),
        fault matches ExecuteFault::Wasi(reason) ==> fault.message_text()
            == "WASI execution failed: "@ + reason,
        fault matches ExecuteFault::Sink(reason) ==> fault.message_text() == "event sink failed: "@
            + reason,
        fault is RequiresApproval ==> fault.message_text() == "command requires human approval"@,
        fault is HumanDenied ==> fault.message_text() == "command denied by human"@,
{
}

/// A line that does not parse is told what is wrong with it, and the limit that
/// it exceeds where it exceeds one.
pub proof fn parse_errors_say_what_is_wrong(error: ParseError)
    ensures
        error is UnterminatedQuote ==> error.message_text() == "unterminated quote"@,
        error is TrailingEscape ==> error.message_text() == "trailing escape"@,
        error matches ParseError::InvalidOperator(operator) ==> error.message_text()
            == "invalid operator: "@ + operator@,
        error matches ParseError::UnsupportedConstruct(construct) ==> error.message_text()
            == "unsupported construct: "@ + construct@,
        error matches ParseError::InputTooLong(max) ==> error.message_text()
            == "input too long (max "@ + text::decimal(max as nat) + " bytes)"@,
        error matches ParseError::TooManyTokens(max) ==> error.message_text()
            == "too many tokens (max "@ + text::decimal(max as nat) + ")"@,
        error matches ParseError::TooManyPipelineStages(max) ==> error.message_text()
            == "too many pipeline stages (max "@ + text::decimal(max as nat) + ")"@,
        error matches ParseError::TooManyStatements(max) ==> error.message_text()
            == "too many statements (max "@ + text::decimal(max as nat) + ")"@,
        error is NulByte ==> error.message_text() == "NUL byte in input"@,
        error is EmptyCommand ==> error.message_text() == "empty command"@,
        error matches ParseError::InvalidBuiltin(message) ==> error.message_text()
            == "invalid builtin arguments: "@ + message@,
        error is EmptyInput ==> error.message_text() == "empty input"@,
{
}

/// A broker says which session it does not know, and why a request was refused.
pub proof fn broker_faults_name_their_subject(fault: BrokerFault)
    ensures
        fault matches BrokerFault::UnknownSession(id) ==> fault.message_text()
            == "no session with id "@ + text::decimal(id as nat) + " is known to the broker"@,
        fault is WorkerStopped ==> fault.message_text()
            == "the broker worker stopped unexpectedly"@,
        fault is NotWasi ==> fault.message_text()
            == "the broker currently executes WASI requests only"@,
        fault matches BrokerFault::InvalidRequest(inner) ==> fault.message_text()
            == "invalid request: "@ + inner.message_text(),
        fault matches BrokerFault::Runtime(reason) ==> fault.message_text() == "runtime failure: "@
            + reason,
{
}

/// The other errors of the library tell the kind of failure and its reason.
pub proof fn other_errors_say_why(
    error: FerrousError,
    elevation: ElevationError,
    capability: CapabilityError,
    path: ShellIrError,
    shared: SharedError,
)
    ensures
        error matches FerrousError::Io(reason) ==> error.message_text() == "I/O error: "@ + reason@,
        error matches FerrousError::TomlParse(reason) ==> error.message_text()
            == "config parse error: "@ + reason@,
        error matches FerrousError::TomlSerialize(reason) ==> error.message_text()
            == "config serialize error: "@ + reason@,
        error matches FerrousError::Network(reason) ==> error.message_text() == "network error: "@
            + reason@,
        error matches FerrousError::Snapshot(reason) ==> error.message_text()
            == "snapshot corrupted: "@ + reason@,
        error matches FerrousError::ModelNotFound(slug) ==> error.message_text()
            == "model not found: "@ + slug@,
        elevation matches ElevationError::AuthorityUnavailable(reason)
            ==> elevation.message_text() == "approval authority unavailable: "@ + reason@,
        elevation is LeaseMismatch ==> elevation.message_text()
            == "lease does not match the request"@,
        elevation is LeaseExpired ==> elevation.message_text() == "lease expired"@,
        capability is RelativeRoot ==> capability.message_text()
            == "workspace root must be absolute"@,
        capability is ZeroLimit ==> capability.message_text()
            == "resource limits must be positive"@,
        path is EmptyPath ==> path.message_text() == "session path cannot be empty"@,
        path is AbsolutePath ==> path.message_text()
            == "session path must be relative to the session root"@,
        path is ParentComponent ==> path.message_text()
            == "session path cannot contain a parent component"@,
        shared matches SharedError::EnvVarMissing { name } ==> shared.message_text()
            == "environment variable `"@ + name@ + "` is not set or not valid UTF-8"@,
{
}

} // verus!
