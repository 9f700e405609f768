//! Native terminal boundary: capability-gated PTY execution for approved
//! developer commands (`bash`, `cargo`, `npm`, `git`).
//!
//! Native execution requires an explicit capability grant AND human approval.
//! Unsupported hosts return [`NativeError::UnsupportedOnHost`]; they never
//! fall back to ambient execution.
//!
//! Every child is spawned with **direct argv**, never through a shell string,
//! so metacharacters in arguments are inert. Only grant-allowlisted
//! environment variables reach the child, and the working directory must
//! resolve inside the grant. [`NativeBackend`] decides all of this; the
//! [`SpawnPlan`] it makes is what the program hands to the PTY.

use vstd::prelude::*;
use crate::command;
use crate::command::{CommandError, CommandFault, CommandRequest, ExecutionMode, RequestModel};
use crate::host_path::HostPath;
use crate::policy;
use crate::terminal_session::{FactsModel, PathFacts};
use crate::text;
use crate::text_map;

verus! {

/// Fail-closed errors from the native backend boundary.
#[derive(Debug, PartialEq, Eq)]
pub enum NativeError {
    /// The request selected a different backend.
    WrongMode,
    /// Native execution was not granted.
    NativeNotGranted,
    /// No tested platform sandbox adapter is available on this host.
    UnsupportedOnHost,
    /// The request failed validation before any process could spawn.
    InvalidRequest(CommandError),
    /// The child could not be spawned.
    SpawnFailed(String),
    /// A PTY or process I/O operation failed.
    Io(String),
    /// The session was cancelled before the child completed.
    Cancelled,
    /// The session exceeded its wall-clock timeout.
    Timeout,
    /// The session exceeded its combined output budget.
    OutputLimit,
}

/// What a [`NativeError`] denotes.
pub enum NativeFault {
    /// The request selected a different backend.
    WrongMode,
    /// Native execution was not granted.
    NativeNotGranted,
    /// The host is not supported.
    UnsupportedOnHost,
    /// The request failed validation.
    InvalidRequest(CommandFault),
    /// The child could not be spawned.
    SpawnFailed(Seq<char>),
    /// I/O failed.
    Io(Seq<char>),
    /// The session was cancelled.
    Cancelled,
    /// The session took too long.
    Timeout,
    /// The session wrote too much.
    OutputLimit,
}

impl View for NativeError {
    type V = NativeFault;

    open spec fn view(&self) -> NativeFault {
        match self {
            NativeError::WrongMode => NativeFault::WrongMode,
            NativeError::NativeNotGranted => NativeFault::NativeNotGranted,
            NativeError::UnsupportedOnHost => NativeFault::UnsupportedOnHost,
            NativeError::InvalidRequest(error) => NativeFault::InvalidRequest(error@),
            NativeError::SpawnFailed(reason) => NativeFault::SpawnFailed(reason@),
            NativeError::Io(reason) => NativeFault::Io(reason@),
            NativeError::Cancelled => NativeFault::Cancelled,
            NativeError::Timeout => NativeFault::Timeout,
            NativeError::OutputLimit => NativeFault::OutputLimit,
        }
    }
}

impl NativeFault {
    /// The message of an error.
    pub open spec fn message_text(self) -> Seq<char> {
        match self {
            NativeFault::WrongMode => "native backend received a non-native request"@,
            NativeFault::NativeNotGranted => "native execution was not granted"@,
            NativeFault::UnsupportedOnHost => "native execution is unsupported on this host"@,
            NativeFault::InvalidRequest(fault) => "invalid native request: "@
                + fault.message_text(),
            NativeFault::SpawnFailed(reason) => "failed to spawn native process: "@ + reason,
            NativeFault::Io(reason) => "native I/O failure: "@ + reason,
            NativeFault::Cancelled => "native session was cancelled"@,
            NativeFault::Timeout => "native session exceeded its wall-clock timeout"@,
            NativeFault::OutputLimit => "native session exceeded its output budget"@,
        }
    }
}

impl NativeError {
    /// A message for people.
    pub fn message(&self) -> (r: String)
        ensures
            r@ == self@.message_text(),
    {
        match self {
            NativeError::WrongMode => "native backend received a non-native request".to_owned(),
            NativeError::NativeNotGranted => "native execution was not granted".to_owned(),
            NativeError::UnsupportedOnHost => {
                "native execution is unsupported on this host".to_owned()
            },
            NativeError::InvalidRequest(error) => text::joined(
                "invalid native request: ",
                error.message().as_str(),
            ),
            NativeError::SpawnFailed(reason) => text::joined(
                "failed to spawn native process: ",
                reason.as_str(),
            ),
            NativeError::Io(reason) => text::joined("native I/O failure: ", reason.as_str()),
            NativeError::Cancelled => "native session was cancelled".to_owned(),
            NativeError::Timeout => "native session exceeded its wall-clock timeout".to_owned(),
            NativeError::OutputLimit => "native session exceeded its output budget".to_owned(),
        }
    }
}

/// Captured output and exit status of one native command.
///
/// A PTY merges stdout and stderr, so `stderr` is conventionally empty for
/// native sessions; all captured bytes appear in `stdout`.
#[derive(Clone, Debug, PartialEq, Eq)]
pub struct NativeOutput {
    /// Captured standard output (includes merged stderr from the PTY).
    pub stdout: Vec<u8>,
    /// Captured standard error (empty for PTY sessions).
    pub stderr: Vec<u8>,
    /// Process exit code.
    pub exit_code: u32,
}

/// Everything a child process is started with, and nothing else: its argv, its
/// working directory, its whole environment and its viewport.
#[derive(Debug, PartialEq, Eq)]
pub struct SpawnPlan {
    /// The program.
    pub program: String,
    /// Its arguments, each a separate value.
    pub args: Vec<String>,
    /// Its working directory.
    pub cwd: HostPath,
    /// Its environment.
    pub env: Vec<(String, String)>,
    /// The rows of its viewport.
    pub rows: u16,
    /// The columns of its viewport.
    pub cols: u16,
}

/// What kind of system the host runs.
#[derive(Clone, Copy, Debug, PartialEq, Eq, Structural)]
pub enum HostFamily {
    /// A Unix, with PTYs and process groups.
    Unix,
    /// Anything else.
    Other,
}

/// Why a request is not spawned on a host, if it is not; `facts` is what the
/// host knows of its working directory.
pub open spec fn spawn_fault(
    family: HostFamily,
    request: RequestModel,
    facts: FactsModel,
) -> Option<NativeFault> {
    if request.mode != ExecutionMode::Native {
        Some(NativeFault::WrongMode)
    } else if !request.grant.native {
        Some(NativeFault::NativeNotGranted)
    } else if command::request_fault(request) is Some {
        Some(NativeFault::InvalidRequest(command::request_fault(request)->0))
    } else if family != HostFamily::Unix {
        Some(NativeFault::UnsupportedOnHost)
    } else if !request.grant.covers_real(facts.actual) {
        Some(
            NativeFault::InvalidRequest(CommandFault::WorkingDirectoryDenied(request.cwd)),
        )
    } else {
        None
    }
}

/// The native execution backend.
///
/// It supports hosts whose platform policy adapter is implemented and tested;
/// every other host fails closed with [`NativeError::UnsupportedOnHost`].
#[derive(Debug)]
pub struct NativeBackend {
    family: HostFamily,
}

impl NativeBackend {
    /// The kind of host that this is the boundary of.
    pub closed spec fn host(&self) -> HostFamily {
        self.family
    }

    /// Create the native backend boundary of a host.
    pub fn new(family: HostFamily) -> (r: Self)
        ensures
            r.host() == family,
    {
        NativeBackend { family }
    }

    /// Whether the host can enforce the native execution policy.
    ///
    /// Unix (PTY + process-group semantics) has an adapter. Every other host
    /// reports unsupported until its adapter is tested, never ambient fallback.
    pub fn supported_on_host(&self) -> (r: bool)
        ensures
            r == (self.host() == HostFamily::Unix),
    {
        self.family == HostFamily::Unix
    }

    /// Plan the spawn of one approved native request; `facts` is what the host
    /// knows of its working directory, and `env_provider` resolves host
    /// environment values: only grant-allowlisted names are ever queried and
    /// forwarded to the child.
    ///
    /// # Errors
    ///
    /// Fails when the mode is not native, native execution is not granted, the
    /// request is invalid, the host adapter is unsupported, or the working
    /// directory does not resolve inside the grant.
    pub fn spawn_with_env<F: Fn(&str) -> Option<String>>(
        &self,
        request: &CommandRequest,
        facts: &PathFacts,
        env_provider: &F,
    ) -> (r: Result<SpawnPlan, NativeError>)
        requires
            forall|name: &str|
                request@.grant.environment.contains(name@) ==> #[trigger] call_requires(
                    *env_provider,
                    (name,),
                ),
        ensures
            match spawn_fault(self.host(), request@, facts@) {
                Some(fault) => r is Err && r->Err_0@ == fault,
                None => {
                    &&& r is Ok
                    &&& r->Ok_0.program@ == request@.program
                    &&& text::texts(r->Ok_0.args@) == request@.args
                    &&& r->Ok_0.cwd@ == request@.cwd
                    &&& r->Ok_0.rows == 24
                    &&& r->Ok_0.cols == 80
                    &&& exists|answers: Seq<Option<Seq<char>>>|
                        {
                            &&& answers.len() == text_map::ordered_names(
                                request@.grant.environment,
                            ).len()
                            &&& forall|i: int|
                                0 <= i < answers.len() ==> policy::can_answer(
                                    env_provider,
                                    text_map::ordered_names(request@.grant.environment)[i],
                                    #[trigger] answers[i],
                                )
                            &&& policy::variable_models(r->Ok_0.env@)
                                == #[trigger] policy::with_values(
                                text_map::ordered_names(request@.grant.environment),
                                answers,
                            )
                        }
                },
            },
    {
        if request.mode != ExecutionMode::Native {
            return Err(NativeError::WrongMode);
        }
        if !request.grant.allows_native_execution() {
            return Err(NativeError::NativeNotGranted);
        }
        match request.validate() {
            Ok(()) => {},
            Err(error) => return Err(NativeError::InvalidRequest(error)),
        }
        if !self.supported_on_host() {
            return Err(NativeError::UnsupportedOnHost);
        }
        // The cwd must exist and resolve inside the grant (symlink-aware).
        if !request.grant.allows_existing_path(&facts.actual) {
            return Err(
                NativeError::InvalidRequest(
                    CommandError::WorkingDirectoryDenied(request.cwd.clone()),
                ),
            );
        }
        let env = policy::selected_environment(&request.grant, env_provider);
        Ok(
            SpawnPlan {
                program: request.program.clone(),
                args: text::copy_texts(&request.args),
                cwd: request.cwd.clone(),
                env,
                rows: 24,
                cols: 80,
            },
        )
    }
}

/// Native execution is never silently performed: without a native request,
/// without the grant or on a host without an adapter nothing is spawned, and
/// the last is answered as unsupported where nothing else is wrong.
pub proof fn native_execution_fails_closed(
    family: HostFamily,
    request: RequestModel,
    facts: FactsModel,
)
    ensures
        request.mode != ExecutionMode::Native || !request.grant.native || family
            != HostFamily::Unix ==> spawn_fault(family, request, facts) is Some,
        family != HostFamily::Unix && request.mode == ExecutionMode::Native
            && command::request_fault(request) is None && request.grant.native ==> spawn_fault(
            family,
            request,
            facts,
        ) == Some(NativeFault::UnsupportedOnHost),
{
}

} // verus!
