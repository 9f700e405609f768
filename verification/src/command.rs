//! Command requests, the events they produce, and the life of one session.

use vstd::prelude::*;
use crate::capability::{CapabilityGrant, GrantModel, ResourceLimits};
use crate::host_path;
use crate::host_path::HostPath;
use crate::text;

verus! {

/// The principal behind a command.
#[derive(Clone, Copy, Debug, PartialEq, Eq, Hash, Structural)]
pub enum Actor {
    /// A person at the terminal.
    Human,
    /// The agent.
    Agent,
    /// An agent started by the agent.
    Subagent,
    /// A skill.
    Skill,
}

/// The backend of a command.
#[derive(Clone, Copy, Debug, PartialEq, Eq, Hash, Structural)]
pub enum ExecutionMode {
    /// The embedded WASI runtime.
    Wasi,
    /// A native process.
    Native,
}

/// An output stream.
#[derive(Clone, Copy, Debug, PartialEq, Eq, Hash, Structural)]
pub enum Stream {
    /// Standard output.
    Stdout,
    /// Standard error.
    Stderr,
}

/// One event of a session.
#[derive(Debug, PartialEq, Eq)]
pub enum SessionEvent {
    /// The command started.
    Started,
    /// The command wrote output.
    Output {
        /// The stream it wrote to.
        stream: Stream,
        /// What it wrote.
        bytes: Vec<u8>,
    },
    /// The command ended.
    Exited {
        /// Its exit code, where there is one.
        code: Option<i32>,
    },
    /// The command was cancelled.
    Cancelled,
    /// The command was denied.
    Denied,
    /// The command cannot run on this host.
    Unsupported,
    /// The command waits for a human.
    PendingApproval {
        /// The request that is pending.
        request_id: u64,
    },
}

/// What a [`SessionEvent`] denotes.
pub enum EventModel {
    /// The command started.
    Started,
    /// The command wrote output.
    Output(Stream, Seq<u8>),
    /// The command ended.
    Exited(Option<i32>),
    /// The command was cancelled.
    Cancelled,
    /// The command was denied.
    Denied,
    /// The command cannot run on this host.
    Unsupported,
    /// The command waits for a human.
    PendingApproval(u64),
}

impl View for SessionEvent {
    type V = EventModel;

    open spec fn view(&self) -> EventModel {
        match self {
            SessionEvent::Started => EventModel::Started,
            SessionEvent::Output { stream, bytes } => EventModel::Output(*stream, bytes@),
            SessionEvent::Exited { code } => EventModel::Exited(*code),
            SessionEvent::Cancelled => EventModel::Cancelled,
            SessionEvent::Denied => EventModel::Denied,
            SessionEvent::Unsupported => EventModel::Unsupported,
            SessionEvent::PendingApproval { request_id } => EventModel::PendingApproval(
                *request_id,
            ),
        }
    }
}

/// What a list of events denotes.
pub open spec fn event_models(list: Seq<SessionEvent>) -> Seq<EventModel> {
    Seq::new(list.len(), |i: int| list[i]@)
}

/// Errors produced while building or driving a command.
#[derive(Debug, PartialEq, Eq)]
pub enum CommandError {
    /// Native execution was requested without a grant for it.
    NativeNotGranted,
    /// The working directory lies outside the grant.
    WorkingDirectoryDenied(HostPath),
    /// An event came where it cannot come.
    InvalidTransition(&'static str),
}

/// What a [`CommandError`] denotes.
pub enum CommandFault {
    /// Native execution was requested without a grant for it.
    NativeNotGranted,
    /// The working directory lies outside the grant.
    WorkingDirectoryDenied(Seq<Seq<char>>),
    /// An event came where it cannot come.
    InvalidTransition(&'static str),
}

impl View for CommandError {
    type V = CommandFault;

    open spec fn view(&self) -> CommandFault {
        match self {
            CommandError::NativeNotGranted => CommandFault::NativeNotGranted,
            CommandError::WorkingDirectoryDenied(path) => CommandFault::WorkingDirectoryDenied(
                path@,
            ),
            CommandError::InvalidTransition(reason) => CommandFault::InvalidTransition(*reason),
        }
    }
}

impl CommandFault {
    /// The message of an error.
    pub open spec fn message_text(self) -> Seq<char> {
        match self {
            CommandFault::NativeNotGranted => "native execution was not granted"@,
            CommandFault::WorkingDirectoryDenied(path) => "working directory denied: "@
                + host_path::path_text(path),
            CommandFault::InvalidTransition(reason) => "invalid session transition: "@ + reason@,
        }
    }
}

impl CommandError {
    /// A message for people.
    pub fn message(&self) -> (r: String)
        ensures
            r@ == self@.message_text(),
    {
        match self {
            CommandError::NativeNotGranted => "native execution was not granted".to_owned(),
            CommandError::WorkingDirectoryDenied(path) => text::joined(
                "working directory denied: ",
                path.to_text().as_str(),
            ),
            CommandError::InvalidTransition(reason) => text::joined(
                "invalid session transition: ",
                reason,
            ),
        }
    }
}

/// One command, with the authority it runs under.
#[derive(Debug, PartialEq, Eq)]
pub struct CommandRequest {
    /// The session that runs it.
    pub id: u64,
    /// Who runs it.
    pub actor: Actor,
    /// The backend.
    pub mode: ExecutionMode,
    /// The program.
    pub program: String,
    /// Its arguments, each a separate value.
    pub args: Vec<String>,
    /// The working directory.
    pub cwd: HostPath,
    /// What it may reach.
    pub grant: CapabilityGrant,
}

/// What a [`CommandRequest`] denotes.
#[verifier::ext_equal]
pub struct RequestModel {
    /// The session that runs it.
    pub id: u64,
    /// Who runs it.
    pub actor: Actor,
    /// The backend.
    pub mode: ExecutionMode,
    /// The program.
    pub program: Seq<char>,
    /// Its arguments.
    pub args: Seq<Seq<char>>,
    /// The working directory.
    pub cwd: Seq<Seq<char>>,
    /// What it may reach.
    pub grant: GrantModel,
}

impl View for CommandRequest {
    type V = RequestModel;

    open spec fn view(&self) -> RequestModel {
        RequestModel {
            id: self.id,
            actor: self.actor,
            mode: self.mode,
            program: self.program@,
            args: text::texts(self.args@),
            cwd: self.cwd@,
            grant: self.grant@,
        }
    }
}

/// Why a request is refused, if it is: native execution has to be granted, and
/// the working directory has to lie in a granted tree.
pub open spec fn request_fault(request: RequestModel) -> Option<CommandFault> {
    if request.mode == ExecutionMode::Native && !request.grant.native {
        Some(CommandFault::NativeNotGranted)
    } else if !request.grant.covers(request.cwd) {
        Some(CommandFault::WorkingDirectoryDenied(request.cwd))
    } else {
        None
    }
}

impl CommandRequest {
    /// Build a request, refusing what its grant does not cover.
    pub fn new(
        id: u64,
        actor: Actor,
        mode: ExecutionMode,
        program: &str,
        args: Vec<String>,
        cwd: HostPath,
        grant: CapabilityGrant,
    ) -> (r: Result<Self, CommandError>)
        ensures
            ({
                let request = RequestModel {
                    id,
                    actor,
                    mode,
                    program: program@,
                    args: text::texts(args@),
                    cwd: cwd@,
                    grant: grant@,
                };
                match request_fault(request) {
                    Some(fault) => r is Err && r->Err_0@ == fault,
                    None => r is Ok && r->Ok_0@ == request,
                }
            }),
    {
        let request = CommandRequest {
            id,
            actor,
            mode,
            program: program.to_owned(),
            args,
            cwd,
            grant,
        };
        match request.validate() {
            Ok(()) => Ok(request),
            Err(error) => Err(error),
        }
    }

    /// Whether the grant covers the request.
    ///
    /// # Errors
    ///
    /// Returns why it does not.
    pub fn validate(&self) -> (r: Result<(), CommandError>)
        ensures
            match request_fault(self@) {
                Some(fault) => r is Err && r->Err_0@ == fault,
                None => r is Ok,
            },
    {
        if self.mode == ExecutionMode::Native && !self.grant.allows_native_execution() {
            return Err(CommandError::NativeNotGranted);
        }
        if !self.grant.allows_path(&self.cwd) {
            return Err(CommandError::WorkingDirectoryDenied(self.cwd.clone()));
        }
        Ok(())
    }
}

/// How far a session has come.
#[derive(Clone, Copy, Debug, PartialEq, Eq, Structural)]
pub enum SessionPhase {
    /// It waits to be started.
    Queued,
    /// It is running.
    Running,
    /// It has ended; nothing more can happen to it.
    Ended,
}

/// The phase after an event, or why the event cannot come.
pub open spec fn phase_after(phase: SessionPhase, event: EventModel) -> Result<
    SessionPhase,
    &'static str,
> {
    match phase {
        SessionPhase::Ended => Err("session has already ended"),
        SessionPhase::Queued => match event {
            EventModel::Started => Ok(SessionPhase::Running),
            EventModel::PendingApproval(_) => Ok(SessionPhase::Queued),
            EventModel::Cancelled | EventModel::Denied | EventModel::Unsupported => Ok(
                SessionPhase::Ended,
            ),
            _ => Err("session has not started"),
        },
        SessionPhase::Running => match event {
            EventModel::Output(_, _) => Ok(SessionPhase::Running),
            EventModel::Started | EventModel::PendingApproval(_) => Err(
                "session has already started",
            ),
            _ => Ok(SessionPhase::Ended),
        },
    }
}

/// The life of one session: queued, running, ended.
#[derive(Debug)]
pub struct SessionState {
    /// The session.
    pub id: u64,
    /// The bounds on it.
    pub limits: ResourceLimits,
    /// How far it has come.
    pub phase: SessionPhase,
}

impl SessionState {
    /// A session that waits to be started.
    pub fn new(id: u64, limits: ResourceLimits) -> (r: Self)
        ensures
            r.id == id,
            r.limits == limits,
            r.phase == SessionPhase::Queued,
    {
        SessionState { id, limits, phase: SessionPhase::Queued }
    }

    /// Record an event.
    ///
    /// # Errors
    ///
    /// Refuses an event that cannot come in this phase, which then stays.
    pub fn accept(&mut self, event: &SessionEvent) -> (r: Result<(), CommandError>)
        ensures
            final(self).id == old(self).id,
            final(self).limits == old(self).limits,
            match phase_after(old(self).phase, event@) {
                Ok(phase) => r is Ok && final(self).phase == phase,
                Err(reason) => {
                    &&& r is Err
                    &&& r->Err_0@ == CommandFault::InvalidTransition(reason)
                    &&& final(self).phase == old(self).phase
                },
            },
    {
        match self.phase {
            SessionPhase::Ended => {
                return Err(CommandError::InvalidTransition("session has already ended"));
            },
            SessionPhase::Queued => match event {
                SessionEvent::Started => {
                    self.phase = SessionPhase::Running;
                },
                SessionEvent::PendingApproval { request_id: _ } => {},
                SessionEvent::Cancelled | SessionEvent::Denied | SessionEvent::Unsupported => {
                    self.phase = SessionPhase::Ended;
                },
                _ => return Err(CommandError::InvalidTransition("session has not started")),
            },
            SessionPhase::Running => match event {
                SessionEvent::Output { stream: _, bytes: _ } => {},
                SessionEvent::Started | SessionEvent::PendingApproval { request_id: _ } => {
                    return Err(CommandError::InvalidTransition("session has already started"));
                },
                _ => {
                    self.phase = SessionPhase::Ended;
                },
            },
        }
        Ok(())
    }
}

} // verus!
