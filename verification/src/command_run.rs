//! Running one command of a plan: what it asks of the host, in turn, and how
//! it ends.
//!
//! A command first resolves its redirections, in order, and its working
//! directory. Then its program runs: a builtin in-process, an external program
//! once the authority has allowed it, a WASI component once it has been read.
//! What it printed is written to its redirection targets; the rest becomes
//! events.

use vstd::prelude::*;
use crate::builtin;
use crate::builtin::BuiltinResult;
use crate::builtin_run;
use crate::builtin_run::{BuiltinStage, BuiltinStageModel, HostReply, HostReplyModel};
use crate::command;
use crate::command::{
    CommandRequest,
    EventModel,
    ExecutionMode,
    RequestModel,
    SessionEvent,
    Stream,
};
use crate::capability::GrantModel;
use crate::host_action::{ActionModel, AppendMode, FsAction, FsReply, ReplyModel};
use crate::host_path::HostPath;
use crate::native::{NativeError, NativeFault, NativeOutput};
use crate::shell_executor;
use crate::shell_executor::{
    EffectModel,
    EffectRecord,
    ExecuteError,
    ExecuteFault,
    Outcome,
    OutcomeModel,
    PlanStatus,
};
use crate::shell_ir;
use crate::shell_ir::{
    Builtin,
    BuiltinModel,
    CommandModel,
    CommandSpec,
    Program,
    ProgramModel,
    Redirect,
    RedirectModel,
    SessionPath,
};
use crate::terminal_session;
use crate::terminal_session::{SessionModel, TerminalSession};
use crate::text;

verus! {

/// The text that std's `Debug` writes for a string, in quotes and escaped.
pub uninterp spec fn debug_text(s: Seq<char>) -> Seq<char>;

/// `format!` with `{:?}` on a string: std's `Debug` of `str`. Which characters
/// it escapes is left to the name `debug_text`.
#[verifier::external_body]
fn debug_str(s: &str) -> (r: String)
    ensures
        r@ == debug_text(s@),
{
    format!("{s:?}")
}

/// How a session path is written in an effect record.
pub open spec fn path_record(path: Seq<char>) -> Seq<char> {
    "SessionPath("@ + debug_text(path) + ")"@
}

/// How a list of texts is written in an effect record, without its brackets.
pub open spec fn list_record(list: Seq<Seq<char>>) -> Seq<char>
    decreases list.len(),
{
    if list.len() == 0 {
        Seq::empty()
    } else if list.len() == 1 {
        debug_text(list[0])
    } else {
        list_record(list.drop_last()) + ", "@ + debug_text(list.last())
    }
}

/// How a builtin is written in an effect record.
pub open spec fn builtin_record(builtin: BuiltinModel) -> Seq<char> {
    match builtin {
        BuiltinModel::Pwd => "Pwd"@,
        BuiltinModel::Cd(path) => "Cd("@ + path_record(path) + ")"@,
        BuiltinModel::Ls(path) => "Ls("@ + path_record(path) + ")"@,
        BuiltinModel::Cat(path) => "Cat("@ + path_record(path) + ")"@,
        BuiltinModel::Mkdir(path) => "Mkdir("@ + path_record(path) + ")"@,
        BuiltinModel::Remove(path) => "Remove("@ + path_record(path) + ")"@,
        BuiltinModel::Copy(from, to) => "Copy { from: "@ + path_record(from) + ", to: "@
            + path_record(to) + " }"@,
        BuiltinModel::Move(from, to) => "Move { from: "@ + path_record(from) + ", to: "@
            + path_record(to) + " }"@,
        BuiltinModel::Env => "Env"@,
        BuiltinModel::Which(name) => "Which("@ + debug_text(name) + ")"@,
        BuiltinModel::Echo(args) => "Echo(["@ + list_record(args) + "])"@,
        BuiltinModel::Export(name, value) => "Export { name: "@ + debug_text(name) + ", value: "@
            + match value {
            Some(value) => "Some("@ + debug_text(value) + ")"@,
            None => "None"@,
        } + " }"@,
    }
}

fn record_path(path: &SessionPath) -> (r: String)
    ensures
        r@ == path_record(path@),
{
    let mut r = "SessionPath(".to_owned();
    r.append(debug_str(path.as_str()).as_str());
    r.append(")");
    r
}

fn record_one(name: &str, path: &SessionPath) -> (r: String)
    ensures
        r@ == name@ + path_record(path@) + ")"@,
{
    let mut r = name.to_owned();
    r.append(record_path(path).as_str());
    r.append(")");
    r
}

fn record_two(name: &str, from: &SessionPath, to: &SessionPath) -> (r: String)
    ensures
        r@ == name@ + path_record(from@) + ", to: "@ + path_record(to@) + " }"@,
{
    let mut r = name.to_owned();
    r.append(record_path(from).as_str());
    r.append(", to: ");
    r.append(record_path(to).as_str());
    r.append(" }");
    r
}

fn record_list(list: &Vec<String>) -> (r: String)
    ensures
        r@ == list_record(text::texts(list@)),
{
    let mut r = String::new();
    let ghost all = text::texts(list@);
    let mut i: usize = 0;
    assert(all.take(0) =~= Seq::empty());
    while i < list.len()
        invariant
            i <= list.len(),
            all == text::texts(list@),
            r@ == list_record(all.take(i as int)),
        decreases list.len() - i,
    {
        let ghost before = r@;
        if i > 0 {
            r.append(", ");
        }
        r.append(debug_str(list[i].as_str()).as_str());
        i = i + 1;
        proof {
            let now = all.take(i as int);
            assert(now.drop_last() =~= all.take(i - 1));
            if i == 1 {
                assert(before =~= Seq::empty());
                assert(r@ =~= debug_text(now[0]));
            }
        }
    }
    assert(all.take(i as int) =~= all);
    r
}

/// How a builtin is written in an effect record.
pub fn record_builtin(builtin: &Builtin) -> (r: String)
    ensures
        r@ == builtin_record(builtin@),
{
    match builtin {
        Builtin::Pwd => "Pwd".to_owned(),
        Builtin::Cd(path) => record_one("Cd(", path),
        Builtin::Ls(path) => record_one("Ls(", path),
        Builtin::Cat(path) => record_one("Cat(", path),
        Builtin::Mkdir(path) => record_one("Mkdir(", path),
        Builtin::Remove(path) => record_one("Remove(", path),
        Builtin::Copy { from, to } => record_two("Copy { from: ", from, to),
        Builtin::Move { from, to } => record_two("Move { from: ", from, to),
        Builtin::Env => "Env".to_owned(),
        Builtin::Which(name) => {
            let mut r = "Which(".to_owned();
            r.append(debug_str(name.as_str()).as_str());
            r.append(")");
            r
        },
        Builtin::Echo(args) => {
            let mut r = "Echo([".to_owned();
            r.append(record_list(args).as_str());
            r.append("])");
            r
        },
        Builtin::Export { name, value } => {
            let mut r = "Export { name: ".to_owned();
            r.append(debug_str(name.as_str()).as_str());
            r.append(", value: ");
            let mut shown = String::new();
            match value {
                Some(value) => {
                    shown.append("Some(");
                    shown.append(debug_str(value.as_str()).as_str());
                    shown.append(")");
                    assert(shown@ =~= "Some("@ + debug_text(value@) + ")"@);
                },
                None => {
                    shown.append("None");
                    assert(shown@ =~= "None"@);
                },
            }
            r.append(shown.as_str());
            r.append(" }");
            r
        },
    }
}

/// Where an output stream is redirected to.
#[derive(Debug, PartialEq, Eq)]
pub struct Target {
    /// The file.
    pub path: HostPath,
    /// Whether it is truncated or appended to.
    pub mode: AppendMode,
}

/// What a redirection target denotes, if there is one.
pub open spec fn target_model(target: Option<Target>) -> Option<(Seq<Seq<char>>, AppendMode)> {
    match target {
        Some(target) => Some((target.path@, target.mode)),
        None => None,
    }
}

/// What the redirections of a command come to.
#[derive(Debug, PartialEq, Eq)]
pub struct Redirections {
    /// The redirected input.
    pub stdin: Option<Vec<u8>>,
    /// Where standard output goes.
    pub stdout: Option<Target>,
    /// Where standard error goes.
    pub stderr: Option<Target>,
}

/// What [`Redirections`] denote.
pub struct RedirectionsModel {
    /// The redirected input.
    pub stdin: Option<Seq<u8>>,
    /// Where standard output goes.
    pub stdout: Option<(Seq<Seq<char>>, AppendMode)>,
    /// Where standard error goes.
    pub stderr: Option<(Seq<Seq<char>>, AppendMode)>,
}

impl View for Redirections {
    type V = RedirectionsModel;

    open spec fn view(&self) -> RedirectionsModel {
        RedirectionsModel {
            stdin: match self.stdin {
                Some(bytes) => Some(bytes@),
                None => None,
            },
            stdout: target_model(self.stdout),
            stderr: target_model(self.stderr),
        }
    }
}

/// The redirections that a command has gathered.
pub open spec fn redirections_of(gathered: GatheredModel) -> RedirectionsModel {
    RedirectionsModel {
        stdin: gathered.stdin,
        stdout: gathered.stdout_target,
        stderr: gathered.stderr_target,
    }
}

/// How a command ended: the events it leaves, and its outcome.
#[derive(Debug, PartialEq, Eq)]
pub struct CommandEnd {
    /// The events, in order.
    pub events: Vec<SessionEvent>,
    /// The outcome.
    pub outcome: Outcome,
}

/// What a [`CommandEnd`] denotes.
pub struct EndModel {
    /// The events, in order.
    pub events: Seq<EventModel>,
    /// The outcome.
    pub outcome: OutcomeModel,
}

impl View for CommandEnd {
    type V = EndModel;

    open spec fn view(&self) -> EndModel {
        EndModel { events: command::event_models(self.events@), outcome: self.outcome@ }
    }
}

/// How a native process came out.
#[derive(Debug, PartialEq, Eq)]
pub enum NativeReply {
    /// It could not be spawned.
    NotSpawned(NativeError),
    /// Its runner broke down.
    Panicked,
    /// It ran.
    Ran(Result<NativeOutput, NativeError>),
}

/// What a [`NativeReply`] denotes.
pub enum NativeReplyModel {
    /// It could not be spawned.
    NotSpawned(NativeFault),
    /// Its runner broke down.
    Panicked,
    /// It exited, with what it printed to both streams.
    Exited(Seq<u8>, Seq<u8>, u32),
    /// It was stopped.
    Stopped(NativeFault),
}

impl View for NativeReply {
    type V = NativeReplyModel;

    open spec fn view(&self) -> NativeReplyModel {
        match self {
            NativeReply::NotSpawned(error) => NativeReplyModel::NotSpawned(error@),
            NativeReply::Panicked => NativeReplyModel::Panicked,
            NativeReply::Ran(Ok(output)) => NativeReplyModel::Exited(
                output.stdout@,
                output.stderr@,
                output.exit_code,
            ),
            NativeReply::Ran(Err(error)) => NativeReplyModel::Stopped(error@),
        }
    }
}

/// How the run of a WASI component came out.
#[derive(Debug, PartialEq, Eq)]
pub enum ComponentReply {
    /// Its runner broke down.
    Panicked,
    /// It was cancelled.
    Cancelled,
    /// It ran to its end, or to a failure that has no exit code.
    Ran {
        /// What it printed to standard output.
        stdout: Vec<u8>,
        /// What it printed to standard error.
        stderr: Vec<u8>,
        /// Its exit code.
        exit_code: Option<i32>,
    },
}

/// What a [`ComponentReply`] denotes.
pub enum ComponentReplyModel {
    /// Its runner broke down.
    Panicked,
    /// It was cancelled.
    Cancelled,
    /// It ran, with what it printed to both streams.
    Ran(Seq<u8>, Seq<u8>, Option<i32>),
}

impl View for ComponentReply {
    type V = ComponentReplyModel;

    open spec fn view(&self) -> ComponentReplyModel {
        match self {
            ComponentReply::Panicked => ComponentReplyModel::Panicked,
            ComponentReply::Cancelled => ComponentReplyModel::Cancelled,
            ComponentReply::Ran { stdout, stderr, exit_code } => ComponentReplyModel::Ran(
                stdout@,
                stderr@,
                *exit_code,
            ),
        }
    }
}

/// An answer to a running command.
#[derive(Debug, PartialEq, Eq)]
pub enum CommandReply {
    /// The host answered.
    Host(HostReply),
    /// The authority decided.
    Verdict(Result<(), ExecuteError>),
    /// A native process came out.
    Native(NativeReply),
    /// A WASI component was compiled, or could not be.
    Compiled(Result<(), String>),
    /// A WASI component came out.
    Component(ComponentReply),
}

/// What a [`CommandReply`] denotes.
pub enum CommandReplyModel {
    /// The host answered.
    Host(HostReplyModel),
    /// The authority decided.
    Verdict(Result<(), ExecuteFault>),
    /// A native process came out.
    Native(NativeReplyModel),
    /// A WASI component was compiled, or could not be.
    Compiled(Result<(), Seq<char>>),
    /// A WASI component came out.
    Component(ComponentReplyModel),
}

impl View for CommandReply {
    type V = CommandReplyModel;

    open spec fn view(&self) -> CommandReplyModel {
        match self {
            CommandReply::Host(reply) => CommandReplyModel::Host(reply@),
            CommandReply::Verdict(Ok(())) => CommandReplyModel::Verdict(Ok(())),
            CommandReply::Verdict(Err(error)) => CommandReplyModel::Verdict(Err(error@)),
            CommandReply::Native(reply) => CommandReplyModel::Native(reply@),
            CommandReply::Compiled(Ok(())) => CommandReplyModel::Compiled(Ok(())),
            CommandReply::Compiled(Err(reason)) => CommandReplyModel::Compiled(Err(reason@)),
            CommandReply::Component(reply) => CommandReplyModel::Component(reply@),
        }
    }
}

/// What a running command waits for, or how it ended.
#[derive(Debug, PartialEq, Eq)]
pub enum CommandStage {
    /// The host has to look up the input of the redirection at `index`.
    LookUpInput {
        /// The redirection.
        index: usize,
        /// The path.
        path: HostPath,
    },
    /// The host has to read the input of the redirection at `index`.
    ReadInput {
        /// The redirection.
        index: usize,
        /// The path.
        path: HostPath,
    },
    /// The host has to tell where the output of the redirection at `index`
    /// would come to lie.
    LocateOutput {
        /// The redirection.
        index: usize,
        /// The path.
        path: HostPath,
    },
    /// The host has to look up the working directory.
    LookUpCwd(HostPath),
    /// The builtin waits for the host.
    Builtin(BuiltinStage),
    /// The authority has to decide on a native command.
    Authorize(CommandRequest),
    /// The native command has to be run.
    RunNative(CommandRequest),
    /// The host has to look up the WASI component.
    LookUpComponent(HostPath),
    /// The host has to read the WASI component.
    ReadComponent(HostPath),
    /// The WASI component has to be compiled from these bytes.
    CompileComponent(Vec<u8>),
    /// The compiled WASI component has to be run.
    RunComponent(CommandRequest),
    /// The host has to write the redirected output, one file after another.
    Write {
        /// What is left to write.
        writes: Vec<FsAction>,
        /// How the command ends once that is done.
        end: CommandEnd,
    },
    /// The command has ended.
    Ended(Result<CommandEnd, ExecuteError>),
}

/// What a [`CommandStage`] denotes.
pub enum CommandStageModel {
    /// Look up the input of a redirection.
    LookUpInput(int, Seq<Seq<char>>),
    /// Read the input of a redirection.
    ReadInput(int, Seq<Seq<char>>),
    /// Tell the landing of the output of a redirection.
    LocateOutput(int, Seq<Seq<char>>),
    /// Look up the working directory.
    LookUpCwd(Seq<Seq<char>>),
    /// The builtin waits.
    Builtin(BuiltinStageModel),
    /// The authority decides.
    Authorize(RequestModel),
    /// Run the native command.
    RunNative(RequestModel),
    /// Look up the component.
    LookUpComponent(Seq<Seq<char>>),
    /// Read the component.
    ReadComponent(Seq<Seq<char>>),
    /// Compile the component.
    CompileComponent(Seq<u8>),
    /// Run the component.
    RunComponent(RequestModel),
    /// Write what is left to write.
    Write(Seq<ActionModel>, EndModel),
    /// The command has ended.
    Ended(Result<EndModel, ExecuteFault>),
}

/// What a list of operations denotes.
pub open spec fn action_models(list: Seq<FsAction>) -> Seq<ActionModel> {
    Seq::new(list.len(), |i: int| list[i]@)
}

impl View for CommandStage {
    type V = CommandStageModel;

    open spec fn view(&self) -> CommandStageModel {
        match self {
            CommandStage::LookUpInput { index, path } => CommandStageModel::LookUpInput(
                *index as int,
                path@,
            ),
            CommandStage::ReadInput { index, path } => CommandStageModel::ReadInput(
                *index as int,
                path@,
            ),
            CommandStage::LocateOutput { index, path } => CommandStageModel::LocateOutput(
                *index as int,
                path@,
            ),
            CommandStage::LookUpCwd(path) => CommandStageModel::LookUpCwd(path@),
            CommandStage::Builtin(stage) => CommandStageModel::Builtin(stage@),
            CommandStage::Authorize(request) => CommandStageModel::Authorize(request@),
            CommandStage::RunNative(request) => CommandStageModel::RunNative(request@),
            CommandStage::LookUpComponent(path) => CommandStageModel::LookUpComponent(path@),
            CommandStage::ReadComponent(path) => CommandStageModel::ReadComponent(path@),
            CommandStage::CompileComponent(bytes) => CommandStageModel::CompileComponent(bytes@),
            CommandStage::RunComponent(request) => CommandStageModel::RunComponent(request@),
            CommandStage::Write { writes, end } => CommandStageModel::Write(
                action_models(writes@),
                end@,
            ),
            CommandStage::Ended(Ok(end)) => CommandStageModel::Ended(Ok(end@)),
            CommandStage::Ended(Err(error)) => CommandStageModel::Ended(Err(error@)),
        }
    }
}

/// What a command has gathered while it was resolved.
#[verifier::ext_equal]
pub struct GatheredModel {
    /// What was read for standard input.
    pub stdin: Option<Seq<u8>>,
    /// Where standard output goes.
    pub stdout_target: Option<(Seq<Seq<char>>, AppendMode)>,
    /// Where standard error goes.
    pub stderr_target: Option<(Seq<Seq<char>>, AppendMode)>,
    /// The working directory.
    pub cwd: Option<Seq<Seq<char>>>,
}

/// A command of which nothing has been resolved.
pub open spec fn nothing_gathered() -> GatheredModel {
    GatheredModel { stdin: None, stdout_target: None, stderr_target: None, cwd: None }
}

/// A run of a command: what it has gathered, and where it stands.
#[verifier::ext_equal]
pub struct RunModel {
    /// What it has gathered.
    pub gathered: GatheredModel,
    /// Where it stands.
    pub stage: CommandStageModel,
}

/// A run that has failed.
pub open spec fn failed(gathered: GatheredModel, fault: ExecuteFault) -> RunModel {
    RunModel { gathered, stage: CommandStageModel::Ended(Err(fault)) }
}

/// What a command has gathered with one more output target.
pub open spec fn with_target(
    gathered: GatheredModel,
    redirect: RedirectModel,
    path: Seq<Seq<char>>,
) -> GatheredModel {
    match redirect {
        RedirectModel::Input(_) => gathered,
        RedirectModel::OutputTruncate(_) => GatheredModel {
            stdout_target: Some((path, AppendMode::Truncate)),
            ..gathered
        },
        RedirectModel::OutputAppend(_) => GatheredModel {
            stdout_target: Some((path, AppendMode::Append)),
            ..gathered
        },
        RedirectModel::ErrorTruncate(_) => GatheredModel {
            stderr_target: Some((path, AppendMode::Truncate)),
            ..gathered
        },
        RedirectModel::ErrorAppend(_) => GatheredModel {
            stderr_target: Some((path, AppendMode::Append)),
            ..gathered
        },
    }
}

/// The path of a redirection.
pub open spec fn redirect_path(redirect: RedirectModel) -> Seq<char> {
    crate::canonical::redirect_path(redirect)
}

/// The run from the redirection at position `i` on. An input has to be looked
/// up and read, an output to be located; after the last redirection the working
/// directory is looked up.
pub open spec fn from_redirect(
    command: CommandModel,
    session: SessionModel,
    gathered: GatheredModel,
    i: int,
) -> RunModel {
    if i < 0 || i >= command.redirects.len() {
        match terminal_session::target_from(session.cwd, command.cwd) {
            Ok(path) => RunModel { gathered, stage: CommandStageModel::LookUpCwd(path) },
            Err(fault) => failed(gathered, ExecuteFault::Session(fault)),
        }
    } else {
        let redirect = command.redirects[i];
        match terminal_session::target_from(session.cwd, redirect_path(redirect)) {
            Ok(path) => RunModel {
                gathered,
                stage: if redirect is Input {
                    CommandStageModel::LookUpInput(i, path)
                } else {
                    CommandStageModel::LocateOutput(i, path)
                },
            },
            Err(fault) => failed(gathered, ExecuteFault::Session(fault)),
        }
    }
}

/// The first stage of a command.
pub open spec fn command_started(command: CommandModel, session: SessionModel) -> RunModel {
    from_redirect(command, session, nothing_gathered(), 0)
}

/// The event of some output, unless it was redirected or there is none.
pub open spec fn output_event(
    stream: Stream,
    bytes: Seq<u8>,
    target: Option<(Seq<Seq<char>>, AppendMode)>,
) -> Seq<EventModel> {
    if target is None && bytes.len() > 0 {
        seq![EventModel::Output(stream, bytes)]
    } else {
        Seq::empty()
    }
}

/// The write of some output, if it was redirected.
pub open spec fn output_write(
    bytes: Seq<u8>,
    target: Option<(Seq<Seq<char>>, AppendMode)>,
) -> Seq<ActionModel> {
    match target {
        Some((path, mode)) => seq![ActionModel::WriteFile(path, mode, bytes)],
        None => Seq::empty(),
    }
}

/// The exit code that is reported for a command: its own, or 1 where it failed
/// before it reached one.
pub open spec fn reported(code: Option<i32>) -> i32 {
    match code {
        Some(code) => code,
        None => 1,
    }
}

/// The status of a command that ran: it exited if it reached an exit code,
/// whatever the code, and else it failed.
pub open spec fn status_of(code: Option<i32>) -> PlanStatus {
    match code {
        Some(_) => PlanStatus::Exited,
        None => PlanStatus::Failed,
    }
}

/// The run of a command whose program ran to its end, with the exit code that
/// it reached, if it did: its redirected output is written, the rest becomes
/// events. `streamed` output has become events already.
pub open spec fn exited(
    gathered: GatheredModel,
    stdout: Seq<u8>,
    stderr: Seq<u8>,
    code: Option<i32>,
    effect: EffectModel,
    streamed: bool,
) -> RunModel {
    let shown = if streamed {
        Seq::empty()
    } else {
        output_event(Stream::Stdout, stdout, gathered.stdout_target) + output_event(
            Stream::Stderr,
            stderr,
            gathered.stderr_target,
        )
    };
    let end = EndModel {
        events: shown.push(EventModel::Exited(Some(reported(code)))),
        outcome: OutcomeModel {
            status: status_of(code),
            exit_code: Some(reported(code)),
            effects: seq![effect],
        },
    };
    let writes = output_write(stdout, gathered.stdout_target) + output_write(
        stderr,
        gathered.stderr_target,
    );
    RunModel {
        gathered,
        stage: if writes.len() == 0 {
            CommandStageModel::Ended(Ok(end))
        } else {
            CommandStageModel::Write(writes, end)
        },
    }
}

/// The run of a command whose program was stopped.
pub open spec fn stopped(
    gathered: GatheredModel,
    event: EventModel,
    status: PlanStatus,
    code: Option<i32>,
    effect: EffectModel,
) -> RunModel {
    RunModel {
        gathered,
        stage: CommandStageModel::Ended(
            Ok(
                EndModel {
                    events: seq![event],
                    outcome: OutcomeModel { status, exit_code: code, effects: seq![effect] },
                },
            ),
        ),
    }
}

/// The effect of a builtin.
pub open spec fn builtin_effect(builtin: BuiltinModel) -> EffectModel {
    EffectModel { kind: "builtin", target: builtin_record(builtin), approved: false }
}

/// The effect of a native program, which runs only when it was approved.
pub open spec fn native_effect(program: Seq<char>) -> EffectModel {
    EffectModel { kind: "native", target: program, approved: true }
}

/// The effect of a WASI component.
pub open spec fn wasi_effect(path: Seq<char>) -> EffectModel {
    EffectModel { kind: "wasi", target: path, approved: false }
}

/// The run of a command whose builtin has come to a stage.
pub open spec fn with_builtin(
    gathered: GatheredModel,
    builtin: BuiltinModel,
    stage: BuiltinStageModel,
) -> RunModel {
    match stage {
        BuiltinStageModel::Ended(result) => exited(
            gathered,
            result.stdout,
            result.stderr,
            Some(result.exit_code),
            builtin_effect(builtin),
            false,
        ),
        waiting => RunModel { gathered, stage: CommandStageModel::Builtin(waiting) },
    }
}

/// Whether a builtin takes the redirected input as its output.
pub open spec fn takes_input(builtin: BuiltinModel, gathered: GatheredModel) -> bool {
    builtin is Cat && gathered.stdin is Some
}

/// The request of an external program: the session's grant, with native
/// execution, which the authority has yet to allow.
pub open spec fn native_request(
    command: CommandModel,
    program: Seq<char>,
    session: SessionModel,
    cwd: Seq<Seq<char>>,
) -> RequestModel {
    RequestModel {
        id: session.spec.id,
        actor: session.spec.actor,
        mode: ExecutionMode::Native,
        program,
        args: command.args,
        cwd,
        grant: GrantModel { native: true, ..session.spec.grant },
    }
}

/// The request of a WASI component, under the session's own grant.
pub open spec fn wasi_request(
    command: CommandModel,
    path: Seq<char>,
    session: SessionModel,
    cwd: Seq<Seq<char>>,
) -> RequestModel {
    RequestModel {
        id: session.spec.id,
        actor: session.spec.actor,
        mode: ExecutionMode::Wasi,
        program: path,
        args: command.args,
        cwd,
        grant: session.spec.grant,
    }
}

/// The run of a command that has been resolved.
pub open spec fn resolved(
    command: CommandModel,
    session: SessionModel,
    gathered: GatheredModel,
    cwd: Seq<Seq<char>>,
) -> RunModel {
    let gathered = GatheredModel { cwd: Some(cwd), ..gathered };
    match command.program {
        ProgramModel::Builtin(builtin) => if takes_input(builtin, gathered) {
            with_builtin(
                gathered,
                builtin,
                BuiltinStageModel::Ended(builtin::output(gathered.stdin->0)),
            )
        } else {
            with_builtin(gathered, builtin, builtin_run::started(builtin, session))
        },
        ProgramModel::External(program) => {
            let request = native_request(command, program, session, cwd);
            match command::request_fault(request) {
                Some(fault) => failed(gathered, ExecuteFault::Command(fault)),
                None => RunModel { gathered, stage: CommandStageModel::Authorize(request) },
            }
        },
        ProgramModel::WasiComponent(path) => if shell_ir::path_fault(path) is Some {
            failed(gathered, ExecuteFault::InvalidPlan("invalid WASI component path"))
        } else {
            match terminal_session::target_from(session.cwd, path) {
                Ok(target) => RunModel {
                    gathered,
                    stage: CommandStageModel::LookUpComponent(target),
                },
                Err(fault) => failed(gathered, ExecuteFault::Session(fault)),
            }
        },
        ProgramModel::NativeShell(_) => failed(
            gathered,
            ExecuteFault::InvalidPlan("native shell escape requires an explicit elevation path"),
        ),
    }
}

/// The session after a command has been resolved.
pub open spec fn session_resolved(
    command: CommandModel,
    session: SessionModel,
    gathered: GatheredModel,
) -> SessionModel {
    match command.program {
        ProgramModel::Builtin(builtin) => if takes_input(builtin, gathered) {
            session
        } else {
            builtin_run::session_started(builtin, session)
        },
        _ => session,
    }
}

/// The exit code of a native process: what does not fit into a signed code
/// counts as 1.
pub open spec fn native_code(code: u32) -> i32 {
    if code <= i32::MAX {
        code as i32
    } else {
        1
    }
}

/// The run of a command whose native process came out.
pub open spec fn with_native(
    gathered: GatheredModel,
    program: Seq<char>,
    reply: NativeReplyModel,
) -> RunModel {
    let effect = native_effect(program);
    match reply {
        NativeReplyModel::NotSpawned(fault) => failed(gathered, ExecuteFault::Native(fault)),
        NativeReplyModel::Panicked => failed(
            gathered,
            ExecuteFault::InvalidPlan("native runner panicked"),
        ),
        NativeReplyModel::Exited(stdout, stderr, code) => exited(
            gathered,
            stdout,
            stderr,
            Some(native_code(code)),
            effect,
            false,
        ),
        NativeReplyModel::Stopped(NativeFault::Cancelled) => stopped(
            gathered,
            EventModel::Cancelled,
            PlanStatus::Cancelled,
            None,
            effect,
        ),
        NativeReplyModel::Stopped(NativeFault::OutputLimit) => stopped(
            gathered,
            EventModel::Denied,
            PlanStatus::Failed,
            Some(1i32),
            effect,
        ),
        NativeReplyModel::Stopped(_) => stopped(
            gathered,
            EventModel::Unsupported,
            PlanStatus::Failed,
            Some(1i32),
            effect,
        ),
    }
}

/// The run of a command whose WASI component came out. Its output has been
/// streamed while it ran.
pub open spec fn with_component(
    gathered: GatheredModel,
    path: Seq<char>,
    reply: ComponentReplyModel,
) -> RunModel {
    let effect = wasi_effect(path);
    match reply {
        ComponentReplyModel::Panicked => failed(
            gathered,
            ExecuteFault::InvalidPlan("WASI runner panicked"),
        ),
        ComponentReplyModel::Cancelled => stopped(
            gathered,
            EventModel::Cancelled,
            PlanStatus::Cancelled,
            None,
            effect,
        ),
        ComponentReplyModel::Ran(stdout, stderr, code) => exited(
            gathered,
            stdout,
            stderr,
            code,
            effect,
            true,
        ),
    }
}

/// The run after an answer. An answer of another kind than was asked for ends
/// the command.
pub open spec fn answered(
    command: CommandModel,
    session: SessionModel,
    run: RunModel,
    reply: CommandReplyModel,
) -> RunModel {
    let gathered = run.gathered;
    match (run.stage, reply) {
        (
            CommandStageModel::LookUpInput(i, _),
            CommandReplyModel::Host(HostReplyModel::Facts(facts)),
        ) => match session.existing(redirect_path(command.redirects[i]), facts) {
            Ok(path) => RunModel { gathered, stage: CommandStageModel::ReadInput(i, path) },
            Err(fault) => failed(gathered, ExecuteFault::Session(fault)),
        },
        (
            CommandStageModel::ReadInput(i, _),
            CommandReplyModel::Host(HostReplyModel::Fs(ReplyModel::Bytes(read))),
        ) => match read {
            Ok(bytes) => from_redirect(
                command,
                session,
                GatheredModel { stdin: Some(bytes), ..gathered },
                i + 1,
            ),
            Err(error) => failed(gathered, ExecuteFault::Io(error)),
        },
        (
            CommandStageModel::LocateOutput(i, _),
            CommandReplyModel::Host(HostReplyModel::Landing(landing)),
        ) => {
            let redirect = command.redirects[i];
            match session.output_path(redirect_path(redirect), landing) {
                Ok(target) => from_redirect(
                    command,
                    session,
                    with_target(gathered, redirect, target),
                    i + 1,
                ),
                Err(fault) => failed(gathered, ExecuteFault::Session(fault)),
            }
        },
        (
            CommandStageModel::LookUpCwd(_),
            CommandReplyModel::Host(HostReplyModel::Facts(facts)),
        ) => match session.existing(command.cwd, facts) {
            Ok(cwd) => resolved(command, session, gathered, cwd),
            Err(fault) => failed(gathered, ExecuteFault::Session(fault)),
        },
        (CommandStageModel::Builtin(stage), CommandReplyModel::Host(reply)) => with_builtin(
            gathered,
            command.program->Builtin_0,
            builtin_run::advanced(stage, command.program->Builtin_0, session, reply),
        ),
        (CommandStageModel::Authorize(request), CommandReplyModel::Verdict(verdict)) => {
            match verdict {
                Ok(_) => RunModel { gathered, stage: CommandStageModel::RunNative(request) },
                Err(fault) => failed(gathered, fault),
            }
        },
        (CommandStageModel::RunNative(request), CommandReplyModel::Native(reply)) => with_native(
            gathered,
            request.program,
            reply,
        ),
        (
            CommandStageModel::LookUpComponent(_),
            CommandReplyModel::Host(HostReplyModel::Facts(facts)),
        ) => match session.existing(command.program->WasiComponent_0, facts) {
            Ok(path) => RunModel { gathered, stage: CommandStageModel::ReadComponent(path) },
            Err(fault) => failed(gathered, ExecuteFault::Session(fault)),
        },
        (
            CommandStageModel::ReadComponent(_),
            CommandReplyModel::Host(HostReplyModel::Fs(ReplyModel::Bytes(read))),
        ) => match read {
            Ok(bytes) => RunModel { gathered, stage: CommandStageModel::CompileComponent(bytes) },
            Err(error) => failed(gathered, ExecuteFault::Io(error)),
        },
        (CommandStageModel::CompileComponent(_), CommandReplyModel::Compiled(compiled)) => {
            match compiled {
                Ok(_) => {
                    let request = wasi_request(
                        command,
                        command.program->WasiComponent_0,
                        session,
                        gathered.cwd->0,
                    );
                    match command::request_fault(request) {
                        Some(fault) => failed(gathered, ExecuteFault::Command(fault)),
                        None => RunModel {
                            gathered,
                            stage: CommandStageModel::RunComponent(request),
                        },
                    }
                },
                Err(reason) => failed(gathered, ExecuteFault::Wasi(reason)),
            }
        },
        (CommandStageModel::RunComponent(request), CommandReplyModel::Component(reply)) => {
            with_component(gathered, request.program, reply)
        },
        (
            CommandStageModel::Write(writes, end),
            CommandReplyModel::Host(HostReplyModel::Fs(ReplyModel::Done(done))),
        ) => match done {
            Ok(_) => RunModel {
                gathered,
                stage: if writes.len() <= 1 {
                    CommandStageModel::Ended(Ok(end))
                } else {
                    CommandStageModel::Write(writes.skip(1), end)
                },
            },
            Err(error) => failed(gathered, ExecuteFault::Io(error)),
        },
        (CommandStageModel::Ended(end), _) => run,
        _ => failed(gathered, ExecuteFault::InvalidPlan("unexpected host reply")),
    }
}

/// The session after an answer: only a builtin changes it.
pub open spec fn session_answered(
    command: CommandModel,
    session: SessionModel,
    run: RunModel,
    reply: CommandReplyModel,
) -> SessionModel {
    match (run.stage, reply) {
        (
            CommandStageModel::LookUpCwd(_),
            CommandReplyModel::Host(HostReplyModel::Facts(facts)),
        ) => if session.existing(command.cwd, facts) is Ok {
            session_resolved(command, session, run.gathered)
        } else {
            session
        },
        (CommandStageModel::Builtin(stage), CommandReplyModel::Host(reply)) => {
            builtin_run::session_advanced(stage, command.program->Builtin_0, session, reply)
        },
        _ => session,
    }
}

/// A run of one command.
#[derive(Debug)]
pub struct CommandRun {
    command: CommandSpec,
    gathered: Gathered,
    stage: CommandStage,
}

/// What a command has gathered while it was resolved.
#[derive(Debug)]
struct Gathered {
    stdin: Option<Vec<u8>>,
    stdout_target: Option<Target>,
    stderr_target: Option<Target>,
    cwd: Option<HostPath>,
}

impl View for Gathered {
    type V = GatheredModel;

    closed spec fn view(&self) -> GatheredModel {
        GatheredModel {
            stdin: match self.stdin {
                Some(bytes) => Some(bytes@),
                None => None,
            },
            stdout_target: target_model(self.stdout_target),
            stderr_target: target_model(self.stderr_target),
            cwd: match self.cwd {
                Some(path) => Some(path@),
                None => None,
            },
        }
    }
}

impl View for CommandRun {
    type V = RunModel;

    closed spec fn view(&self) -> RunModel {
        RunModel { gathered: self.gathered@, stage: self.stage@ }
    }
}

/// Whether a run can be one of a command.
pub open spec fn fits_command(run: RunModel, command: CommandModel) -> bool {
    match run.stage {
        CommandStageModel::LookUpInput(i, _) | CommandStageModel::ReadInput(i, _) => 0 <= i
            < command.redirects.len() && command.redirects[i] is Input,
        CommandStageModel::LocateOutput(i, _) => 0 <= i < command.redirects.len()
            && !(command.redirects[i] is Input),
        CommandStageModel::Builtin(_) => command.program is Builtin,
        CommandStageModel::LookUpComponent(_)
        | CommandStageModel::ReadComponent(_)
        | CommandStageModel::CompileComponent(_) => {
            &&& command.program matches ProgramModel::WasiComponent(path)
            &&& shell_ir::path_fault(path) is None
            &&& run.gathered.cwd is Some
        },
        _ => true,
    }
}

/// The path of a redirection.
fn path_of(redirect: &Redirect) -> (r: &SessionPath)
    ensures
        r@ == redirect_path(redirect@),
{
    match redirect {
        Redirect::Input(path) => path,
        Redirect::OutputTruncate(path) => path,
        Redirect::OutputAppend(path) => path,
        Redirect::ErrorTruncate(path) => path,
        Redirect::ErrorAppend(path) => path,
    }
}

/// Go on with the redirection at position `i`, or with the working directory.
fn go_on(command: &CommandSpec, session: &TerminalSession, gathered: Gathered, i: usize) -> (r: (
    Gathered,
    CommandStage,
))
    requires
        i <= command.redirects.len(),
    ensures
        from_redirect(command@, session@, gathered@, i as int) == (RunModel {
            gathered: r.0@,
            stage: r.1@,
        }),
        fits_command(RunModel { gathered: r.0@, stage: r.1@ }, command@),
{
    if i == command.redirects.len() {
        return match session.target_of(&command.cwd) {
            Ok(path) => (gathered, CommandStage::LookUpCwd(path)),
            Err(error) => (gathered, CommandStage::Ended(Err(ExecuteError::Session(error)))),
        };
    }
    let redirect = &command.redirects[i];
    assert(command@.redirects[i as int] == redirect@);
    let stage = match session.target_of(path_of(redirect)) {
        Ok(path) => match redirect {
            Redirect::Input(_) => CommandStage::LookUpInput { index: i, path },
            _ => CommandStage::LocateOutput { index: i, path },
        },
        Err(error) => CommandStage::Ended(Err(ExecuteError::Session(error))),
    };
    (gathered, stage)
}

/// What a command has gathered with one more output target.
fn add_target(gathered: Gathered, redirect: &Redirect, path: HostPath) -> (r: Gathered)
    ensures
        r@ == with_target(gathered@, redirect@, path@),
{
    let mut gathered = gathered;
    match redirect {
        Redirect::Input(_) => {},
        Redirect::OutputTruncate(_) => {
            gathered.stdout_target = Some(Target { path, mode: AppendMode::Truncate });
        },
        Redirect::OutputAppend(_) => {
            gathered.stdout_target = Some(Target { path, mode: AppendMode::Append });
        },
        Redirect::ErrorTruncate(_) => {
            gathered.stderr_target = Some(Target { path, mode: AppendMode::Truncate });
        },
        Redirect::ErrorAppend(_) => {
            gathered.stderr_target = Some(Target { path, mode: AppendMode::Append });
        },
    }
    gathered
}

/// The stage of a command whose program has exited.
fn finish_exited(
    gathered: &Gathered,
    stdout: Vec<u8>,
    stderr: Vec<u8>,
    code: Option<i32>,
    effect: EffectRecord,
    streamed: bool,
) -> (r: CommandStage)
    ensures
        exited(gathered@, stdout@, stderr@, code, effect@, streamed) == (RunModel {
            gathered: gathered@,
            stage: r@,
        }),
{
    let ghost model = gathered@;
    let ghost out = stdout@;
    let ghost err = stderr@;
    let mut writes: Vec<FsAction> = Vec::new();
    let mut events: Vec<SessionEvent> = Vec::new();
    assert(action_models(writes@) =~= Seq::empty());
    assert(command::event_models(events@) =~= Seq::empty());
    match &gathered.stdout_target {
        Some(target) => {
            writes.push(
                FsAction::WriteFile { path: target.path.clone(), mode: target.mode, bytes: stdout },
            );
        },
        None => {
            if !streamed && stdout.len() > 0 {
                events.push(SessionEvent::Output { stream: Stream::Stdout, bytes: stdout });
            }
        },
    }
    assert(action_models(writes@) =~= output_write(out, model.stdout_target));
    assert(!streamed ==> command::event_models(events@) =~= output_event(
        Stream::Stdout,
        out,
        model.stdout_target,
    ));
    let ghost first_writes = action_models(writes@);
    let ghost first_events = command::event_models(events@);
    match &gathered.stderr_target {
        Some(target) => {
            writes.push(
                FsAction::WriteFile { path: target.path.clone(), mode: target.mode, bytes: stderr },
            );
        },
        None => {
            if !streamed && stderr.len() > 0 {
                events.push(SessionEvent::Output { stream: Stream::Stderr, bytes: stderr });
            }
        },
    }
    assert(action_models(writes@) =~= first_writes + output_write(err, model.stderr_target));
    assert(!streamed ==> command::event_models(events@) =~= first_events + output_event(
        Stream::Stderr,
        err,
        model.stderr_target,
    ));
    let ghost shown = command::event_models(events@);
    let (status, shown_code): (PlanStatus, i32) = match code {
        Some(code) => (PlanStatus::Exited, code),
        None => (PlanStatus::Failed, 1),
    };
    events.push(SessionEvent::Exited { code: Some(shown_code) });
    assert(command::event_models(events@) =~= shown.push(EventModel::Exited(Some(shown_code))));
    let mut effects: Vec<EffectRecord> = Vec::new();
    effects.push(effect);
    assert(shell_executor::effect_models(effects@) =~= seq![effect@]);
    let end = CommandEnd {
        events,
        outcome: Outcome { status, exit_code: Some(shown_code), effects },
    };
    if writes.len() == 0 {
        CommandStage::Ended(Ok(end))
    } else {
        CommandStage::Write { writes, end }
    }
}

/// The stage of a command whose program was stopped.
fn finish_stopped(
    event: SessionEvent,
    status: PlanStatus,
    code: Option<i32>,
    effect: EffectRecord,
) -> (r: CommandStage)
    ensures
        forall|gathered: GatheredModel|
            #[trigger] stopped(gathered, event@, status, code, effect@) == (RunModel {
                gathered,
                stage: r@,
            }),
{
    let mut events: Vec<SessionEvent> = Vec::new();
    events.push(event);
    let mut effects: Vec<EffectRecord> = Vec::new();
    effects.push(effect);
    assert(command::event_models(events@) =~= seq![event@]);
    assert(shell_executor::effect_models(effects@) =~= seq![effect@]);
    CommandStage::Ended(
        Ok(CommandEnd { events, outcome: Outcome { status, exit_code: code, effects } }),
    )
}

/// The stage of a command whose builtin has come to a stage.
fn finish_builtin(gathered: &Gathered, builtin: &Builtin, stage: BuiltinStage) -> (r: CommandStage)
    ensures
        with_builtin(gathered@, builtin@, stage@) == (RunModel {
            gathered: gathered@,
            stage: r@,
        }),
        r@ is Builtin || r@ is Ended || r@ is Write,
{
    match stage {
        BuiltinStage::Ended(result) => finish_exited(
            gathered,
            result.stdout,
            result.stderr,
            Some(result.exit_code),
            EffectRecord { kind: "builtin", target: record_builtin(builtin), approved: false },
            false,
        ),
        waiting => CommandStage::Builtin(waiting),
    }
}

/// The stage of a command whose native process came out.
fn finish_native(gathered: &Gathered, program: &String, reply: NativeReply) -> (r: CommandStage)
    ensures
        with_native(gathered@, program@, reply@) == (RunModel {
            gathered: gathered@,
            stage: r@,
        }),
        r@ is Ended || r@ is Write,
{
    let effect = EffectRecord { kind: "native", target: program.clone(), approved: true };
    match reply {
        NativeReply::NotSpawned(error) => CommandStage::Ended(Err(ExecuteError::Native(error))),
        NativeReply::Panicked => CommandStage::Ended(
            Err(ExecuteError::InvalidPlan("native runner panicked")),
        ),
        NativeReply::Ran(Ok(output)) => {
            let code: i32 = native_exit_code(output.exit_code);
            finish_exited(gathered, output.stdout, output.stderr, Some(code), effect, false)
        },
        NativeReply::Ran(Err(NativeError::Cancelled)) => finish_stopped(
            SessionEvent::Cancelled,
            PlanStatus::Cancelled,
            None,
            effect,
        ),
        NativeReply::Ran(Err(NativeError::OutputLimit)) => finish_stopped(
            SessionEvent::Denied,
            PlanStatus::Failed,
            Some(1),
            effect,
        ),
        NativeReply::Ran(Err(_)) => finish_stopped(
            SessionEvent::Unsupported,
            PlanStatus::Failed,
            Some(1),
            effect,
        ),
    }
}

/// The exit code of a native process: what does not fit into a signed code
/// counts as 1.
pub fn native_exit_code(code: u32) -> (r: i32)
    ensures
        r == native_code(code),
{
    if code <= 0x7fff_ffff {
        code as i32
    } else {
        1
    }
}

/// The stage of a command whose WASI component came out.
fn finish_component(gathered: &Gathered, path: &String, reply: ComponentReply) -> (r: CommandStage)
    ensures
        with_component(gathered@, path@, reply@) == (RunModel {
            gathered: gathered@,
            stage: r@,
        }),
        r@ is Ended || r@ is Write,
{
    let effect = EffectRecord { kind: "wasi", target: path.clone(), approved: false };
    match reply {
        ComponentReply::Panicked => CommandStage::Ended(
            Err(ExecuteError::InvalidPlan("WASI runner panicked")),
        ),
        ComponentReply::Cancelled => finish_stopped(
            SessionEvent::Cancelled,
            PlanStatus::Cancelled,
            None,
            effect,
        ),
        ComponentReply::Ran { stdout, stderr, exit_code } => finish_exited(
            gathered,
            stdout,
            stderr,
            exit_code,
            effect,
            true,
        ),
    }
}

impl CommandRun {
    /// The command that is run.
    pub closed spec fn subject(&self) -> CommandModel {
        self.command@
    }

    #[verifier::type_invariant]
    spec fn consistent(&self) -> bool {
        fits_command(self@, self.command@)
    }

    /// Start a command of a session.
    pub fn start(command: &CommandSpec, session: &TerminalSession) -> (r: Self)
        ensures
            r@ == command_started(command@, session@),
            r.subject() == command@,
    {
        let nothing = Gathered {
            stdin: None,
            stdout_target: None,
            stderr_target: None,
            cwd: None,
        };
        let command = command.clone();
        let (gathered, stage) = go_on(&command, session, nothing, 0);
        CommandRun { command, gathered, stage }
    }

    /// What the command waits for, or how it ended.
    pub fn stage(&self) -> (r: &CommandStage)
        ensures
            r@ == self@.stage,
    {
        &self.stage
    }

    /// How the command ended, once it has.
    pub fn into_stage(self) -> (r: CommandStage)
        ensures
            r@ == self@.stage,
    {
        self.stage
    }

    /// The redirections of the command, once they have been resolved and before
    /// anything else was.
    ///
    /// # Errors
    ///
    /// Returns what ended the command, if something did.
    pub fn into_redirections(self) -> (r: Result<Redirections, ExecuteError>)
        ensures
            match self@.stage {
                CommandStageModel::LookUpCwd(_) => r is Ok && r->Ok_0@ == redirections_of(
                    self@.gathered,
                ),
                CommandStageModel::Ended(Err(fault)) => r is Err && r->Err_0@ == fault,
                _ => r is Err && r->Err_0@ == ExecuteFault::InvalidPlan(
                    "redirections are not resolved",
                ),
            },
    {
        match self.stage {
            CommandStage::LookUpCwd(_) => Ok(
                Redirections {
                    stdin: self.gathered.stdin,
                    stdout: self.gathered.stdout_target,
                    stderr: self.gathered.stderr_target,
                },
            ),
            CommandStage::Ended(Err(error)) => Err(error),
            _ => Err(ExecuteError::InvalidPlan("redirections are not resolved")),
        }
    }

    /// Whether what a WASI component prints to a stream is to be streamed as
    /// an event: what is redirected is not.
    pub fn streams(&self, stream: Stream) -> (r: bool)
        ensures
            r == match stream {
                Stream::Stdout => self@.gathered.stdout_target is None,
                Stream::Stderr => self@.gathered.stderr_target is None,
            },
    {
        match stream {
            Stream::Stdout => self.gathered.stdout_target.is_none(),
            Stream::Stderr => self.gathered.stderr_target.is_none(),
        }
    }

    /// Go on with the command once it has been answered.
    #[verifier::rlimit(40)]
    #[verifier::spinoff_prover]
    pub fn answer(self, session: &mut TerminalSession, reply: CommandReply) -> (r: Self)
        ensures
            r@ == answered(self.subject(), old(session)@, self@, reply@),
            final(session)@ == session_answered(self.subject(), old(session)@, self@, reply@),
            r.subject() == self.subject(),
    {
        proof {
            use_type_invariant(&self);
        }
        let command = self.command;
        let gathered = self.gathered;
        match (self.stage, reply) {
            (
                CommandStage::LookUpInput { index, path: _ },
                CommandReply::Host(HostReply::Facts(facts)),
            ) => {
                assert(command@.redirects[index as int] == command.redirects@[index as int]@);
                let stage = match &command.redirects[index] {
                    Redirect::Input(path) => match session.resolve_path(path, &facts) {
                        Ok(path) => CommandStage::ReadInput { index, path },
                        Err(error) => CommandStage::Ended(Err(ExecuteError::Session(error))),
                    },
                    _ => CommandStage::Ended(
                        Err(ExecuteError::InvalidPlan("unexpected host reply")),
                    ),
                };
                CommandRun { command, gathered, stage }
            },
            (
                CommandStage::ReadInput { index, path: _ },
                CommandReply::Host(HostReply::Fs(FsReply::Bytes(read))),
            ) => match read {
                Ok(bytes) => {
                    let ghost before = gathered@;
                    let mut gathered = gathered;
                    gathered.stdin = Some(bytes);
                    assert(gathered@ == (GatheredModel { stdin: Some(bytes@), ..before }));
                    let count = command.redirects.len();
                    assert(index < count);
                    let (gathered, stage) = go_on(&command, session, gathered, index + 1);
                    CommandRun { command, gathered, stage }
                },
                Err(error) => CommandRun {
                    command,
                    gathered,
                    stage: CommandStage::Ended(Err(ExecuteError::Io(error))),
                },
            },
            (
                CommandStage::LocateOutput { index, path: _ },
                CommandReply::Host(HostReply::Landing(landing)),
            ) => {
                let ghost before = gathered@;
                let redirect = &command.redirects[index];
                assert(command@.redirects[index as int] == redirect@);
                match session.resolve_output_path(path_of(redirect), &landing) {
                    Ok(path) => {
                        let gathered = add_target(gathered, redirect, path);
                        assert(gathered@ == with_target(before, redirect@, path@));
                        let count = command.redirects.len();
                        assert(index < count);
                        let (gathered, stage) = go_on(&command, session, gathered, index + 1);
                        CommandRun { command, gathered, stage }
                    },
                    Err(error) => CommandRun {
                        command,
                        gathered,
                        stage: CommandStage::Ended(Err(ExecuteError::Session(error))),
                    },
                }
            },
            (CommandStage::LookUpCwd(_), CommandReply::Host(HostReply::Facts(facts))) => {
                match session.resolve_path(&command.cwd, &facts) {
                    Ok(cwd) => Self::run_program(command, gathered, cwd, session),
                    Err(error) => CommandRun {
                        command,
                        gathered,
                        stage: CommandStage::Ended(Err(ExecuteError::Session(error))),
                    },
                }
            },
            (CommandStage::Builtin(stage), CommandReply::Host(reply)) => {
                let stage = match &command.program {
                    Program::Builtin(builtin) => {
                        let stage = builtin_run::advance_builtin(stage, builtin, session, reply);
                        finish_builtin(&gathered, builtin, stage)
                    },
                    _ => CommandStage::Ended(
                        Err(ExecuteError::InvalidPlan("unexpected host reply")),
                    ),
                };
                CommandRun { command, gathered, stage }
            },
            (CommandStage::Authorize(request), CommandReply::Verdict(verdict)) => match verdict {
                Ok(()) => CommandRun {
                    command,
                    gathered,
                    stage: CommandStage::RunNative(request),
                },
                Err(error) => CommandRun {
                    command,
                    gathered,
                    stage: CommandStage::Ended(Err(error)),
                },
            },
            (CommandStage::RunNative(request), CommandReply::Native(reply)) => {
                let stage = finish_native(&gathered, &request.program, reply);
                CommandRun { command, gathered, stage }
            },
            (CommandStage::LookUpComponent(_), CommandReply::Host(HostReply::Facts(facts))) => {
                let stage = match &command.program {
                    Program::WasiComponent(path) => match SessionPath::new(path.as_str()) {
                        Ok(path) => match session.resolve_path(&path, &facts) {
                            Ok(path) => CommandStage::ReadComponent(path),
                            Err(error) => CommandStage::Ended(Err(ExecuteError::Session(error))),
                        },
                        Err(_) => CommandStage::Ended(
                            Err(ExecuteError::InvalidPlan("invalid WASI component path")),
                        ),
                    },
                    _ => CommandStage::Ended(
                        Err(ExecuteError::InvalidPlan("unexpected host reply")),
                    ),
                };
                CommandRun { command, gathered, stage }
            },
            (
                CommandStage::ReadComponent(_),
                CommandReply::Host(HostReply::Fs(FsReply::Bytes(read))),
            ) => match read {
                Ok(bytes) => CommandRun {
                    command,
                    gathered,
                    stage: CommandStage::CompileComponent(bytes),
                },
                Err(error) => CommandRun {
                    command,
                    gathered,
                    stage: CommandStage::Ended(Err(ExecuteError::Io(error))),
                },
            },
            (CommandStage::CompileComponent(_), CommandReply::Compiled(compiled)) => {
                let stage = match (compiled, &command.program, &gathered.cwd) {
                    (Ok(()), Program::WasiComponent(path), Some(cwd)) => match CommandRequest::new(
                        session.id(),
                        session.actor(),
                        ExecutionMode::Wasi,
                        path.as_str(),
                        text::copy_texts(&command.args),
                        cwd.clone(),
                        session.base_grant().clone(),
                    ) {
                        Ok(request) => CommandStage::RunComponent(request),
                        Err(error) => CommandStage::Ended(Err(ExecuteError::Command(error))),
                    },
                    (Err(reason), _, _) => CommandStage::Ended(Err(ExecuteError::Wasi(reason))),
                    _ => CommandStage::Ended(
                        Err(ExecuteError::InvalidPlan("unexpected host reply")),
                    ),
                };
                CommandRun { command, gathered, stage }
            },
            (CommandStage::RunComponent(request), CommandReply::Component(reply)) => {
                let stage = finish_component(&gathered, &request.program, reply);
                CommandRun { command, gathered, stage }
            },
            (
                CommandStage::Write { writes, end },
                CommandReply::Host(HostReply::Fs(FsReply::Done(done))),
            ) => match done {
                Ok(()) => {
                    let stage = if writes.len() <= 1 {
                        CommandStage::Ended(Ok(end))
                    } else {
                        let mut writes = writes;
                        let ghost before = action_models(writes@);
                        writes.remove(0);
                        assert(action_models(writes@) =~= before.skip(1));
                        CommandStage::Write { writes, end }
                    };
                    CommandRun { command, gathered, stage }
                },
                Err(error) => CommandRun {
                    command,
                    gathered,
                    stage: CommandStage::Ended(Err(ExecuteError::Io(error))),
                },
            },
            (CommandStage::Ended(end), _) => CommandRun {
                command,
                gathered,
                stage: CommandStage::Ended(end),
            },
            _ => CommandRun {
                command,
                gathered,
                stage: CommandStage::Ended(
                    Err(ExecuteError::InvalidPlan("unexpected host reply")),
                ),
            },
        }
    }

    /// Run the program of a command that has been resolved.
    fn run_program(
        command: CommandSpec,
        gathered: Gathered,
        cwd: HostPath,
        session: &mut TerminalSession,
    ) -> (r: Self)
        ensures
            r@ == resolved(command@, old(session)@, gathered@, cwd@),
            final(session)@ == session_resolved(command@, old(session)@, gathered@),
            r.subject() == command@,
    {
        let ghost before = gathered@;
        let mut gathered = gathered;
        gathered.cwd = Some(cwd.clone());
        assert(gathered@ == (GatheredModel { cwd: Some(cwd@), ..before }));
        let stage = match &command.program {
            Program::Builtin(builtin) => {
                let is_cat = match builtin {
                    Builtin::Cat(_) => true,
                    _ => false,
                };
                let input: Option<Vec<u8>> = if is_cat {
                    copy_bytes(&gathered.stdin)
                } else {
                    None
                };
                match input {
                    Some(bytes) => finish_builtin(
                        &gathered,
                        builtin,
                        BuiltinStage::Ended(BuiltinResult::with_stdout(bytes)),
                    ),
                    None => {
                        let stage = builtin_run::start_builtin(builtin, session);
                        finish_builtin(&gathered, builtin, stage)
                    },
                }
            },
            Program::External(program) => match CommandRequest::new(
                session.id(),
                session.actor(),
                ExecutionMode::Native,
                program.as_str(),
                text::copy_texts(&command.args),
                cwd,
                session.base_grant().clone().allow_native_execution(),
            ) {
                Ok(request) => CommandStage::Authorize(request),
                Err(error) => CommandStage::Ended(Err(ExecuteError::Command(error))),
            },
            Program::WasiComponent(path) => match SessionPath::new(path.as_str()) {
                Ok(path) => match session.target_of(&path) {
                    Ok(target) => CommandStage::LookUpComponent(target),
                    Err(error) => CommandStage::Ended(Err(ExecuteError::Session(error))),
                },
                Err(_) => CommandStage::Ended(
                    Err(ExecuteError::InvalidPlan("invalid WASI component path")),
                ),
            },
            Program::NativeShell(_) => CommandStage::Ended(
                Err(
                    ExecuteError::InvalidPlan(
                        "native shell escape requires an explicit elevation path",
                    ),
                ),
            ),
        };
        CommandRun { command, gathered, stage }
    }
}

/// A copy of some bytes, if there are any.
fn copy_bytes(bytes: &Option<Vec<u8>>) -> (r: Option<Vec<u8>>)
    ensures
        match bytes {
            Some(bytes) => r is Some && r->0@ == bytes@,
            None => r is None,
        },
{
    match bytes {
        Some(bytes) => Some(bytes.clone()),
        None => None,
    }
}

} // verus!
