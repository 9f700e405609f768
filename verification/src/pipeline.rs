//! Pipelines: what each stage runs as, what it hands on, and how the whole
//! comes out.
//!
//! Stages run side by side over bounded channels, each with its own
//! redirections. A builtin stage works on a copy of the session, an external
//! stage in the session's working directory once the authority has allowed it,
//! and the output of the last stage is what the pipeline shows.

use vstd::prelude::*;
use crate::builtin::BuiltinResult;
use crate::capability::GrantModel;
use crate::command;
use crate::command::{
    CommandRequest,
    EventModel,
    ExecutionMode,
    RequestModel,
    SessionEvent,
    Stream,
};
use crate::command_run;
use crate::command_run::{
    CommandEnd,
    CommandRun,
    EndModel,
    NativeReply,
    NativeReplyModel,
    Redirections,
    RedirectionsModel,
};
use crate::host_action::{ActionModel, FsAction, FsReply, ReplyModel};
use crate::host_path::HostPath;
use crate::shell_executor;
use crate::shell_executor::{
    ApprovalAuthorityView,
    EffectRecord,
    ExecuteError,
    ExecuteFault,
    Outcome,
    OutcomeModel,
    PipelinePolicy,
    PlanStatus,
};
use crate::shell_ir;
use crate::shell_ir::{Builtin, CommandModel, CommandSpec, Program, ProgramModel, SessionPath};
use crate::shell_parse;
use crate::terminal_session;
use crate::terminal_session::{PathFacts, SessionModel, TerminalSession};
use crate::text;

verus! {

/// Check the number of stages of a pipeline.
///
/// # Errors
///
/// Refuses a pipeline without a stage, and one with more than the policy
/// allows.
pub fn check_pipeline(stages: &Vec<CommandSpec>) -> (r: Result<(), ExecuteError>)
    ensures
        if stages@.len() > 64 {
            r == Err::<(), ExecuteError>(
                ExecuteError::InvalidPlan("pipeline exceeds stage bound"),
            )
        } else if stages@.len() == 0 {
            r == Err::<(), ExecuteError>(ExecuteError::InvalidPlan("empty pipeline"))
        } else {
            r is Ok
        },
{
    let policy = PipelinePolicy::default();
    if stages.len() > policy.max_stages {
        return Err(ExecuteError::InvalidPlan("pipeline exceeds stage bound"));
    }
    if stages.len() == 0 {
        return Err(ExecuteError::InvalidPlan("empty pipeline"));
    }
    Ok(())
}

/// What a stage of a pipeline runs as.
#[derive(Debug)]
pub enum StagePlan {
    /// A builtin, on a copy of the session.
    Builtin(TerminalSession),
    /// An external program, which the authority has to allow first.
    External(CommandRequest),
    /// A WASI component, which the host has to look up first.
    Component(HostPath),
    /// The stage does not run.
    Refused(ExecuteError),
}

/// What a [`StagePlan`] denotes.
pub enum StageModel {
    /// A builtin, on a copy of the session.
    Builtin(SessionModel),
    /// An external program.
    External(RequestModel),
    /// A WASI component.
    Component(Seq<Seq<char>>),
    /// The stage does not run.
    Refused(ExecuteFault),
}

impl View for StagePlan {
    type V = StageModel;

    open spec fn view(&self) -> StageModel {
        match self {
            StagePlan::Builtin(session) => StageModel::Builtin(session@),
            StagePlan::External(request) => StageModel::External(request@),
            StagePlan::Component(path) => StageModel::Component(path@),
            StagePlan::Refused(error) => StageModel::Refused(error@),
        }
    }
}

/// The session that a builtin stage works on: in the same place with the same
/// overlay, and without jobs or a lease. What the stage changes is lost with it.
pub open spec fn stage_session(session: SessionModel) -> SessionModel {
    SessionModel {
        jobs: Map::empty(),
        next_job_id: 0,
        stopped: Map::empty(),
        lease: None,
        closed: false,
        ..session
    }
}

/// The request of an external stage.
pub open spec fn stage_request(
    command: CommandModel,
    program: Seq<char>,
    session: SessionModel,
) -> RequestModel {
    RequestModel {
        id: 0,
        actor: session.spec.actor,
        mode: ExecutionMode::Native,
        program,
        args: command.args,
        cwd: session.cwd,
        grant: GrantModel { native: true, ..session.spec.grant },
    }
}

/// What a stage runs as.
pub open spec fn planned(command: CommandModel, session: SessionModel) -> StageModel {
    match command.program {
        ProgramModel::Builtin(_) => StageModel::Builtin(stage_session(session)),
        ProgramModel::External(program) => {
            let request = stage_request(command, program, session);
            match command::request_fault(request) {
                Some(fault) => StageModel::Refused(ExecuteFault::Command(fault)),
                None => StageModel::External(request),
            }
        },
        ProgramModel::WasiComponent(path) => if shell_ir::path_fault(path) is Some {
            StageModel::Refused(ExecuteFault::InvalidPlan("invalid WASI component path"))
        } else {
            match terminal_session::target_from(session.cwd, path) {
                Ok(target) => StageModel::Component(target),
                Err(fault) => StageModel::Refused(ExecuteFault::Session(fault)),
            }
        },
        ProgramModel::NativeShell(_) => StageModel::Refused(
            ExecuteFault::InvalidPlan("native shell escape requires explicit elevation"),
        ),
    }
}

/// Decide what a stage of a pipeline runs as.
pub fn plan_stage(command: &CommandSpec, session: &TerminalSession) -> (r: StagePlan)
    ensures
        r@ == planned(command@, session@),
{
    match &command.program {
        Program::Builtin(_) => StagePlan::Builtin(session.snapshot()),
        Program::External(program) => match CommandRequest::new(
            0,
            session.actor(),
            ExecutionMode::Native,
            program.as_str(),
            text::copy_texts(&command.args),
            session.cwd().clone(),
            session.base_grant().clone().allow_native_execution(),
        ) {
            Ok(request) => StagePlan::External(request),
            Err(error) => StagePlan::Refused(ExecuteError::Command(error)),
        },
        Program::WasiComponent(path) => match SessionPath::new(path.as_str()) {
            Ok(path) => match session.target_of(&path) {
                Ok(target) => StagePlan::Component(target),
                Err(error) => StagePlan::Refused(ExecuteError::Session(error)),
            },
            Err(_) => StagePlan::Refused(ExecuteError::InvalidPlan("invalid WASI component path")),
        },
        Program::NativeShell(_) => StagePlan::Refused(
            ExecuteError::InvalidPlan("native shell escape requires explicit elevation"),
        ),
    }
}

/// A stage as a command of its own. Every stage runs in the session's working
/// directory.
pub open spec fn stage_command(command: CommandModel) -> CommandModel {
    CommandModel { cwd: "."@, ..command }
}

/// Start to resolve the redirections of a stage, as those of a command of its
/// own. They are resolved once the run waits for the working directory.
pub fn resolve_stage(command: &CommandSpec, session: &TerminalSession) -> (r: CommandRun)
    ensures
        r@ == command_run::command_started(stage_command(command@), session@),
        r.subject() == stage_command(command@),
{
    let mut command = command.clone();
    command.cwd = shell_parse::current_directory();
    CommandRun::start(&command, session)
}

/// Whether a stage takes what the stage before it prints: redirected input
/// stands in its place.
pub fn takes_pipe(redirections: &Redirections) -> (r: bool)
    ensures
        r == (redirections@.stdin is None),
{
    redirections.stdin.is_none()
}

/// Whether a WASI stage hands on what it prints to a stream: standard error
/// too, unless that is redirected.
pub fn hands_on(stream: Stream, redirections: &Redirections) -> (r: bool)
    ensures
        r == (stream == Stream::Stdout || redirections@.stderr is None),
{
    match stream {
        Stream::Stdout => true,
        Stream::Stderr => redirections.stderr.is_none(),
    }
}

/// Whether a stage reads what the stage before it prints, in place of what its
/// builtin would do: a `cat` does.
pub fn reads_input(command: &CommandSpec) -> (r: bool)
    ensures
        r == (command@.program matches ProgramModel::Builtin(builtin) && builtin is Cat),
{
    match &command.program {
        Program::Builtin(Builtin::Cat(_)) => true,
        _ => false,
    }
}

/// The request of a WASI stage, and the file to read, once the host has looked
/// the component up.
///
/// # Errors
///
/// Refuses a component outside the grant.
pub fn plan_component(command: &CommandSpec, session: &TerminalSession, facts: &PathFacts) -> (r:
    Result<(HostPath, CommandRequest), ExecuteError>)
    ensures
        match command@.program {
            ProgramModel::WasiComponent(path) => if shell_ir::path_fault(path) is Some {
                r is Err && r->Err_0@ == ExecuteFault::InvalidPlan("invalid WASI component path")
            } else {
                match session@.existing(path, facts@) {
                    Err(fault) => r is Err && r->Err_0@ == ExecuteFault::Session(fault),
                    Ok(target) => {
                        let request = component_request(command@, path, session@);
                        match command::request_fault(request) {
                            Some(fault) => r is Err && r->Err_0@ == ExecuteFault::Command(fault),
                            None => r is Ok && r->Ok_0.0@ == target && r->Ok_0.1@ == request,
                        }
                    },
                }
            },
            _ => r is Err && r->Err_0@ == ExecuteFault::InvalidPlan("not a WASI component"),
        },
{
    match &command.program {
        Program::WasiComponent(path) => match SessionPath::new(path.as_str()) {
            Ok(session_path) => match session.resolve_path(&session_path, facts) {
                Ok(target) => match CommandRequest::new(
                    0,
                    session.actor(),
                    ExecutionMode::Wasi,
                    path.as_str(),
                    text::copy_texts(&command.args),
                    session.cwd().clone(),
                    session.base_grant().clone(),
                ) {
                    Ok(request) => Ok((target, request)),
                    Err(error) => Err(ExecuteError::Command(error)),
                },
                Err(error) => Err(ExecuteError::Session(error)),
            },
            Err(_) => Err(ExecuteError::InvalidPlan("invalid WASI component path")),
        },
        _ => Err(ExecuteError::InvalidPlan("not a WASI component")),
    }
}

/// The request of a WASI stage.
pub open spec fn component_request(
    command: CommandModel,
    path: Seq<char>,
    session: SessionModel,
) -> RequestModel {
    RequestModel {
        id: 0,
        actor: session.spec.actor,
        mode: ExecutionMode::Wasi,
        program: path,
        args: command.args,
        cwd: session.cwd,
        grant: session.spec.grant,
    }
}

/// Whether the authority has to allow some stage.
pub open spec fn asks_authority(plans: Seq<StagePlan>) -> bool {
    exists|i: int| 0 <= i < plans.len() && (#[trigger] plans[i]) is External
}

/// Whether an authority can rule so on a stage.
pub open spec fn can_rule<A: ApprovalAuthorityView>(
    plan: StagePlan,
    authority: &A,
    verdict: Result<(), ExecuteError>,
) -> bool {
    match plan {
        StagePlan::External(request) => call_ensures(
            A::authorize_native,
            (authority, &request),
            verdict,
        ),
        _ => false,
    }
}

/// Whether an authority allowed every external stage.
pub open spec fn all_allowed<A: ApprovalAuthorityView>(
    plans: Seq<StagePlan>,
    authority: &A,
) -> bool {
    forall|i: int|
        0 <= i < plans.len() && (#[trigger] plans[i]) is External
            ==> exists|verdict: Result<(), ExecuteError>|
            verdict is Ok && #[trigger] can_rule(plans[i], authority, verdict)
}

/// Ask the authority for every external stage, in order, before any stage
/// starts. A pipeline without external stages needs no one's leave.
///
/// # Errors
///
/// Returns the first refusal; no stage may then start.
pub fn preflight<A: ApprovalAuthorityView>(plans: &Vec<StagePlan>, authority: &A) -> (r: Result<
    (),
    ExecuteError,
>)
    ensures
        !asks_authority(plans@) ==> r is Ok,
        match r {
            Ok(_) => all_allowed(plans@, authority),
            Err(error) => exists|i: int|
                0 <= i < plans@.len() && all_allowed(#[trigger] plans@.take(i), authority)
                    && can_rule(plans@[i], authority, Err(error)),
        },
{
    let mut i: usize = 0;
    while i < plans.len()
        invariant
            i <= plans.len(),
            all_allowed(plans@.take(i as int), authority),
        decreases plans.len() - i,
    {
        let ghost before = plans@.take(i as int);
        assert(plans@.take(i + 1) =~= before.push(plans@[i as int]));
        match &plans[i] {
            StagePlan::External(request) => {
                let verdict = authority.authorize_native(request);
                assert(can_rule(plans@[i as int], authority, verdict));
                match verdict {
                    Ok(()) => {},
                    Err(error) => {
                        assert(plans@[i as int] is External);
                        return Err(error);
                    },
                }
            },
            _ => {},
        }
        i = i + 1;
    }
    assert(plans@.take(i as int) =~= plans@);
    Ok(())
}

/// What a `cat` stage reads from the stage before it, up to its budget.
#[derive(Debug)]
pub struct StageInput {
    bytes: Vec<u8>,
    budget: usize,
}

impl StageInput {
    /// What has been read.
    pub closed spec fn read(&self) -> Seq<u8> {
        self.bytes@
    }

    /// The most bytes that are read.
    pub closed spec fn bound(&self) -> usize {
        self.budget
    }

    #[verifier::type_invariant]
    spec fn within_budget(&self) -> bool {
        self.bytes@.len() <= self.budget
    }

    /// A stage that has read nothing.
    pub fn new(budget: usize) -> (r: Self)
        ensures
            r.read() == Seq::<u8>::empty(),
            r.bound() == budget,
    {
        StageInput { bytes: Vec::new(), budget }
    }

    /// Take a chunk, as much of it as the budget allows. Reading goes on while
    /// chunks are taken whole.
    pub fn accept(&mut self, chunk: &Vec<u8>) -> (r: bool)
        ensures
            final(self).bound() == old(self).bound(),
            final(self).read() == (old(self).read() + chunk@).take(
                if old(self).read().len() + chunk@.len() > old(self).bound() {
                    old(self).bound() as int
                } else {
                    (old(self).read().len() + chunk@.len()) as int
                },
            ),
            final(self).read().len() <= final(self).bound(),
            r == (old(self).read().len() < old(self).bound() && old(self).read().len()
                + chunk@.len() <= old(self).bound()),
    {
        proof {
            use_type_invariant(&*self);
        }
        let ghost start = self.read();
        let left: usize = self.budget - self.bytes.len();
        if left == 0 {
            assert((start + chunk@).take(start.len() as int) =~= start);
            return false;
        }
        let take: usize = if chunk.len() < left {
            chunk.len()
        } else {
            left
        };
        let mut bytes: Vec<u8> = Vec::new();
        std::mem::swap(&mut self.bytes, &mut bytes);
        let mut i: usize = 0;
        assert(start + chunk@.take(0) =~= start);
        while i < take
            invariant
                i <= take <= chunk.len(),
                bytes@ == start + chunk@.take(i as int),
            decreases take - i,
        {
            bytes.push(chunk[i]);
            i = i + 1;
            assert(chunk@.take(i as int) =~= chunk@.take(i - 1).push(chunk@[i - 1]));
            assert(bytes@ =~= start + chunk@.take(i as int));
        }
        assert(start + chunk@.take(take as int) =~= (start + chunk@).take(start.len() + take));
        self.bytes = bytes;
        if take == chunk.len() {
            assert(chunk@.take(take as int) =~= chunk@);
        }
        take == chunk.len()
    }

    /// What the stage prints: what it has read.
    pub fn into_result(self) -> (r: BuiltinResult)
        ensures
            r@ == crate::builtin::output(self.read()),
    {
        BuiltinResult::with_stdout(self.bytes)
    }
}

/// How a WASI stage came out.
#[derive(Clone, Copy, Debug, PartialEq, Eq, Structural)]
pub enum ComponentCode {
    /// It exited with a code.
    Exited(i32),
    /// It was cancelled.
    Cancelled,
    /// It failed.
    Failed,
}

/// How a stage came out: its exit code, and what it hands on.
#[derive(Debug, PartialEq, Eq)]
pub struct StageEnd {
    /// The exit code that is reported.
    pub code: i32,
    /// Whether the stage reached that code itself.
    pub reached: bool,
    /// What the stage hands on, if it came that far.
    pub output: Option<Vec<u8>>,
    /// What the stage printed to standard error and does not hand on.
    pub errors: Vec<u8>,
}

/// What a [`StageEnd`] denotes.
pub struct StageEndModel {
    /// The exit code that is reported.
    pub code: i32,
    /// Whether the stage reached that code itself.
    pub reached: bool,
    /// What the stage hands on.
    pub output: Option<Seq<u8>>,
    /// What it printed to standard error and does not hand on.
    pub errors: Seq<u8>,
}

/// A stage that did not run.
pub open spec fn refused_end() -> StageEndModel {
    StageEndModel { code: 1, reached: false, output: None, errors: Seq::empty() }
}

impl View for StageEnd {
    type V = StageEndModel;

    open spec fn view(&self) -> StageEndModel {
        StageEndModel {
            code: self.code,
            reached: self.reached,
            output: match self.output {
                Some(bytes) => Some(bytes@),
                None => None,
            },
            errors: self.errors@,
        }
    }
}

/// How a stage comes out under its redirections: what goes to a file is not
/// handed on. Each file is written once the stage is over; a stage that did not
/// come that far writes none.
pub open spec fn diverted(end: StageEndModel, redirections: RedirectionsModel) -> (
    StageEndModel,
    Seq<ActionModel>,
) {
    match end.output {
        None => (end, Seq::empty()),
        Some(bytes) => (
            StageEndModel {
                output: if redirections.stdout is Some {
                    None
                } else {
                    Some(bytes)
                },
                ..end
            },
            command_run::output_write(bytes, redirections.stdout) + command_run::output_write(
                end.errors,
                redirections.stderr,
            ),
        ),
    }
}

/// Whether every file was written.
pub open spec fn all_written(replies: Seq<FsReply>) -> bool {
    forall|i: int|
        0 <= i < replies.len() ==> (#[trigger] replies[i])@ == ReplyModel::Done(Ok(()))
}

impl StageEnd {
    /// A stage that did not run.
    pub fn refused() -> (r: Self)
        ensures
            r@ == refused_end(),
    {
        let r = StageEnd { code: 1, reached: false, output: None, errors: Vec::new() };
        assert(r@.errors =~= Seq::empty());
        r
    }

    /// A builtin stage, which hands on its standard output only.
    pub fn builtin(result: BuiltinResult) -> (r: Self)
        ensures
            r@ == (StageEndModel {
                code: result@.exit_code,
                reached: true,
                output: Some(result@.stdout),
                errors: result@.stderr,
            }),
    {
        StageEnd {
            code: result.exit_code,
            reached: true,
            output: Some(result.stdout),
            errors: result.stderr,
        }
    }

    /// An external stage. One that was stopped counts as failed.
    pub fn native(reply: NativeReply) -> (r: Self)
        ensures
            r@ == match reply@ {
                NativeReplyModel::Exited(stdout, stderr, code) => StageEndModel {
                    code: command_run::native_code(code),
                    reached: true,
                    output: Some(stdout),
                    errors: stderr,
                },
                _ => refused_end(),
            },
    {
        match reply {
            NativeReply::Ran(Ok(output)) => StageEnd {
                code: command_run::native_exit_code(output.exit_code),
                reached: true,
                output: Some(output.stdout),
                errors: output.stderr,
            },
            _ => StageEnd::refused(),
        }
    }

    /// A WASI stage, with what it printed and hands on, and the rest of its
    /// standard error.
    pub fn component(printed: Vec<u8>, errors: Vec<u8>, code: ComponentCode) -> (r: Self)
        ensures
            r@ == (StageEndModel {
                code: match code {
                    ComponentCode::Exited(code) => code,
                    ComponentCode::Cancelled => 130,
                    ComponentCode::Failed => 1,
                },
                reached: code is Exited,
                output: Some(printed@),
                errors: errors@,
            }),
    {
        let (code, reached): (i32, bool) = match code {
            ComponentCode::Exited(code) => (code, true),
            ComponentCode::Cancelled => (130, false),
            ComponentCode::Failed => (1, false),
        };
        StageEnd { code, reached, output: Some(printed), errors }
    }

    /// How the stage comes out under its redirections, and the files that have
    /// to be written.
    pub fn divert(self, redirections: &Redirections) -> (r: (StageEnd, Vec<FsAction>))
        ensures
            (r.0@, command_run::action_models(r.1@)) == diverted(self@, redirections@),
    {
        let mut writes: Vec<FsAction> = Vec::new();
        let mut end = self;
        let ghost model = end@;
        assert(command_run::action_models(writes@) =~= Seq::empty());
        let bytes = match end.output {
            Some(bytes) => bytes,
            None => {
                end.output = None;
                return (end, writes);
            },
        };
        let ghost printed = bytes@;
        match &redirections.stdout {
            Some(target) => {
                writes.push(
                    FsAction::WriteFile { path: target.path.clone(), mode: target.mode, bytes },
                );
                end.output = None;
            },
            None => {
                end.output = Some(bytes);
            },
        }
        let ghost first = command_run::output_write(printed, redirections@.stdout);
        assert(command_run::action_models(writes@) =~= first);
        match &redirections.stderr {
            Some(target) => {
                writes.push(
                    FsAction::WriteFile {
                        path: target.path.clone(),
                        mode: target.mode,
                        bytes: copy_bytes(&end.errors),
                    },
                );
            },
            None => {},
        }
        assert(command_run::action_models(writes@) =~= first + command_run::output_write(
            model.errors,
            redirections@.stderr,
        ));
        (end, writes)
    }

    /// The stage once its files were written. One that could not be written
    /// counts as a stage that did not run.
    pub fn after_writes(self, replies: &Vec<FsReply>) -> (r: StageEnd)
        ensures
            r@ == if all_written(replies@) {
                self@
            } else {
                refused_end()
            },
    {
        let mut i: usize = 0;
        while i < replies.len()
            invariant
                i <= replies.len(),
                forall|j: int|
                    0 <= j < i ==> (#[trigger] replies@[j])@ == ReplyModel::Done(Ok(())),
            decreases replies.len() - i,
        {
            match &replies[i] {
                FsReply::Done(Ok(())) => {},
                _ => {
                    assert(replies@[i as int]@ != ReplyModel::Done(Ok(())));
                    return StageEnd::refused();
                },
            }
            i = i + 1;
        }
        self
    }
}

/// A copy of some bytes.
fn copy_bytes(bytes: &Vec<u8>) -> (r: Vec<u8>)
    ensures
        r@ == bytes@,
{
    let mut r: Vec<u8> = Vec::new();
    r.extend_from_slice(bytes.as_slice());
    assert(r@ =~= bytes@);
    r
}

/// How a pipeline comes out: as its last stage does, whose output is shown. It
/// exited if that stage reached an exit code, whatever the code, and else it
/// failed.
pub open spec fn pipeline_end(last: StageEndModel) -> EndModel {
    EndModel {
        events: match last.output {
            Some(bytes) => seq![
                EventModel::Output(Stream::Stdout, bytes),
                EventModel::Exited(Some(last.code)),
            ],
            None => seq![EventModel::Exited(Some(last.code))],
        },
        outcome: OutcomeModel {
            status: if last.reached {
                PlanStatus::Exited
            } else {
                PlanStatus::Failed
            },
            exit_code: Some(last.code),
            effects: Seq::empty(),
        },
    }
}

/// Finish a pipeline, given how each of its stages came out, in order; nothing
/// is known of a stage whose runner broke down.
///
/// # Errors
///
/// Refuses a pipeline with a stage whose runner broke down.
pub fn finish_pipeline(stages: Vec<Option<StageEnd>>) -> (r: Result<CommandEnd, ExecuteError>)
    ensures
        if exists|i: int| 0 <= i < stages@.len() && (#[trigger] stages@[i]) is None {
            r == Err::<CommandEnd, ExecuteError>(
                ExecuteError::InvalidPlan("pipeline stage panicked"),
            )
        } else {
            r is Ok && r->Ok_0@ == pipeline_end(
                if stages@.len() == 0 {
                    refused_end()
                } else {
                    stages@.last()->0@
                },
            )
        },
{
    let ghost all = stages@;
    let mut left = stages;
    let mut last = StageEnd::refused();
    let mut is_last = true;
    while left.len() > 0
        invariant
            all == stages@,
            left@ == all.take(left.len() as int),
            left.len() <= all.len(),
            is_last == (left.len() == all.len()),
            forall|i: int| left.len() <= i < all.len() ==> (#[trigger] all[i]) is Some,
            is_last ==> last@ == (refused_end()),
            !is_last ==> last@ == all.last()->0@,
        decreases left.len(),
    {
        let stage = left.pop();
        match stage {
            Some(Some(end)) => {
                assert(all[left.len() as int] is Some);
                if is_last {
                    last = end;
                    is_last = false;
                }
            },
            _ => {
                assert(all[left.len() as int] is None);
                return Err(ExecuteError::InvalidPlan("pipeline stage panicked"));
            },
        }
        assert(left@ =~= all.take(left.len() as int));
    }
    Ok(end_as(last))
}

/// The end of a pipeline that comes out as its last stage does.
fn end_as(last: StageEnd) -> (r: CommandEnd)
    ensures
        r@ == pipeline_end(last@),
{
    let mut events: Vec<SessionEvent> = Vec::new();
    let code = last.code;
    let ghost model = last@;
    match last.output {
        Some(bytes) => events.push(SessionEvent::Output { stream: Stream::Stdout, bytes }),
        None => {},
    }
    events.push(SessionEvent::Exited { code: Some(code) });
    let effects: Vec<EffectRecord> = Vec::new();
    let status = if last.reached {
        PlanStatus::Exited
    } else {
        PlanStatus::Failed
    };
    assert(command::event_models(events@) =~= pipeline_end(model).events);
    assert(shell_executor::effect_models(effects@) =~= Seq::empty());
    CommandEnd { events, outcome: Outcome { status, exit_code: Some(code), effects } }
}

/// No stage of a pipeline is a native shell, every external stage runs its own
/// program and arguments in the session's working directory, and every builtin
/// stage sees the session's working directory and overlay.
pub proof fn stages_are_what_they_say(command: CommandModel, session: SessionModel)
    ensures
        command.program is NativeShell ==> planned(command, session) is Refused,
        planned(command, session) matches StageModel::External(request) ==> {
            &&& command.program == ProgramModel::External(request.program)
            &&& request.args == command.args
            &&& request.cwd == session.cwd
            &&& command::request_fault(request) is None
        },
        planned(command, session) matches StageModel::Builtin(stage) ==> {
            &&& command.program is Builtin
            &&& stage.spec == session.spec
            &&& stage.cwd == session.cwd
            &&& stage.env == session.env
        },
{
}

/// What a stage redirects is not shown, and nothing else is held back: the
/// output of a stage goes to its file or on, and never to both.
pub proof fn redirected_stages_show_nothing(end: StageEndModel, redirections: RedirectionsModel)
    ensures
        ({
            let (kept, writes) = diverted(end, redirections);
            &&& kept.code == end.code && kept.reached == end.reached
            &&& redirections.stdout is None ==> kept.output == end.output
            &&& redirections.stdout is Some ==> kept.output is None && pipeline_end(kept).events
                == seq![EventModel::Exited(Some(end.code))]
            &&& redirections.stdout is Some && end.output is Some ==> writes.len() > 0 && writes[0]
                == ActionModel::WriteFile(
                (redirections.stdout->0).0,
                (redirections.stdout->0).1,
                end.output->0,
            )
        }),
{
    let (kept, writes) = diverted(end, redirections);
    if redirections.stdout is Some {
        assert(pipeline_end(kept).events =~= seq![EventModel::Exited(Some(end.code))]);
    }
}

/// A stage without redirections has nothing to resolve.
pub proof fn plain_stages_need_nothing(command: CommandModel, session: SessionModel)
    requires
        command.redirects.len() == 0,
    ensures
        ({
            let run = command_run::command_started(stage_command(command), session);
            &&& run.stage is LookUpCwd
            &&& command_run::redirections_of(run.gathered) == (RedirectionsModel {
                stdin: None,
                stdout: None,
                stderr: None,
            })
        }),
{
    shell_parse::lemma_current_directory();
    crate::host_path::session_paths_stay_below(session.cwd, "."@);
}

} // verus!
