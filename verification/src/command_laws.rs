//! What holds of every run of a command, whatever it is answered.

use vstd::prelude::*;
use crate::builtin;
use crate::builtin::KnownModel;
use crate::builtin_run;
use crate::builtin_run::{BuiltinStageModel, HostReplyModel};
use crate::capability::GrantModel;
use crate::command;
use crate::command::{EventModel, ExecutionMode, RequestModel, Stream};
use crate::command_run;
use crate::command_run::{
    CommandReplyModel,
    CommandStageModel,
    GatheredModel,
    RunModel,
};
use crate::host_action::{ActionModel, ReplyModel};
use crate::shell_executor::{EffectModel, PlanStatus};
use crate::shell_ir;
use crate::shell_ir::{CommandModel, ProgramModel};
use crate::terminal_session::{FactsModel, SessionModel};

verus! {

/// Whether the paths of a command are session paths, as those of every
/// command are.
pub open spec fn has_session_paths(command: CommandModel) -> bool {
    &&& shell_ir::path_fault(command.cwd) is None
    &&& command.program matches ProgramModel::Builtin(builtin) ==> builtin::has_session_paths(
        builtin,
    )
    &&& forall|i: int|
        0 <= i < command.redirects.len() ==> shell_ir::path_fault(
            command_run::redirect_path(#[trigger] command.redirects[i]),
        ) is None
}

/// Whether the target of an output stream may be written.
pub open spec fn target_is_covered(
    target: Option<(Seq<Seq<char>>, crate::host_action::AppendMode)>,
    grant: GrantModel,
) -> bool {
    match target {
        Some((path, _)) => grant.covers_write(path),
        None => true,
    }
}

/// Whether a grant covers the paths of an action: a granted tree holds what is
/// read, and one that may be written what is changed.
pub open spec fn action_is_covered(action: ActionModel, grant: GrantModel) -> bool {
    match action {
        ActionModel::ReadDirectory(path) => grant.covers(path),
        ActionModel::ReadFile(path, _) => grant.covers(path),
        ActionModel::CreateDirectory(path) => grant.covers_write(path),
        ActionModel::RemoveDirectory(path) => grant.covers_write(path),
        ActionModel::RemoveFile(path) => grant.covers_write(path),
        ActionModel::CopyFile(from, to) => grant.covers(from) && grant.covers_write(to),
        ActionModel::Rename(from, to) => grant.covers_write(from) && grant.covers_write(to),
        ActionModel::FindFile(_) => true,
        ActionModel::WriteFile(path, _, _) => grant.covers_write(path),
    }
}

/// Whether a running builtin asks only for what a grant covers.
pub open spec fn builtin_is_covered(stage: BuiltinStageModel, grant: GrantModel) -> bool {
    match stage {
        BuiltinStageModel::LookUp(path) | BuiltinStageModel::Locate(path, _) => grant.covers(path),
        BuiltinStageModel::Perform(action, _) => action_is_covered(action, grant),
        _ => true,
    }
}

/// The request of a native program is for the command's own program and
/// arguments, under the session's grant with native execution.
pub open spec fn is_native_request(
    request: RequestModel,
    command: CommandModel,
    session: SessionModel,
) -> bool {
    &&& request.mode == ExecutionMode::Native
    &&& command.program == ProgramModel::External(request.program)
    &&& request.args == command.args
    &&& request.id == session.spec.id
    &&& request.actor == session.spec.actor
    &&& request.grant == (GrantModel { native: true, ..session.spec.grant })
    &&& command::request_fault(request) is None
}

/// Whether a run asks only for what the session's grant covers.
pub open spec fn run_is_covered(
    run: RunModel,
    command: CommandModel,
    session: SessionModel,
) -> bool {
    let grant = session.spec.grant;
    &&& target_is_covered(run.gathered.stdout_target, grant)
    &&& target_is_covered(run.gathered.stderr_target, grant)
    &&& match run.stage {
        CommandStageModel::LookUpInput(i, path)
        | CommandStageModel::ReadInput(i, path)
        | CommandStageModel::LocateOutput(i, path) => {
            &&& grant.covers(path)
            &&& 0 <= i < command.redirects.len()
        },
        CommandStageModel::LookUpCwd(path) => grant.covers(path),
        CommandStageModel::LookUpComponent(path) | CommandStageModel::ReadComponent(path) => {
            &&& grant.covers(path)
            &&& command.program matches ProgramModel::WasiComponent(component)
            &&& shell_ir::path_fault(component) is None
        },
        CommandStageModel::Builtin(stage) => builtin_is_covered(stage, grant)
            && command.program is Builtin,
        CommandStageModel::Authorize(request) | CommandStageModel::RunNative(request) => {
            is_native_request(request, command, session)
        },
        CommandStageModel::CompileComponent(_) => {
            &&& command.program matches ProgramModel::WasiComponent(component)
            &&& shell_ir::path_fault(component) is None
        },
        CommandStageModel::RunComponent(request) => request.grant == grant
            && command::request_fault(request) is None,
        CommandStageModel::Write(writes, _) => forall|i: int|
            0 <= i < writes.len() ==> action_is_covered(#[trigger] writes[i], grant),
        CommandStageModel::Ended(_) => true,
    }
}

proof fn lemma_redirects_are_covered(
    command: CommandModel,
    session: SessionModel,
    gathered: GatheredModel,
    i: int,
)
    requires
        session.valid(),
        has_session_paths(command),
        0 <= i <= command.redirects.len(),
        target_is_covered(gathered.stdout_target, session.spec.grant),
        target_is_covered(gathered.stderr_target, session.spec.grant),
    ensures
        run_is_covered(
            command_run::from_redirect(command, session, gathered, i),
            command,
            session,
        ),
{
    if i == command.redirects.len() {
        builtin::lemma_targets_are_covered(session, command.cwd);
    } else {
        let redirect = command.redirects[i];
        builtin::lemma_targets_are_covered(session, command_run::redirect_path(redirect));
    }
}

proof fn lemma_builtin_is_covered(
    builtin: shell_ir::BuiltinModel,
    session: SessionModel,
    known: KnownModel,
)
    requires
        session.valid(),
        builtin::has_session_paths(builtin),
    ensures
        builtin_is_covered(
            builtin_run::informed(builtin, session, known),
            session.spec.grant,
        ),
        builtin::created_path(builtin) is Some ==> builtin_is_covered(
            builtin_run::locating(builtin, session, known.target),
            session.spec.grant,
        ),
{
    builtin::builtins_stay_in_the_grant(builtin, session, known);
    match builtin::created_path(builtin) {
        Some(path) => builtin::lemma_targets_are_covered(session, path),
        None => {},
    }
}

proof fn lemma_exited_is_covered(
    command: CommandModel,
    session: SessionModel,
    gathered: GatheredModel,
    stdout: Seq<u8>,
    stderr: Seq<u8>,
    code: Option<i32>,
    effect: EffectModel,
    streamed: bool,
)
    requires
        target_is_covered(gathered.stdout_target, session.spec.grant),
        target_is_covered(gathered.stderr_target, session.spec.grant),
    ensures
        run_is_covered(
            command_run::exited(gathered, stdout, stderr, code, effect, streamed),
            command,
            session,
        ),
{
    let first = command_run::output_write(stdout, gathered.stdout_target);
    let second = command_run::output_write(stderr, gathered.stderr_target);
    let writes = first + second;
    assert forall|i: int| 0 <= i < writes.len() implies action_is_covered(
        #[trigger] writes[i],
        session.spec.grant,
    ) by {
        if i < first.len() {
            assert(writes[i] == first[i]);
        } else {
            assert(writes[i] == second[i - first.len()]);
        }
    }
}

proof fn lemma_with_builtin_is_covered(
    command: CommandModel,
    session: SessionModel,
    gathered: GatheredModel,
    builtin: shell_ir::BuiltinModel,
    stage: BuiltinStageModel,
)
    requires
        command.program == ProgramModel::Builtin(builtin),
        builtin_is_covered(stage, session.spec.grant),
        target_is_covered(gathered.stdout_target, session.spec.grant),
        target_is_covered(gathered.stderr_target, session.spec.grant),
    ensures
        run_is_covered(
            command_run::with_builtin(gathered, builtin, stage),
            command,
            session,
        ),
{
    match stage {
        BuiltinStageModel::Ended(result) => {
            lemma_exited_is_covered(
                command,
                session,
                gathered,
                result.stdout,
                result.stderr,
                Some(result.exit_code),
                command_run::builtin_effect(builtin),
                false,
            );
        },
        _ => {},
    }
}

proof fn lemma_resolved_is_covered(
    command: CommandModel,
    session: SessionModel,
    gathered: GatheredModel,
    cwd: Seq<Seq<char>>,
)
    requires
        session.valid(),
        has_session_paths(command),
        target_is_covered(gathered.stdout_target, session.spec.grant),
        target_is_covered(gathered.stderr_target, session.spec.grant),
    ensures
        run_is_covered(
            command_run::resolved(command, session, gathered, cwd),
            command,
            session,
        ),
{
    let with_cwd = GatheredModel { cwd: Some(cwd), ..gathered };
    match command.program {
        ProgramModel::Builtin(builtin) => {
            if command_run::takes_input(builtin, with_cwd) {
                lemma_with_builtin_is_covered(
                    command,
                    session,
                    with_cwd,
                    builtin,
                    BuiltinStageModel::Ended(builtin::output(with_cwd.stdin->0)),
                );
            } else {
                match builtin::existing_path(builtin) {
                    Some(path) => builtin::lemma_targets_are_covered(session, path),
                    None => lemma_builtin_is_covered(
                        builtin,
                        session,
                        builtin_run::only_facts(builtin_run::no_facts()),
                    ),
                }
                lemma_with_builtin_is_covered(
                    command,
                    session,
                    with_cwd,
                    builtin,
                    builtin_run::started(builtin, session),
                );
            }
        },
        ProgramModel::WasiComponent(path) => {
            if shell_ir::path_fault(path) is None {
                builtin::lemma_targets_are_covered(session, path);
            }
        },
        _ => {},
    }
}

/// A command that has just been started asks only for what the session's grant
/// covers.
pub proof fn commands_start_in_the_grant(command: CommandModel, session: SessionModel)
    requires
        session.valid(),
        has_session_paths(command),
    ensures
        run_is_covered(command_run::command_started(command, session), command, session),
{
    lemma_redirects_are_covered(command, session, command_run::nothing_gathered(), 0);
}

/// Whatever a command is answered, it goes on to ask only for what the
/// session's grant covers: no path outside a granted tree is looked up, read
/// or written, a native program runs only as the request that was authorized,
/// and a component only under the session's own grant.
pub proof fn commands_stay_in_the_grant(
    command: CommandModel,
    session: SessionModel,
    run: RunModel,
    reply: CommandReplyModel,
)
    requires
        session.valid(),
        has_session_paths(command),
        run_is_covered(run, command, session),
    ensures
        run_is_covered(
            command_run::answered(command, session, run, reply),
            command,
            session,
        ),
{
    let gathered = run.gathered;
    match (run.stage, reply) {
        (
            CommandStageModel::LookUpInput(i, _),
            CommandReplyModel::Host(HostReplyModel::Facts(facts)),
        ) => {
            builtin::lemma_targets_are_covered(
                session,
                command_run::redirect_path(command.redirects[i]),
            );
        },
        (
            CommandStageModel::ReadInput(i, _),
            CommandReplyModel::Host(HostReplyModel::Fs(ReplyModel::Bytes(Ok(bytes)))),
        ) => {
            lemma_redirects_are_covered(
                command,
                session,
                GatheredModel { stdin: Some(bytes), ..gathered },
                i + 1,
            );
        },
        (
            CommandStageModel::LocateOutput(i, _),
            CommandReplyModel::Host(HostReplyModel::Landing(landing)),
        ) => {
            let redirect = command.redirects[i];
            match session.output_path(command_run::redirect_path(redirect), landing) {
                Ok(target) => lemma_redirects_are_covered(
                    command,
                    session,
                    command_run::with_target(gathered, redirect, target),
                    i + 1,
                ),
                Err(_) => {},
            }
        },
        (
            CommandStageModel::LookUpCwd(_),
            CommandReplyModel::Host(HostReplyModel::Facts(facts)),
        ) => match session.existing(command.cwd, facts) {
            Ok(cwd) => lemma_resolved_is_covered(command, session, gathered, cwd),
            Err(_) => {},
        },
        (CommandStageModel::Builtin(stage), CommandReplyModel::Host(answer)) => {
            let builtin = command.program->Builtin_0;
            match (stage, answer) {
                (BuiltinStageModel::LookUp(_), HostReplyModel::Facts(facts)) => {
                    lemma_builtin_is_covered(builtin, session, builtin_run::only_facts(facts));
                },
                (BuiltinStageModel::Locate(_, target), HostReplyModel::Landing(landing)) => {
                    let known = KnownModel { target, landing, host_path: None };
                    lemma_builtin_is_covered(builtin, session, known);
                },
                (BuiltinStageModel::SearchPath, HostReplyModel::SearchPath(path)) => {
                    let known = builtin_run::only_search_path(path);
                    lemma_builtin_is_covered(builtin, session, known);
                },
                _ => {},
            }
            lemma_with_builtin_is_covered(
                command,
                session,
                gathered,
                builtin,
                builtin_run::advanced(stage, builtin, session, answer),
            );
        },
        (
            CommandStageModel::RunNative(request),
            CommandReplyModel::Native(command_run::NativeReplyModel::Exited(stdout, stderr, code)),
        ) => {
            lemma_exited_is_covered(
                command,
                session,
                gathered,
                stdout,
                stderr,
                Some(command_run::native_code(code)),
                command_run::native_effect(request.program),
                false,
            );
        },
        (
            CommandStageModel::LookUpComponent(_),
            CommandReplyModel::Host(HostReplyModel::Facts(facts)),
        ) => {
            builtin::lemma_targets_are_covered(session, command.program->WasiComponent_0);
        },
        (
            CommandStageModel::RunComponent(request),
            CommandReplyModel::Component(
                command_run::ComponentReplyModel::Ran(stdout, stderr, code),
            ),
        ) => {
            lemma_exited_is_covered(
                command,
                session,
                gathered,
                stdout,
                stderr,
                code,
                command_run::wasi_effect(request.program),
                true,
            );
        },
        _ => {},
    }
}

/// A link that leads out of the grant is never followed, and none that leads to
/// where nothing may be written is written through: a command that is told so of
/// a path it asked about ends with an error, and a builtin that is told so asks
/// nothing more and performs nothing.
pub proof fn links_never_leave_the_grant(
    command: CommandModel,
    session: SessionModel,
    run: RunModel,
    facts: FactsModel,
    landing: Option<Seq<Seq<char>>>,
)
    ensures
        ({
            let grant = session.spec.grant;
            let told = CommandReplyModel::Host(HostReplyModel::Facts(facts));
            let located = CommandReplyModel::Host(HostReplyModel::Landing(landing));
            let after_told = command_run::answered(command, session, run, told).stage;
            let after_located = command_run::answered(command, session, run, located).stage;
            &&& !grant.covers_real(facts.actual) ==> match run.stage {
                CommandStageModel::LookUpInput(_, _)
                | CommandStageModel::LookUpCwd(_)
                | CommandStageModel::LookUpComponent(_) => {
                    after_told matches CommandStageModel::Ended(end) && end is Err
                },
                CommandStageModel::Builtin(BuiltinStageModel::LookUp(_)) => {
                    builtin::existing_path(command.program->Builtin_0) is Some ==> !(
                    after_told is Builtin)
                },
                _ => true,
            }
            &&& !(landing is Some && grant.covers_write(landing->0)) ==> match run.stage {
                CommandStageModel::LocateOutput(_, _) => {
                    after_located matches CommandStageModel::Ended(end) && end is Err
                },
                CommandStageModel::Builtin(BuiltinStageModel::Locate(_, _)) => {
                    builtin::created_path(command.program->Builtin_0) is Some ==> !(
                    after_located is Builtin)
                },
                _ => true,
            }
        }),
{
}

/// Whatever a command is answered, the session it runs in stays valid, keeps
/// its specification and keeps its jobs.
pub proof fn commands_keep_sessions_valid(
    command: CommandModel,
    session: SessionModel,
    run: RunModel,
    reply: CommandReplyModel,
)
    requires
        session.valid(),
        has_session_paths(command),
        run_is_covered(run, command, session),
    ensures
        command_run::session_answered(command, session, run, reply).valid(),
        command_run::session_answered(command, session, run, reply).spec == session.spec,
        command_run::session_answered(command, session, run, reply).jobs == session.jobs,
{
    match (run.stage, reply) {
        (CommandStageModel::LookUpCwd(_), _) => match command.program {
            ProgramModel::Builtin(builtin) => {
                builtin::builtins_keep_sessions_valid(builtin, session, builtin_run::no_facts());
            },
            _ => {},
        },
        (CommandStageModel::Builtin(_), CommandReplyModel::Host(HostReplyModel::Facts(facts))) => {
            builtin::builtins_keep_sessions_valid(command.program->Builtin_0, session, facts);
        },
        (CommandStageModel::Builtin(BuiltinStageModel::Locate(_, target)), _) => {
            builtin::builtins_keep_sessions_valid(command.program->Builtin_0, session, target);
        },
        (CommandStageModel::Builtin(_), _) => {
            builtin::builtins_keep_sessions_valid(
                command.program->Builtin_0,
                session,
                builtin_run::no_facts(),
            );
        },
        _ => {},
    }
}

/// A native program runs only after the authority has allowed exactly its
/// request.
pub proof fn native_runs_only_when_authorized(
    command: CommandModel,
    session: SessionModel,
    run: RunModel,
    reply: CommandReplyModel,
    request: RequestModel,
)
    requires
        command_run::answered(command, session, run, reply).stage
            == CommandStageModel::RunNative(request),
    ensures
        run.stage == CommandStageModel::Authorize(request),
        reply matches CommandReplyModel::Verdict(verdict) && verdict is Ok,
{
}

/// Whether a run has done no more than resolve its command, or has failed.
pub open spec fn only_resolves(stage: CommandStageModel) -> bool {
    match stage {
        CommandStageModel::LookUpInput(_, _) => true,
        CommandStageModel::ReadInput(_, _) => true,
        CommandStageModel::LocateOutput(_, _) => true,
        CommandStageModel::LookUpCwd(_) => true,
        CommandStageModel::Ended(end) => end is Err,
        _ => false,
    }
}

/// A native shell never runs: such a command starts with resolving its
/// redirections, and whatever it is answered, it goes on resolving or fails.
pub proof fn native_shells_never_run(
    command: CommandModel,
    session: SessionModel,
    run: RunModel,
    reply: CommandReplyModel,
)
    requires
        command.program is NativeShell,
    ensures
        only_resolves(command_run::command_started(command, session).stage),
        only_resolves(run.stage) ==> only_resolves(
            command_run::answered(command, session, run, reply).stage,
        ),
{
}

/// A program that reaches an exit code has exited with that code, whatever the
/// code is: the outcome says so, and so does the last event. Only one that
/// reaches none has failed.
pub proof fn reached_codes_are_exits(
    gathered: GatheredModel,
    stdout: Seq<u8>,
    stderr: Seq<u8>,
    code: Option<i32>,
    effect: EffectModel,
    streamed: bool,
)
    ensures
        ({
            let end = match command_run::exited(
                gathered,
                stdout,
                stderr,
                code,
                effect,
                streamed,
            ).stage {
                CommandStageModel::Ended(Ok(end)) => Some(end),
                CommandStageModel::Write(_, end) => Some(end),
                _ => None,
            };
            &&& end is Some
            &&& end->0.outcome.exit_code is Some
            &&& end->0.events.last() == EventModel::Exited(end->0.outcome.exit_code)
            &&& match code {
                Some(code) => end->0.outcome.status == PlanStatus::Exited
                    && end->0.outcome.exit_code == Some(code),
                None => end->0.outcome.status == PlanStatus::Failed
                    && end->0.outcome.exit_code == Some(1i32),
            }
        }),
{
}

/// Redirected output goes to its file and nowhere else: it is written whole,
/// and no event shows it.
pub proof fn redirected_output_is_not_shown(
    gathered: GatheredModel,
    stdout: Seq<u8>,
    stderr: Seq<u8>,
    code: Option<i32>,
    effect: EffectModel,
    streamed: bool,
    path: Seq<Seq<char>>,
    mode: crate::host_action::AppendMode,
)
    requires
        gathered.stdout_target == Some((path, mode)),
    ensures
        command_run::exited(gathered, stdout, stderr, code, effect, streamed).stage matches CommandStageModel::Write(
        writes,
        end) && writes.len() > 0 && writes[0] == ActionModel::WriteFile(path, mode, stdout)
            && forall|i: int|
            0 <= i < end.events.len() ==> !(#[trigger] end.events[i] matches EventModel::Output(
                Stream::Stdout,
                _,
            )),
{
    let shown = command_run::output_event(Stream::Stderr, stderr, gathered.stderr_target);
    assert(command_run::output_event(Stream::Stdout, stdout, gathered.stdout_target) + shown
        =~= shown);
}

} // verus!
