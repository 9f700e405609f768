//! What the stages of a pipeline run as, what they hand on and how a pipeline
//! ends.

use vstd::prelude::*;
use crate::background;
use crate::builtin_laws;
use crate::canonical;
use crate::capability::GrantModel;
use crate::command::{CommandFault, EventModel, ExecutionMode, RequestModel, Stream};
use crate::command_run;
use crate::command_run::RedirectionsModel;
use crate::host_action::{ActionModel, AppendMode};
use crate::pipeline;
use crate::pipeline::{StageEndModel, StageModel};
use crate::shell_executor::{ExecuteFault, PlanStatus};
use crate::shell_ir;
use crate::shell_ir::{CommandModel, ProgramModel, StatementModel};
use crate::terminal_session::SessionModel;
use crate::text_laws;

verus! {

/// An external stage is put to the authority as its command says: the program
/// with all of its arguments in order, in native mode, for the session's actor
/// in the session's working directory, under the session's grant with native
/// execution; unless that grant does not hold the working directory.
pub proof fn external_stages_run_their_own_program(
    command: CommandModel,
    session: SessionModel,
    program: Seq<char>,
)
    requires
        command.program == ProgramModel::External(program),
    ensures
        session.spec.grant.covers(session.cwd) ==> pipeline::planned(command, session)
            == StageModel::External(
            RequestModel {
                id: 0,
                actor: session.spec.actor,
                mode: ExecutionMode::Native,
                program,
                args: command.args,
                cwd: session.cwd,
                grant: GrantModel { native: true, ..session.spec.grant },
            },
        ),
        !session.spec.grant.covers(session.cwd) ==> pipeline::planned(command, session)
            == StageModel::Refused(
            ExecuteFault::Command(CommandFault::WorkingDirectoryDenied(session.cwd)),
        ),
{
    let grant = GrantModel { native: true, ..session.spec.grant };
    assert(grant.trees == session.spec.grant.trees);
    assert(grant.covers(session.cwd) == session.spec.grant.covers(session.cwd));
}

/// A component stage looks its component up where its path leads from the
/// session's working directory, and runs it with all of its arguments in order,
/// in WASI mode, for the session's actor, under the session's own grant.
pub proof fn component_stages_run_their_own_component(
    command: CommandModel,
    session: SessionModel,
    path: Seq<char>,
    names: Seq<Seq<char>>,
)
    requires
        command.program == ProgramModel::WasiComponent(path),
        builtin_laws::spells(path, names),
    ensures
        pipeline::planned(command, session) == StageModel::Component(session.cwd + names),
        pipeline::component_request(command, path, session) == (RequestModel {
            id: 0,
            actor: session.spec.actor,
            mode: ExecutionMode::Wasi,
            program: path,
            args: command.args,
            cwd: session.cwd,
            grant: session.spec.grant,
        }),
{
    text_laws::paths_lead_where_their_names_say(session.cwd, names);
}

/// A builtin stage works on a copy of the session: in the same directory, with
/// the same overlay and under the same specification, open, but without the
/// session's jobs and without its lease.
pub proof fn builtin_stages_work_on_a_copy(command: CommandModel, session: SessionModel)
    requires
        command.program is Builtin,
    ensures
        pipeline::planned(command, session) matches StageModel::Builtin(copy) && copy.spec
            == session.spec && copy.cwd == session.cwd && copy.env == session.env && !copy.closed
            && copy.lease is None && copy.jobs.dom() == Set::<u64>::empty() && copy.stopped.dom()
            == Set::<u64>::empty() && copy.next_job_id == 0,
{
}

/// A native shell is never a stage.
pub proof fn native_shells_are_no_stages(command: CommandModel, session: SessionModel)
    requires
        command.program is NativeShell,
    ensures
        pipeline::planned(command, session) == StageModel::Refused(
            ExecuteFault::InvalidPlan("native shell escape requires explicit elevation"),
        ),
{
}

/// A stage is its command, in the working directory of the session: its program,
/// its arguments and its redirections are its own.
pub proof fn stages_are_their_commands(command: CommandModel)
    ensures
        ({
            let stage = pipeline::stage_command(command);
            &&& stage.program == command.program
            &&& stage.args == command.args
            &&& stage.redirects == command.redirects
            &&& stage.cwd == seq!['.']
        }),
{
    reveal_strlit(".");
    assert("."@ =~= seq!['.']);
}

/// What a stage printed goes to one place: on to the next stage, or to the file
/// that its output is redirected to, whole and only there. Its errors go to the
/// file that they are redirected to, after the output. Neither changes its exit
/// code.
pub proof fn stages_print_to_one_place(
    end: StageEndModel,
    redirections: RedirectionsModel,
    bytes: Seq<u8>,
    out: (Seq<Seq<char>>, AppendMode),
    err: (Seq<Seq<char>>, AppendMode),
)
    requires
        end.output == Some(bytes),
    ensures
        ({
            let (kept, writes) = pipeline::diverted(end, redirections);
            let write_out = ActionModel::WriteFile(out.0, out.1, bytes);
            let write_err = ActionModel::WriteFile(err.0, err.1, end.errors);
            &&& kept.code == end.code && kept.reached == end.reached && kept.errors == end.errors
            &&& redirections.stdout is None ==> kept.output == Some(bytes)
            &&& redirections.stdout is Some ==> kept.output is None
            &&& redirections.stdout is None && redirections.stderr is None ==> writes.len() == 0
            &&& redirections.stdout == Some(out) && redirections.stderr is None ==> writes == seq![
                write_out,
            ]
            &&& redirections.stdout is None && redirections.stderr == Some(err) ==> writes == seq![
                write_err,
            ]
            &&& redirections.stdout == Some(out) && redirections.stderr == Some(err) ==> writes
                == seq![write_out, write_err]
        }),
{
    let (kept, writes) = pipeline::diverted(end, redirections);
    let write_out = ActionModel::WriteFile(out.0, out.1, bytes);
    let write_err = ActionModel::WriteFile(err.0, err.1, end.errors);
    if redirections.stdout == Some(out) && redirections.stderr == Some(err) {
        assert(writes =~= seq![write_out, write_err]);
    } else if redirections.stdout == Some(out) && redirections.stderr is None {
        assert(writes =~= seq![write_out]);
    } else if redirections.stdout is None && redirections.stderr == Some(err) {
        assert(writes =~= seq![write_err]);
    } else if redirections.stdout is None && redirections.stderr is None {
        assert(writes =~= Seq::empty());
    }
}

/// A stage that did not come as far as printing writes no file, and comes out
/// the same whatever its redirections.
pub proof fn stages_that_did_not_run_write_nothing(
    end: StageEndModel,
    redirections: RedirectionsModel,
)
    requires
        end.output is None,
    ensures
        pipeline::diverted(end, redirections).0 == end,
        pipeline::diverted(end, redirections).1.len() == 0,
        pipeline::refused_end().output is None,
        pipeline::refused_end().code == 1,
        !pipeline::refused_end().reached,
{
}

/// A pipeline ends with the exit code of its last stage, and shows what that
/// stage hands on before it reports the code. It exited, whatever the code,
/// where the stage reached it, and else it failed.
pub proof fn pipelines_end_as_their_last_stage(last: StageEndModel, bytes: Seq<u8>)
    ensures
        ({
            let end = pipeline::pipeline_end(last);
            let exited = EventModel::Exited(Some(last.code));
            &&& end.outcome.exit_code == Some(last.code)
            &&& end.outcome.status == PlanStatus::Exited <==> last.reached
            &&& end.outcome.status == PlanStatus::Failed <==> !last.reached
            &&& end.outcome.effects.len() == 0
            &&& last.output is None ==> end.events == seq![exited]
            &&& last.output == Some(bytes) ==> end.events == seq![
                EventModel::Output(Stream::Stdout, bytes),
                exited,
            ]
        }),
{
}

/// The exit code of a process is kept where a signed code can hold it, and is
/// never taken for success where it cannot.
pub proof fn exit_codes_are_kept(code: u32)
    ensures
        code < 0x8000_0000 ==> command_run::native_code(code) as int == code,
        code >= 0x8000_0000 ==> command_run::native_code(code) as int == 1,
        command_run::native_code(code) as int == 0 <==> code == 0,
{
}

/// A job is recorded under the digest of the plan that consists of its statement
/// alone, in hexadecimal.
pub proof fn jobs_are_recorded_under_their_digest(
    statement: StatementModel,
    plan: Seq<StatementModel>,
)
    requires
        plan.len() == 1,
        plan[0] == statement,
    ensures
        background::job_digest(statement) == shell_ir::hex_text(
            shell_ir::sha256(canonical::plan_bytes(plan)),
        ),
{
    assert(plan =~= seq![statement]);
}

} // verus!
