//! What a run of a command does, step by step: what it resolves, what it runs,
//! where its output goes and how it ends.

use vstd::prelude::*;
use crate::builtin;
use crate::builtin_laws;
use crate::builtin_run::{BuiltinStageModel, HostReplyModel};
use crate::capability::GrantModel;
use crate::command;
use crate::command::{EventModel, ExecutionMode, RequestModel, Stream};
use crate::command_run;
use crate::command_run::{
    CommandReplyModel,
    CommandStageModel,
    ComponentReplyModel,
    EndModel,
    GatheredModel,
    NativeReplyModel,
    RunModel,
};
use crate::host_action::{ActionModel, AppendMode, ReplyModel};
use crate::native::NativeFault;
use crate::shell_executor::{EffectModel, ExecuteFault, OutcomeModel, PlanStatus};
use crate::shell_ir::{BuiltinModel, CommandModel, ProgramModel, RedirectModel};
use crate::terminal_session::{FactsModel, SessionModel};
use crate::text_laws;

verus! {

/// Whether a request is the command's own: its program and its arguments, for
/// the session and its actor, in a working directory.
pub open spec fn is_own_request(
    request: RequestModel,
    program: Seq<char>,
    command: CommandModel,
    session: SessionModel,
    cwd: Option<Seq<Seq<char>>>,
) -> bool {
    &&& request.program == program
    &&& request.args == command.args
    &&& request.id == session.spec.id
    &&& request.actor == session.spec.actor
    &&& cwd == Some(request.cwd)
}

/// A component runs only once it was compiled, and then as the command says:
/// the component that the command names, with all of the command's own
/// arguments in order, in WASI mode, for the session and its actor, in the
/// working directory that was resolved, under the session's own grant.
pub proof fn components_run_as_the_command_says(
    command: CommandModel,
    session: SessionModel,
    run: RunModel,
    reply: CommandReplyModel,
    request: RequestModel,
)
    requires
        command_run::fits_command(run, command),
        command_run::answered(command, session, run, reply).stage
            == CommandStageModel::RunComponent(request),
    ensures
        run.stage is CompileComponent,
        reply matches CommandReplyModel::Compiled(compiled) && compiled is Ok,
        command.program == ProgramModel::WasiComponent(request.program),
        is_own_request(request, request.program, command, session, run.gathered.cwd),
        request.mode == ExecutionMode::Wasi,
        request.grant == session.spec.grant,
{
}

/// An external program is put to the authority as the command says: the program
/// and the arguments of the command, in native mode, for the session and its
/// actor, in the working directory that was just resolved, under the session's
/// grant with native execution; and what is then run is what was put.
pub proof fn programs_are_put_as_the_command_says(
    command: CommandModel,
    session: SessionModel,
    run: RunModel,
    reply: CommandReplyModel,
    request: RequestModel,
)
    ensures
        ({
            let after = command_run::answered(command, session, run, reply);
            &&& after.stage == CommandStageModel::Authorize(request) ==> {
                &&& run.stage is LookUpCwd
                &&& command.program == ProgramModel::External(request.program)
                &&& is_own_request(request, request.program, command, session, after.gathered.cwd)
                &&& request.mode == ExecutionMode::Native
                &&& request.grant == (GrantModel { native: true, ..session.spec.grant })
            }
            &&& run.stage == CommandStageModel::Authorize(request) && reply
                == CommandReplyModel::Verdict(Ok(())) ==> after.stage
                == CommandStageModel::RunNative(request)
        }),
{
}

/// The working directory of a command is below that of its session, where its
/// own path leads; once the host has found it in the grant, the program comes.
pub proof fn commands_run_in_their_working_directory(
    command: CommandModel,
    session: SessionModel,
    run: RunModel,
    names: Seq<Seq<char>>,
    facts: FactsModel,
)
    requires
        builtin_laws::spells(command.cwd, names),
        run.stage is LookUpCwd,
    ensures
        ({
            let reply = CommandReplyModel::Host(HostReplyModel::Facts(facts));
            let after = command_run::answered(command, session, run, reply);
            &&& command.redirects.len() == 0 ==> command_run::command_started(
                command,
                session,
            ).stage == CommandStageModel::LookUpCwd(session.cwd + names)
            &&& builtin_laws::is_found(facts, session.spec.grant) && (command.program is External
                || command.program is WasiComponent) ==> after.gathered.cwd == Some(
                session.cwd + names,
            )
            &&& !builtin_laws::is_found(facts, session.spec.grant)
                ==> after.stage matches CommandStageModel::Ended(Err(_))
        }),
{
    text_laws::paths_lead_where_their_names_say(session.cwd, names);
}

/// Redirections are resolved in order, and each has its own effect: `<` has its
/// file looked up and read, the others have their target located; what was read
/// is the input, and what was located takes one stream, to be truncated or to be
/// appended to. A later redirection of the same stream takes its place, and no
/// other is touched.
pub proof fn redirections_take_their_stream(
    command: CommandModel,
    session: SessionModel,
    run: RunModel,
    i: int,
    names: Seq<Seq<char>>,
    path: Seq<char>,
    bytes: Seq<u8>,
    landing: Option<Seq<Seq<char>>>,
)
    requires
        0 <= i < command.redirects.len(),
        command.redirects[i] == RedirectModel::Input(path) || command.redirects[i]
            == RedirectModel::OutputTruncate(path) || command.redirects[i]
            == RedirectModel::OutputAppend(path) || command.redirects[i]
            == RedirectModel::ErrorTruncate(path) || command.redirects[i]
            == RedirectModel::ErrorAppend(path),
        builtin_laws::spells(path, names),
    ensures
        ({
            let target = session.cwd + names;
            let grant = session.spec.grant;
            let kept = run.gathered;
            let asked = command_run::from_redirect(command, session, kept, i);
            let read = command_run::answered(
                command,
                session,
                RunModel { gathered: kept, stage: CommandStageModel::ReadInput(i, target) },
                CommandReplyModel::Host(HostReplyModel::Fs(ReplyModel::Bytes(Ok(bytes)))),
            );
            let located = command_run::answered(
                command,
                session,
                RunModel { gathered: kept, stage: CommandStageModel::LocateOutput(i, target) },
                CommandReplyModel::Host(HostReplyModel::Landing(landing)),
            );
            let writable = landing is Some && grant.covers_write(landing->0) && grant.covers(
                landing->0,
            ) && grant.covers(target) && grant.covers_write(target);
            &&& asked.gathered == kept
            &&& command.redirects[i] is Input ==> asked.stage == CommandStageModel::LookUpInput(
                i,
                target,
            ) && read == command_run::from_redirect(
                command,
                session,
                GatheredModel { stdin: Some(bytes), ..kept },
                i + 1,
            )
            &&& !(command.redirects[i] is Input) ==> asked.stage
                == CommandStageModel::LocateOutput(i, target)
            &&& command.redirects[i] is OutputTruncate && writable ==> located
                == command_run::from_redirect(
                command,
                session,
                GatheredModel { stdout_target: Some((target, AppendMode::Truncate)), ..kept },
                i + 1,
            )
            &&& command.redirects[i] is OutputAppend && writable ==> located
                == command_run::from_redirect(
                command,
                session,
                GatheredModel { stdout_target: Some((target, AppendMode::Append)), ..kept },
                i + 1,
            )
            &&& command.redirects[i] is ErrorTruncate && writable ==> located
                == command_run::from_redirect(
                command,
                session,
                GatheredModel { stderr_target: Some((target, AppendMode::Truncate)), ..kept },
                i + 1,
            )
            &&& command.redirects[i] is ErrorAppend && writable ==> located
                == command_run::from_redirect(
                command,
                session,
                GatheredModel { stderr_target: Some((target, AppendMode::Append)), ..kept },
                i + 1,
            )
            &&& !writable && !(command.redirects[i] is Input)
                ==> located.stage matches CommandStageModel::Ended(Err(_))
        }),
{
    text_laws::paths_lead_where_their_names_say(session.cwd, names);
}

/// An input that the host has found in the grant is read, where its path leads.
pub proof fn inputs_are_read_where_they_lead(
    command: CommandModel,
    session: SessionModel,
    run: RunModel,
    i: int,
    names: Seq<Seq<char>>,
    path: Seq<char>,
    facts: FactsModel,
)
    requires
        0 <= i < command.redirects.len(),
        command.redirects[i] == RedirectModel::Input(path),
        builtin_laws::spells(path, names),
        builtin_laws::is_found(facts, session.spec.grant),
        run.stage == CommandStageModel::LookUpInput(i, session.cwd + names),
    ensures
        command_run::answered(
            command,
            session,
            run,
            CommandReplyModel::Host(HostReplyModel::Facts(facts)),
        ) == (RunModel {
            gathered: run.gathered,
            stage: CommandStageModel::ReadInput(i, session.cwd + names),
        }),
{
    text_laws::paths_lead_where_their_names_say(session.cwd, names);
}

/// The event of some output, where there is any.
pub open spec fn shown(stream: Stream, bytes: Seq<u8>) -> Seq<EventModel> {
    if bytes.len() == 0 {
        Seq::empty()
    } else {
        seq![EventModel::Output(stream, bytes)]
    }
}

/// How a program ends whose output is not redirected: what it printed is shown,
/// standard output first, then its exit code; the outcome is that it exited with
/// that code, and its one effect.
pub open spec fn plain_end(
    stdout: Seq<u8>,
    stderr: Seq<u8>,
    code: i32,
    effect: EffectModel,
) -> CommandStageModel {
    CommandStageModel::Ended(
        Ok(
            EndModel {
                events: shown(Stream::Stdout, stdout) + shown(Stream::Stderr, stderr) + seq![
                    EventModel::Exited(Some(code)),
                ],
                outcome: OutcomeModel {
                    status: PlanStatus::Exited,
                    exit_code: Some(code),
                    effects: seq![effect],
                },
            },
        ),
    )
}

proof fn lemma_exited_plainly(
    gathered: GatheredModel,
    stdout: Seq<u8>,
    stderr: Seq<u8>,
    code: i32,
    effect: EffectModel,
)
    requires
        gathered.stdout_target is None,
        gathered.stderr_target is None,
    ensures
        command_run::exited(gathered, stdout, stderr, Some(code), effect, false).stage == plain_end(
            stdout,
            stderr,
            code,
            effect,
        ),
{
    let shown_events = shown(Stream::Stdout, stdout) + shown(Stream::Stderr, stderr);
    let run = command_run::exited(gathered, stdout, stderr, Some(code), effect, false);
    let end = match run.stage {
        CommandStageModel::Ended(Ok(end)) => end,
        _ => arbitrary(),
    };
    assert(end.events =~= shown_events + seq![EventModel::Exited(Some(code))]);
}

/// A native program that exits without redirections shows what it printed and
/// ends with its own exit code, or 1 where the code does not fit; one that was
/// cancelled, that printed too much or that was stopped otherwise says so.
pub proof fn native_programs_end_as_they_came_out(
    command: CommandModel,
    session: SessionModel,
    run: RunModel,
    request: RequestModel,
    stdout: Seq<u8>,
    stderr: Seq<u8>,
    code: u32,
)
    requires
        run.stage == CommandStageModel::RunNative(request),
        run.gathered.stdout_target is None,
        run.gathered.stderr_target is None,
    ensures
        ({
            let effect = EffectModel { kind: "native", target: request.program, approved: true };
            let exited = command_run::answered(
                command,
                session,
                run,
                CommandReplyModel::Native(NativeReplyModel::Exited(stdout, stderr, code)),
            ).stage;
            let stopped = |fault: NativeFault| command_run::answered(
                command,
                session,
                run,
                CommandReplyModel::Native(NativeReplyModel::Stopped(fault)),
            ).stage;
            &&& code <= 0x7fff_ffff ==> exited == plain_end(stdout, stderr, code as i32, effect)
            &&& code > 0x7fff_ffff ==> exited == plain_end(stdout, stderr, 1, effect)
            &&& stopped(NativeFault::Cancelled) == stopped_end(
                EventModel::Cancelled,
                PlanStatus::Cancelled,
                None,
                effect,
            )
            &&& stopped(NativeFault::OutputLimit) == stopped_end(
                EventModel::Denied,
                PlanStatus::Failed,
                Some(1i32),
                effect,
            )
            &&& stopped(NativeFault::Timeout) == stopped_end(
                EventModel::Unsupported,
                PlanStatus::Failed,
                Some(1i32),
                effect,
            )
        }),
{
    let effect = EffectModel { kind: "native", target: request.program, approved: true };
    lemma_exited_plainly(
        run.gathered,
        stdout,
        stderr,
        if code <= 0x7fff_ffff {
            code as i32
        } else {
            1i32
        },
        effect,
    );
}

/// How a program ends that was stopped: one event, and no output.
pub open spec fn stopped_end(
    event: EventModel,
    status: PlanStatus,
    code: Option<i32>,
    effect: EffectModel,
) -> CommandStageModel {
    CommandStageModel::Ended(
        Ok(
            EndModel {
                events: seq![event],
                outcome: OutcomeModel { status, exit_code: code, effects: seq![effect] },
            },
        ),
    )
}

/// A component has shown its output while it ran: what is left is its exit code.
/// One that reached none has failed with code 1, and one that was cancelled says
/// so.
pub proof fn components_end_as_they_came_out(
    command: CommandModel,
    session: SessionModel,
    run: RunModel,
    request: RequestModel,
    stdout: Seq<u8>,
    stderr: Seq<u8>,
    code: i32,
)
    requires
        run.stage == CommandStageModel::RunComponent(request),
        run.gathered.stdout_target is None,
        run.gathered.stderr_target is None,
    ensures
        ({
            let effect = EffectModel { kind: "wasi", target: request.program, approved: false };
            let came = |reply: ComponentReplyModel| command_run::answered(
                command,
                session,
                run,
                CommandReplyModel::Component(reply),
            ).stage;
            &&& came(ComponentReplyModel::Ran(stdout, stderr, Some(code))) == stopped_end(
                EventModel::Exited(Some(code)),
                PlanStatus::Exited,
                Some(code),
                effect,
            )
            &&& came(ComponentReplyModel::Ran(stdout, stderr, None)) == stopped_end(
                EventModel::Exited(Some(1i32)),
                PlanStatus::Failed,
                Some(1i32),
                effect,
            )
            &&& came(ComponentReplyModel::Cancelled) == stopped_end(
                EventModel::Cancelled,
                PlanStatus::Cancelled,
                None,
                effect,
            )
            &&& came(ComponentReplyModel::Panicked) == CommandStageModel::Ended(
                Err(ExecuteFault::InvalidPlan("WASI runner panicked")),
            )
        }),
{
    let none = Seq::<EventModel>::empty();
    assert(none.push(EventModel::Exited(Some(code))) =~= seq![EventModel::Exited(Some(code))]);
    assert(none.push(EventModel::Exited(Some(1i32))) =~= seq![EventModel::Exited(Some(1i32))]);
}

/// A builtin that ends shows what it printed and ends with its exit code; its
/// effect needs no approval.
pub proof fn builtins_end_as_they_came_out(
    gathered: GatheredModel,
    builtin: BuiltinModel,
    result: builtin::ResultModel,
)
    requires
        gathered.stdout_target is None,
        gathered.stderr_target is None,
    ensures
        ({
            let stage = command_run::with_builtin(
                gathered,
                builtin,
                BuiltinStageModel::Ended(result),
            ).stage;
            let effect = EffectModel {
                kind: "builtin",
                target: command_run::builtin_record(builtin),
                approved: false,
            };
            stage == plain_end(result.stdout, result.stderr, result.exit_code, effect)
        }),
{
    let effect = EffectModel {
        kind: "builtin",
        target: command_run::builtin_record(builtin),
        approved: false,
    };
    lemma_exited_plainly(gathered, result.stdout, result.stderr, result.exit_code, effect);
}

/// Each redirected stream is written to its own target, standard output first,
/// and what is not redirected is shown; the exit code is reported last.
pub proof fn output_goes_to_one_place(
    gathered: GatheredModel,
    stdout: Seq<u8>,
    stderr: Seq<u8>,
    code: i32,
    effect: EffectModel,
    out: (Seq<Seq<char>>, AppendMode),
    err: (Seq<Seq<char>>, AppendMode),
)
    ensures
        ({
            let both = command_run::exited(
                GatheredModel {
                    stdout_target: Some(out),
                    stderr_target: Some(err),
                    ..gathered
                },
                stdout,
                stderr,
                Some(code),
                effect,
                false,
            ).stage;
            let only_out = command_run::exited(
                GatheredModel { stdout_target: Some(out), stderr_target: None, ..gathered },
                stdout,
                stderr,
                Some(code),
                effect,
                false,
            ).stage;
            let only_err = command_run::exited(
                GatheredModel { stdout_target: None, stderr_target: Some(err), ..gathered },
                stdout,
                stderr,
                Some(code),
                effect,
                false,
            ).stage;
            let outcome = OutcomeModel {
                status: PlanStatus::Exited,
                exit_code: Some(code),
                effects: seq![effect],
            };
            let exit = seq![EventModel::Exited(Some(code))];
            &&& both == CommandStageModel::Write(
                seq![
                    ActionModel::WriteFile(out.0, out.1, stdout),
                    ActionModel::WriteFile(err.0, err.1, stderr),
                ],
                EndModel { events: exit, outcome },
            )
            &&& only_out == CommandStageModel::Write(
                seq![ActionModel::WriteFile(out.0, out.1, stdout)],
                EndModel { events: shown(Stream::Stderr, stderr) + exit, outcome },
            )
            &&& only_err == CommandStageModel::Write(
                seq![ActionModel::WriteFile(err.0, err.1, stderr)],
                EndModel { events: shown(Stream::Stdout, stdout) + exit, outcome },
            )
        }),
{
    let exit = EventModel::Exited(Some(code));
    let none = Seq::<EventModel>::empty();
    let o = shown(Stream::Stdout, stdout);
    let e = shown(Stream::Stderr, stderr);
    assert((none + none).push(exit) =~= seq![exit]);
    assert((none + e).push(exit) =~= e + seq![exit]);
    assert((o + none).push(exit) =~= o + seq![exit]);
    let w = ActionModel::WriteFile(out.0, out.1, stdout);
    let x = ActionModel::WriteFile(err.0, err.1, stderr);
    assert(seq![w] + seq![x] =~= seq![w, x]);
    assert(seq![w] + Seq::<ActionModel>::empty() =~= seq![w]);
    assert(Seq::<ActionModel>::empty() + seq![x] =~= seq![x]);
}

/// The files are written one after the other, in order, and the command ends
/// once the last was; a file that cannot be written ends it with the reason.
pub proof fn files_are_written_one_after_the_other(
    command: CommandModel,
    session: SessionModel,
    run: RunModel,
    first: ActionModel,
    rest: Seq<ActionModel>,
    end: EndModel,
    reason: Seq<char>,
)
    requires
        run.stage == CommandStageModel::Write(seq![first] + rest, end),
    ensures
        ({
            let done = command_run::answered(
                command,
                session,
                run,
                CommandReplyModel::Host(HostReplyModel::Fs(ReplyModel::Done(Ok(())))),
            ).stage;
            let failed = command_run::answered(
                command,
                session,
                run,
                CommandReplyModel::Host(HostReplyModel::Fs(ReplyModel::Done(Err(reason)))),
            ).stage;
            &&& rest.len() == 0 ==> done == CommandStageModel::Ended(Ok(end))
            &&& rest.len() > 0 ==> done == CommandStageModel::Write(rest, end)
            &&& failed == CommandStageModel::Ended(Err(ExecuteFault::Io(reason)))
        }),
{
    assert((seq![first] + rest).skip(1) =~= rest);
}

/// A `cat` with redirected input prints that input, all of it, and reads no
/// file of its own.
pub proof fn cat_prints_its_redirected_input(
    command: CommandModel,
    session: SessionModel,
    run: RunModel,
    path: Seq<char>,
    input: Seq<u8>,
    facts: FactsModel,
    names: Seq<Seq<char>>,
)
    requires
        command.program == ProgramModel::Builtin(BuiltinModel::Cat(path)),
        run.stage is LookUpCwd,
        run.gathered.stdin == Some(input),
        run.gathered.stdout_target is None,
        run.gathered.stderr_target is None,
        builtin_laws::spells(command.cwd, names),
        builtin_laws::is_found(facts, session.spec.grant),
    ensures
        command_run::answered(
            command,
            session,
            run,
            CommandReplyModel::Host(HostReplyModel::Facts(facts)),
        ).stage == plain_end(
            input,
            Seq::empty(),
            0,
            EffectModel {
                kind: "builtin",
                target: command_run::builtin_record(BuiltinModel::Cat(path)),
                approved: false,
            },
        ),
{
    text_laws::paths_lead_where_their_names_say(session.cwd, names);
    let with_cwd = GatheredModel { cwd: Some(session.cwd + names), ..run.gathered };
    builtins_end_as_they_came_out(
        with_cwd,
        BuiltinModel::Cat(path),
        builtin_laws::printed(input),
    );
}

/// A component is looked up below the working directory of the session, read
/// whole and compiled from exactly the bytes that were read.
pub proof fn components_are_compiled_from_what_was_read(
    command: CommandModel,
    session: SessionModel,
    run: RunModel,
    path: Seq<char>,
    names: Seq<Seq<char>>,
    facts: FactsModel,
    bytes: Seq<u8>,
    reason: Seq<char>,
)
    requires
        command.program == ProgramModel::WasiComponent(path),
        builtin_laws::spells(path, names),
        builtin_laws::is_found(facts, session.spec.grant),
    ensures
        ({
            let target = session.cwd + names;
            let at = |stage: CommandStageModel| RunModel { gathered: run.gathered, stage };
            let told = CommandReplyModel::Host(HostReplyModel::Facts(facts));
            let read = CommandReplyModel::Host(HostReplyModel::Fs(ReplyModel::Bytes(Ok(bytes))));
            let rejected = CommandReplyModel::Compiled(Err(reason));
            &&& command_run::answered(
                command,
                session,
                at(CommandStageModel::LookUpComponent(target)),
                told,
            ).stage == CommandStageModel::ReadComponent(target)
            &&& command_run::answered(
                command,
                session,
                at(CommandStageModel::ReadComponent(target)),
                read,
            ).stage == CommandStageModel::CompileComponent(bytes)
            &&& command_run::answered(
                command,
                session,
                at(CommandStageModel::CompileComponent(bytes)),
                rejected,
            ).stage == CommandStageModel::Ended(Err(ExecuteFault::Wasi(reason)))
        }),
{
    text_laws::paths_lead_where_their_names_say(session.cwd, names);
}

/// What the authority refuses does not run: the command ends with its reason.
pub proof fn refused_programs_do_not_run(
    command: CommandModel,
    session: SessionModel,
    run: RunModel,
    request: RequestModel,
    fault: ExecuteFault,
)
    requires
        run.stage == CommandStageModel::Authorize(request),
    ensures
        command_run::answered(
            command,
            session,
            run,
            CommandReplyModel::Verdict(Err(fault)),
        ).stage == CommandStageModel::Ended(Err(fault)),
{
}

/// The effect of a builtin names it and every path or text that it was given, in
/// order.
pub proof fn effects_name_what_was_done(
    path: Seq<char>,
    other: Seq<char>,
    value: Seq<char>,
    first: Seq<char>,
    second: Seq<char>,
)
    ensures
        ({
            let a = command_run::debug_text(path);
            let b = command_run::debug_text(other);
            let v = command_run::debug_text(value);
            &&& command_run::builtin_record(BuiltinModel::Pwd) == "Pwd"@
            &&& command_run::builtin_record(BuiltinModel::Env) == "Env"@
            &&& command_run::builtin_record(BuiltinModel::Cd(path)) == "Cd(SessionPath("@ + a
                + "))"@
            &&& command_run::builtin_record(BuiltinModel::Ls(path)) == "Ls(SessionPath("@ + a
                + "))"@
            &&& command_run::builtin_record(BuiltinModel::Cat(path)) == "Cat(SessionPath("@ + a
                + "))"@
            &&& command_run::builtin_record(BuiltinModel::Mkdir(path)) == "Mkdir(SessionPath("@ + a
                + "))"@
            &&& command_run::builtin_record(BuiltinModel::Remove(path)) == "Remove(SessionPath("@
                + a + "))"@
            &&& command_run::builtin_record(BuiltinModel::Copy(path, other))
                == "Copy { from: SessionPath("@ + a + "), to: SessionPath("@ + b + ") }"@
            &&& command_run::builtin_record(BuiltinModel::Move(path, other))
                == "Move { from: SessionPath("@ + a + "), to: SessionPath("@ + b + ") }"@
            &&& command_run::builtin_record(BuiltinModel::Which(path)) == "Which("@ + a + ")"@
            &&& command_run::builtin_record(BuiltinModel::Export(path, Some(value)))
                == "Export { name: "@ + a + ", value: Some("@ + v + ") }"@
            &&& command_run::builtin_record(BuiltinModel::Export(path, None)) == "Export { name: "@
                + a + ", value: None }"@
            &&& command_run::builtin_record(BuiltinModel::Echo(seq![first, second])) == "Echo(["@
                + command_run::debug_text(first) + ", "@ + command_run::debug_text(second)
                + "])"@
        }),
{
    reveal_strlit("SessionPath(");
    reveal_strlit(")");
    reveal_strlit("))");
    reveal_strlit("Cd(");
    reveal_strlit("Cd(SessionPath(");
    reveal_strlit("Ls(");
    reveal_strlit("Ls(SessionPath(");
    reveal_strlit("Cat(");
    reveal_strlit("Cat(SessionPath(");
    reveal_strlit("Mkdir(");
    reveal_strlit("Mkdir(SessionPath(");
    reveal_strlit("Remove(");
    reveal_strlit("Remove(SessionPath(");
    reveal_strlit("Copy { from: ");
    reveal_strlit("Copy { from: SessionPath(");
    reveal_strlit("Move { from: ");
    reveal_strlit("Move { from: SessionPath(");
    reveal_strlit(", to: ");
    reveal_strlit("), to: SessionPath(");
    reveal_strlit(" }");
    reveal_strlit(") }");
    reveal_strlit("Export { name: ");
    reveal_strlit(", value: ");
    reveal_strlit("Some(");
    reveal_strlit(", value: Some(");
    reveal_strlit("None");
    reveal_strlit(", value: None }");
    let a = command_run::debug_text(path);
    let b = command_run::debug_text(other);
    let v = command_run::debug_text(value);
    assert(command_run::builtin_record(BuiltinModel::Cd(path)) =~= "Cd(SessionPath("@ + a + "))"@);
    assert(command_run::builtin_record(BuiltinModel::Ls(path)) =~= "Ls(SessionPath("@ + a + "))"@);
    assert(command_run::builtin_record(BuiltinModel::Cat(path)) =~= "Cat(SessionPath("@ + a
        + "))"@);
    assert(command_run::builtin_record(BuiltinModel::Mkdir(path)) =~= "Mkdir(SessionPath("@ + a
        + "))"@);
    assert(command_run::builtin_record(BuiltinModel::Remove(path)) =~= "Remove(SessionPath("@ + a
        + "))"@);
    assert(command_run::builtin_record(BuiltinModel::Copy(path, other))
        =~= "Copy { from: SessionPath("@ + a + "), to: SessionPath("@ + b + ") }"@);
    assert(command_run::builtin_record(BuiltinModel::Move(path, other))
        =~= "Move { from: SessionPath("@ + a + "), to: SessionPath("@ + b + ") }"@);
    assert(command_run::builtin_record(BuiltinModel::Export(path, Some(value)))
        =~= "Export { name: "@ + a + ", value: Some("@ + v + ") }"@);
    assert(command_run::builtin_record(BuiltinModel::Export(path, None)) =~= "Export { name: "@ + a
        + ", value: None }"@);
    let two = seq![first, second];
    assert(two.drop_last() =~= seq![first]);
    reveal_with_fuel(command_run::list_record, 3);
    let listed = command_run::debug_text(first) + ", "@ + command_run::debug_text(second);
    assert(command_run::list_record(two) =~= listed);
    assert("Echo(["@ + listed + "])"@ =~= "Echo(["@ + command_run::debug_text(first) + ", "@
        + command_run::debug_text(second) + "])"@);
}

/// The arguments of `echo` are recorded in order, with a comma and a space
/// between every two neighbours, however many there are.
pub proof fn recorded_lists_keep_their_order(list: Seq<Seq<char>>, more: Seq<char>)
    ensures
        list.len() > 0 ==> command_run::list_record(list.push(more)) == command_run::list_record(
            list,
        ) + seq![',', ' '] + command_run::debug_text(more),
        command_run::list_record(seq![more]) == command_run::debug_text(more),
        command_run::list_record(Seq::empty()) == Seq::<char>::empty(),
{
    reveal_strlit(", ");
    assert(list.push(more).drop_last() =~= list);
    assert(", "@ =~= seq![',', ' ']);
}

/// A file that cannot be read, as input or as a component, ends the command with
/// the reason, and so does a runner that breaks down.
pub proof fn failures_of_the_host_end_the_command(
    command: CommandModel,
    session: SessionModel,
    gathered: GatheredModel,
    i: int,
    path: Seq<Seq<char>>,
    request: RequestModel,
    error: Seq<char>,
)
    ensures
        ({
            let at = |stage: CommandStageModel| RunModel { gathered, stage };
            let unread = CommandReplyModel::Host(HostReplyModel::Fs(ReplyModel::Bytes(Err(error))));
            let failed = CommandStageModel::Ended(Err(ExecuteFault::Io(error)));
            &&& command_run::answered(
                command,
                session,
                at(CommandStageModel::ReadInput(i, path)),
                unread,
            ).stage == failed
            &&& command_run::answered(
                command,
                session,
                at(CommandStageModel::ReadComponent(path)),
                unread,
            ).stage == failed
            &&& command_run::answered(
                command,
                session,
                at(CommandStageModel::RunNative(request)),
                CommandReplyModel::Native(NativeReplyModel::Panicked),
            ).stage == CommandStageModel::Ended(
                Err(ExecuteFault::InvalidPlan("native runner panicked")),
            )
        }),
{
}

/// Whether a reply answers what a command waits for.
pub open spec fn answers(stage: CommandStageModel, reply: CommandReplyModel) -> bool {
    match stage {
        CommandStageModel::LookUpInput(_, _)
        | CommandStageModel::LookUpCwd(_)
        | CommandStageModel::LookUpComponent(_) => {
            reply matches CommandReplyModel::Host(HostReplyModel::Facts(_))
        },
        CommandStageModel::ReadInput(_, _) | CommandStageModel::ReadComponent(_) => {
            reply matches CommandReplyModel::Host(HostReplyModel::Fs(ReplyModel::Bytes(_)))
        },
        CommandStageModel::LocateOutput(_, _) => {
            reply matches CommandReplyModel::Host(HostReplyModel::Landing(_))
        },
        CommandStageModel::Write(_, _) => {
            reply matches CommandReplyModel::Host(HostReplyModel::Fs(ReplyModel::Done(_)))
        },
        CommandStageModel::Builtin(_) => reply is Host,
        CommandStageModel::Authorize(_) => reply is Verdict,
        CommandStageModel::RunNative(_) => reply is Native,
        CommandStageModel::CompileComponent(_) => reply is Compiled,
        CommandStageModel::RunComponent(_) => reply is Component,
        CommandStageModel::Ended(_) => true,
    }
}

/// A command that is answered what it did not ask for ends, and changes nothing;
/// one that has ended stays as it ended.
pub proof fn commands_end_on_other_answers(
    command: CommandModel,
    session: SessionModel,
    run: RunModel,
    reply: CommandReplyModel,
)
    ensures
        !answers(run.stage, reply) ==> command_run::answered(command, session, run, reply).stage
            == CommandStageModel::Ended(Err(ExecuteFault::InvalidPlan("unexpected host reply"))),
        !answers(run.stage, reply) ==> command_run::session_answered(command, session, run, reply)
            == session,
        run.stage is Ended ==> command_run::answered(command, session, run, reply) == run,
{
}

/// A session changes as the builtin of a command says, and in no other way: after
/// `cd` it stands in the directory, after `export` the variable has its value, and
/// a program or a component changes nothing.
pub proof fn sessions_change_as_their_commands_say(
    command: CommandModel,
    session: SessionModel,
    run: RunModel,
    names: Seq<Seq<char>>,
    facts: FactsModel,
    reply: CommandReplyModel,
    path: Seq<char>,
    name: Seq<char>,
    value: Seq<char>,
)
    requires
        builtin_laws::spells(path, names),
        builtin_laws::is_found(facts, session.spec.grant),
    ensures
        ({
            let told = CommandReplyModel::Host(HostReplyModel::Facts(facts));
            let after = command_run::session_answered(command, session, run, told);
            let export = BuiltinModel::Export(name, Some(value));
            let waits = run.stage matches CommandStageModel::Builtin(BuiltinStageModel::LookUp(_));
            &&& command.program == ProgramModel::Builtin(BuiltinModel::Cd(path)) && waits
                && facts.is_dir ==> after == (SessionModel { cwd: session.cwd + names, ..session })
            &&& command.program == ProgramModel::Builtin(export) && run.stage is LookUpCwd
                && command.cwd == path && session.spec.grant.environment.contains(name) ==> after
                == (SessionModel { env: session.env.insert(name, value), ..session })
            &&& !(command.program is Builtin) && command_run::fits_command(run, command)
                ==> command_run::session_answered(command, session, run, reply) == session
        }),
{
    text_laws::paths_lead_where_their_names_say(session.cwd, names);
}

} // verus!
