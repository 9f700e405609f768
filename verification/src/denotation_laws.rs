//! What plans, requests, operations and answers denote: each part of a value is
//! the same part of its model.

use vstd::prelude::*;
use crate::builtin::BuiltinResult;
use crate::builtin_run::{HostReply, HostReplyModel};
use crate::command::{CommandRequest, EventModel, SessionEvent, Stream};
use crate::command_run::{
    CommandEnd,
    ComponentReply,
    ComponentReplyModel,
    NativeReply,
    NativeReplyModel,
    Redirections,
    Target,
};
use crate::host_action::{ActionModel, AppendMode, FsAction, FsReply, ReplyModel};
use crate::host_path::HostPath;
use crate::model::Model;
use crate::native::NativeOutput;
use crate::pipeline::StageEnd;
use crate::shell_executor::{EffectRecord, Outcome};
use crate::shell_ir;
use crate::shell_ir::{
    Builtin,
    BuiltinModel,
    CommandSpec,
    Program,
    ProgramModel,
    Redirect,
    RedirectModel,
    SessionPath,
    Statement,
    StatementModel,
};
use crate::terminal_session::{PathFacts, TerminalSessionSpec};

verus! {

/// A builtin of a plan denotes that builtin with what it is given: what is copied
/// or moved is the source, and where it goes the destination.
pub proof fn builtins_denote_what_they_are_given(
    path: SessionPath,
    other: SessionPath,
    name: String,
    value: String,
    args: Vec<String>,
    i: int,
)
    ensures
        Builtin::Cd(path)@ == BuiltinModel::Cd(path@),
        Builtin::Ls(path)@ == BuiltinModel::Ls(path@),
        Builtin::Cat(path)@ == BuiltinModel::Cat(path@),
        Builtin::Mkdir(path)@ == BuiltinModel::Mkdir(path@),
        Builtin::Remove(path)@ == BuiltinModel::Remove(path@),
        (Builtin::Copy { from: path, to: other })@ == BuiltinModel::Copy(path@, other@),
        (Builtin::Move { from: path, to: other })@ == BuiltinModel::Move(path@, other@),
        Builtin::Which(name)@ == BuiltinModel::Which(name@),
        (Builtin::Export { name, value: Some(value) })@ == BuiltinModel::Export(
            name@,
            Some(value@),
        ),
        (Builtin::Export { name, value: None })@ == BuiltinModel::Export(name@, None),
        Builtin::Echo(args)@ is Echo,
        Builtin::Echo(args)@->Echo_0.len() == args@.len(),
        0 <= i < args@.len() ==> Builtin::Echo(args)@->Echo_0[i] == args@[i]@,
{
}

/// A redirection denotes the same redirection of the same path, and a program
/// the same program.
pub proof fn redirections_and_programs_denote_themselves(
    path: SessionPath,
    name: String,
    builtin: Builtin,
)
    ensures
        Redirect::Input(path)@ == RedirectModel::Input(path@),
        Redirect::OutputTruncate(path)@ == RedirectModel::OutputTruncate(path@),
        Redirect::OutputAppend(path)@ == RedirectModel::OutputAppend(path@),
        Redirect::ErrorTruncate(path)@ == RedirectModel::ErrorTruncate(path@),
        Redirect::ErrorAppend(path)@ == RedirectModel::ErrorAppend(path@),
        Program::Builtin(builtin)@ == ProgramModel::Builtin(builtin@),
        Program::External(name)@ == ProgramModel::External(name@),
        Program::WasiComponent(name)@ == ProgramModel::WasiComponent(name@),
{
}

/// A command denotes its program, its arguments and its redirections in order,
/// and its working directory.
pub proof fn commands_denote_their_parts(command: CommandSpec, i: int)
    ensures
        command@.program == command.program@,
        command@.cwd == command.cwd@,
        command@.args.len() == command.args@.len(),
        0 <= i < command.args@.len() ==> command@.args[i] == command.args@[i]@,
        command@.redirects.len() == command.redirects@.len(),
        0 <= i < command.redirects@.len() ==> command@.redirects[i] == command.redirects@[i]@,
{
}

/// A statement denotes what it is made of: of a condition the left side is the
/// left side, and the parts of a pipeline or a sequence keep their order.
pub proof fn statements_denote_their_parts(
    command: CommandSpec,
    stages: Vec<CommandSpec>,
    left: Statement,
    right: Statement,
    list: Vec<Statement>,
    i: int,
)
    ensures
        Statement::Command(command).model() == StatementModel::Command(command@),
        Statement::And(Box::new(left), Box::new(right)).model() == StatementModel::And(
            Box::new(left.model()),
            Box::new(right.model()),
        ),
        Statement::Or(Box::new(left), Box::new(right)).model() == StatementModel::Or(
            Box::new(left.model()),
            Box::new(right.model()),
        ),
        Statement::Background(Box::new(left)).model() == StatementModel::Background(
            Box::new(left.model()),
        ),
        Statement::Pipeline(stages).model() is Pipeline,
        Statement::Pipeline(stages).model()->Pipeline_0.len() == stages@.len(),
        0 <= i < stages@.len() ==> Statement::Pipeline(stages).model()->Pipeline_0[i] == stages@[i]@,
        Statement::Sequence(list).model() is Sequence,
        Statement::Sequence(list).model()->Sequence_0.len() == list@.len(),
        0 <= i < list@.len() ==> Statement::Sequence(list).model()->Sequence_0[i]
            == list@[i].model(),
{
    reveal_with_fuel(Statement::model, 2);
    shell_ir::lemma_statement_models(list@);
}

/// An operation on the filesystem denotes the same operation: what is copied or
/// renamed is the first path, and what it becomes the second.
pub proof fn operations_denote_themselves(
    path: HostPath,
    other: HostPath,
    limit: Option<usize>,
    mode: AppendMode,
    bytes: Vec<u8>,
)
    ensures
        FsAction::ReadDirectory(path)@ == ActionModel::ReadDirectory(path@),
        (FsAction::ReadFile { path, limit })@ == ActionModel::ReadFile(path@, limit),
        FsAction::CreateDirectory(path)@ == ActionModel::CreateDirectory(path@),
        FsAction::RemoveDirectory(path)@ == ActionModel::RemoveDirectory(path@),
        FsAction::RemoveFile(path)@ == ActionModel::RemoveFile(path@),
        (FsAction::CopyFile { from: path, to: other })@ == ActionModel::CopyFile(path@, other@),
        (FsAction::Rename { from: path, to: other })@ == ActionModel::Rename(path@, other@),
        (FsAction::WriteFile { path, mode, bytes })@ == ActionModel::WriteFile(path@, mode, bytes@),
{
}

/// An answer of the host denotes what it holds: a failure is a failure, with its
/// message.
pub proof fn answers_denote_what_they_hold(
    bytes: Vec<u8>,
    message: String,
    facts: PathFacts,
    path: HostPath,
    reply: FsReply,
)
    ensures
        FsReply::Bytes(Ok(bytes))@ == ReplyModel::Bytes(Ok(bytes@)),
        FsReply::Bytes(Err(message))@ == ReplyModel::Bytes(Err(message@)),
        FsReply::Names(Err(message))@ == ReplyModel::Names(Err(message@)),
        FsReply::Done(Ok(()))@ == ReplyModel::Done(Ok(())),
        FsReply::Done(Err(message))@ == ReplyModel::Done(Err(message@)),
        HostReply::Facts(facts)@ == HostReplyModel::Facts(facts@),
        HostReply::Landing(Some(path))@ == HostReplyModel::Landing(Some(path@)),
        HostReply::Landing(None)@ == HostReplyModel::Landing(None),
        HostReply::Fs(reply)@ == HostReplyModel::Fs(reply@),
        facts@.is_dir == facts.is_dir,
        facts.actual is None <==> facts@.actual is None,
        facts.actual is Some ==> facts@.actual == Some(facts.actual->0@),
{
}

/// What a process or a component printed to one stream is denoted as of that
/// stream, beside its exit code, and so it is of a builtin and of a stage.
pub proof fn printed_bytes_keep_their_stream(
    output: NativeOutput,
    stdout: Vec<u8>,
    stderr: Vec<u8>,
    exit_code: Option<i32>,
    result: BuiltinResult,
    end: StageEnd,
)
    ensures
        NativeReply::Ran(Ok(output))@ == NativeReplyModel::Exited(
            output.stdout@,
            output.stderr@,
            output.exit_code,
        ),
        (ComponentReply::Ran { stdout, stderr, exit_code })@ == ComponentReplyModel::Ran(
            stdout@,
            stderr@,
            exit_code,
        ),
        result@.stdout == result.stdout@,
        result@.stderr == result.stderr@,
        result@.exit_code == result.exit_code,
        end@.code == end.code,
        end@.reached == end.reached,
        end@.errors == end.errors@,
        end.output is None <==> end@.output is None,
        end.output is Some ==> end@.output == Some(end.output->0@),
{
}

/// A redirected stream is denoted as redirected to its own target.
pub proof fn redirected_streams_keep_their_target(redirections: Redirections, target: Target)
    ensures
        redirections.stdin is None <==> redirections@.stdin is None,
        redirections.stdin is Some ==> redirections@.stdin == Some(redirections.stdin->0@),
        redirections.stdout is None ==> redirections@.stdout is None,
        redirections.stderr is None ==> redirections@.stderr is None,
        redirections.stdout == Some(target) ==> redirections@.stdout == Some(
            (target.path@, target.mode),
        ),
        redirections.stderr == Some(target) ==> redirections@.stderr == Some(
            (target.path@, target.mode),
        ),
{
}

/// An event denotes the same event, with its stream and its bytes, or its code.
pub proof fn events_denote_themselves(
    stream: Stream,
    bytes: Vec<u8>,
    code: Option<i32>,
    request_id: u64,
)
    ensures
        (SessionEvent::Output { stream, bytes })@ == EventModel::Output(stream, bytes@),
        (SessionEvent::Exited { code })@ == EventModel::Exited(code),
        SessionEvent::Started@ == EventModel::Started,
        SessionEvent::Cancelled@ == EventModel::Cancelled,
        SessionEvent::Denied@ == EventModel::Denied,
        SessionEvent::Unsupported@ == EventModel::Unsupported,
        (SessionEvent::PendingApproval { request_id })@ == EventModel::PendingApproval(request_id),
{
}

/// A request denotes each of its parts, and so do the end of a command, its
/// outcome and an effect.
pub proof fn requests_and_ends_denote_their_parts(
    request: CommandRequest,
    end: CommandEnd,
    effect: EffectRecord,
    outcome: Outcome,
    spec: TerminalSessionSpec,
    i: int,
)
    ensures
        request@.id == request.id,
        request@.actor == request.actor,
        request@.mode == request.mode,
        request@.program == request.program@,
        request@.args.len() == request.args@.len(),
        0 <= i < request.args@.len() ==> request@.args[i] == request.args@[i]@,
        request@.cwd == request.cwd@,
        request@.grant == request.grant@,
        end@.events.len() == end.events@.len(),
        0 <= i < end.events@.len() ==> end@.events[i] == end.events@[i]@,
        end@.outcome == end.outcome@,
        outcome@.status == outcome.status,
        outcome@.exit_code == outcome.exit_code,
        outcome@.effects.len() == outcome.effects@.len(),
        0 <= i < outcome.effects@.len() ==> outcome@.effects[i] == outcome.effects@[i]@,
        effect@.kind == effect.kind,
        effect@.target == effect.target@,
        effect@.approved == effect.approved,
        spec@.id == spec.id,
        spec@.actor == spec.actor,
        spec@.cwd == spec.cwd@,
        spec@.grant == spec.base_grant@,
        spec@.limits == spec.limits,
{
}

/// A model of the catalog denotes each of its fields.
pub proof fn models_denote_their_fields(model: Model)
    ensures
        model@.slug == model.slug@,
        model@.name == model.name@,
        model@.provider == model.provider@,
        model@.context_window == model.context_window,
        model@.price_in_usd == model.price_in_usd,
        model@.price_out_usd == model.price_out_usd,
        model@.tpm == model.tpm,
        model@.rpm == model.rpm,
        model@.supports_tools == model.supports_tools,
        model@.supports_vision == model.supports_vision,
        model@.benchmarks == model.benchmarks,
        model@.updated_at == model.updated_at,
        model.region is None <==> model@.region is None,
        model.region is Some ==> model@.region == Some(model.region->0@),
{
}

} // verus!
