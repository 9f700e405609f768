//! Sessions, builtins, plans and the shell, on a filesystem in memory.

use std::collections::{BTreeMap, BTreeSet};

use ferrous::background::{background_code, background_outcome, start_background};
use ferrous::builtin::BuiltinResult;
use ferrous::builtin_run::{advance_builtin, start_builtin, BuiltinStage, HostReply};
use ferrous::cancel::CancelHandle;
use ferrous::capability::{CapabilityGrant, FilesystemAccess, ResourceLimits};
use ferrous::command::{Actor, CommandRequest, ExecutionMode, SessionEvent, Stream};
use ferrous::command_run::{
    CommandReply, CommandRun, CommandStage, ComponentReply, NativeReply, Redirections, Target,
};
use ferrous::host_action::{AppendMode, FsAction, FsReply};
use ferrous::host_path::HostPath;
use ferrous::native::{NativeError, NativeOutput};
use ferrous::pipeline::{
    check_pipeline, finish_pipeline, hands_on, plan_stage, preflight, reads_input, resolve_stage,
    takes_pipe, ComponentCode, StageEnd, StageInput, StagePlan,
};
use ferrous::shell::{
    banner, line_action, notice, parse_notice, prompt_verdict, reply, shell_session, LineAction,
    RenderSink, ShellOptions,
};
use ferrous::shell_executor::{
    ApprovalAuthorityView, DenyNative, EventSink, ExecuteError, Outcome, PlanResult, PlanStatus,
    PlanStep, Progress, ShellExecutor, VecSink,
};
use ferrous::shell_ir::{
    Builtin, CommandSpec, NativeShellKind, Program, Redirect, SessionPath, ShellProgram, Statement,
};
use ferrous::shell_parse::ShellParser;
use ferrous::terminal_session::{
    EnvDelta, PathFacts, SessionError, TerminalSession, TerminalSessionSpec, DEFAULT_MAX_JOBS,
};
use ferrous::text_map::TextMap;

/// A filesystem in memory.
struct Host {
    files: BTreeMap<String, Vec<u8>>,
    directories: BTreeSet<String>,
    links: BTreeMap<String, String>,
}

fn parent_of(path: &str) -> String {
    match path.rfind('/') {
        Some(0) | None => "/".to_owned(),
        Some(at) => path[..at].to_owned(),
    }
}

impl Host {
    fn new(root: &str) -> Self {
        let mut directories = BTreeSet::new();
        directories.insert("/".to_owned());
        directories.insert(root.to_owned());
        Host {
            files: BTreeMap::new(),
            directories,
            links: BTreeMap::new(),
        }
    }

    fn actual(&self, path: &HostPath) -> String {
        let text = path.to_text();
        for (link, target) in &self.links {
            if text == *link {
                return target.clone();
            }
            if let Some(rest) = text.strip_prefix(&format!("{link}/")) {
                return format!("{target}/{rest}");
            }
        }
        text
    }

    fn facts(&self, path: &HostPath) -> PathFacts {
        let actual = self.actual(path);
        let is_dir = self.directories.contains(&actual);
        let known = is_dir || self.files.contains_key(&actual);
        PathFacts {
            actual: if known {
                HostPath::parse(&actual)
            } else {
                None
            },
            is_dir,
        }
    }

    fn landing(&self, path: &HostPath) -> Option<HostPath> {
        HostPath::parse(&self.actual(path))
    }

    fn perform(&mut self, action: &FsAction) -> FsReply {
        match action {
            FsAction::ReadDirectory(path) => {
                let actual = self.actual(path);
                if !self.directories.contains(&actual) {
                    return FsReply::Names(Err("not a directory".to_owned()));
                }
                let mut names = Vec::new();
                for entry in self.files.keys().chain(self.directories.iter()) {
                    if *entry != actual && parent_of(entry) == actual {
                        names.push(entry[parent_of(entry).len()..].trim_matches('/').to_owned());
                    }
                }
                // The host promises no order.
                names.reverse();
                FsReply::Names(Ok(names))
            }
            FsAction::ReadFile { path, limit } => {
                let actual = self.actual(path);
                match self.files.get(&actual) {
                    Some(bytes) => {
                        let count = limit.unwrap_or(bytes.len()).min(bytes.len());
                        FsReply::Bytes(Ok(bytes[..count].to_vec()))
                    }
                    None => FsReply::Bytes(Err("no such file".to_owned())),
                }
            }
            FsAction::CreateDirectory(path) => {
                let inserted = self.directories.insert(path.to_text());
                FsReply::Done(if inserted {
                    Ok(())
                } else {
                    Err("file exists".to_owned())
                })
            }
            FsAction::RemoveDirectory(path) => {
                let removed = self.directories.remove(&path.to_text());
                FsReply::Done(if removed {
                    Ok(())
                } else {
                    Err("no such directory".to_owned())
                })
            }
            FsAction::RemoveFile(path) => {
                let removed = self.files.remove(&path.to_text()).is_some();
                FsReply::Done(if removed {
                    Ok(())
                } else {
                    Err("no such file".to_owned())
                })
            }
            FsAction::CopyFile { from, to } => match self.files.get(&self.actual(from)).cloned() {
                Some(bytes) => {
                    self.files.insert(to.to_text(), bytes);
                    FsReply::Done(Ok(()))
                }
                None => FsReply::Done(Err("no such file".to_owned())),
            },
            FsAction::Rename { from, to } => match self.files.remove(&from.to_text()) {
                Some(bytes) => {
                    self.files.insert(to.to_text(), bytes);
                    FsReply::Done(Ok(()))
                }
                None => FsReply::Done(Err("no such file".to_owned())),
            },
            FsAction::FindFile(candidates) => FsReply::Found(
                candidates
                    .iter()
                    .position(|candidate| self.files.contains_key(candidate)),
            ),
            FsAction::WriteFile { path, mode, bytes } => {
                let file = self.files.entry(path.to_text()).or_default();
                if *mode == AppendMode::Truncate {
                    file.clear();
                }
                file.extend_from_slice(bytes);
                FsReply::Done(Ok(()))
            }
        }
    }

    fn native(&self, request: &CommandRequest) -> NativeReply {
        match request.program.as_str() {
            "false" => exited(1, b""),
            "true" => exited(0, b""),
            "say" => exited(0, request.args.join(" ").as_bytes()),
            other => NativeReply::NotSpawned(NativeError::SpawnFailed(format!(
                "no such program: {other}"
            ))),
        }
    }
}

fn exited(exit_code: u32, stdout: &[u8]) -> NativeReply {
    NativeReply::Ran(Ok(NativeOutput {
        stdout: stdout.to_vec(),
        stderr: Vec::new(),
        exit_code,
    }))
}

fn run_builtin(host: &mut Host, builtin: &Builtin, session: &mut TerminalSession) -> BuiltinResult {
    let mut stage = start_builtin(builtin, session);
    loop {
        let answer = match &stage {
            BuiltinStage::LookUp(path) => HostReply::Facts(host.facts(path)),
            BuiltinStage::Locate { path, .. } => HostReply::Landing(host.landing(path)),
            BuiltinStage::SearchPath => HostReply::SearchPath(None),
            BuiltinStage::Perform { action, .. } => HostReply::Fs(host.perform(action)),
            BuiltinStage::Ended(_) => break,
        };
        stage = advance_builtin(stage, builtin, session, answer);
    }
    match stage {
        BuiltinStage::Ended(result) => result,
        _ => unreachable!(),
    }
}

fn run_command<A: ApprovalAuthorityView, S: EventSink>(
    host: &mut Host,
    command: &CommandSpec,
    session: &mut TerminalSession,
    authority: &A,
    sink: &mut S,
) -> Result<Outcome, ExecuteError> {
    let mut run = CommandRun::start(command, session);
    loop {
        let answer = match run.stage() {
            CommandStage::LookUpInput { path, .. }
            | CommandStage::LookUpCwd(path)
            | CommandStage::LookUpComponent(path)
            | CommandStage::Builtin(BuiltinStage::LookUp(path)) => {
                CommandReply::Host(HostReply::Facts(host.facts(path)))
            }
            CommandStage::LocateOutput { path, .. }
            | CommandStage::Builtin(BuiltinStage::Locate { path, .. }) => {
                CommandReply::Host(HostReply::Landing(host.landing(path)))
            }
            CommandStage::ReadInput { path, .. } | CommandStage::ReadComponent(path) => {
                let read = FsAction::ReadFile {
                    path: path.clone(),
                    limit: None,
                };
                CommandReply::Host(HostReply::Fs(host.perform(&read)))
            }
            CommandStage::Builtin(BuiltinStage::SearchPath) => {
                CommandReply::Host(HostReply::SearchPath(None))
            }
            CommandStage::Builtin(BuiltinStage::Perform { action, .. }) => {
                CommandReply::Host(HostReply::Fs(host.perform(action)))
            }
            CommandStage::Builtin(BuiltinStage::Ended(_)) => unreachable!(),
            CommandStage::Authorize(request) => {
                CommandReply::Verdict(authority.authorize_native(request))
            }
            CommandStage::RunNative(request) => CommandReply::Native(host.native(request)),
            CommandStage::CompileComponent(bytes) => {
                CommandReply::Compiled(if bytes == b"component" {
                    Ok(())
                } else {
                    Err("not a component".to_owned())
                })
            }
            CommandStage::RunComponent(_) => CommandReply::Component(ComponentReply::Ran {
                stdout: b"guest\n".to_vec(),
                stderr: Vec::new(),
                exit_code: Some(0),
            }),
            CommandStage::Write { writes, .. } => {
                CommandReply::Host(HostReply::Fs(host.perform(&writes[0])))
            }
            CommandStage::Ended(_) => break,
        };
        run = run.answer(session, answer);
    }
    match run.into_stage() {
        CommandStage::Ended(Ok(end)) => {
            for event in end.events {
                sink.emit(event)?;
            }
            Ok(end.outcome)
        }
        CommandStage::Ended(Err(error)) => Err(error),
        _ => unreachable!(),
    }
}

fn resolve_redirections(
    host: &mut Host,
    command: &CommandSpec,
    session: &mut TerminalSession,
) -> Result<Redirections, ExecuteError> {
    let mut run = resolve_stage(command, session);
    loop {
        let answer = match run.stage() {
            CommandStage::LookUpInput { path, .. } => HostReply::Facts(host.facts(path)),
            CommandStage::LocateOutput { path, .. } => HostReply::Landing(host.landing(path)),
            CommandStage::ReadInput { path, .. } => {
                let read = FsAction::ReadFile {
                    path: path.clone(),
                    limit: None,
                };
                HostReply::Fs(host.perform(&read))
            }
            _ => break,
        };
        run = run.answer(session, CommandReply::Host(answer));
    }
    run.into_redirections()
}

fn run_pipeline<A: ApprovalAuthorityView, S: EventSink>(
    host: &mut Host,
    stages: &Vec<CommandSpec>,
    session: &mut TerminalSession,
    authority: &A,
    sink: &mut S,
) -> Result<Outcome, ExecuteError> {
    check_pipeline(stages)?;
    let plans: Vec<StagePlan> = stages
        .iter()
        .map(|stage| plan_stage(stage, session))
        .collect();
    let mut redirections = Vec::new();
    for stage in stages {
        redirections.push(resolve_redirections(host, stage, session)?);
    }
    preflight(&plans, authority)?;
    let mut ends: Vec<Option<StageEnd>> = Vec::new();
    let mut piped: Option<Vec<u8>> = None;
    for ((stage, plan), redirections) in stages.iter().zip(plans).zip(redirections) {
        let end = match (plan, &stage.program) {
            (StagePlan::Builtin(mut copy), Program::Builtin(builtin)) => {
                if reads_input(stage) {
                    let mut input = StageInput::new(copy.limits().max_output_bytes());
                    let fed = if takes_pipe(&redirections) {
                        &piped
                    } else {
                        &redirections.stdin
                    };
                    if let Some(bytes) = fed {
                        let _ = input.accept(bytes);
                    }
                    StageEnd::builtin(input.into_result())
                } else {
                    StageEnd::builtin(run_builtin(host, builtin, &mut copy))
                }
            }
            (StagePlan::External(request), _) => StageEnd::native(host.native(&request)),
            _ => StageEnd::refused(),
        };
        let (end, writes) = end.divert(&redirections);
        let replies = writes.iter().map(|write| host.perform(write)).collect();
        let end = end.after_writes(&replies);
        piped = end.output.clone();
        ends.push(Some(end));
    }
    let end = finish_pipeline(ends)?;
    for event in end.events {
        sink.emit(event)?;
    }
    Ok(end.outcome)
}

fn run_plan<A: ApprovalAuthorityView, S: EventSink>(
    host: &mut Host,
    program: &ShellProgram,
    session: &mut TerminalSession,
    authority: &A,
    sink: &mut S,
) -> Result<PlanResult, ExecuteError> {
    let executor = ShellExecutor::new(());
    let mut outcomes = Vec::new();
    loop {
        let statement = match executor.execute(program, session.id(), &outcomes) {
            PlanStep::Finished(result) => return Ok(result),
            PlanStep::Run(statement) => statement,
        };
        let outcome = match statement {
            Statement::Command(command) => run_command(host, command, session, authority, sink)?,
            Statement::Pipeline(stages) => run_pipeline(host, stages, session, authority, sink)?,
            Statement::Background(inner) => {
                let _job = start_background(inner, session)?;
                background_outcome()
            }
            _ => unreachable!(),
        };
        outcomes.push(outcome);
    }
}

fn path(text: &str) -> SessionPath {
    SessionPath::new(text).expect("valid path")
}

fn open(host: &Host, spec: TerminalSessionSpec) -> Result<TerminalSession, SessionError> {
    let cwd = TerminalSession::initial_cwd(&spec)?;
    TerminalSession::new(spec, &host.facts(&cwd))
}

fn spec_for(root: &str, actor: Actor, access: FilesystemAccess) -> TerminalSessionSpec {
    TerminalSessionSpec {
        id: 1,
        actor,
        cwd: path("."),
        base_grant: CapabilityGrant::workspace(root, access).expect("absolute workspace"),
        limits: ResourceLimits::new(1024, 30).expect("valid limits"),
    }
}

fn session_in(root: &str, access: FilesystemAccess, allow_env: bool) -> (TerminalSession, Host) {
    let host = Host::new(root);
    let mut spec = spec_for(root, Actor::Human, access);
    spec.limits = ResourceLimits::new(1_048_576, 30).expect("valid limits");
    if allow_env {
        spec.base_grant = spec
            .base_grant
            .allow_environment("ALLOWED")
            .expect("valid name")
            .allow_environment("PATH")
            .expect("valid name");
    }
    (open(&host, spec).expect("session opens"), host)
}

fn test_session(root: &str) -> (TerminalSession, Host) {
    let mut host = Host::new(root);
    host.directories.insert(format!("{root}/sub"));
    host.files
        .insert(format!("{root}/hello.txt"), b"hello\n".to_vec());
    let mut spec = spec_for(root, Actor::Human, FilesystemAccess::ReadWrite);
    spec.id = 7;
    spec.limits = ResourceLimits::new(1_048_576, 30).expect("valid limits");
    (open(&host, spec).expect("session opens"), host)
}

fn one_variable(name: &str, value: &str) -> EnvDelta {
    let mut set = TextMap::new();
    set.insert(name.to_owned(), value.to_owned());
    EnvDelta {
        set,
        remove: Vec::new(),
    }
}

fn command(program: Program, args: &[&str]) -> CommandSpec {
    CommandSpec {
        program,
        args: args.iter().map(|value| (*value).to_owned()).collect(),
        redirects: Vec::new(),
        cwd: path("."),
    }
}

fn echo(words: &[&str]) -> Builtin {
    Builtin::Echo(words.iter().map(|word| (*word).to_owned()).collect())
}

fn output_text(result: &BuiltinResult) -> String {
    String::from_utf8_lossy(&result.stdout).into_owned()
}

fn output_of(sink: &VecSink) -> Vec<u8> {
    sink.events
        .iter()
        .filter_map(|event| match event {
            SessionEvent::Output { bytes, .. } => Some(bytes.clone()),
            _ => None,
        })
        .flatten()
        .collect()
}

/// An authority that approves every native command.
struct TestApprove;

impl ApprovalAuthorityView for TestApprove {
    fn authorize_native(&self, _request: &CommandRequest) -> Result<(), ExecuteError> {
        Ok(())
    }
}

// Sessions.

#[test]
fn cd_persists_for_the_next_command_without_touching_the_host_cwd() {
    let mut host = Host::new("/w");
    host.directories.insert("/w/sub".to_owned());
    let mut session = open(
        &host,
        spec_for("/w", Actor::Human, FilesystemAccess::ReadWrite),
    )
    .expect("session opens");
    assert_eq!(session.cwd().to_text(), "/w");
    let target = session.target_of(&path("sub")).expect("leads somewhere");
    session
        .change_dir(&path("sub"), &host.facts(&target))
        .expect("cd into sub");
    assert_eq!(session.cwd().to_text(), "/w/sub");
    assert_eq!(session.cwd_display(), "sub");
}

#[test]
fn cd_rejects_parent_escapes() {
    assert!(SessionPath::new("../../ferrous-session-escape").is_err());
    let mut host = Host::new("/w");
    host.directories.insert("/outside".to_owned());
    host.links.insert("/w/escape".to_owned(), "/outside".to_owned());
    let mut session = open(
        &host,
        spec_for("/w", Actor::Human, FilesystemAccess::ReadWrite),
    )
    .expect("session opens");
    let target = session.target_of(&path("escape")).expect("leads somewhere");
    let result = session.change_dir(&path("escape"), &host.facts(&target));
    assert!(matches!(result, Err(SessionError::PathDenied(_))));
    assert_eq!(session.cwd().to_text(), "/w");
}

#[test]
fn cd_needs_an_existing_directory() {
    let mut host = Host::new("/w");
    host.files.insert("/w/file".to_owned(), Vec::new());
    let mut session = open(
        &host,
        spec_for("/w", Actor::Human, FilesystemAccess::ReadWrite),
    )
    .expect("session opens");
    for name in ["missing", "file"] {
        let target = session.target_of(&path(name)).expect("leads somewhere");
        let result = session.change_dir(&path(name), &host.facts(&target));
        assert!(matches!(result, Err(SessionError::NotFound(_))));
    }
}

#[test]
fn sessions_need_an_existing_directory_in_the_grant() {
    let host = Host::new("/w");
    let missing = open(
        &host,
        spec_for("/elsewhere", Actor::Human, FilesystemAccess::Read),
    );
    assert!(matches!(missing, Err(SessionError::NotFound(_))));
    let mut spec = spec_for("/w", Actor::Human, FilesystemAccess::Read);
    spec.base_grant = CapabilityGrant::empty();
    assert!(matches!(
        open(&host, spec),
        Err(SessionError::PathDenied(_))
    ));
}

#[test]
fn builtin_mkdir_target_resolves_inside_the_workspace_grant() {
    let host = Host::new("/w");
    let session = open(
        &host,
        spec_for("/w", Actor::Human, FilesystemAccess::ReadWrite),
    )
    .expect("session opens");
    let newdir = path("newdir");
    let landing = host.landing(&session.target_of(&newdir).expect("leads somewhere"));
    let target = session
        .resolve_new_path(&newdir, &landing)
        .expect("new path resolves");
    assert!(target.starts_with(&HostPath::parse("/w").expect("absolute")));
    assert_eq!(target.to_text(), "/w/newdir");
}

#[test]
fn env_overlay_only_accepts_allowlisted_names() {
    let host = Host::new("/w");
    let mut session = open(
        &host,
        spec_for("/w", Actor::Agent, FilesystemAccess::ReadWrite),
    )
    .expect("session opens");
    assert!(!session.base_grant().allows_environment("MY_VAR"));
    assert!(matches!(
        session.apply_env(one_variable("MY_VAR", "x")),
        Err(SessionError::EnvironmentDenied(_))
    ));
    assert_eq!(session.env().len(), 0);
}

#[test]
fn env_never_returns_unallowlisted_host_variables() {
    let host = Host::new("/w");
    let session = open(
        &host,
        spec_for("/w", Actor::Human, FilesystemAccess::ReadWrite),
    )
    .expect("session opens");
    let grant = session.base_grant().clone();
    let session_grant = grant.allow_environment("ALLOWED").expect("valid name");
    let mut session = open(
        &host,
        TerminalSessionSpec {
            base_grant: session_grant,
            ..session.spec().clone()
        },
    )
    .expect("session reopens with allowlist");
    session
        .apply_env(one_variable("ALLOWED", "yes"))
        .expect("allowlisted name applies");
    assert_eq!(session.env().get("ALLOWED"), Some(&"yes".to_owned()));
    // A host variable that was never allowlisted cannot enter the overlay.
    assert!(session.env().get("PATH").is_none());
}

#[test]
fn the_overlay_holds_what_was_last_set() {
    let (mut session, mut host) = session_in("/w", FilesystemAccess::ReadWrite, true);
    assert!(session.env().get("PATH").is_none());
    session
        .apply_env(one_variable("ALLOWED", "first"))
        .expect("granted");
    run_line(&mut host, &mut session, "cd .").expect("executes");
    run_line(&mut host, &mut session, "export ALLOWED=second").expect("executes");
    assert_eq!(session.env().get("ALLOWED"), Some(&"second".to_owned()));
    // A delta with a name that is not granted changes nothing.
    let mut refused = one_variable("ALLOWED", "third");
    refused.remove.push("HOME".to_owned());
    assert!(matches!(
        session.apply_env(refused),
        Err(SessionError::EnvironmentDenied(_))
    ));
    assert_eq!(session.env().get("ALLOWED"), Some(&"second".to_owned()));
    // What one delta removes and sets is set.
    let mut both = one_variable("ALLOWED", "fourth");
    both.remove.push("ALLOWED".to_owned());
    session.apply_env(both).expect("granted");
    assert_eq!(session.env().get("ALLOWED"), Some(&"fourth".to_owned()));
    run_line(&mut host, &mut session, "export ALLOWED").expect("executes");
    assert!(session.env().get("ALLOWED").is_none());
    assert!(session.env().get("PATH").is_none());
}

#[test]
fn a_running_command_is_told_to_stop() {
    let (mut session, _host) = test_session("/w");
    let statement = Statement::Command(command(Program::Builtin(Builtin::Pwd), &[]));
    let first = start_background(&statement, &mut session).expect("starts");
    let second = start_background(&statement, &mut session).expect("starts");
    assert!(!first.cancel.is_cancelled() && !second.cancel.is_cancelled());
    session.record_exit(second.id, 0, false).expect("known job");
    session.cancel_job(first.id).expect("live job");
    assert!(first.cancel.is_cancelled());
    assert!(!second.cancel.is_cancelled(), "no other job is told");
    assert!(matches!(
        session.cancel_job(first.id),
        Err(SessionError::UnknownJob(_))
    ));
    assert_eq!(session.job_count(), 1);
    session.close();
    assert!(second.cancel.is_cancelled());
}

#[test]
fn statements_short_circuit_on_the_exact_exit_status() {
    let executor = ShellExecutor::new(());
    let leaf = |word: &str| Statement::Command(command(Program::Builtin(echo(&[word])), &[]));
    let and = Statement::And(Box::new(leaf("l")), Box::new(leaf("r")));
    let or = Statement::Or(Box::new(leaf("l")), Box::new(leaf("r")));
    let outcome = |status, exit_code| Outcome {
        status,
        exit_code,
        effects: Vec::new(),
    };
    assert_eq!(
        executor.execute_statement(&and, &Vec::new(), 0),
        Progress::Next(&leaf("l"))
    );
    let exited = vec![outcome(PlanStatus::Exited, Some(0))];
    assert_eq!(
        executor.execute_statement(&and, &exited, 0),
        Progress::Next(&leaf("r"))
    );
    assert_eq!(
        executor.execute_statement(&or, &exited, 0),
        Progress::Over(PlanStatus::Exited, Some(0), 1)
    );
    for (status, code) in [
        (PlanStatus::Exited, Some(3)),
        (PlanStatus::Exited, None),
        (PlanStatus::Failed, Some(0)),
    ] {
        let outcomes = vec![outcome(status, code)];
        assert_eq!(
            executor.execute_statement(&and, &outcomes, 0),
            Progress::Over(status, code, 1)
        );
        assert_eq!(
            executor.execute_statement(&or, &outcomes, 0),
            Progress::Next(&leaf("r"))
        );
    }
    let both = vec![
        outcome(PlanStatus::Failed, Some(1)),
        outcome(PlanStatus::Exited, Some(0)),
        outcome(PlanStatus::Exited, Some(7)),
    ];
    assert_eq!(
        executor.execute_statement(&and, &both, 1),
        Progress::Over(PlanStatus::Exited, Some(7), 3)
    );
}

#[test]
fn session_close_cancels_all_owned_jobs() {
    let host = Host::new("/w");
    let mut session = open(
        &host,
        spec_for("/w", Actor::Subagent, FilesystemAccess::ReadWrite),
    )
    .expect("session opens");
    let handle = CancelHandle::new();
    let first = session
        .register_job("a".to_owned(), handle.clone())
        .expect("first job");
    let second = session
        .register_job("b".to_owned(), CancelHandle::new())
        .expect("second job");
    assert_eq!(session.job_count(), 2);

    session.close();
    assert!(session.is_closed());
    assert!(handle.is_cancelled());
    for id in [first, second] {
        assert!(session.stopped_jobs().get(&id).expect("was stopped").asked());
    }
    assert_eq!(session.job_count(), 0);
    assert!(
        session
            .register_job("c".to_owned(), CancelHandle::new())
            .is_err(),
        "closed sessions reject new jobs"
    );
    assert!(session.cancel_job(first).is_err());
    assert!(session.cancel_job(second).is_err());
}

#[test]
fn job_table_is_bounded() {
    let host = Host::new("/w");
    let mut session = open(
        &host,
        spec_for("/w", Actor::Skill, FilesystemAccess::ReadWrite),
    )
    .expect("session opens");
    for _ in 0..DEFAULT_MAX_JOBS {
        session
            .register_job("x".to_owned(), CancelHandle::new())
            .expect("job fits");
    }
    assert!(matches!(
        session.register_job("y".to_owned(), CancelHandle::new()),
        Err(SessionError::JobTableFull(_))
    ));
}

#[test]
fn handles_remember_and_share_what_was_asked() {
    let mut handle = CancelHandle::new();
    let other = handle.clone();
    assert!(!handle.is_cancelled() && !other.is_cancelled());
    handle.cancel();
    handle.cancel();
    assert!(handle.is_cancelled());
    assert!(other.is_cancelled(), "clones share the flag");
    assert!(handle.clone().is_cancelled());
    assert!(!CancelHandle::new().is_cancelled());
}

#[test]
fn cancel_job_removes_it_and_marks_cancelled() {
    let host = Host::new("/w");
    let mut session = open(
        &host,
        spec_for("/w", Actor::Human, FilesystemAccess::ReadWrite),
    )
    .expect("session opens");
    let handle = CancelHandle::new();
    let id = session
        .register_job("digest".to_owned(), handle.clone())
        .expect("registered");
    assert!(!handle.is_cancelled());
    session.cancel_job(id).expect("cancelled");
    assert!(handle.is_cancelled());
    let stopped = session.stopped_jobs().get(&id).expect("was stopped");
    assert!(stopped.asked());
    assert!(matches!(
        session.cancel_job(id),
        Err(SessionError::UnknownJob(_))
    ));
}

#[test]
fn job_ids_are_not_given_out_again() {
    let (mut session, _host) = test_session("/w");
    let mut given = Vec::new();
    for _ in 0..3 {
        let id = session
            .register_job("d".to_owned(), CancelHandle::new())
            .expect("registered");
        assert!(!given.contains(&id));
        given.push(id);
        session.cancel_job(id).expect("cancelled");
    }
    assert_eq!(session.job_count(), 0);
}

// Builtins.

#[test]
fn pwd_prints_session_cwd_relative_to_workspace() {
    let (mut session, mut host) = session_in("/w", FilesystemAccess::Read, false);
    let result = run_builtin(&mut host, &Builtin::Pwd, &mut session);
    assert_eq!(result.exit_code, 0);
    assert_eq!(output_text(&result).trim(), ".");
}

#[test]
fn cd_then_pwd_reflects_the_new_directory() {
    let (mut session, mut host) = session_in("/w", FilesystemAccess::Read, false);
    host.directories.insert("/w/sub".to_owned());
    let result = run_builtin(&mut host, &Builtin::Cd(path("sub")), &mut session);
    assert_eq!(result.exit_code, 0);
    let pwd = run_builtin(&mut host, &Builtin::Pwd, &mut session);
    assert_eq!(output_text(&pwd).trim(), "sub");
}

#[test]
fn mkdir_stays_inside_the_workspace_grant() {
    let (mut session, mut host) = session_in("/w", FilesystemAccess::ReadWrite, false);
    let result = run_builtin(&mut host, &Builtin::Mkdir(path("newdir")), &mut session);
    assert_eq!(result.exit_code, 0);
    assert!(host.directories.contains("/w/newdir"));
}

#[test]
fn mkdir_without_write_capability_fails() {
    let (mut session, mut host) = session_in("/w", FilesystemAccess::Read, false);
    let result = run_builtin(&mut host, &Builtin::Mkdir(path("newdir")), &mut session);
    assert_eq!(result.exit_code, 1);
    assert!(!host.directories.contains("/w/newdir"));
}

#[test]
fn remove_requires_the_delete_capability() {
    let (mut session, mut host) = session_in("/w", FilesystemAccess::Read, false);
    host.files.insert("/w/file.txt".to_owned(), b"data".to_vec());
    let result = run_builtin(&mut host, &Builtin::Remove(path("file.txt")), &mut session);
    assert_eq!(result.exit_code, 1);
    assert!(
        host.files.contains_key("/w/file.txt"),
        "read-only session must not delete"
    );

    let (mut session, _) = session_in("/w", FilesystemAccess::ReadWrite, false);
    let result = run_builtin(&mut host, &Builtin::Remove(path("file.txt")), &mut session);
    assert_eq!(result.exit_code, 0);
    assert!(!host.files.contains_key("/w/file.txt"));
}

#[test]
fn echo_joins_arguments_and_env_prints_only_the_overlay() {
    let (mut session, mut host) = session_in("/w", FilesystemAccess::Read, true);
    let said = run_builtin(&mut host, &echo(&["a", "b"]), &mut session);
    assert_eq!(output_text(&said), "a b\n");

    let export = run_builtin(
        &mut host,
        &Builtin::Export {
            name: "ALLOWED".to_owned(),
            value: Some("yes".to_owned()),
        },
        &mut session,
    );
    assert_eq!(export.exit_code, 0);
    let env = run_builtin(&mut host, &Builtin::Env, &mut session);
    let text = output_text(&env);
    assert!(text.contains("ALLOWED=yes"));
    assert!(!text.contains("PATH"), "host PATH must not leak into env");
}

#[test]
fn cat_reads_inside_the_workspace_and_is_bounded() {
    let (mut session, mut host) = session_in("/w", FilesystemAccess::Read, false);
    host.files
        .insert("/w/a.txt".to_owned(), b"hello world".to_vec());
    let result = run_builtin(&mut host, &Builtin::Cat(path("a.txt")), &mut session);
    assert_eq!(result.exit_code, 0);
    assert_eq!(output_text(&result), "hello world");
}

#[test]
fn cat_rejects_paths_outside_the_workspace() {
    let (mut session, mut host) = session_in("/w", FilesystemAccess::Read, false);
    assert!(SessionPath::new("../../etc/hostname").is_err());
    let result = run_builtin(&mut host, &Builtin::Cat(path("missing.txt")), &mut session);
    assert_eq!(result.exit_code, 1);
    assert!(result.stderr.contains(&b'\n'));
}

#[test]
fn cp_and_mv_move_data_within_the_workspace() {
    let (mut session, mut host) = session_in("/w", FilesystemAccess::ReadWrite, false);
    host.files.insert("/w/src.txt".to_owned(), b"data".to_vec());
    let cp = run_builtin(
        &mut host,
        &Builtin::Copy {
            from: path("src.txt"),
            to: path("copy.txt"),
        },
        &mut session,
    );
    assert_eq!(cp.exit_code, 0);
    assert_eq!(host.files.get("/w/copy.txt").expect("copy exists"), b"data");

    let mv = run_builtin(
        &mut host,
        &Builtin::Move {
            from: path("copy.txt"),
            to: path("moved.txt"),
        },
        &mut session,
    );
    assert_eq!(mv.exit_code, 0);
    assert!(!host.files.contains_key("/w/copy.txt"));
    assert_eq!(
        host.files.get("/w/moved.txt").expect("moved exists"),
        b"data"
    );
}

#[test]
fn which_finds_programs_on_the_session_path() {
    let (mut session, mut host) = session_in("/w", FilesystemAccess::Read, true);
    host.directories.insert("/w/bin".to_owned());
    host.files.insert("/w/bin/tool".to_owned(), b"tool".to_vec());
    let export = run_builtin(
        &mut host,
        &Builtin::Export {
            name: "PATH".to_owned(),
            value: Some("/w/bin".to_owned()),
        },
        &mut session,
    );
    assert_eq!(export.exit_code, 0);
    let result = run_builtin(&mut host, &Builtin::Which("tool".to_owned()), &mut session);
    assert_eq!(result.exit_code, 0);
    assert!(output_text(&result).contains("tool"));
}

#[test]
fn ls_lists_names_in_order() {
    let (mut session, mut host) = session_in("/w", FilesystemAccess::Read, false);
    host.files.insert("/w/b.txt".to_owned(), Vec::new());
    host.files.insert("/w/a.txt".to_owned(), Vec::new());
    host.directories.insert("/w/dir".to_owned());
    let result = run_builtin(&mut host, &Builtin::Ls(path(".")), &mut session);
    assert_eq!(result.exit_code, 0);
    assert_eq!(output_text(&result), "a.txt\nb.txt\ndir\n");
}

// Plans.

#[test]
fn builtin_echo_runs_in_process() {
    let (mut session, mut host) = test_session("/w");
    let program = ShellProgram {
        statements: vec![Statement::Command(command(
            Program::Builtin(echo(&["hi"])),
            &[],
        ))],
    };
    let mut sink = VecSink::default();
    let result = run_plan(&mut host, &program, &mut session, &DenyNative, &mut sink)
        .expect("executes");
    assert_eq!(result.status, PlanStatus::Exited);
    assert_eq!(result.exit_code, Some(0));
    assert_eq!(output_of(&sink), b"hi\n");
    assert_eq!(result.effects.len(), 1);
    assert_eq!(result.effects[0].target, "Echo([\"hi\"])");
    assert_eq!(result.audit_id, (7u128 << 64) | 0x5E11);
}

#[test]
fn or_sequence_runs_fallback_on_failure() {
    let (mut session, mut host) = test_session("/w");
    // `false || echo fallback` -> exit 0, prints fallback.
    let program = ShellProgram {
        statements: vec![Statement::Or(
            Box::new(Statement::Command(command(
                Program::External("false".to_owned()),
                &[],
            ))),
            Box::new(Statement::Command(command(
                Program::Builtin(echo(&["fallback"])),
                &[],
            ))),
        )],
    };
    let mut sink = VecSink::default();
    let result = run_plan(&mut host, &program, &mut session, &TestApprove, &mut sink)
        .expect("executes");
    assert_eq!(result.exit_code, Some(0));
    assert_eq!(output_of(&sink), b"fallback\n");
}

#[test]
fn and_sequence_stops_at_a_failure() {
    let (mut session, mut host) = test_session("/w");
    let program = ShellParser::new()
        .parse("false && echo unreached")
        .expect("parses");
    let mut sink = VecSink::default();
    let result = run_plan(&mut host, &program, &mut session, &TestApprove, &mut sink)
        .expect("executes");
    assert_eq!(result.exit_code, Some(1));
    assert!(output_of(&sink).is_empty());
}

#[test]
fn cd_then_pwd_uses_the_new_directory() {
    let (mut session, mut host) = test_session("/w");
    let program = ShellProgram {
        statements: vec![
            Statement::Command(command(Program::Builtin(Builtin::Cd(path("sub"))), &[])),
            Statement::Command(command(Program::Builtin(Builtin::Pwd), &[])),
        ],
    };
    let mut sink = VecSink::default();
    run_plan(&mut host, &program, &mut session, &DenyNative, &mut sink).expect("executes");
    assert_eq!(output_of(&sink), b"sub\n");
    assert!(session.cwd().to_text().ends_with("sub"));
    assert!(session
        .cwd()
        .starts_with(&HostPath::parse("/w").expect("absolute")));
}

#[test]
fn redirection_cannot_write_outside_the_grant() {
    // A target with a parent component is no session path to begin with, so no
    // plan can hold it.
    assert!(SessionPath::new("../../escape.txt").is_err());
    assert!(ShellParser::new()
        .parse("echo data > ../../escape.txt")
        .is_err());
}

#[test]
fn input_redirection_cannot_read_outside_the_grant() {
    let (mut session, mut host) = test_session("/w");
    host.files
        .insert("/out/secret".to_owned(), b"secret".to_vec());
    host.links
        .insert("/w/leak".to_owned(), "/out/secret".to_owned());
    let mut spec = command(Program::Builtin(Builtin::Cat(path("x"))), &[]);
    spec.redirects.push(Redirect::Input(path("leak")));
    let program = ShellProgram {
        statements: vec![Statement::Command(spec)],
    };
    let mut sink = VecSink::default();
    let result = run_plan(&mut host, &program, &mut session, &DenyNative, &mut sink);
    assert!(matches!(
        result,
        Err(ExecuteError::Session(SessionError::PathDenied(_)))
    ));
    assert!(output_of(&sink).is_empty());
}

#[test]
fn redirection_writes_to_a_capability_checked_file() {
    let (mut session, mut host) = test_session("/w");
    let mut spec = command(Program::Builtin(echo(&["data"])), &[]);
    spec.redirects
        .push(Redirect::OutputTruncate(path("out.txt")));
    let program = ShellProgram {
        statements: vec![Statement::Command(spec)],
    };
    let mut sink = VecSink::default();
    run_plan(&mut host, &program, &mut session, &DenyNative, &mut sink).expect("executes");
    assert_eq!(
        host.files.get("/w/out.txt").expect("redirect file"),
        b"data\n"
    );
    // Redirected output must not also stream to the sink.
    assert!(
        sink.events
            .iter()
            .all(|event| !matches!(event, SessionEvent::Output { .. })),
        "redirected output must not duplicate on the sink"
    );
}

#[test]
fn redirected_output_needs_the_write_capability() {
    let (mut session, mut host) = session_in("/w", FilesystemAccess::Read, false);
    for redirect in [
        Redirect::OutputTruncate(path("out.txt")),
        Redirect::ErrorAppend(path("out.txt")),
    ] {
        let mut spec = command(Program::Builtin(echo(&["data"])), &[]);
        spec.redirects.push(redirect);
        let program = ShellProgram {
            statements: vec![Statement::Command(spec)],
        };
        let mut sink = VecSink::default();
        let result = run_plan(&mut host, &program, &mut session, &DenyNative, &mut sink);
        assert_eq!(
            result,
            Err(ExecuteError::Session(SessionError::PathDenied(
                "/w/out.txt".to_owned()
            )))
        );
    }
    assert!(!host.files.contains_key("/w/out.txt"));
}

#[test]
fn a_nonzero_code_is_an_exit() {
    let (mut session, mut host) = test_session("/w");
    for (line, code) in [
        ("cat missing.txt", 1),
        ("false", 1),
        ("echo x | cat missing.txt", 0),
        ("echo x | ls missing", 1),
    ] {
        let program = ShellParser::new().parse(line).expect("parses");
        let mut sink = VecSink::default();
        let authority = Answering {
            auto_approve: true,
            answer: None,
        };
        let result = run_plan(&mut host, &program, &mut session, &authority, &mut sink)
            .expect("executes");
        assert_eq!(result.status, PlanStatus::Exited, "{line}");
        assert_eq!(result.exit_code, Some(code), "{line}");
        assert_eq!(
            sink.events.last(),
            Some(&SessionEvent::Exited { code: Some(code) }),
            "{line}"
        );
    }
    // A component that ends without a code has failed.
    let mut run = CommandRun::start(
        &command(Program::WasiComponent("tool.wasm".to_owned()), &[]),
        &session,
    );
    host.files
        .insert("/w/tool.wasm".to_owned(), b"component".to_vec());
    let outcome = loop {
        let answer = match run.stage() {
            CommandStage::LookUpCwd(path) | CommandStage::LookUpComponent(path) => {
                CommandReply::Host(HostReply::Facts(host.facts(path)))
            }
            CommandStage::ReadComponent(_) => {
                CommandReply::Host(HostReply::Fs(FsReply::Bytes(Ok(b"component".to_vec()))))
            }
            CommandStage::CompileComponent(_) => CommandReply::Compiled(Ok(())),
            CommandStage::RunComponent(_) => CommandReply::Component(ComponentReply::Ran {
                stdout: Vec::new(),
                stderr: Vec::new(),
                exit_code: None,
            }),
            CommandStage::Ended(Ok(end)) => break &end.outcome,
            stage => panic!("unexpected {stage:?}"),
        };
        run = run.answer(&mut session, answer);
    };
    assert_eq!(outcome.status, PlanStatus::Failed);
    assert_eq!(outcome.exit_code, Some(1));
}

#[test]
fn nothing_is_put_behind_a_link_that_leaves_the_grant() {
    let (mut session, mut host) = session_in("/w", FilesystemAccess::ReadWrite, false);
    host.directories.insert("/outside".to_owned());
    host.links
        .insert("/w/escape".to_owned(), "/outside".to_owned());
    host.files.insert("/w/src.txt".to_owned(), b"data".to_vec());
    let files = host.files.clone();
    let directories = host.directories.clone();
    let denied = "path denied by capability policy: /w/escape/new\n";
    let builtins = [
        Builtin::Mkdir(path("escape/new")),
        Builtin::Copy {
            from: path("src.txt"),
            to: path("escape/new"),
        },
        Builtin::Move {
            from: path("src.txt"),
            to: path("escape/new"),
        },
    ];
    for builtin in builtins {
        let result = run_builtin(&mut host, &builtin, &mut session);
        assert_eq!(result.exit_code, 1);
        assert_eq!(result.stderr, denied.as_bytes());
    }
    for redirect in [
        Redirect::OutputTruncate(path("escape/new")),
        Redirect::OutputAppend(path("escape/new")),
        Redirect::ErrorTruncate(path("escape/new")),
        Redirect::ErrorAppend(path("escape/new")),
    ] {
        let mut spec = command(Program::Builtin(echo(&["data"])), &[]);
        spec.redirects.push(redirect);
        let program = ShellProgram {
            statements: vec![Statement::Command(spec)],
        };
        let mut sink = VecSink::default();
        let result = run_plan(&mut host, &program, &mut session, &DenyNative, &mut sink);
        assert!(matches!(
            result,
            Err(ExecuteError::Session(SessionError::PathDenied(_)))
        ));
    }
    assert_eq!(host.files, files);
    assert_eq!(host.directories, directories);
}

#[test]
fn input_redirect_feeds_a_builtin() {
    let (mut session, mut host) = test_session("/w");
    let mut spec = command(Program::Builtin(Builtin::Cat(path("x"))), &[]);
    spec.redirects.push(Redirect::Input(path("hello.txt")));
    let program = ShellProgram {
        statements: vec![Statement::Command(spec)],
    };
    let mut sink = VecSink::default();
    run_plan(&mut host, &program, &mut session, &DenyNative, &mut sink).expect("executes");
    assert_eq!(output_of(&sink), b"hello\n");
}

#[test]
fn native_shell_is_never_synthesized_by_the_executor() {
    let (mut session, mut host) = test_session("/w");
    let program = ShellProgram {
        statements: vec![Statement::Command(command(
            Program::NativeShell(NativeShellKind::Bash),
            &["-c", "echo unsafe"],
        ))],
    };
    let mut sink = VecSink::default();
    assert!(matches!(
        run_plan(&mut host, &program, &mut session, &DenyNative, &mut sink),
        Err(ExecuteError::InvalidPlan(_))
    ));
}

#[test]
fn pipeline_builtins_flow_bounded_output() {
    let (mut session, mut host) = test_session("/w");
    let program = ShellProgram {
        statements: vec![Statement::Pipeline(vec![
            command(Program::Builtin(echo(&["one", "two"])), &[]),
            command(Program::Builtin(echo(&["three"])), &[]),
        ])],
    };
    let mut sink = VecSink::default();
    let result = run_plan(&mut host, &program, &mut session, &DenyNative, &mut sink)
        .expect("executes");
    assert_eq!(result.status, PlanStatus::Exited);
    // The final stage's echo output is `three\n` (builtins ignore piped
    // input unless cat-like).
    assert_eq!(output_of(&sink), b"three\n");
}

#[test]
fn a_broken_stage_fails_the_pipeline() {
    let ended = |code| {
        Some(StageEnd {
            code,
            reached: true,
            output: Some(b"x".to_vec()),
            errors: Vec::new(),
        })
    };
    assert_eq!(
        finish_pipeline(vec![None, ended(0)]),
        Err(ExecuteError::InvalidPlan("pipeline stage panicked"))
    );
    let end = finish_pipeline(vec![ended(7), ended(0)]).expect("ends");
    assert_eq!(end.outcome.exit_code, Some(0));
    let end = finish_pipeline(vec![ended(0), Some(StageEnd::refused())]).expect("ends");
    assert_eq!(end.outcome.exit_code, Some(1));
    assert_eq!(end.outcome.status, PlanStatus::Failed);
    assert_eq!(end.events, [SessionEvent::Exited { code: Some(1) }]);
    let end = finish_pipeline(vec![ended(0), ended(7)]).expect("ends");
    assert_eq!(end.outcome.status, PlanStatus::Exited);
    assert_eq!(end.outcome.exit_code, Some(7));
}

#[test]
fn cat_hands_on_what_was_piped_to_it() {
    let (mut session, mut host) = test_session("/w");
    let program = ShellParser::new()
        .parse("echo one two | cat -")
        .expect("parses");
    let mut sink = VecSink::default();
    run_plan(&mut host, &program, &mut session, &DenyNative, &mut sink).expect("executes");
    assert_eq!(output_of(&sink), b"one two\n");
}

fn run_line(
    host: &mut Host,
    session: &mut TerminalSession,
    line: &str,
) -> Result<Vec<u8>, ExecuteError> {
    let program = ShellParser::new().parse(line).expect("parses");
    let mut sink = VecSink::default();
    run_plan(host, &program, session, &TestApprove, &mut sink)?;
    Ok(output_of(&sink))
}

#[test]
fn stages_write_their_redirected_output() {
    let (mut session, mut host) = test_session("/w");
    let shown = run_line(&mut host, &mut session, "echo one | cat - > out.txt").expect("executes");
    assert!(shown.is_empty());
    assert_eq!(host.files["/w/out.txt"], b"one\n");
    run_line(&mut host, &mut session, "echo two | cat - >> out.txt").expect("executes");
    assert_eq!(host.files["/w/out.txt"], b"one\ntwo\n");
    // What goes to a file is not handed on.
    let shown =
        run_line(&mut host, &mut session, "echo first > a.txt | cat -").expect("executes");
    assert!(shown.is_empty());
    assert_eq!(host.files["/w/a.txt"], b"first\n");
    let shown = run_line(&mut host, &mut session, "echo x | say hi > n.txt").expect("executes");
    assert!(shown.is_empty());
    assert_eq!(host.files["/w/n.txt"], b"hi");
}

#[test]
fn stages_read_their_redirected_input() {
    let (mut session, mut host) = test_session("/w");
    let shown =
        run_line(&mut host, &mut session, "cat - < hello.txt | cat -").expect("executes");
    assert_eq!(shown, b"hello\n");
    let shown =
        run_line(&mut host, &mut session, "echo piped | cat - < hello.txt").expect("executes");
    assert_eq!(shown, b"hello\n");
}

#[test]
fn redirections_of_stages_stay_in_the_grant() {
    let (mut session, mut host) = test_session("/w");
    host.directories.insert("/out".to_owned());
    host.links.insert("/w/link".to_owned(), "/out".to_owned());
    for line in [
        "mkdir made | echo x > link/f",
        "mkdir made | cat - < link/f",
        "mkdir made | cat - < missing.txt",
    ] {
        assert!(matches!(
            run_line(&mut host, &mut session, line),
            Err(ExecuteError::Session(_))
        ));
    }
    // No stage has started.
    assert!(!host.directories.contains("/w/made"));
    assert!(host.files.keys().all(|file| !file.starts_with("/out")));
}

#[test]
fn stages_divert_what_their_redirections_take() {
    let target = |name: &str| {
        Some(Target {
            path: HostPath::parse(name).expect("absolute"),
            mode: AppendMode::Truncate,
        })
    };
    let end = || StageEnd::component(b"out".to_vec(), b"err".to_vec(), ComponentCode::Exited(3));
    let both = Redirections {
        stdin: None,
        stdout: target("/w/o"),
        stderr: target("/w/e"),
    };
    let (kept, writes) = end().divert(&both);
    assert_eq!((kept.code, kept.reached, &kept.output), (3, true, &None));
    assert_eq!(
        writes,
        [
            FsAction::WriteFile {
                path: HostPath::parse("/w/o").expect("absolute"),
                mode: AppendMode::Truncate,
                bytes: b"out".to_vec(),
            },
            FsAction::WriteFile {
                path: HostPath::parse("/w/e").expect("absolute"),
                mode: AppendMode::Truncate,
                bytes: b"err".to_vec(),
            },
        ]
    );
    assert_eq!(
        kept.after_writes(&vec![
            FsReply::Done(Ok(())),
            FsReply::Done(Err("full".to_owned())),
        ]),
        StageEnd::refused()
    );
    let none = Redirections {
        stdin: Some(Vec::new()),
        stdout: None,
        stderr: None,
    };
    let (kept, writes) = end().divert(&none);
    assert_eq!(kept, end());
    assert!(writes.is_empty());
    assert_eq!(kept.after_writes(&Vec::new()), end());
    // A stage that did not run writes nothing.
    let (kept, writes) = StageEnd::refused().divert(&both);
    assert_eq!(kept, StageEnd::refused());
    assert!(writes.is_empty());
    assert!(takes_pipe(&both) && !takes_pipe(&none));
    assert!(hands_on(Stream::Stdout, &both) && !hands_on(Stream::Stderr, &both));
    assert!(hands_on(Stream::Stderr, &none));
}

#[test]
fn builtin_stages_work_where_the_session_does() {
    let (mut session, mut host) = test_session("/w");
    host.files
        .insert("/w/sub/inner.txt".to_owned(), b"inner\n".to_vec());
    run_line(&mut host, &mut session, "cd sub").expect("executes");
    let shown = run_line(&mut host, &mut session, "pwd | cat -").expect("executes");
    assert_eq!(shown, run_line(&mut host, &mut session, "pwd").expect("executes"));
    let shown = run_line(&mut host, &mut session, "ls | cat -").expect("executes");
    assert_eq!(shown, run_line(&mut host, &mut session, "ls").expect("executes"));
    assert!(!shown.is_empty());
    // What a stage changes is lost with it.
    host.directories.insert("/w/sub/deep".to_owned());
    run_line(&mut host, &mut session, "cd deep | echo x").expect("executes");
    assert_eq!(session.cwd().to_text(), "/w/sub");

    let (mut session, mut host) = session_in("/w", FilesystemAccess::ReadWrite, true);
    session
        .apply_env(one_variable("ALLOWED", "bar"))
        .expect("granted variable");
    let shown = run_line(&mut host, &mut session, "env | cat -").expect("executes");
    assert_eq!(shown, b"ALLOWED=bar\n");
}

#[test]
fn external_stages_need_the_authority_before_anything_runs() {
    let (mut session, mut host) = test_session("/w");
    let program = ShellParser::new()
        .parse("mkdir made | say hi")
        .expect("parses");
    let mut sink = VecSink::default();
    assert!(matches!(
        run_plan(&mut host, &program, &mut session, &DenyNative, &mut sink),
        Err(ExecuteError::RequiresApproval)
    ));
    assert!(!host.directories.contains("/w/made"));
    run_plan(&mut host, &program, &mut session, &TestApprove, &mut sink).expect("executes");
    assert!(host.directories.contains("/w/made"));
    assert_eq!(output_of(&sink), b"hi");
}

#[test]
fn background_job_registers_in_the_session_and_close_kills_it() {
    let (mut session, mut host) = test_session("/w");
    let program = ShellProgram {
        statements: vec![Statement::Background(Box::new(Statement::Command(
            command(Program::Builtin(echo(&["bg"])), &[]),
        )))],
    };
    let mut sink = VecSink::default();
    let result = run_plan(&mut host, &program, &mut session, &DenyNative, &mut sink)
        .expect("executes");
    assert_eq!(result.status, PlanStatus::Running);
    assert_eq!(session.job_count(), 1);
    session.close();
    assert_eq!(session.job_count(), 0);
}

#[test]
fn background_jobs_record_their_exit() {
    let (mut session, _host) = test_session("/w");
    let statement = Statement::Command(command(Program::Builtin(Builtin::Pwd), &[]));
    let job = start_background(&statement, &mut session).expect("starts");
    assert_eq!(job.session.cwd().to_text(), "/w");
    let code = background_code(&Ok(Some(3)));
    session.record_exit(job.id, code, false).expect("known job");
    assert_eq!(session.job_exit(job.id), Some(3));
    assert_eq!(background_code(&Ok(None)), 1);
    assert_eq!(background_code(&Err(ExecuteError::HumanDenied)), 1);
}

#[test]
fn native_commands_run_only_when_they_are_authorized() {
    let (mut session, mut host) = test_session("/w");
    let program = ShellParser::new().parse("say hello").expect("parses");
    let mut sink = VecSink::default();
    let refused = run_plan(&mut host, &program, &mut session, &DenyNative, &mut sink);
    assert!(matches!(refused, Err(ExecuteError::RequiresApproval)));
    assert!(output_of(&sink).is_empty());
    let result = run_plan(&mut host, &program, &mut session, &TestApprove, &mut sink)
        .expect("executes");
    assert_eq!(result.exit_code, Some(0));
    assert_eq!(output_of(&sink), b"hello");
}

#[test]
fn wasi_components_run_from_inside_the_grant() {
    let (mut session, mut host) = test_session("/w");
    host.files
        .insert("/w/tool.wasm".to_owned(), b"component".to_vec());
    let program = ShellParser::new()
        .parse_ai_argv("run-wasi", &["tool.wasm".to_owned()], path("."))
        .expect("parses");
    let mut sink = VecSink::default();
    let result = run_plan(&mut host, &program, &mut session, &DenyNative, &mut sink)
        .expect("executes");
    assert_eq!(result.exit_code, Some(0));

    host.directories.insert("/out".to_owned());
    host.files
        .insert("/out/tool.wasm".to_owned(), b"component".to_vec());
    host.links
        .insert("/w/link.wasm".to_owned(), "/out/tool.wasm".to_owned());
    let program = ShellParser::new()
        .parse_ai_argv("run-wasi", &["link.wasm".to_owned()], path("."))
        .expect("parses");
    assert!(matches!(
        run_plan(&mut host, &program, &mut session, &DenyNative, &mut sink),
        Err(ExecuteError::Session(SessionError::PathDenied(_)))
    ));

    // What is no component is not run.
    let program = ShellParser::new()
        .parse_ai_argv("run-wasi", &["hello.txt".to_owned()], path("."))
        .expect("parses");
    assert_eq!(
        run_plan(&mut host, &program, &mut session, &DenyNative, &mut sink),
        Err(ExecuteError::Wasi("not a component".to_owned()))
    );
}

// The shell.

/// An authority that answers the prompt.
struct Answering {
    auto_approve: bool,
    answer: Option<&'static str>,
}

impl ApprovalAuthorityView for Answering {
    fn authorize_native(&self, _request: &CommandRequest) -> Result<(), ExecuteError> {
        prompt_verdict(self.auto_approve, self.answer)
    }
}

fn shell_transcript(input: &str, options: ShellOptions) -> String {
    let mut host = Host::new("/w");
    let spec = shell_session("/w").expect("absolute workspace");
    let mut session = open(&host, spec).expect("session opens");
    let authority = Answering {
        auto_approve: options.auto_approve_native,
        answer: None,
    };
    let mut sink = RenderSink {
        written: banner(&session.cwd_display()).into_bytes(),
        json: options.json,
        held: false,
    };
    for line in input.lines() {
        let action = line_action(line);
        sink.written.extend_from_slice(reply(&action).as_bytes());
        match action {
            LineAction::Quit => break,
            LineAction::Run(line) => match ShellParser::new().parse(&line) {
                Ok(program) => {
                    let result =
                        run_plan(&mut host, &program, &mut session, &authority, &mut sink);
                    sink.written.extend_from_slice(notice(&result).as_bytes());
                }
                Err(error) => sink
                    .written
                    .extend_from_slice(parse_notice(&error).as_bytes()),
            },
            _ => {}
        }
    }
    session.close();
    String::from_utf8(sink.written).expect("utf8")
}

#[test]
fn shell_runs_help_and_exits() {
    let transcript = shell_transcript("help\nexit\n", ShellOptions::default());
    assert!(transcript.contains("ferrous shell"));
    assert!(transcript.contains("Builtins:"));
    assert!(transcript.contains("bye"));
}

#[test]
fn shell_version_prints_version() {
    let transcript = shell_transcript("version\nexit\n", ShellOptions::default());
    assert!(transcript.contains("0.1.0"));
}

#[test]
fn shell_cd_persists_for_the_next_command() {
    let transcript = shell_transcript("mkdir sub && cd sub && pwd\nexit\n", ShellOptions::default());
    assert!(transcript.contains("\nsub\n") || transcript.contains("sub\n\n"));
}

#[test]
fn shell_echo_and_builtins_run_in_process() {
    let transcript = shell_transcript("echo hello ferrous\nexit\n", ShellOptions::default());
    assert!(transcript.contains("hello ferrous"));
}

#[test]
fn shell_rejects_eval_and_shell_escapes_without_fallback() {
    let transcript = shell_transcript("eval 'rm -rf /'\nexit\n", ShellOptions::default());
    assert!(transcript.contains("parse error"));
}

#[test]
fn shell_never_falls_through_unknown_input_to_a_host_shell() {
    let transcript = shell_transcript(
        "definitely-not-a-actual-tool-xyz arg1\nexit\n",
        ShellOptions {
            json: false,
            auto_approve_native: true,
        },
    );
    assert!(transcript.contains("error"));
}

#[test]
fn shell_json_mode_emits_structured_records() {
    let transcript = shell_transcript(
        "echo hi\nexit\n",
        ShellOptions {
            json: true,
            auto_approve_native: false,
        },
    );
    assert!(transcript.contains("\"event\":\"output\""));
    assert!(transcript.contains("\"stream\":\"stdout\""));
}

#[test]
fn prompt_authority_auto_approves_in_auto_mode() {
    let authority = Answering {
        auto_approve: true,
        answer: None,
    };
    let grant = CapabilityGrant::workspace("/tmp", FilesystemAccess::Read)
        .expect("absolute workspace")
        .allow_native_execution();
    let request = CommandRequest::new(
        1,
        Actor::Agent,
        ExecutionMode::Native,
        "cargo",
        vec!["test".to_owned()],
        HostPath::parse("/tmp").expect("absolute"),
        grant,
    )
    .expect("request");
    assert!(authority.authorize_native(&request).is_ok());
}

#[test]
fn an_unanswered_prompt_denies() {
    let denied = shell_transcript("npm test\nexit\n", ShellOptions::default());
    assert!(denied.contains("[error] command denied by human"));
    assert!(Stream::Stdout != Stream::Stderr);
}
