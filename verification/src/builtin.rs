//! In-process builtin execution for the Ferrous Shell.
//!
//! Builtins are the fast, safe lane: they run in-process on
//! capability-relative paths and never spawn a process or a shell. Every path
//! is resolved through the session's capability grant before any filesystem
//! operation, and directory listings plus file output are bounded.
//!
//! A builtin that needs the filesystem asks for one [`FsAction`], and is
//! completed with the host's answer.

use vstd::prelude::*;
use vstd::string::*;
use vstd::utf8::*;
use crate::capability::GrantModel;
use crate::host_action::{ActionModel, FsAction, FsReply, ReplyModel};
use crate::host_path;
use crate::host_path::HostPath;
use crate::shell_ir;
use crate::shell_ir::{Builtin, BuiltinModel, SessionPath};
use crate::terminal_session;
use crate::terminal_session::{
    EnvDelta,
    FactsModel,
    PathFacts,
    SessionFault,
    SessionModel,
    TerminalSession,
};
use crate::text;
use crate::text_map;
use crate::text_order;

verus! {

/// One builtin's result: output bytes plus an exit status.
#[derive(Debug, PartialEq, Eq)]
pub struct BuiltinResult {
    /// Standard output bytes.
    pub stdout: Vec<u8>,
    /// Standard error bytes.
    pub stderr: Vec<u8>,
    /// `0` for success, non-zero for failure.
    pub exit_code: i32,
}

/// What a [`BuiltinResult`] denotes.
#[verifier::ext_equal]
pub struct ResultModel {
    /// Standard output bytes.
    pub stdout: Seq<u8>,
    /// Standard error bytes.
    pub stderr: Seq<u8>,
    /// The exit status.
    pub exit_code: i32,
}

impl View for BuiltinResult {
    type V = ResultModel;

    open spec fn view(&self) -> ResultModel {
        ResultModel { stdout: self.stdout@, stderr: self.stderr@, exit_code: self.exit_code }
    }
}

/// Success without output.
pub open spec fn ok_result() -> ResultModel {
    ResultModel { stdout: Seq::empty(), stderr: Seq::empty(), exit_code: 0 }
}

/// Failure with a message on standard error.
pub open spec fn failure(message: Seq<char>) -> ResultModel {
    ResultModel { stdout: Seq::empty(), stderr: encode_utf8(message + "\n"@), exit_code: 1 }
}

/// Success with output.
pub open spec fn output(bytes: Seq<u8>) -> ResultModel {
    ResultModel { stdout: bytes, stderr: Seq::empty(), exit_code: 0 }
}

impl BuiltinResult {
    /// A successful result with no output.
    pub fn ok() -> (r: Self)
        ensures
            r@ == ok_result(),
    {
        BuiltinResult { stdout: Vec::new(), stderr: Vec::new(), exit_code: 0 }
    }

    /// A failed result with a message on stderr.
    pub fn fail(message: &str) -> (r: Self)
        ensures
            r@ == failure(message@),
    {
        let line = text::joined(message, "\n");
        BuiltinResult { stdout: Vec::new(), stderr: line.as_str().as_bytes_vec(), exit_code: 1 }
    }

    /// A successful result with stdout bytes.
    pub fn with_stdout(bytes: Vec<u8>) -> (r: Self)
        ensures
            r@ == output(bytes@),
    {
        BuiltinResult { stdout: bytes, stderr: Vec::new(), exit_code: 0 }
    }
}

/// What a builtin needs to know of the host before it starts.
#[derive(Debug, PartialEq, Eq)]
pub struct BuiltinNeeds {
    /// The path to look up.
    pub lookup: Option<HostPath>,
    /// The path to tell the landing of.
    pub landing: Option<HostPath>,
    /// Whether the host's search path is wanted.
    pub host_path: bool,
}

/// What the host knows: the path that was to be looked up, where something put
/// at the other would come to lie, and its search path.
#[derive(Debug, PartialEq, Eq)]
pub struct BuiltinFacts {
    /// What is known of the path.
    pub target: PathFacts,
    /// Where something put at the builtin's new path would come to lie once
    /// links are followed, if the host can tell.
    pub landing: Option<HostPath>,
    /// The host's `PATH`, where it has one.
    pub host_path: Option<String>,
}

/// What [`BuiltinFacts`] denote.
pub struct KnownModel {
    /// What is known of the path.
    pub target: FactsModel,
    /// Where something put at the new path would come to lie.
    pub landing: Option<Seq<Seq<char>>>,
    /// The host's search path.
    pub host_path: Option<Seq<char>>,
}

impl View for BuiltinFacts {
    type V = KnownModel;

    open spec fn view(&self) -> KnownModel {
        KnownModel {
            target: self.target@,
            landing: host_path::optional(self.landing),
            host_path: text::optional(self.host_path),
        }
    }
}

/// How far a builtin has come: finished, or in need of the filesystem.
#[derive(Debug, PartialEq, Eq)]
pub enum BuiltinStep {
    /// The builtin is finished.
    Finished(BuiltinResult),
    /// The host has to perform this.
    Perform(FsAction),
}

/// What a [`BuiltinStep`] denotes.
pub enum StepModel {
    /// The builtin is finished.
    Finished(ResultModel),
    /// The host has to perform this.
    Perform(ActionModel),
}

impl View for BuiltinStep {
    type V = StepModel;

    open spec fn view(&self) -> StepModel {
        match self {
            BuiltinStep::Finished(result) => StepModel::Finished(result@),
            BuiltinStep::Perform(action) => StepModel::Perform(action@),
        }
    }
}

/// The path that a builtin uses and that has to exist.
pub open spec fn existing_path(builtin: BuiltinModel) -> Option<Seq<char>> {
    match builtin {
        BuiltinModel::Cd(path) => Some(path),
        BuiltinModel::Ls(path) => Some(path),
        BuiltinModel::Cat(path) => Some(path),
        BuiltinModel::Remove(path) => Some(path),
        BuiltinModel::Copy(from, _) => Some(from),
        BuiltinModel::Move(from, _) => Some(from),
        _ => None,
    }
}

/// The path that a builtin uses and that need not exist.
pub open spec fn created_path(builtin: BuiltinModel) -> Option<Seq<char>> {
    match builtin {
        BuiltinModel::Mkdir(path) => Some(path),
        BuiltinModel::Copy(_, to) => Some(to),
        BuiltinModel::Move(_, to) => Some(to),
        _ => None,
    }
}

/// The step of a builtin that failed with a session fault.
pub open spec fn session_failure(fault: SessionFault) -> StepModel {
    StepModel::Finished(failure(fault.message_text()))
}

/// The arguments of `echo` with a space between them.
pub open spec fn echo_text(args: Seq<Seq<char>>) -> Seq<char>
    decreases args.len(),
{
    if args.len() == 0 {
        Seq::empty()
    } else if args.len() == 1 {
        args[0]
    } else {
        echo_text(args.drop_last()).push(' ') + args.last()
    }
}

/// The lines that `env` prints for a list of variables.
pub open spec fn env_text(pairs: Seq<(Seq<char>, Seq<char>)>) -> Seq<char>
    decreases pairs.len(),
{
    if pairs.len() == 0 {
        Seq::empty()
    } else {
        env_text(pairs.drop_last()) + pairs.last().0 + "="@ + pairs.last().1 + "\n"@
    }
}

/// The path of a program in a directory of the search path.
pub open spec fn candidate(directory: Seq<char>, name: Seq<char>) -> Seq<char> {
    if directory.len() == 0 || (name.len() > 0 && name[0] == '/') {
        name
    } else if directory.last() == '/' {
        directory + name
    } else {
        directory + "/"@ + name
    }
}

/// The paths of a program in the directories of a search path.
pub open spec fn candidates(search: Seq<char>, name: Seq<char>) -> Seq<Seq<char>> {
    let directories = text::split(search, seq![':']);
    Seq::new(directories.len(), |i: int| candidate(directories[i], name))
}

/// What `which` prints when it finds nothing.
pub open spec fn not_found(name: Seq<char>) -> ResultModel {
    failure("which: "@ + name + ": not found"@)
}

/// The search path: the session's where it has one, else the host's.
pub open spec fn search_path(session: SessionModel, host_path: Option<Seq<char>>) -> Option<
    Seq<char>,
> {
    if session.env.dom().contains("PATH"@) {
        Some(session.env["PATH"@])
    } else {
        host_path
    }
}

/// The session after an `export`, which only a granted name changes.
pub open spec fn exported(
    session: SessionModel,
    name: Seq<char>,
    value: Option<Seq<char>>,
) -> SessionModel {
    if !session.spec.grant.environment.contains(name) {
        session
    } else {
        SessionModel {
            env: match value {
                Some(value) => session.env.insert(name, value),
                None => session.env.remove(name),
            },
            ..session
        }
    }
}

/// The step that a builtin takes in a session, given what the host knows.
pub open spec fn first_step(
    builtin: BuiltinModel,
    session: SessionModel,
    known: KnownModel,
) -> StepModel {
    let facts = known.target;
    let grant = session.spec.grant;
    let budget = session.spec.limits.output_bound();
    match builtin {
        BuiltinModel::Pwd => StepModel::Finished(
            output(encode_utf8(session.cwd_text() + "\n"@)),
        ),
        BuiltinModel::Cd(path) => match session.directory(path, facts) {
            Ok(_) => StepModel::Finished(ok_result()),
            Err(fault) => session_failure(fault),
        },
        BuiltinModel::Ls(path) => match session.existing(path, facts) {
            Err(fault) => session_failure(fault),
            Ok(target) => StepModel::Perform(ActionModel::ReadDirectory(target)),
        },
        BuiltinModel::Cat(path) => match session.existing(path, facts) {
            Err(fault) => session_failure(fault),
            Ok(target) => if facts.is_dir {
                StepModel::Finished(failure("cat: is a directory"@))
            } else {
                StepModel::Perform(ActionModel::ReadFile(target, Some(budget)))
            },
        },
        BuiltinModel::Mkdir(path) => match session.new_path(path, known.landing) {
            Err(fault) => session_failure(fault),
            Ok(target) => if !grant.covers_put(target, known.landing) {
                StepModel::Finished(failure("mkdir: write denied by capability policy"@))
            } else {
                StepModel::Perform(ActionModel::CreateDirectory(target))
            },
        },
        BuiltinModel::Remove(path) => match session.existing(path, facts) {
            Err(fault) => session_failure(fault),
            Ok(target) => if !grant.covers_write(target) {
                StepModel::Finished(failure("rm: delete denied by capability policy"@))
            } else if facts.is_dir {
                StepModel::Perform(ActionModel::RemoveDirectory(target))
            } else {
                StepModel::Perform(ActionModel::RemoveFile(target))
            },
        },
        BuiltinModel::Copy(from, to) => match session.existing(from, facts) {
            Err(fault) => session_failure(fault),
            Ok(source) => match session.new_path(to, known.landing) {
                Err(fault) => session_failure(fault),
                Ok(destination) => if !grant.covers_put(destination, known.landing) {
                    StepModel::Finished(
                        failure("cp: destination write denied by capability policy"@),
                    )
                } else {
                    StepModel::Perform(ActionModel::CopyFile(source, destination))
                },
            },
        },
        BuiltinModel::Move(from, to) => match session.existing(from, facts) {
            Err(fault) => session_failure(fault),
            Ok(source) => match session.new_path(to, known.landing) {
                Err(fault) => session_failure(fault),
                Ok(destination) => if !grant.covers_write(source) || !grant.covers_put(
                    destination,
                    known.landing,
                ) {
                    StepModel::Finished(failure("mv: operation denied by capability policy"@))
                } else {
                    StepModel::Perform(ActionModel::Rename(source, destination))
                },
            },
        },
        BuiltinModel::Env => StepModel::Finished(output(encode_utf8(env_text(text_map::ordered_pairs(session.env))))),
        BuiltinModel::Which(name) => match search_path(session, known.host_path) {
            None => StepModel::Finished(not_found(name)),
            Some(search) => StepModel::Perform(ActionModel::FindFile(candidates(search, name))),
        },
        BuiltinModel::Echo(args) => StepModel::Finished(
            output(encode_utf8(echo_text(args).push('\n'))),
        ),
        BuiltinModel::Export(name, _) => if grant.environment.contains(name) {
            StepModel::Finished(ok_result())
        } else {
            session_failure(SessionFault::EnvironmentDenied(name))
        },
    }
}

/// The session after the first step of a builtin: only `cd` and `export`
/// change it.
pub open spec fn session_after(
    builtin: BuiltinModel,
    session: SessionModel,
    facts: FactsModel,
) -> SessionModel {
    match builtin {
        BuiltinModel::Cd(path) => match session.directory(path, facts) {
            Ok(target) => SessionModel { cwd: target, ..session },
            Err(_) => session,
        },
        BuiltinModel::Export(name, value) => exported(session, name, value),
        _ => session,
    }
}

/// The lines of a listing that fit into a budget: it stops before the first
/// that does not.
pub open spec fn listing(names: Seq<Seq<char>>, budget: nat) -> Seq<u8>
    decreases names.len(),
{
    if names.len() == 0 {
        Seq::empty()
    } else {
        let line = encode_utf8(names[0] + "\n"@);
        if line.len() > budget {
            Seq::empty()
        } else {
            line + listing(names.skip(1), (budget - line.len()) as nat)
        }
    }
}

/// The first bytes of a file that fit into a budget.
pub open spec fn bounded(bytes: Seq<u8>, budget: usize) -> Seq<u8> {
    if bytes.len() > budget {
        bytes.take(budget as int)
    } else {
        bytes
    }
}

/// The name that a builtin's filesystem failures begin with.
pub open spec fn failure_prefix(builtin: BuiltinModel) -> Seq<char> {
    match builtin {
        BuiltinModel::Ls(_) => "ls: "@,
        BuiltinModel::Cat(_) => "cat: "@,
        BuiltinModel::Mkdir(_) => "mkdir: "@,
        BuiltinModel::Remove(_) => "rm: "@,
        BuiltinModel::Copy(_, _) => "cp: "@,
        BuiltinModel::Move(_, _) => "mv: "@,
        _ => "builtin: "@,
    }
}

/// The result of a builtin once the host has answered. An answer of a kind
/// that the builtin did not ask for is a failure.
pub open spec fn end_result(
    builtin: BuiltinModel,
    session: SessionModel,
    host_path: Option<Seq<char>>,
    reply: ReplyModel,
) -> ResultModel {
    let budget = session.spec.limits.output_bound();
    match (builtin, reply) {
        (BuiltinModel::Ls(_), ReplyModel::Names(Ok(names))) => output(
            listing(text_order::sorted(names), budget as nat),
        ),
        (BuiltinModel::Ls(_), ReplyModel::Names(Err(error))) => failure(
            failure_prefix(builtin) + error,
        ),
        (BuiltinModel::Cat(_), ReplyModel::Bytes(Ok(bytes))) => output(bounded(bytes, budget)),
        (BuiltinModel::Cat(_), ReplyModel::Bytes(Err(error))) => failure(
            failure_prefix(builtin) + error,
        ),
        (BuiltinModel::Which(name), ReplyModel::Found(position)) => match search_path(
            session,
            host_path,
        ) {
            Some(search) => match position {
                Some(i) if i < candidates(search, name).len() => output(
                    encode_utf8(candidates(search, name)[i as int] + "\n"@),
                ),
                _ => not_found(name),
            },
            None => not_found(name),
        },
        (BuiltinModel::Mkdir(_), ReplyModel::Done(done))
        | (BuiltinModel::Remove(_), ReplyModel::Done(done))
        | (BuiltinModel::Copy(_, _), ReplyModel::Done(done))
        | (BuiltinModel::Move(_, _), ReplyModel::Done(done)) => match done {
            Ok(_) => ok_result(),
            Err(error) => failure(failure_prefix(builtin) + error),
        },
        _ => failure("unexpected host reply"@),
    }
}

/// The search path that a builtin looks in, as a value.
fn find_search_path(session: &TerminalSession, host_path: &Option<String>) -> (r: Option<String>)
    ensures
        match search_path(
            session@,
            text::optional(*host_path),
        ) {
            Some(search) => r is Some && r->0@ == search,
            None => r is None,
        },
{
    match session.env().get("PATH") {
        Some(search) => Some(search.clone()),
        None => match host_path {
            Some(search) => Some(search.clone()),
            None => None,
        },
    }
}

/// The paths of a program in the directories of a search path.
fn find_candidates(search: &str, name: &str) -> (r: Vec<String>)
    ensures
        text::texts(r@) == candidates(search@, name@),
{
    let separators: Vec<char> = vec![':'];
    assert(separators@ =~= seq![':']);
    let directories = text::split_text(search, &separators);
    let name_chars = text::chars_of(name);
    let absolute = name_chars.len() > 0 && name_chars[0] == '/';
    let mut r: Vec<String> = Vec::new();
    let ghost all = text::texts(directories@);
    let mut i: usize = 0;
    while i < directories.len()
        invariant
            i <= directories.len(),
            r.len() == i,
            all == text::texts(directories@),
            name_chars@ == name@,
            absolute == (name@.len() > 0 && name@[0] == '/'),
            forall|j: int| 0 <= j < i ==> (#[trigger] r@[j])@ == candidate(all[j], name@),
        decreases directories.len() - i,
    {
        let directory = directories[i].as_str();
        let directory_chars = text::chars_of(directory);
        let path = if directory_chars.len() == 0 || absolute {
            name.to_owned()
        } else if directory_chars[directory_chars.len() - 1] == '/' {
            text::joined(directory, name)
        } else {
            let with_slash = text::joined(directory, "/");
            text::joined(with_slash.as_str(), name)
        };
        assert(path@ == candidate(all[i as int], name@));
        r.push(path);
        i = i + 1;
    }
    assert(text::texts(r@) =~= candidates(search@, name@));
    r
}

/// The arguments of `echo` with a space between them.
fn join_arguments(args: &Vec<String>) -> (r: String)
    ensures
        r@ == echo_text(text::texts(args@)),
{
    let mut r = String::new();
    let ghost all = text::texts(args@);
    let mut i: usize = 0;
    assert(all.take(0) =~= Seq::empty());
    while i < args.len()
        invariant
            i <= args.len(),
            all == text::texts(args@),
            r@ == echo_text(all.take(i as int)),
        decreases args.len() - i,
    {
        let ghost before = r@;
        if i > 0 {
            r.push(' ');
        }
        r.append(args[i].as_str());
        i = i + 1;
        proof {
            let now = all.take(i as int);
            assert(now.drop_last() =~= all.take(i - 1));
            if i == 1 {
                assert(before =~= Seq::empty());
                assert(r@ =~= now[0]);
            }
        }
    }
    assert(all.take(i as int) =~= all);
    r
}

/// The lines of a listing that fit into a budget.
fn list_names(names: &Vec<String>, budget: usize) -> (r: Vec<u8>)
    ensures
        r@ == listing(text::texts(names@), budget as nat),
        r@.len() <= budget,
{
    let mut out: Vec<u8> = Vec::new();
    let ghost all = text::texts(names@);
    let mut i: usize = 0;
    assert(all.skip(0) =~= all);
    assert(out@ + listing(all, budget as nat) =~= listing(all, budget as nat));
    while i < names.len()
        invariant
            i <= names.len(),
            all == text::texts(names@),
            out@.len() <= budget,
            out@ + listing(all.skip(i as int), (budget - out@.len()) as nat) == listing(
                all,
                budget as nat,
            ),
        decreases names.len() - i,
    {
        let line = text::joined(names[i].as_str(), "\n");
        let mut bytes = line.as_str().as_bytes_vec();
        let ghost rest = all.skip(i as int);
        let ghost left = (budget - out@.len()) as nat;
        assert(rest[0] == names@[i as int]@);
        assert(rest.skip(1) =~= all.skip(i + 1));
        if bytes.len() > budget - out.len() {
            assert(out@ + listing(rest, left) =~= out@);
            return out;
        }
        let ghost before = out@;
        let ghost added = bytes@;
        out.append(&mut bytes);
        proof {
            let after = listing(all.skip(i + 1), (left - added.len()) as nat);
            assert(listing(rest, left) == added + after);
            assert(before + (added + after) =~= (before + added) + after);
        }
        i = i + 1;
    }
    assert(all.skip(i as int) =~= Seq::empty());
    assert(out@ + listing(all.skip(i as int), (budget - out@.len()) as nat) =~= out@);
    out
}

/// The builtin executor.
#[derive(Clone, Copy, Debug)]
pub struct BuiltinExecutor;

impl BuiltinExecutor {
    /// What a builtin needs to know of the host before it is executed.
    pub fn needs(&self, builtin: &Builtin, session: &TerminalSession) -> (r: BuiltinNeeds)
        ensures
            match existing_path(builtin@) {
                Some(path) => r.lookup is Some && Ok::<Seq<Seq<char>>, SessionFault>(
                    r.lookup->0@,
                ) == terminal_session::target_from(session@.cwd, path),
                None => r.lookup is None,
            },
            match created_path(builtin@) {
                Some(path) => r.landing is Some && Ok::<Seq<Seq<char>>, SessionFault>(
                    r.landing->0@,
                ) == terminal_session::target_from(session@.cwd, path),
                None => r.landing is None,
            },
            r.host_path == (builtin@ is Which && !session@.env.dom().contains("PATH"@)),
    {
        let path = match builtin {
            Builtin::Cd(path) => Some(path),
            Builtin::Ls(path) => Some(path),
            Builtin::Cat(path) => Some(path),
            Builtin::Remove(path) => Some(path),
            Builtin::Copy { from, to: _ } => Some(from),
            Builtin::Move { from, to: _ } => Some(from),
            _ => None,
        };
        let lookup = match path {
            Some(path) => match session.target_of(path) {
                Ok(target) => Some(target),
                Err(_) => None,
            },
            None => None,
        };
        let created = match builtin {
            Builtin::Mkdir(path) => Some(path),
            Builtin::Copy { from: _, to } => Some(to),
            Builtin::Move { from: _, to } => Some(to),
            _ => None,
        };
        let landing = match created {
            Some(path) => match session.target_of(path) {
                Ok(target) => Some(target),
                Err(_) => None,
            },
            None => None,
        };
        let host_path = match builtin {
            Builtin::Which(_) => session.env().get("PATH").is_none(),
            _ => false,
        };
        BuiltinNeeds { lookup, landing, host_path }
    }

    /// Execute one builtin against the session, as far as that goes without
    /// the filesystem.
    ///
    /// The session's cwd is the base for all path resolution; every resolved
    /// path must stay inside the base grant or the builtin fails closed with
    /// [`BuiltinResult::fail`] (no side effects are performed).
    pub fn execute(
        &self,
        builtin: &Builtin,
        session: &mut TerminalSession,
        facts: &BuiltinFacts,
    ) -> (r: BuiltinStep)
        ensures
            r@ == first_step(builtin@, old(session)@, facts@),
            final(session)@ == session_after(builtin@, old(session)@, facts.target@),
    {
        match builtin {
            Builtin::Pwd => BuiltinStep::Finished(self.pwd(session)),
            Builtin::Cd(path) => BuiltinStep::Finished(self.cd(session, path, &facts.target)),
            Builtin::Ls(path) => match session.resolve_path(path, &facts.target) {
                Err(error) => BuiltinStep::Finished(BuiltinResult::fail(error.message().as_str())),
                Ok(target) => BuiltinStep::Perform(FsAction::ReadDirectory(target)),
            },
            Builtin::Cat(path) => self.cat(session, path, &facts.target),
            Builtin::Mkdir(path) => self.mkdir(session, path, &facts.landing),
            Builtin::Remove(path) => self.remove(session, path, &facts.target),
            Builtin::Copy { from, to } => self.copy(session, from, to, facts),
            Builtin::Move { from, to } => self.move_path(session, from, to, facts),
            Builtin::Env => BuiltinStep::Finished(self.env(session)),
            Builtin::Which(name) => match find_search_path(session, &facts.host_path) {
                None => BuiltinStep::Finished(self.missing(name.as_str())),
                Some(search) => BuiltinStep::Perform(
                    FsAction::FindFile(find_candidates(search.as_str(), name.as_str())),
                ),
            },
            Builtin::Echo(args) => {
                let mut line = join_arguments(args);
                line.push('\n');
                BuiltinStep::Finished(BuiltinResult::with_stdout(line.as_str().as_bytes_vec()))
            },
            Builtin::Export { name, value } => BuiltinStep::Finished(
                self.export(session, name, value),
            ),
        }
    }

    /// Complete a builtin with the host's answer to what it asked for.
    pub fn complete(
        &self,
        builtin: &Builtin,
        session: &TerminalSession,
        facts: &BuiltinFacts,
        reply: FsReply,
    ) -> (r: BuiltinResult)
        ensures
            r@ == end_result(
                builtin@,
                session@,
                text::optional(facts.host_path),
                reply@,
            ),
    {
        let budget = session.limits().max_output_bytes();
        match (builtin, reply) {
            (Builtin::Ls(_), FsReply::Names(Ok(names))) => {
                let names = text_order::sort_texts(&names);
                BuiltinResult::with_stdout(list_names(&names, budget))
            },
            (Builtin::Ls(_), FsReply::Names(Err(error))) => BuiltinResult::fail(
                text::joined("ls: ", error.as_str()).as_str(),
            ),
            (Builtin::Cat(_), FsReply::Bytes(Ok(mut bytes))) => {
                if bytes.len() > budget {
                    bytes.truncate(budget);
                }
                BuiltinResult::with_stdout(bytes)
            },
            (Builtin::Cat(_), FsReply::Bytes(Err(error))) => BuiltinResult::fail(
                text::joined("cat: ", error.as_str()).as_str(),
            ),
            (Builtin::Which(name), FsReply::Found(position)) => {
                let search = match find_search_path(session, &facts.host_path) {
                    Some(search) => search,
                    None => return self.missing(name.as_str()),
                };
                let found = find_candidates(search.as_str(), name.as_str());
                match position {
                    Some(i) => if i < found.len() {
                        let line = text::joined(found[i].as_str(), "\n");
                        assert(found@[i as int]@ == candidates(search@, name@)[i as int]);
                        BuiltinResult::with_stdout(line.as_str().as_bytes_vec())
                    } else {
                        self.missing(name.as_str())
                    },
                    None => self.missing(name.as_str()),
                }
            },
            (Builtin::Mkdir(_), FsReply::Done(done)) => self.done("mkdir: ", done),
            (Builtin::Remove(_), FsReply::Done(done)) => self.done("rm: ", done),
            (Builtin::Copy { from: _, to: _ }, FsReply::Done(done)) => self.done("cp: ", done),
            (Builtin::Move { from: _, to: _ }, FsReply::Done(done)) => self.done("mv: ", done),
            _ => BuiltinResult::fail("unexpected host reply"),
        }
    }

    fn done(&self, prefix: &str, done: Result<(), String>) -> (r: BuiltinResult)
        ensures
            r@ == match done {
                Ok(_) => ok_result(),
                Err(error) => failure(prefix@ + error@),
            },
    {
        match done {
            Ok(()) => BuiltinResult::ok(),
            Err(error) => BuiltinResult::fail(text::joined(prefix, error.as_str()).as_str()),
        }
    }

    fn missing(&self, name: &str) -> (r: BuiltinResult)
        ensures
            r@ == not_found(name@),
    {
        let message = text::joined("which: ", name);
        BuiltinResult::fail(text::joined(message.as_str(), ": not found").as_str())
    }

    fn pwd(&self, session: &TerminalSession) -> (r: BuiltinResult)
        ensures
            r@ == output(encode_utf8(session@.cwd_text() + "\n"@)),
    {
        let line = text::joined(session.cwd_display().as_str(), "\n");
        BuiltinResult::with_stdout(line.as_str().as_bytes_vec())
    }

    fn cd(&self, session: &mut TerminalSession, path: &SessionPath, facts: &PathFacts) -> (r:
        BuiltinResult)
        ensures
            match old(session)@.directory(path@, facts@) {
                Ok(target) => r@ == ok_result() && final(session)@ == (SessionModel {
                    cwd: target,
                    ..old(session)@
                }),
                Err(fault) => r@ == failure(fault.message_text()) && final(session)@ == old(
                    session,
                )@,
            },
    {
        match session.change_dir(path, facts) {
            Ok(()) => BuiltinResult::ok(),
            Err(error) => BuiltinResult::fail(error.message().as_str()),
        }
    }

    fn cat(&self, session: &TerminalSession, path: &SessionPath, facts: &PathFacts) -> (r:
        BuiltinStep)
        ensures
            r@ == match session@.existing(path@, facts@) {
                Err(fault) => session_failure(fault),
                Ok(target) => if facts@.is_dir {
                    StepModel::Finished(failure("cat: is a directory"@))
                } else {
                    StepModel::Perform(
                        ActionModel::ReadFile(target, Some(session@.spec.limits.output_bound())),
                    )
                },
            },
    {
        match session.resolve_path(path, facts) {
            Err(error) => BuiltinStep::Finished(BuiltinResult::fail(error.message().as_str())),
            Ok(target) => if facts.is_dir {
                BuiltinStep::Finished(BuiltinResult::fail("cat: is a directory"))
            } else {
                let limit = session.limits().max_output_bytes();
                BuiltinStep::Perform(FsAction::ReadFile { path: target, limit: Some(limit) })
            },
        }
    }

    fn mkdir(
        &self,
        session: &TerminalSession,
        path: &SessionPath,
        landing: &Option<HostPath>,
    ) -> (r: BuiltinStep)
        ensures
            r@ == match session@.new_path(path@, host_path::optional(*landing)) {
                Err(fault) => session_failure(fault),
                Ok(target) => if !session@.spec.grant.covers_put(
                    target,
                    host_path::optional(*landing),
                ) {
                    StepModel::Finished(failure("mkdir: write denied by capability policy"@))
                } else {
                    StepModel::Perform(ActionModel::CreateDirectory(target))
                },
            },
    {
        match session.resolve_new_path(path, landing) {
            Err(error) => BuiltinStep::Finished(BuiltinResult::fail(error.message().as_str())),
            Ok(target) => if !session.base_grant().allows_put(&target, landing) {
                BuiltinStep::Finished(
                    BuiltinResult::fail("mkdir: write denied by capability policy"),
                )
            } else {
                BuiltinStep::Perform(FsAction::CreateDirectory(target))
            },
        }
    }

    fn remove(&self, session: &TerminalSession, path: &SessionPath, facts: &PathFacts) -> (r:
        BuiltinStep)
        ensures
            r@ == match session@.existing(path@, facts@) {
                Err(fault) => session_failure(fault),
                Ok(target) => if !session@.spec.grant.covers_write(target) {
                    StepModel::Finished(failure("rm: delete denied by capability policy"@))
                } else if facts@.is_dir {
                    StepModel::Perform(ActionModel::RemoveDirectory(target))
                } else {
                    StepModel::Perform(ActionModel::RemoveFile(target))
                },
            },
    {
        match session.resolve_path(path, facts) {
            Err(error) => BuiltinStep::Finished(BuiltinResult::fail(error.message().as_str())),
            Ok(target) => if !session.base_grant().allows_write(&target) {
                BuiltinStep::Finished(BuiltinResult::fail("rm: delete denied by capability policy"))
            } else if facts.is_dir {
                BuiltinStep::Perform(FsAction::RemoveDirectory(target))
            } else {
                BuiltinStep::Perform(FsAction::RemoveFile(target))
            },
        }
    }

    fn copy(
        &self,
        session: &TerminalSession,
        from: &SessionPath,
        to: &SessionPath,
        facts: &BuiltinFacts,
    ) -> (r: BuiltinStep)
        ensures
            r@ == match session@.existing(from@, facts@.target) {
                Err(fault) => session_failure(fault),
                Ok(source) => match session@.new_path(to@, facts@.landing) {
                    Err(fault) => session_failure(fault),
                    Ok(destination) => if !session@.spec.grant.covers_put(
                        destination,
                        facts@.landing,
                    ) {
                        StepModel::Finished(
                            failure("cp: destination write denied by capability policy"@),
                        )
                    } else {
                        StepModel::Perform(ActionModel::CopyFile(source, destination))
                    },
                },
            },
    {
        let source = match session.resolve_path(from, &facts.target) {
            Ok(source) => source,
            Err(error) => return BuiltinStep::Finished(
                BuiltinResult::fail(error.message().as_str()),
            ),
        };
        let destination = match session.resolve_new_path(to, &facts.landing) {
            Ok(destination) => destination,
            Err(error) => return BuiltinStep::Finished(
                BuiltinResult::fail(error.message().as_str()),
            ),
        };
        if !session.base_grant().allows_put(&destination, &facts.landing) {
            return BuiltinStep::Finished(
                BuiltinResult::fail("cp: destination write denied by capability policy"),
            );
        }
        BuiltinStep::Perform(FsAction::CopyFile { from: source, to: destination })
    }

    fn move_path(
        &self,
        session: &TerminalSession,
        from: &SessionPath,
        to: &SessionPath,
        facts: &BuiltinFacts,
    ) -> (r: BuiltinStep)
        ensures
            r@ == match session@.existing(from@, facts@.target) {
                Err(fault) => session_failure(fault),
                Ok(source) => match session@.new_path(to@, facts@.landing) {
                    Err(fault) => session_failure(fault),
                    Ok(destination) => if !session@.spec.grant.covers_write(source)
                        || !session@.spec.grant.covers_put(destination, facts@.landing) {
                        StepModel::Finished(failure("mv: operation denied by capability policy"@))
                    } else {
                        StepModel::Perform(ActionModel::Rename(source, destination))
                    },
                },
            },
    {
        let source = match session.resolve_path(from, &facts.target) {
            Ok(source) => source,
            Err(error) => return BuiltinStep::Finished(
                BuiltinResult::fail(error.message().as_str()),
            ),
        };
        let destination = match session.resolve_new_path(to, &facts.landing) {
            Ok(destination) => destination,
            Err(error) => return BuiltinStep::Finished(
                BuiltinResult::fail(error.message().as_str()),
            ),
        };
        let grant = session.base_grant();
        if !grant.allows_write(&source) || !grant.allows_put(&destination, &facts.landing) {
            return BuiltinStep::Finished(
                BuiltinResult::fail("mv: operation denied by capability policy"),
            );
        }
        BuiltinStep::Perform(FsAction::Rename { from: source, to: destination })
    }

    fn env(&self, session: &TerminalSession) -> (r: BuiltinResult)
        ensures
            r@ == output(encode_utf8(env_text(text_map::ordered_pairs(session@.env)))),
    {
        let mut out = String::new();
        let variables = session.env();
        let count = variables.len();
        let ghost pairs = variables.pairs();
        let mut i: usize = 0;
        assert(pairs.take(0) =~= Seq::empty());
        while i < count
            invariant
                i <= count,
                count == pairs.len(),
                pairs == variables.pairs(),
                out@ == env_text(pairs.take(i as int)),
            decreases count - i,
        {
            let (name, value) = variables.entry(i);
            out.append(name);
            out.append("=");
            out.append(value.as_str());
            out.append("\n");
            i = i + 1;
            assert(pairs.take(i as int).drop_last() =~= pairs.take(i - 1));
        }
        assert(pairs.take(i as int) =~= pairs);
        BuiltinResult::with_stdout(out.as_str().as_bytes_vec())
    }

    fn export(&self, session: &mut TerminalSession, name: &String, value: &Option<String>) -> (r:
        BuiltinResult)
        ensures
            r@ == if old(session)@.spec.grant.environment.contains(name@) {
                ok_result()
            } else {
                failure(SessionFault::EnvironmentDenied(name@).message_text())
            },
            final(session)@ == exported(old(session)@, name@, text::optional(*value)),
    {
        let mut delta = EnvDelta::default();
        match value {
            Some(value) => {
                delta.set.insert(name.clone(), value.clone());
                let ghost pair = (name@, value@);
                let count = delta.set.len();
                proof {
                    reveal_with_fuel(text_map::map_of, 2);
                    assert(seq![pair].drop_last() =~= Seq::empty());
                    assert(text_map::is_ordered_form(seq![pair], delta.set@));
                    text_map::lemma_pairs_unique(delta.set.pairs(), seq![pair]);
                    assert(terminal_session::delta_names(delta@) =~= seq![name@]);
                    assert(text::texts(delta.remove@) =~= Seq::empty());
                    reveal_with_fuel(terminal_session::extended, 2);
                }
            },
            None => {
                delta.remove.push(name.clone());
                proof {
                    assert(terminal_session::delta_names(delta@) =~= seq![name@]);
                    assert(text::texts(delta.remove@) =~= seq![name@]);
                    assert(seq![name@].drop_last() =~= Seq::empty());
                    reveal_with_fuel(terminal_session::without, 2);
                }
            },
        }
        proof {
            reveal_with_fuel(terminal_session::first_denied, 2);
            assert(seq![name@].skip(1) =~= Seq::empty());
        }
        match session.apply_env(delta) {
            Ok(()) => BuiltinResult::ok(),
            Err(error) => BuiltinResult::fail(error.message().as_str()),
        }
    }
}

/// Whether the paths of a builtin are session paths, as those of every
/// [`Builtin`] are.
pub open spec fn has_session_paths(builtin: BuiltinModel) -> bool {
    match builtin {
        BuiltinModel::Cd(path) => shell_ir::path_fault(path) is None,
        BuiltinModel::Ls(path) => shell_ir::path_fault(path) is None,
        BuiltinModel::Cat(path) => shell_ir::path_fault(path) is None,
        BuiltinModel::Mkdir(path) => shell_ir::path_fault(path) is None,
        BuiltinModel::Remove(path) => shell_ir::path_fault(path) is None,
        BuiltinModel::Copy(from, to) => shell_ir::path_fault(from) is None
            && shell_ir::path_fault(to) is None,
        BuiltinModel::Move(from, to) => shell_ir::path_fault(from) is None
            && shell_ir::path_fault(to) is None,
        _ => true,
    }
}

/// Whether a grant covers what an action does: what is read lies in a granted
/// tree, and what is changed or put somewhere in one that may be written, also
/// once links are followed.
pub open spec fn action_is_granted(
    action: ActionModel,
    grant: GrantModel,
    known: KnownModel,
) -> bool {
    let real_source = grant.covers_real(known.target.actual);
    match action {
        ActionModel::ReadDirectory(path) => grant.covers(path) && real_source,
        ActionModel::ReadFile(path, _) => grant.covers(path) && real_source,
        ActionModel::CreateDirectory(path) => grant.covers_put(path, known.landing),
        ActionModel::RemoveDirectory(path) => grant.covers_write(path) && real_source,
        ActionModel::RemoveFile(path) => grant.covers_write(path) && real_source,
        ActionModel::CopyFile(from, to) => grant.covers(from) && real_source && grant.covers_put(
            to,
            known.landing,
        ),
        ActionModel::Rename(from, to) => grant.covers_write(from) && real_source
            && grant.covers_put(to, known.landing),
        ActionModel::FindFile(_) => true,
        ActionModel::WriteFile(_, _, _) => false,
    }
}

/// Where a session path leads from the working directory, a granted tree
/// covers it.
pub proof fn lemma_targets_are_covered(session: SessionModel, path: Seq<char>)
    requires
        session.valid(),
        shell_ir::path_fault(path) is None,
    ensures
        terminal_session::target_from(session.cwd, path) is Ok,
        session.spec.grant.covers(terminal_session::target_from(session.cwd, path)->Ok_0),
        host_path::lies_in(
            terminal_session::target_from(session.cwd, path)->Ok_0,
            terminal_session::root_of(session.spec.grant)->0,
        ),
{
    let root = terminal_session::root_of(session.spec.grant)->0;
    host_path::session_paths_stay_below(session.cwd, path);
    let target = host_path::resolved(session.cwd, path)->Ok_0;
    host_path::lemma_lies_in_transitive(target, session.cwd, root);
    assert(host_path::lies_in(target, session.spec.grant.trees[0].root));
}

/// No builtin touches anything outside the grant, by its path or through a
/// link, and none changes anything without the write capability, whatever the
/// host says of the paths.
pub proof fn builtins_stay_in_the_grant(
    builtin: BuiltinModel,
    session: SessionModel,
    known: KnownModel,
)
    requires
        session.valid(),
        has_session_paths(builtin),
    ensures
        match first_step(builtin, session, known) {
            StepModel::Perform(action) => action_is_granted(action, session.spec.grant, known),
            StepModel::Finished(_) => true,
        },
{
    match existing_path(builtin) {
        Some(path) => lemma_targets_are_covered(session, path),
        None => {},
    }
}

/// A builtin keeps the session valid: it never leaves the workspace root, and
/// never puts a variable into the overlay that is not granted.
pub proof fn builtins_keep_sessions_valid(
    builtin: BuiltinModel,
    session: SessionModel,
    facts: FactsModel,
)
    requires
        session.valid(),
        has_session_paths(builtin),
    ensures
        session_after(builtin, session, facts).valid(),
        session_after(builtin, session, facts).spec == session.spec,
        session_after(builtin, session, facts).jobs == session.jobs,
{
    match builtin {
        BuiltinModel::Cd(path) => lemma_targets_are_covered(session, path),
        _ => {},
    }
}

proof fn lemma_listing_fits(names: Seq<Seq<char>>, budget: nat)
    ensures
        listing(names, budget).len() <= budget,
    decreases names.len(),
{
    if names.len() > 0 {
        let line = encode_utf8(names[0] + "\n"@);
        if line.len() <= budget {
            lemma_listing_fits(names.skip(1), (budget - line.len()) as nat);
        }
    }
}

/// What `ls` and `cat` print fits into the session's output budget.
pub proof fn listings_and_files_are_bounded(
    builtin: BuiltinModel,
    session: SessionModel,
    host_path: Option<Seq<char>>,
    reply: ReplyModel,
)
    requires
        builtin is Ls || builtin is Cat,
    ensures
        end_result(builtin, session, host_path, reply).stdout.len()
            <= session.spec.limits.output_bound(),
{
    match reply {
        ReplyModel::Names(Ok(names)) => lemma_listing_fits(
            text_order::sorted(names),
            session.spec.limits.output_bound() as nat,
        ),
        _ => {},
    }
}

} // verus!
