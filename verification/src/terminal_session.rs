//! Persistent terminal session state for the Ferrous Shell.
//!
//! A [`TerminalSession`] is the durable state a human or AI interacts with
//! across many commands: a capability-scoped working directory, an approved
//! environment overlay, and a bounded table of session-owned jobs. `cd`
//! changes only session state, never the host process cwd, and every resolved
//! path is checked against the session's capability grant.
//!
//! The session decides on paths; what the host knows of a path is handed to it
//! as [`PathFacts`].

use std::collections::HashMap;
use vstd::prelude::*;
use vstd::std_specs::hash::*;
use vstd::std_specs::iter::IteratorSpec;
use crate::cancel;
use crate::cancel::CancelHandle;
use crate::capability::{CapabilityGrant, GrantModel, ResourceLimits};
use crate::command::Actor;
use crate::elevation::{ApprovalLease, LeaseModel};
use crate::host_path;
use crate::host_path::HostPath;
use crate::shell_ir::SessionPath;
use crate::text;
use crate::text_map;
use crate::text_map::TextMap;

verus! {

broadcast use group_hash_axioms;

/// Identifies one persistent terminal session.
pub type SessionId = u64;

/// How many live jobs one session may own before new ones are rejected.
pub const DEFAULT_MAX_JOBS: usize = 16;

/// What the host knows of a path.
#[derive(Debug, PartialEq, Eq)]
pub struct PathFacts {
    /// Where the path leads once links are followed, if it exists.
    pub actual: Option<HostPath>,
    /// Whether it is a directory.
    pub is_dir: bool,
}

/// What [`PathFacts`] denote.
pub struct FactsModel {
    /// Where the path leads, if it exists.
    pub actual: Option<Seq<Seq<char>>>,
    /// Whether it is a directory.
    pub is_dir: bool,
}

impl View for PathFacts {
    type V = FactsModel;

    open spec fn view(&self) -> FactsModel {
        FactsModel { actual: host_path::optional(self.actual), is_dir: self.is_dir }
    }
}

/// The immutable specification of a session.
#[derive(Debug, PartialEq, Eq)]
pub struct TerminalSessionSpec {
    /// Stable session identifier.
    pub id: SessionId,
    /// The principal using this session.
    pub actor: Actor,
    /// Capability-relative initial working directory (usually `.`).
    pub cwd: SessionPath,
    /// Base authority for the session.
    pub base_grant: CapabilityGrant,
    /// Resource limits applied to every job in the session.
    pub limits: ResourceLimits,
}

/// What a [`TerminalSessionSpec`] denotes.
#[verifier::ext_equal]
pub struct SpecModel {
    /// The session.
    pub id: SessionId,
    /// Who uses it.
    pub actor: Actor,
    /// Where it starts.
    pub cwd: Seq<char>,
    /// What it may reach.
    pub grant: GrantModel,
    /// The bounds on its jobs.
    pub limits: ResourceLimits,
}

impl View for TerminalSessionSpec {
    type V = SpecModel;

    open spec fn view(&self) -> SpecModel {
        SpecModel {
            id: self.id,
            actor: self.actor,
            cwd: self.cwd@,
            grant: self.base_grant@,
            limits: self.limits,
        }
    }
}

impl Clone for TerminalSessionSpec {
    fn clone(&self) -> (r: Self)
        ensures
            r@ == self@,
    {
        TerminalSessionSpec {
            id: self.id,
            actor: self.actor,
            cwd: self.cwd.clone(),
            base_grant: self.base_grant.clone(),
            limits: self.limits,
        }
    }
}

/// A delta applied to the session's environment overlay.
#[derive(Debug, PartialEq, Eq)]
pub struct EnvDelta {
    /// Variables to set in the overlay.
    pub set: TextMap<String>,
    /// Variable names to remove from the overlay.
    pub remove: Vec<String>,
}

/// What an [`EnvDelta`] denotes.
pub struct DeltaModel {
    /// What is set, in order.
    pub set: Seq<(Seq<char>, Seq<char>)>,
    /// What is removed.
    pub remove: Seq<Seq<char>>,
}

impl View for EnvDelta {
    type V = DeltaModel;

    open spec fn view(&self) -> DeltaModel {
        DeltaModel { set: self.set.pairs(), remove: text::texts(self.remove@) }
    }
}

impl Default for EnvDelta {
    fn default() -> (r: Self)
        ensures
            r.set@ == Map::<Seq<char>, Seq<char>>::empty(),
            r.set.pairs().len() == 0,
            r.remove@.len() == 0,
    {
        EnvDelta { set: TextMap::new(), remove: Vec::new() }
    }
}

/// A session-owned background job handle.
#[derive(Debug)]
pub struct JobHandle {
    /// The command's plan digest hex, for audit.
    pub digest_hex: String,
    /// Cancellation for this job.
    pub cancel: CancelHandle,
    /// The job's exit code, once it has ended without being cancelled.
    pub exit_code: Option<i32>,
}

/// Errors produced by session operations.
#[derive(Debug, PartialEq, Eq)]
pub enum SessionError {
    /// The requested path is outside the session's capability grant.
    PathDenied(String),
    /// The session has been closed.
    Closed,
    /// The job table is full.
    JobTableFull(usize),
    /// The job does not exist.
    UnknownJob(u64),
    /// The environment variable name was rejected by the capability policy.
    EnvironmentDenied(String),
    /// The path does not exist on disk.
    NotFound(String),
    /// The operation failed on the filesystem.
    Io(String),
}

/// What a [`SessionError`] denotes.
pub enum SessionFault {
    /// The path is outside the grant.
    PathDenied(Seq<char>),
    /// The session has been closed.
    Closed,
    /// The job table is full.
    JobTableFull(usize),
    /// The job does not exist.
    UnknownJob(u64),
    /// The name is not granted.
    EnvironmentDenied(Seq<char>),
    /// The path does not exist.
    NotFound(Seq<char>),
    /// The filesystem failed.
    Io(Seq<char>),
}

impl View for SessionError {
    type V = SessionFault;

    open spec fn view(&self) -> SessionFault {
        match self {
            SessionError::PathDenied(path) => SessionFault::PathDenied(path@),
            SessionError::Closed => SessionFault::Closed,
            SessionError::JobTableFull(max) => SessionFault::JobTableFull(*max),
            SessionError::UnknownJob(id) => SessionFault::UnknownJob(*id),
            SessionError::EnvironmentDenied(name) => SessionFault::EnvironmentDenied(name@),
            SessionError::NotFound(path) => SessionFault::NotFound(path@),
            SessionError::Io(reason) => SessionFault::Io(reason@),
        }
    }
}

impl SessionFault {
    /// The message of an error.
    pub open spec fn message_text(self) -> Seq<char> {
        match self {
            SessionFault::PathDenied(path) => "path denied by capability policy: "@ + path,
            SessionFault::Closed => "session is closed"@,
            SessionFault::JobTableFull(max) => "session job table is full (max "@ + text::decimal(
                max as nat,
            ) + " jobs)"@,
            SessionFault::UnknownJob(id) => "no job with id "@ + text::decimal(id as nat) + ""@,
            SessionFault::EnvironmentDenied(name) => {
                "environment variable denied by capability policy: "@ + name
            },
            SessionFault::NotFound(path) => "path does not exist: "@ + path,
            SessionFault::Io(reason) => "filesystem error: "@ + reason,
        }
    }
}

impl SessionError {
    /// A message for people.
    pub fn message(&self) -> (r: String)
        ensures
            r@ == self@.message_text(),
    {
        match self {
            SessionError::PathDenied(path) => text::joined(
                "path denied by capability policy: ",
                path.as_str(),
            ),
            SessionError::Closed => "session is closed".to_owned(),
            SessionError::JobTableFull(max) => text::around_number(
                "session job table is full (max ",
                *max as u64,
                " jobs)",
            ),
            SessionError::UnknownJob(id) => text::around_number("no job with id ", *id, ""),
            SessionError::EnvironmentDenied(name) => text::joined(
                "environment variable denied by capability policy: ",
                name.as_str(),
            ),
            SessionError::NotFound(path) => text::joined("path does not exist: ", path.as_str()),
            SessionError::Io(reason) => text::joined("filesystem error: ", reason.as_str()),
        }
    }
}

/// What a [`TerminalSession`] denotes.
#[verifier::ext_equal]
pub struct SessionModel {
    /// The specification.
    pub spec: SpecModel,
    /// The working directory.
    pub cwd: Seq<Seq<char>>,
    /// The environment overlay.
    pub env: Map<Seq<char>, Seq<char>>,
    /// The live jobs.
    pub jobs: Map<u64, JobHandle>,
    /// The next job id to assign.
    pub next_job_id: u64,
    /// The handles of the jobs that were stopped last.
    pub stopped: Map<u64, CancelHandle>,
    /// The active lease.
    pub lease: Option<LeaseModel>,
    /// Whether the session has been closed.
    pub closed: bool,
}

/// The workspace root of a grant: the root of its first tree.
pub open spec fn root_of(grant: GrantModel) -> Option<Seq<Seq<char>>> {
    if grant.trees.len() > 0 {
        Some(grant.trees[0].root)
    } else {
        None
    }
}

/// The fault of a grant without a tree.
pub open spec fn no_root_fault() -> SessionFault {
    SessionFault::PathDenied("<no filesystem grant>"@)
}

/// Where a session starts.
pub open spec fn initial_directory(spec: SpecModel) -> Result<Seq<Seq<char>>, SessionFault> {
    match root_of(spec.grant) {
        None => Err(no_root_fault()),
        Some(root) => target_from(root, spec.cwd),
    }
}

/// Where a path leads from a directory, or the fault of leading nowhere.
pub open spec fn target_from(base: Seq<Seq<char>>, path: Seq<char>) -> Result<
    Seq<Seq<char>>,
    SessionFault,
> {
    match host_path::resolved(base, path) {
        Ok(target) => Ok(target),
        Err(reached) => Err(SessionFault::PathDenied(host_path::path_text(reached))),
    }
}

impl SessionModel {
    /// What always holds of a session: it works inside its workspace root,
    /// holds only granted variables, and owns a bounded number of jobs, each of
    /// which has an id below the next one while ids last; once closed it owns
    /// none. Every job that was stopped was asked to.
    pub open spec fn valid(self) -> bool {
        &&& root_of(self.spec.grant) is Some
        &&& host_path::lies_in(self.cwd, root_of(self.spec.grant)->0)
        &&& forall|name: Seq<char>| #[trigger]
            self.env.dom().contains(name) ==> self.spec.grant.environment.contains(name)
        &&& self.jobs.dom().finite()
        &&& self.jobs.len() <= DEFAULT_MAX_JOBS
        &&& self.closed ==> self.jobs.len() == 0
        &&& forall|id: u64| #[trigger]
            self.jobs.dom().contains(id) ==> id < self.next_job_id || self.next_job_id == u64::MAX
        &&& forall|id: u64| #[trigger]
            self.stopped.dom().contains(id) ==> self.stopped[id].was_asked()
    }

    /// Where an existing path leads, if it may be used.
    pub open spec fn existing(self, path: Seq<char>, facts: FactsModel) -> Result<
        Seq<Seq<char>>,
        SessionFault,
    > {
        match target_from(self.cwd, path) {
            Err(fault) => Err(fault),
            Ok(target) => if self.spec.grant.covers_real(facts.actual) {
                Ok(target)
            } else {
                Err(SessionFault::PathDenied(host_path::path_text(target)))
            },
        }
    }

    /// Where a path that need not exist leads, if it may be used; `landing` is
    /// where something put there would come to lie.
    pub open spec fn new_path(
        self,
        path: Seq<char>,
        landing: Option<Seq<Seq<char>>>,
    ) -> Result<Seq<Seq<char>>, SessionFault> {
        match target_from(self.cwd, path) {
            Err(fault) => Err(fault),
            Ok(target) => if self.spec.grant.covers(target) && self.spec.grant.covers_real(
                landing,
            ) {
                Ok(target)
            } else {
                Err(SessionFault::PathDenied(host_path::path_text(target)))
            },
        }
    }

    /// Where redirected output goes, if it may be written there.
    pub open spec fn output_path(
        self,
        path: Seq<char>,
        landing: Option<Seq<Seq<char>>>,
    ) -> Result<Seq<Seq<char>>, SessionFault> {
        match self.new_path(path, landing) {
            Err(fault) => Err(fault),
            Ok(target) => if self.spec.grant.covers_put(target, landing) {
                Ok(target)
            } else {
                Err(SessionFault::PathDenied(host_path::path_text(target)))
            },
        }
    }

    /// The directory that `cd` leads to.
    pub open spec fn directory(self, path: Seq<char>, facts: FactsModel) -> Result<
        Seq<Seq<char>>,
        SessionFault,
    > {
        match target_from(self.cwd, path) {
            Err(fault) => Err(fault),
            Ok(target) => if facts.actual is None {
                Err(SessionFault::NotFound(host_path::path_text(target)))
            } else if !self.spec.grant.covers_real(facts.actual) {
                Err(SessionFault::PathDenied(host_path::path_text(target)))
            } else if !facts.is_dir {
                Err(SessionFault::NotFound(host_path::path_text(target)))
            } else {
                Ok(target)
            },
        }
    }

    /// The working directory as it is shown: relative to the workspace root.
    pub open spec fn cwd_text(self) -> Seq<char> {
        let root = root_of(self.spec.grant)->0;
        if self.cwd == root {
            "."@
        } else {
            host_path::relative_text(self.cwd.skip(root.len() as int))
        }
    }
}

/// The names that a delta touches: those it sets, in order, then those it
/// removes.
pub open spec fn delta_names(delta: DeltaModel) -> Seq<Seq<char>> {
    text_map::keys_of(delta.set) + delta.remove
}

/// The first name of a list that is not granted.
pub open spec fn first_denied(names: Seq<Seq<char>>, grant: GrantModel) -> Option<Seq<char>>
    decreases names.len(),
{
    if names.len() == 0 {
        None
    } else if !grant.environment.contains(names[0]) {
        Some(names[0])
    } else {
        first_denied(names.skip(1), grant)
    }
}

/// An overlay after the variables of a list are removed.
pub open spec fn without<V>(env: Map<Seq<char>, V>, names: Seq<Seq<char>>) -> Map<Seq<char>, V>
    decreases names.len(),
{
    if names.len() == 0 {
        env
    } else {
        without(env, names.drop_last()).remove(names.last())
    }
}

/// An overlay after the entries of a list are set.
pub open spec fn extended<V>(env: Map<Seq<char>, V>, pairs: Seq<(Seq<char>, V)>) -> Map<
    Seq<char>,
    V,
>
    decreases pairs.len(),
{
    if pairs.len() == 0 {
        env
    } else {
        extended(env, pairs.drop_last()).insert(pairs.last().0, pairs.last().1)
    }
}

/// An overlay after a delta: removals first, then what is set.
pub open spec fn env_after(env: Map<Seq<char>, Seq<char>>, delta: DeltaModel) -> Map<
    Seq<char>,
    Seq<char>,
> {
    extended(without(env, delta.remove), delta.set)
}

/// A session after a delta, which only granted names let change it.
pub open spec fn overlaid(session: SessionModel, delta: DeltaModel) -> SessionModel {
    if first_denied(delta_names(delta), session.spec.grant) is Some {
        session
    } else {
        SessionModel { env: env_after(session.env, delta), ..session }
    }
}

proof fn lemma_first_denied(names: Seq<Seq<char>>, grant: GrantModel, i: int)
    requires
        0 <= i <= names.len(),
        forall|j: int| 0 <= j < i ==> grant.environment.contains(#[trigger] names[j]),
    ensures
        first_denied(names, grant) == first_denied(names.skip(i), grant),
    decreases i,
{
    if i == 0 {
        assert(names.skip(0) =~= names);
    } else {
        lemma_first_denied(names, grant, i - 1);
        assert(grant.environment.contains(names[i - 1]));
        assert(names.skip(i - 1).skip(1) =~= names.skip(i));
        assert(names.skip(i - 1)[0] == names[i - 1]);
    }
}

proof fn lemma_without_dom<V>(env: Map<Seq<char>, V>, names: Seq<Seq<char>>)
    ensures
        forall|k: Seq<char>| #[trigger]
            without(env, names).dom().contains(k) ==> env.dom().contains(k),
    decreases names.len(),
{
    if names.len() > 0 {
        let rest = names.drop_last();
        lemma_without_dom(env, rest);
        assert forall|k: Seq<char>| #[trigger]
            without(env, names).dom().contains(k) implies env.dom().contains(k) by {
            assert(without(env, rest).dom().contains(k));
        }
    }
}

proof fn lemma_extended_dom<V>(env: Map<Seq<char>, V>, pairs: Seq<(Seq<char>, V)>)
    ensures
        forall|k: Seq<char>| #[trigger]
            extended(env, pairs).dom().contains(k) ==> env.dom().contains(k)
                || text_map::keys_of(pairs).contains(k),
    decreases pairs.len(),
{
    if pairs.len() > 0 {
        let rest = pairs.drop_last();
        lemma_extended_dom(env, rest);
        assert forall|k: Seq<char>| #[trigger]
            extended(env, pairs).dom().contains(k) implies env.dom().contains(k)
            || text_map::keys_of(pairs).contains(k) by {
            if k == pairs.last().0 {
                assert(text_map::keys_of(pairs)[pairs.len() - 1] == k);
            } else {
                assert(extended(env, rest).dom().contains(k));
                if !env.dom().contains(k) {
                    let keys = text_map::keys_of(rest);
                    let j = choose|j: int| 0 <= j < keys.len() && keys[j] == k;
                    assert(text_map::keys_of(pairs)[j] == k);
                }
            }
        }
    }
}

/// The persistent state of one terminal session.
#[derive(Debug)]
pub struct TerminalSession {
    spec: TerminalSessionSpec,
    cwd: HostPath,
    env: TextMap<String>,
    jobs: HashMap<u64, JobHandle>,
    next_job_id: u64,
    stopped: HashMap<u64, CancelHandle>,
    lease: Option<ApprovalLease>,
    closed: bool,
}

impl View for TerminalSession {
    type V = SessionModel;

    closed spec fn view(&self) -> SessionModel {
        SessionModel {
            spec: self.spec@,
            cwd: self.cwd@,
            env: self.env@,
            jobs: self.jobs@,
            next_job_id: self.next_job_id,
            stopped: self.stopped@,
            lease: match self.lease {
                Some(lease) => Some(lease@),
                None => None,
            },
            closed: self.closed,
        }
    }
}

/// The workspace root of a grant.
fn workspace_root(grant: &CapabilityGrant) -> (r: Result<HostPath, SessionError>)
    ensures
        match root_of(grant@) {
            Some(root) => r is Ok && r->Ok_0@ == root,
            None => r is Err && r->Err_0@ == no_root_fault(),
        },
{
    let trees = grant.filesystem_grants();
    if trees.len() == 0 {
        return Err(SessionError::PathDenied("<no filesystem grant>".to_owned()));
    }
    assert(grant@.trees[0] == trees@[0]@);
    Ok(trees[0].root().clone())
}

/// The job id after another; the last one stays.
pub open spec fn next_id(id: u64) -> u64 {
    if id == u64::MAX {
        u64::MAX
    } else {
        (id + 1) as u64
    }
}

/// The handles of some jobs.
pub open spec fn handles_of(jobs: Map<u64, JobHandle>) -> Map<u64, CancelHandle> {
    jobs.map_values(|job: JobHandle| job.cancel)
}

/// Ask every job to stop, through handles of the same flags.
fn stop_all(jobs: &HashMap<u64, JobHandle>) -> (r: HashMap<u64, CancelHandle>)
    ensures
        cancel::all_stopped(handles_of(jobs@), r@),
{
    let mut handles: HashMap<u64, CancelHandle> = HashMap::new();
    for entry in entries: jobs.iter()
        invariant
            forall|id: u64| #[trigger]
                handles@.dom().contains(id) ==> jobs@.dom().contains(id) && handles@[id]
                    == jobs@[id].cancel,
            forall|i: int|
                0 <= i < entries.index() ==> handles@.dom().contains(
                    *(#[trigger] entries.seq()[i]).0,
                ),
            entries.seq() == jobs.iter().remaining(),
    {
        let (id, job) = entry;
        assert(jobs@.contains_key(*entries.seq()[entries.index() as int].0));
        handles.insert(*id, job.cancel.clone());
    }
    proof {
        let all = jobs.iter().remaining();
        assert forall|id: u64| jobs@.dom().contains(id) implies handles@.dom().contains(id) by {
            assert(jobs@.contains_key(id));
            assert(all.contains((&id, &jobs@[id])));
            let i = choose|i: int| 0 <= i < all.len() && all[i] == (&id, &jobs@[id]);
            assert(handles@.dom().contains(*all[i].0));
        }
        assert(handles@ =~= handles_of(jobs@));
    }
    cancel::cancel_all(&handles)
}

/// Join a session path onto a base, collapsing `.` and `..` lexically.
fn resolve_session_path(base: &HostPath, path: &str) -> (r: Result<HostPath, SessionError>)
    ensures
        match target_from(base@, path@) {
            Ok(target) => r is Ok && r->Ok_0@ == target,
            Err(fault) => r is Err && r->Err_0@ == fault,
        },
{
    match base.resolve(path) {
        Ok(target) => Ok(target),
        Err(reached) => Err(SessionError::PathDenied(reached.to_text())),
    }
}

impl TerminalSession {
    #[verifier::type_invariant]
    spec fn valid(&self) -> bool {
        self@.valid()
    }

    /// The directory that a session starts in, which the host has to look up
    /// before [`TerminalSession::new`].
    ///
    /// # Errors
    ///
    /// Returns [`SessionError::PathDenied`] if there is no workspace root.
    pub fn initial_cwd(spec: &TerminalSessionSpec) -> (r: Result<HostPath, SessionError>)
        ensures
            match initial_directory(spec@) {
                Ok(cwd) => r is Ok && r->Ok_0@ == cwd,
                Err(fault) => r is Err && r->Err_0@ == fault,
            },
    {
        let root = match workspace_root(&spec.base_grant) {
            Ok(root) => root,
            Err(error) => return Err(error),
        };
        resolve_session_path(&root, spec.cwd.as_str())
    }

    /// Create a session, resolving the initial cwd against the base grant;
    /// `facts` is what the host knows of that directory.
    ///
    /// # Errors
    ///
    /// Returns [`SessionError::PathDenied`] if the initial cwd is outside the
    /// grant, or [`SessionError::NotFound`] if it does not exist.
    pub fn new(spec: TerminalSessionSpec, facts: &PathFacts) -> (r: Result<Self, SessionError>)
        ensures
            match initial_directory(spec@) {
                Err(fault) => r is Err && r->Err_0@ == fault,
                Ok(cwd) => if facts@.actual is None {
                    r is Err && r->Err_0@ == SessionFault::NotFound(host_path::path_text(cwd))
                } else if !spec@.grant.covers_real(facts@.actual) {
                    r is Err && r->Err_0@ == SessionFault::PathDenied(host_path::path_text(cwd))
                } else {
                    r is Ok && r->Ok_0@ == (SessionModel {
                        spec: spec@,
                        cwd,
                        env: Map::empty(),
                        jobs: Map::empty(),
                        next_job_id: 0,
                        stopped: Map::empty(),
                        lease: None,
                        closed: false,
                    })
                },
            },
    {
        let cwd = match Self::initial_cwd(&spec) {
            Ok(cwd) => cwd,
            Err(error) => return Err(error),
        };
        if facts.actual.is_none() {
            return Err(SessionError::NotFound(cwd.to_text()));
        }
        if !spec.base_grant.allows_existing_path(&facts.actual) {
            return Err(SessionError::PathDenied(cwd.to_text()));
        }
        let start = spec.cwd.as_str();
        proof {
            host_path::session_paths_stay_below(root_of(spec@.grant)->0, start@);
        }
        Ok(
            TerminalSession {
                spec,
                cwd,
                env: TextMap::new(),
                jobs: HashMap::new(),
                next_job_id: 0,
                stopped: HashMap::new(),
                lease: None,
                closed: false,
            },
        )
    }

    /// The session specification.
    pub fn spec(&self) -> (r: &TerminalSessionSpec)
        ensures
            r@ == self@.spec,
    {
        &self.spec
    }

    /// The session id.
    pub fn id(&self) -> (r: SessionId)
        ensures
            r == self@.spec.id,
    {
        self.spec.id
    }

    /// The actor using the session.
    pub fn actor(&self) -> (r: Actor)
        ensures
            r == self@.spec.actor,
    {
        self.spec.actor
    }

    /// The base capability grant.
    pub fn base_grant(&self) -> (r: &CapabilityGrant)
        ensures
            r@ == self@.spec.grant,
    {
        &self.spec.base_grant
    }

    /// The absolute current working directory. It lies in the workspace root.
    pub fn cwd(&self) -> (r: &HostPath)
        ensures
            r@ == self@.cwd,
            self@.valid(),
    {
        proof {
            use_type_invariant(self);
        }
        &self.cwd
    }

    /// The current working directory relative to the workspace root, `.` for
    /// the root itself.
    pub fn cwd_display(&self) -> (r: String)
        ensures
            r@ == self@.cwd_text(),
    {
        proof {
            use_type_invariant(self);
        }
        match workspace_root(&self.spec.base_grant) {
            Ok(root) => if self.cwd.same_as(&root) {
                ".".to_owned()
            } else {
                self.cwd.relative_to(&root)
            },
            Err(_) => self.cwd.to_text(),
        }
    }

    /// The environment overlay.
    pub fn env(&self) -> (r: &TextMap<String>)
        ensures
            r@ == self@.env,
    {
        &self.env
    }

    /// The session's resource limits.
    pub fn limits(&self) -> (r: ResourceLimits)
        ensures
            r == self@.spec.limits,
    {
        self.spec.limits
    }

    /// The active elevation lease, if any.
    pub fn lease(&self) -> (r: Option<&ApprovalLease>)
        ensures
            match r {
                Some(lease) => self@.lease == Some(lease@),
                None => self@.lease is None,
            },
    {
        match &self.lease {
            Some(lease) => Some(lease),
            None => None,
        }
    }

    /// Attach a broker-minted lease to the session.
    ///
    /// This is the *only* way a lease enters the session, and only the broker
    /// can mint one. A stale lease replaces the previous one.
    pub fn attach_lease(&mut self, lease: ApprovalLease)
        ensures
            final(self)@ == (SessionModel { lease: Some(lease@), ..old(self)@ }),
            session_step(old(self)@, SessionAction::AttachLease(lease@), final(self)@),
    {
        proof {
            use_type_invariant(&*self);
        }
        self.lease = Some(lease);
    }

    /// Clear the active lease (after completion, revocation, or expiry).
    pub fn clear_lease(&mut self)
        ensures
            final(self)@ == (SessionModel { lease: None, ..old(self)@ }),
            session_step(old(self)@, SessionAction::ClearLease, final(self)@),
    {
        proof {
            use_type_invariant(&*self);
        }
        self.lease = None;
    }

    /// Where a session path leads from the current cwd. It stays below it.
    ///
    /// # Errors
    ///
    /// Returns [`SessionError::PathDenied`] if it leads nowhere.
    pub fn target_of(&self, path: &SessionPath) -> (r: Result<HostPath, SessionError>)
        ensures
            match target_from(self@.cwd, path@) {
                Ok(target) => r is Ok && r->Ok_0@ == target,
                Err(fault) => r is Err && r->Err_0@ == fault,
            },
            r is Ok,
            host_path::lies_in(r->Ok_0@, self@.cwd),
            self@.spec.grant.covers(r->Ok_0@),
    {
        let path = path.as_str();
        proof {
            use_type_invariant(self);
            let root = root_of(self@.spec.grant)->0;
            host_path::session_paths_stay_below(self@.cwd, path@);
            let target = host_path::resolved(self@.cwd, path@)->Ok_0;
            host_path::lemma_lies_in_transitive(target, self@.cwd, root);
            assert(host_path::lies_in(target, self@.spec.grant.trees[0].root));
        }
        resolve_session_path(&self.cwd, path)
    }

    /// Resolve a capability-relative path against the current cwd and verify
    /// it stays inside the base grant (symlink-aware); `facts` is what the
    /// host knows of [`TerminalSession::target_of`] it.
    ///
    /// # Errors
    ///
    /// Returns [`SessionError::PathDenied`] on any escape.
    pub fn resolve_path(&self, path: &SessionPath, facts: &PathFacts) -> (r: Result<
        HostPath,
        SessionError,
    >)
        ensures
            match self@.existing(path@, facts@) {
                Ok(target) => r is Ok && r->Ok_0@ == target,
                Err(fault) => r is Err && r->Err_0@ == fault,
            },
    {
        let resolved = match self.target_of(path) {
            Ok(resolved) => resolved,
            Err(error) => return Err(error),
        };
        if !self.spec.base_grant.allows_existing_path(&facts.actual) {
            return Err(SessionError::PathDenied(resolved.to_text()));
        }
        Ok(resolved)
    }

    /// Resolve a path that is allowed to *not exist yet* (e.g. mkdir target);
    /// `landing` is where the host says that something put at
    /// [`TerminalSession::target_of`] it would come to lie once links are
    /// followed, if it can tell.
    ///
    /// # Errors
    ///
    /// Returns [`SessionError::PathDenied`] on any escape.
    pub fn resolve_new_path(&self, path: &SessionPath, landing: &Option<HostPath>) -> (r: Result<
        HostPath,
        SessionError,
    >)
        ensures
            match self@.new_path(path@, host_path::optional(*landing)) {
                Ok(target) => r is Ok && r->Ok_0@ == target,
                Err(fault) => r is Err && r->Err_0@ == fault,
            },
    {
        let resolved = match self.target_of(path) {
            Ok(resolved) => resolved,
            Err(error) => return Err(error),
        };
        let grant = &self.spec.base_grant;
        if !grant.allows_path(&resolved) || !grant.allows_existing_path(landing) {
            return Err(SessionError::PathDenied(resolved.to_text()));
        }
        Ok(resolved)
    }

    /// Resolve a path that output is written to, as
    /// [`TerminalSession::resolve_new_path`] does, and verify that the base
    /// grant allows writing there.
    ///
    /// # Errors
    ///
    /// Returns [`SessionError::PathDenied`] on any escape, and where nothing
    /// may be written.
    pub fn resolve_output_path(&self, path: &SessionPath, landing: &Option<HostPath>) -> (r: Result<
        HostPath,
        SessionError,
    >)
        ensures
            match self@.output_path(path@, host_path::optional(*landing)) {
                Ok(target) => r is Ok && r->Ok_0@ == target,
                Err(fault) => r is Err && r->Err_0@ == fault,
            },
    {
        let resolved = match self.resolve_new_path(path, landing) {
            Ok(resolved) => resolved,
            Err(error) => return Err(error),
        };
        if !self.spec.base_grant.allows_put(&resolved, landing) {
            return Err(SessionError::PathDenied(resolved.to_text()));
        }
        Ok(resolved)
    }

    /// Change the session working directory; `facts` is what the host knows of
    /// the target.
    ///
    /// `cd` only mutates session state; the host process cwd is never touched.
    ///
    /// # Errors
    ///
    /// Returns [`SessionError::PathDenied`] if the target escapes the grant,
    /// or [`SessionError::NotFound`] if it is not a directory.
    pub fn change_dir(&mut self, path: &SessionPath, facts: &PathFacts) -> (r: Result<
        (),
        SessionError,
    >)
        ensures
            match old(self)@.directory(path@, facts@) {
                Ok(target) => r is Ok && final(self)@ == (SessionModel {
                    cwd: target,
                    ..old(self)@
                }),
                Err(fault) => r is Err && r->Err_0@ == fault && final(self)@ == old(self)@,
            },
            session_step(old(self)@, SessionAction::ChangeDir(path@, facts@), final(self)@),
    {
        let target = match self.target_of(path) {
            Ok(target) => target,
            Err(error) => return Err(error),
        };
        proof {
            use_type_invariant(&*self);
            host_path::lemma_lies_in_transitive(
                target@,
                self@.cwd,
                root_of(self@.spec.grant)->0,
            );
        }
        if facts.actual.is_none() {
            return Err(SessionError::NotFound(target.to_text()));
        }
        if !self.spec.base_grant.allows_existing_path(&facts.actual) {
            return Err(SessionError::PathDenied(target.to_text()));
        }
        if !facts.is_dir {
            return Err(SessionError::NotFound(target.to_text()));
        }
        self.cwd = target;
        Ok(())
    }

    /// Apply an environment delta to the overlay, enforcing the allowlist.
    ///
    /// # Errors
    ///
    /// Returns [`SessionError::EnvironmentDenied`] if any name is not
    /// allowlisted in the base grant; the overlay then stays as it was.
    pub fn apply_env(&mut self, delta: EnvDelta) -> (r: Result<(), SessionError>)
        ensures
            match first_denied(delta_names(delta@), old(self)@.spec.grant) {
                Some(name) => {
                    &&& r is Err
                    &&& r->Err_0@ == SessionFault::EnvironmentDenied(name)
                    &&& final(self)@ == old(self)@
                },
                None => r is Ok && final(self)@ == (SessionModel {
                    env: env_after(old(self)@.env, delta@),
                    ..old(self)@
                }),
            },
            session_step(old(self)@, SessionAction::ApplyEnv(delta@), final(self)@),
    {
        proof {
            use_type_invariant(&*self);
        }
        let ghost names = delta_names(delta@);
        let ghost grant = self@.spec.grant;
        let count = delta.set.len();
        let mut i: usize = 0;
        while i < count
            invariant
                i <= count,
                count == delta.set.pairs().len(),
                names == delta_names(delta@),
                self@ == old(self)@,
                grant == self@.spec.grant,
                forall|j: int| 0 <= j < i ==> grant.environment.contains(#[trigger] names[j]),
            decreases count - i,
        {
            let (name, _) = delta.set.entry(i);
            assert(names[i as int] == name@);
            if !self.spec.base_grant.allows_environment(name) {
                proof {
                    lemma_first_denied(names, grant, i as int);
                    assert(names.skip(i as int)[0] == name@);
                }
                return Err(SessionError::EnvironmentDenied(name.to_owned()));
            }
            i = i + 1;
        }
        let mut k: usize = 0;
        while k < delta.remove.len()
            invariant
                k <= delta.remove.len(),
                count == delta.set.pairs().len(),
                names == delta_names(delta@),
                self@ == old(self)@,
                grant == self@.spec.grant,
                forall|j: int|
                    0 <= j < count + k ==> grant.environment.contains(#[trigger] names[j]),
            decreases delta.remove.len() - k,
        {
            let name = delta.remove[k].as_str();
            assert(names[count + k] == name@);
            if !self.spec.base_grant.allows_environment(name) {
                proof {
                    lemma_first_denied(names, grant, count + k);
                    assert(names.skip(count + k)[0] == name@);
                }
                return Err(SessionError::EnvironmentDenied(name.to_owned()));
            }
            k = k + 1;
        }
        proof {
            assert(names.len() == count + delta.remove.len());
            lemma_first_denied(names, grant, names.len() as int);
            assert(names.skip(names.len() as int) =~= Seq::empty());
        }
        let mut env: TextMap<String> = TextMap::new();
        std::mem::swap(&mut self.env, &mut env);
        let ghost start = env@;
        let ghost removed = text::texts(delta.remove@);
        let mut k: usize = 0;
        assert(removed.take(0) =~= Seq::empty());
        while k < delta.remove.len()
            invariant
                k <= delta.remove.len(),
                removed == text::texts(delta.remove@),
                env@ == without(start, removed.take(k as int)),
            decreases delta.remove.len() - k,
        {
            env.remove(delta.remove[k].as_str());
            k = k + 1;
            assert(removed.take(k as int).drop_last() =~= removed.take(k - 1));
        }
        assert(removed.take(k as int) =~= removed);
        let ghost middle = env@;
        let ghost pairs = delta.set.pairs();
        let mut i: usize = 0;
        assert(pairs.take(0) =~= Seq::empty());
        while i < count
            invariant
                i <= count,
                count == pairs.len(),
                pairs == delta.set.pairs(),
                env@ == extended(middle, pairs.take(i as int)),
            decreases count - i,
        {
            let (name, value) = delta.set.entry(i);
            env.insert(name.to_owned(), value.clone());
            i = i + 1;
            assert(pairs.take(i as int).drop_last() =~= pairs.take(i - 1));
        }
        proof {
            assert(pairs.take(i as int) =~= pairs);
            lemma_without_dom(start, removed);
            lemma_extended_dom(middle, pairs);
            assert forall|name: Seq<char>| #[trigger]
                env@.dom().contains(name) implies grant.environment.contains(name) by {
                if !start.dom().contains(name) {
                    let keys = text_map::keys_of(pairs);
                    let j = choose|j: int| 0 <= j < keys.len() && keys[j] == name;
                    assert(names[j] == name);
                }
            }
        }
        self.env = env;
        Ok(())
    }

    /// Register a session-owned job and return its id.
    ///
    /// # Errors
    ///
    /// Returns [`SessionError::JobTableFull`] when the table is at capacity,
    /// or [`SessionError::Closed`] when the session is closed.
    pub fn register_job(&mut self, digest_hex: String, cancel: CancelHandle) -> (r: Result<
        u64,
        SessionError,
    >)
        ensures
            if old(self)@.closed {
                &&& r is Err
                &&& r->Err_0@ == SessionFault::Closed
                &&& final(self)@ == old(self)@
            } else if old(self)@.jobs.len() >= DEFAULT_MAX_JOBS {
                &&& r is Err
                &&& r->Err_0@ == SessionFault::JobTableFull(DEFAULT_MAX_JOBS)
                &&& final(self)@ == old(self)@
            } else {
                &&& r == Ok::<u64, SessionError>(old(self)@.next_job_id)
                &&& final(self)@ == (SessionModel {
                    jobs: old(self)@.jobs.insert(
                        old(self)@.next_job_id,
                        JobHandle { digest_hex, cancel, exit_code: None },
                    ),
                    next_job_id: next_id(old(self)@.next_job_id),
                    ..old(self)@
                })
                &&& old(self)@.next_job_id < u64::MAX ==> {
                    &&& !old(self)@.jobs.dom().contains(old(self)@.next_job_id)
                    &&& final(self)@.jobs.len() == old(self)@.jobs.len() + 1
                }
            },
            is_step(
                old(self)@,
                final(self)@,
                match r {
                    Ok(id) => Some(id),
                    Err(_) => None,
                },
            ),
            session_step(
                old(self)@,
                SessionAction::RegisterJob(JobHandle { digest_hex, cancel, exit_code: None }),
                final(self)@,
            ),
    {
        proof {
            use_type_invariant(&*self);
        }
        if self.closed {
            return Err(SessionError::Closed);
        }
        if self.jobs.len() >= DEFAULT_MAX_JOBS {
            return Err(SessionError::JobTableFull(DEFAULT_MAX_JOBS));
        }
        let id = self.next_job_id;
        let mut jobs: HashMap<u64, JobHandle> = HashMap::new();
        std::mem::swap(&mut self.jobs, &mut jobs);
        jobs.insert(id, JobHandle { digest_hex, cancel, exit_code: None });
        self.next_job_id = self.next_job_id.saturating_add(1);
        self.jobs = jobs;
        Ok(id)
    }

    /// Cancel one session-owned job and remove it from the table. Its handle,
    /// through which it was asked to stop, is kept in
    /// [`TerminalSession::stopped_jobs`].
    ///
    /// # Errors
    ///
    /// Returns [`SessionError::UnknownJob`] if the id is not live.
    pub fn cancel_job(&mut self, id: u64) -> (r: Result<(), SessionError>)
        ensures
            if old(self)@.jobs.dom().contains(id) {
                &&& r is Ok
                &&& final(self)@ == (SessionModel {
                    jobs: old(self)@.jobs.remove(id),
                    stopped: Map::empty().insert(id, final(self)@.stopped[id]),
                    ..old(self)@
                })
                &&& final(self)@.stopped[id].stops(&old(self)@.jobs[id].cancel)
                &&& final(self)@.jobs.len() == old(self)@.jobs.len() - 1
            } else {
                &&& r is Err
                &&& r->Err_0@ == SessionFault::UnknownJob(id)
                &&& final(self)@ == old(self)@
            },
            session_step(old(self)@, SessionAction::CancelJob(id), final(self)@),
    {
        proof {
            use_type_invariant(&*self);
            assert(self@.stopped == self.stopped@);
        }
        let ghost before = self@;
        let mut jobs: HashMap<u64, JobHandle> = HashMap::new();
        std::mem::swap(&mut self.jobs, &mut jobs);
        let removed = jobs.remove(&id);
        proof {
            if !before.jobs.dom().contains(id) {
                assert(jobs@ =~= before.jobs);
            }
        }
        self.jobs = jobs;
        match removed {
            Some(handle) => {
                let mut cancel = handle.cancel;
                cancel.cancel();
                let mut stopped: HashMap<u64, CancelHandle> = HashMap::new();
                stopped.insert(id, cancel);
                self.stopped = stopped;
                Ok(())
            },
            None => Err(SessionError::UnknownJob(id)),
        }
    }

    /// Record how a job ended: its exit code, unless it was cancelled.
    ///
    /// # Errors
    ///
    /// Returns [`SessionError::UnknownJob`] if the id is not live.
    pub fn record_exit(&mut self, id: u64, code: i32, cancelled: bool) -> (r: Result<
        (),
        SessionError,
    >)
        ensures
            if old(self)@.jobs.dom().contains(id) {
                r is Ok && final(self)@ == (SessionModel {
                    jobs: old(self)@.jobs.insert(
                        id,
                        JobHandle {
                            exit_code: if cancelled {
                                None
                            } else {
                                Some(code)
                            },
                            ..old(self)@.jobs[id]
                        },
                    ),
                    ..old(self)@
                })
            } else {
                &&& r is Err
                &&& r->Err_0@ == SessionFault::UnknownJob(id)
                &&& final(self)@ == old(self)@
            },
            session_step(
                old(self)@,
                SessionAction::RecordExit(
                    id,
                    if cancelled {
                        None
                    } else {
                        Some(code)
                    },
                ),
                final(self)@,
            ),
    {
        proof {
            use_type_invariant(&*self);
        }
        let ghost before = self@;
        let mut jobs: HashMap<u64, JobHandle> = HashMap::new();
        std::mem::swap(&mut self.jobs, &mut jobs);
        match jobs.remove(&id) {
            Some(handle) => {
                let exit_code = if cancelled {
                    None
                } else {
                    Some(code)
                };
                let ended = JobHandle {
                    digest_hex: handle.digest_hex,
                    cancel: handle.cancel,
                    exit_code,
                };
                jobs.insert(id, ended);
                assert(jobs@ =~= before.jobs.insert(id, ended));
                self.jobs = jobs;
                Ok(())
            },
            None => {
                assert(jobs@ =~= before.jobs);
                self.jobs = jobs;
                Err(SessionError::UnknownJob(id))
            },
        }
    }

    /// The exit code of a live job, once it has one.
    pub fn job_exit(&self, id: u64) -> (r: Option<i32>)
        ensures
            r == if self@.jobs.dom().contains(id) {
                self@.jobs[id].exit_code
            } else {
                None
            },
    {
        match self.jobs.get(&id) {
            Some(handle) => handle.exit_code,
            None => None,
        }
    }

    /// Number of live jobs.
    pub fn job_count(&self) -> (r: usize)
        ensures
            r == self@.jobs.len(),
            r <= DEFAULT_MAX_JOBS,
    {
        proof {
            use_type_invariant(self);
        }
        self.jobs.len()
    }

    /// Close the session: cancel every owned job, release the lease, and mark
    /// the session closed so no further jobs can be registered. The handles
    /// through which the jobs were asked to stop are kept in
    /// [`TerminalSession::stopped_jobs`].
    pub fn close(&mut self)
        ensures
            old(self)@.closed ==> final(self)@ == old(self)@,
            !old(self)@.closed ==> {
                &&& final(self)@ == (SessionModel {
                    closed: true,
                    jobs: Map::empty(),
                    stopped: final(self)@.stopped,
                    lease: None,
                    ..old(self)@
                })
                &&& cancel::all_stopped(handles_of(old(self)@.jobs), final(self)@.stopped)
            },
            session_step(old(self)@, SessionAction::Close, final(self)@),
    {
        proof {
            use_type_invariant(&*self);
            assert(self@.stopped == self.stopped@);
        }
        if self.closed {
            return ;
        }
        let mut jobs: HashMap<u64, JobHandle> = HashMap::new();
        std::mem::swap(&mut self.jobs, &mut jobs);
        let stopped = stop_all(&jobs);
        self.stopped = stopped;
        self.lease = None;
        self.closed = true;
    }

    /// The handles of the jobs that [`TerminalSession::cancel_job`] or
    /// [`TerminalSession::close`] stopped last.
    pub fn stopped_jobs(&self) -> (r: &HashMap<u64, CancelHandle>)
        ensures
            r@ == self@.stopped,
            forall|id: u64| #[trigger] r@.dom().contains(id) ==> r@[id].was_asked(),
    {
        proof {
            use_type_invariant(self);
            assert(self@.stopped == self.stopped@);
        }
        &self.stopped
    }

    /// Whether the session is closed.
    pub fn is_closed(&self) -> (r: bool)
        ensures
            r == self@.closed,
    {
        self.closed
    }

    /// A session in the same place with the same overlay, and without jobs or
    /// a lease: what a background job works on, and a builtin in a pipeline.
    pub fn snapshot(&self) -> (r: Self)
        ensures
            r@ == (SessionModel {
                jobs: Map::empty(),
                next_job_id: 0,
                stopped: Map::empty(),
                lease: None,
                closed: false,
                ..self@
            }),
    {
        proof {
            use_type_invariant(self);
        }
        TerminalSession {
            spec: self.spec.clone(),
            cwd: self.cwd.clone(),
            env: self.env.clone(),
            jobs: HashMap::new(),
            next_job_id: 0,
            stopped: HashMap::new(),
            lease: None,
            closed: false,
        }
    }
}

/// What can be done to a session.
pub enum SessionAction {
    /// Change its working directory.
    ChangeDir(Seq<char>, FactsModel),
    /// Change its overlay.
    ApplyEnv(DeltaModel),
    /// Attach a lease.
    AttachLease(LeaseModel),
    /// Clear its lease.
    ClearLease,
    /// Register a job.
    RegisterJob(JobHandle),
    /// Cancel a job.
    CancelJob(u64),
    /// Record how a job ended.
    RecordExit(u64, Option<i32>),
    /// Close it.
    Close,
}

/// Whether a session takes another job.
pub open spec fn takes_job(session: SessionModel) -> bool {
    !session.closed && session.jobs.len() < DEFAULT_MAX_JOBS
}

/// Whether an action leads from one state of a session to another.
pub open spec fn session_step(
    before: SessionModel,
    action: SessionAction,
    after: SessionModel,
) -> bool {
    match action {
        SessionAction::ChangeDir(path, facts) => after == match before.directory(path, facts) {
            Ok(target) => SessionModel { cwd: target, ..before },
            Err(_) => before,
        },
        SessionAction::ApplyEnv(delta) => after == overlaid(before, delta),
        SessionAction::AttachLease(lease) => after == (SessionModel {
            lease: Some(lease),
            ..before
        }),
        SessionAction::ClearLease => after == (SessionModel { lease: None, ..before }),
        SessionAction::RegisterJob(job) => after == if takes_job(before) {
            SessionModel {
                jobs: before.jobs.insert(before.next_job_id, job),
                next_job_id: next_id(before.next_job_id),
                ..before
            }
        } else {
            before
        },
        SessionAction::CancelJob(id) => if before.jobs.dom().contains(id) {
            &&& after == (SessionModel {
                jobs: before.jobs.remove(id),
                stopped: Map::empty().insert(id, after.stopped[id]),
                ..before
            })
            &&& after.stopped[id].stops(&before.jobs[id].cancel)
        } else {
            after == before
        },
        SessionAction::RecordExit(id, code) => after == if before.jobs.dom().contains(id) {
            SessionModel {
                jobs: before.jobs.insert(id, JobHandle { exit_code: code, ..before.jobs[id] }),
                ..before
            }
        } else {
            before
        },
        SessionAction::Close => if before.closed {
            after == before
        } else {
            &&& after == (SessionModel {
                closed: true,
                jobs: Map::empty(),
                stopped: after.stopped,
                lease: None,
                ..before
            })
            &&& cancel::all_stopped(handles_of(before.jobs), after.stopped)
        },
    }
}

/// Whether a session went through these states by these actions.
pub open spec fn is_session_run(states: Seq<SessionModel>, actions: Seq<SessionAction>) -> bool {
    &&& states.len() == actions.len() + 1
    &&& forall|k: int|
        0 <= k < actions.len() ==> session_step(states[k], #[trigger] actions[k], states[k + 1])
}

/// What one operation does to the job ids of a session: it hands out the next
/// one, or it leaves them alone.
pub open spec fn is_step(before: SessionModel, after: SessionModel, given: Option<u64>) -> bool {
    match given {
        Some(id) => {
            &&& id == before.next_job_id
            &&& after.next_job_id == next_id(id)
        },
        None => after.next_job_id == before.next_job_id,
    }
}

/// Whether a session went through these states, handing out these job ids.
pub open spec fn is_history(states: Seq<SessionModel>, given: Seq<Option<u64>>) -> bool {
    &&& states.len() == given.len() + 1
    &&& forall|k: int|
        0 <= k < given.len() ==> is_step(states[k], states[k + 1], #[trigger] given[k])
}

proof fn lemma_ids_grow(states: Seq<SessionModel>, given: Seq<Option<u64>>, i: int, j: int)
    requires
        is_history(states, given),
        0 <= i <= j < states.len(),
    ensures
        states[i].next_job_id <= states[j].next_job_id,
    decreases j - i,
{
    if i < j {
        lemma_ids_grow(states, given, i, j - 1);
        assert(is_step(states[j - 1], states[j], given[j - 1]));
    }
}

/// A job id is handed out once only, whatever becomes of its job meanwhile,
/// until the last id has been reached.
pub proof fn job_ids_are_never_reused(
    states: Seq<SessionModel>,
    given: Seq<Option<u64>>,
    i: int,
    j: int,
)
    requires
        is_history(states, given),
        0 <= i < j < given.len(),
        given[i] is Some,
        given[j] is Some,
        given[i]->0 < u64::MAX,
    ensures
        given[i]->0 < given[j]->0,
{
    assert(is_step(states[i], states[i + 1], given[i]));
    assert(is_step(states[j], states[j + 1], given[j]));
    lemma_ids_grow(states, given, i + 1, j);
}

} // verus!
