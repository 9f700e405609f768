//! Running one builtin: what it asks of the host, in turn, and its result.

use vstd::prelude::*;
use crate::builtin;
use crate::builtin::{
    BuiltinExecutor,
    BuiltinFacts,
    BuiltinResult,
    BuiltinStep,
    KnownModel,
    ResultModel,
    StepModel,
};
use crate::host_action::{ActionModel, FsAction, FsReply, ReplyModel};
use crate::host_path;
use crate::host_path::HostPath;
use crate::shell_ir::{Builtin, BuiltinModel};
use crate::terminal_session;
use crate::terminal_session::{FactsModel, PathFacts, SessionModel, TerminalSession};
use crate::text;

verus! {

/// What the host answers.
#[derive(Debug, PartialEq, Eq)]
pub enum HostReply {
    /// What it knows of a path.
    Facts(PathFacts),
    /// Where something put at a path would come to lie once links are
    /// followed, if it can tell.
    Landing(Option<HostPath>),
    /// Its search path, where it has one.
    SearchPath(Option<String>),
    /// The answer to a filesystem operation.
    Fs(FsReply),
}

/// What a [`HostReply`] denotes.
pub enum HostReplyModel {
    /// What it knows of a path.
    Facts(FactsModel),
    /// Where something put at a path would come to lie.
    Landing(Option<Seq<Seq<char>>>),
    /// Its search path.
    SearchPath(Option<Seq<char>>),
    /// The answer to a filesystem operation.
    Fs(ReplyModel),
}

impl View for HostReply {
    type V = HostReplyModel;

    open spec fn view(&self) -> HostReplyModel {
        match self {
            HostReply::Facts(facts) => HostReplyModel::Facts(facts@),
            HostReply::Landing(path) => HostReplyModel::Landing(host_path::optional(*path)),
            HostReply::SearchPath(path) => HostReplyModel::SearchPath(text::optional(*path)),
            HostReply::Fs(reply) => HostReplyModel::Fs(reply@),
        }
    }
}

/// What a running builtin waits for, or its result.
#[derive(Debug, PartialEq, Eq)]
pub enum BuiltinStage {
    /// The host has to look a path up.
    LookUp(HostPath),
    /// The host has to tell where something put at a path would come to lie.
    Locate {
        /// The path.
        path: HostPath,
        /// What the host has told so far.
        target: PathFacts,
    },
    /// The host has to tell its search path.
    SearchPath,
    /// The host has to perform an operation.
    Perform {
        /// The operation.
        action: FsAction,
        /// What the host has told so far.
        facts: BuiltinFacts,
    },
    /// The builtin has ended.
    Ended(BuiltinResult),
}

/// What a [`BuiltinStage`] denotes.
pub enum BuiltinStageModel {
    /// Look a path up.
    LookUp(Seq<Seq<char>>),
    /// Tell the landing of a path; the other was looked up before.
    Locate(Seq<Seq<char>>, FactsModel),
    /// Tell the search path.
    SearchPath,
    /// Perform an operation; the search path was told before.
    Perform(ActionModel, Option<Seq<char>>),
    /// The builtin has ended.
    Ended(ResultModel),
}

impl View for BuiltinStage {
    type V = BuiltinStageModel;

    open spec fn view(&self) -> BuiltinStageModel {
        match self {
            BuiltinStage::LookUp(path) => BuiltinStageModel::LookUp(path@),
            BuiltinStage::Locate { path, target } => BuiltinStageModel::Locate(path@, target@),
            BuiltinStage::SearchPath => BuiltinStageModel::SearchPath,
            BuiltinStage::Perform { action, facts } => BuiltinStageModel::Perform(
                action@,
                text::optional(facts.host_path),
            ),
            BuiltinStage::Ended(result) => BuiltinStageModel::Ended(result@),
        }
    }
}

/// What is known of a path that was not looked up.
pub open spec fn no_facts() -> FactsModel {
    FactsModel { actual: None, is_dir: false }
}

/// What is known once one path has been looked up.
pub open spec fn only_facts(target: FactsModel) -> KnownModel {
    KnownModel { target, landing: None, host_path: None }
}

/// What is known once the host has told its search path.
pub open spec fn only_search_path(host_path: Option<Seq<char>>) -> KnownModel {
    KnownModel { target: no_facts(), landing: None, host_path }
}

/// The stage of a builtin that knows what it needs.
pub open spec fn informed(
    builtin: BuiltinModel,
    session: SessionModel,
    known: KnownModel,
) -> BuiltinStageModel {
    match builtin::first_step(builtin, session, known) {
        StepModel::Finished(result) => BuiltinStageModel::Ended(result),
        StepModel::Perform(action) => BuiltinStageModel::Perform(action, known.host_path),
    }
}

/// Whether a builtin asks nothing before it starts.
pub open spec fn needs_nothing(builtin: BuiltinModel, session: SessionModel) -> bool {
    &&& builtin::existing_path(builtin) is None
    &&& builtin::created_path(builtin) is None
    &&& !(builtin is Which && !session.env.dom().contains("PATH"@))
}

/// The stage of a builtin that asks for the landing of a path it creates.
pub open spec fn locating(
    builtin: BuiltinModel,
    session: SessionModel,
    target: FactsModel,
) -> BuiltinStageModel {
    BuiltinStageModel::Locate(
        terminal_session::target_from(session.cwd, builtin::created_path(builtin)->0)->Ok_0,
        target,
    )
}

/// The stage of a builtin once the path that has to exist was looked up: if it
/// may be used and the builtin creates another, that one has to be located.
pub open spec fn looked_up(
    builtin: BuiltinModel,
    session: SessionModel,
    target: FactsModel,
) -> BuiltinStageModel {
    if builtin::created_path(builtin) is Some && session.spec.grant.covers_real(target.actual) {
        locating(builtin, session, target)
    } else {
        informed(builtin, session, only_facts(target))
    }
}

/// The first stage of a builtin.
pub open spec fn started(builtin: BuiltinModel, session: SessionModel) -> BuiltinStageModel {
    match builtin::existing_path(builtin) {
        Some(path) => BuiltinStageModel::LookUp(
            terminal_session::target_from(session.cwd, path)->Ok_0,
        ),
        None => if builtin::created_path(builtin) is Some {
            locating(builtin, session, no_facts())
        } else if needs_nothing(builtin, session) {
            informed(builtin, session, only_facts(no_facts()))
        } else {
            BuiltinStageModel::SearchPath
        },
    }
}

/// The session after the first stage of a builtin.
pub open spec fn session_started(builtin: BuiltinModel, session: SessionModel) -> SessionModel {
    if needs_nothing(builtin, session) {
        builtin::session_after(builtin, session, no_facts())
    } else {
        session
    }
}

/// The stage after an answer. An answer of another kind than was asked for is
/// a failure.
pub open spec fn advanced(
    stage: BuiltinStageModel,
    builtin: BuiltinModel,
    session: SessionModel,
    reply: HostReplyModel,
) -> BuiltinStageModel {
    match (stage, reply) {
        (BuiltinStageModel::LookUp(_), HostReplyModel::Facts(facts)) => looked_up(
            builtin,
            session,
            facts,
        ),
        (BuiltinStageModel::Locate(_, target), HostReplyModel::Landing(landing)) => informed(
            builtin,
            session,
            KnownModel { target, landing, host_path: None },
        ),
        (BuiltinStageModel::SearchPath, HostReplyModel::SearchPath(path)) => informed(
            builtin,
            session,
            only_search_path(path),
        ),
        (BuiltinStageModel::Perform(_, host_path), HostReplyModel::Fs(reply)) => {
            BuiltinStageModel::Ended(builtin::end_result(builtin, session, host_path, reply))
        },
        (BuiltinStageModel::Ended(result), _) => BuiltinStageModel::Ended(result),
        _ => BuiltinStageModel::Ended(builtin::failure("unexpected host reply"@)),
    }
}

/// The session after an answer: a builtin changes it once it knows what it
/// needs.
pub open spec fn session_advanced(
    stage: BuiltinStageModel,
    builtin: BuiltinModel,
    session: SessionModel,
    reply: HostReplyModel,
) -> SessionModel {
    match (stage, reply) {
        (BuiltinStageModel::LookUp(_), HostReplyModel::Facts(facts)) => builtin::session_after(
            builtin,
            session,
            facts,
        ),
        (BuiltinStageModel::Locate(_, target), HostReplyModel::Landing(_)) => {
            builtin::session_after(builtin, session, target)
        },
        (BuiltinStageModel::SearchPath, HostReplyModel::SearchPath(_)) => builtin::session_after(
            builtin,
            session,
            no_facts(),
        ),
        _ => session,
    }
}

/// Execute a builtin that knows what it needs.
fn execute_informed(builtin: &Builtin, session: &mut TerminalSession, facts: BuiltinFacts) -> (r:
    BuiltinStage)
    ensures
        r@ == informed(builtin@, old(session)@, facts@),
        final(session)@ == builtin::session_after(builtin@, old(session)@, facts.target@),
{
    match BuiltinExecutor.execute(builtin, session, &facts) {
        BuiltinStep::Finished(result) => BuiltinStage::Ended(result),
        BuiltinStep::Perform(action) => BuiltinStage::Perform { action, facts },
    }
}

/// Start a builtin.
pub fn start_builtin(builtin: &Builtin, session: &mut TerminalSession) -> (r: BuiltinStage)
    ensures
        r@ == started(builtin@, old(session)@),
        final(session)@ == session_started(builtin@, old(session)@),
{
    let needs = BuiltinExecutor.needs(builtin, session);
    match needs.lookup {
        Some(path) => BuiltinStage::LookUp(path),
        None => {
            let target = PathFacts { actual: None, is_dir: false };
            match needs.landing {
                Some(path) => BuiltinStage::Locate { path, target },
                None => if needs.host_path {
                    BuiltinStage::SearchPath
                } else {
                    execute_informed(
                        builtin,
                        session,
                        BuiltinFacts { target, landing: None, host_path: None },
                    )
                },
            }
        },
    }
}

/// Go on with a builtin once the host has answered.
pub fn advance_builtin(
    stage: BuiltinStage,
    builtin: &Builtin,
    session: &mut TerminalSession,
    reply: HostReply,
) -> (r: BuiltinStage)
    ensures
        r@ == advanced(stage@, builtin@, old(session)@, reply@),
        final(session)@ == session_advanced(stage@, builtin@, old(session)@, reply@),
{
    match (stage, reply) {
        (BuiltinStage::LookUp(_), HostReply::Facts(target)) => {
            let needs = BuiltinExecutor.needs(builtin, session);
            match needs.landing {
                Some(path) if session.base_grant().allows_existing_path(&target.actual) => {
                    BuiltinStage::Locate { path, target }
                },
                _ => execute_informed(
                    builtin,
                    session,
                    BuiltinFacts { target, landing: None, host_path: None },
                ),
            }
        },
        (BuiltinStage::Locate { path: _, target }, HostReply::Landing(landing)) => {
            execute_informed(builtin, session, BuiltinFacts { target, landing, host_path: None })
        },
        (BuiltinStage::SearchPath, HostReply::SearchPath(host_path)) => execute_informed(
            builtin,
            session,
            BuiltinFacts {
                target: PathFacts { actual: None, is_dir: false },
                landing: None,
                host_path,
            },
        ),
        (BuiltinStage::Perform { action: _, facts }, HostReply::Fs(reply)) => BuiltinStage::Ended(
            BuiltinExecutor.complete(builtin, session, &facts, reply),
        ),
        (BuiltinStage::Ended(result), _) => BuiltinStage::Ended(result),
        _ => BuiltinStage::Ended(BuiltinResult::fail("unexpected host reply")),
    }
}

} // verus!
