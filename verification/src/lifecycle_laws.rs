//! How sessions start, where their paths lead, and what becomes of their jobs.

use vstd::prelude::*;
use crate::builtin_laws;
use crate::capability::GrantModel;
use crate::command;
use crate::command::{EventModel, SessionPhase, Stream};
use crate::host_path;
use crate::terminal_session;
use crate::terminal_session::{
    DeltaModel,
    FactsModel,
    JobHandle,
    SessionAction,
    SessionFault,
    SessionModel,
    SpecModel,
};
use crate::text_laws;

verus! {

/// A session starts where its path leads below the root of its first tree, and
/// does not start without a tree.
pub proof fn sessions_start_below_their_first_tree(spec: SpecModel, names: Seq<Seq<char>>)
    requires
        builtin_laws::spells(spec.cwd, names),
    ensures
        spec.grant.trees.len() > 0 ==> terminal_session::root_of(spec.grant) == Some(
            spec.grant.trees[0].root,
        ) && terminal_session::initial_directory(spec) == Ok::<Seq<Seq<char>>, SessionFault>(
            spec.grant.trees[0].root + names,
        ),
        spec.grant.trees.len() == 0 ==> terminal_session::root_of(spec.grant) is None
            && terminal_session::initial_directory(spec) matches Err(SessionFault::PathDenied(_)),
{
    if spec.grant.trees.len() > 0 {
        text_laws::paths_lead_where_their_names_say(spec.grant.trees[0].root, names);
    }
}

/// A path of names leads below the working directory. Something that exists may
/// be used where it leads into the grant; something new where its name is in the
/// grant and it would come to lie there; output where, besides, both may be
/// written. What may not be used is denied by the path it leads to.
pub proof fn paths_are_used_below_the_working_directory(
    session: SessionModel,
    path: Seq<char>,
    names: Seq<Seq<char>>,
    facts: FactsModel,
    landing: Option<Seq<Seq<char>>>,
)
    requires
        builtin_laws::spells(path, names),
    ensures
        ({
            let grant = session.spec.grant;
            let target = session.cwd + names;
            let found = facts.actual is Some && grant.covers(facts.actual->0);
            let lands = landing is Some && grant.covers(landing->0) && grant.covers(target);
            let writes = lands && grant.covers_write(landing->0) && grant.covers_write(target);
            let denied = Err::<Seq<Seq<char>>, SessionFault>(
                SessionFault::PathDenied(host_path::path_text(target)),
            );
            let given = Ok::<Seq<Seq<char>>, SessionFault>(target);
            &&& session.existing(path, facts) == if found {
                given
            } else {
                denied
            }
            &&& session.new_path(path, landing) == if lands {
                given
            } else {
                denied
            }
            &&& session.output_path(path, landing) == if writes {
                given
            } else {
                denied
            }
        }),
{
    text_laws::paths_lead_where_their_names_say(session.cwd, names);
}

/// `cd` leads to a directory that exists in the grant. What does not exist, or is
/// no directory, is not found; what leads out of the grant is denied.
pub proof fn directories_are_entered_in_the_grant(
    session: SessionModel,
    path: Seq<char>,
    names: Seq<Seq<char>>,
    facts: FactsModel,
)
    requires
        builtin_laws::spells(path, names),
    ensures
        ({
            let target = session.cwd + names;
            let shown = host_path::path_text(target);
            let led = session.directory(path, facts);
            let inside = facts.actual is Some && session.spec.grant.covers(facts.actual->0);
            &&& inside && facts.is_dir ==> led == Ok::<Seq<Seq<char>>, SessionFault>(target)
            &&& inside && !facts.is_dir ==> led == Err::<Seq<Seq<char>>, SessionFault>(
                SessionFault::NotFound(shown),
            )
            &&& facts.actual is None ==> led == Err::<Seq<Seq<char>>, SessionFault>(
                SessionFault::NotFound(shown),
            )
            &&& facts.actual is Some && !inside ==> led == Err::<Seq<Seq<char>>, SessionFault>(
                SessionFault::PathDenied(shown),
            )
        }),
{
    text_laws::paths_lead_where_their_names_say(session.cwd, names);
}

/// Changing the directory moves the session there and changes nothing else; a
/// directory that is not entered changes nothing at all.
pub proof fn entering_a_directory_changes_only_that(
    before: SessionModel,
    path: Seq<char>,
    facts: FactsModel,
    after: SessionModel,
)
    requires
        terminal_session::session_step(before, SessionAction::ChangeDir(path, facts), after),
    ensures
        before.directory(path, facts) is Err ==> after == before,
        before.directory(path, facts) is Ok ==> after.cwd == before.directory(path, facts)->Ok_0,
        after.env == before.env,
        after.jobs == before.jobs,
        after.lease == before.lease,
        after.spec == before.spec,
        after.closed == before.closed,
        after.next_job_id == before.next_job_id,
{
}

/// The name that denies a change of the overlay is the first that was not
/// granted, and a change is allowed where all of its names were.
pub proof fn the_first_name_not_granted_denies(names: Seq<Seq<char>>, grant: GrantModel, i: int)
    ensures
        (forall|k: int| 0 <= k < names.len() ==> grant.environment.contains(#[trigger] names[k]))
            <==> terminal_session::first_denied(names, grant) is None,
        0 <= i < names.len() && !grant.environment.contains(names[i]) && (forall|k: int|
            0 <= k < i ==> grant.environment.contains(#[trigger] names[k]))
            ==> terminal_session::first_denied(names, grant) == Some(names[i]),
    decreases names.len(),
{
    if names.len() > 0 {
        let rest = names.skip(1);
        the_first_name_not_granted_denies(rest, grant, i - 1);
        assert forall|k: int| 0 <= k < rest.len() implies #[trigger] rest[k] == names[k + 1] by {}
        if forall|k: int| 0 <= k < rest.len() ==> grant.environment.contains(#[trigger] rest[k]) {
            assert forall|k: int| 1 <= k < names.len() implies grant.environment.contains(
                #[trigger] names[k],
            ) by {
                assert(grant.environment.contains(rest[k - 1]));
            }
        }
        if forall|k: int| 0 <= k < names.len() ==> grant.environment.contains(#[trigger] names[k]) {
            assert forall|k: int| 0 <= k < rest.len() implies grant.environment.contains(
                #[trigger] rest[k],
            ) by {
                assert(grant.environment.contains(names[k + 1]));
            }
        }
        if 0 < i < names.len() && (forall|k: int|
            0 <= k < i ==> grant.environment.contains(#[trigger] names[k])) {
            assert(grant.environment.contains(names[0]));
            assert forall|k: int| 0 <= k < i - 1 implies grant.environment.contains(
                #[trigger] rest[k],
            ) by {
                assert(grant.environment.contains(names[k + 1]));
            }
        }
    }
}

/// A change with a name that was not granted leaves the whole overlay as it is,
/// also what it may have changed.
pub proof fn denied_changes_change_nothing(session: SessionModel, delta: DeltaModel, i: int)
    ensures
        0 <= i < delta.set.len() && !session.spec.grant.environment.contains(delta.set[i].0)
            ==> terminal_session::overlaid(session, delta) == session,
        0 <= i < delta.remove.len() && !session.spec.grant.environment.contains(delta.remove[i])
            ==> terminal_session::overlaid(session, delta) == session,
{
    let names = terminal_session::delta_names(delta);
    the_first_name_not_granted_denies(names, session.spec.grant, 0);
    if 0 <= i < delta.set.len() {
        assert(names[i] == delta.set[i].0);
    }
    if 0 <= i < delta.remove.len() {
        assert(names[delta.set.len() + i] == delta.remove[i]);
    }
}

/// A session that is open and has fewer than sixteen jobs takes another, under
/// an id that it hands out once; no other job is touched.
pub proof fn jobs_are_registered_under_the_next_id(
    before: SessionModel,
    job: JobHandle,
    after: SessionModel,
    other: u64,
)
    requires
        terminal_session::session_step(before, SessionAction::RegisterJob(job), after),
    ensures
        !before.closed && before.jobs.len() < 16 ==> {
            &&& after.jobs.dom().contains(before.next_job_id)
            &&& after.jobs[before.next_job_id] == job
            &&& before.next_job_id < u64::MAX ==> after.next_job_id == before.next_job_id + 1
        },
        before.closed || before.jobs.len() >= 16 ==> after == before,
        other != before.next_job_id ==> (after.jobs.dom().contains(other)
            <==> before.jobs.dom().contains(other)),
        other != before.next_job_id && before.jobs.dom().contains(other) ==> after.jobs[other]
            == before.jobs[other],
        after.cwd == before.cwd,
        after.env == before.env,
        after.lease == before.lease,
{
}

/// A job that is cancelled leaves the table and is told to stop; a job that ends
/// stays in it with its code. Neither touches another job.
pub proof fn jobs_end_one_by_one(
    before: SessionModel,
    id: u64,
    code: i32,
    cancelled: SessionModel,
    ended: SessionModel,
    other: u64,
)
    requires
        terminal_session::session_step(before, SessionAction::CancelJob(id), cancelled),
        terminal_session::session_step(before, SessionAction::RecordExit(id, Some(code)), ended),
        before.jobs.dom().contains(id),
        other != id,
    ensures
        !cancelled.jobs.dom().contains(id),
        cancelled.stopped.dom().contains(id),
        cancelled.stopped[id].was_asked(),
        ended.jobs.dom().contains(id),
        ended.jobs[id].exit_code == Some(code),
        ended.jobs[id].digest_hex == before.jobs[id].digest_hex,
        cancelled.jobs.dom().contains(other) <==> before.jobs.dom().contains(other),
        ended.jobs.dom().contains(other) <==> before.jobs.dom().contains(other),
        before.jobs.dom().contains(other) ==> cancelled.jobs[other] == before.jobs[other]
            && ended.jobs[other] == before.jobs[other],
{
}

/// Closing a session leaves it without jobs and without a lease, for good: it
/// takes no job any more.
pub proof fn closed_sessions_hold_nothing(
    before: SessionModel,
    after: SessionModel,
    job: JobHandle,
    later: SessionModel,
)
    requires
        terminal_session::session_step(before, SessionAction::Close, after),
        !before.closed,
        terminal_session::session_step(after, SessionAction::RegisterJob(job), later),
    ensures
        after.closed,
        after.jobs.dom() == Set::<u64>::empty(),
        after.lease is None,
        after.cwd == before.cwd,
        after.env == before.env,
        later == after,
{
}

/// A command runs once: it starts from the queue, prints while it runs, and ends
/// by exiting, or by being cancelled, denied or unsupported, of which the last
/// three can come before it starts. Nothing happens to it after that.
pub proof fn commands_live_once(
    stream: Stream,
    bytes: Seq<u8>,
    code: Option<i32>,
    request_id: u64,
    event: EventModel,
)
    ensures
        command::phase_after(SessionPhase::Queued, EventModel::Started) == Ok::<
            SessionPhase,
            &'static str,
        >(SessionPhase::Running),
        command::phase_after(SessionPhase::Queued, EventModel::PendingApproval(request_id)) == Ok::<
            SessionPhase,
            &'static str,
        >(SessionPhase::Queued),
        command::phase_after(SessionPhase::Queued, EventModel::Output(stream, bytes)) is Err,
        command::phase_after(SessionPhase::Queued, EventModel::Exited(code)) is Err,
        command::phase_after(SessionPhase::Running, EventModel::Output(stream, bytes)) == Ok::<
            SessionPhase,
            &'static str,
        >(SessionPhase::Running),
        command::phase_after(SessionPhase::Running, EventModel::Exited(code)) == Ok::<
            SessionPhase,
            &'static str,
        >(SessionPhase::Ended),
        command::phase_after(SessionPhase::Running, EventModel::Started) is Err,
        command::phase_after(SessionPhase::Running, EventModel::PendingApproval(request_id)) is Err,
        event is Cancelled || event is Denied || event is Unsupported ==> command::phase_after(
            SessionPhase::Queued,
            event,
        ) == Ok::<SessionPhase, &'static str>(SessionPhase::Ended) && command::phase_after(
            SessionPhase::Running,
            event,
        ) == Ok::<SessionPhase, &'static str>(SessionPhase::Ended),
        command::phase_after(SessionPhase::Ended, event) is Err,
{
}

} // verus!
