//! What holds of every session, whatever is done to it.

use vstd::prelude::*;
use crate::builtin;
use crate::cancel;
use crate::cancel::CancelHandle;
use crate::capability::GrantModel;
use crate::terminal_session;
use crate::terminal_session::{DeltaModel, SessionAction, SessionModel};
use crate::text_map;

verus! {

/// The value of a variable in an overlay, if it has one.
pub open spec fn value_of(env: Map<Seq<char>, Seq<char>>, name: Seq<char>) -> Option<Seq<char>> {
    if env.dom().contains(name) {
        Some(env[name])
    } else {
        None
    }
}

/// What a delta makes of a variable: the value it sets, else none where it
/// removes the variable; nothing where it does not touch it.
pub open spec fn made_of(delta: DeltaModel, name: Seq<char>) -> Option<Option<Seq<char>>> {
    let set = text_map::map_of(delta.set);
    if set.dom().contains(name) {
        Some(Some(set[name]))
    } else if delta.remove.contains(name) {
        Some(None)
    } else {
        None
    }
}

/// What an action makes of a variable of a session under a grant. A delta with
/// a name that is not granted makes nothing of any.
pub open spec fn made_by(action: SessionAction, grant: GrantModel, name: Seq<char>) -> Option<
    Option<Seq<char>>,
> {
    match action {
        SessionAction::ApplyEnv(delta) => if terminal_session::first_denied(
            terminal_session::delta_names(delta),
            grant,
        ) is None {
            made_of(delta, name)
        } else {
            None
        },
        _ => None,
    }
}

/// What the last action that touched a variable made of it, if one did.
pub open spec fn last_made(
    actions: Seq<SessionAction>,
    grant: GrantModel,
    name: Seq<char>,
) -> Option<Option<Seq<char>>>
    decreases actions.len(),
{
    if actions.len() == 0 {
        None
    } else {
        match made_by(actions.last(), grant, name) {
            Some(made) => Some(made),
            None => last_made(actions.drop_last(), grant, name),
        }
    }
}

proof fn lemma_without_value(
    env: Map<Seq<char>, Seq<char>>,
    names: Seq<Seq<char>>,
    name: Seq<char>,
)
    ensures
        value_of(terminal_session::without(env, names), name) == if names.contains(name) {
            None
        } else {
            value_of(env, name)
        },
    decreases names.len(),
{
    if names.len() > 0 {
        let rest = names.drop_last();
        lemma_without_value(env, rest, name);
        assert(names =~= rest.push(names.last()));
        if names.contains(name) && name != names.last() {
            let i = choose|i: int| 0 <= i < names.len() && names[i] == name;
            assert(rest[i] == name);
        }
        if rest.contains(name) {
            let i = choose|i: int| 0 <= i < rest.len() && rest[i] == name;
            assert(names[i] == name);
        }
        assert(names[names.len() - 1] == names.last());
    }
}

proof fn lemma_extended_value(
    env: Map<Seq<char>, Seq<char>>,
    pairs: Seq<(Seq<char>, Seq<char>)>,
    name: Seq<char>,
)
    ensures
        value_of(terminal_session::extended(env, pairs), name) == if text_map::map_of(
            pairs,
        ).dom().contains(name) {
            Some(text_map::map_of(pairs)[name])
        } else {
            value_of(env, name)
        },
    decreases pairs.len(),
{
    if pairs.len() > 0 {
        lemma_extended_value(env, pairs.drop_last(), name);
    }
}

proof fn lemma_none_denied(names: Seq<Seq<char>>, grant: GrantModel, name: Seq<char>)
    requires
        terminal_session::first_denied(names, grant) is None,
        names.contains(name),
    ensures
        grant.environment.contains(name),
    decreases names.len(),
{
    let i = choose|i: int| 0 <= i < names.len() && names[i] == name;
    if i > 0 {
        assert(names.skip(1)[i - 1] == name);
        lemma_none_denied(names.skip(1), grant, name);
    }
}

proof fn lemma_made_is_granted(action: SessionAction, grant: GrantModel, name: Seq<char>)
    ensures
        made_by(action, grant, name) is Some ==> grant.environment.contains(name),
{
    if made_by(action, grant, name) is Some {
        let delta = action->ApplyEnv_0;
        let names = terminal_session::delta_names(delta);
        let keys = text_map::keys_of(delta.set);
        if text_map::map_of(delta.set).dom().contains(name) {
            lemma_map_keys(delta.set, name);
            let i = choose|i: int| 0 <= i < keys.len() && keys[i] == name;
            assert(names[i] == name);
        } else {
            let i = choose|i: int| 0 <= i < delta.remove.len() && delta.remove[i] == name;
            assert(names[keys.len() + i] == name);
        }
        lemma_none_denied(names, grant, name);
    }
}

proof fn lemma_map_keys(pairs: Seq<(Seq<char>, Seq<char>)>, name: Seq<char>)
    requires
        text_map::map_of(pairs).dom().contains(name),
    ensures
        text_map::keys_of(pairs).contains(name),
    decreases pairs.len(),
{
    let keys = text_map::keys_of(pairs);
    if pairs.last().0 == name {
        assert(keys[pairs.len() - 1] == name);
    } else {
        let rest = pairs.drop_last();
        lemma_map_keys(rest, name);
        let i = choose|i: int|
            0 <= i < text_map::keys_of(rest).len() && text_map::keys_of(rest)[i] == name;
        assert(keys[i] == name);
    }
}

/// Each variable of the overlay holds the value that was last set, or none once
/// it was removed, and every other variable is as it was at first: nothing but
/// a granted change of the overlay touches it. In a session that started with an
/// empty overlay a variable has a value only where one was set, whatever the
/// host's own environment holds. The specification never changes.
pub proof fn overlay_values_are_the_last_set(
    states: Seq<SessionModel>,
    actions: Seq<SessionAction>,
    name: Seq<char>,
)
    requires
        terminal_session::is_session_run(states, actions),
    ensures
        states.last().spec == states[0].spec,
        value_of(states.last().env, name) == match last_made(
            actions,
            states[0].spec.grant,
            name,
        ) {
            Some(made) => made,
            None => value_of(states[0].env, name),
        },
        last_made(actions, states[0].spec.grant, name) is Some
            ==> states[0].spec.grant.environment.contains(name),
    decreases actions.len(),
{
    if actions.len() > 0 {
        let k = actions.len() - 1;
        let earlier = states.drop_last();
        let done = actions.drop_last();
        assert forall|j: int| 0 <= j < done.len() implies terminal_session::session_step(
            earlier[j],
            #[trigger] done[j],
            earlier[j + 1],
        ) by {
            assert(done[j] == actions[j]);
        }
        overlay_values_are_the_last_set(earlier, done, name);
        let before = states[k];
        let after = states[k + 1];
        assert(terminal_session::session_step(before, actions[k], after));
        assert(before == earlier.last() && after == states.last());
        lemma_made_is_granted(actions[k], states[0].spec.grant, name);
        match actions[k] {
            SessionAction::ApplyEnv(delta) => {
                let middle = terminal_session::without(before.env, delta.remove);
                lemma_without_value(before.env, delta.remove, name);
                lemma_extended_value(middle, delta.set, name);
            },
            _ => {},
        }
    }
}

/// An `export` changes the overlay as a delta of its own does.
pub proof fn exports_are_overlay_changes(
    session: SessionModel,
    name: Seq<char>,
    value: Option<Seq<char>>,
)
    ensures
        terminal_session::session_step(
            session,
            SessionAction::ApplyEnv(
                match value {
                    Some(value) => DeltaModel { set: seq![(name, value)], remove: Seq::empty() },
                    None => DeltaModel { set: Seq::empty(), remove: seq![name] },
                },
            ),
            builtin::exported(session, name, value),
        ),
{
    let delta = match value {
        Some(value) => DeltaModel { set: seq![(name, value)], remove: Seq::empty() },
        None => DeltaModel { set: Seq::empty(), remove: seq![name] },
    };
    assert(terminal_session::delta_names(delta) =~= seq![name]);
    assert(seq![name].skip(1) =~= Seq::empty());
    assert(seq![name].drop_last() =~= Seq::empty());
    reveal_with_fuel(terminal_session::first_denied, 2);
    reveal_with_fuel(terminal_session::without, 2);
    reveal_with_fuel(terminal_session::extended, 2);
    match value {
        Some(value) => {
            assert(seq![(name, value)].drop_last() =~= Seq::empty());
        },
        None => {},
    }
}

proof fn lemma_job_stays(
    states: Seq<SessionModel>,
    actions: Seq<SessionAction>,
    id: u64,
    handle: CancelHandle,
)
    requires
        terminal_session::is_session_run(states, actions),
        id < states[0].next_job_id,
        states[0].jobs.dom().contains(id),
        states[0].jobs[id].cancel == handle,
        forall|k: int|
            0 <= k < actions.len() ==> !((#[trigger] actions[k]) is Close) && actions[k]
                != SessionAction::CancelJob(id),
    ensures
        id < states.last().next_job_id,
        states.last().jobs.dom().contains(id),
        states.last().jobs[id].cancel == handle,
    decreases actions.len(),
{
    if actions.len() > 0 {
        let k = actions.len() - 1;
        let earlier = states.drop_last();
        let done = actions.drop_last();
        assert forall|j: int| 0 <= j < done.len() implies terminal_session::session_step(
            earlier[j],
            #[trigger] done[j],
            earlier[j + 1],
        ) && !(done[j] is Close) && done[j] != SessionAction::CancelJob(id) by {
            assert(done[j] == actions[j]);
        }
        lemma_job_stays(earlier, done, id, handle);
        assert(terminal_session::session_step(states[k], actions[k], states[k + 1]));
        assert(states[k] == earlier.last() && states[k + 1] == states.last());
    }
}

/// A job that a session took is cancelled by its id, whatever else was done
/// meanwhile, unless it was cancelled or the session closed: every handle that
/// shares the flag of the job, such as the one its command looks at, has its
/// flag raised. The job leaves the table, and no other does; to cancel it again
/// changes nothing.
///
/// The last id is left out: a session that has run out of ids gives it out
/// again.
pub proof fn cancelling_a_job_tells_its_command(
    states: Seq<SessionModel>,
    actions: Seq<SessionAction>,
    after: SessionModel,
    held: CancelHandle,
)
    requires
        terminal_session::is_session_run(states, actions),
        actions.len() > 0,
        actions[0] matches SessionAction::RegisterJob(job) && held.shares_flag(&job.cancel),
        terminal_session::takes_job(states[0]),
        states[0].next_job_id < u64::MAX,
        forall|k: int|
            0 < k < actions.len() ==> !((#[trigger] actions[k]) is Close) && actions[k]
                != SessionAction::CancelJob(states[0].next_job_id),
        states.last().valid(),
        terminal_session::session_step(
            states.last(),
            SessionAction::CancelJob(states[0].next_job_id),
            after,
        ),
    ensures
        ({
            let id = states[0].next_job_id;
            let before = states.last();
            &&& held.raised()
            &&& after.stopped[id].stops(&held)
            &&& before.jobs.dom().contains(id)
            &&& after.jobs == before.jobs.remove(id)
            &&& after.jobs.len() == before.jobs.len() - 1
            &&& after.stopped.dom() == Set::empty().insert(id)
            &&& forall|again: SessionModel| #[trigger]
                terminal_session::session_step(after, SessionAction::CancelJob(id), again)
                    ==> again == after
        }),
{
    let id = states[0].next_job_id;
    let job = actions[0]->RegisterJob_0;
    let later = states.skip(1);
    let rest = actions.skip(1);
    assert(terminal_session::session_step(states[0], actions[0], states[1]));
    assert forall|j: int| 0 <= j < rest.len() implies terminal_session::session_step(
        later[j],
        #[trigger] rest[j],
        later[j + 1],
    ) && !(rest[j] is Close) && rest[j] != SessionAction::CancelJob(id) by {
        assert(rest[j] == actions[j + 1]);
    }
    assert(later[0] == states[1]);
    lemma_job_stays(later, rest, id, job.cancel);
    assert(later.last() == states.last());
    cancel::asking_reaches_every_clone(job.cancel, after.stopped[id], held);
    assert(after.stopped.dom() =~= Set::empty().insert(id));
}

/// Closing a session tells the command of every job that it owns to stop, and
/// leaves it without jobs and without a lease.
pub proof fn closing_tells_every_command(
    before: SessionModel,
    after: SessionModel,
    id: u64,
    held: CancelHandle,
)
    requires
        terminal_session::session_step(before, SessionAction::Close, after),
        !before.closed,
        before.jobs.dom().contains(id),
        held.shares_flag(&before.jobs[id].cancel),
    ensures
        held.raised(),
        after.stopped[id].stops(&held),
        after.jobs == Map::<u64, crate::terminal_session::JobHandle>::empty(),
        after.lease is None,
        after.closed,
        !terminal_session::takes_job(after),
{
    let handles = terminal_session::handles_of(before.jobs);
    assert(handles.dom().contains(id));
    assert(after.stopped[id].stops(&handles[id]));
    cancel::asking_reaches_every_clone(before.jobs[id].cancel, after.stopped[id], held);
}

} // verus!
