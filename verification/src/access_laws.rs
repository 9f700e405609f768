//! What a grant allows and what it denies: paths, variables, ports, native
//! programs and elevated plans.

use vstd::prelude::*;
use crate::broker;
use crate::broker::{BrokerModel, BrokerOutcome, GuestReply, WorkerStep};
use crate::capability;
use crate::capability::{FilesystemAccess, GrantModel};
use crate::command;
use crate::command::{CommandFault, ExecutionMode, RequestModel, SessionPhase};
use crate::elevation;
use crate::elevation::{ElevationError, ElevationRequest};
use crate::host_path;
use crate::native;
use crate::native::{HostFamily, NativeFault};
use crate::native_session;
use crate::native_session::NativeStop;
use crate::policy;
use crate::policy::{IpAddress, NetworkPolicy, SocketAddress, SocketUse};
use crate::terminal_session::FactsModel;

verus! {

/// A granted tree holds its root and whatever stands below it, and may be
/// written where it was granted for writing.
pub proof fn trees_hold_what_stands_below_them(grant: GrantModel, i: int, names: Seq<Seq<char>>)
    requires
        0 <= i < grant.trees.len(),
    ensures
        ({
            let path = grant.trees[i].root + names;
            &&& grant.covers(path)
            &&& grant.covers_real(Some(path))
            &&& grant.trees[i].access == FilesystemAccess::ReadWrite ==> grant.covers_write(path)
                && grant.covers_put(path, Some(path))
        }),
{
    let root = grant.trees[i].root;
    let path = root + names;
    assert(path.take(root.len() as int) =~= root);
    assert(host_path::lies_in(path, grant.trees[i].root));
}

/// A path that stands below no granted tree is denied, for reading and for
/// writing: a tree holds neither what stands beside it nor what it stands in.
pub proof fn paths_outside_every_tree_are_denied(grant: GrantModel, path: Seq<Seq<char>>)
    requires
        forall|i: int, names: Seq<Seq<char>>|
            0 <= i < grant.trees.len() ==> path != #[trigger] (grant.trees[i].root + names),
    ensures
        !grant.covers(path),
        !grant.covers_real(Some(path)),
        !grant.covers_write(path),
        !grant.covers_put(path, Some(path)),
{
    assert forall|i: int| 0 <= i < grant.trees.len() implies !host_path::lies_in(
        path,
        (#[trigger] grant.trees[i]).root,
    ) by {
        let root = grant.trees[i].root;
        if host_path::lies_in(path, root) {
            let names = path.skip(root.len() as int);
            assert(path =~= root + names) by {
                assert forall|k: int| 0 <= k < root.len() implies path[k] == root[k] by {
                    assert(path.take(root.len() as int)[k] == root[k]);
                }
            }
        }
    }
}

/// What is put somewhere needs leave to write where it is named and where it
/// comes to lie, and what has no place to come to lie in is not put.
pub proof fn puts_need_leave_at_both_ends(
    grant: GrantModel,
    path: Seq<Seq<char>>,
    landing: Seq<Seq<char>>,
)
    ensures
        grant.covers_put(path, Some(landing)) <==> grant.covers_put(path, Some(path))
            && grant.covers_put(landing, Some(landing)),
        !grant.covers_put(path, None),
        !grant.covers_real(None),
{
}

/// A variable has a name: one or more characters, none of them `=` or NUL.
pub proof fn variables_have_a_name(name: Seq<char>)
    ensures
        capability::is_variable_name(name) <==> name.len() > 0 && (forall|i: int|
            0 <= i < name.len() ==> #[trigger] name[i] != '=' && name[i] != '\0'),
{
    if capability::is_variable_name(name) {
        assert forall|i: int| 0 <= i < name.len() implies #[trigger] name[i] != '=' && name[i]
            != '\0' by {
            assert(name.contains(name[i]));
        }
    }
}

/// A guest may bind and connect to each port that it was granted, over TCP, on
/// any address of `127.0.0.0/8` and on `::1`, and use nothing else.
pub proof fn granted_ports_are_reached_on_loopback_only(
    policy: NetworkPolicy,
    addr: SocketAddress,
    use_: SocketUse,
)
    ensures
        policy.permitted(addr, use_) ==> {
            &&& policy.tcp
            &&& policy.allowed_ports@.contains(addr.port)
            &&& use_ == SocketUse::TcpBind || use_ == SocketUse::TcpConnect
        },
        policy.permitted(addr, use_) ==> match addr.ip {
            IpAddress::V4(octets) => octets@[0] == 127,
            IpAddress::V6(segments) => segments@[7] == 1 && forall|i: int|
                0 <= i < 7 ==> #[trigger] segments@[i] == 0,
        },
        policy.tcp && policy.allowed_ports@.contains(addr.port) && (use_ == SocketUse::TcpBind
            || use_ == SocketUse::TcpConnect) ==> match addr.ip {
            IpAddress::V4(octets) => octets@[0] == 127 ==> policy.permitted(addr, use_),
            IpAddress::V6(segments) => segments@[7] == 1 && (forall|i: int|
                0 <= i < 7 ==> #[trigger] segments@[i] == 0) ==> policy.permitted(addr, use_),
        },
{
    match addr.ip {
        IpAddress::V4(_) => {},
        IpAddress::V6(segments) => {
            let one = seq![0u16, 0, 0, 0, 0, 0, 0, 1];
            assert(segments@.len() == 8);
            if segments@[7] == 1 && (forall|i: int|
                0 <= i < 7 ==> #[trigger] segments@[i] == 0) {
                assert forall|i: int| 0 <= i < 8 implies segments@[i] == one[i] by {
                    if i < 7 {
                        assert(segments@[i] == 0);
                    }
                }
                assert(segments@ =~= one);
            }
        },
    }
}

/// Each variable of a list that has a value is selected with that value, in the
/// order of the list, and no other is.
pub proof fn variables_with_a_value_are_selected(
    names: Seq<Seq<char>>,
    answers: Seq<Option<Seq<char>>>,
)
    requires
        names.len() == answers.len(),
    ensures
        policy::with_values(names, answers) == Seq::new(
            names.len(),
            |i: int| (names[i], answers[i]),
        ).filter(|pair: (Seq<char>, Option<Seq<char>>)| pair.1 is Some).map_values(
            |pair: (Seq<char>, Option<Seq<char>>)| (pair.0, pair.1->0),
        ),
    decreases names.len(),
{
    let pairs = Seq::new(names.len(), |i: int| (names[i], answers[i]));
    let has_value = |pair: (Seq<char>, Option<Seq<char>>)| pair.1 is Some;
    let with_value = |pair: (Seq<char>, Option<Seq<char>>)| (pair.0, pair.1->0);
    reveal(Seq::filter);
    if names.len() > 0 {
        let rest = Seq::new(
            names.drop_last().len(),
            |i: int| (names.drop_last()[i], answers.drop_last()[i]),
        );
        variables_with_a_value_are_selected(names.drop_last(), answers.drop_last());
        assert(pairs.drop_last() =~= rest);
        let kept = rest.filter(has_value);
        assert(pairs.last() == (names.last(), answers.last()));
        if answers.last() is Some {
            assert(pairs.filter(has_value) =~= kept.push(pairs.last()));
            assert(kept.push(pairs.last()).map_values(with_value) =~= kept.map_values(
                with_value,
            ).push((names.last(), answers.last()->0)));
        } else {
            assert(pairs.filter(has_value) =~= kept);
        }
    } else {
        assert(pairs =~= Seq::empty());
        assert(pairs.filter(has_value).map_values(with_value) =~= Seq::empty());
    }
}

/// A request is refused only for what its grant lacks: native execution, where
/// it asks for that, and a tree that holds its working directory.
pub proof fn requests_are_refused_for_what_is_not_granted(
    request: RequestModel,
    i: int,
    names: Seq<Seq<char>>,
)
    ensures
        request.mode == ExecutionMode::Native && !request.grant.native ==> command::request_fault(
            request,
        ) == Some(CommandFault::NativeNotGranted),
        (request.mode != ExecutionMode::Native || request.grant.native) && request.grant.trees.len()
            == 0 ==> command::request_fault(request) == Some(
            CommandFault::WorkingDirectoryDenied(request.cwd),
        ),
        (request.mode != ExecutionMode::Native || request.grant.native) && 0 <= i
            < request.grant.trees.len() && request.cwd == request.grant.trees[i].root + names
            ==> command::request_fault(request) is None,
        command::request_fault(request) is None ==> request.grant.covers(request.cwd) && (
        request.mode == ExecutionMode::Native ==> request.grant.native),
{
    if 0 <= i < request.grant.trees.len() {
        trees_hold_what_stands_below_them(request.grant, i, names);
    }
}

/// A native request that its grant covers is spawned on a Unix host where its
/// working directory leads into a granted tree; a working directory that is not
/// there, or leads elsewhere, is denied by its own name.
pub proof fn covered_native_requests_are_spawned(request: RequestModel, facts: FactsModel)
    ensures
        ({
            let fault = native::spawn_fault(HostFamily::Unix, request, facts);
            let ready = request.mode == ExecutionMode::Native && request.grant.native
                && request.grant.covers(request.cwd);
            let denied = NativeFault::InvalidRequest(
                CommandFault::WorkingDirectoryDenied(request.cwd),
            );
            &&& ready && facts.actual is Some && request.grant.covers(facts.actual->0)
                ==> fault is None
            &&& ready && (facts.actual is None || !request.grant.covers(facts.actual->0)) ==> fault
                == Some(denied)
            &&& request.mode != ExecutionMode::Native ==> fault == Some(NativeFault::WrongMode)
            &&& request.mode == ExecutionMode::Native && !request.grant.native ==> fault == Some(
                NativeFault::NativeNotGranted,
            )
            &&& request.mode == ExecutionMode::Native && request.grant.native
                && !request.grant.covers(request.cwd) ==> fault == Some(denied)
        }),
{
}

/// The chunks that came while a session was not over.
pub open spec fn while_running(chunks: Seq<(Seq<u8>, bool)>) -> Seq<Seq<u8>>
    decreases chunks.len(),
{
    if chunks.len() == 0 {
        Seq::empty()
    } else if chunks.last().1 {
        while_running(chunks.drop_last())
    } else {
        while_running(chunks.drop_last()).push(chunks.last().0)
    }
}

/// The output of a session is every chunk that came while it was not over, one
/// after the other, and its child is killed exactly when that exceeds the
/// budget.
pub proof fn output_is_kept_and_measured(chunks: Seq<(Seq<u8>, bool)>, budget: usize)
    ensures
        native_session::metered(chunks, budget).0 == while_running(chunks).flatten(),
        native_session::metered(chunks, budget).1 <==> while_running(chunks).flatten().len()
            > budget,
    decreases chunks.len(),
{
    let kept = while_running(chunks);
    kept.lemma_flatten_and_flatten_alt_are_equivalent();
    if chunks.len() > 0 {
        let before = while_running(chunks.drop_last());
        output_is_kept_and_measured(chunks.drop_last(), budget);
        before.lemma_flatten_and_flatten_alt_are_equivalent();
        if !chunks.last().1 {
            assert(kept.drop_last() =~= before);
            assert(kept.last() == chunks.last().0);
            assert(kept.flatten_alt() == before.flatten_alt() + chunks.last().0);
        }
    }
}

/// A session whose child was killed fails with the reason that it was killed
/// for, and a child that was not killed has no fault.
pub proof fn killed_children_are_reported(reason: NativeStop)
    ensures
        native_session::stop_fault(None) is None,
        native_session::stop_fault(Some(reason)) is None <==> reason is Exited,
        native_session::stop_fault(Some(reason)) == Some(NativeFault::Cancelled) <==> reason
            is Cancelled,
        native_session::stop_fault(Some(reason)) == Some(NativeFault::Timeout) <==> reason
            is TimedOut,
        native_session::stop_fault(Some(reason)) == Some(NativeFault::OutputLimit) <==> reason
            is OutputLimit,
{
}

/// A lease is good for the session and the plan that it was asked for, from the
/// time it is minted until it ends, and for no other session, no other plan and
/// no later time. It holds the grant that was given.
pub proof fn leases_are_good_until_they_end(
    lease_id: u128,
    request: ElevationRequest,
    grant: GrantModel,
    now: u64,
    session_id: u64,
    digest: Seq<u8>,
    later: u64,
)
    requires
        now + request.expires_after <= u64::MAX,
    ensures
        ({
            let lease = broker::lease_for(lease_id, request, grant, now);
            let fault = elevation::lease_fault(lease, session_id, digest, later);
            let same = session_id == request.session_id && digest == request.digest@;
            &&& lease.lease_id == lease_id
            &&& lease.grant == grant
            &&& same && later < now + request.expires_after ==> fault is None
            &&& same && later >= now + request.expires_after ==> fault == Some(
                ElevationError::LeaseExpired,
            )
            &&& !same ==> fault == Some(ElevationError::LeaseMismatch)
        }),
{
}

/// The first job of a queue is the one that the worker takes: it runs under the
/// handle of its session, with its own request and component, where it was
/// neither cancelled nor started before.
pub proof fn the_first_job_runs<C>(broker: BrokerModel<C>, step: WorkerStep<C>)
    requires
        broker::next_step(broker, step),
        broker.queue.len() > 0,
        broker.queue[0].session.phase == SessionPhase::Queued,
        broker.handles.dom().contains(broker.queue[0].request.id),
        !broker.handles[broker.queue[0].request.id].was_asked(),
        !broker.stopped,
    ensures
        step matches WorkerStep::Run(job, handle) && job.request == broker.queue[0].request
            && job.component == broker.queue[0].component && job.session.phase
            == SessionPhase::Running && handle == broker.handles[broker.queue[0].request.id],
{
}

/// A job that cannot run is handed back whole, and says why: the worker idles
/// only on an empty queue.
pub proof fn jobs_that_cannot_run_are_handed_back<C>(broker: BrokerModel<C>, step: WorkerStep<C>)
    requires
        broker::next_step(broker, step),
    ensures
        step is Idle <==> broker.queue.len() == 0,
        broker.queue.len() > 0 && !broker.handles.dom().contains(broker.queue[0].request.id)
            ==> step is Deny,
        step matches WorkerStep::Deny(job, _) ==> job == broker.queue[0],
        step matches WorkerStep::Skip(job) ==> job.request == broker.queue[0].request
            && job.component == broker.queue[0].component,
        step matches WorkerStep::Skip(_) ==> broker.stopped
            || broker.handles[broker.queue[0].request.id].was_asked(),
{
}

/// The outcome of a job says how its guest came out, with what it printed or
/// why it failed, and the job is over unless the backend refused its mode.
pub proof fn guests_are_reported_as_they_came_out<O>(
    reply: GuestReply<O>,
    outcome: BrokerOutcome<O>,
)
    requires
        broker::outcome_of(reply, outcome),
    ensures
        reply matches GuestReply::Completed(output) ==> outcome == BrokerOutcome::Completed(output),
        outcome matches BrokerOutcome::Completed(output) ==> reply == GuestReply::Completed(output),
        reply is Cancelled <==> outcome is Cancelled,
        reply is WrongMode <==> outcome is Denied,
        reply matches GuestReply::Failed(reason) ==> outcome == BrokerOutcome::<O>::Failed(reason),
        broker::phase_of(reply) == SessionPhase::Ended <==> !(reply is WrongMode),
{
}

} // verus!
