//! The action broker: serializes execution and propagates cancellation.
//!
//! A single worker executes at most one session at a time, so commands
//! targeting one terminal never interleave. Each submitted session owns a
//! [`CancelHandle`] registered under its session id; cancelling that id
//! interrupts the running guest (or skips a queued one) and reports
//! [`BrokerOutcome::Cancelled`] for it.
//!
//! The broker is also where elevation happens: it mints an [`ApprovalLease`]
//! once the human authority has verified the request, and only then.

use std::collections::HashMap;
use vstd::prelude::*;
use vstd::std_specs::hash::*;
use crate::cancel;
use crate::cancel::CancelHandle;
use crate::capability::CapabilityGrant;
use crate::command;
use crate::command::{
    CommandError,
    CommandFault,
    CommandRequest,
    ExecutionMode,
    SessionEvent,
    SessionPhase,
    SessionState,
};
use crate::elevation::{
    ApprovalLease,
    ElevationError,
    ElevationRequest,
    HumanApprovalAuthority,
    LeaseModel,
};
use crate::text;

verus! {

broadcast use group_hash_axioms;

/// Errors produced while interacting with the broker.
#[derive(Debug, PartialEq, Eq)]
pub enum BrokerError {
    /// The session id was never submitted to this broker.
    UnknownSession(u64),
    /// The worker stopped, so the queue is no longer served.
    WorkerStopped,
    /// The broker only executes WASI requests.
    NotWasi,
    /// The request failed validation.
    InvalidRequest(CommandError),
    /// The underlying runtime could not be created or configured.
    Runtime(String),
}

/// What a [`BrokerError`] denotes.
pub enum BrokerFault {
    /// The session id was never submitted.
    UnknownSession(u64),
    /// The worker stopped.
    WorkerStopped,
    /// The request is not a WASI request.
    NotWasi,
    /// The request failed validation.
    InvalidRequest(CommandFault),
    /// The runtime failed.
    Runtime(Seq<char>),
}

impl View for BrokerError {
    type V = BrokerFault;

    open spec fn view(&self) -> BrokerFault {
        match self {
            BrokerError::UnknownSession(id) => BrokerFault::UnknownSession(*id),
            BrokerError::WorkerStopped => BrokerFault::WorkerStopped,
            BrokerError::NotWasi => BrokerFault::NotWasi,
            BrokerError::InvalidRequest(error) => BrokerFault::InvalidRequest(error@),
            BrokerError::Runtime(reason) => BrokerFault::Runtime(reason@),
        }
    }
}

impl BrokerFault {
    /// The message of an error.
    pub open spec fn message_text(self) -> Seq<char> {
        match self {
            BrokerFault::UnknownSession(id) => "no session with id "@ + text::decimal(id as nat)
                + " is known to the broker"@,
            BrokerFault::WorkerStopped => "the broker worker stopped unexpectedly"@,
            BrokerFault::NotWasi => "the broker currently executes WASI requests only"@,
            BrokerFault::InvalidRequest(fault) => "invalid request: "@ + fault.message_text(),
            BrokerFault::Runtime(reason) => "runtime failure: "@ + reason,
        }
    }
}

impl BrokerError {
    /// A message for people.
    pub fn message(&self) -> (r: String)
        ensures
            r@ == self@.message_text(),
    {
        match self {
            BrokerError::UnknownSession(id) => text::around_number(
                "no session with id ",
                *id,
                " is known to the broker",
            ),
            BrokerError::WorkerStopped => "the broker worker stopped unexpectedly".to_owned(),
            BrokerError::NotWasi => "the broker currently executes WASI requests only".to_owned(),
            BrokerError::InvalidRequest(error) => text::joined(
                "invalid request: ",
                error.message().as_str(),
            ),
            BrokerError::Runtime(reason) => text::joined("runtime failure: ", reason.as_str()),
        }
    }
}

/// How the run of a guest came out.
#[derive(Debug, PartialEq, Eq)]
pub enum GuestReply<O> {
    /// It completed; this is what was captured.
    Completed(O),
    /// It was cancelled.
    Cancelled,
    /// The backend refused the request's mode.
    WrongMode,
    /// The backend failed, or a limit interrupted the guest.
    Failed(String),
}

/// Final result of one broker-managed session.
#[derive(Debug, PartialEq, Eq)]
pub enum BrokerOutcome<O> {
    /// The guest completed and its captured output is available.
    Completed(O),
    /// The session was cancelled before the guest completed.
    Cancelled,
    /// The request was denied before it could start.
    Denied(CommandError),
    /// The backend failed; the guest may have been interrupted by a limit.
    Failed(String),
}

/// One queued or running execution.
#[derive(Debug)]
pub struct Job<C> {
    /// What is executed.
    pub request: CommandRequest,
    /// The admitted component.
    pub component: C,
    /// How far it has come.
    pub session: SessionState,
}

/// What the worker does next.
#[derive(Debug)]
pub enum WorkerStep<C> {
    /// Run this job; the handle tells whether it is to stop.
    Run(Job<C>, CancelHandle),
    /// Report this job as cancelled without running it.
    Skip(Job<C>),
    /// Report this job as denied without running it.
    Deny(Job<C>, CommandError),
    /// There is nothing to do.
    Idle,
}

/// Serializes execution behind one queue and exposes per-session cancellation.
#[derive(Debug)]
pub struct ActionBroker<C> {
    queue: Vec<Job<C>>,
    registered: HashMap<u64, CancelHandle>,
    next_lease: u128,
    stopped: bool,
}

/// What an [`ActionBroker`] denotes.
#[verifier::ext_equal]
pub struct BrokerModel<C> {
    /// The queued jobs, first in first out.
    pub queue: Seq<Job<C>>,
    /// The handles of the sessions that were submitted.
    pub handles: Map<u64, CancelHandle>,
    /// The next lease to mint.
    pub next_lease: u128,
    /// Whether the queue is no longer served.
    pub stopped: bool,
}

impl<C> BrokerModel<C> {
    /// Whether a session was submitted.
    pub open spec fn knows(self, id: u64) -> bool {
        self.handles.dom().contains(id)
    }

    /// Whether a session was cancelled since it was submitted.
    pub open spec fn cancelled(self, id: u64) -> bool {
        self.knows(id) && self.handles[id].was_asked()
    }
}

impl<C> View for ActionBroker<C> {
    type V = BrokerModel<C>;

    closed spec fn view(&self) -> BrokerModel<C> {
        BrokerModel {
            queue: self.queue@,
            handles: self.registered@,
            next_lease: self.next_lease,
            stopped: self.stopped,
        }
    }
}

/// The result of a job whose guest came out.
pub open spec fn outcome_of<O>(reply: GuestReply<O>, outcome: BrokerOutcome<O>) -> bool {
    match reply {
        GuestReply::Completed(output) => outcome == BrokerOutcome::Completed(output),
        GuestReply::Cancelled => outcome is Cancelled,
        GuestReply::WrongMode => outcome matches BrokerOutcome::Denied(error) && error@
            == CommandFault::InvalidTransition("non-WASI request reached the WASI backend"),
        GuestReply::Failed(reason) => outcome == BrokerOutcome::<O>::Failed(reason),
    }
}

/// The phase of a job whose guest came out.
pub open spec fn phase_of<O>(reply: GuestReply<O>) -> SessionPhase {
    match reply {
        GuestReply::WrongMode => SessionPhase::Running,
        _ => SessionPhase::Ended,
    }
}

/// Report how the guest of a running job came out.
pub fn finish<C, O>(job: &mut Job<C>, reply: GuestReply<O>, exit_code: i32) -> (r: BrokerOutcome<O>)
    requires
        old(job).session.phase == SessionPhase::Running,
    ensures
        outcome_of(reply, r),
        final(job).session.phase == phase_of(reply),
        final(job).request == old(job).request,
        final(job).component == old(job).component,
        final(job).session.id == old(job).session.id,
        final(job).session.limits == old(job).session.limits,
{
    match reply {
        GuestReply::Completed(output) => {
            let _ = job.session.accept(&SessionEvent::Exited { code: Some(exit_code) });
            BrokerOutcome::Completed(output)
        },
        GuestReply::Cancelled => {
            let _ = job.session.accept(&SessionEvent::Cancelled);
            BrokerOutcome::Cancelled
        },
        GuestReply::WrongMode => BrokerOutcome::Denied(
            CommandError::InvalidTransition("non-WASI request reached the WASI backend"),
        ),
        GuestReply::Failed(reason) => {
            let _ = job.session.accept(&SessionEvent::Unsupported);
            BrokerOutcome::Failed(reason)
        },
    }
}

/// What the worker does next, given the state of the broker.
pub open spec fn next_step<C>(broker: BrokerModel<C>, step: WorkerStep<C>) -> bool {
    if broker.queue.len() == 0 {
        step is Idle
    } else {
        let job = broker.queue[0];
        if !broker.knows(job.request.id) {
            &&& step matches WorkerStep::Deny(denied, error)
            &&& denied == job
            &&& error@ == CommandFault::InvalidTransition(
                "session handle disappeared before start",
            )
        } else if broker.stopped || broker.cancelled(job.request.id) {
            &&& step matches WorkerStep::Skip(skipped)
            &&& skipped.request == job.request
            &&& skipped.component == job.component
            &&& skipped.session.id == job.session.id
            &&& skipped.session.limits == job.session.limits
            &&& job.session.phase == SessionPhase::Queued ==> skipped.session.phase
                == SessionPhase::Ended
        } else if job.session.phase != SessionPhase::Queued {
            &&& step matches WorkerStep::Deny(denied, error)
            &&& denied == job
            &&& error@ == CommandFault::InvalidTransition("session cannot start")
        } else {
            &&& step matches WorkerStep::Run(running, handle)
            &&& handle == broker.handles[job.request.id]
            &&& running.request == job.request
            &&& running.component == job.component
            &&& running.session.id == job.session.id
            &&& running.session.limits == job.session.limits
            &&& running.session.phase == SessionPhase::Running
        }
    }
}

/// The lease for a request that was verified.
pub open spec fn lease_for(
    lease_id: u128,
    request: ElevationRequest,
    grant: crate::capability::GrantModel,
    now: u64,
) -> LeaseModel {
    LeaseModel {
        lease_id,
        session_id: request.session_id,
        digest: request.digest@,
        grant,
        expires_at: (now + request.expires_after) as u64,
    }
}

/// The engine of `wasmtime` that components are compiled for.
#[verifier::external_type_specification]
#[verifier::external_body]
pub struct ExEngine(wasmtime::Engine);

/// A component that `wasmtime` has compiled.
#[verifier::external_type_specification]
#[verifier::external_body]
pub struct ExComponent(wasmtime::component::Component);

/// `wasmtime::component::Component::new`: the component that an engine compiles
/// from bytes, or the text of the error that rejects them. Which bytes an engine
/// admits depends on its configuration and on the machine, so nothing is said of
/// the result.
#[verifier::external_body]
fn new_component(engine: &wasmtime::Engine, bytes: &Vec<u8>) -> (r: Result<
    wasmtime::component::Component,
    String,
>) {
    wasmtime::component::Component::new(engine, bytes).map_err(|error| error.to_string())
}

/// Whether compiling bytes for an engine can come out so.
pub closed spec fn can_compile(
    engine: &wasmtime::Engine,
    bytes: &Vec<u8>,
    result: Result<wasmtime::component::Component, String>,
) -> bool {
    call_ensures(new_component, (engine, bytes), result)
}

impl ActionBroker<wasmtime::component::Component> {
    /// Admit and compile a component for the engine it will run on.
    ///
    /// # Errors
    ///
    /// Returns the engine's reason for rejecting the bytes.
    pub fn compile_component(engine: &wasmtime::Engine, bytes: &Vec<u8>) -> (r: Result<
        wasmtime::component::Component,
        String,
    >)
        ensures
            can_compile(engine, bytes, r),
    {
        new_component(engine, bytes)
    }
}

impl<C> ActionBroker<C> {
    /// A broker with an empty queue.
    pub fn new() -> (r: Self)
        ensures
            r@ == (BrokerModel::<C> {
                queue: Seq::empty(),
                handles: Map::empty(),
                next_lease: 0,
                stopped: false,
            }),
    {
        ActionBroker {
            queue: Vec::new(),
            registered: HashMap::new(),
            next_lease: 0,
            stopped: false,
        }
    }

    /// Enqueue an admitted component for execution. A session that is
    /// submitted again starts uncancelled.
    ///
    /// # Errors
    ///
    /// Refuses an invalid request, one that is not a WASI request, and any
    /// once the queue is no longer served.
    pub fn submit(&mut self, component: C, request: CommandRequest) -> (r: Result<(), BrokerError>)
        ensures
            match command::request_fault(request@) {
                Some(fault) => {
                    &&& r is Err
                    &&& r->Err_0@ == BrokerFault::InvalidRequest(fault)
                    &&& final(self)@ == old(self)@
                },
                None => if request.mode != ExecutionMode::Wasi {
                    &&& r is Err
                    &&& r->Err_0@ == BrokerFault::NotWasi
                    &&& final(self)@ == old(self)@
                } else if old(self)@.stopped {
                    &&& r is Err
                    &&& r->Err_0@ == BrokerFault::WorkerStopped
                    &&& final(self)@.handles[request.id].is_fresh()
                    &&& final(self)@ == (BrokerModel {
                        handles: old(self)@.handles.insert(
                            request.id,
                            final(self)@.handles[request.id],
                        ),
                        ..old(self)@
                    })
                } else {
                    &&& r is Ok
                    &&& final(self)@.handles[request.id].is_fresh()
                    &&& final(self)@ == (BrokerModel {
                        queue: old(self)@.queue.push(final(self)@.queue.last()),
                        handles: old(self)@.handles.insert(
                            request.id,
                            final(self)@.handles[request.id],
                        ),
                        ..old(self)@
                    })
                    &&& final(self)@.queue.last().request == request
                    &&& final(self)@.queue.last().component == component
                    &&& final(self)@.queue.last().session.id == request.id
                    &&& final(self)@.queue.last().session.phase == SessionPhase::Queued
                    &&& final(self)@.queue.last().session.limits == request.grant@.limits
                },
            },
    {
        match request.validate() {
            Ok(()) => {},
            Err(error) => return Err(BrokerError::InvalidRequest(error)),
        }
        if request.mode != ExecutionMode::Wasi {
            return Err(BrokerError::NotWasi);
        }
        let ghost before = self@;
        let id = request.id;
        self.registered.insert(id, CancelHandle::new());
        assert(self@.handles =~= before.handles.insert(id, self@.handles[id]));
        if self.stopped {
            return Err(BrokerError::WorkerStopped);
        }
        let session = SessionState::new(id, request.grant.limits());
        let ghost queued = self.queue@;
        self.queue.push(Job { request, component, session });
        assert(self.queue@ =~= queued.push(self.queue@.last()));
        Ok(())
    }

    /// Request cancellation of a live session.
    ///
    /// Safe to call more than once and for sessions that already finished;
    /// only ids that were never submitted are rejected.
    ///
    /// # Errors
    ///
    /// Returns [`BrokerError::UnknownSession`] for an id that was never
    /// submitted.
    pub fn cancel(&mut self, id: u64) -> (r: Result<(), BrokerError>)
        ensures
            if old(self)@.knows(id) {
                &&& r is Ok
                &&& final(self)@.handles[id].stops(&old(self)@.handles[id])
                &&& final(self)@ == (BrokerModel {
                    handles: old(self)@.handles.insert(id, final(self)@.handles[id]),
                    ..old(self)@
                })
            } else {
                &&& r is Err
                &&& r->Err_0@ == BrokerFault::UnknownSession(id)
                &&& final(self)@ == old(self)@
            },
    {
        let ghost before = self@;
        match self.registered.remove(&id) {
            Some(mut handle) => {
                handle.cancel();
                self.registered.insert(id, handle);
                assert(self@.handles =~= before.handles.insert(id, self@.handles[id]));
                Ok(())
            },
            None => {
                assert(self@.handles =~= before.handles);
                Err(BrokerError::UnknownSession(id))
            },
        }
    }

    /// Take the next job off the queue: the one that was submitted first. A
    /// job that was cancelled meanwhile is skipped, and so is every job once the
    /// broker has been stopped.
    pub fn next(&mut self) -> (r: WorkerStep<C>)
        ensures
            final(self)@.handles == old(self)@.handles,
            final(self)@.next_lease == old(self)@.next_lease,
            final(self)@.stopped == old(self)@.stopped,
            next_step(old(self)@, r),
            final(self)@.queue == if old(self)@.queue.len() == 0 {
                old(self)@.queue
            } else {
                old(self)@.queue.skip(1)
            },
    {
        if self.queue.len() == 0 {
            return WorkerStep::Idle;
        }
        let ghost queued = self.queue@;
        let mut job = self.queue.remove(0);
        assert(self.queue@ =~= queued.skip(1));
        match self.registered.get(&job.request.id) {
            None => WorkerStep::Deny(
                job,
                CommandError::InvalidTransition("session handle disappeared before start"),
            ),
            Some(handle) => {
                if self.stopped || handle.asked() {
                    let _ = job.session.accept(&SessionEvent::Cancelled);
                    return WorkerStep::Skip(job);
                }
                match job.session.accept(&SessionEvent::Started) {
                    Ok(()) => WorkerStep::Run(job, handle.clone()),
                    Err(_) => WorkerStep::Deny(
                        job,
                        CommandError::InvalidTransition("session cannot start"),
                    ),
                }
            },
        }
    }

    /// Stop serving the queue and cancel every session, so that a running
    /// guest is interrupted and no queued one is run.
    pub fn stop(&mut self)
        ensures
            final(self)@ == (BrokerModel {
                stopped: true,
                handles: final(self)@.handles,
                ..old(self)@
            }),
            cancel::all_stopped(old(self)@.handles, final(self)@.handles),
    {
        self.stopped = true;
        self.registered = cancel::cancel_all(&self.registered);
    }

    /// Mint a lease for a request that the authority has ruled on: only a
    /// request that was verified gets one, bound to its session, its plan and
    /// its span of time.
    ///
    /// # Errors
    ///
    /// Returns the authority's refusal, and
    /// [`ElevationError::AuthorityUnavailable`] once every lease id is taken.
    fn mint_lease(
        &mut self,
        verdict: Result<(), ElevationError>,
        request: &ElevationRequest,
        grant: CapabilityGrant,
        now: u64,
    ) -> (r: Result<ApprovalLease, ElevationError>)
        requires
            now + request.expires_after <= u64::MAX,
        ensures
            match verdict {
                Err(error) => r == Err::<ApprovalLease, ElevationError>(error) && final(self)@
                    == old(self)@,
                Ok(_) => if old(self)@.next_lease == u128::MAX {
                    &&& r matches Err(ElevationError::AuthorityUnavailable(reason))
                    &&& reason@ == "every lease id is taken"@
                    &&& final(self)@ == old(self)@
                } else {
                    &&& r is Ok
                    &&& r->Ok_0@ == lease_for(old(self)@.next_lease, *request, grant@, now)
                    &&& final(self)@ == (BrokerModel {
                        next_lease: (old(self)@.next_lease + 1) as u128,
                        ..old(self)@
                    })
                },
            },
    {
        match verdict {
            Err(error) => Err(error),
            Ok(()) => {
                let lease_id = self.next_lease;
                if lease_id == u128::MAX {
                    return Err(
                        ElevationError::AuthorityUnavailable("every lease id is taken".to_owned()),
                    );
                }
                self.next_lease = self.next_lease + 1;
                Ok(
                    ApprovalLease::mint(
                        lease_id,
                        request.session_id,
                        request.digest,
                        grant,
                        now,
                        request.expires_after,
                    ),
                )
            },
        }
    }

    /// Have the authority verify a human for a request, and mint a lease once
    /// it has.
    ///
    /// # Errors
    ///
    /// Returns the authority's refusal, and
    /// [`ElevationError::AuthorityUnavailable`] once every lease id is taken.
    pub fn approve_with_authority<A: HumanApprovalAuthority>(
        &mut self,
        request: &ElevationRequest,
        grant: CapabilityGrant,
        authority: &A,
        now: u64,
    ) -> (r: Result<ApprovalLease, ElevationError>)
        requires
            now + request.expires_after <= u64::MAX,
        ensures
            match r {
                Ok(lease) => {
                    &&& exists|verdict: Result<(), ElevationError>|
                        verdict is Ok && #[trigger] call_ensures(
                            A::verify_human,
                            (authority, request),
                            verdict,
                        )
                    &&& lease@ == lease_for(old(self)@.next_lease, *request, grant@, now)
                    &&& final(self)@ == (BrokerModel {
                        next_lease: (old(self)@.next_lease + 1) as u128,
                        ..old(self)@
                    })
                },
                Err(error) => {
                    &&& final(self)@ == old(self)@
                    &&& call_ensures(A::verify_human, (authority, request), Err(error)) || {
                        &&& old(self)@.next_lease == u128::MAX
                        &&& error matches ElevationError::AuthorityUnavailable(reason)
                        &&& reason@ == "every lease id is taken"@
                        &&& exists|verdict: Result<(), ElevationError>|
                            verdict is Ok && #[trigger] call_ensures(
                                A::verify_human,
                                (authority, request),
                                verdict,
                            )
                    }
                },
            },
    {
        let verdict = authority.verify_human(request);
        self.mint_lease(verdict, request, grant, now)
    }
}

/// What a broker does to its queue: a job is put on it, or the next one is
/// taken off.
pub enum QueueAction<C> {
    /// A job is submitted.
    Submit(Job<C>),
    /// The next job is taken, if there is one.
    Take,
}

/// The jobs that are taken off a queue, and what is left on it, after a run of
/// actions.
pub open spec fn after_actions<C>(queue: Seq<Job<C>>, actions: Seq<QueueAction<C>>) -> (
    Seq<Job<C>>,
    Seq<Job<C>>,
)
    decreases actions.len(),
{
    if actions.len() == 0 {
        (Seq::empty(), queue)
    } else {
        let (taken, left) = after_actions(queue, actions.drop_last());
        match actions.last() {
            QueueAction::Submit(job) => (taken, left.push(job)),
            QueueAction::Take => if left.len() == 0 {
                (taken, left)
            } else {
                (taken.push(left[0]), left.skip(1))
            },
        }
    }
}

/// The jobs that a run of actions submits.
pub open spec fn submitted<C>(actions: Seq<QueueAction<C>>) -> Seq<Job<C>>
    decreases actions.len(),
{
    if actions.len() == 0 {
        Seq::empty()
    } else {
        match actions.last() {
            QueueAction::Submit(job) => submitted(actions.drop_last()).push(job),
            QueueAction::Take => submitted(actions.drop_last()),
        }
    }
}

/// Jobs are taken in the order in which they were submitted: whatever was
/// taken, followed by what still waits, is what waited at first followed by
/// what was submitted since. None is lost, doubled or overtaken.
pub proof fn jobs_are_taken_in_order<C>(queue: Seq<Job<C>>, actions: Seq<QueueAction<C>>)
    ensures
        after_actions(queue, actions).0 + after_actions(queue, actions).1 == queue + submitted(
            actions,
        ),
    decreases actions.len(),
{
    if actions.len() > 0 {
        jobs_are_taken_in_order(queue, actions.drop_last());
        let (taken, left) = after_actions(queue, actions.drop_last());
        let (now_taken, now_left) = after_actions(queue, actions);
        match actions.last() {
            QueueAction::Submit(job) => {
                assert(taken + left.push(job) =~= (taken + left).push(job));
                assert(queue + submitted(actions) =~= (queue + submitted(
                    actions.drop_last(),
                )).push(job));
            },
            QueueAction::Take => {
                assert(now_taken + now_left =~= taken + left);
            },
        }
    } else {
        assert(after_actions(queue, actions).0 + after_actions(queue, actions).1 =~= queue);
        assert(queue + submitted(actions) =~= queue);
    }
}

/// A session that is cancelled while it is queued never runs: its job is
/// skipped when its turn comes, unless the session was submitted again.
pub proof fn cancelled_before_start_never_runs<C>(
    before: BrokerModel<C>,
    step: WorkerStep<C>,
    id: u64,
)
    requires
        before.queue.len() > 0,
        before.queue[0].request.id == id,
        before.cancelled(id),
        next_step(before, step),
    ensures
        step is Skip,
{
}

/// Cancelling a session reaches its running guest, unless the session was
/// submitted again since: the flag of the handle that the worker was given is
/// raised.
pub proof fn cancelling_reaches_the_running_guest<C>(
    before: BrokerModel<C>,
    job: Job<C>,
    handle: CancelHandle,
    now: BrokerModel<C>,
    after: BrokerModel<C>,
)
    requires
        next_step(before, WorkerStep::Run(job, handle)),
        now.handles[job.request.id] == before.handles[job.request.id],
        after.handles[job.request.id].stops(&now.handles[job.request.id]),
    ensures
        !handle.was_asked(),
        handle.raised(),
        after.handles[job.request.id].stops(&handle),
{
}

/// Stopping the broker reaches the running guest in the same way.
pub proof fn stopping_reaches_the_running_guest<C>(
    before: BrokerModel<C>,
    job: Job<C>,
    handle: CancelHandle,
    now: BrokerModel<C>,
    after: BrokerModel<C>,
)
    requires
        next_step(before, WorkerStep::Run(job, handle)),
        now.knows(job.request.id),
        now.handles[job.request.id] == before.handles[job.request.id],
        cancel::all_stopped(now.handles, after.handles),
    ensures
        handle.raised(),
        after.handles[job.request.id].stops(&handle),
{
}

/// A broker that has been stopped runs nothing more, whatever is still queued.
pub proof fn stopped_brokers_run_nothing<C>(before: BrokerModel<C>, step: WorkerStep<C>)
    requires
        before.stopped,
        next_step(before, step),
    ensures
        !(step is Run),
{
}

} // verus!
