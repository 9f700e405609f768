//! The action broker: its queue and cancellation.

use ferrous::broker::{
    finish, ActionBroker, BrokerError, BrokerOutcome, GuestReply, WorkerStep,
};
use ferrous::capability::{CapabilityGrant, FilesystemAccess, ResourceLimits};
use ferrous::command::{Actor, CommandRequest, ExecutionMode, SessionPhase};
use ferrous::host_path::HostPath;
use wasmtime::component::Component;
use wasmtime::Engine;

fn grant(seconds: u64, fuel: u64) -> CapabilityGrant {
    CapabilityGrant::workspace("/w", FilesystemAccess::Read)
        .expect("absolute workspace")
        .with_limits(
            ResourceLimits::new(1024, seconds)
                .expect("valid limits")
                .with_fuel(fuel)
                .expect("valid fuel"),
        )
}

fn request(id: u64, program: &str, grant: CapabilityGrant) -> CommandRequest {
    CommandRequest::new(
        id,
        Actor::Agent,
        ExecutionMode::Wasi,
        program,
        Vec::new(),
        HostPath::parse("/w").expect("absolute"),
        grant,
    )
    .expect("request is valid")
}

#[test]
fn hello_component_reports_exit_code_zero() {
    let mut broker: ActionBroker<&str> = ActionBroker::new();
    broker
        .submit("hello", request(1, "hello", grant(30, 1_000_000)))
        .expect("submitted");
    let WorkerStep::Run(mut job, _) = broker.next() else {
        panic!("expected a job");
    };
    assert_eq!(job.component, "hello");
    match finish(&mut job, GuestReply::Completed(0), 0) {
        BrokerOutcome::Completed(exit_code) => assert_eq!(exit_code, 0),
        other => panic!("expected completion, got {other:?}"),
    }
    assert_eq!(job.session.phase, SessionPhase::Ended);
}

#[test]
fn stopping_the_broker_reaches_the_running_guest() {
    let mut broker: ActionBroker<&str> = ActionBroker::new();
    broker
        .submit("spin", request(1, "spin", grant(30, 1_000_000)))
        .expect("submitted");
    let WorkerStep::Run(_, handle) = broker.next() else {
        panic!("expected a job");
    };
    assert!(!handle.is_cancelled());
    broker.stop();
    assert!(handle.is_cancelled());
}

#[test]
fn finished_jobs_keep_their_session() {
    let mut broker: ActionBroker<&str> = ActionBroker::new();
    broker
        .submit("hello", request(7, "hello", grant(30, 1_000_000)))
        .expect("submitted");
    let WorkerStep::Run(mut job, _) = broker.next() else {
        panic!("expected a job");
    };
    let (id, limits) = (job.session.id, job.session.limits);
    let _: BrokerOutcome<()> = finish(&mut job, GuestReply::Failed("trap".to_owned()), 0);
    assert_eq!(id, 7);
    assert_eq!((job.session.id, job.session.limits), (id, limits));
}

#[test]
fn components_are_compiled_or_rejected() {
    let engine = Engine::default();
    let empty = b"\0asm\x0d\x00\x01\x00".to_vec();
    assert!(ActionBroker::<Component>::compile_component(&engine, &empty).is_ok());
    match ActionBroker::<Component>::compile_component(&engine, &b"not a component".to_vec()) {
        Ok(_) => panic!("expected a rejection"),
        Err(reason) => assert!(!reason.is_empty()),
    }
}

#[test]
fn requests_run_in_submission_order() {
    let mut broker: ActionBroker<&str> = ActionBroker::new();
    broker
        .submit("a", request(1, "spin-a", grant(1, 4_000_000_000)))
        .expect("a submitted");
    broker
        .submit("b", request(2, "hello-b", grant(30, 1_000_000)))
        .expect("b submitted");
    let WorkerStep::Run(mut first, _) = broker.next() else {
        panic!("expected a job");
    };
    assert_eq!(first.request.id, 1);
    let outcome: BrokerOutcome<()> = finish(
        &mut first,
        GuestReply::Failed("interrupted by its timeout".to_owned()),
        0,
    );
    assert!(matches!(outcome, BrokerOutcome::Failed(_)));
    let WorkerStep::Run(mut second, _) = broker.next() else {
        panic!("expected a job");
    };
    assert_eq!(second.request.id, 2);
    assert!(matches!(
        finish(&mut second, GuestReply::Completed(()), 0),
        BrokerOutcome::Completed(())
    ));
    assert!(matches!(broker.next(), WorkerStep::Idle));
}

#[test]
fn cancel_interrupts_a_running_guest_and_the_queue_continues() {
    let mut broker: ActionBroker<&str> = ActionBroker::new();
    broker
        .submit("a", request(1, "spin-a", grant(60, 4_000_000_000)))
        .expect("a submitted");
    broker
        .submit("b", request(2, "hello-b", grant(30, 1_000_000)))
        .expect("b submitted");
    let WorkerStep::Run(mut job, handle) = broker.next() else {
        panic!("expected a job");
    };
    assert!(!handle.is_cancelled());
    broker.cancel(1).expect("running session is cancellable");
    assert!(handle.is_cancelled(), "the running guest sees it");
    let outcome: BrokerOutcome<()> = finish(&mut job, GuestReply::Cancelled, 0);
    assert!(matches!(outcome, BrokerOutcome::Cancelled));
    assert!(matches!(broker.next(), WorkerStep::Run(_, _)));
}

#[test]
fn cancel_before_start_skips_a_queued_action() {
    let mut broker: ActionBroker<&str> = ActionBroker::new();
    broker
        .submit("a", request(1, "spin-a", grant(60, 4_000_000_000)))
        .expect("a submitted");
    broker
        .submit("b", request(2, "hello-b", grant(30, 1_000_000)))
        .expect("b submitted");
    assert!(matches!(broker.next(), WorkerStep::Run(_, _)));
    broker.cancel(2).expect("queued session is cancellable");
    broker.cancel(1).expect("running session is cancellable");
    let WorkerStep::Skip(job) = broker.next() else {
        panic!("b must not run");
    };
    assert_eq!(job.request.id, 2);
}

#[test]
fn cancel_of_an_unknown_session_errors() {
    let mut broker: ActionBroker<()> = ActionBroker::new();
    assert!(matches!(
        broker.cancel(999),
        Err(BrokerError::UnknownSession(999))
    ));
    assert_eq!(
        BrokerError::UnknownSession(999).message(),
        "no session with id 999 is known to the broker"
    );
}

#[test]
fn cancel_is_idempotent_for_a_live_session() {
    let mut broker: ActionBroker<&str> = ActionBroker::new();
    broker
        .submit("spin", request(1, "spin", grant(60, 4_000_000_000)))
        .expect("submitted");
    broker.cancel(1).expect("first cancel");
    broker.cancel(1).expect("second cancel is a no-op");
    assert!(matches!(broker.next(), WorkerStep::Skip(_)));
}

#[test]
fn only_wasi_requests_are_served() {
    let mut broker: ActionBroker<()> = ActionBroker::new();
    let native = CommandRequest::new(
        1,
        Actor::Agent,
        ExecutionMode::Native,
        "tool",
        Vec::new(),
        HostPath::parse("/w").expect("absolute"),
        grant(1, 1).allow_native_execution(),
    )
    .expect("valid request");
    assert_eq!(broker.submit((), native), Err(BrokerError::NotWasi));
    broker.stop();
    assert_eq!(
        broker.submit((), request(2, "late", grant(1, 1))),
        Err(BrokerError::WorkerStopped)
    );
}

#[test]
fn a_stopped_broker_skips_what_is_queued() {
    let mut broker: ActionBroker<()> = ActionBroker::new();
    broker
        .submit((), request(1, "first", grant(1, 1)))
        .expect("queued");
    broker
        .submit((), request(2, "second", grant(1, 1)))
        .expect("queued");
    broker.stop();
    for id in 1..3 {
        match broker.next() {
            WorkerStep::Skip(job) => {
                assert_eq!(job.request.id, id);
                assert_eq!(job.session.phase, SessionPhase::Ended);
            }
            step => panic!("a stopped broker must not run {step:?}"),
        }
    }
    assert!(matches!(broker.next(), WorkerStep::Idle));
}
