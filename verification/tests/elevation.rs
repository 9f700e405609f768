//! Elevation: requests, leases and the authority.

use ferrous::broker::ActionBroker;
use ferrous::capability::{CapabilityGrant, FilesystemAccess, ResourceLimits};
use ferrous::command::Actor;
use ferrous::elevation::{
    DenyAllAuthority, ElevationError, ElevationRequest, HumanApprovalAuthority, PendingApproval,
};
use ferrous::shell_ir::{
    Builtin, CapabilityDelta, CommandDigest, CommandSpec, EffectSummary, Program, SessionPath,
    ShellProgram, Statement,
};
use ferrous::terminal_session::{PathFacts, TerminalSession, TerminalSessionSpec};

const SECOND: u64 = 1_000_000_000;

fn sample_request() -> ElevationRequest {
    let plan = ShellProgram {
        statements: vec![Statement::Command(CommandSpec {
            program: Program::Builtin(Builtin::Mkdir(
                SessionPath::new("newdir").expect("valid path"),
            )),
            args: Vec::new(),
            redirects: Vec::new(),
            cwd: SessionPath::new(".").expect("valid cwd"),
        })],
    };
    ElevationRequest {
        session_id: 42,
        digest: CommandDigest::of(&plan),
        summary: EffectSummary::default(),
        requested: CapabilityDelta::default(),
        expires_after: 60 * SECOND,
    }
}

struct ApproveAll;

impl HumanApprovalAuthority for ApproveAll {
    fn verify_human(&self, _request: &ElevationRequest) -> Result<(), ElevationError> {
        Ok(())
    }
}

struct WrongPassword;

impl HumanApprovalAuthority for WrongPassword {
    fn verify_human(&self, _request: &ElevationRequest) -> Result<(), ElevationError> {
        Err(ElevationError::VerificationFailed)
    }
}

#[test]
fn elevation_request_contains_effects_but_never_a_password_field() {
    let request = sample_request();
    assert_eq!(request.session_id, 42);
    assert_eq!(request.digest.hex().len(), 64);
    assert!(request.summary.reads.is_empty());
}

#[test]
fn agent_cannot_construct_or_submit_a_lease() {
    let authority = DenyAllAuthority;
    let outcome = authority.verify_human(&sample_request());
    assert!(matches!(outcome, Err(ElevationError::Denied)));
    let mut broker: ActionBroker<()> = ActionBroker::new();
    assert!(matches!(
        broker.approve_with_authority(
            &sample_request(),
            CapabilityGrant::empty(),
            &DenyAllAuthority,
            0
        ),
        Err(ElevationError::Denied)
    ));
}

#[test]
fn lease_validation_fails_closed_on_mismatch_and_expiry() {
    let grant = CapabilityGrant::workspace("/tmp/ferrous-lease-test", FilesystemAccess::ReadWrite)
        .expect("absolute workspace");
    let plan = ShellProgram::empty();
    let digest = CommandDigest::of(&plan);
    let other = CommandDigest::of(&ShellProgram {
        statements: vec![Statement::Command(CommandSpec {
            program: Program::Builtin(Builtin::Pwd),
            args: Vec::new(),
            redirects: Vec::new(),
            cwd: SessionPath::new(".").expect("valid cwd"),
        })],
    });

    let mut broker: ActionBroker<()> = ActionBroker::new();
    let request = ElevationRequest {
        session_id: 7,
        digest: CommandDigest::of(&plan),
        summary: EffectSummary::default(),
        requested: CapabilityDelta::default(),
        expires_after: 60 * SECOND,
    };
    let lease = broker
        .approve_with_authority(&request, grant, &ApproveAll, 0)
        .expect("approved");
    assert!(lease.validate_for(7, &digest, 1).is_ok());
    // Wrong session.
    assert!(matches!(
        lease.validate_for(8, &digest, 1),
        Err(ElevationError::LeaseMismatch)
    ));
    // Wrong digest: the approved action changed.
    assert!(matches!(
        lease.validate_for(7, &other, 1),
        Err(ElevationError::LeaseMismatch)
    ));

    let short = ElevationRequest {
        expires_after: 1,
        ..request
    };
    let grant =
        CapabilityGrant::workspace("/tmp/ferrous-lease-expired", FilesystemAccess::ReadWrite)
            .expect("absolute workspace");
    let expired = broker
        .approve_with_authority(&short, grant, &ApproveAll, 0)
        .expect("approved");
    let later = 5_000_000;
    assert!(matches!(
        expired.validate_for(7, &digest, later),
        Err(ElevationError::LeaseExpired)
    ));
    assert!(expired.is_expired(later));
    assert_ne!(lease.lease_id(), expired.lease_id());
}

#[test]
fn pending_approval_is_redacted_and_stable() {
    let pending = PendingApproval {
        request_id: 99,
        session_id: 42,
        summary: EffectSummary {
            reads: vec!["src/main.rs".to_owned()],
            ..EffectSummary::default()
        },
        digest_hex: "abcd".to_owned(),
    };
    assert_eq!(pending.request_id, 99);
    assert_eq!(pending.summary.reads, ["src/main.rs"]);
    assert_eq!(pending.digest_hex, "abcd");
}

#[test]
fn a_refusal_leaves_no_lease_behind() {
    let mut broker: ActionBroker<()> = ActionBroker::new();
    let refused = broker.approve_with_authority(
        &sample_request(),
        CapabilityGrant::empty(),
        &WrongPassword,
        0,
    );
    assert!(matches!(refused, Err(ElevationError::VerificationFailed)));
    let lease = broker
        .approve_with_authority(&sample_request(), CapabilityGrant::empty(), &ApproveAll, 0)
        .expect("minted");
    assert_eq!(lease.lease_id(), 0);
}

#[test]
fn sessions_hold_the_last_lease_until_it_is_cleared() {
    let spec = TerminalSessionSpec {
        id: 42,
        actor: Actor::Agent,
        cwd: SessionPath::new(".").expect("valid cwd"),
        base_grant: CapabilityGrant::workspace("/w", FilesystemAccess::Read)
            .expect("absolute workspace"),
        limits: ResourceLimits::new(1024, 30).expect("valid limits"),
    };
    let cwd = TerminalSession::initial_cwd(&spec).expect("has a root");
    let facts = PathFacts {
        actual: Some(cwd),
        is_dir: true,
    };
    let mut session = TerminalSession::new(spec, &facts).expect("session opens");
    assert!(session.lease().is_none());

    let mut broker: ActionBroker<()> = ActionBroker::new();
    for id in 0..2 {
        let lease = broker
            .approve_with_authority(&sample_request(), CapabilityGrant::empty(), &ApproveAll, 0)
            .expect("minted");
        session.attach_lease(lease);
        let held = session.lease().expect("a lease is held");
        assert_eq!(held.lease_id(), id);
    }
    session.clear_lease();
    assert!(session.lease().is_none());

    let lease = broker
        .approve_with_authority(&sample_request(), CapabilityGrant::empty(), &ApproveAll, 0)
        .expect("minted");
    session.attach_lease(lease);
    session.close();
    assert!(session.lease().is_none(), "closing releases the lease");
}
