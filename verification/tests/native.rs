//! Native execution: what is spawned, and how it is watched.

use ferrous::capability::{CapabilityGrant, FilesystemAccess, ResourceLimits};
use ferrous::command::{Actor, CommandError, CommandRequest, ExecutionMode};
use ferrous::host_path::HostPath;
use ferrous::native::{HostFamily, NativeBackend, NativeError};
use ferrous::native_session::{
    conclude, deadline, watchdog_step, NativeStop, OutputMeter, WatchdogStep,
};
use ferrous::terminal_session::PathFacts;

fn host(path: &str) -> HostPath {
    HostPath::parse(path).expect("absolute")
}

fn directory(path: &str) -> PathFacts {
    PathFacts {
        actual: HostPath::parse(path),
        is_dir: true,
    }
}

fn workspace_grant() -> CapabilityGrant {
    CapabilityGrant::workspace("/w", FilesystemAccess::ReadWrite)
        .expect("absolute root")
        .allow_native_execution()
}

fn native_request(program: &str, args: &[&str], grant: CapabilityGrant) -> CommandRequest {
    CommandRequest::new(
        1,
        Actor::Agent,
        ExecutionMode::Native,
        program,
        args.iter().map(|arg| (*arg).to_owned()).collect(),
        host("/w"),
        grant,
    )
    .expect("valid request")
}

#[test]
fn spawn_rejects_non_native_requests() {
    let request = CommandRequest::new(
        1,
        Actor::Agent,
        ExecutionMode::Wasi,
        "echo",
        Vec::new(),
        host("/w"),
        workspace_grant(),
    )
    .expect("valid request");
    assert!(matches!(
        NativeBackend::new(HostFamily::Unix).spawn_with_env(&request, &directory("/w"), &|_: &str| None),
        Err(NativeError::WrongMode)
    ));
}

#[test]
fn spawn_requires_explicit_grant() {
    let grant = CapabilityGrant::workspace("/w", FilesystemAccess::Read).expect("absolute");
    let error = CommandRequest::new(
        1,
        Actor::Agent,
        ExecutionMode::Native,
        "echo",
        vec!["hi".to_owned()],
        host("/w"),
        grant,
    )
    .expect_err("native without a grant must be denied at request construction");
    assert!(error.message().contains("native execution"));
}

#[test]
fn spawn_denies_a_symlinked_cwd_that_escapes_the_grant() {
    let request = CommandRequest::new(
        1,
        Actor::Agent,
        ExecutionMode::Native,
        "echo",
        Vec::new(),
        host("/w/escape"),
        workspace_grant(),
    )
    .expect("lexically valid request");
    assert!(matches!(
        NativeBackend::new(HostFamily::Unix).spawn_with_env(&request, &directory("/outside"), &|_: &str| None),
        Err(NativeError::InvalidRequest(
            CommandError::WorkingDirectoryDenied(_)
        ))
    ));
}

#[test]
fn spawn_uses_direct_argv_and_ignores_shell_metacharacters() {
    let request = native_request("/bin/echo", &["$(touch /w/pwned)"], workspace_grant());
    let plan = NativeBackend::new(HostFamily::Unix)
        .spawn_with_env(&request, &directory("/w"), &|_: &str| None)
        .expect("plans");
    assert_eq!(plan.program, "/bin/echo");
    assert_eq!(plan.args, ["$(touch /w/pwned)"]);
    assert_eq!((plan.rows, plan.cols), (24, 80));
}

#[test]
fn only_allowlisted_environment_reaches_the_child() {
    let grant = workspace_grant()
        .allow_environment("ALLOWED_VAR")
        .expect("valid name");
    let request = native_request("env", &[], grant);
    let provider = |name: &str| match name {
        "ALLOWED_VAR" => Some("allowed-value".to_owned()),
        "LEAKY_VAR" => Some("leaky-value".to_owned()),
        _ => None,
    };
    let plan = NativeBackend::new(HostFamily::Unix)
        .spawn_with_env(&request, &directory("/w"), &provider)
        .expect("plans");
    assert_eq!(
        plan.env,
        vec![("ALLOWED_VAR".to_owned(), "allowed-value".to_owned())],
        "non-allowlisted env must never reach the child"
    );
}

#[test]
fn empty_grant_native_is_denied() {
    let request = CommandRequest::new(
        1,
        Actor::Agent,
        ExecutionMode::Native,
        "echo",
        Vec::new(),
        host("/tmp"),
        CapabilityGrant::empty(),
    );
    assert!(
        request.is_err(),
        "an empty grant must fail closed at request validation"
    );
}

#[test]
fn supported_on_host_matches_the_platform_adapter() {
    for (family, unix) in [(HostFamily::Unix, true), (HostFamily::Other, false)] {
        assert_eq!(
            NativeBackend::new(family).supported_on_host(),
            unix,
            "only unix has an adapter; everything else fails closed"
        );
    }
}

#[test]
fn unsupported_hosts_never_spawn() {
    let request = native_request("/bin/echo", &["hi"], workspace_grant());
    let outcome = NativeBackend::new(HostFamily::Other).spawn_with_env(
        &request,
        &directory("/w"),
        &|_: &str| None,
    );
    assert_eq!(outcome, Err(NativeError::UnsupportedOnHost));
}

#[test]
fn output_over_the_budget_kills_once() {
    let limits = ResourceLimits::new(4, 1).expect("valid limits");
    let mut meter = OutputMeter::new(&limits);
    let first = meter.accept(&b"abcd".to_vec(), false);
    assert!(first.emit && !first.kill);
    let second = meter.accept(&b"e".to_vec(), false);
    assert!(second.emit && second.kill);
    let third = meter.accept(&b"f".to_vec(), false);
    assert!(third.emit && !third.kill);
    let late = meter.accept(&b"g".to_vec(), true);
    assert!(!late.emit && !late.kill);
    assert_eq!(meter.into_output(), b"abcdef");
}

#[test]
fn output_over_the_budget_is_never_a_success() {
    let limits = ResourceLimits::new(4, 1).expect("valid limits");
    let metered = |output: &[u8]| {
        let mut meter = OutputMeter::new(&limits);
        let _ = meter.accept(&output.to_vec(), false);
        meter
    };
    for reason in [None, Some(NativeStop::Exited)] {
        let output = metered(b"abcd").conclude(reason, 3).expect("within budget");
        assert_eq!(output.stdout, b"abcd");
        assert_eq!(output.exit_code, 3);
        assert_eq!(
            metered(b"abcde").conclude(reason, 0),
            Err(NativeError::OutputLimit)
        );
    }
    assert_eq!(
        metered(b"abcde").conclude(Some(NativeStop::Cancelled), 0),
        Err(NativeError::Cancelled)
    );
    assert_eq!(
        metered(b"a").conclude(Some(NativeStop::OutputLimit), 0),
        Err(NativeError::OutputLimit)
    );
}

#[test]
fn the_watchdog_cancels_before_it_times_out() {
    let limits = ResourceLimits::new(4, 2).expect("valid limits");
    let end = deadline(500, &limits);
    assert_eq!(end, 2500);
    assert_eq!(watchdog_step(true, true, 9999, end), WatchdogStep::Leave);
    assert_eq!(
        watchdog_step(false, true, 9999, end),
        WatchdogStep::Kill(NativeStop::Cancelled)
    );
    assert_eq!(
        watchdog_step(false, false, 2500, end),
        WatchdogStep::Kill(NativeStop::TimedOut)
    );
    assert_eq!(watchdog_step(false, false, 2499, end), WatchdogStep::Wait);
}

#[test]
fn the_reason_for_a_kill_is_the_result() {
    assert_eq!(
        conclude(None, b"x".to_vec(), 3).expect("exited").exit_code,
        3
    );
    assert_eq!(
        conclude(Some(NativeStop::Cancelled), Vec::new(), 0),
        Err(NativeError::Cancelled)
    );
    assert_eq!(
        conclude(Some(NativeStop::TimedOut), Vec::new(), 0),
        Err(NativeError::Timeout)
    );
    assert_eq!(
        conclude(Some(NativeStop::OutputLimit), Vec::new(), 0),
        Err(NativeError::OutputLimit)
    );
}
