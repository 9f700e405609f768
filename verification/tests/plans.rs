//! Plans: session paths, digests and the typed plan.

use ferrous::shell_ir::{
    Builtin, CommandDigest, CommandSpec, EffectSummary, NativeShellKind, Program, Redirect,
    SessionPath, ShellIrError, ShellProgram, Statement,
};
use sha2::{Digest, Sha256};

fn spec(program: Program, args: &[&str]) -> CommandSpec {
    CommandSpec {
        program,
        args: args.iter().map(|value| (*value).to_owned()).collect(),
        redirects: Vec::new(),
        cwd: SessionPath::new(".").expect("valid cwd"),
    }
}

fn plan(statements: Vec<Statement>) -> ShellProgram {
    ShellProgram { statements }
}

#[test]
fn session_path_rejects_absolute_parent_and_nul() {
    assert!(SessionPath::new("src/main.rs").is_ok());
    assert!(SessionPath::new(".").is_ok());
    assert!(SessionPath::new("/etc/passwd").is_err());
    assert!(SessionPath::new("../secrets").is_err());
    assert!(SessionPath::new("a/../b").is_err());
    assert!(SessionPath::new("").is_err());
    assert!(SessionPath::new("a\0b").is_err());
}

#[test]
fn session_path_errors_name_their_reason() {
    assert_eq!(SessionPath::new(""), Err(ShellIrError::EmptyPath));
    assert_eq!(SessionPath::new("a\0b"), Err(ShellIrError::NulByte));
    assert_eq!(SessionPath::new("/a"), Err(ShellIrError::AbsolutePath));
    assert_eq!(SessionPath::new("\\a"), Err(ShellIrError::AbsolutePath));
    assert_eq!(SessionPath::new("a\\..\\b"), Err(ShellIrError::ParentComponent));
    assert_eq!(SessionPath::new("a/..b").expect("valid").as_str(), "a/..b");
    assert_eq!(
        SessionPath::new("a/b").expect("valid").display_path(),
        "a/b"
    );
    let messages = [
        (ShellIrError::EmptyPath, "session path cannot be empty"),
        (
            ShellIrError::NulByte,
            "session path cannot contain a NUL byte",
        ),
        (
            ShellIrError::AbsolutePath,
            "session path must be relative to the session root",
        ),
        (
            ShellIrError::ParentComponent,
            "session path cannot contain a parent component",
        ),
    ];
    for (error, message) in messages {
        assert_eq!(error.message(), message);
    }
}

#[test]
fn command_digest_changes_when_argv_changes() {
    let base = plan(vec![Statement::Command(spec(
        Program::External("npm".to_owned()),
        &["install"],
    ))]);
    let changed = plan(vec![Statement::Command(spec(
        Program::External("npm".to_owned()),
        &["install", "--unsafe-perm"],
    ))]);
    assert_ne!(CommandDigest::of(&base), CommandDigest::of(&changed));
}

#[test]
fn command_digest_changes_when_effect_scope_changes() {
    let base = plan(vec![Statement::Command(spec(
        Program::External("npm".to_owned()),
        &["install"],
    ))]);
    let mut redirected = base.clone();
    let Statement::Command(spec) = &mut redirected.statements[0] else {
        panic!("expected command statement");
    };
    spec.redirects.push(Redirect::OutputTruncate(
        SessionPath::new("out.log").expect("valid path"),
    ));
    assert_ne!(
        CommandDigest::of(&base),
        CommandDigest::of(&redirected),
        "a redirect target must change the action digest"
    );
}

#[test]
fn digest_ignores_host_specific_formatting() {
    let plan = plan(vec![
        Statement::Command(spec(Program::Builtin(Builtin::Pwd), &[])),
        Statement::Command(spec(Program::External("git".to_owned()), &["status"])),
    ]);
    let first = CommandDigest::of(&plan);
    let second = CommandDigest::of(&plan);
    assert_eq!(first, second);
    assert_eq!(first.hex().len(), 64);
}

#[test]
fn command_digest_of_executed_plan_is_stable() {
    let plan = plan(vec![Statement::Command(spec(
        Program::External("npm".to_owned()),
        &["install"],
    ))]);
    let first = CommandDigest::of(&plan);
    let second = CommandDigest::of(&plan);
    assert_eq!(first, second);
}

#[test]
fn native_shell_is_a_distinct_high_risk_program_kind() {
    let bash = Program::NativeShell(NativeShellKind::Bash);
    let external_bash = Program::External("bash".to_owned());
    assert_ne!(bash, external_bash);
    let plan_a = plan(vec![Statement::Command(spec(bash, &["-c", "echo x"]))]);
    let plan_b = plan(vec![Statement::Command(spec(
        external_bash,
        &["-c", "echo x"],
    ))]);
    assert_ne!(
        CommandDigest::of(&plan_a),
        CommandDigest::of(&plan_b),
        "native-shell escape must hash differently from a plain external program"
    );
}

#[test]
fn effect_summary_is_default_deny() {
    let summary = EffectSummary::default();
    assert!(summary.reads.is_empty());
    assert!(summary.writes.is_empty());
    assert!(summary.deletes.is_empty());
    assert!(summary.network.is_empty());
    assert!(summary.secrets.is_empty());
    assert!(summary.scripts.is_empty());
}

#[test]
fn digests_are_sha256_of_the_canonical_bytes() {
    let plan = plan(vec![Statement::Command(spec(
        Program::External("git".to_owned()),
        &["status"],
    ))]);
    let expected = Sha256::digest(plan.canonical_bytes());
    let digest = CommandDigest::of(&plan);
    assert_eq!(&digest.as_bytes()[..], expected.as_slice());
    let hex: String = expected.iter().map(|byte| format!("{byte:02x}")).collect();
    assert_eq!(digest.hex(), hex);
}

#[test]
fn canonical_bytes_tell_argv_splits_apart() {
    let joined = plan(vec![Statement::Command(spec(
        Program::External("echo".to_owned()),
        &["a b"],
    ))]);
    let split = plan(vec![Statement::Command(spec(
        Program::External("echo".to_owned()),
        &["a", "b"],
    ))]);
    assert_ne!(joined.canonical_bytes(), split.canonical_bytes());
    let nested = plan(vec![Statement::Sequence(joined.statements)]);
    let flat = plan(vec![Statement::Command(spec(
        Program::External("echo".to_owned()),
        &["a b"],
    ))]);
    assert_ne!(nested.canonical_bytes(), flat.canonical_bytes());
}
