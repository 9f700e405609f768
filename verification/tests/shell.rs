//! What the shell renders, asks and answers.

use ferrous::capability::{CapabilityError, CapabilityGrant, FilesystemAccess};
use ferrous::cli::{Cli, Command, ShellArgs};
use ferrous::command::{Actor, CommandRequest, ExecutionMode, SessionEvent, Stream};
use ferrous::host_path::HostPath;
use ferrous::shell::{
    approves, json_record, line_action, prompt_text, prompt_verdict, render_event, reply,
    shell_session, LineAction, RenderSink, ShellOptions,
};
use ferrous::shell_executor::{EventSink, ExecuteError};

fn output(bytes: &[u8]) -> SessionEvent {
    SessionEvent::Output {
        stream: Stream::Stdout,
        bytes: bytes.to_vec(),
    }
}

#[test]
fn render_sink_emits_output_bytes() {
    let mut sink = RenderSink {
        written: Vec::new(),
        json: false,
        held: false,
    };
    sink.emit(output(b"hi\n")).expect("emits");
    assert_eq!(sink.written, b"hi\n");
}

#[test]
fn json_sink_escapes_output_bytes() {
    let mut sink = RenderSink {
        written: Vec::new(),
        json: true,
        held: false,
    };
    sink.emit(output(b"a\"b\\c")).expect("emits");
    let text = String::from_utf8(sink.written).expect("utf8");
    assert!(text.contains("\\\""));
    assert!(text.contains("\\\\"));
    assert_eq!(
        text,
        "{\"event\":\"output\",\"stream\":\"stdout\",\"bytes\":\"a\\\"b\\\\c\"}\n"
    );
}

#[test]
fn json_output_shows_broken_bytes_as_replacement_characters() {
    let rendered = render_event(&output(&[b'a', 0xff, b'b']), true, false).0;
    let text = String::from_utf8(rendered).expect("utf8");
    assert!(text.contains("a\u{fffd}b"));
    let plain = render_event(&output(&[b'a', 0xff, b'b']), false, false).0;
    assert_eq!(plain, [b'a', 0xff, b'b']);
}

#[test]
fn every_event_has_its_record_and_its_text() {
    let cases: [(SessionEvent, &str, &str); 7] = [
        (SessionEvent::Started, "{\"event\":\"started\"}", ""),
        (
            SessionEvent::Exited { code: Some(-7) },
            "{\"event\":\"exited\",\"code\":-7}",
            "\n[exit Some(-7)]\n",
        ),
        (
            SessionEvent::Exited { code: None },
            "{\"event\":\"exited\",\"code\":null}",
            "\n[exit None]\n",
        ),
        (
            SessionEvent::Cancelled,
            "{\"event\":\"cancelled\"}",
            "\n[cancelled]\n",
        ),
        (
            SessionEvent::Denied,
            "{\"event\":\"denied\"}",
            "\n[denied by policy]\n",
        ),
        (
            SessionEvent::Unsupported,
            "{\"event\":\"unsupported\"}",
            "\n[unsupported on this host]\n",
        ),
        (
            SessionEvent::PendingApproval { request_id: 3 },
            "{\"event\":\"pending-approval\"}",
            "",
        ),
    ];
    for (event, record, text) in &cases {
        assert_eq!(json_record(event, ""), *record);
        assert!(serde_json::from_str::<serde_json::Value>(record).is_ok());
        assert_eq!(render_event(event, false, false).0, text.as_bytes());
    }
    let error = SessionEvent::Output {
        stream: Stream::Stderr,
        bytes: Vec::new(),
    };
    assert_eq!(
        json_record(&error, "x"),
        "{\"event\":\"output\",\"stream\":\"stderr\",\"bytes\":\"x\"}"
    );
    assert_eq!(
        render_event(&SessionEvent::Exited { code: Some(i32::MIN) }, false, false).0,
        b"\n[exit Some(-2147483648)]\n"
    );
}

#[test]
fn records_are_one_line_of_json() {
    let bytes = b"a\tb\r\n\x1b[31m\"\\\x00\x7f\xc2\x9b\xc3\xa9";
    let rendered = String::from_utf8(render_event(&output(bytes), true, false).0).expect("utf8");
    assert_eq!(
        rendered,
        "{\"event\":\"output\",\"stream\":\"stdout\",\"bytes\":\"a\\tb\\r\\n\\u001b[31m\\\"\\\\\\u0000\\u007f\\u009b\u{e9}\"}\n"
    );
    let value: serde_json::Value = serde_json::from_str(&rendered).expect("is JSON");
    let shown = value.get("bytes").and_then(|bytes| bytes.as_str());
    assert_eq!(shown.map(str::as_bytes), Some(&bytes[..]));
    assert_eq!(
        render_event(&SessionEvent::Exited { code: Some(0) }, true, false).0,
        b"{\"event\":\"exited\",\"code\":0}\n"
    );
}

#[test]
fn shown_output_cannot_control_the_terminal() {
    let plain = |bytes: &[u8]| render_event(&output(bytes), false, false).0;
    assert_eq!(plain(b"a\tb\r\n"), b"a\tb\r\n");
    assert_eq!(plain(b"\x1b[31mred\x07\x7f"), b"?[31mred??");
    assert_eq!(plain("\u{9b}6n \u{e9}\u{a9}\u{db}".as_bytes()), "??6n \u{e9}\u{a9}\u{db}".as_bytes());
}

fn shown_in_pieces(pieces: &[&[u8]]) -> RenderSink {
    let mut sink = RenderSink {
        written: Vec::new(),
        json: false,
        held: false,
    };
    for piece in pieces {
        sink.emit(output(piece)).expect("emits");
    }
    sink
}

#[test]
fn a_character_that_is_cut_in_two_is_shown_whole() {
    let sink = shown_in_pieces(&[b"x\xc2"]);
    assert_eq!(sink.written, b"x");
    assert!(sink.held);
    let sink = shown_in_pieces(&[b"x\xc2", b"\xa9y"]);
    assert_eq!(sink.written, "x\u{a9}y".as_bytes());
    assert!(!sink.held);
    // A control character that is cut in two is not shown.
    let sink = shown_in_pieces(&[b"x\xc2", b"", b"\x9by"]);
    assert_eq!(sink.written, b"x??y");
    let sink = shown_in_pieces(&[b"\xc2\xc2", b"\x9b"]);
    assert_eq!(sink.written, b"\xc2??");
    // What is held back comes before what follows the output.
    let mut sink = shown_in_pieces(&[b"x\xc2"]);
    sink.emit(SessionEvent::Started).expect("emits");
    assert_eq!(sink.written, b"x");
    sink.emit(SessionEvent::Exited { code: Some(0) }).expect("emits");
    assert_eq!(sink.written, b"x\xc2\n[exit Some(0)]\n");
    assert!(!sink.held);
}

#[test]
fn output_may_be_cut_anywhere() {
    let bytes = "a\u{9b}b\u{a9}\u{e9}\u{7f}c".as_bytes();
    let whole = shown_in_pieces(&[bytes]);
    for cut in 0..=bytes.len() {
        let pieces = shown_in_pieces(&[&bytes[..cut], &bytes[cut..]]);
        assert_eq!(pieces, whole);
    }
}

#[test]
fn only_yes_approves() {
    for answer in ["y", "yes", " Y\n", "YES\r\n", "\tyEs "] {
        assert!(approves(answer));
    }
    for answer in ["", "n", "no", "yep", "y e s", "\n"] {
        assert!(!approves(answer));
    }
    assert_eq!(prompt_verdict(false, Some("yes\n")), Ok(()));
    assert_eq!(
        prompt_verdict(false, Some("no\n")),
        Err(ExecuteError::HumanDenied)
    );
    assert_eq!(prompt_verdict(false, None), Err(ExecuteError::HumanDenied));
    assert_eq!(prompt_verdict(true, None), Ok(()));
}

#[test]
fn the_prompt_names_everything_that_would_run() {
    let grant = CapabilityGrant::workspace("/w", FilesystemAccess::Read)
        .expect("absolute workspace")
        .allow_native_execution();
    let request = CommandRequest::new(
        1,
        Actor::Subagent,
        ExecutionMode::Native,
        "npm",
        vec!["run".to_owned(), "test".to_owned()],
        HostPath::parse("/w/sub").expect("absolute"),
        grant,
    )
    .expect("request");
    assert_eq!(
        prompt_text(&request),
        "\n\u{26a0}  a subagent wants to run `npm` natively (direct argv, no shell).\n    cwd: /w/sub\n    args: run test\nApprove? [y/N] "
    );
}

#[test]
fn lines_are_orders_or_commands() {
    assert_eq!(line_action("   "), LineAction::Skip);
    assert_eq!(line_action(" exit "), LineAction::Quit);
    assert_eq!(line_action("quit"), LineAction::Quit);
    assert_eq!(line_action("version"), LineAction::Version);
    assert_eq!(line_action("?"), LineAction::Help);
    assert_eq!(
        line_action("  echo exit  "),
        LineAction::Run("echo exit".to_owned())
    );
    assert_eq!(reply(&LineAction::Version), "ferrous 0.1.0\n");
    assert_eq!(reply(&LineAction::Skip), "");
}

#[test]
fn the_shell_session_grants_its_workspace_and_four_variables() {
    let spec = shell_session("/w").expect("absolute workspace");
    assert_eq!(spec.id, 1);
    assert_eq!(spec.actor, Actor::Human);
    for name in ["PATH", "HOME", "TERM", "USER"] {
        assert!(spec.base_grant.allows_environment(name));
    }
    assert_eq!(spec.base_grant.environment_names().len(), 4);
    assert!(!spec.base_grant.allows_native_execution());
    assert_eq!(spec.limits.max_output_bytes(), 4 * 1024 * 1024);
    assert_eq!(spec.limits.timeout_seconds(), 120);
    assert_eq!(shell_session("w"), Err(CapabilityError::RelativeRoot));
}

#[test]
fn arguments_become_shell_options() {
    let cli = Cli {
        command: Command::Shell(ShellArgs {
            json: true,
            auto_approve_native: false,
        }),
    };
    assert_eq!(
        cli.shell_options(),
        ShellOptions {
            json: true,
            auto_approve_native: false,
        }
    );
}
