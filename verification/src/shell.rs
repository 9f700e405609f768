//! The `ferrous shell` REPL: a persistent terminal session for humans.
//!
//! Every line is parsed into the typed plan, preflighted against the session's
//! capability grant, and executed by the shared executor. Native external
//! commands require human approval through an interactive prompt; approval
//! never grants ambient host authority and is never echoed back into the
//! pipeline.

use vstd::prelude::*;
use vstd::string::*;
use vstd::utf8::*;
use crate::capability::{
    CapabilityError,
    CapabilityGrant,
    FilesystemAccess,
    GrantModel,
    ResourceLimits,
    TreeModel,
};
use crate::command::{Actor, CommandRequest, EventModel, RequestModel, SessionEvent, Stream};
use crate::host_path;
use crate::shared::VERSION;
use crate::shell_executor::{EventSink, ExecuteError, PlanResult, PlanStatus};
use crate::shell_ir;
use crate::shell_ir::SessionPath;
use crate::shell_parse;
use crate::shell_parse::ParseError;
use crate::terminal_session::TerminalSessionSpec;
use crate::text;
use crate::text_case;

verus! {

/// Options for the interactive shell.
#[derive(Debug, Clone, Copy, PartialEq, Eq)]
pub struct ShellOptions {
    /// Emit structured JSON records instead of rendered text.
    pub json: bool,
    /// Auto-approve native commands within the workspace.
    pub auto_approve_native: bool,
}

impl Default for ShellOptions {
    fn default() -> (r: Self)
        ensures
            r == (ShellOptions { json: false, auto_approve_native: false }),
    {
        ShellOptions { json: false, auto_approve_native: false }
    }
}

/// How the prompt names the principal behind a command.
pub open spec fn actor_words(actor: Actor) -> Seq<char> {
    match actor {
        Actor::Human => "you"@,
        Actor::Agent => "the agent"@,
        Actor::Subagent => "a subagent"@,
        Actor::Skill => "a skill"@,
    }
}

/// Texts with single spaces between them.
pub open spec fn spaced(list: Seq<Seq<char>>) -> Seq<char>
    decreases list.len(),
{
    if list.len() == 0 {
        Seq::empty()
    } else if list.len() == 1 {
        list[0]
    } else {
        spaced(list.drop_last()) + " "@ + list.last()
    }
}

/// Texts with single spaces between them.
fn join_spaced(list: &Vec<String>) -> (r: String)
    ensures
        r@ == spaced(text::texts(list@)),
{
    let mut r = String::new();
    let ghost all = text::texts(list@);
    let mut i: usize = 0;
    assert(r@ =~= spaced(all.take(0)));
    while i < list.len()
        invariant
            i <= list.len(),
            all == text::texts(list@),
            r@ == spaced(all.take(i as int)),
        decreases list.len() - i,
    {
        let ghost before = r@;
        if i > 0 {
            r.append(" ");
        }
        r.append(list[i].as_str());
        proof {
            assert(all.take(i + 1).drop_last() =~= all.take(i as int));
            assert(all.take(i + 1).last() == list@[i as int]@);
            if i == 0 {
                assert(r@ =~= all.take(1)[0]);
            }
        }
        i = i + 1;
    }
    assert(all.take(i as int) =~= all);
    r
}

/// What a human is asked before a command runs natively.
pub open spec fn prompt_of(request: RequestModel) -> Seq<char> {
    "\n\u{26a0}  "@ + actor_words(request.actor) + " wants to run `"@ + request.program
        + "` natively (direct argv, no shell).\n    cwd: "@ + host_path::path_text(request.cwd)
        + "\n    args: "@ + spaced(request.args) + "\nApprove? [y/N] "@
}

/// What a human is asked before a command runs natively.
pub fn prompt_text(request: &CommandRequest) -> (r: String)
    ensures
        r@ == prompt_of(request@),
{
    let mut r = "\n\u{26a0}  ".to_owned();
    r.append(
        match request.actor {
            Actor::Human => "you",
            Actor::Agent => "the agent",
            Actor::Subagent => "a subagent",
            Actor::Skill => "a skill",
        },
    );
    r.append(" wants to run `");
    r.append(request.program.as_str());
    r.append("` natively (direct argv, no shell).\n    cwd: ");
    let cwd = request.cwd.to_text();
    r.append(cwd.as_str());
    r.append("\n    args: ");
    let args = join_spaced(&request.args);
    r.append(args.as_str());
    r.append("\nApprove? [y/N] ");
    r
}

/// Whether an answer approves: `y` or `yes`, whatever its case and the white
/// space around it.
pub open spec fn is_yes(answer: Seq<char>) -> bool {
    let word = text_case::ascii_lower(text::trimmed(answer));
    word == "y"@ || word == "yes"@
}

/// Whether an answer approves.
pub fn approves(answer: &str) -> (r: bool)
    ensures
        r == is_yes(answer@),
{
    let trimmed = text::trim_text(answer);
    let word = text_case::lower_ascii(trimmed.as_str());
    text::same_text(word.as_str(), "y") || text::same_text(word.as_str(), "yes")
}

/// What the prompt authority says of a native command: with auto-approval it
/// is allowed, and else only where the human's answer approves. No answer is
/// no approval.
pub fn prompt_verdict(auto_approve: bool, answer: Option<&str>) -> (r: Result<(), ExecuteError>)
    ensures
        if auto_approve || (answer is Some && is_yes(answer->0@)) {
            r is Ok
        } else {
            r == Err::<(), ExecuteError>(ExecuteError::HumanDenied)
        },
{
    if auto_approve {
        return Ok(());
    }
    match answer {
        Some(answer) => if approves(answer) {
            Ok(())
        } else {
            Err(ExecuteError::HumanDenied)
        },
        None => Err(ExecuteError::HumanDenied),
    }
}

/// The text that bytes show, with U+FFFD where they are not UTF-8.
pub uninterp spec fn lossy_text(bytes: Seq<u8>) -> Seq<char>;

/// `String::from_utf8_lossy`: the text that bytes show, which depends on the
/// bytes alone. Bytes that are valid UTF-8 show the text they encode.
#[verifier::external_body]
pub(crate) fn from_utf8_lossy(bytes: &Vec<u8>) -> (r: String)
    ensures
        r@ == lossy_text(bytes@),
        valid_utf8(bytes@) ==> r@ == decode_utf8(bytes@),
{
    String::from_utf8_lossy(bytes).into_owned()
}

/// Whether a character controls a terminal, or cannot stand in a JSON string.
pub open spec fn is_control(c: char) -> bool {
    (c as int) < 0x20 || 0x7f <= (c as int) <= 0x9f
}

/// How a character is written inside a JSON string.
pub open spec fn escape_of(c: char) -> Seq<char> {
    if c == '\\' || c == '"' {
        seq!['\\', c]
    } else if c == '\n' {
        seq!['\\', 'n']
    } else if c == '\r' {
        seq!['\\', 'r']
    } else if c == '\t' {
        seq!['\\', 't']
    } else if is_control(c) {
        seq![
            '\\',
            'u',
            '0',
            '0',
            shell_ir::hex_digit(c as int / 16),
            shell_ir::hex_digit(c as int % 16),
        ]
    } else {
        seq![c]
    }
}

/// A text as it is written inside a JSON string.
pub open spec fn escaped(s: Seq<char>) -> Seq<char>
    decreases s.len(),
{
    if s.len() == 0 {
        Seq::empty()
    } else {
        escaped(s.drop_last()) + escape_of(s.last())
    }
}

/// Write a character as it is written inside a JSON string.
fn push_escaped(out: &mut String, c: char)
    ensures
        final(out)@ == old(out)@ + escape_of(c),
{
    let ghost before = out@;
    if c == '\\' || c == '"' {
        out.push('\\');
        out.push(c);
    } else if c == '\n' {
        out.push('\\');
        out.push('n');
    } else if c == '\r' {
        out.push('\\');
        out.push('r');
    } else if c == '\t' {
        out.push('\\');
        out.push('t');
    } else {
        let number = c as u32;
        if number < 0x20 || (0x7f <= number && number <= 0x9f) {
            let byte = number as u8;
            out.push('\\');
            out.push('u');
            out.push('0');
            out.push('0');
            out.push(shell_ir::hex_char(byte / 16));
            out.push(shell_ir::hex_char(byte % 16));
        } else {
            out.push(c);
        }
    }
    assert(out@ =~= before + escape_of(c));
}

/// A text as it is written inside a JSON string.
fn escape(s: &str) -> (r: String)
    ensures
        r@ == escaped(s@),
{
    let chars = text::chars_of(s);
    let mut r = String::new();
    let mut i: usize = 0;
    assert(chars@.take(0) =~= Seq::empty());
    assert(r@ =~= Seq::empty());
    while i < chars.len()
        invariant
            i <= chars.len(),
            chars@ == s@,
            r@ == escaped(chars@.take(i as int)),
        decreases chars.len() - i,
    {
        let c = chars[i];
        assert(chars@.take(i + 1).drop_last() =~= chars@.take(i as int));
        assert(chars@.take(i + 1).last() == c);
        push_escaped(&mut r, c);
        i = i + 1;
    }
    assert(chars@.take(i as int) =~= chars@);
    r
}

proof fn lemma_escape_has_no_control_characters(c: char)
    ensures
        forall|i: int| 0 <= i < escape_of(c).len() ==> !is_control(#[trigger] escape_of(c)[i]),
{
    let written = escape_of(c);
    let high = shell_ir::hex_digit(c as int / 16);
    let low = shell_ir::hex_digit(c as int % 16);
    assert forall|i: int| 0 <= i < written.len() implies !is_control(#[trigger] written[i]) by {
        if is_control(c) && c != '\n' && c != '\r' && c != '\t' {
            assert(!is_control(high) && !is_control(low));
            assert(i == 0 || i == 1 || i == 2 || i == 3 || i == 4 || i == 5);
        } else if written.len() == 2 {
            assert(i == 0 || i == 1);
        } else {
            assert(i == 0);
        }
    }
}

/// What is escaped holds no control character, so that a record is one line,
/// and JSON.
pub proof fn escaped_text_has_no_control_characters(s: Seq<char>)
    ensures
        forall|i: int| 0 <= i < escaped(s).len() ==> !is_control(#[trigger] escaped(s)[i]),
    decreases s.len(),
{
    if s.len() > 0 {
        let rest = escaped(s.drop_last());
        let last = escape_of(s.last());
        escaped_text_has_no_control_characters(s.drop_last());
        lemma_escape_has_no_control_characters(s.last());
        assert forall|i: int| 0 <= i < escaped(s).len() implies !is_control(
            #[trigger] escaped(s)[i],
        ) by {
            if i < rest.len() {
                assert(escaped(s)[i] == rest[i]);
            } else {
                assert(escaped(s)[i] == last[i - rest.len()]);
            }
        }
    }
}

/// A whole number written out, with its sign where it is negative.
pub open spec fn signed_decimal(n: int) -> Seq<char> {
    if n < 0 {
        seq!['-'] + text::decimal((-n) as nat)
    } else {
        text::decimal(n as nat)
    }
}

/// An exit code in JSON: a number, or `null` where there is none.
pub open spec fn json_code(code: Option<i32>) -> Seq<char> {
    match code {
        Some(code) => signed_decimal(code as int),
        None => "null"@,
    }
}

/// An exit code as it is shown.
pub open spec fn code_text(code: Option<i32>) -> Seq<char> {
    match code {
        Some(code) => "Some("@ + signed_decimal(code as int) + ")"@,
        None => "None"@,
    }
}

/// Write a whole number out.
fn push_signed(out: &mut String, n: i32)
    ensures
        final(out)@ == old(out)@ + signed_decimal(n as int),
{
    let ghost before = out@;
    if n < 0 {
        out.push('-');
        text::push_decimal(out, (-(n as i64)) as u64);
    } else {
        text::push_decimal(out, n as u64);
    }
    assert(out@ =~= before + signed_decimal(n as int));
}

/// An exit code in JSON.
fn write_code(code: Option<i32>) -> (r: String)
    ensures
        r@ == json_code(code),
{
    match code {
        Some(code) => {
            let mut r = String::new();
            push_signed(&mut r, code);
            assert(r@ =~= signed_decimal(code as int));
            r
        },
        None => "null".to_owned(),
    }
}

/// An exit code as it is shown.
fn show_code(code: Option<i32>) -> (r: String)
    ensures
        r@ == code_text(code),
{
    match code {
        Some(code) => {
            let mut r = "Some(".to_owned();
            push_signed(&mut r, code);
            r.append(")");
            r
        },
        None => "None".to_owned(),
    }
}

/// The JSON record of an event, given the text that its output shows.
pub open spec fn record_of(event: EventModel, shown: Seq<char>) -> Seq<char> {
    match event {
        EventModel::Output(stream, _) => "{\"event\":\"output\",\"stream\":"@ + if stream
            == Stream::Stdout {
            "\"stdout\""@
        } else {
            "\"stderr\""@
        } + ",\"bytes\":\""@ + escaped(shown) + "\"}"@,
        EventModel::Exited(code) => "{\"event\":\"exited\",\"code\":"@ + json_code(code) + "}"@,
        EventModel::Started => "{\"event\":\"started\"}"@,
        EventModel::Cancelled => "{\"event\":\"cancelled\"}"@,
        EventModel::Denied => "{\"event\":\"denied\"}"@,
        EventModel::Unsupported => "{\"event\":\"unsupported\"}"@,
        EventModel::PendingApproval(_) => "{\"event\":\"pending-approval\"}"@,
    }
}

/// The JSON record of an event, given the text that its output shows.
pub fn json_record(event: &SessionEvent, shown: &str) -> (r: String)
    ensures
        r@ == record_of(event@, shown@),
{
    match event {
        SessionEvent::Output { stream, .. } => {
            let mut r = "{\"event\":\"output\",\"stream\":".to_owned();
            r.append(
                if *stream == Stream::Stdout {
                    "\"stdout\""
                } else {
                    "\"stderr\""
                },
            );
            r.append(",\"bytes\":\"");
            let quoted = escape(shown);
            r.append(quoted.as_str());
            r.append("\"}");
            r
        },
        SessionEvent::Exited { code } => {
            let mut r = "{\"event\":\"exited\",\"code\":".to_owned();
            let code = write_code(*code);
            r.append(code.as_str());
            r.append("}");
            r
        },
        SessionEvent::Started => "{\"event\":\"started\"}".to_owned(),
        SessionEvent::Cancelled => "{\"event\":\"cancelled\"}".to_owned(),
        SessionEvent::Denied => "{\"event\":\"denied\"}".to_owned(),
        SessionEvent::Unsupported => "{\"event\":\"unsupported\"}".to_owned(),
        SessionEvent::PendingApproval { .. } => "{\"event\":\"pending-approval\"}".to_owned(),
    }
}

/// Whether a byte controls a terminal by itself: a control character other than
/// a tab or the end of a line.
pub open spec fn is_control_byte(byte: u8) -> bool {
    (byte < 0x20 && byte != 9 && byte != 10 && byte != 13) || byte == 0x7f
}

/// Whether a byte makes a control character of UTF-8 behind a byte of 0xC2.
pub open spec fn is_control_tail(byte: u8) -> bool {
    0x80 <= byte <= 0x9f
}

/// Whether a byte of some output is part of a control character other than a tab
/// or the end of a line.
pub open spec fn is_unsafe(bytes: Seq<u8>, i: int) -> bool {
    ||| is_control_byte(bytes[i])
    ||| bytes[i] == 0xC2 && i + 1 < bytes.len() && is_control_tail(bytes[i + 1])
    ||| is_control_tail(bytes[i]) && i > 0 && bytes[i - 1] == 0xC2
}

/// The byte that is held back, if one is.
pub open spec fn held_bytes(held: bool) -> Seq<u8> {
    if held {
        seq![0xC2u8]
    } else {
        Seq::empty()
    }
}

/// Whether the last byte of some output is held back: what it is part of only
/// the next output can tell.
pub open spec fn ends_open(bytes: Seq<u8>) -> bool {
    bytes.len() > 0 && bytes.last() == 0xC2
}

/// Output as it is shown on a terminal, but for a last byte that is held back:
/// a question mark stands for each byte of a control character, and all else is
/// as it came.
pub open spec fn safe_bytes(bytes: Seq<u8>) -> Seq<u8> {
    Seq::new(
        if ends_open(bytes) {
            (bytes.len() - 1) as nat
        } else {
            bytes.len()
        },
        |i: int|
            if is_unsafe(bytes, i) {
                0x3fu8
            } else {
                bytes[i]
            },
    )
}

/// Whether bytes control a terminal by tabs and the ends of lines only.
pub open spec fn is_terminal_safe(bytes: Seq<u8>) -> bool {
    forall|i: int|
        0 <= i < bytes.len() ==> !is_control_byte(#[trigger] bytes[i]) && !(bytes[i] == 0xC2 && i
            + 1 < bytes.len() && is_control_tail(bytes[i + 1]))
}

/// Whether a terminal that shows some bytes is controlled neither by them nor by
/// what the next output makes of them.
pub open spec fn is_shown_safely(shown: Seq<u8>, held: bool) -> bool {
    is_terminal_safe(shown) && (held || !ends_open(shown))
}

/// What commands print cannot control the terminal it is shown on, however it
/// is cut into pieces. Output that is safe is shown as it came.
pub proof fn shown_output_is_terminal_safe(shown: Seq<u8>, held: bool, bytes: Seq<u8>)
    requires
        is_shown_safely(shown, held),
    ensures
        is_shown_safely(
            shown + safe_bytes(held_bytes(held) + bytes),
            ends_open(held_bytes(held) + bytes),
        ),
        is_terminal_safe(held_bytes(held) + bytes) ==> safe_bytes(held_bytes(held) + bytes)
            + held_bytes(ends_open(held_bytes(held) + bytes)) == held_bytes(held) + bytes,
{
    let whole = held_bytes(held) + bytes;
    let safe = safe_bytes(whole);
    assert forall|i: int| 0 <= i < safe.len() implies !is_control_byte(#[trigger] safe[i]) && !(
    safe[i] == 0xC2 && i + 1 < safe.len() && is_control_tail(safe[i + 1])) by {
        if safe[i] == 0xC2 && i + 1 < safe.len() && is_control_tail(safe[i + 1]) {
            assert(whole[i] == 0xC2);
            assert(whole[i + 1] == safe[i + 1]);
        }
    }
    if is_terminal_safe(whole) {
        assert forall|i: int| 0 <= i < safe.len() implies safe[i] == whole[i] by {
            if i > 0 {
                assert(!(whole[i - 1] == 0xC2 && is_control_tail(whole[i])));
            }
        }
        assert(safe + held_bytes(ends_open(whole)) =~= whole);
    }
    let all = shown + safe;
    assert forall|i: int| 0 <= i < all.len() implies !is_control_byte(#[trigger] all[i]) && !(all[i]
        == 0xC2 && i + 1 < all.len() && is_control_tail(all[i + 1])) by {
        if i < shown.len() {
            assert(all[i] == shown[i]);
            if i + 1 == shown.len() && safe.len() > 0 {
                assert(all[i + 1] == safe[0]);
                assert(held ==> whole[0] == 0xC2);
            }
        } else {
            assert(all[i] == safe[i - shown.len()]);
        }
    }
    if !ends_open(whole) && safe.len() > 0 {
        assert(all.last() == safe.last());
    } else if safe.len() == 0 {
        assert(all =~= shown);
    }
}

/// How output is cut into pieces does not matter: two pieces that follow one
/// another are shown as both in one piece are.
pub proof fn output_may_come_in_pieces(held: bool, first: Seq<u8>, second: Seq<u8>)
    ensures
        ({
            let start = held_bytes(held) + first;
            let rest = held_bytes(ends_open(start)) + second;
            let whole = held_bytes(held) + (first + second);
            &&& safe_bytes(start) + safe_bytes(rest) == safe_bytes(whole)
            &&& ends_open(rest) == ends_open(whole)
        }),
{
    let start = held_bytes(held) + first;
    let rest = held_bytes(ends_open(start)) + second;
    let whole = held_bytes(held) + (first + second);
    let n = safe_bytes(start).len();
    assert(start.take(n as int) + rest =~= whole);
    if rest.len() > 0 {
        assert(rest.last() == whole.last());
    } else {
        assert(start =~= whole);
    }
    assert forall|i: int| 0 <= i < safe_bytes(whole).len() implies #[trigger] safe_bytes(whole)[i]
        == (safe_bytes(start) + safe_bytes(rest))[i] by {
        if i < n {
            assert(whole[i] == start[i]);
            if i + 1 < start.len() {
                assert(whole[i + 1] == (first + second)[i + 1 - held_bytes(held).len()]);
                assert(whole[i + 1] == start[i + 1]);
            }
            if i > 0 {
                assert(whole[i - 1] == start[i - 1]);
            }
        } else {
            assert(whole[i] == rest[i - n]);
            if i + 1 < whole.len() {
                assert(whole[i + 1] == rest[i + 1 - n]);
            }
            if i > n {
                assert(whole[i - 1] == rest[i - 1 - n]);
            } else if i > 0 {
                assert(whole[i - 1] == start[i - 1]);
            }
        }
    }
    assert(safe_bytes(start) + safe_bytes(rest) =~= safe_bytes(whole));
}

/// Output as it is shown on a terminal behind a byte that may be held back, and
/// whether its last byte is held back in turn.
fn make_safe(bytes: &Vec<u8>, held: bool) -> (r: (Vec<u8>, bool))
    ensures
        r.0@ == safe_bytes(held_bytes(held) + bytes@),
        r.1 == ends_open(held_bytes(held) + bytes@),
{
    let mut whole: Vec<u8> = Vec::new();
    if held {
        whole.push(0xC2);
    }
    whole.extend_from_slice(bytes.as_slice());
    assert(whole@ =~= held_bytes(held) + bytes@);
    let ghost wanted = safe_bytes(whole@);
    let open = whole.len() > 0 && whole[whole.len() - 1] == 0xC2;
    let end: usize = if open {
        whole.len() - 1
    } else {
        whole.len()
    };
    let mut r: Vec<u8> = Vec::new();
    let mut i: usize = 0;
    while i < end
        invariant
            i <= end <= whole.len(),
            end == wanted.len(),
            wanted == safe_bytes(whole@),
            r@ == wanted.take(i as int),
        decreases end - i,
    {
        let byte = whole[i];
        let alone = (byte < 0x20 && byte != 9 && byte != 10 && byte != 13) || byte == 0x7f;
        let opens = byte == 0xC2 && i + 1 < whole.len() && (0x80 <= whole[i + 1] && whole[i + 1]
            <= 0x9f);
        let closes = 0x80 <= byte && byte <= 0x9f && i > 0 && whole[i - 1] == 0xC2;
        if alone || opens || closes {
            r.push(0x3f);
        } else {
            r.push(byte);
        }
        assert(wanted.take(i + 1) =~= wanted.take(i as int).push(wanted[i as int]));
        i = i + 1;
    }
    assert(wanted.take(i as int) =~= wanted);
    (r, open)
}

/// What is written for an event as text, where a byte of earlier output may be
/// held back. Output cannot control the terminal.
pub open spec fn plain_bytes(event: EventModel, held: bool) -> Seq<u8> {
    match event {
        EventModel::Output(_, bytes) => safe_bytes(held_bytes(held) + bytes),
        EventModel::Exited(code) => held_bytes(held) + encode_utf8(
            "\n[exit "@ + code_text(code) + "]\n"@,
        ),
        EventModel::Cancelled => held_bytes(held) + encode_utf8("\n[cancelled]\n"@),
        EventModel::Denied => held_bytes(held) + encode_utf8("\n[denied by policy]\n"@),
        EventModel::Unsupported => held_bytes(held) + encode_utf8(
            "\n[unsupported on this host]\n"@,
        ),
        EventModel::Started => Seq::empty(),
        EventModel::PendingApproval(_) => Seq::empty(),
    }
}

/// Whether a byte is held back behind an event.
pub open spec fn holds_back(event: EventModel, held: bool) -> bool {
    match event {
        EventModel::Output(_, bytes) => ends_open(held_bytes(held) + bytes),
        EventModel::Started => held,
        EventModel::PendingApproval(_) => held,
        _ => false,
    }
}

/// The text that the output of an event shows.
pub open spec fn shown_text(event: EventModel) -> Seq<char> {
    match event {
        EventModel::Output(_, bytes) => lossy_text(bytes),
        _ => Seq::empty(),
    }
}

/// What is written for an event as a JSON line, given the text that its output
/// shows.
pub open spec fn record_bytes(event: EventModel, shown: Seq<char>) -> Seq<u8> {
    encode_utf8(record_of(event, shown) + "\n"@)
}

/// The bytes of a text.
fn bytes_of(text: &str) -> (r: Vec<u8>)
    ensures
        r@ == encode_utf8(text@),
{
    text.as_bytes_vec()
}

/// A line of text behind a byte that may be held back.
fn line_behind(held: bool, line: &str) -> (r: Vec<u8>)
    ensures
        r@ == held_bytes(held) + encode_utf8(line@),
{
    let mut r: Vec<u8> = Vec::new();
    if held {
        r.push(0xC2);
    }
    let mut bytes = bytes_of(line);
    r.append(&mut bytes);
    assert(r@ =~= held_bytes(held) + encode_utf8(line@));
    r
}

/// What is written for an event, and whether a byte is held back behind it: a
/// JSON line, which holds nothing back, or text for people.
///
/// Output may end in a byte of which only the next output tells whether it is
/// part of a control character. Such a byte is held back; `held` says whether
/// one is.
pub fn render_event(event: &SessionEvent, json: bool, held: bool) -> (r: (Vec<u8>, bool))
    ensures
        json ==> r.0@ == record_bytes(event@, shown_text(event@)) && r.1 == held,
        json && event@ is Output && valid_utf8(event@->Output_1) ==> r.0@ == record_bytes(
            event@,
            decode_utf8(event@->Output_1),
        ),
        !json ==> r.0@ == plain_bytes(event@, held) && r.1 == holds_back(event@, held),
{
    if json {
        let shown = match event {
            SessionEvent::Output { bytes, .. } => from_utf8_lossy(bytes),
            _ => String::new(),
        };
        let mut line = json_record(event, shown.as_str());
        line.append("\n");
        return (bytes_of(line.as_str()), held);
    }
    match event {
        SessionEvent::Output { bytes, .. } => make_safe(bytes, held),
        SessionEvent::Exited { code } => {
            let mut line = "\n[exit ".to_owned();
            let code = show_code(*code);
            line.append(code.as_str());
            line.append("]\n");
            (line_behind(held, line.as_str()), false)
        },
        SessionEvent::Cancelled => (line_behind(held, "\n[cancelled]\n"), false),
        SessionEvent::Denied => (line_behind(held, "\n[denied by policy]\n"), false),
        SessionEvent::Unsupported => (line_behind(held, "\n[unsupported on this host]\n"), false),
        SessionEvent::Started => (Vec::new(), held),
        SessionEvent::PendingApproval { .. } => (Vec::new(), held),
    }
}

/// A sink that renders events for a terminal, as text or as JSON records.
#[derive(Debug, PartialEq, Eq)]
pub struct RenderSink {
    /// What is to be written.
    pub written: Vec<u8>,
    /// Whether events are rendered as JSON records.
    pub json: bool,
    /// Whether a byte is held back.
    pub held: bool,
}

impl EventSink for RenderSink {
    fn emit(&mut self, event: SessionEvent) -> (r: Result<(), ExecuteError>)
        ensures
            r is Ok,
            final(self).json == old(self).json,
            old(self).json ==> final(self).held == old(self).held && final(self).written@ == old(
                self,
            ).written@ + record_bytes(event@, shown_text(event@)),
            old(self).json && event@ is Output && valid_utf8(event@->Output_1) ==> (
            final(self).written@ == old(self).written@ + record_bytes(
                event@,
                decode_utf8(event@->Output_1),
            )),
            !old(self).json ==> final(self).held == holds_back(event@, old(self).held)
                && final(self).written@ == old(self).written@ + plain_bytes(event@, old(self).held),
    {
        let (mut bytes, held) = render_event(&event, self.json, self.held);
        self.written.append(&mut bytes);
        self.held = held;
        Ok(())
    }
}

/// What a line that was typed asks for.
#[derive(Debug, PartialEq, Eq)]
pub enum LineAction {
    /// Nothing.
    Skip,
    /// The end of the session.
    Quit,
    /// The version.
    Version,
    /// The help text.
    Help,
    /// To run a command line.
    Run(String),
}

/// What a line that was typed asks for.
pub open spec fn asks_for(line: Seq<char>, action: LineAction) -> bool {
    let command = text::trimmed(line);
    if command.len() == 0 {
        action is Skip
    } else if command == "exit"@ || command == "quit"@ {
        action is Quit
    } else if command == "version"@ {
        action is Version
    } else if command == "help"@ || command == "?"@ {
        action is Help
    } else {
        action matches LineAction::Run(command_line) && command_line@ == command
    }
}

/// What a line that was typed asks for. Everything that is not an order to the
/// shell itself is a command line.
pub fn line_action(line: &str) -> (r: LineAction)
    ensures
        asks_for(line@, r),
{
    let command = text::trim_text(line);
    let word = command.as_str();
    if word.is_empty() {
        LineAction::Skip
    } else if text::same_text(word, "exit") || text::same_text(word, "quit") {
        LineAction::Quit
    } else if text::same_text(word, "version") {
        LineAction::Version
    } else if text::same_text(word, "help") || text::same_text(word, "?") {
        LineAction::Help
    } else {
        LineAction::Run(command)
    }
}

/// What the shell says when it starts.
pub open spec fn banner_of(cwd: Seq<char>) -> Seq<char> {
    "ferrous shell \u{2014} persistent session in "@ + cwd
        + "\nTry: `pwd`, `ls`, `cd sub`, `mkdir newdir`, `echo hi`, `export FOO=bar`, `npm test` (needs approval), `exit`\n"@
}

/// What the shell says when it starts in a directory.
pub fn banner(cwd: &str) -> (r: String)
    ensures
        r@ == banner_of(cwd@),
{
    let mut r = text::joined("ferrous shell \u{2014} persistent session in ", cwd);
    r.append(
        "\nTry: `pwd`, `ls`, `cd sub`, `mkdir newdir`, `echo hi`, `export FOO=bar`, `npm test` (needs approval), `exit`\n",
    );
    r
}

/// What the shell answers to an order to itself; nothing to other lines.
pub open spec fn reply_of(action: LineAction) -> Seq<char> {
    match action {
        LineAction::Quit => "bye\n"@,
        LineAction::Version => "ferrous "@ + VERSION@ + "\n"@,
        LineAction::Help => "Builtins: pwd, cd, ls, cat, mkdir, rm, cp, mv, echo, env, which, export\nOperators: | && || ; > >> < &\nExternal programs run natively with approval. `exit` quits.\n"@,
        LineAction::Skip => Seq::empty(),
        LineAction::Run(_) => Seq::empty(),
    }
}

/// What the shell answers to an order to itself; nothing to other lines.
pub fn reply(action: &LineAction) -> (r: String)
    ensures
        r@ == reply_of(*action),
{
    match action {
        LineAction::Quit => "bye\n".to_owned(),
        LineAction::Version => {
            let mut r = text::joined("ferrous ", VERSION);
            r.append("\n");
            r
        },
        LineAction::Help => "Builtins: pwd, cd, ls, cat, mkdir, rm, cp, mv, echo, env, which, export\nOperators: | && || ; > >> < &\nExternal programs run natively with approval. `exit` quits.\n".to_owned(),
        LineAction::Skip => String::new(),
        LineAction::Run(_) => String::new(),
    }
}

/// What the shell says once a plan has ended: that it was denied, or why it
/// failed.
pub open spec fn notice_of(result: Result<PlanResult, ExecuteError>) -> Seq<char> {
    match result {
        Ok(result) => if result.status == PlanStatus::Denied {
            "\n[denied]\n"@
        } else {
            Seq::empty()
        },
        Err(error) => "\n[error] "@ + error@.message_text() + "\n"@,
    }
}

/// What the shell says once a plan has ended.
pub fn notice(result: &Result<PlanResult, ExecuteError>) -> (r: String)
    ensures
        r@ == notice_of(*result),
{
    match result {
        Ok(result) => if result.status == PlanStatus::Denied {
            "\n[denied]\n".to_owned()
        } else {
            String::new()
        },
        Err(error) => {
            let message = error.message();
            let mut r = text::joined("\n[error] ", message.as_str());
            r.append("\n");
            r
        },
    }
}

/// What the shell says of a line that does not parse.
pub fn parse_notice(error: &ParseError) -> (r: String)
    ensures
        r@ == "\n[parse error] "@ + error.message_text() + "\n"@,
{
    let message = error.message();
    let mut r = text::joined("\n[parse error] ", message.as_str());
    r.append("\n");
    r
}

/// The environment variables that a human's session may read and set.
pub open spec fn shell_variables() -> Set<Seq<char>> {
    Set::<Seq<char>>::empty().insert("PATH"@).insert("HOME"@).insert("TERM"@).insert("USER"@)
}

/// Whether a grant is the one of a human's session in a workspace.
pub open spec fn is_shell_grant(grant: GrantModel, root: Seq<Seq<char>>) -> bool {
    &&& grant.trees == seq![TreeModel { root, access: FilesystemAccess::ReadWrite }]
    &&& grant.environment == shell_variables()
    &&& grant.ports == Set::<u16>::empty()
    &&& !grant.native
    &&& grant.limits.output_bound() == 4_194_304
    &&& grant.limits.seconds_bound() == 120
    &&& grant.limits.fuel_bound() is None
}

proof fn lemma_names_are_valid()
    ensures
        crate::capability::is_variable_name("PATH"@),
        crate::capability::is_variable_name("HOME"@),
        crate::capability::is_variable_name("TERM"@),
        crate::capability::is_variable_name("USER"@),
{
    reveal_strlit("PATH");
    reveal_strlit("HOME");
    reveal_strlit("TERM");
    reveal_strlit("USER");
}

/// The session of a human in a workspace: its tree may be read and written, a
/// small set of benign variables may be exported, and nothing else is granted.
///
/// # Errors
///
/// Returns [`CapabilityError::RelativeRoot`] for a workspace that is not an
/// absolute path.
pub fn shell_session(workspace: &str) -> (r: Result<TerminalSessionSpec, CapabilityError>)
    ensures
        match host_path::parsed(workspace@) {
            None => r is Err && r->Err_0 == CapabilityError::RelativeRoot,
            Some(root) => {
                &&& r is Ok
                &&& r->Ok_0@.id == 1
                &&& r->Ok_0@.actor == Actor::Human
                &&& r->Ok_0@.cwd == "."@
                &&& is_shell_grant(r->Ok_0@.grant, root)
                &&& r->Ok_0@.limits == r->Ok_0@.grant.limits
            },
        },
{
    proof {
        lemma_names_are_valid();
        shell_parse::lemma_current_directory();
    }
    let limits = match ResourceLimits::new(4_194_304, 120) {
        Ok(limits) => limits,
        Err(error) => return Err(error),
    };
    let mut grant = match CapabilityGrant::workspace(workspace, FilesystemAccess::ReadWrite) {
        Ok(grant) => grant,
        Err(error) => return Err(error),
    };
    match grant.allow_environment("PATH") {
        Ok(next) => {
            grant = next;
        },
        Err(error) => return Err(error),
    }
    match grant.allow_environment("HOME") {
        Ok(next) => {
            grant = next;
        },
        Err(error) => return Err(error),
    }
    match grant.allow_environment("TERM") {
        Ok(next) => {
            grant = next;
        },
        Err(error) => return Err(error),
    }
    match grant.allow_environment("USER") {
        Ok(next) => {
            grant = next;
        },
        Err(error) => return Err(error),
    }
    let grant = grant.with_limits(limits);
    match SessionPath::new(".") {
        Ok(cwd) => Ok(
            TerminalSessionSpec { id: 1, actor: Actor::Human, cwd, base_grant: grant, limits },
        ),
        Err(_) => Err(CapabilityError::RelativeRoot),
    }
}

} // verus!
