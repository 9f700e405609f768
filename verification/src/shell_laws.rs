//! What the interactive shell asks, reads and writes.

use vstd::prelude::*;
use crate::access_laws;
use crate::capability::{FilesystemAccess, GrantModel};
use crate::command::{Actor, EventModel, RequestModel, Stream};
use crate::host_path;
use crate::shell;
use crate::shell::LineAction;
use crate::shell_executor::{ExecuteError, PlanResult, PlanStatus};
use crate::shell_ir;
use crate::text;
use crate::text_case;
use crate::text_laws;

verus! {

/// Whether a text spells a word of lower-case letters, in any case.
pub open spec fn spells_in_any_case(s: Seq<char>, word: Seq<char>) -> bool {
    &&& s.len() == word.len()
    &&& forall|i: int|
        0 <= i < s.len() ==> (#[trigger] s[i]) == word[i] || s[i] as int == word[i] as int - 32
}

proof fn lemma_in_any_case(s: Seq<char>, word: Seq<char>)
    requires
        forall|i: int| 0 <= i < word.len() ==> 'a' <= #[trigger] word[i] <= 'z',
    ensures
        text_case::ascii_lower(s) == word <==> spells_in_any_case(s, word),
{
    let lower = text_case::ascii_lower(s);
    assert forall|i: int| 0 <= i < s.len() && s.len() == word.len() implies (lower[i] == word[i]
        <==> #[trigger] s[i] == word[i] || s[i] as int == word[i] as int - 32) by {
        text_laws::lower_case_changes_letters_only(s, i);
        assert('a' <= word[i] <= 'z');
    }
    if lower == word {
        assert forall|i: int| 0 <= i < s.len() implies (#[trigger] s[i]) == word[i] || s[i] as int
            == word[i] as int - 32 by {
            assert(lower[i] == word[i]);
        }
    }
    if spells_in_any_case(s, word) {
        assert(lower =~= word);
    }
}

/// An answer approves where it is `y` or `yes`, in any case, with any white
/// space around it, and nothing else does.
pub proof fn only_yes_approves(front: Seq<char>, word: Seq<char>, back: Seq<char>)
    requires
        text_laws::is_blank(front),
        text_laws::is_blank(back),
        word.len() > 0 ==> !text::white_space(word[0]) && !text::white_space(word.last()),
    ensures
        shell::is_yes(front + word + back) <==> spells_in_any_case(word, seq!['y'])
            || spells_in_any_case(word, seq!['y', 'e', 's']),
{
    text_laws::white_space_around_a_text_is_trimmed(front, word, back);
    reveal_strlit("y");
    reveal_strlit("yes");
    assert("y"@ =~= seq!['y']);
    assert("yes"@ =~= seq!['y', 'e', 's']);
    lemma_in_any_case(word, seq!['y']);
    lemma_in_any_case(word, seq!['y', 'e', 's']);
}

proof fn lemma_spaced(list: Seq<Seq<char>>)
    ensures
        shell::spaced(list) == text_laws::joined(list, ' '),
    decreases list.len(),
{
    reveal_strlit(" ");
    if list.len() > 1 {
        lemma_spaced(list.drop_last());
        assert(shell::spaced(list.drop_last()) + " "@ =~= shell::spaced(list.drop_last()).push(
            ' ',
        ));
    }
}

/// Before a program runs natively a human is told who wants it, which program
/// it is, where it would run, and each of its arguments in order, with one
/// space between neighbours.
pub proof fn prompts_tell_what_would_run(request: RequestModel)
    ensures
        shell::prompt_of(request) == "\n\u{26a0}  "@ + match request.actor {
            Actor::Human => "you"@,
            Actor::Agent => "the agent"@,
            Actor::Subagent => "a subagent"@,
            Actor::Skill => "a skill"@,
        } + " wants to run `"@ + request.program
            + "` natively (direct argv, no shell).\n    cwd: "@ + host_path::path_text(request.cwd)
            + "\n    args: "@ + text_laws::joined(request.args, ' ') + "\nApprove? [y/N] "@,
{
    lemma_spaced(request.args);
}

/// The number of the first character that a JSON string writes, and how many
/// characters it takes; none where there is no such character.
pub open spec fn json_char(s: Seq<char>) -> Option<(int, int)> {
    if s.len() == 0 || s[0] == '"' || (s[0] as int) < 32 {
        None
    } else if s[0] != '\\' {
        Some((s[0] as int, 1))
    } else if s.len() < 2 {
        None
    } else if s[1] == '\\' || s[1] == '"' {
        Some((s[1] as int, 2))
    } else if s[1] == 'n' {
        Some((10, 2))
    } else if s[1] == 'r' {
        Some((13, 2))
    } else if s[1] == 't' {
        Some((9, 2))
    } else if s[1] == 'u' && s.len() >= 6 {
        match (
            text_laws::hex_value(s[2]),
            text_laws::hex_value(s[3]),
            text_laws::hex_value(s[4]),
            text_laws::hex_value(s[5]),
        ) {
            (Some(a), Some(b), Some(c), Some(d)) => Some((((a * 16 + b) * 16 + c) * 16 + d, 6)),
            _ => None,
        }
    } else {
        None
    }
}

/// The numbers of the characters that a JSON string writes; none where it is not
/// the inside of a JSON string.
pub open spec fn json_chars(s: Seq<char>) -> Option<Seq<int>>
    decreases s.len(),
{
    if s.len() == 0 {
        Some(Seq::empty())
    } else {
        match json_char(s) {
            Some((number, taken)) => if 0 < taken <= s.len() {
                match json_chars(s.skip(taken)) {
                    Some(rest) => Some(seq![number] + rest),
                    None => None,
                }
            } else {
                None
            },
            None => None,
        }
    }
}

proof fn lemma_escaped_front(c: char, rest: Seq<char>)
    ensures
        shell::escaped(seq![c] + rest) == shell::escape_of(c) + shell::escaped(rest),
    decreases rest.len(),
{
    let whole = seq![c] + rest;
    if rest.len() == 0 {
        assert(whole.drop_last() =~= Seq::empty());
        assert(whole.last() == c);
        reveal_with_fuel(shell::escaped, 2);
        assert(shell::escaped(whole) =~= shell::escape_of(c) + shell::escaped(rest));
    } else {
        lemma_escaped_front(c, rest.drop_last());
        assert(whole.drop_last() =~= seq![c] + rest.drop_last());
        assert(whole.last() == rest.last());
        assert(shell::escaped(whole) =~= shell::escape_of(c) + shell::escaped(rest));
    }
}

proof fn lemma_json_char(c: char, rest: Seq<char>)
    ensures
        json_char(shell::escape_of(c) + rest) == Some((c as int, shell::escape_of(c).len() as int)),
{
    let written = shell::escape_of(c);
    let whole = written + rest;
    assert forall|i: int| 0 <= i < written.len() implies whole[i] == written[i] by {}
    if shell::is_control(c) && c != '\n' && c != '\r' && c != '\t' {
        let n = c as int;
        assert(0 <= n / 16 < 16 && 0 <= n % 16 < 16 && n == n / 16 * 16 + n % 16);
        assert(written.len() == 6);
        assert(whole[0] == '\\' && whole[1] == 'u' && whole[2] == '0' && whole[3] == '0');
        assert(whole[4] == shell_ir::hex_digit(n / 16));
        assert(whole[5] == shell_ir::hex_digit(n % 16));
        assert(text_laws::hex_value(whole[4]) == Some(n / 16));
        assert(text_laws::hex_value(whole[5]) == Some(n % 16));
    } else if written.len() == 2 {
        assert(whole[0] == written[0] && whole[1] == written[1]);
    } else {
        assert(whole[0] == c);
    }
}

/// What is escaped is the inside of a JSON string, and reads back as the text
/// that was escaped, character by character.
pub proof fn escaped_texts_read_back(s: Seq<char>)
    ensures
        json_chars(shell::escaped(s)) == Some(Seq::new(s.len(), |i: int| s[i] as int)),
    decreases s.len(),
{
    let numbers = Seq::new(s.len(), |i: int| s[i] as int);
    if s.len() == 0 {
        assert(numbers =~= Seq::empty());
    } else {
        let rest = s.skip(1);
        assert(s =~= seq![s[0]] + rest);
        lemma_escaped_front(s[0], rest);
        let first = shell::escape_of(s[0]);
        let whole = shell::escaped(s);
        lemma_json_char(s[0], shell::escaped(rest));
        escaped_texts_read_back(rest);
        assert(whole.skip(first.len() as int) =~= shell::escaped(rest));
        let others = Seq::new(rest.len(), |i: int| rest[i] as int);
        assert(numbers =~= seq![s[0] as int] + others);
    }
}

/// An escaped text holds no character that could control a terminal.
pub proof fn escaped_texts_cannot_control_a_terminal(s: Seq<char>, i: int)
    requires
        0 <= i < shell::escaped(s).len(),
    ensures
        ({
            let number = shell::escaped(s)[i] as int;
            number >= 32 && !(127 <= number <= 159)
        }),
{
    shell::escaped_text_has_no_control_characters(s);
    assert(!shell::is_control(shell::escaped(s)[i]));
}

/// A text that needs no escape is written as it is.
pub proof fn plain_texts_are_written_as_they_are(s: Seq<char>)
    requires
        forall|i: int|
            0 <= i < s.len() ==> ' ' <= #[trigger] s[i] <= '~' && s[i] != '"' && s[i] != '\\',
    ensures
        shell::escaped(s) == s,
    decreases s.len(),
{
    if s.len() > 0 {
        let rest = s.drop_last();
        assert forall|i: int| 0 <= i < rest.len() implies ' ' <= #[trigger] rest[i] <= '~'
            && rest[i] != '"' && rest[i] != '\\' by {
            assert(rest[i] == s[i]);
        }
        plain_texts_are_written_as_they_are(rest);
        assert(' ' <= s[s.len() - 1] <= '~');
        assert(shell::escaped(s) =~= s);
    } else {
        assert(shell::escaped(s) =~= s);
    }
}

/// A signed number is written by its digits, behind a minus sign where it is
/// negative; an exit code is shown as that number, and one that is not known as
/// none.
pub proof fn codes_are_written_as_numbers(code: i32)
    ensures
        code >= 0 ==> shell::json_code(Some(code)) == text::decimal(code as nat),
        code < 0 ==> shell::json_code(Some(code)) == seq!['-'] + text::decimal((-code) as nat),
        shell::code_text(Some(code)) == "Some("@ + shell::json_code(Some(code)) + ")"@,
        shell::json_code(None) == "null"@,
        shell::code_text(None) == "None"@,
{
}

/// The record of some output names the stream it came on and holds the text it
/// shows, escaped; the record of an exit holds the exit code.
pub proof fn records_hold_what_happened(bytes: Seq<u8>, shown: Seq<char>, code: Option<i32>)
    ensures
        shell::record_of(EventModel::Output(Stream::Stdout, bytes), shown)
            == "{\"event\":\"output\",\"stream\":"@ + "\"stdout\""@ + ",\"bytes\":\""@
            + shell::escaped(shown) + "\"}"@,
        shell::record_of(EventModel::Output(Stream::Stderr, bytes), shown)
            == "{\"event\":\"output\",\"stream\":"@ + "\"stderr\""@ + ",\"bytes\":\""@
            + shell::escaped(shown) + "\"}"@,
        shell::record_of(EventModel::Exited(code), shown) == "{\"event\":\"exited\",\"code\":"@
            + shell::json_code(code) + "}"@,
        shell::record_of(EventModel::Denied, shown) == "{\"event\":\"denied\"}"@,
        shell::record_of(EventModel::Cancelled, shown) == "{\"event\":\"cancelled\"}"@,
        shell::record_of(EventModel::Started, shown) == "{\"event\":\"started\"}"@,
        shell::record_of(EventModel::Unsupported, shown) == "{\"event\":\"unsupported\"}"@,
{
}

/// Output that holds no control character is shown byte for byte, and a control
/// byte is shown as a question mark in its place.
pub proof fn output_is_shown_byte_for_byte(stream: Stream, bytes: Seq<u8>, i: int)
    requires
        0 <= i < bytes.len(),
        forall|k: int| 0 <= k < bytes.len() ==> #[trigger] bytes[k] < 128,
    ensures
        ({
            let shown = shell::plain_bytes(EventModel::Output(stream, bytes), false);
            let prints = 32 <= bytes[i] < 127 || bytes[i] == 9 || bytes[i] == 10 || bytes[i] == 13;
            &&& shown.len() == bytes.len()
            &&& prints ==> shown[i] == bytes[i]
            &&& !prints ==> shown[i] == 63
            &&& !shell::holds_back(EventModel::Output(stream, bytes), false)
        }),
{
    assert(shell::held_bytes(false) + bytes =~= bytes);
    assert(bytes[bytes.len() - 1] < 128);
    assert(bytes[i] < 128);
    if i + 1 < bytes.len() {
        assert(bytes[i + 1] < 128);
    }
}

/// A line that is no order to the shell itself is run as it was typed, without
/// the white space around it; a blank line is skipped; and `exit`, `quit`,
/// `version`, `help` and `?` are orders, whatever white space is around them.
pub proof fn lines_are_run_as_typed(
    front: Seq<char>,
    line: Seq<char>,
    back: Seq<char>,
    action: LineAction,
)
    requires
        text_laws::is_blank(front),
        text_laws::is_blank(back),
        line.len() > 0 ==> !text::white_space(line[0]) && !text::white_space(line.last()),
        shell::asks_for(front + line + back, action),
    ensures
        action is Skip <==> line.len() == 0,
        action is Quit <==> line == seq!['e', 'x', 'i', 't'] || line == seq!['q', 'u', 'i', 't'],
        action is Version <==> line == seq!['v', 'e', 'r', 's', 'i', 'o', 'n'],
        action is Help <==> line == seq!['h', 'e', 'l', 'p'] || line == seq!['?'],
        action matches LineAction::Run(typed) ==> typed@ == line,
{
    text_laws::white_space_around_a_text_is_trimmed(front, line, back);
    reveal_strlit("exit");
    reveal_strlit("quit");
    reveal_strlit("version");
    reveal_strlit("help");
    reveal_strlit("?");
    assert("exit"@ =~= seq!['e', 'x', 'i', 't']);
    assert("quit"@ =~= seq!['q', 'u', 'i', 't']);
    assert("version"@ =~= seq!['v', 'e', 'r', 's', 'i', 'o', 'n']);
    assert("help"@ =~= seq!['h', 'e', 'l', 'p']);
    assert("?"@ =~= seq!['?']);
    assert("exit"@.len() == 4 && "quit"@.len() == 4 && "version"@.len() == 7 && "help"@.len() == 4
        && "?"@.len() == 1);
    assert("exit"@[0] == 'e' && "quit"@[0] == 'q' && "help"@[0] == 'h');
}

/// Only a plan that was denied, or that could not be run, is remarked upon.
pub proof fn only_refusals_are_noticed(result: PlanResult, error: ExecuteError)
    ensures
        shell::notice_of(Ok(result)).len() > 0 <==> result.status == PlanStatus::Denied,
        shell::notice_of(Err(error)) == "\n[error] "@ + error@.message_text() + "\n"@,
{
    reveal_strlit("\n[denied]\n");
}

/// The session of a human may read and write its workspace and nothing outside
/// it, may export four variables, and has neither a port nor native execution.
pub proof fn shell_sessions_are_granted_their_workspace(
    grant: GrantModel,
    root: Seq<Seq<char>>,
    names: Seq<Seq<char>>,
    path: Seq<Seq<char>>,
    variable: Seq<char>,
    port: u16,
)
    requires
        shell::is_shell_grant(grant, root),
    ensures
        grant.covers(root + names),
        grant.covers_write(root + names),
        grant.covers(path) ==> exists|below: Seq<Seq<char>>| path == #[trigger] (root + below),
        grant.environment.contains(variable) <==> variable == "PATH"@ || variable == "HOME"@
            || variable == "TERM"@ || variable == "USER"@,
        !grant.ports.contains(port),
        !grant.native,
{
    assert(grant.trees[0].root == root);
    access_laws::trees_hold_what_stands_below_them(grant, 0, names);
    if grant.covers(path) && !(exists|below: Seq<Seq<char>>| path == #[trigger] (root + below)) {
        access_laws::paths_outside_every_tree_are_denied(grant, path);
    }
    assert(grant.trees[0].access == FilesystemAccess::ReadWrite);
}

/// As text, the end of a command is told with its exit code, and a command that
/// was cancelled, denied or is not supported is told as such, each on a line of
/// its own behind a byte that was held back; a start is not told, and leaves a
/// held byte where it is.
pub proof fn ends_are_told_on_their_own_line(
    code: Option<i32>,
    request_id: u64,
    shown: Seq<char>,
    held: bool,
)
    ensures
        ({
            let behind = if held {
                seq![0xC2u8]
            } else {
                Seq::<u8>::empty()
            };
            &&& shell::plain_bytes(EventModel::Exited(code), held) == behind
                + vstd::utf8::encode_utf8("\n[exit "@ + shell::code_text(code) + "]\n"@)
            &&& shell::plain_bytes(EventModel::Cancelled, held) == behind
                + vstd::utf8::encode_utf8("\n[cancelled]\n"@)
            &&& shell::plain_bytes(EventModel::Denied, held) == behind + vstd::utf8::encode_utf8(
                "\n[denied by policy]\n"@,
            )
            &&& shell::plain_bytes(EventModel::Unsupported, held) == behind
                + vstd::utf8::encode_utf8("\n[unsupported on this host]\n"@)
            &&& shell::plain_bytes(EventModel::Started, held).len() == 0
            &&& shell::plain_bytes(EventModel::PendingApproval(request_id), held).len() == 0
            &&& shell::holds_back(EventModel::Started, held) == held
            &&& shell::holds_back(EventModel::PendingApproval(request_id), held) == held
            &&& !shell::holds_back(EventModel::Exited(code), held)
            &&& !shell::holds_back(EventModel::Cancelled, held)
            &&& !shell::holds_back(EventModel::Denied, held)
            &&& !shell::holds_back(EventModel::Unsupported, held)
            &&& shell::record_of(EventModel::PendingApproval(request_id), shown)
                == "{\"event\":\"pending-approval\"}"@
        }),
{
}

/// What an output event shows is the text of its bytes, and a record is one line.
pub proof fn records_are_lines(event: EventModel, shown: Seq<char>)
    ensures
        shell::record_bytes(event, shown) == vstd::utf8::encode_utf8(
            shell::record_of(event, shown).push('\n'),
        ),
        !(event is Output) ==> shell::shown_text(event).len() == 0,
        event matches EventModel::Output(_, bytes) ==> shell::shown_text(event)
            == shell::lossy_text(bytes),
{
    reveal_strlit("\n");
    assert(shell::record_of(event, shown) + "\n"@ =~= shell::record_of(event, shown).push('\n'));
}

/// The shell answers each order to itself, and says nothing of its own to a line
/// that is skipped or run. When it starts it says where.
pub proof fn orders_are_answered(action: LineAction, cwd: Seq<char>)
    ensures
        action is Quit ==> shell::reply_of(action) == "bye\n"@,
        action is Version ==> shell::reply_of(action) == "ferrous "@ + crate::shared::VERSION@
            + "\n"@,
        action is Help ==> shell::reply_of(action).len() > 0,
        action is Skip || action is Run ==> shell::reply_of(action).len() == 0,
        shell::banner_of(cwd).len() > cwd.len(),
        exists|front: Seq<char>, back: Seq<char>|
            shell::banner_of(cwd) == #[trigger] (front + cwd + back),
{
    reveal_strlit("bye\n");
    reveal_strlit(
        "Builtins: pwd, cd, ls, cat, mkdir, rm, cp, mv, echo, env, which, export\nOperators: | && || ; > >> < &\nExternal programs run natively with approval. `exit` quits.\n",
    );
    reveal_strlit("ferrous shell \u{2014} persistent session in ");
}

} // verus!
