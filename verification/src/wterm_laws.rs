//! What the terminal server answers, and how a client resizes its terminal.

use vstd::prelude::*;
use crate::text;
use crate::text_laws;
use crate::wterm;
use crate::wterm::Route;

verus! {

/// Whether a text is one word: some characters, none of them white space.
pub open spec fn is_word(s: Seq<char>) -> bool {
    s.len() > 0 && forall|i: int| 0 <= i < s.len() ==> !text::white_space(#[trigger] s[i])
}

proof fn lemma_first_piece(a: Seq<char>, c: char, more: Seq<char>)
    requires
        text_laws::is_free_of(a, seq![c]),
    ensures
        text::split(a + seq![c] + more, seq![c]).len() >= 2,
        text::split(a + seq![c] + more, seq![c])[0] == a,
    decreases more.len(),
{
    let whole = a + seq![c] + more;
    let separators = seq![c];
    assert(separators.contains(c)) by {
        assert(separators[0] == c);
    }
    if more.len() == 0 {
        assert(whole.drop_last() =~= a);
        assert(whole.last() == c);
        assert(text_laws::all_free_of(seq![a], separators));
        text_laws::splitting_undoes_joining(seq![a], c, separators);
        assert(text_laws::joined(seq![a], c) == a);
    } else {
        lemma_first_piece(a, c, more.drop_last());
        assert(whole.drop_last() =~= a + seq![c] + more.drop_last());
    }
}

proof fn lemma_word_ends(word: Seq<char>, rest: Seq<char>)
    requires
        is_word(word),
        rest.len() > 0 ==> text::white_space(rest[0]),
    ensures
        wterm::leading_word(word + rest) == word,
    decreases word.len(),
{
    let whole = word + rest;
    assert(whole[0] == word[0]);
    let less = word.skip(1);
    assert(whole.skip(1) =~= less + rest);
    if less.len() > 0 {
        assert forall|i: int| 0 <= i < less.len() implies !text::white_space(
            #[trigger] less[i],
        ) by {
            assert(less[i] == word[i + 1]);
        }
        lemma_word_ends(less, rest);
    } else {
        assert(less + rest =~= rest);
        assert(wterm::leading_word(rest) =~= Seq::empty());
    }
    assert(seq![word[0]] + less =~= word);
}

proof fn lemma_second_word(method: Seq<char>, gap: Seq<char>, path: Seq<char>, rest: Seq<char>)
    requires
        is_word(method),
        is_word(path),
        gap.len() > 0,
        text_laws::is_blank(gap),
        rest.len() > 0 ==> text::white_space(rest[0]),
    ensures
        wterm::second_word(method + gap + path + rest) == path,
{
    let line = method + gap + path + rest;
    assert(line[0] == method[0]);
    assert(text::without_leading(line) == line);
    assert(line =~= method + (gap + path + rest));
    assert(text::white_space(gap[0]));
    assert((gap + path + rest)[0] == gap[0]);
    lemma_word_ends(method, gap + path + rest);
    assert(line.skip(method.len() as int) =~= gap + (path + rest));
    text_laws::lemma_blank_front(gap, path + rest);
    assert((path + rest)[0] == path[0]);
    lemma_word_ends(path, rest);
}

/// A request is routed by its path, the second word of its first line, whatever
/// its method, whatever follows the path and whatever lines follow the first.
pub proof fn requests_are_routed_by_their_path(
    method: Seq<char>,
    gap: Seq<char>,
    path: Seq<char>,
    rest: Seq<char>,
    lines: Seq<char>,
)
    requires
        is_word(method),
        is_word(path),
        gap.len() > 0,
        text_laws::is_blank(gap),
        rest.len() > 0 ==> text::white_space(rest[0]),
        text_laws::is_free_of(method + gap + path + rest, seq!['\n']),
    ensures
        ({
            let line = method + gap + path + rest;
            &&& wterm::second_word(wterm::first_line(line)) == path
            &&& wterm::second_word(wterm::first_line(line + seq!['\n'] + lines)) == path
        }),
{
    let line = method + gap + path + rest;
    lemma_second_word(method, gap, path, rest);
    lemma_first_piece(line, '\n', lines);
    let separators = seq!['\n'];
    assert(separators[0] == '\n');
    assert(text_laws::all_free_of(seq![line], separators));
    text_laws::splitting_undoes_joining(seq![line], '\n', separators);
    assert(text_laws::joined(seq![line], '\n') == line);
}

/// Each page has its own path, and every other path is not found.
pub proof fn pages_are_found_by_their_path(path: Seq<char>)
    ensures
        wterm::route_for(path) == Route::Index <==> path == seq!['/'] || path == "/index.html"@,
        wterm::route_for(path) == Route::Wasm <==> path == "/wterm.wasm"@,
        wterm::route_for(path) == Route::Css <==> path == "/wterm.css"@,
        wterm::route_for(path) == Route::Terminal <==> path == seq!['/', 'w', 's'],
{
    reveal_strlit("/");
    reveal_strlit("/index.html");
    reveal_strlit("/wterm.wasm");
    reveal_strlit("/wterm.css");
    reveal_strlit("/ws");
    assert("/"@ =~= seq!['/']);
    assert("/ws"@ =~= seq!['/', 'w', 's']);
    assert("/index.html"@.len() == 11);
    assert("/wterm.wasm"@.len() == 11 && "/wterm.wasm"@[1] == 'w' && "/index.html"@[1] == 'i');
    assert("/wterm.css"@.len() == 10);
}

/// An answer says how many bytes its body has, and what they are; only a page
/// that exists is answered with success.
pub proof fn answers_say_what_they_hold(route: Route, length: nat)
    ensures
        wterm::head_of(route, length) == "HTTP/1.1 "@ + wterm::status_of(route).0
            + "\r\nContent-Type: "@ + wterm::status_of(route).1 + "\r\nContent-Length: "@
            + text::decimal(length)
            + "\r\nConnection: close\r\nCache-Control: no-store\r\n\r\n"@,
        route == Route::Index ==> wterm::status_of(route) == ("200 OK"@, "text/html; charset=utf-8"@),
        route == Route::Wasm ==> wterm::status_of(route) == ("200 OK"@, "application/wasm"@),
        route == Route::Css ==> wterm::status_of(route) == ("200 OK"@, "text/css; charset=utf-8"@),
        route == Route::Terminal ==> wterm::status_of(route).0 == "426 Upgrade Required"@,
        route == Route::NotFound ==> wterm::status_of(route).0 == "404 Not Found"@,
{
}

/// A request head is complete once it ends in a carriage return and a line feed,
/// twice, and not before.
pub proof fn heads_end_in_a_blank_line(bytes: Seq<u8>)
    ensures
        wterm::is_complete(bytes) <==> bytes.len() >= 4 && bytes[bytes.len() - 4] == 13
            && bytes[bytes.len() - 3] == 10 && bytes[bytes.len() - 2] == 13 && bytes[bytes.len()
            - 1] == 10,
{
    if bytes.len() >= 4 {
        let end = bytes.skip(bytes.len() - 4);
        assert(end.len() == 4);
        assert(end[0] == bytes[bytes.len() - 4] && end[1] == bytes[bytes.len() - 3] && end[2]
            == bytes[bytes.len() - 2] && end[3] == bytes[bytes.len() - 1]);
        if end[0] == 13 && end[1] == 10 && end[2] == 13 && end[3] == 10 {
            assert(end =~= wterm::blank_line());
        }
    }
}

/// Whether a text is made of decimal digits.
pub open spec fn is_digits(s: Seq<char>) -> bool {
    s.len() > 0 && forall|i: int| 0 <= i < s.len() ==> '0' <= #[trigger] s[i] <= '9'
}

proof fn lemma_digits(s: Seq<char>)
    requires
        forall|i: int| 0 <= i < s.len() ==> '0' <= #[trigger] s[i] <= '9',
    ensures
        wterm::digits_value(s) == Some(text_laws::number_of(s)),
    decreases s.len(),
{
    if s.len() > 0 {
        let rest = s.drop_last();
        assert forall|i: int| 0 <= i < rest.len() implies '0' <= #[trigger] rest[i] <= '9' by {
            assert(rest[i] == s[i]);
        }
        lemma_digits(rest);
        assert('0' <= s[s.len() - 1] <= '9');
    }
}

/// Digits write the number that they are read as, where it fits in 32 bits, and
/// none where it does not.
pub proof fn digits_are_read_as_their_number(digits: Seq<char>)
    requires
        is_digits(digits),
    ensures
        text_laws::number_of(digits) < 0x1_0000_0000 ==> wterm::written_number(digits) is Some
            && wterm::written_number(digits)->0 == text_laws::number_of(digits),
        text_laws::number_of(digits) >= 0x1_0000_0000 ==> wterm::written_number(digits) is None,
{
    assert('0' <= digits[0] <= '9');
    lemma_digits(digits);
}

proof fn lemma_found(front: Seq<char>, c: char, back: Seq<char>, from: int)
    requires
        0 <= from <= front.len(),
        forall|i: int| from <= i < front.len() ==> #[trigger] front[i] != c,
    ensures
        wterm::found_at(front + seq![c] + back, c, from) == front.len(),
    decreases front.len() - from,
{
    let whole = front + seq![c] + back;
    if from < front.len() {
        assert(whole[from] == front[from]);
        lemma_found(front, c, back, from + 1);
    } else {
        assert(whole[from] == c);
    }
}

proof fn lemma_not_found(s: Seq<char>, c: char, from: int)
    requires
        0 <= from,
        forall|i: int| from <= i < s.len() ==> #[trigger] s[i] != c,
    ensures
        wterm::found_at(s, c, from) == s.len(),
    decreases s.len() - from,
{
    if from < s.len() {
        assert(s[from] != c);
        lemma_not_found(s, c, from + 1);
    }
}

/// Whether a text is made of decimal digits, with white space around them
/// perhaps; these are the digits.
pub open spec fn holds_digits(s: Seq<char>, digits: Seq<char>) -> bool {
    &&& is_digits(digits)
    &&& exists|front: Seq<char>, back: Seq<char>|
        {
            &&& #[trigger] text_laws::is_blank(front)
            &&& #[trigger] text_laws::is_blank(back)
            &&& s == front + digits + back
        }
}

proof fn lemma_holds_digits(s: Seq<char>, digits: Seq<char>)
    requires
        holds_digits(s, digits),
        text_laws::number_of(digits) < 0x1_0000_0000,
    ensures
        wterm::written_number(text::trimmed(s)) is Some,
        wterm::written_number(text::trimmed(s))->0 == text_laws::number_of(digits),
        forall|i: int| 0 <= i < s.len() ==> #[trigger] s[i] != ',' && s[i] != ']',
{
    let (front, back) = choose|front: Seq<char>, back: Seq<char>|
        {
            &&& #[trigger] text_laws::is_blank(front)
            &&& #[trigger] text_laws::is_blank(back)
            &&& s == front + digits + back
        };
    assert forall|i: int| 0 <= i < digits.len() implies !text::white_space(
        #[trigger] digits[i],
    ) by {
        assert('0' <= digits[i] <= '9');
        text_laws::blanks_are_white_space(digits[i]);
    }
    assert(!text::white_space(digits[digits.len() - 1]));
    text_laws::white_space_around_a_text_is_trimmed(front, digits, back);
    digits_are_read_as_their_number(digits);
    text_laws::blanks_are_white_space(',');
    text_laws::blanks_are_white_space(']');
    assert forall|i: int| 0 <= i < s.len() implies #[trigger] s[i] != ',' && s[i] != ']' by {
        if i < front.len() {
            assert(s[i] == front[i]);
        } else if i < front.len() + digits.len() {
            assert(s[i] == digits[i - front.len()]);
            assert('0' <= digits[i - front.len()] <= '9');
        } else {
            assert(s[i] == back[i - front.len() - digits.len()]);
        }
    }
}

/// A number of cells, held between the least and the most that a terminal can
/// have.
pub open spec fn held_between(n: nat) -> nat {
    if n < 2 {
        2
    } else if n > 500 {
        500
    } else {
        n
    }
}

/// A control message with two numbers in its first brackets, columns and then
/// rows, resizes the terminal to them, held between two and five hundred cells;
/// white space around the numbers and whatever stands around the brackets do not
/// matter.
pub proof fn controls_resize_to_the_numbers_they_hold(
    front: Seq<char>,
    cols: Seq<char>,
    rows: Seq<char>,
    back: Seq<char>,
    col_digits: Seq<char>,
    row_digits: Seq<char>,
)
    requires
        text_laws::is_free_of(front, seq!['[']),
        holds_digits(cols, col_digits),
        holds_digits(rows, row_digits),
        text_laws::number_of(col_digits) < 0x1_0000_0000,
        text_laws::number_of(row_digits) < 0x1_0000_0000,
    ensures
        ({
            let message = front + seq!['['] + (cols + seq![','] + rows) + seq![']'] + back;
            let size = wterm::resize_for(message);
            &&& size is Some
            &&& size->0.cols == held_between(text_laws::number_of(col_digits))
            &&& size->0.rows == held_between(text_laws::number_of(row_digits))
        }),
{
    let list = cols + seq![','] + rows;
    let message = front + seq!['['] + list + seq![']'] + back;
    lemma_holds_digits(cols, col_digits);
    lemma_holds_digits(rows, row_digits);
    assert forall|i: int| 0 <= i < front.len() implies #[trigger] front[i] != '[' by {
        assert(!seq!['['].contains(front[i]));
        if front[i] == '[' {
            assert(seq!['['][0] == front[i]);
        }
    }
    assert(message =~= front + seq!['['] + (list + seq![']'] + back));
    lemma_found(front, '[', list + seq![']'] + back, 0);
    let open = front.len() as int;
    let before = front + seq!['['] + list;
    assert(message =~= before + seq![']'] + back);
    assert forall|i: int| open + 1 <= i < before.len() implies #[trigger] before[i] != ']' by {
        let k = i - open - 1;
        assert(before[i] == list[k]);
        if k < cols.len() {
            assert(list[k] == cols[k]);
        } else if k > cols.len() {
            assert(list[k] == rows[k - cols.len() - 1]);
        }
    }
    lemma_found(before, ']', back, open + 1);
    assert(message.subrange(open + 1, before.len() as int) =~= list);
    let pieces = seq![cols, rows];
    let comma = seq![','];
    assert(comma[0] == ',');
    assert(text_laws::joined(pieces, ',') == list) by {
        reveal_with_fuel(text_laws::joined, 2);
        assert(pieces.drop_last() =~= seq![cols]);
        assert(cols.push(',') + rows =~= list);
    }
    assert(text_laws::all_free_of(pieces, comma));
    text_laws::splitting_undoes_joining(pieces, ',', comma);
    reveal_with_fuel(wterm::written_numbers, 3);
    assert(pieces.drop_last() =~= seq![cols]);
    assert(pieces.drop_last().drop_last() =~= Seq::empty());
    let a = wterm::written_number(text::trimmed(cols))->0;
    let b = wterm::written_number(text::trimmed(rows))->0;
    assert(wterm::written_numbers(pieces) =~= seq![a, b]);
}

/// A control message without brackets resizes nothing.
pub proof fn controls_without_brackets_resize_nothing(message: Seq<char>)
    requires
        text_laws::is_free_of(message, seq!['[']) || text_laws::is_free_of(message, seq![']']),
    ensures
        wterm::resize_for(message) is None,
{
    if text_laws::is_free_of(message, seq!['[']) {
        assert forall|i: int| 0 <= i < message.len() implies #[trigger] message[i] != '[' by {
            if message[i] == '[' {
                assert(seq!['['][0] == message[i]);
            }
        }
        lemma_not_found(message, '[', 0);
    } else {
        assert forall|i: int| 0 <= i < message.len() implies #[trigger] message[i] != ']' by {
            if message[i] == ']' {
                assert(seq![']'][0] == message[i]);
            }
        }
        lemma_found_from(message, '[', 0);
        lemma_not_found(message, ']', wterm::found_at(message, '[', 0) + 1);
    }
}

proof fn lemma_found_from(s: Seq<char>, c: char, from: int)
    requires
        0 <= from,
    ensures
        wterm::found_at(s, c, from) >= 0,
    decreases s.len() - from,
{
    if from < s.len() && s[from] != c {
        lemma_found_from(s, c, from + 1);
    }
}

/// A plus sign in front of a number does not change it.
pub proof fn numbers_may_have_a_plus_sign(digits: Seq<char>)
    requires
        is_digits(digits),
    ensures
        wterm::written_number(seq!['+'] + digits) == wterm::written_number(digits),
        wterm::written_number(seq!['-'] + digits) is None,
        wterm::written_number(seq!['+']) is None,
        wterm::written_number(Seq::empty()) is None,
{
    let signed = seq!['+'] + digits;
    assert(signed.skip(1) =~= digits);
    assert('0' <= digits[0] <= '9');
    assert(seq!['+'].skip(1) =~= Seq::empty());
    let negative = seq!['-'] + digits;
    assert(negative[0] == '-');
    lemma_no_digit(negative, 0);
}

proof fn lemma_no_digit(s: Seq<char>, i: int)
    requires
        0 <= i < s.len(),
        !('0' <= s[i] <= '9'),
    ensures
        wterm::digits_value(s) is None,
    decreases s.len(),
{
    if i < s.len() - 1 {
        lemma_no_digit(s.drop_last(), i);
    }
}

proof fn lemma_all_written(parts: Seq<Seq<char>>, digits: Seq<Seq<char>>)
    requires
        parts.len() == digits.len(),
        forall|i: int|
            0 <= i < parts.len() ==> holds_digits(#[trigger] parts[i], digits[i])
                && text_laws::number_of(digits[i]) < 0x1_0000_0000,
    ensures
        wterm::written_numbers(parts).len() == parts.len(),
    decreases parts.len(),
{
    if parts.len() > 0 {
        let rest = parts.drop_last();
        assert forall|i: int| 0 <= i < rest.len() implies holds_digits(
            #[trigger] rest[i],
            digits.drop_last()[i],
        ) && text_laws::number_of(digits.drop_last()[i]) < 0x1_0000_0000 by {
            assert(rest[i] == parts[i]);
        }
        lemma_all_written(rest, digits.drop_last());
        assert(holds_digits(parts[parts.len() - 1], digits[parts.len() - 1]));
        lemma_holds_digits(parts.last(), digits.last());
    }
}

/// A control message with another number of numbers than two in its first brackets
/// resizes nothing.
pub proof fn controls_need_two_numbers(
    front: Seq<char>,
    parts: Seq<Seq<char>>,
    digits: Seq<Seq<char>>,
    back: Seq<char>,
)
    requires
        text_laws::is_free_of(front, seq!['[']),
        parts.len() > 0,
        parts.len() != 2,
        parts.len() == digits.len(),
        forall|i: int|
            0 <= i < parts.len() ==> holds_digits(#[trigger] parts[i], digits[i])
                && text_laws::number_of(digits[i]) < 0x1_0000_0000,
        text_laws::is_free_of(text_laws::joined(parts, ','), seq![']']),
    ensures
        wterm::resize_for(
            front + seq!['['] + text_laws::joined(parts, ',') + seq![']'] + back,
        ) is None,
{
    let list = text_laws::joined(parts, ',');
    let message = front + seq!['['] + list + seq![']'] + back;
    assert forall|i: int| 0 <= i < front.len() implies #[trigger] front[i] != '[' by {
        if front[i] == '[' {
            assert(seq!['['][0] == front[i]);
        }
    }
    assert(message =~= front + seq!['['] + (list + seq![']'] + back));
    lemma_found(front, '[', list + seq![']'] + back, 0);
    let open = front.len() as int;
    let before = front + seq!['['] + list;
    assert(message =~= before + seq![']'] + back);
    assert forall|i: int| open + 1 <= i < before.len() implies #[trigger] before[i] != ']' by {
        assert(before[i] == list[i - open - 1]);
        if before[i] == ']' {
            assert(seq![']'][0] == list[i - open - 1]);
        }
    }
    lemma_found(before, ']', back, open + 1);
    assert(message.subrange(open + 1, before.len() as int) =~= list);
    let comma = seq![','];
    assert(comma[0] == ',');
    assert(text_laws::all_free_of(parts, comma)) by {
        assert forall|i: int| 0 <= i < parts.len() implies text_laws::is_free_of(
            #[trigger] parts[i],
            comma,
        ) by {
            assert(holds_digits(parts[i], digits[i]));
            lemma_holds_digits(parts[i], digits[i]);
        }
    }
    text_laws::splitting_undoes_joining(parts, ',', comma);
    lemma_all_written(parts, digits);
}

} // verus!
