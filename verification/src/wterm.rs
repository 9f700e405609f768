//! The `ferrous wterm` server: the Ferrous shell inside a browser terminal.
//!
//! What a tiny HTTP and WebSocket server decides: when a request head is
//! complete, which route it names, what is answered, and what a message of the
//! terminal page asks for.

use vstd::prelude::*;
use vstd::utf8::*;
use crate::shell;
use crate::text;

verus! {

/// Upper bound for a single HTTP request head (line and headers).
pub const MAX_REQUEST_HEAD: usize = 16384;

/// The least rows or columns of a terminal.
pub const MIN_CELLS: u32 = 2;

/// The most rows or columns of a terminal.
pub const MAX_CELLS: u32 = 500;

/// Options for the `ferrous wterm` server.
#[derive(Debug, PartialEq, Eq)]
pub struct WtermOptions {
    /// Interface to bind (default `127.0.0.1`).
    pub host: String,
    /// TCP port to bind; `0` selects an ephemeral port.
    pub port: u16,
}

/// The routes this server knows how to serve.
#[derive(Debug, Clone, Copy, PartialEq, Eq, Structural)]
pub enum Route {
    /// The terminal page.
    Index,
    /// The wterm core WASM binary.
    Wasm,
    /// The wterm stylesheet.
    Css,
    /// The WebSocket terminal endpoint.
    Terminal,
    /// Anything else.
    NotFound,
}

/// The word that a text starts with: everything up to the first white space.
pub open spec fn leading_word(s: Seq<char>) -> Seq<char>
    decreases s.len(),
{
    if s.len() == 0 || text::white_space(s[0]) {
        Seq::empty()
    } else {
        seq![s[0]] + leading_word(s.skip(1))
    }
}

/// The second word of a text; empty where there is none.
pub open spec fn second_word(s: Seq<char>) -> Seq<char> {
    let first = text::without_leading(s);
    let rest = first.skip(leading_word(first).len() as int);
    leading_word(text::without_leading(rest))
}

/// The first line of a text.
pub open spec fn first_line(s: Seq<char>) -> Seq<char> {
    text::split(s, seq!['\n'])[0]
}

/// The route that a path names.
pub open spec fn route_for(path: Seq<char>) -> Route {
    if path == "/"@ || path == "/index.html"@ {
        Route::Index
    } else if path == "/wterm.wasm"@ {
        Route::Wasm
    } else if path == "/wterm.css"@ {
        Route::Css
    } else if path == "/ws"@ {
        Route::Terminal
    } else {
        Route::NotFound
    }
}

proof fn lemma_leading_word(s: Seq<char>)
    ensures
        leading_word(s).len() <= s.len(),
        leading_word(s) == s.take(leading_word(s).len() as int),
        forall|i: int| 0 <= i < leading_word(s).len() ==> !text::white_space(#[trigger] s[i]),
        leading_word(s).len() < s.len() ==> text::white_space(s[leading_word(s).len() as int]),
    decreases s.len(),
{
    if s.len() > 0 && !text::white_space(s[0]) {
        let rest = s.skip(1);
        lemma_leading_word(rest);
        let n = leading_word(s).len() as int;
        assert(leading_word(s) =~= s.take(n));
        assert forall|i: int| 0 <= i < n implies !text::white_space(#[trigger] s[i]) by {
            if i > 0 {
                assert(rest[i - 1] == s[i]);
            }
        }
    } else {
        assert(s.take(0) =~= Seq::empty());
    }
}

proof fn lemma_leading_word_is(s: Seq<char>, n: int)
    requires
        0 <= n <= s.len(),
        forall|i: int| 0 <= i < n ==> !text::white_space(#[trigger] s[i]),
        n < s.len() ==> text::white_space(s[n]),
    ensures
        leading_word(s) == s.take(n),
{
    lemma_leading_word(s);
    let m = leading_word(s).len() as int;
    if m < n {
        assert(text::white_space(s[m]));
    } else if n < m {
        assert(!text::white_space(s[n]));
    }
}

/// Where the white space from a position on ends.
fn skip_white(chars: &Vec<char>, from: usize) -> (r: usize)
    requires
        from <= chars.len(),
    ensures
        from <= r <= chars.len(),
        chars@.skip(r as int) == text::without_leading(chars@.skip(from as int)),
{
    let mut at: usize = from;
    while at < chars.len() && text::is_white_space(chars[at])
        invariant
            from <= at <= chars.len(),
            text::without_leading(chars@.skip(at as int)) == text::without_leading(
                chars@.skip(from as int),
            ),
        decreases chars.len() - at,
    {
        assert(chars@.skip(at as int).skip(1) =~= chars@.skip(at + 1));
        at = at + 1;
    }
    at
}

/// Where the word at a position ends.
fn skip_word(chars: &Vec<char>, from: usize) -> (r: usize)
    requires
        from <= chars.len(),
    ensures
        from <= r <= chars.len(),
        leading_word(chars@.skip(from as int)) == chars@.subrange(from as int, r as int),
{
    let mut at: usize = from;
    while at < chars.len() && !text::is_white_space(chars[at])
        invariant
            from <= at <= chars.len(),
            forall|i: int| from <= i < at ==> !text::white_space(#[trigger] chars@[i]),
        decreases chars.len() - at,
    {
        at = at + 1;
    }
    proof {
        let s = chars@.skip(from as int);
        assert forall|i: int| 0 <= i < at - from implies !text::white_space(#[trigger] s[i]) by {
            assert(s[i] == chars@[from + i]);
        }
        lemma_leading_word_is(s, at - from);
        assert(s.take(at - from) =~= chars@.subrange(from as int, at as int));
    }
    at
}

/// The second word of a text; empty where there is none.
fn word_two(s: &str) -> (r: String)
    ensures
        r@ == second_word(s@),
{
    let chars = text::chars_of(s);
    assert(chars@.skip(0) =~= chars@);
    let first = skip_white(&chars, 0);
    let first_end = skip_word(&chars, first);
    let second = skip_white(&chars, first_end);
    let second_end = skip_word(&chars, second);
    proof {
        let from_first = chars@.skip(first as int);
        assert(from_first.skip(first_end - first) =~= chars@.skip(first_end as int));
    }
    text::text_between(&chars, second, second_end)
}

/// The route that a path names.
fn route_by_path(path: &str) -> (r: Route)
    ensures
        r == route_for(path@),
{
    if text::same_text(path, "/") || text::same_text(path, "/index.html") {
        Route::Index
    } else if text::same_text(path, "/wterm.wasm") {
        Route::Wasm
    } else if text::same_text(path, "/wterm.css") {
        Route::Css
    } else if text::same_text(path, "/ws") {
        Route::Terminal
    } else {
        Route::NotFound
    }
}

/// Map an HTTP request head (line and headers) to a route: the one that the
/// second word of its first line names.
pub fn route_of(request: &str) -> (r: Route)
    ensures
        r == route_for(second_word(first_line(request@))),
{
    let mut newline: Vec<char> = Vec::new();
    newline.push('\n');
    assert(newline@ =~= seq!['\n']);
    let lines = text::split_text(request, &newline);
    proof {
        text::lemma_split_nonempty(request@, newline@);
    }
    assert(text::texts(lines@)[0] == lines@[0]@);
    let path = word_two(lines[0].as_str());
    route_by_path(path.as_str())
}

/// Map the bytes of an HTTP request head to a route: the one that the text they
/// show names.
pub fn route_of_head(head: &Vec<u8>) -> (r: Route)
    ensures
        r == route_for(second_word(first_line(shell::lossy_text(head@)))),
        valid_utf8(head@) ==> r == route_for(second_word(first_line(decode_utf8(head@)))),
{
    let request = shell::from_utf8_lossy(head);
    route_of(request.as_str())
}

/// The blank line that ends a request head.
pub open spec fn blank_line() -> Seq<u8> {
    seq![13u8, 10u8, 13u8, 10u8]
}

/// Whether bytes end in others.
pub open spec fn ends_in(bytes: Seq<u8>, end: Seq<u8>) -> bool {
    bytes.len() >= end.len() && bytes.skip(bytes.len() - end.len()) == end
}

/// Whether a request head is complete: it ends in the blank line.
pub open spec fn is_complete(bytes: Seq<u8>) -> bool {
    ends_in(bytes, blank_line())
}

/// Whether no shorter part of the bytes is a complete request head.
pub open spec fn is_shortest(bytes: Seq<u8>) -> bool {
    forall|n: int| 0 <= n < bytes.len() ==> !is_complete(#[trigger] bytes.take(n))
}

/// How much of the blank line the bytes end in.
spec fn overlap(bytes: Seq<u8>) -> int {
    if ends_in(bytes, blank_line()) {
        4
    } else if ends_in(bytes, blank_line().take(3)) {
        3
    } else if ends_in(bytes, blank_line().take(2)) {
        2
    } else if ends_in(bytes, blank_line().take(1)) {
        1
    } else {
        0
    }
}

/// A request head as it comes in, byte by byte, so that nothing beyond the
/// blank line is consumed.
#[derive(Debug, PartialEq, Eq)]
pub struct RequestHead {
    bytes: Vec<u8>,
    matched: usize,
}

impl View for RequestHead {
    type V = Seq<u8>;

    closed spec fn view(&self) -> Seq<u8> {
        self.bytes@
    }
}

/// Why a request head cannot be read.
#[derive(Debug, Clone, Copy, PartialEq, Eq, Structural)]
pub enum HeadError {
    /// The head exceeds the size limit.
    TooLong,
    /// The connection closed before the head was complete.
    Closed,
}

impl HeadError {
    /// A message for people.
    pub fn message(&self) -> (r: String)
        ensures
            r@ == match self {
                HeadError::TooLong => "request head exceeds the size limit"@,
                HeadError::Closed => "connection closed before the request head"@,
            },
    {
        match self {
            HeadError::TooLong => "request head exceeds the size limit".to_owned(),
            HeadError::Closed => "connection closed before the request head".to_owned(),
        }
    }
}

proof fn lemma_ends(bytes: Seq<u8>, byte: u8, k: int)
    requires
        1 <= k <= 4,
    ensures
        ends_in(bytes.push(byte), blank_line().take(k)) == (ends_in(bytes, blank_line().take(k - 1))
            && byte == blank_line()[k - 1]),
{
    let after = bytes.push(byte);
    let end = blank_line().take(k);
    let short = blank_line().take(k - 1);
    if ends_in(after, end) {
        let tail = after.skip(after.len() - k);
        assert(tail[k - 1] == byte);
        assert(bytes.skip(bytes.len() - (k - 1)) =~= short) by {
            assert forall|i: int| 0 <= i < k - 1 implies bytes.skip(bytes.len() - (k - 1))[i]
                == short[i] by {
                assert(tail[i] == end[i]);
            }
        }
    }
    if ends_in(bytes, short) && byte == blank_line()[k - 1] {
        let tail = bytes.skip(bytes.len() - (k - 1));
        assert(after.skip(after.len() - k) =~= end) by {
            assert forall|i: int| 0 <= i < k implies after.skip(after.len() - k)[i] == end[i] by {
                if i < k - 1 {
                    assert(tail[i] == short[i]);
                }
            }
        }
    }
}

proof fn lemma_overlap_step(bytes: Seq<u8>, byte: u8)
    requires
        !is_complete(bytes),
    ensures
        overlap(bytes.push(byte)) == if byte == blank_line()[overlap(bytes)] {
            overlap(bytes) + 1
        } else if byte == 13 {
            1
        } else {
            0
        },
        0 <= overlap(bytes) < 4,
{
    assert(blank_line().take(4) =~= blank_line());
    lemma_ends(bytes, byte, 1);
    lemma_ends(bytes, byte, 2);
    lemma_ends(bytes, byte, 3);
    lemma_ends(bytes, byte, 4);
    assert(ends_in(bytes, blank_line().take(0))) by {
        assert(bytes.skip(bytes.len() as int) =~= blank_line().take(0));
    }
    lemma_last_bytes(bytes);
}

/// What the last byte says of the ways to end in part of the blank line.
proof fn lemma_last_bytes(bytes: Seq<u8>)
    ensures
        ends_in(bytes, blank_line().take(1)) ==> bytes.last() == 13,
        ends_in(bytes, blank_line().take(2)) ==> bytes.last() == 10,
        ends_in(bytes, blank_line().take(3)) ==> bytes.last() == 13 && ends_in(
            bytes,
            blank_line().take(1),
        ),
{
    if ends_in(bytes, blank_line().take(1)) {
        let tail = bytes.skip(bytes.len() - 1);
        assert(tail[0] == blank_line().take(1)[0]);
    }
    if ends_in(bytes, blank_line().take(2)) {
        let tail = bytes.skip(bytes.len() - 2);
        assert(tail[1] == blank_line().take(2)[1]);
    }
    if ends_in(bytes, blank_line().take(3)) {
        let tail = bytes.skip(bytes.len() - 3);
        assert(tail[2] == blank_line().take(3)[2]);
        assert(bytes.skip(bytes.len() - 1) =~= blank_line().take(1));
    }
}

impl RequestHead {
    #[verifier::type_invariant]
    spec fn matched_so_far(&self) -> bool {
        self.matched == overlap(self.bytes@) && is_shortest(self.bytes@)
    }

    /// A head of which nothing has come yet.
    pub fn new() -> (r: Self)
        ensures
            r@ == Seq::<u8>::empty(),
    {
        let bytes: Vec<u8> = Vec::new();
        RequestHead { bytes, matched: 0 }
    }

    /// Whether the head is complete: it is the shortest part of what came in
    /// that ends in the blank line.
    pub fn complete(&self) -> (r: bool)
        ensures
            r == is_complete(self@),
            is_shortest(self@),
    {
        proof {
            use_type_invariant(self);
        }
        self.matched == 4
    }

    /// Take the next byte of an incomplete head, or the end of the connection.
    ///
    /// # Errors
    ///
    /// Returns [`HeadError::TooLong`] for a head that has outgrown the limit
    /// without being complete, and [`HeadError::Closed`] where the connection
    /// ends before the head does.
    pub fn accept(&mut self, byte: Option<u8>) -> (r: Result<(), HeadError>)
        requires
            !is_complete(old(self)@),
        ensures
            if old(self)@.len() > MAX_REQUEST_HEAD {
                r == Err::<(), HeadError>(HeadError::TooLong) && final(self)@ == old(self)@
            } else {
                match byte {
                    None => r == Err::<(), HeadError>(HeadError::Closed) && final(self)@ == old(
                        self,
                    )@,
                    Some(byte) => r is Ok && final(self)@ == old(self)@.push(byte),
                }
            },
    {
        proof {
            use_type_invariant(&*self);
        }
        if self.bytes.len() > MAX_REQUEST_HEAD {
            return Err(HeadError::TooLong);
        }
        let byte = match byte {
            Some(byte) => byte,
            None => return Err(HeadError::Closed),
        };
        let ghost before = self.bytes@;
        proof {
            lemma_overlap_step(before, byte);
        }
        let wanted: u8 = if self.matched == 0 || self.matched == 2 {
            13
        } else {
            10
        };
        let matched: usize = if byte == wanted {
            self.matched + 1
        } else if byte == 13 {
            1
        } else {
            0
        };
        let mut taken = RequestHead::new();
        std::mem::swap(self, &mut taken);
        let RequestHead { mut bytes, .. } = taken;
        bytes.push(byte);
        proof {
            assert forall|n: int| 0 <= n < bytes@.len() implies !is_complete(
                #[trigger] bytes@.take(n),
            ) by {
                if n < before.len() {
                    assert(bytes@.take(n) =~= before.take(n));
                } else {
                    assert(bytes@.take(n) =~= before);
                }
            }
        }
        *self = RequestHead { bytes, matched };
        Ok(())
    }

    /// The bytes of the head.
    pub fn into_bytes(self) -> (r: Vec<u8>)
        ensures
            r@ == self@,
    {
        self.bytes
    }
}

/// A request head that is complete holds everything up to the first blank line
/// and nothing behind it: whatever follows on the connection, no other part of
/// the stream is a complete head that ends sooner.
pub proof fn heads_end_at_the_first_blank_line(head: Seq<u8>, following: Seq<u8>, n: int)
    requires
        is_complete(head),
        is_shortest(head),
        0 <= n <= head.len() + following.len(),
        is_complete((head + following).take(n)),
    ensures
        head.len() <= n,
        (head + following).take(head.len() as int) == head,
{
    assert((head + following).take(head.len() as int) =~= head);
    if n < head.len() {
        assert((head + following).take(n) =~= head.take(n));
    }
}

/// Bytes that were consumed and are handed out again before those that follow
/// them.
#[derive(Debug, PartialEq, Eq)]
pub struct Replay {
    prefix: Vec<u8>,
    position: usize,
}

impl View for Replay {
    type V = Seq<u8>;

    /// The bytes that are left to hand out.
    closed spec fn view(&self) -> Seq<u8> {
        self.prefix@.skip(self.position as int)
    }
}

impl Replay {
    #[verifier::type_invariant]
    spec fn in_range(&self) -> bool {
        self.position <= self.prefix.len()
    }

    /// Hand out these bytes.
    pub fn new(prefix: Vec<u8>) -> (r: Self)
        ensures
            r@ == prefix@,
    {
        assert(prefix@.skip(0) =~= prefix@);
        Replay { prefix, position: 0 }
    }

    /// The next bytes, at most `room` of them; none once all were handed out,
    /// and what follows them is to be read instead.
    pub fn next(&mut self, room: usize) -> (r: Option<Vec<u8>>)
        ensures
            match r {
                None => old(self)@.len() == 0 && final(self)@ == old(self)@,
                Some(bytes) => {
                    &&& old(self)@.len() > 0
                    &&& bytes@.len() <= room
                    &&& bytes@.len() == room || final(self)@.len() == 0
                    &&& old(self)@ == bytes@ + final(self)@
                },
            },
    {
        proof {
            use_type_invariant(&*self);
        }
        if self.position >= self.prefix.len() {
            return None;
        }
        let left: usize = self.prefix.len() - self.position;
        let count: usize = if left < room {
            left
        } else {
            room
        };
        let ghost from = self.position as int;
        let mut bytes: Vec<u8> = Vec::new();
        let mut i: usize = 0;
        while i < count
            invariant
                i <= count,
                from == self.position,
                from + count <= self.prefix.len(),
                bytes@ == self.prefix@.subrange(from, from + i),
            decreases count - i,
        {
            bytes.push(self.prefix[self.position + i]);
            i = i + 1;
            assert(bytes@ =~= self.prefix@.subrange(from, from + i));
        }
        self.position = self.position + count;
        assert(old(self)@ =~= bytes@ + self@);
        Some(bytes)
    }
}

/// The status line and the content type of a route's answer.
pub open spec fn status_of(route: Route) -> (Seq<char>, Seq<char>) {
    match route {
        Route::Index => ("200 OK"@, "text/html; charset=utf-8"@),
        Route::Wasm => ("200 OK"@, "application/wasm"@),
        Route::Css => ("200 OK"@, "text/css; charset=utf-8"@),
        Route::Terminal => ("426 Upgrade Required"@, "text/plain; charset=utf-8"@),
        Route::NotFound => ("404 Not Found"@, "text/plain; charset=utf-8"@),
    }
}

/// The head of an answer.
pub open spec fn head_of(route: Route, length: nat) -> Seq<char> {
    "HTTP/1.1 "@ + status_of(route).0 + "\r\nContent-Type: "@ + status_of(route).1
        + "\r\nContent-Length: "@ + text::decimal(length)
        + "\r\nConnection: close\r\nCache-Control: no-store\r\n\r\n"@
}

/// The head of the answer to a route, for a body of so many bytes.
pub fn response_head(route: Route, length: usize) -> (r: String)
    ensures
        r@ == head_of(route, length as nat),
{
    let (status, content_type) = match route {
        Route::Index => ("200 OK", "text/html; charset=utf-8"),
        Route::Wasm => ("200 OK", "application/wasm"),
        Route::Css => ("200 OK", "text/css; charset=utf-8"),
        Route::Terminal => ("426 Upgrade Required", "text/plain; charset=utf-8"),
        Route::NotFound => ("404 Not Found", "text/plain; charset=utf-8"),
    };
    let mut r = text::joined("HTTP/1.1 ", status);
    r.append("\r\nContent-Type: ");
    r.append(content_type);
    r.append("\r\nContent-Length: ");
    text::push_decimal(&mut r, length as u64);
    r.append("\r\nConnection: close\r\nCache-Control: no-store\r\n\r\n");
    r
}

/// What is answered where there is no asset to serve.
pub fn plain_body(route: Route) -> (r: Option<&'static str>)
    ensures
        match route {
            Route::Terminal => r is Some && r->0@ == "websocket upgrade required"@,
            Route::NotFound => r is Some && r->0@ == "not found"@,
            _ => r is None,
        },
{
    match route {
        Route::Terminal => Some("websocket upgrade required"),
        Route::NotFound => Some("not found"),
        _ => None,
    }
}

/// Where a character first stands, from a position on; the length of the text
/// where it does not.
pub open spec fn found_at(s: Seq<char>, c: char, from: int) -> int
    decreases s.len() - from,
{
    if from >= s.len() {
        s.len() as int
    } else if s[from] == c {
        from
    } else {
        found_at(s, c, from + 1)
    }
}

/// Where a character first stands, from a position on.
fn find_char(chars: &Vec<char>, c: char, from: usize) -> (r: usize)
    requires
        from <= chars.len(),
    ensures
        r == found_at(chars@, c, from as int),
        from <= r <= chars.len(),
{
    let mut at: usize = from;
    while at < chars.len() && chars[at] != c
        invariant
            from <= at <= chars.len(),
            found_at(chars@, c, at as int) == found_at(chars@, c, from as int),
        decreases chars.len() - at,
    {
        at = at + 1;
    }
    at
}

/// The number that digits write; none where one of them is no digit.
pub open spec fn digits_value(s: Seq<char>) -> Option<nat>
    decreases s.len(),
{
    if s.len() == 0 {
        Some(0)
    } else {
        match digits_value(s.drop_last()) {
            Some(value) => if '0' <= s.last() <= '9' {
                Some((value * 10 + (s.last() as u32 - '0' as u32)) as nat)
            } else {
                None
            },
            None => None,
        }
    }
}

/// The 32-bit number that a text writes: digits, behind a plus sign perhaps.
pub open spec fn written_number(s: Seq<char>) -> Option<u32> {
    let digits = if s.len() > 0 && s[0] == '+' {
        s.skip(1)
    } else {
        s
    };
    match digits_value(digits) {
        Some(value) => if digits.len() > 0 && value <= u32::MAX {
            Some(value as u32)
        } else {
            None
        },
        None => None,
    }
}

proof fn lemma_digits_prefix(s: Seq<char>, n: int)
    requires
        0 <= n <= s.len(),
    ensures
        digits_value(s) is Some ==> digits_value(s.take(n)) is Some && digits_value(s.take(n))->0
            <= digits_value(s)->0,
    decreases s.len(),
{
    if n < s.len() {
        lemma_digits_prefix(s.drop_last(), n);
        assert(s.drop_last().take(n) =~= s.take(n));
    } else {
        assert(s.take(n) =~= s);
    }
}

/// The 32-bit number that a text writes.
fn read_number(s: &str) -> (r: Option<u32>)
    ensures
        r == written_number(s@),
{
    let chars = text::chars_of(s);
    let start: usize = if chars.len() > 0 && chars[0] == '+' {
        1
    } else {
        0
    };
    let ghost digits = chars@.skip(start as int);
    assert(start == 0 ==> digits =~= s@);
    if start == chars.len() {
        return None;
    }
    let mut value: u64 = 0;
    let mut i: usize = start;
    assert(digits.take(0) =~= Seq::empty());
    while i < chars.len()
        invariant
            start <= i <= chars.len(),
            digits == chars@.skip(start as int),
            digits_value(digits.take(i - start)) == Some(value as nat),
            value <= u32::MAX,
            chars@ == s@,
            digits == (if s@.len() > 0 && s@[0] == '+' {
                s@.skip(1)
            } else {
                s@
            }),
        decreases chars.len() - i,
    {
        let c = chars[i];
        proof {
            assert(digits.take(i + 1 - start).drop_last() =~= digits.take(i - start));
            assert(digits.take(i + 1 - start).last() == c);
            lemma_digits_prefix(digits, i + 1 - start);
        }
        if !('0' <= c && c <= '9') {
            return None;
        }
        value = value * 10 + ((c as u8) - 48) as u64;
        if value > 4_294_967_295 {
            return None;
        }
        i = i + 1;
    }
    assert(digits.take(i - start) =~= digits);
    Some(value as u32)
}

/// The numbers that a list of texts writes; what is no number is left out.
pub open spec fn written_numbers(parts: Seq<Seq<char>>) -> Seq<u32>
    decreases parts.len(),
{
    if parts.len() == 0 {
        Seq::empty()
    } else {
        let rest = written_numbers(parts.drop_last());
        match written_number(text::trimmed(parts.last())) {
            Some(number) => rest.push(number),
            None => rest,
        }
    }
}

/// A number of cells that a terminal can have, nearest to a given one.
pub open spec fn within_cells(n: u32) -> u16 {
    if n < MIN_CELLS {
        MIN_CELLS as u16
    } else if n > MAX_CELLS {
        MAX_CELLS as u16
    } else {
        n as u16
    }
}

/// A number of cells that a terminal can have, nearest to a given one.
fn clamp_cells(n: u32) -> (r: u16)
    ensures
        r == within_cells(n),
{
    if n < MIN_CELLS {
        2
    } else if n > MAX_CELLS {
        500
    } else {
        n as u16
    }
}

/// The size that a terminal is to take.
#[derive(Debug, Clone, Copy, PartialEq, Eq, Structural)]
pub struct TerminalSize {
    /// Rows of text.
    pub rows: u16,
    /// Columns of text.
    pub cols: u16,
}

/// The list inside the first brackets of a text, if it has any.
pub open spec fn bracketed(s: Seq<char>) -> Option<Seq<char>> {
    let open = found_at(s, '[', 0);
    let close = found_at(s, ']', open + 1);
    if open < s.len() && close < s.len() {
        Some(s.subrange(open + 1, close))
    } else {
        None
    }
}

/// The size that a control message asks for: two numbers in the first
/// brackets, columns and then rows. Anything else asks for nothing.
pub open spec fn resize_for(message: Seq<char>) -> Option<TerminalSize> {
    match bracketed(message) {
        None => None,
        Some(list) => {
            let numbers = written_numbers(text::split(list, seq![',']));
            if numbers.len() == 2 {
                Some(
                    TerminalSize { rows: within_cells(numbers[1]), cols: within_cells(numbers[0]) },
                )
            } else {
                None
            }
        },
    }
}

/// The numbers that a list of texts writes; what is no number is left out.
fn read_numbers(parts: &Vec<String>) -> (r: Vec<u32>)
    ensures
        r@ == written_numbers(text::texts(parts@)),
{
    let ghost all = text::texts(parts@);
    let mut r: Vec<u32> = Vec::new();
    let mut i: usize = 0;
    assert(all.take(0) =~= Seq::empty());
    while i < parts.len()
        invariant
            i <= parts.len(),
            all == text::texts(parts@),
            r@ == written_numbers(all.take(i as int)),
        decreases parts.len() - i,
    {
        proof {
            assert(all.take(i + 1).drop_last() =~= all.take(i as int));
            assert(all.take(i + 1).last() == parts@[i as int]@);
        }
        let part = text::trim_text(parts[i].as_str());
        if let Some(number) = read_number(part.as_str()) {
            r.push(number);
        }
        i = i + 1;
    }
    assert(all.take(i as int) =~= all);
    r
}

/// The size that a client control message asks for. Only
/// `{"resize":[cols,rows]}` is defined.
pub fn control_resize(message: &str) -> (r: Option<TerminalSize>)
    ensures
        r == resize_for(message@),
{
    let chars = text::chars_of(message);
    let open = find_char(&chars, '[', 0);
    if open == chars.len() {
        return None;
    }
    let close = find_char(&chars, ']', open + 1);
    if close == chars.len() {
        return None;
    }
    let list = text::text_between(&chars, open + 1, close);
    let mut comma: Vec<char> = Vec::new();
    comma.push(',');
    assert(comma@ =~= seq![',']);
    let parts = text::split_text(list.as_str(), &comma);
    let numbers = read_numbers(&parts);
    if numbers.len() == 2 {
        Some(TerminalSize { rows: clamp_cells(numbers[1]), cols: clamp_cells(numbers[0]) })
    } else {
        None
    }
}

/// What came of reading the socket of a terminal.
#[derive(Debug, PartialEq, Eq)]
pub enum SocketEvent {
    /// Typed bytes.
    Binary(Vec<u8>),
    /// A control message.
    Text(String),
    /// A ping.
    Ping(Vec<u8>),
    /// A pong, or a raw frame.
    Ignored,
    /// Nothing within the poll window.
    Quiet,
    /// The client closed the connection, or it broke.
    Closed,
}

/// What the terminal bridge does with what it read.
#[derive(Debug, PartialEq, Eq)]
pub enum BridgeAction {
    /// Write bytes to the terminal.
    Write(Vec<u8>),
    /// Resize the terminal.
    Resize(TerminalSize),
    /// Answer a ping.
    Pong(Vec<u8>),
    /// Nothing.
    Nothing,
    /// End the bridge.
    Stop,
}

/// What the terminal bridge does with what it read.
pub fn bridge_action(event: SocketEvent) -> (r: BridgeAction)
    ensures
        r == match event {
            SocketEvent::Binary(bytes) => BridgeAction::Write(bytes),
            SocketEvent::Text(message) => match resize_for(message@) {
                Some(size) => BridgeAction::Resize(size),
                None => BridgeAction::Nothing,
            },
            SocketEvent::Ping(payload) => BridgeAction::Pong(payload),
            SocketEvent::Ignored => BridgeAction::Nothing,
            SocketEvent::Quiet => BridgeAction::Nothing,
            SocketEvent::Closed => BridgeAction::Stop,
        },
{
    match event {
        SocketEvent::Binary(bytes) => BridgeAction::Write(bytes),
        SocketEvent::Text(message) => match control_resize(message.as_str()) {
            Some(size) => BridgeAction::Resize(size),
            None => BridgeAction::Nothing,
        },
        SocketEvent::Ping(payload) => BridgeAction::Pong(payload),
        SocketEvent::Ignored => BridgeAction::Nothing,
        SocketEvent::Quiet => BridgeAction::Nothing,
        SocketEvent::Closed => BridgeAction::Stop,
    }
}

/// A terminal is never resized below two or above five hundred cells either
/// way, whatever a control message says.
pub proof fn resizes_are_bounded(message: Seq<char>)
    ensures
        resize_for(message) matches Some(size) ==> 2 <= size.rows <= 500 && 2 <= size.cols <= 500,
{
}

} // verus!
