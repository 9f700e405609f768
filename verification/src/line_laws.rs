//! What each line of the shell means: how it is spelled, and the plan it makes.

use vstd::prelude::*;
use crate::shell_lex;
use crate::shell_lex::{Operator, ParseError, Piece, TokenModel};
use crate::text;

verus! {

/// How an operator is written.
pub open spec fn operator_text(operator: Operator) -> Seq<char> {
    match operator {
        Operator::Pipe => seq!['|'],
        Operator::And => seq!['&', '&'],
        Operator::Or => seq!['|', '|'],
        Operator::Semi => seq![';'],
        Operator::RedirectIn => seq!['<'],
        Operator::RedirectOut => seq!['>'],
        Operator::RedirectAppend => seq!['>', '>'],
        Operator::Background => seq!['&'],
        Operator::OpenParen => seq!['('],
        Operator::CloseParen => seq![')'],
    }
}

/// Whether a character stands for itself outside quotes.
pub open spec fn is_plain(c: char) -> bool {
    &&& !text::white_space(c)
    &&& c != '\\' && c != '\'' && c != '"' && c != '`' && c != '$'
    &&& c != '|' && c != '&' && c != ';' && c != '<' && c != '>' && c != '(' && c != ')'
}

/// Whether a character stands for itself inside double quotes.
pub open spec fn is_plain_in_quotes(c: char) -> bool {
    c != '\\' && c != '"' && c != '`' && c != '$'
}

/// A text with a backslash before each character.
pub open spec fn backslashed(word: Seq<char>) -> Seq<char> {
    Seq::new(
        2 * word.len(),
        |i: int|
            if i % 2 == 0 {
                '\\'
            } else {
                word[i / 2]
            },
    )
}

/// How a token is written.
pub enum Spelling {
    /// A word as it is, of characters that stand for themselves.
    Bare(Seq<char>),
    /// A word in single quotes.
    Single(Seq<char>),
    /// A word in double quotes, of characters that stand for themselves there.
    Double(Seq<char>),
    /// A word with a backslash before each character.
    Escaped(Seq<char>),
    /// An operator.
    Operator(Operator),
    /// A line break.
    Newline,
}

/// The text of a spelling.
pub open spec fn spelled(spelling: Spelling) -> Seq<char> {
    match spelling {
        Spelling::Bare(word) => word,
        Spelling::Single(word) => seq!['\''] + word + seq!['\''],
        Spelling::Double(word) => seq!['"'] + word + seq!['"'],
        Spelling::Escaped(word) => backslashed(word),
        Spelling::Operator(operator) => operator_text(operator),
        Spelling::Newline => seq!['\n'],
    }
}

/// The token that a spelling stands for.
pub open spec fn token_of(spelling: Spelling) -> TokenModel {
    match spelling {
        Spelling::Bare(word) => TokenModel::Word(word),
        Spelling::Single(word) => TokenModel::Word(word),
        Spelling::Double(word) => TokenModel::Word(word),
        Spelling::Escaped(word) => TokenModel::Word(word),
        Spelling::Operator(operator) => TokenModel::Operator(operator),
        Spelling::Newline => TokenModel::Newline,
    }
}

/// Whether a word can be spelled so.
pub open spec fn can_spell(spelling: Spelling) -> bool {
    match spelling {
        Spelling::Bare(word) => word.len() > 0 && forall|i: int|
            0 <= i < word.len() ==> is_plain(#[trigger] word[i]),
        Spelling::Single(word) => !word.contains('\''),
        Spelling::Double(word) => forall|i: int|
            0 <= i < word.len() ==> is_plain_in_quotes(#[trigger] word[i]),
        Spelling::Escaped(word) => word.len() > 0,
        _ => true,
    }
}

/// A line of spellings, a blank before each.
pub open spec fn line_of(spellings: Seq<Spelling>) -> Seq<char>
    decreases spellings.len(),
{
    if spellings.len() == 0 {
        Seq::empty()
    } else {
        line_of(spellings.drop_last()) + (seq![' '] + spelled(spellings.last()))
    }
}

/// The tokens that spellings stand for.
pub open spec fn tokens_meant(spellings: Seq<Spelling>) -> Seq<TokenModel> {
    Seq::new(spellings.len(), |i: int| token_of(spellings[i]))
}

proof fn lemma_line_prefix(spellings: Seq<Spelling>, k: int)
    requires
        0 <= k <= spellings.len(),
    ensures
        line_of(spellings.take(k)).len() <= line_of(spellings).len(),
        line_of(spellings).take(line_of(spellings.take(k)).len() as int) == line_of(
            spellings.take(k),
        ),
    decreases spellings.len() - k,
{
    if k == spellings.len() {
        assert(spellings.take(k) =~= spellings);
        assert(line_of(spellings).take(line_of(spellings).len() as int) =~= line_of(spellings));
    } else {
        lemma_line_prefix(spellings, k + 1);
        let longer = line_of(spellings.take(k + 1));
        let shorter = line_of(spellings.take(k));
        assert(spellings.take(k + 1).drop_last() =~= spellings.take(k));
        assert(longer == shorter + (seq![' '] + spelled(spellings[k])));
        let line = line_of(spellings);
        assert forall|j: int| 0 <= j < shorter.len() implies line[j] == shorter[j] by {
            assert(line.take(longer.len() as int)[j] == longer[j]);
        }
        assert(line.take(shorter.len() as int) =~= shorter);
    }
}

proof fn lemma_double_quoted(s: Seq<char>, i: int, word: Seq<char>, start: Seq<char>)
    requires
        0 <= i,
        i + word.len() < s.len(),
        s.subrange(i, i + word.len()) == word,
        s[i + word.len()] == '"',
        forall|j: int| 0 <= j < word.len() ==> is_plain_in_quotes(#[trigger] word[j]),
    ensures
        shell_lex::quoted(s, i, '"', start) == Ok::<(Seq<char>, int), ParseError>(
            (start + word, i + word.len() + 1),
        ),
    decreases word.len(),
{
    if word.len() == 0 {
        assert(start + word =~= start);
    } else {
        assert(s[i] == s.subrange(i, i + word.len())[0]);
        assert(is_plain_in_quotes(word[0]));
        let rest = word.skip(1);
        assert(s.subrange(i + 1, i + 1 + rest.len()) =~= rest) by {
            assert forall|j: int| 0 <= j < rest.len() implies s[i + 1 + j] == rest[j] by {
                assert(s.subrange(i, i + word.len())[j + 1] == word[j + 1]);
            }
        }
        assert forall|j: int| 0 <= j < rest.len() implies is_plain_in_quotes(
            #[trigger] rest[j],
        ) by {
            assert(rest[j] == word[j + 1]);
        }
        lemma_double_quoted(s, i + 1, rest, start.push(s[i]));
        assert(start.push(s[i]) + rest =~= start + word);
    }
}

proof fn lemma_single_quoted(s: Seq<char>, i: int, word: Seq<char>, start: Seq<char>)
    requires
        0 <= i,
        i + word.len() < s.len(),
        s.subrange(i, i + word.len()) == word,
        s[i + word.len()] == '\'',
        !word.contains('\''),
    ensures
        shell_lex::quoted(s, i, '\'', start) == Ok::<(Seq<char>, int), ParseError>(
            (start + word, i + word.len() + 1),
        ),
    decreases word.len(),
{
    if word.len() == 0 {
        assert(start + word =~= start);
    } else {
        assert(s[i] == s.subrange(i, i + word.len())[0]);
        assert(word.contains(word[0]));
        let rest = word.skip(1);
        assert(s.subrange(i + 1, i + 1 + rest.len()) =~= rest) by {
            assert forall|j: int| 0 <= j < rest.len() implies s[i + 1 + j] == rest[j] by {
                assert(s.subrange(i, i + word.len())[j + 1] == word[j + 1]);
            }
        }
        assert(!rest.contains('\'')) by {
            if rest.contains('\'') {
                let j = choose|j: int| 0 <= j < rest.len() && rest[j] == '\'';
                assert(word[j + 1] == '\'');
            }
        }
        lemma_single_quoted(s, i + 1, rest, start.push(s[i]));
        assert(start.push(s[i]) + rest =~= start + word);
    }
}

/// Reading the first `k` characters of a bare word.
proof fn lemma_bare(
    s: Seq<char>,
    i: int,
    word: Seq<char>,
    k: int,
    done: Seq<TokenModel>,
    max: usize,
)
    requires
        0 <= i,
        i + word.len() <= s.len(),
        s.subrange(i, i + word.len()) == word,
        forall|j: int| 0 <= j < word.len() ==> is_plain(#[trigger] word[j]),
        1 <= k <= word.len(),
    ensures
        shell_lex::tokens_from(s, i, done, None, max) == shell_lex::tokens_from(
            s,
            i + k,
            done,
            Some(word.take(k)),
            max,
        ),
    decreases k,
{
    let c = s[i + k - 1];
    assert(c == s.subrange(i, i + word.len())[k - 1]);
    assert(is_plain(word[k - 1]));
    assert(shell_lex::piece_at(s, i + k - 1) == Ok::<(Piece, int), ParseError>(
        (Piece::Text(seq![c]), i + k),
    ));
    if k == 1 {
        assert(word.take(1) =~= seq![c]);
    } else {
        lemma_bare(s, i, word, k - 1, done, max);
        assert(word.take(k) =~= word.take(k - 1) + seq![c]);
    }
}

/// Reading the first `k` characters of a word with backslashes.
proof fn lemma_backslashed(
    s: Seq<char>,
    i: int,
    word: Seq<char>,
    k: int,
    done: Seq<TokenModel>,
    max: usize,
)
    requires
        0 <= i,
        i + 2 * word.len() <= s.len(),
        s.subrange(i, i + 2 * word.len()) == backslashed(word),
        1 <= k <= word.len(),
    ensures
        shell_lex::tokens_from(s, i, done, None, max) == shell_lex::tokens_from(
            s,
            i + 2 * k,
            done,
            Some(word.take(k)),
            max,
        ),
    decreases k,
{
    let at = i + 2 * (k - 1);
    let all = s.subrange(i, i + 2 * word.len());
    assert(s[at] == all[2 * (k - 1)]);
    assert(s[at + 1] == all[2 * (k - 1) + 1]);
    assert(s[at] == '\\' && s[at + 1] == word[k - 1]);
    assert(shell_lex::piece_at(s, at) == Ok::<(Piece, int), ParseError>(
        (Piece::Text(seq![word[k - 1]]), at + 2),
    ));
    if k == 1 {
        assert(word.take(1) =~= seq![word[0]]);
    } else {
        lemma_backslashed(s, i, word, k - 1, done, max);
        assert(word.take(k) =~= word.take(k - 1) + seq![word[k - 1]]);
    }
}

/// What has been read behind the first `k` spellings.
spec fn read_so_far(spellings: Seq<Spelling>, k: int) -> (Seq<TokenModel>, Option<Seq<char>>) {
    if k > 0 && token_of(spellings[k - 1]) is Word {
        (tokens_meant(spellings.take(k - 1)), Some(token_of(spellings[k - 1])->Word_0))
    } else {
        (tokens_meant(spellings.take(k)), None)
    }
}

/// Whether a line starts with spellings, behind which a blank or nothing stands.
pub open spec fn starts_spelled(line: Seq<char>, spellings: Seq<Spelling>) -> bool {
    let n = line_of(spellings).len() as int;
    &&& n <= line.len()
    &&& line.take(n) == line_of(spellings)
    &&& n < line.len() ==> line[n] == ' '
}

#[verifier::rlimit(60)]
#[verifier::spinoff_prover]
proof fn lemma_line_read(spellings: Seq<Spelling>, line: Seq<char>, k: int, max: usize)
    requires
        0 <= k <= spellings.len() <= max,
        forall|j: int| 0 <= j < spellings.len() ==> can_spell(#[trigger] spellings[j]),
        starts_spelled(line, spellings),
    ensures
        shell_lex::tokens_of(line, max) == shell_lex::tokens_from(
            line,
            line_of(spellings.take(k)).len() as int,
            read_so_far(spellings, k).0,
            read_so_far(spellings, k).1,
            max,
        ),
    decreases k,
{
    if k == 0 {
        assert(spellings.take(0) =~= Seq::empty());
        assert(tokens_meant(spellings.take(0)) =~= Seq::empty());
    } else {
        lemma_line_read(spellings, line, k - 1, max);
        let whole = line_of(spellings);
        let spelling = spellings[k - 1];
        let own = seq![' '] + spelled(spelling);
        let from = line_of(spellings.take(k - 1)).len() as int;
        let to = line_of(spellings.take(k)).len() as int;
        let done = tokens_meant(spellings.take(k - 1));
        assert(can_spell(spelling));
        lemma_line_prefix(spellings, k);
        assert(spellings.take(k).drop_last() =~= spellings.take(k - 1));
        assert(line_of(spellings.take(k)) == line_of(spellings.take(k - 1)) + own);
        let read = line_of(spellings.take(k));
        assert(to == from + own.len());
        assert forall|j: int| 0 <= j < own.len() implies line[from + j] == own[j] by {
            assert(whole.take(to)[from + j] == read[from + j]);
            assert(line.take(whole.len() as int)[from + j] == whole[from + j]);
        }
        assert(line[from] == own[0]);
        assert(line.subrange(from + 1, to) =~= spelled(spelling)) by {
            assert forall|j: int| 0 <= j < spelled(spelling).len() implies line[from + 1 + j]
                == spelled(spelling)[j] by {
                assert(line[from + (1 + j)] == own[1 + j]);
            }
        }
        // Behind a spelling stands a blank, or nothing.
        assert(shell_lex::char_at(line, to) == ' ' || shell_lex::char_at(line, to) == '\0') by {
            if k < spellings.len() {
                lemma_line_prefix(spellings, k + 1);
                assert(spellings.take(k + 1).drop_last() =~= spellings.take(k));
                let longer = line_of(spellings.take(k + 1));
                assert(longer[to] == ' ');
                assert(whole.take(longer.len() as int)[to] == longer[to]);
                assert(line.take(whole.len() as int)[to] == whole[to]);
            } else {
                assert(spellings.take(k) =~= spellings);
            }
        }
        assert(shell_lex::piece_at(line, from) == Ok::<(Piece, int), ParseError>(
            (Piece::Blank, from + 1),
        ));
        assert(shell_lex::tokens_of(line, max) == shell_lex::tokens_from(
            line,
            from + 1,
            done,
            None,
            max,
        )) by {
            if k > 1 && token_of(spellings[k - 2]) is Word {
                assert(done =~= tokens_meant(spellings.take(k - 2)).push(
                    token_of(spellings[k - 2]),
                ));
            }
        }
        let all = tokens_meant(spellings.take(k));
        assert(all =~= done.push(token_of(spelling)));
        match spelling {
            Spelling::Bare(word) => {
                lemma_bare(line, from + 1, word, word.len() as int, done, max);
                assert(word.take(word.len() as int) =~= word);
            },
            Spelling::Escaped(word) => {
                lemma_backslashed(line, from + 1, word, word.len() as int, done, max);
                assert(word.take(word.len() as int) =~= word);
            },
            Spelling::Single(word) => {
                assert(line[from + 1] == own[1]);
                assert(line[from + 2 + word.len()] == own[2 + word.len() as int]);
                assert(line.subrange(from + 2, from + 2 + word.len()) =~= word) by {
                    assert forall|j: int| 0 <= j < word.len() implies line[from + 2 + j]
                        == word[j] by {
                        assert(line[from + (2 + j)] == own[2 + j]);
                    }
                }
                lemma_single_quoted(line, from + 2, word, Seq::empty());
                assert(Seq::<char>::empty() + word =~= word);
                assert(shell_lex::piece_at(line, from + 1) == Ok::<(Piece, int), ParseError>(
                    (Piece::Text(word), to),
                ));
            },
            Spelling::Double(word) => {
                assert(line[from + 1] == own[1]);
                assert(line[from + 2 + word.len()] == own[2 + word.len() as int]);
                assert(line.subrange(from + 2, from + 2 + word.len()) =~= word) by {
                    assert forall|j: int| 0 <= j < word.len() implies line[from + 2 + j]
                        == word[j] by {
                        assert(line[from + (2 + j)] == own[2 + j]);
                    }
                }
                lemma_double_quoted(line, from + 2, word, Seq::empty());
                assert(Seq::<char>::empty() + word =~= word);
                assert(shell_lex::piece_at(line, from + 1) == Ok::<(Piece, int), ParseError>(
                    (Piece::Text(word), to),
                ));
            },
            Spelling::Operator(operator) => {
                assert(line[from + 1] == own[1]);
                if own.len() == 3 {
                    assert(line[from + 2] == own[2]);
                }
                assert(shell_lex::piece_at(line, from + 1) == Ok::<(Piece, int), ParseError>(
                    (Piece::Operator(operator), to),
                ));
            },
            Spelling::Newline => {
                assert(line[from + 1] == own[1]);
                assert(shell_lex::piece_at(line, from + 1) == Ok::<(Piece, int), ParseError>(
                    (Piece::Newline, to),
                ));
            },
        }
    }
}

/// A line is read as what it spells: words as they are, in either kind of
/// quotes or behind backslashes, each operator by its own text, and line
/// breaks. Quotes and backslashes keep every metacharacter a part of its word.
pub proof fn lines_are_read_as_they_are_spelled(spellings: Seq<Spelling>, max: usize)
    requires
        spellings.len() <= max,
        forall|j: int| 0 <= j < spellings.len() ==> can_spell(#[trigger] spellings[j]),
    ensures
        shell_lex::tokens_of(line_of(spellings), max) == Ok::<Seq<TokenModel>, ParseError>(
            tokens_meant(spellings),
        ),
{
    let n = spellings.len() as int;
    assert(line_of(spellings).take(line_of(spellings).len() as int) =~= line_of(spellings));
    lemma_line_read(spellings, line_of(spellings), n, max);
    assert(spellings.take(n) =~= spellings);
    if n > 0 && token_of(spellings[n - 1]) is Word {
        assert(tokens_meant(spellings.take(n - 1)).push(token_of(spellings[n - 1]))
            =~= tokens_meant(spellings));
    }
}

/// A line behind which something follows that starts a new word.
spec fn followed(spellings: Seq<Spelling>, start: Seq<char>, rest: Seq<char>) -> Seq<char> {
    line_of(spellings) + (seq![' '] + start) + rest
}

proof fn lemma_followed(spellings: Seq<Spelling>, start: Seq<char>, rest: Seq<char>, max: usize)
    requires
        spellings.len() <= max,
        start.len() > 0,
        forall|j: int| 0 <= j < spellings.len() ==> can_spell(#[trigger] spellings[j]),
    ensures
        ({
            let line = followed(spellings, start, rest);
            let n = line_of(spellings).len() as int;
            &&& forall|j: int| 0 <= j < start.len() ==> line[n + 1 + j] == #[trigger] start[j]
            &&& forall|j: int|
                0 <= j < rest.len() ==> line[n + 1 + start.len() + j] == #[trigger] rest[j]
            &&& line.len() == n + 1 + start.len() + rest.len()
            &&& shell_lex::tokens_of(line, max) == shell_lex::tokens_from(
                line,
                n + 1,
                tokens_meant(spellings),
                None,
                max,
            )
        }),
{
    let line = followed(spellings, start, rest);
    let n = line_of(spellings).len() as int;
    let k = spellings.len() as int;
    assert(line.take(n) =~= line_of(spellings));
    assert(line[n] == ' ');
    lemma_line_read(spellings, line, k, max);
    assert(spellings.take(k) =~= spellings);
    assert(shell_lex::piece_at(line, n) == Ok::<(Piece, int), ParseError>((Piece::Blank, n + 1)));
    if k > 0 && token_of(spellings[k - 1]) is Word {
        assert(tokens_meant(spellings.take(k - 1)).push(token_of(spellings[k - 1]))
            =~= tokens_meant(spellings));
    }
}

/// Nothing is ever expanded: a word that starts with a variable, a command
/// substitution or an arithmetic expansion is refused, whatever stands before
/// and behind it, outside quotes and inside double quotes.
pub proof fn expansions_are_refused(
    spellings: Seq<Spelling>,
    quote: bool,
    c: char,
    rest: Seq<char>,
    max: usize,
)
    requires
        spellings.len() <= max,
        forall|j: int| 0 <= j < spellings.len() ==> can_spell(#[trigger] spellings[j]),
    ensures
        ({
            let open = if quote {
                seq!['"']
            } else {
                Seq::empty()
            };
            let name = line_of(spellings) + (seq![' '] + (open + seq!['$', c])) + rest;
            let arithmetic = line_of(spellings) + (seq![' '] + (open + seq!['$', '(', '('])) + rest;
            let backtick = line_of(spellings) + (seq![' '] + (open + seq!['`'])) + rest;
            &&& ('a' <= c <= 'z' || 'A' <= c <= 'Z' || c == '_' || c == '{')
                ==> shell_lex::tokens_of(name, max) == Err::<Seq<TokenModel>, ParseError>(
                ParseError::UnsupportedConstruct("environment-variable expansion"),
            )
            &&& c == '(' && !(rest.len() > 0 && rest[0] == '(') ==> shell_lex::tokens_of(name, max)
                == Err::<Seq<TokenModel>, ParseError>(
                ParseError::UnsupportedConstruct("command substitution"),
            )
            &&& shell_lex::tokens_of(arithmetic, max) == Err::<Seq<TokenModel>, ParseError>(
                ParseError::UnsupportedConstruct("arithmetic expansion"),
            )
            &&& shell_lex::tokens_of(backtick, max) == Err::<Seq<TokenModel>, ParseError>(
                ParseError::UnsupportedConstruct("command substitution"),
            )
        }),
{
    let open = if quote {
        seq!['"']
    } else {
        Seq::empty()
    };
    let n = line_of(spellings).len() as int;
    let at = n + 1 + open.len();
    {
        let start = open + seq!['$', c];
        lemma_followed(spellings, start, rest, max);
        let line = followed(spellings, start, rest);
        assert(line[n + 1] == start[0]);
        assert(line[at] == start[open.len() as int]);
        assert(line[at + 1] == start[open.len() as int + 1]);
        if rest.len() > 0 {
            assert(line[at + 2] == rest[0]);
        }
    }
    {
        let start = open + seq!['$', '(', '('];
        lemma_followed(spellings, start, rest, max);
        let line = followed(spellings, start, rest);
        assert(line[n + 1] == start[0]);
        assert(line[at] == start[open.len() as int]);
        assert(line[at + 1] == start[open.len() as int + 1]);
        assert(line[at + 2] == start[open.len() as int + 2]);
    }
    {
        let start = open + seq!['`'];
        lemma_followed(spellings, start, rest, max);
        let line = followed(spellings, start, rest);
        assert(line[n + 1] == start[0]);
        assert(line[at] == start[open.len() as int]);
    }
}

proof fn lemma_unclosed(s: Seq<char>, i: int, quote: char, start: Seq<char>)
    requires
        0 <= i <= s.len(),
        quote == '\'' || quote == '"',
        forall|j: int|
            i <= j < s.len() ==> (#[trigger] s[j]) != quote && (quote == '"' ==> is_plain_in_quotes(
                s[j],
            )),
    ensures
        shell_lex::quoted(s, i, quote, start) == Err::<(Seq<char>, int), ParseError>(
            ParseError::UnterminatedQuote,
        ),
    decreases s.len() - i,
{
    if i < s.len() {
        assert(s[i] != quote);
        lemma_unclosed(s, i + 1, quote, start.push(s[i]));
    }
}

/// A quote that is opened has to be closed, and a backslash cannot be the last
/// character, whatever stands before.
pub proof fn unfinished_words_are_refused(
    spellings: Seq<Spelling>,
    quote: char,
    rest: Seq<char>,
    max: usize,
)
    requires
        spellings.len() <= max,
        forall|j: int| 0 <= j < spellings.len() ==> can_spell(#[trigger] spellings[j]),
        quote == '\'' || quote == '"',
        forall|j: int|
            0 <= j < rest.len() ==> (#[trigger] rest[j]) != quote && (quote == '"'
                ==> is_plain_in_quotes(rest[j])),
    ensures
        shell_lex::tokens_of(line_of(spellings) + (seq![' '] + seq![quote]) + rest, max) == Err::<
            Seq<TokenModel>,
            ParseError,
        >(ParseError::UnterminatedQuote),
        shell_lex::tokens_of(
            line_of(spellings) + (seq![' '] + seq!['\\']) + Seq::<char>::empty(),
            max,
        ) == Err::<Seq<TokenModel>, ParseError>(ParseError::TrailingEscape),
{
    let n = line_of(spellings).len() as int;
    let start = seq![quote];
    lemma_followed(spellings, start, rest, max);
    let line = followed(spellings, start, rest);
    assert(line[n + 1] == start[0]);
    assert forall|j: int| n + 2 <= j < line.len() implies (#[trigger] line[j]) != quote && (quote
        == '"' ==> is_plain_in_quotes(line[j])) by {
        assert(line[j] == rest[j - n - 2]);
    }
    lemma_unclosed(line, n + 2, quote, Seq::empty());
    let none = Seq::<char>::empty();
    lemma_followed(spellings, seq!['\\'], none, max);
    let line = followed(spellings, seq!['\\'], none);
    assert(line[n + 1] == seq!['\\'][0]);
}

proof fn lemma_escaped_in_quotes(s: Seq<char>, i: int, word: Seq<char>, start: Seq<char>)
    requires
        0 <= i,
        i + 2 * word.len() < s.len(),
        s.subrange(i, i + 2 * word.len()) == backslashed(word),
        s[i + 2 * word.len()] == '"',
    ensures
        shell_lex::quoted(s, i, '"', start) == Ok::<(Seq<char>, int), ParseError>(
            (start + word, i + 2 * word.len() + 1),
        ),
    decreases word.len(),
{
    let all = s.subrange(i, i + 2 * word.len());
    if word.len() == 0 {
        assert(start + word =~= start);
    } else {
        let rest = word.skip(1);
        assert(s[i] == all[0] && s[i + 1] == all[1]);
        assert(s.subrange(i + 2, i + 2 + 2 * rest.len()) =~= backslashed(rest)) by {
            assert forall|k: int| 0 <= k < 2 * rest.len() implies s[i + 2 + k]
                == #[trigger] backslashed(rest)[k] by {
                assert(s[i + 2 + k] == all[2 + k]);
                assert((2 + k) % 2 == k % 2 && (2 + k) / 2 == k / 2 + 1);
            }
        }
        lemma_escaped_in_quotes(s, i + 2, rest, start.push(word[0]));
        assert(start.push(word[0]) + rest =~= start + word);
    }
}

/// In double quotes a backslash stands for the character behind it, whatever that
/// is, and is no part of the word itself.
pub proof fn backslashes_in_quotes_keep_the_character(word: Seq<char>, max: usize)
    requires
        max >= 1,
    ensures
        shell_lex::tokens_of(seq!['"'] + backslashed(word) + seq!['"'], max) == Ok::<
            Seq<TokenModel>,
            ParseError,
        >(seq![TokenModel::Word(word)]),
{
    let line = seq!['"'] + backslashed(word) + seq!['"'];
    assert(line.subrange(1, 1 + 2 * word.len() as int) =~= backslashed(word));
    lemma_escaped_in_quotes(line, 1, word, Seq::empty());
    assert(Seq::<char>::empty() + word =~= word);
    reveal_with_fuel(shell_lex::tokens_from, 2);
    assert(Seq::<TokenModel>::empty().push(TokenModel::Word(word)) =~= seq![
        TokenModel::Word(word),
    ]);
}

} // verus!
