//! The bounded tokenizer of the Ferrous Shell: quoting, escapes and operators.

use vstd::prelude::*;
use crate::text;

verus! {

/// A lexical token.
#[derive(Debug, PartialEq, Eq)]
pub enum Token {
    /// A word (quoted or unquoted, escapes resolved).
    Word(String),
    /// An operator.
    Operator(Operator),
    /// A line break outside quotes; it separates as `;` does.
    Newline,
    /// End of input.
    End,
}

/// Operators recognized by the tokenizer.
#[derive(Clone, Copy, Debug, PartialEq, Eq, Structural)]
pub enum Operator {
    /// `|`
    Pipe,
    /// `&&`
    And,
    /// `||`
    Or,
    /// `;`
    Semi,
    /// `<`
    RedirectIn,
    /// `>`
    RedirectOut,
    /// `>>`
    RedirectAppend,
    /// `&`
    Background,
    /// `(`
    OpenParen,
    /// `)`
    CloseParen,
}

/// What a [`Token`] denotes.
pub enum TokenModel {
    /// A word.
    Word(Seq<char>),
    /// An operator.
    Operator(Operator),
    /// A newline.
    Newline,
    /// End of input.
    End,
}

impl View for Token {
    type V = TokenModel;

    open spec fn view(&self) -> TokenModel {
        match self {
            Token::Word(word) => TokenModel::Word(word@),
            Token::Operator(operator) => TokenModel::Operator(*operator),
            Token::Newline => TokenModel::Newline,
            Token::End => TokenModel::End,
        }
    }
}

impl Clone for Token {
    fn clone(&self) -> (r: Self)
        ensures
            r@ == self@,
    {
        match self {
            Token::Word(word) => Token::Word(word.clone()),
            Token::Operator(operator) => Token::Operator(*operator),
            Token::Newline => Token::Newline,
            Token::End => Token::End,
        }
    }
}

/// What a list of tokens denotes.
pub open spec fn token_models(list: Seq<Token>) -> Seq<TokenModel> {
    Seq::new(list.len(), |i: int| list[i]@)
}

/// Errors produced while parsing.
#[derive(Clone, Copy, Debug, PartialEq, Eq)]
pub enum ParseError {
    /// A quote was opened but never closed.
    UnterminatedQuote,
    /// A backslash was the final character.
    TrailingEscape,
    /// An operator was used where a command was required.
    InvalidOperator(&'static str),
    /// A construct was recognized but is intentionally unsupported.
    UnsupportedConstruct(&'static str),
    /// The input exceeded a bound.
    InputTooLong(usize),
    /// The token count exceeded a bound.
    TooManyTokens(usize),
    /// Too many pipeline stages.
    TooManyPipelineStages(usize),
    /// Too many statements in one plan.
    TooManyStatements(usize),
    /// A NUL byte is never legal in shell input.
    NulByte,
    /// A word had no characters.
    EmptyCommand,
    /// The builtin could not be built from its arguments.
    InvalidBuiltin(&'static str),
    /// The parse consumed nothing meaningful.
    EmptyInput,
}

impl ParseError {
    /// The message of an error.
    pub open spec fn message_text(self) -> Seq<char> {
        match self {
            ParseError::UnterminatedQuote => "unterminated quote"@,
            ParseError::TrailingEscape => "trailing escape"@,
            ParseError::InvalidOperator(operator) => "invalid operator: "@ + operator@,
            ParseError::UnsupportedConstruct(construct) => "unsupported construct: "@ + construct@,
            ParseError::InputTooLong(max) => "input too long (max "@ + text::decimal(max as nat)
                + " bytes)"@,
            ParseError::TooManyTokens(max) => "too many tokens (max "@ + text::decimal(max as nat)
                + ")"@,
            ParseError::TooManyPipelineStages(max) => "too many pipeline stages (max "@
                + text::decimal(max as nat) + ")"@,
            ParseError::TooManyStatements(max) => "too many statements (max "@ + text::decimal(
                max as nat,
            ) + ")"@,
            ParseError::NulByte => "NUL byte in input"@,
            ParseError::EmptyCommand => "empty command"@,
            ParseError::InvalidBuiltin(message) => "invalid builtin arguments: "@ + message@,
            ParseError::EmptyInput => "empty input"@,
        }
    }

    /// A message for people.
    pub fn message(&self) -> (r: String)
        ensures
            r@ == self.message_text(),
    {
        match self {
            ParseError::UnterminatedQuote => "unterminated quote".to_owned(),
            ParseError::TrailingEscape => "trailing escape".to_owned(),
            ParseError::InvalidOperator(operator) => text::joined("invalid operator: ", operator),
            ParseError::UnsupportedConstruct(construct) => text::joined(
                "unsupported construct: ",
                construct,
            ),
            ParseError::InputTooLong(max) => text::around_number(
                "input too long (max ",
                *max as u64,
                " bytes)",
            ),
            ParseError::TooManyTokens(max) => text::around_number(
                "too many tokens (max ",
                *max as u64,
                ")",
            ),
            ParseError::TooManyPipelineStages(max) => text::around_number(
                "too many pipeline stages (max ",
                *max as u64,
                ")",
            ),
            ParseError::TooManyStatements(max) => text::around_number(
                "too many statements (max ",
                *max as u64,
                ")",
            ),
            ParseError::NulByte => "NUL byte in input".to_owned(),
            ParseError::EmptyCommand => "empty command".to_owned(),
            ParseError::InvalidBuiltin(message) => text::joined(
                "invalid builtin arguments: ",
                message,
            ),
            ParseError::EmptyInput => "empty input".to_owned(),
        }
    }
}

/// One lexical piece of a line.
pub enum Piece {
    /// Characters that belong to a word.
    Text(Seq<char>),
    /// An operator, which also ends a word.
    Operator(Operator),
    /// A line break, which also ends a word.
    Newline,
    /// Other white space, which ends a word.
    Blank,
}

/// The character at a position, NUL past the end.
pub open spec fn char_at(s: Seq<char>, i: int) -> char {
    if 0 <= i < s.len() {
        s[i]
    } else {
        '\0'
    }
}

/// Whether a character can begin the name of a variable, or its braces.
pub open spec fn starts_variable(c: char) -> bool {
    'a' <= c <= 'z' || 'A' <= c <= 'Z' || c == '_' || c == '{'
}

/// The expansion that begins at a position outside single quotes, if one does:
/// none is ever performed, so each is an error.
pub open spec fn expansion_at(s: Seq<char>, i: int) -> Option<ParseError> {
    if char_at(s, i) == '`' {
        Some(ParseError::UnsupportedConstruct("command substitution"))
    } else if char_at(s, i) == '$' && char_at(s, i + 1) == '(' {
        if char_at(s, i + 2) == '(' {
            Some(ParseError::UnsupportedConstruct("arithmetic expansion"))
        } else {
            Some(ParseError::UnsupportedConstruct("command substitution"))
        }
    } else if char_at(s, i) == '$' && starts_variable(char_at(s, i + 1)) {
        Some(ParseError::UnsupportedConstruct("environment-variable expansion"))
    } else {
        None
    }
}

/// The text from position `i` up to the closing quote, appended to `start`,
/// and the position behind the quote.
///
/// Single quotes keep everything as it is; in double quotes a backslash keeps
/// the character behind it.
pub open spec fn quoted(s: Seq<char>, i: int, quote: char, start: Seq<char>) -> Result<
    (Seq<char>, int),
    ParseError,
>
    decreases s.len() - i,
{
    if i >= s.len() {
        Err(ParseError::UnterminatedQuote)
    } else if s[i] == quote {
        Ok((start, i + 1))
    } else if quote == '"' && s[i] == '\\' && i + 1 < s.len() {
        quoted(s, i + 2, quote, start.push(s[i + 1]))
    } else if quote == '"' && expansion_at(s, i) is Some {
        Err(expansion_at(s, i)->0)
    } else {
        quoted(s, i + 1, quote, start.push(s[i]))
    }
}

/// The operator that begins at a position, and its width.
pub open spec fn operator_of(s: Seq<char>, i: int) -> Option<(Operator, int)> {
    let first = char_at(s, i);
    let second = char_at(s, i + 1);
    if first == '|' && second == '|' {
        Some((Operator::Or, 2))
    } else if first == '&' && second == '&' {
        Some((Operator::And, 2))
    } else if first == '>' && second == '>' {
        Some((Operator::RedirectAppend, 2))
    } else if first == '|' {
        Some((Operator::Pipe, 1))
    } else if first == '&' {
        Some((Operator::Background, 1))
    } else if first == ';' {
        Some((Operator::Semi, 1))
    } else if first == '<' {
        Some((Operator::RedirectIn, 1))
    } else if first == '>' {
        Some((Operator::RedirectOut, 1))
    } else if first == '(' {
        Some((Operator::OpenParen, 1))
    } else if first == ')' {
        Some((Operator::CloseParen, 1))
    } else {
        None
    }
}

/// The piece that begins at a position, and the position behind it.
pub open spec fn piece_at(s: Seq<char>, i: int) -> Result<(Piece, int), ParseError> {
    if s[i] == '\\' {
        if i + 1 < s.len() {
            Ok((Piece::Text(seq![s[i + 1]]), i + 2))
        } else {
            Err(ParseError::TrailingEscape)
        }
    } else if s[i] == '\'' || s[i] == '"' {
        match quoted(s, i + 1, s[i], Seq::empty()) {
            Ok((body, next)) => Ok((Piece::Text(body), next)),
            Err(error) => Err(error),
        }
    } else if expansion_at(s, i) is Some {
        Err(expansion_at(s, i)->0)
    } else if let Some((operator, width)) = operator_of(s, i) {
        Ok((Piece::Operator(operator), i + width))
    } else if s[i] == '\n' {
        Ok((Piece::Newline, i + 1))
    } else if text::white_space(s[i]) {
        Ok((Piece::Blank, i + 1))
    } else {
        Ok((Piece::Text(seq![s[i]]), i + 1))
    }
}

/// The tokens so far with one more, as long as the bound allows it.
pub open spec fn with_token(done: Seq<TokenModel>, token: TokenModel, max: usize) -> Result<
    Seq<TokenModel>,
    ParseError,
> {
    if done.len() >= max {
        Err(ParseError::TooManyTokens(max))
    } else {
        Ok(done.push(token))
    }
}

/// The tokens so far with the word that is being read, if there is one.
pub open spec fn with_word(
    done: Seq<TokenModel>,
    word: Option<Seq<char>>,
    max: usize,
) -> Result<Seq<TokenModel>, ParseError> {
    match word {
        Some(word) => with_token(done, TokenModel::Word(word), max),
        None => Ok(done),
    }
}

/// The word that is being read with more text behind it.
pub open spec fn extended(word: Option<Seq<char>>, more: Seq<char>) -> Option<Seq<char>> {
    match word {
        Some(word) => Some(word + more),
        None => Some(more),
    }
}

/// The closing quote lies behind its opening one.
pub proof fn lemma_quoted_advances(s: Seq<char>, i: int, quote: char, start: Seq<char>)
    ensures
        match quoted(s, i, quote, start) {
            Ok((body, next)) => i < next <= s.len(),
            Err(_) => true,
        },
    decreases s.len() - i,
{
    if i < s.len() && s[i] != quote {
        if quote == '"' && s[i] == '\\' && i + 1 < s.len() {
            lemma_quoted_advances(s, i + 2, quote, start.push(s[i + 1]));
        } else {
            lemma_quoted_advances(s, i + 1, quote, start.push(s[i]));
        }
    }
}

/// Every piece has a character.
pub proof fn lemma_piece_advances(s: Seq<char>, i: int)
    requires
        0 <= i < s.len(),
    ensures
        match piece_at(s, i) {
            Ok((piece, next)) => i < next <= s.len(),
            Err(_) => true,
        },
{
    lemma_quoted_advances(s, i + 1, s[i], Seq::empty());
}

/// The tokens of a line from position `i` on, behind the tokens `done` and the
/// started word `word`; faults come in the order of the text.
pub open spec fn tokens_from(
    s: Seq<char>,
    i: int,
    done: Seq<TokenModel>,
    word: Option<Seq<char>>,
    max: usize,
) -> Result<Seq<TokenModel>, ParseError>
    decreases s.len() - i,
{
    if i < 0 || i >= s.len() {
        with_word(done, word, max)
    } else {
        proof {
            lemma_piece_advances(s, i);
        }
        match piece_at(s, i) {
            Err(error) => Err(error),
            Ok((Piece::Text(more), next)) => tokens_from(s, next, done, extended(word, more), max),
            Ok((Piece::Blank, next)) => match with_word(done, word, max) {
                Err(error) => Err(error),
                Ok(done) => tokens_from(s, next, done, None, max),
            },
            Ok((Piece::Newline, next)) => match with_word(done, word, max) {
                Err(error) => Err(error),
                Ok(done) => match with_token(done, TokenModel::Newline, max) {
                    Err(error) => Err(error),
                    Ok(done) => tokens_from(s, next, done, None, max),
                },
            },
            Ok((Piece::Operator(operator), next)) => match with_word(done, word, max) {
                Err(error) => Err(error),
                Ok(done) => match with_token(done, TokenModel::Operator(operator), max) {
                    Err(error) => Err(error),
                    Ok(done) => tokens_from(s, next, done, None, max),
                },
            },
        }
    }
}

/// The tokens of a line, at most `max` of them.
pub open spec fn tokens_of(s: Seq<char>, max: usize) -> Result<Seq<TokenModel>, ParseError> {
    tokens_from(s, 0, Seq::empty(), None, max)
}

/// The character at a position, NUL past the end.
fn char_or_nul(chars: &Vec<char>, i: usize) -> (r: char)
    ensures
        r == char_at(chars@, i as int),
{
    if i < chars.len() {
        chars[i]
    } else {
        '\0'
    }
}

/// The expansion that begins at a position, if one does.
fn find_expansion(chars: &Vec<char>, i: usize) -> (r: Option<ParseError>)
    requires
        i < chars.len(),
    ensures
        r == expansion_at(chars@, i as int),
{
    let c = chars[i];
    if c == '`' {
        return Some(ParseError::UnsupportedConstruct("command substitution"));
    }
    if c == '$' && i + 1 < chars.len() {
        let next = chars[i + 1];
        if next == '(' {
            if i + 2 < chars.len() && chars[i + 2] == '(' {
                return Some(ParseError::UnsupportedConstruct("arithmetic expansion"));
            }
            return Some(ParseError::UnsupportedConstruct("command substitution"));
        }
        if ('a' <= next && next <= 'z') || ('A' <= next && next <= 'Z') || next == '_' || next
            == '{' {
            return Some(ParseError::UnsupportedConstruct("environment-variable expansion"));
        }
    }
    None
}

/// Append the text up to the closing quote to `word`; the result is the
/// position behind the quote.
fn read_quoted(chars: &Vec<char>, from: usize, quote: char, word: &mut String) -> (r: Result<
    usize,
    ParseError,
>)
    requires
        from <= chars.len(),
    ensures
        match quoted(chars@, from as int, quote, Seq::empty()) {
            Ok((body, next)) => r is Ok && r->Ok_0 == next && final(word)@ == old(word)@ + body,
            Err(error) => r == Err::<usize, ParseError>(error),
        },
{
    let ghost wanted = quoted(chars@, from as int, quote, Seq::empty());
    let ghost mut body: Seq<char> = Seq::empty();
    let mut i: usize = from;
    assert(word@ =~= old(word)@ + body);
    while i < chars.len()
        invariant
            i <= chars.len(),
            word@ == old(word)@ + body,
            wanted == quoted(chars@, from as int, quote, Seq::empty()),
            wanted == quoted(chars@, i as int, quote, body),
        decreases chars.len() - i,
    {
        let next = chars[i];
        if next == quote {
            return Ok(i + 1);
        }
        if quote == '"' && next == '\\' && i + 1 < chars.len() {
            word.push(chars[i + 1]);
            proof {
                body = body.push(chars@[i + 1]);
            }
            i = i + 2;
        } else {
            if quote == '"' {
                if let Some(error) = find_expansion(chars, i) {
                    return Err(error);
                }
            }
            word.push(next);
            proof {
                body = body.push(next);
            }
            i = i + 1;
        }
        assert(word@ =~= old(word)@ + body);
    }
    Err(ParseError::UnterminatedQuote)
}

/// The operator that begins at a position, and the position behind it.
fn operator_at(chars: &Vec<char>, i: usize) -> (r: Option<(Operator, usize)>)
    requires
        i < chars.len(),
    ensures
        match operator_of(chars@, i as int) {
            Some((operator, width)) => r == Some((operator, (i + width) as usize)) && i + width
                <= chars.len(),
            None => r is None,
        },
{
    let first = chars[i];
    let second = char_or_nul(chars, i + 1);
    match first {
        '|' => if second == '|' {
            Some((Operator::Or, i + 2))
        } else {
            Some((Operator::Pipe, i + 1))
        },
        '&' => if second == '&' {
            Some((Operator::And, i + 2))
        } else {
            Some((Operator::Background, i + 1))
        },
        '>' => if second == '>' {
            Some((Operator::RedirectAppend, i + 2))
        } else {
            Some((Operator::RedirectOut, i + 1))
        },
        ';' => Some((Operator::Semi, i + 1)),
        '<' => Some((Operator::RedirectIn, i + 1)),
        '(' => Some((Operator::OpenParen, i + 1)),
        ')' => Some((Operator::CloseParen, i + 1)),
        _ => None,
    }
}

/// Add one token, as long as the bound allows it.
fn push_token(tokens: &mut Vec<Token>, token: Token, max: usize) -> (r: Result<(), ParseError>)
    ensures
        match with_token(token_models(old(tokens)@), token@, max) {
            Ok(done) => r is Ok && token_models(final(tokens)@) == done,
            Err(error) => r == Err::<(), ParseError>(error),
        },
{
    if tokens.len() >= max {
        return Err(ParseError::TooManyTokens(max));
    }
    tokens.push(token);
    assert(token_models(tokens@) =~= token_models(old(tokens)@).push(token@));
    Ok(())
}

/// The word that is being read.
pub open spec fn started(has_current: bool, current: Seq<char>) -> Option<Seq<char>> {
    if has_current {
        Some(current)
    } else {
        None
    }
}

/// Split a line into at most `max` tokens.
pub fn tokenize(chars: &Vec<char>, max: usize) -> (r: Result<Vec<Token>, ParseError>)
    ensures
        match tokens_of(chars@, max) {
            Ok(tokens) => r is Ok && token_models(r->Ok_0@) == tokens,
            Err(error) => r == Err::<Vec<Token>, ParseError>(error),
        },
{
    let ghost wanted = tokens_of(chars@, max);
    let mut tokens: Vec<Token> = Vec::new();
    let mut current = String::new();
    let mut has_current = false;
    let mut i: usize = 0;
    assert(token_models(tokens@) =~= Seq::empty());
    while i < chars.len()
        invariant
            i <= chars.len(),
            wanted == tokens_of(chars@, max),
            wanted == tokens_from(
                chars@,
                i as int,
                token_models(tokens@),
                started(has_current, current@),
                max,
            ),
            !has_current ==> current@.len() == 0,
        decreases chars.len() - i,
    {
        proof {
            lemma_piece_advances(chars@, i as int);
        }
        let ghost before = current@;
        let c = chars[i];
        if c == '\\' {
            if i + 1 >= chars.len() {
                return Err(ParseError::TrailingEscape);
            }
            current.push(chars[i + 1]);
            assert(current@ =~= before + seq![chars@[i + 1]]);
            assert(!has_current ==> current@ =~= seq![chars@[i + 1]]);
            has_current = true;
            i = i + 2;
        } else if c == '\'' || c == '"' {
            let next = match read_quoted(chars, i + 1, c, &mut current) {
                Ok(next) => next,
                Err(error) => return Err(error),
            };
            proof {
                let (body, _) = quoted(chars@, i + 1, c, Seq::empty())->Ok_0;
                assert(current@ =~= before + body);
                assert(!has_current ==> current@ =~= body);
            }
            has_current = true;
            i = next;
        } else if let Some(error) = find_expansion(chars, i) {
            return Err(error);
        } else if let Some((operator, next)) = operator_at(chars, i) {
            if has_current {
                match push_token(&mut tokens, Token::Word(current), max) {
                    Ok(()) => {},
                    Err(error) => return Err(error),
                }
                current = String::new();
                has_current = false;
            }
            match push_token(&mut tokens, Token::Operator(operator), max) {
                Ok(()) => {},
                Err(error) => return Err(error),
            }
            i = next;
        } else if c == '\n' {
            if has_current {
                match push_token(&mut tokens, Token::Word(current), max) {
                    Ok(()) => {},
                    Err(error) => return Err(error),
                }
                current = String::new();
                has_current = false;
            }
            match push_token(&mut tokens, Token::Newline, max) {
                Ok(()) => {},
                Err(error) => return Err(error),
            }
            i = i + 1;
        } else if text::is_white_space(c) {
            if has_current {
                match push_token(&mut tokens, Token::Word(current), max) {
                    Ok(()) => {},
                    Err(error) => return Err(error),
                }
                current = String::new();
                has_current = false;
            }
            i = i + 1;
        } else {
            current.push(c);
            assert(current@ =~= before + seq![c]);
            assert(!has_current ==> current@ =~= seq![c]);
            has_current = true;
            i = i + 1;
        }
    }
    if has_current {
        match push_token(&mut tokens, Token::Word(current), max) {
            Ok(()) => {},
            Err(error) => return Err(error),
        }
    }
    Ok(tokens)
}

} // verus!
