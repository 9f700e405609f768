//! What holds of every parse.

use vstd::prelude::*;
use crate::shell_ir;
use crate::shell_ir::{BuiltinModel, CommandModel, ProgramModel, RedirectModel, StatementModel};
use crate::shell_lex;
use crate::shell_lex::{Operator, ParseError, Piece, TokenModel};
use crate::shell_parse;
use crate::shell_parse::ParseLimits;

verus! {

/// Whether a text is a session path.
pub open spec fn is_session_path(path: Seq<char>) -> bool {
    shell_ir::path_fault(path) is None
}

/// A program that needs no native shell, and whose paths stay in the session.
pub open spec fn program_is_bounded(program: ProgramModel) -> bool {
    match program {
        ProgramModel::NativeShell(_) => false,
        ProgramModel::External(_) | ProgramModel::WasiComponent(_) => true,
        ProgramModel::Builtin(builtin) => match builtin {
            BuiltinModel::Cd(path) => is_session_path(path),
            BuiltinModel::Ls(path) => is_session_path(path),
            BuiltinModel::Cat(path) => is_session_path(path),
            BuiltinModel::Mkdir(path) => is_session_path(path),
            BuiltinModel::Remove(path) => is_session_path(path),
            BuiltinModel::Copy(from, to) => is_session_path(from) && is_session_path(to),
            BuiltinModel::Move(from, to) => is_session_path(from) && is_session_path(to),
            _ => true,
        },
    }
}

/// A redirection of standard input or output within the session.
pub open spec fn redirect_is_bounded(redirect: RedirectModel) -> bool {
    match redirect {
        RedirectModel::Input(path) => is_session_path(path),
        RedirectModel::OutputTruncate(path) => is_session_path(path),
        RedirectModel::OutputAppend(path) => is_session_path(path),
        _ => false,
    }
}

/// A command that runs in the session root with nothing unbounded in it.
pub open spec fn command_is_bounded(command: CommandModel) -> bool {
    &&& program_is_bounded(command.program)
    &&& command.cwd == "."@
    &&& forall|i: int|
        0 <= i < command.redirects.len() ==> redirect_is_bounded(#[trigger] command.redirects[i])
}

/// A statement of bounded commands, with pipelines of two to `max` stages.
pub open spec fn statement_is_bounded(statement: StatementModel, max: usize) -> bool
    decreases statement,
{
    match statement {
        StatementModel::Command(command) => command_is_bounded(command),
        StatementModel::Pipeline(stages) => 2 <= stages.len() <= max && forall|i: int|
            0 <= i < stages.len() ==> command_is_bounded(#[trigger] stages[i]),
        StatementModel::And(left, right) => statement_is_bounded(*left, max)
            && statement_is_bounded(*right, max),
        StatementModel::Or(left, right) => statement_is_bounded(*left, max)
            && statement_is_bounded(*right, max),
        StatementModel::Sequence(_) => false,
        StatementModel::Background(inner) => statement_is_bounded(*inner, max),
    }
}

proof fn lemma_resolved_is_bounded(name: Seq<char>, args: Seq<Seq<char>>)
    ensures
        match shell_parse::resolved(name, args) {
            Ok((program, _)) => program_is_bounded(program),
            Err(_) => true,
        },
{
    shell_parse::lemma_current_directory();
}

proof fn lemma_items_are_bounded(
    tokens: Seq<TokenModel>,
    i: int,
    words: Seq<Seq<char>>,
    redirects: Seq<RedirectModel>,
)
    requires
        forall|j: int|
            0 <= j < redirects.len() ==> redirect_is_bounded(#[trigger] redirects[j]),
    ensures
        match shell_parse::items_from(tokens, i, words, redirects) {
            Ok((_, all, _)) => forall|j: int|
                0 <= j < all.len() ==> redirect_is_bounded(#[trigger] all[j]),
            Err(_) => true,
        },
    decreases tokens.len() - i,
{
    match shell_parse::token_at(tokens, i) {
        TokenModel::Word(word) => {
            lemma_items_are_bounded(tokens, i + 1, words.push(word), redirects);
        },
        TokenModel::Operator(operator) => {
            if operator == Operator::RedirectIn || operator == Operator::RedirectOut || operator
                == Operator::RedirectAppend {
                match shell_parse::token_at(tokens, i + 1) {
                    TokenModel::Word(path) => {
                        if is_session_path(path) {
                            lemma_items_are_bounded(
                                tokens,
                                i + 2,
                                words,
                                redirects.push(shell_parse::redirect_of(operator, path)),
                            );
                        }
                    },
                    _ => {},
                }
            }
        },
        _ => {},
    }
}

proof fn lemma_command_is_bounded(tokens: Seq<TokenModel>, i: int)
    ensures
        match shell_parse::command_at(tokens, i) {
            Ok((command, _)) => command_is_bounded(command),
            Err(_) => true,
        },
{
    lemma_items_are_bounded(tokens, i, Seq::empty(), Seq::empty());
    match shell_parse::items_from(tokens, i, Seq::empty(), Seq::empty()) {
        Ok((words, _, _)) => {
            if words.len() > 0 {
                lemma_resolved_is_bounded(words[0], words.skip(1));
            }
        },
        Err(_) => {},
    }
}

proof fn lemma_stages_are_bounded(
    tokens: Seq<TokenModel>,
    i: int,
    stages: Seq<CommandModel>,
    max: usize,
)
    requires
        stages.len() == 1 || 1 < stages.len() <= max,
        forall|j: int| 0 <= j < stages.len() ==> command_is_bounded(#[trigger] stages[j]),
    ensures
        match shell_parse::stages_from(tokens, i, stages, max) {
            Ok((all, _)) => {
                &&& all.len() == 1 || 1 < all.len() <= max
                &&& forall|j: int| 0 <= j < all.len() ==> command_is_bounded(#[trigger] all[j])
            },
            Err(_) => true,
        },
    decreases tokens.len() - i,
{
    if shell_parse::token_at(tokens, i) == TokenModel::Operator(Operator::Pipe) && stages.len()
        < max {
        lemma_command_is_bounded(tokens, i + 1);
        shell_parse::lemma_command_advances(tokens, i + 1);
        match shell_parse::command_at(tokens, i + 1) {
            Ok((command, next)) => {
                lemma_stages_are_bounded(tokens, next, stages.push(command), max);
            },
            Err(_) => {},
        }
    }
}

proof fn lemma_pipeline_is_bounded(tokens: Seq<TokenModel>, i: int, max: usize)
    ensures
        match shell_parse::pipeline_at(tokens, i, max) {
            Ok((statement, _)) => statement_is_bounded(statement, max),
            Err(_) => true,
        },
{
    lemma_command_is_bounded(tokens, i);
    match shell_parse::command_at(tokens, i) {
        Ok((command, next)) => lemma_stages_are_bounded(tokens, next, seq![command], max),
        Err(_) => {},
    }
}

proof fn lemma_and_or_is_bounded(
    tokens: Seq<TokenModel>,
    i: int,
    left: StatementModel,
    max: usize,
)
    requires
        statement_is_bounded(left, max),
    ensures
        match shell_parse::and_or_from(tokens, i, left, max) {
            Ok((statement, _)) => statement_is_bounded(statement, max),
            Err(_) => true,
        },
    decreases tokens.len() - i,
{
    let token = shell_parse::token_at(tokens, i);
    if token == TokenModel::Operator(Operator::And) || token == TokenModel::Operator(
        Operator::Or,
    ) {
        lemma_pipeline_is_bounded(tokens, i + 1, max);
        shell_parse::lemma_pipeline_advances(tokens, i + 1, max);
        match shell_parse::pipeline_at(tokens, i + 1, max) {
            Ok((right, next)) => {
                if token == TokenModel::Operator(Operator::And) {
                    let both = StatementModel::And(Box::new(left), Box::new(right));
                    assert(statement_is_bounded(both, max));
                    lemma_and_or_is_bounded(tokens, next, both, max);
                } else {
                    let both = StatementModel::Or(Box::new(left), Box::new(right));
                    assert(statement_is_bounded(both, max));
                    lemma_and_or_is_bounded(tokens, next, both, max);
                }
            },
            Err(_) => {},
        }
    }
}

proof fn lemma_statements_are_bounded(
    tokens: Seq<TokenModel>,
    i: int,
    statements: Seq<StatementModel>,
    limits: ParseLimits,
)
    requires
        statements.len() <= limits.max_statements,
        forall|j: int|
            0 <= j < statements.len() ==> statement_is_bounded(
                #[trigger] statements[j],
                limits.max_pipeline_stages,
            ),
    ensures
        match shell_parse::statements_from(tokens, i, statements, limits) {
            Ok(all) => {
                &&& all.len() <= limits.max_statements
                &&& forall|j: int|
                    0 <= j < all.len() ==> statement_is_bounded(
                        #[trigger] all[j],
                        limits.max_pipeline_stages,
                    )
            },
            Err(_) => true,
        },
    decreases tokens.len() - i,
{
    let max = limits.max_pipeline_stages;
    if 0 <= i < tokens.len() && !(tokens[i] is End) {
        if shell_parse::is_separator(tokens[i]) {
            lemma_statements_are_bounded(tokens, i + 1, statements, limits);
        } else if statements.len() < limits.max_statements {
            shell_parse::lemma_statement_advances(tokens, i, max);
            lemma_pipeline_is_bounded(tokens, i, max);
            match shell_parse::pipeline_at(tokens, i, max) {
                Ok((left, next)) => lemma_and_or_is_bounded(tokens, next, left, max),
                Err(_) => {},
            }
            match shell_parse::statement_at(tokens, i, max) {
                Ok((statement, next)) => {
                    assert(statement_is_bounded(statement, max));
                    lemma_statements_are_bounded(
                        tokens,
                        next,
                        statements.push(statement),
                        limits,
                    );
                },
                Err(_) => {},
            }
        }
    }
}

/// Whatever the line, a plan that is parsed from it has one to
/// `max_statements` statements, pipelines of two to `max_pipeline_stages`
/// stages, no native shell, no path outside the session, and no redirection
/// but of standard input and output.
pub proof fn parsed_plans_are_bounded(input: Seq<char>, limits: ParseLimits)
    ensures
        match shell_parse::plan_of(input, limits) {
            Ok(plan) => {
                &&& 1 <= plan.len() <= limits.max_statements
                &&& forall|j: int|
                    0 <= j < plan.len() ==> statement_is_bounded(
                        #[trigger] plan[j],
                        limits.max_pipeline_stages,
                    )
            },
            Err(_) => true,
        },
{
    match shell_lex::tokens_of(input, limits.max_tokens) {
        Ok(tokens) => lemma_statements_are_bounded(tokens, 0, Seq::empty(), limits),
        Err(_) => {},
    }
}

/// Whatever the argv, the plan that is built from it is one command without a
/// native shell and without a builtin path outside the session.
pub proof fn argv_plans_are_bounded(name: Seq<char>, args: Seq<Seq<char>>, cwd: Seq<char>)
    ensures
        match shell_parse::plan_of_argv(name, args, cwd) {
            Ok(plan) => {
                &&& plan.len() == 1
                &&& plan[0] matches StatementModel::Command(command)
                &&& program_is_bounded(command.program)
                &&& command.redirects.len() == 0
                &&& command.cwd == cwd
            },
            Err(_) => true,
        },
{
    lemma_resolved_is_bounded(name, args);
}

proof fn lemma_token_count(
    s: Seq<char>,
    i: int,
    done: Seq<TokenModel>,
    word: Option<Seq<char>>,
    max: usize,
)
    requires
        done.len() <= max,
    ensures
        match shell_lex::tokens_from(s, i, done, word, max) {
            Ok(tokens) => tokens.len() <= max,
            Err(_) => true,
        },
    decreases s.len() - i,
{
    if 0 <= i < s.len() {
        shell_lex::lemma_piece_advances(s, i);
        match shell_lex::piece_at(s, i) {
            Err(_) => {},
            Ok((Piece::Text(more), next)) => {
                lemma_token_count(s, next, done, shell_lex::extended(word, more), max);
            },
            Ok((Piece::Blank, next)) => match shell_lex::with_word(done, word, max) {
                Ok(done) => lemma_token_count(s, next, done, None, max),
                Err(_) => {},
            },
            Ok((Piece::Newline, next)) => match shell_lex::with_word(done, word, max) {
                Ok(done) => match shell_lex::with_token(done, TokenModel::Newline, max) {
                    Ok(done) => lemma_token_count(s, next, done, None, max),
                    Err(_) => {},
                },
                Err(_) => {},
            },
            Ok((Piece::Operator(operator), next)) => match shell_lex::with_word(done, word, max) {
                Ok(done) => match shell_lex::with_token(
                    done,
                    TokenModel::Operator(operator),
                    max,
                ) {
                    Ok(done) => lemma_token_count(s, next, done, None, max),
                    Err(_) => {},
                },
                Err(_) => {},
            },
        }
    }
}

/// No line has more tokens than the bound.
pub proof fn token_count_is_bounded(s: Seq<char>, max: usize)
    ensures
        match shell_lex::tokens_of(s, max) {
            Ok(tokens) => tokens.len() <= max,
            Err(_) => true,
        },
{
    lemma_token_count(s, 0, Seq::empty(), None, max);
}

/// A word in single quotes, behind a blank.
pub open spec fn quoted_word(word: Seq<char>) -> Seq<char> {
    seq![' ', '\''] + word + seq!['\'']
}

/// A line of words in single quotes.
pub open spec fn quoted_line(words: Seq<Seq<char>>) -> Seq<char>
    decreases words.len(),
{
    if words.len() == 0 {
        Seq::empty()
    } else {
        quoted_line(words.drop_last()) + quoted_word(words.last())
    }
}

/// The tokens that some words make.
pub open spec fn word_tokens(words: Seq<Seq<char>>) -> Seq<TokenModel> {
    Seq::new(words.len(), |i: int| TokenModel::Word(words[i]))
}

proof fn lemma_quoted_text(s: Seq<char>, i: int, word: Seq<char>, start: Seq<char>)
    requires
        0 <= i,
        i + word.len() < s.len(),
        s.subrange(i, i + word.len()) == word,
        s[i + word.len()] == '\'',
        !word.contains('\''),
    ensures
        shell_lex::quoted(s, i, '\'', start) == Ok::<(Seq<char>, int), ParseError>(
            (start + word, i + word.len() + 1),
        ),
    decreases word.len(),
{
    if word.len() == 0 {
        assert(start + word =~= start);
    } else {
        assert(s[i] == s.subrange(i, i + word.len())[0]);
        assert(word.contains(word[0]));
        let rest = word.skip(1);
        assert(s.subrange(i + 1, i + 1 + rest.len()) =~= rest) by {
            assert forall|j: int| 0 <= j < rest.len() implies s[i + 1 + j] == rest[j] by {
                assert(s.subrange(i, i + word.len())[j + 1] == word[j + 1]);
            }
        }
        assert(!rest.contains('\'')) by {
            if rest.contains('\'') {
                let j = choose|j: int| 0 <= j < rest.len() && rest[j] == '\'';
                assert(word[j + 1] == '\'');
            }
        }
        lemma_quoted_text(s, i + 1, rest, start.push(s[i]));
        assert(start.push(s[i]) + rest =~= start + word);
    }
}

proof fn lemma_quoted_line_prefix(words: Seq<Seq<char>>, k: int)
    requires
        0 <= k <= words.len(),
    ensures
        quoted_line(words.take(k)).len() <= quoted_line(words).len(),
        quoted_line(words).take(quoted_line(words.take(k)).len() as int) == quoted_line(
            words.take(k),
        ),
    decreases words.len() - k,
{
    if k == words.len() {
        assert(words.take(k) =~= words);
        assert(quoted_line(words).take(quoted_line(words).len() as int) =~= quoted_line(words));
    } else {
        lemma_quoted_line_prefix(words, k + 1);
        let longer = quoted_line(words.take(k + 1));
        let shorter = quoted_line(words.take(k));
        assert(words.take(k + 1).drop_last() =~= words.take(k));
        assert(longer == shorter + quoted_word(words[k]));
        let line = quoted_line(words);
        assert forall|j: int| 0 <= j < shorter.len() implies line[j] == shorter[j] by {
            assert(line.take(longer.len() as int)[j] == longer[j]);
        }
        assert(line.take(shorter.len() as int) =~= shorter);
    }
}

/// Reading the first `k` words of a quoted line.
proof fn lemma_quoted_line_words(words: Seq<Seq<char>>, k: int, max: usize)
    requires
        1 <= k <= words.len() <= max,
        forall|j: int| 0 <= j < words.len() ==> !(#[trigger] words[j]).contains('\''),
    ensures
        shell_lex::tokens_of(quoted_line(words), max) == shell_lex::tokens_from(
            quoted_line(words),
            quoted_line(words.take(k)).len() as int,
            word_tokens(words.take(k - 1)),
            Some(words[k - 1]),
            max,
        ),
    decreases k,
{
    let line = quoted_line(words);
    let word = words[k - 1];
    let from = quoted_line(words.take(k - 1)).len() as int;
    let to = quoted_line(words.take(k)).len() as int;
    lemma_quoted_line_prefix(words, k);
    assert(words.take(k).drop_last() =~= words.take(k - 1));
    assert(quoted_line(words.take(k)) == quoted_line(words.take(k - 1)) + quoted_word(word));
    assert(to == from + 3 + word.len());
    let read = quoted_line(words.take(k));
    assert forall|j: int| 0 <= j < quoted_word(word).len() implies line[from + j] == quoted_word(
        word,
    )[j] by {
        assert(line.take(to)[from + j] == read[from + j]);
    }
    assert(line[from] == quoted_word(word)[0]);
    assert(line[from + 1] == quoted_word(word)[1]);
    assert(line[from + 2 + word.len()] == quoted_word(word)[2 + word.len() as int]);
    assert(line.subrange(from + 2, from + 2 + word.len()) =~= word) by {
        assert forall|j: int| 0 <= j < word.len() implies line[from + 2 + j] == word[j] by {
            assert(line[from + (2 + j)] == quoted_word(word)[2 + j]);
        }
    }
    lemma_quoted_text(line, from + 2, word, Seq::empty());
    assert(Seq::<char>::empty() + word =~= word);
    assert(shell_lex::piece_at(line, from) == Ok::<(Piece, int), ParseError>(
        (Piece::Blank, from + 1),
    ));
    assert(shell_lex::piece_at(line, from + 1) == Ok::<(Piece, int), ParseError>(
        (Piece::Text(word), to),
    ));
    let done = word_tokens(words.take(k - 1));
    assert(shell_lex::tokens_from(line, from + 1, done, None, max) == shell_lex::tokens_from(
        line,
        to,
        done,
        Some(word),
        max,
    ));
    if k == 1 {
        assert(words.take(0) =~= Seq::empty());
        assert(done =~= Seq::empty());
        assert(from == 0);
    } else {
        lemma_quoted_line_words(words, k - 1, max);
        let before = word_tokens(words.take(k - 2));
        assert(before.push(TokenModel::Word(words[k - 2])) =~= done);
        assert(shell_lex::tokens_from(line, from, before, Some(words[k - 2]), max)
            == shell_lex::tokens_from(line, from + 1, done, None, max));
    }
}

/// Single quotes keep any word whole: a line of quoted words is read as
/// exactly those words, whatever metacharacters they hold.
pub proof fn quoted_words_stay_words(words: Seq<Seq<char>>, max: usize)
    requires
        words.len() <= max,
        forall|j: int| 0 <= j < words.len() ==> !(#[trigger] words[j]).contains('\''),
    ensures
        shell_lex::tokens_of(quoted_line(words), max) == Ok::<Seq<TokenModel>, ParseError>(
            word_tokens(words),
        ),
{
    if words.len() == 0 {
        assert(word_tokens(words) =~= Seq::empty());
    } else {
        let n = words.len() as int;
        lemma_quoted_line_words(words, n, max);
        assert(words.take(n) =~= words);
        assert(word_tokens(words.take(n - 1)).push(TokenModel::Word(words[n - 1]))
            =~= word_tokens(words));
    }
}

proof fn lemma_word_items(words: Seq<Seq<char>>, i: int)
    requires
        0 <= i <= words.len(),
    ensures
        shell_parse::items_from(word_tokens(words), i, words.take(i), Seq::empty()) == Ok::<
            (Seq<Seq<char>>, Seq<RedirectModel>, int),
            ParseError,
        >((words, Seq::empty(), words.len() as int)),
    decreases words.len() - i,
{
    if i < words.len() {
        lemma_word_items(words, i + 1);
        assert(words.take(i).push(words[i]) =~= words.take(i + 1));
    } else {
        assert(words.take(i) =~= words);
    }
}

/// A line of quoted words is parsed to the plan that the same words make as a
/// structured argv, and refused where that is refused: no text reaches a plan
/// that the structured path could not hold.
pub proof fn quoted_line_is_the_argv(words: Seq<Seq<char>>, limits: ParseLimits)
    requires
        1 <= words.len() <= limits.max_tokens,
        1 <= limits.max_statements,
        vstd::utf8::encode_utf8(quoted_line(words)).len() <= limits.max_input_bytes,
        !quoted_line(words).contains('\0'),
        forall|j: int| 0 <= j < words.len() ==> !(#[trigger] words[j]).contains('\''),
    ensures
        shell_parse::plan_of(quoted_line(words), limits) == shell_parse::plan_of_argv(
            words[0],
            words.skip(1),
            "."@,
        ),
{
    quoted_words_stay_words(words, limits.max_tokens);
    let tokens = word_tokens(words);
    let max = limits.max_pipeline_stages;
    let n = words.len() as int;
    lemma_word_items(words, 0);
    assert(words.take(0) =~= Seq::empty());
    assert(tokens[0] == TokenModel::Word(words[0]));
    match shell_parse::resolved(words[0], words.skip(1)) {
        Err(_) => {},
        Ok((program, args)) => {
            let command = CommandModel { program, args, redirects: Seq::empty(), cwd: "."@ };
            assert(shell_parse::command_at(tokens, 0) == Ok::<(CommandModel, int), ParseError>(
                (command, n),
            ));
            assert(shell_parse::stages_from(tokens, n, seq![command], max) == Ok::<
                (Seq<CommandModel>, int),
                ParseError,
            >((seq![command], n)));
            let statement = StatementModel::Command(command);
            assert(shell_parse::statement_at(tokens, 0, max) == Ok::<
                (StatementModel, int),
                ParseError,
            >((statement, n)));
            let none = Seq::<StatementModel>::empty();
            assert(none.push(statement) =~= seq![statement]);
            assert(shell_parse::statements_from(tokens, n, none.push(statement), limits) == Ok::<
                Seq<StatementModel>,
                ParseError,
            >(none.push(statement)));
        },
    }
}

/// Tokens with a `;` for every line break.
pub open spec fn with_semicolons(tokens: Seq<TokenModel>) -> Seq<TokenModel> {
    Seq::new(
        tokens.len(),
        |i: int|
            if tokens[i] is Newline {
                TokenModel::Operator(Operator::Semi)
            } else {
                tokens[i]
            },
    )
}

proof fn lemma_items_with_semicolons(
    tokens: Seq<TokenModel>,
    i: int,
    words: Seq<Seq<char>>,
    redirects: Seq<RedirectModel>,
)
    ensures
        shell_parse::items_from(with_semicolons(tokens), i, words, redirects)
            == shell_parse::items_from(tokens, i, words, redirects),
    decreases tokens.len() - i,
{
    match shell_parse::token_at(tokens, i) {
        TokenModel::Word(word) => {
            lemma_items_with_semicolons(tokens, i + 1, words.push(word), redirects);
        },
        TokenModel::Operator(operator) => match shell_parse::token_at(tokens, i + 1) {
            TokenModel::Word(path) => {
                lemma_items_with_semicolons(
                    tokens,
                    i + 2,
                    words,
                    redirects.push(shell_parse::redirect_of(operator, path)),
                );
            },
            _ => {},
        },
        _ => {},
    }
}

proof fn lemma_stages_with_semicolons(
    tokens: Seq<TokenModel>,
    i: int,
    stages: Seq<CommandModel>,
    max: usize,
)
    ensures
        shell_parse::stages_from(with_semicolons(tokens), i, stages, max)
            == shell_parse::stages_from(tokens, i, stages, max),
    decreases tokens.len() - i,
{
    if shell_parse::token_at(tokens, i) == TokenModel::Operator(Operator::Pipe) {
        lemma_items_with_semicolons(tokens, i + 1, Seq::empty(), Seq::empty());
        shell_parse::lemma_command_advances(tokens, i + 1);
        match shell_parse::command_at(tokens, i + 1) {
            Ok((command, next)) => {
                lemma_stages_with_semicolons(tokens, next, stages.push(command), max);
            },
            Err(_) => {},
        }
    }
}

proof fn lemma_pipeline_with_semicolons(tokens: Seq<TokenModel>, i: int, max: usize)
    ensures
        shell_parse::pipeline_at(with_semicolons(tokens), i, max) == shell_parse::pipeline_at(
            tokens,
            i,
            max,
        ),
{
    lemma_items_with_semicolons(tokens, i, Seq::empty(), Seq::empty());
    match shell_parse::command_at(tokens, i) {
        Ok((command, next)) => lemma_stages_with_semicolons(tokens, next, seq![command], max),
        Err(_) => {},
    }
}

proof fn lemma_and_or_with_semicolons(
    tokens: Seq<TokenModel>,
    i: int,
    left: StatementModel,
    max: usize,
)
    ensures
        shell_parse::and_or_from(with_semicolons(tokens), i, left, max)
            == shell_parse::and_or_from(tokens, i, left, max),
    decreases tokens.len() - i,
{
    let token = shell_parse::token_at(tokens, i);
    if token == TokenModel::Operator(Operator::And) || token == TokenModel::Operator(
        Operator::Or,
    ) {
        lemma_pipeline_with_semicolons(tokens, i + 1, max);
        shell_parse::lemma_pipeline_advances(tokens, i + 1, max);
        match shell_parse::pipeline_at(tokens, i + 1, max) {
            Ok((right, next)) => {
                lemma_and_or_with_semicolons(
                    tokens,
                    next,
                    if token == TokenModel::Operator(Operator::And) {
                        StatementModel::And(Box::new(left), Box::new(right))
                    } else {
                        StatementModel::Or(Box::new(left), Box::new(right))
                    },
                    max,
                );
            },
            Err(_) => {},
        }
    }
}

proof fn lemma_statements_with_semicolons(
    tokens: Seq<TokenModel>,
    i: int,
    statements: Seq<StatementModel>,
    limits: ParseLimits,
)
    ensures
        shell_parse::statements_from(with_semicolons(tokens), i, statements, limits)
            == shell_parse::statements_from(tokens, i, statements, limits),
    decreases tokens.len() - i,
{
    if 0 <= i < tokens.len() && !(tokens[i] is End) {
        let max = limits.max_pipeline_stages;
        if shell_parse::is_separator(tokens[i]) {
            lemma_statements_with_semicolons(tokens, i + 1, statements, limits);
        } else if statements.len() < limits.max_statements {
            lemma_pipeline_with_semicolons(tokens, i, max);
            match shell_parse::pipeline_at(tokens, i, max) {
                Ok((left, next)) => lemma_and_or_with_semicolons(tokens, next, left, max),
                Err(_) => {},
            }
            shell_parse::lemma_statement_advances(tokens, i, max);
            match shell_parse::statement_at(tokens, i, max) {
                Ok((statement, next)) => {
                    lemma_statements_with_semicolons(
                        tokens,
                        next,
                        statements.push(statement),
                        limits,
                    );
                },
                Err(_) => {},
            }
        }
    }
}

/// A line break separates as `;` does: tokens that are not all line breaks make
/// the plan that they make with a `;` for every line break.
pub proof fn line_breaks_separate(tokens: Seq<TokenModel>, limits: ParseLimits)
    requires
        !shell_parse::is_blank(tokens),
    ensures
        shell_parse::plan_of_tokens(tokens, limits) == shell_parse::plan_of_tokens(
            with_semicolons(tokens),
            limits,
        ),
{
    assert(!shell_parse::is_blank(with_semicolons(tokens))) by {
        assert(!(with_semicolons(tokens)[0] is Newline));
    }
    lemma_statements_with_semicolons(tokens, 0, Seq::empty(), limits);
}

} // verus!
