//! What each written plan means: commands, pipelines, conditions, background
//! jobs and sequences, as they are written and as they are planned.

use vstd::prelude::*;
use crate::line_laws;
use crate::line_laws::Spelling;
use crate::parse_laws;
use crate::shell_ir;
use crate::shell_ir::{CommandModel, RedirectModel, StatementModel};
use crate::shell_lex::{Operator, ParseError, TokenModel};
use crate::shell_parse;
use crate::shell_parse::ParseLimits;

verus! {

/// A command as it is written: its words, then its redirections.
pub struct WrittenCommand {
    /// The words.
    pub words: Seq<Seq<char>>,
    /// The redirections: an operator and a path each.
    pub redirects: Seq<(Operator, Seq<char>)>,
}

/// Pipelines with `&&` or `||` between them.
pub struct WrittenChain {
    /// The first pipeline.
    pub first: Seq<WrittenCommand>,
    /// The others, each with whether `&&` stands before it, and else `||`.
    pub rest: Seq<(bool, Seq<WrittenCommand>)>,
}

/// A chain with whether `&` stands behind it.
pub struct WrittenStatement {
    /// The chain.
    pub chain: WrittenChain,
    /// Whether it goes to the background.
    pub background: bool,
}

/// The tokens of a command.
pub open spec fn command_tokens(command: WrittenCommand) -> Seq<TokenModel> {
    parse_laws::word_tokens(command.words) + Seq::new(
        2 * command.redirects.len(),
        |i: int|
            if i % 2 == 0 {
                TokenModel::Operator(command.redirects[i / 2].0)
            } else {
                TokenModel::Word(command.redirects[i / 2].1)
            },
    )
}

/// The tokens of a pipeline: `|` between its commands.
pub open spec fn pipeline_tokens(commands: Seq<WrittenCommand>) -> Seq<TokenModel>
    decreases commands.len(),
{
    if commands.len() == 0 {
        Seq::empty()
    } else if commands.len() == 1 {
        command_tokens(commands[0])
    } else {
        pipeline_tokens(commands.drop_last()) + (seq![TokenModel::Operator(Operator::Pipe)]
            + command_tokens(commands.last()))
    }
}

/// The tokens of a chain.
pub open spec fn chain_tokens(first: Seq<WrittenCommand>, rest: Seq<(bool, Seq<WrittenCommand>)>) -> Seq<
    TokenModel,
>
    decreases rest.len(),
{
    if rest.len() == 0 {
        pipeline_tokens(first)
    } else {
        let operator = if rest.last().0 {
            Operator::And
        } else {
            Operator::Or
        };
        chain_tokens(first, rest.drop_last()) + (seq![TokenModel::Operator(operator)]
            + pipeline_tokens(rest.last().1))
    }
}

/// The tokens of a statement.
pub open spec fn statement_tokens(statement: WrittenStatement) -> Seq<TokenModel> {
    let chain = chain_tokens(statement.chain.first, statement.chain.rest);
    if statement.background {
        chain + seq![TokenModel::Operator(Operator::Background)]
    } else {
        chain
    }
}

/// The tokens of a program: `;` between its statements.
pub open spec fn program_tokens(program: Seq<WrittenStatement>) -> Seq<TokenModel>
    decreases program.len(),
{
    if program.len() == 0 {
        Seq::empty()
    } else if program.len() == 1 {
        statement_tokens(program[0])
    } else {
        program_tokens(program.drop_last()) + (seq![TokenModel::Operator(Operator::Semi)]
            + statement_tokens(program.last()))
    }
}

/// What a redirection means: `<` reads the file, `>` writes it anew, `>>`
/// writes behind what it holds.
pub open spec fn redirect_meant(written: (Operator, Seq<char>)) -> RedirectModel {
    if written.0 == Operator::RedirectIn {
        RedirectModel::Input(written.1)
    } else if written.0 == Operator::RedirectOut {
        RedirectModel::OutputTruncate(written.1)
    } else {
        RedirectModel::OutputAppend(written.1)
    }
}

/// Whether a command can be written so, and its words make one.
pub open spec fn is_written(command: WrittenCommand) -> bool {
    &&& command.words.len() > 0
    &&& shell_parse::plan_of_argv(command.words[0], command.words.skip(1), "."@) is Ok
    &&& forall|i: int|
        0 <= i < command.redirects.len() ==> {
            &&& shell_ir::path_fault((#[trigger] command.redirects[i]).1) is None
            &&& command.redirects[i].0 == Operator::RedirectIn || command.redirects[i].0
                == Operator::RedirectOut || command.redirects[i].0 == Operator::RedirectAppend
        }
}

/// What a command means: what its words mean as an argument list, with its
/// redirections in order.
pub open spec fn command_meant(command: WrittenCommand) -> CommandModel {
    CommandModel {
        redirects: Seq::new(
            command.redirects.len(),
            |i: int| redirect_meant(command.redirects[i]),
        ),
        ..shell_parse::plan_of_argv(
            command.words[0],
            command.words.skip(1),
            "."@,
        )->Ok_0[0]->Command_0
    }
}

/// Whether a pipeline can be written so, of at most `max` stages.
pub open spec fn is_pipeline(commands: Seq<WrittenCommand>, max: usize) -> bool {
    &&& 1 <= commands.len() <= max
    &&& forall|i: int| 0 <= i < commands.len() ==> is_written(#[trigger] commands[i])
}

/// What each command of a pipeline means, in order.
pub open spec fn stages_meant(commands: Seq<WrittenCommand>) -> Seq<CommandModel> {
    Seq::new(commands.len(), |i: int| command_meant(commands[i]))
}

/// What a pipeline means; one command alone is no pipeline.
pub open spec fn pipeline_meant(commands: Seq<WrittenCommand>) -> StatementModel {
    if commands.len() == 1 {
        StatementModel::Command(command_meant(commands[0]))
    } else {
        StatementModel::Pipeline(stages_meant(commands))
    }
}

/// What a chain means: the conditions group from the left.
pub open spec fn chain_meant(first: Seq<WrittenCommand>, rest: Seq<(bool, Seq<WrittenCommand>)>) -> StatementModel
    decreases rest.len(),
{
    if rest.len() == 0 {
        pipeline_meant(first)
    } else {
        let left = chain_meant(first, rest.drop_last());
        let right = pipeline_meant(rest.last().1);
        if rest.last().0 {
            StatementModel::And(Box::new(left), Box::new(right))
        } else {
            StatementModel::Or(Box::new(left), Box::new(right))
        }
    }
}

/// What a statement means.
pub open spec fn statement_meant(statement: WrittenStatement) -> StatementModel {
    let chain = chain_meant(statement.chain.first, statement.chain.rest);
    if statement.background {
        StatementModel::Background(Box::new(chain))
    } else {
        chain
    }
}

/// Whether a statement can be written so.
pub open spec fn is_statement(statement: WrittenStatement, max: usize) -> bool {
    &&& is_pipeline(statement.chain.first, max)
    &&& forall|i: int|
        0 <= i < statement.chain.rest.len() ==> is_pipeline(
            (#[trigger] statement.chain.rest[i]).1,
            max,
        )
}

/// Whether some tokens stand at a position among others.
spec fn stands_at(tokens: Seq<TokenModel>, i: int, part: Seq<TokenModel>) -> bool {
    &&& 0 <= i
    &&& i + part.len() <= tokens.len()
    &&& tokens.subrange(i, i + part.len()) == part
}

proof fn lemma_parts_stand(
    tokens: Seq<TokenModel>,
    i: int,
    a: Seq<TokenModel>,
    b: Seq<TokenModel>,
)
    requires
        stands_at(tokens, i, a + b),
    ensures
        stands_at(tokens, i, a),
        stands_at(tokens, i + a.len(), b),
{
    let all = tokens.subrange(i, i + (a + b).len());
    assert forall|j: int| 0 <= j < a.len() implies tokens[i + j] == a[j] by {
        assert(all[j] == (a + b)[j]);
    }
    assert(tokens.subrange(i, i + a.len()) =~= a);
    assert forall|j: int| 0 <= j < b.len() implies tokens[i + a.len() + j] == b[j] by {
        assert(all[a.len() + j] == (a + b)[a.len() + j]);
    }
    assert(tokens.subrange(i + a.len(), i + a.len() + b.len()) =~= b);
}

/// Whether a token ends a command.
spec fn ends_command(token: TokenModel) -> bool {
    match token {
        TokenModel::Word(_) => false,
        TokenModel::Operator(operator) => operator != Operator::OpenParen && operator
            != Operator::RedirectIn && operator != Operator::RedirectOut && operator
            != Operator::RedirectAppend,
        _ => true,
    }
}

proof fn lemma_redirects_read(
    tokens: Seq<TokenModel>,
    i: int,
    command: WrittenCommand,
    k: int,
)
    requires
        is_written(command),
        stands_at(tokens, i, command_tokens(command)),
        ends_command(shell_parse::token_at(tokens, i + command_tokens(command).len())),
        0 <= k <= command.redirects.len(),
    ensures
        shell_parse::items_from(
            tokens,
            i + command.words.len() + 2 * k,
            command.words,
            command_meant(command).redirects.take(k),
        ) == Ok::<(Seq<Seq<char>>, Seq<RedirectModel>, int), ParseError>(
            (
                command.words,
                command_meant(command).redirects,
                i + command_tokens(command).len(),
            ),
        ),
    decreases command.redirects.len() - k,
{
    let redirects = command_meant(command).redirects;
    let own = command_tokens(command);
    if k == command.redirects.len() {
        assert(redirects.take(k) =~= redirects);
    } else {
        let at = i + command.words.len() + 2 * k;
        let all = tokens.subrange(i, i + own.len());
        assert(tokens[at] == all[command.words.len() + 2 * k]);
        assert(tokens[at + 1] == all[command.words.len() + 2 * k + 1]);
        let written = command.redirects[k];
        assert(tokens[at] == TokenModel::Operator(written.0));
        assert((2 * k + 1) / 2 == k);
        assert(tokens[at + 1] == TokenModel::Word(written.1));
        lemma_redirects_read(tokens, i, command, k + 1);
        assert(redirects.take(k + 1) =~= redirects.take(k).push(redirect_meant(written)));
    }
}

proof fn lemma_words_read(tokens: Seq<TokenModel>, i: int, command: WrittenCommand, k: int)
    requires
        is_written(command),
        stands_at(tokens, i, command_tokens(command)),
        ends_command(shell_parse::token_at(tokens, i + command_tokens(command).len())),
        0 <= k <= command.words.len(),
    ensures
        shell_parse::items_from(tokens, i + k, command.words.take(k), Seq::empty()) == Ok::<
            (Seq<Seq<char>>, Seq<RedirectModel>, int),
            ParseError,
        >(
            (
                command.words,
                command_meant(command).redirects,
                i + command_tokens(command).len(),
            ),
        ),
    decreases command.words.len() - k,
{
    if k == command.words.len() {
        assert(command.words.take(k) =~= command.words);
        assert(command_meant(command).redirects.take(0) =~= Seq::empty());
        lemma_redirects_read(tokens, i, command, 0);
    } else {
        let all = tokens.subrange(i, i + command_tokens(command).len());
        assert(tokens[i + k] == all[k]);
        assert(tokens[i + k] == TokenModel::Word(command.words[k]));
        lemma_words_read(tokens, i, command, k + 1);
        assert(command.words.take(k + 1) =~= command.words.take(k).push(command.words[k]));
    }
}

proof fn lemma_command_read(tokens: Seq<TokenModel>, i: int, command: WrittenCommand)
    requires
        is_written(command),
        stands_at(tokens, i, command_tokens(command)),
        ends_command(shell_parse::token_at(tokens, i + command_tokens(command).len())),
    ensures
        shell_parse::command_at(tokens, i) == Ok::<(CommandModel, int), ParseError>(
            (command_meant(command), i + command_tokens(command).len()),
        ),
{
    assert(command.words.take(0) =~= Seq::empty());
    lemma_words_read(tokens, i, command, 0);
}

proof fn lemma_pipeline_prefix(tokens: Seq<TokenModel>, i: int, commands: Seq<WrittenCommand>, k: int)
    requires
        stands_at(tokens, i, pipeline_tokens(commands)),
        1 <= k <= commands.len(),
    ensures
        stands_at(tokens, i, pipeline_tokens(commands.take(k))),
        k < commands.len() ==> stands_at(
            tokens,
            i + pipeline_tokens(commands.take(k)).len(),
            seq![TokenModel::Operator(Operator::Pipe)] + command_tokens(commands[k]),
        ) && pipeline_tokens(commands.take(k + 1)) == pipeline_tokens(commands.take(k)) + (
        seq![TokenModel::Operator(Operator::Pipe)] + command_tokens(commands[k])),
    decreases commands.len() - k,
{
    if k == commands.len() {
        assert(commands.take(k) =~= commands);
    } else {
        lemma_pipeline_prefix(tokens, i, commands, k + 1);
        assert(commands.take(k + 1).drop_last() =~= commands.take(k));
        lemma_parts_stand(
            tokens,
            i,
            pipeline_tokens(commands.take(k)),
            seq![TokenModel::Operator(Operator::Pipe)] + command_tokens(commands[k]),
        );
    }
}

proof fn lemma_stages_read(
    tokens: Seq<TokenModel>,
    i: int,
    commands: Seq<WrittenCommand>,
    k: int,
    max: usize,
)
    requires
        is_pipeline(commands, max),
        stands_at(tokens, i, pipeline_tokens(commands)),
        ends_command(shell_parse::token_at(tokens, i + pipeline_tokens(commands).len())),
        shell_parse::token_at(tokens, i + pipeline_tokens(commands).len()) != TokenModel::Operator(
            Operator::Pipe,
        ),
        1 <= k <= commands.len(),
    ensures
        shell_parse::stages_from(
            tokens,
            i + pipeline_tokens(commands.take(k)).len(),
            stages_meant(commands.take(k)),
            max,
        ) == Ok::<(Seq<CommandModel>, int), ParseError>(
            (stages_meant(commands), i + pipeline_tokens(commands).len()),
        ),
    decreases commands.len() - k,
{
    if k == commands.len() {
        assert(commands.take(k) =~= commands);
    } else {
        lemma_pipeline_prefix(tokens, i, commands, k);
        let at = i + pipeline_tokens(commands.take(k)).len();
        let pipe = seq![TokenModel::Operator(Operator::Pipe)];
        let own = command_tokens(commands[k]);
        assert(tokens[at] == tokens.subrange(at, at + (pipe + own).len())[0]);
        lemma_parts_stand(tokens, at, pipe, own);
        assert(is_written(commands[k]));
        let next = at + 1 + own.len();
        assert(ends_command(shell_parse::token_at(tokens, next))) by {
            if k + 1 < commands.len() {
                lemma_pipeline_prefix(tokens, i, commands, k + 1);
                let following = seq![TokenModel::Operator(Operator::Pipe)] + command_tokens(
                    commands[k + 1],
                );
                assert(tokens[next] == tokens.subrange(next, next + following.len())[0]);
            } else {
                assert(commands.take(k + 1) =~= commands);
            }
        }
        lemma_command_read(tokens, at + 1, commands[k]);
        lemma_stages_read(tokens, i, commands, k + 1, max);
        assert(stages_meant(commands.take(k + 1)) =~= stages_meant(commands.take(k)).push(
            command_meant(commands[k]),
        ));
    }
}

proof fn lemma_pipeline_read(
    tokens: Seq<TokenModel>,
    i: int,
    commands: Seq<WrittenCommand>,
    max: usize,
)
    requires
        is_pipeline(commands, max),
        stands_at(tokens, i, pipeline_tokens(commands)),
        ends_command(shell_parse::token_at(tokens, i + pipeline_tokens(commands).len())),
        shell_parse::token_at(tokens, i + pipeline_tokens(commands).len()) != TokenModel::Operator(
            Operator::Pipe,
        ),
    ensures
        shell_parse::pipeline_at(tokens, i, max) == Ok::<(StatementModel, int), ParseError>(
            (pipeline_meant(commands), i + pipeline_tokens(commands).len()),
        ),
{
    lemma_pipeline_prefix(tokens, i, commands, 1);
    assert(commands.take(1) =~= seq![commands[0]]);
    assert(pipeline_tokens(commands.take(1)) == command_tokens(commands[0]));
    assert(is_written(commands[0]));
    let next = i + command_tokens(commands[0]).len();
    assert(ends_command(shell_parse::token_at(tokens, next))) by {
        if commands.len() > 1 {
            let following = seq![TokenModel::Operator(Operator::Pipe)] + command_tokens(
                commands[1],
            );
            assert(tokens[next] == tokens.subrange(next, next + following.len())[0]);
        } else {
            assert(commands.take(1) =~= commands);
        }
    }
    lemma_command_read(tokens, i, commands[0]);
    lemma_stages_read(tokens, i, commands, 1, max);
    assert(stages_meant(commands.take(1)) =~= seq![command_meant(commands[0])]);
}

/// The operator before a pipeline of a chain.
spec fn chain_operator(and: bool) -> Seq<TokenModel> {
    seq![
        TokenModel::Operator(
            if and {
                Operator::And
            } else {
                Operator::Or
            },
        ),
    ]
}

proof fn lemma_chain_prefix(
    tokens: Seq<TokenModel>,
    i: int,
    first: Seq<WrittenCommand>,
    rest: Seq<(bool, Seq<WrittenCommand>)>,
    k: int,
)
    requires
        stands_at(tokens, i, chain_tokens(first, rest)),
        0 <= k <= rest.len(),
    ensures
        stands_at(tokens, i, chain_tokens(first, rest.take(k))),
        k < rest.len() ==> stands_at(
            tokens,
            i + chain_tokens(first, rest.take(k)).len(),
            chain_operator(rest[k].0) + pipeline_tokens(rest[k].1),
        ) && chain_tokens(first, rest.take(k + 1)) == chain_tokens(first, rest.take(k)) + (
        chain_operator(rest[k].0) + pipeline_tokens(rest[k].1)),
    decreases rest.len() - k,
{
    if k == rest.len() {
        assert(rest.take(k) =~= rest);
    } else {
        lemma_chain_prefix(tokens, i, first, rest, k + 1);
        assert(rest.take(k + 1).drop_last() =~= rest.take(k));
        lemma_parts_stand(
            tokens,
            i,
            chain_tokens(first, rest.take(k)),
            chain_operator(rest[k].0) + pipeline_tokens(rest[k].1),
        );
    }
}

/// Whether a token ends a chain.
spec fn ends_chain(token: TokenModel) -> bool {
    &&& ends_command(token)
    &&& token != TokenModel::Operator(Operator::Pipe)
    &&& token != TokenModel::Operator(Operator::And)
    &&& token != TokenModel::Operator(Operator::Or)
}

proof fn lemma_chain_next(
    tokens: Seq<TokenModel>,
    i: int,
    first: Seq<WrittenCommand>,
    rest: Seq<(bool, Seq<WrittenCommand>)>,
    k: int,
)
    requires
        stands_at(tokens, i, chain_tokens(first, rest)),
        ends_chain(shell_parse::token_at(tokens, i + chain_tokens(first, rest).len())),
        0 <= k <= rest.len(),
    ensures
        ({
            let next = shell_parse::token_at(tokens, i + chain_tokens(first, rest.take(k)).len());
            &&& ends_command(next)
            &&& next != TokenModel::Operator(Operator::Pipe)
            &&& k < rest.len() ==> next == chain_operator(rest[k].0)[0]
        }),
{
    lemma_chain_prefix(tokens, i, first, rest, k);
    if k < rest.len() {
        let at = i + chain_tokens(first, rest.take(k)).len();
        let following = chain_operator(rest[k].0) + pipeline_tokens(rest[k].1);
        assert(tokens[at] == tokens.subrange(at, at + following.len())[0]);
    } else {
        assert(rest.take(k) =~= rest);
    }
}

proof fn lemma_chain_read(
    tokens: Seq<TokenModel>,
    i: int,
    first: Seq<WrittenCommand>,
    rest: Seq<(bool, Seq<WrittenCommand>)>,
    k: int,
    max: usize,
)
    requires
        stands_at(tokens, i, chain_tokens(first, rest)),
        ends_chain(shell_parse::token_at(tokens, i + chain_tokens(first, rest).len())),
        forall|j: int| 0 <= j < rest.len() ==> is_pipeline((#[trigger] rest[j]).1, max),
        0 <= k <= rest.len(),
    ensures
        shell_parse::and_or_from(
            tokens,
            i + chain_tokens(first, rest.take(k)).len(),
            chain_meant(first, rest.take(k)),
            max,
        ) == Ok::<(StatementModel, int), ParseError>(
            (chain_meant(first, rest), i + chain_tokens(first, rest).len()),
        ),
    decreases rest.len() - k,
{
    if k == rest.len() {
        assert(rest.take(k) =~= rest);
    } else {
        lemma_chain_prefix(tokens, i, first, rest, k);
        lemma_chain_next(tokens, i, first, rest, k);
        lemma_chain_next(tokens, i, first, rest, k + 1);
        let at = i + chain_tokens(first, rest.take(k)).len();
        lemma_parts_stand(tokens, at, chain_operator(rest[k].0), pipeline_tokens(rest[k].1));
        assert(is_pipeline(rest[k].1, max));
        lemma_pipeline_read(tokens, at + 1, rest[k].1, max);
        lemma_chain_read(tokens, i, first, rest, k + 1, max);
        assert(rest.take(k + 1).drop_last() =~= rest.take(k));
        assert(rest.take(k + 1).last() == rest[k]);
    }
}

proof fn lemma_statement_read(
    tokens: Seq<TokenModel>,
    i: int,
    statement: WrittenStatement,
    max: usize,
)
    requires
        is_statement(statement, max),
        stands_at(tokens, i, statement_tokens(statement)),
        ({
            let next = shell_parse::token_at(tokens, i + statement_tokens(statement).len());
            next is End || next == TokenModel::Operator(Operator::Semi)
        }),
    ensures
        shell_parse::statement_at(tokens, i, max) == Ok::<(StatementModel, int), ParseError>(
            (statement_meant(statement), i + statement_tokens(statement).len()),
        ),
{
    let first = statement.chain.first;
    let rest = statement.chain.rest;
    let chain = chain_tokens(first, rest);
    if statement.background {
        lemma_parts_stand(tokens, i, chain, seq![TokenModel::Operator(Operator::Background)]);
        let at = i + chain.len();
        assert(tokens[at] == tokens.subrange(at, at + 1)[0]);
    }
    lemma_chain_prefix(tokens, i, first, rest, 0);
    lemma_chain_next(tokens, i, first, rest, 0);
    assert(rest.take(0) =~= Seq::empty());
    lemma_pipeline_read(tokens, i, first, max);
    lemma_chain_read(tokens, i, first, rest, 0, max);
}

proof fn lemma_program_prefix(
    tokens: Seq<TokenModel>,
    program: Seq<WrittenStatement>,
    k: int,
)
    requires
        tokens == program_tokens(program),
        1 <= k <= program.len(),
    ensures
        stands_at(tokens, 0, program_tokens(program.take(k))),
        k < program.len() ==> stands_at(
            tokens,
            program_tokens(program.take(k)).len() as int,
            seq![TokenModel::Operator(Operator::Semi)] + statement_tokens(program[k]),
        ) && program_tokens(program.take(k + 1)) == program_tokens(program.take(k)) + (
        seq![TokenModel::Operator(Operator::Semi)] + statement_tokens(program[k])),
    decreases program.len() - k,
{
    if k == program.len() {
        assert(program.take(k) =~= program);
        assert(tokens.subrange(0, tokens.len() as int) =~= tokens);
    } else {
        lemma_program_prefix(tokens, program, k + 1);
        assert(program.take(k + 1).drop_last() =~= program.take(k));
        lemma_parts_stand(
            tokens,
            0,
            program_tokens(program.take(k)),
            seq![TokenModel::Operator(Operator::Semi)] + statement_tokens(program[k]),
        );
    }
}

/// What the statements of a program mean, in order.
pub open spec fn program_meant(program: Seq<WrittenStatement>) -> Seq<StatementModel> {
    Seq::new(program.len(), |i: int| statement_meant(program[i]))
}

proof fn lemma_statement_starts(tokens: Seq<TokenModel>, i: int, statement: WrittenStatement, max: usize)
    requires
        is_statement(statement, max),
        stands_at(tokens, i, statement_tokens(statement)),
    ensures
        i < tokens.len(),
        tokens[i] is Word,
{
    let first = statement.chain.first;
    let rest = statement.chain.rest;
    let chain = chain_tokens(first, rest);
    if statement.background {
        lemma_parts_stand(tokens, i, chain, seq![TokenModel::Operator(Operator::Background)]);
    }
    lemma_chain_prefix(tokens, i, first, rest, 0);
    assert(rest.take(0) =~= Seq::empty());
    lemma_pipeline_prefix(tokens, i, first, 1);
    assert(first.take(1) =~= seq![first[0]]);
    assert(is_written(first[0]));
    let own = command_tokens(first[0]);
    assert(pipeline_tokens(first.take(1)) == own);
    assert(tokens[i] == tokens.subrange(i, i + own.len())[0]);
}

proof fn lemma_statement_taken(
    tokens: Seq<TokenModel>,
    at: int,
    done: Seq<StatementModel>,
    statement: StatementModel,
    next: int,
    limits: ParseLimits,
)
    requires
        0 <= at < tokens.len(),
        tokens[at] is Word,
        done.len() < limits.max_statements,
        shell_parse::statement_at(tokens, at, limits.max_pipeline_stages) == Ok::<
            (StatementModel, int),
            ParseError,
        >((statement, next)),
        shell_parse::token_at(tokens, next) is End || shell_parse::token_at(tokens, next)
            == TokenModel::Operator(Operator::Semi),
    ensures
        shell_parse::statements_from(tokens, at, done, limits) == shell_parse::statements_from(
            tokens,
            next,
            done.push(statement),
            limits,
        ),
        at > 0 && tokens[at - 1] == TokenModel::Operator(Operator::Semi)
            ==> shell_parse::statements_from(tokens, at - 1, done, limits)
            == shell_parse::statements_from(tokens, at, done, limits),
{
    shell_parse::lemma_statement_advances(tokens, at, limits.max_pipeline_stages);
}

/// Reading the statements behind the first `k`.
#[verifier::rlimit(60)]
#[verifier::spinoff_prover]
proof fn lemma_program_read(program: Seq<WrittenStatement>, k: int, limits: ParseLimits)
    requires
        1 <= program.len() <= limits.max_statements,
        forall|j: int|
            0 <= j < program.len() ==> is_statement(
                #[trigger] program[j],
                limits.max_pipeline_stages,
            ),
        0 <= k <= program.len(),
    ensures
        shell_parse::statements_from(
            program_tokens(program),
            if k == 0 {
                0
            } else {
                program_tokens(program.take(k)).len() as int
            },
            program_meant(program.take(k)),
            limits,
        ) == Ok::<Seq<StatementModel>, ParseError>(program_meant(program)),
    decreases program.len() - k,
{
    let tokens = program_tokens(program);
    let max = limits.max_pipeline_stages;
    if k == program.len() {
        assert(program.take(k) =~= program);
    } else {
        let statement = program[k];
        let own = statement_tokens(statement);
        let semi = seq![TokenModel::Operator(Operator::Semi)];
        assert(is_statement(statement, max));
        lemma_program_read(program, k + 1, limits);
        lemma_program_prefix(tokens, program, k + 1);
        let at: int = if k == 0 {
            0
        } else {
            program_tokens(program.take(k)).len() as int + 1
        };
        if k == 0 {
            assert(program.take(1) =~= seq![program[0]]);
            assert(stands_at(tokens, 0, own));
        } else {
            lemma_program_prefix(tokens, program, k);
            let before = program_tokens(program.take(k)).len() as int;
            assert(tokens[before] == tokens.subrange(before, before + (semi + own).len())[0]);
            lemma_parts_stand(tokens, before, semi, own);
        }
        assert(program_tokens(program.take(k + 1)).len() == at + own.len());
        let next = at + own.len();
        if k + 1 < program.len() {
            let following = semi + statement_tokens(program[k + 1]);
            assert(tokens[next] == tokens.subrange(next, next + following.len())[0]);
        } else {
            assert(program.take(k + 1) =~= program);
        }
        lemma_statement_starts(tokens, at, statement, max);
        lemma_statement_read(tokens, at, statement, max);
        let done = program_meant(program.take(k));
        assert(program_meant(program.take(k + 1)) =~= done.push(statement_meant(statement)));
        lemma_statement_taken(tokens, at, done, statement_meant(statement), next, limits);
    }
}

/// A plan is what is written: its statements in order, `;` between them; of
/// each the pipelines in order, with `&&` and `||` grouped from the left; of
/// each pipeline the commands in order, `|` between them; of each command the
/// program and the arguments that its words name, with its redirections in
/// order; and `&` behind a statement sends the whole of it to the background.
pub proof fn plans_are_what_is_written(program: Seq<WrittenStatement>, limits: ParseLimits)
    requires
        1 <= program.len() <= limits.max_statements,
        forall|j: int|
            0 <= j < program.len() ==> is_statement(
                #[trigger] program[j],
                limits.max_pipeline_stages,
            ),
    ensures
        shell_parse::plan_of_tokens(program_tokens(program), limits) == Ok::<
            Seq<StatementModel>,
            ParseError,
        >(program_meant(program)),
{
    let tokens = program_tokens(program);
    assert(program.take(0) =~= Seq::empty());
    assert(program_meant(program.take(0)) =~= Seq::empty());
    lemma_program_read(program, 0, limits);
    lemma_program_prefix(tokens, program, 1);
    assert(program.take(1) =~= seq![program[0]]);
    assert(is_statement(program[0], limits.max_pipeline_stages));
    lemma_statement_starts(tokens, 0, program[0], limits.max_pipeline_stages);
    assert(!(tokens[0] is Newline));
}

/// The same of a line that spells those tokens, word by word and operator by
/// operator.
pub proof fn lines_make_the_plans_they_spell(
    spellings: Seq<Spelling>,
    program: Seq<WrittenStatement>,
    limits: ParseLimits,
)
    requires
        spellings.len() <= limits.max_tokens,
        forall|j: int| 0 <= j < spellings.len() ==> line_laws::can_spell(#[trigger] spellings[j]),
        line_laws::tokens_meant(spellings) == program_tokens(program),
        !line_laws::line_of(spellings).contains('\0'),
        vstd::utf8::encode_utf8(line_laws::line_of(spellings)).len() <= limits.max_input_bytes,
        1 <= program.len() <= limits.max_statements,
        forall|j: int|
            0 <= j < program.len() ==> is_statement(
                #[trigger] program[j],
                limits.max_pipeline_stages,
            ),
    ensures
        shell_parse::plan_of(line_laws::line_of(spellings), limits) == Ok::<
            Seq<StatementModel>,
            ParseError,
        >(program_meant(program)),
{
    line_laws::lines_are_read_as_they_are_spelled(spellings, limits.max_tokens);
    plans_are_what_is_written(program, limits);
}

/// A line with a NUL anywhere in it is refused, and so is one with more bytes
/// than the limit.
pub proof fn lines_are_bounded_and_free_of_nul(input: Seq<char>, limits: ParseLimits, i: int)
    ensures
        0 <= i < input.len() && input[i] == '\0' ==> shell_parse::plan_of(input, limits) == Err::<
            Seq<StatementModel>,
            ParseError,
        >(ParseError::NulByte),
        (forall|k: int| 0 <= k < input.len() ==> #[trigger] input[k] != '\0')
            && vstd::utf8::encode_utf8(input).len() > limits.max_input_bytes
            ==> shell_parse::plan_of(input, limits) == Err::<Seq<StatementModel>, ParseError>(
            ParseError::InputTooLong(limits.max_input_bytes),
        ),
{
}

/// Words as the tokens that they are.
pub open spec fn word_tokens(words: Seq<Seq<char>>) -> Seq<TokenModel> {
    Seq::new(words.len(), |i: int| TokenModel::Word(words[i]))
}

proof fn lemma_words_are_taken(
    tokens: Seq<TokenModel>,
    words: Seq<Seq<char>>,
    k: int,
)
    requires
        0 <= k <= words.len() <= tokens.len(),
        forall|j: int|
            0 <= j < words.len() ==> #[trigger] tokens[j] == TokenModel::Word(words[j]),
    ensures
        shell_parse::items_from(tokens, k, words.take(k), Seq::empty()) == shell_parse::items_from(
            tokens,
            words.len() as int,
            words,
            Seq::empty(),
        ),
    decreases words.len() - k,
{
    if k < words.len() {
        lemma_words_are_taken(tokens, words, k + 1);
        assert(tokens[k] == TokenModel::Word(words[k]));
        assert(words.take(k).push(words[k]) =~= words.take(k + 1));
    } else {
        assert(words.take(k) =~= words);
    }
}

/// Behind the words of a command a redirection needs a path, a parenthesis opens
/// no subshell, and one that closes none is no separator.
pub proof fn stray_operators_are_refused(
    words: Seq<Seq<char>>,
    operator: Operator,
    rest: Seq<TokenModel>,
    limits: ParseLimits,
)
    requires
        limits.max_statements >= 1,
    ensures
        ({
            let tokens = word_tokens(words) + seq![TokenModel::Operator(operator)] + rest;
            let plan = shell_parse::plan_of_tokens(tokens, limits);
            let redirects = operator == Operator::RedirectIn || operator == Operator::RedirectOut
                || operator == Operator::RedirectAppend;
            &&& redirects && (rest.len() == 0 || !(rest[0] is Word)) ==> plan == Err::<
                Seq<StatementModel>,
                ParseError,
            >(ParseError::InvalidOperator("redirection target"))
            &&& redirects && rest.len() > 0 && rest[0] is Word && shell_ir::path_fault(
                rest[0]->Word_0,
            ) is Some ==> plan == Err::<Seq<StatementModel>, ParseError>(
                ParseError::InvalidOperator("redirection target must be a session path"),
            )
            &&& operator == Operator::OpenParen ==> plan == Err::<Seq<StatementModel>, ParseError>(
                ParseError::UnsupportedConstruct("subshell `( ... )`"),
            )
            &&& operator == Operator::CloseParen && words.len() > 0 && shell_parse::resolved(
                words[0],
                words.skip(1),
            ) is Ok ==> plan == Err::<Seq<StatementModel>, ParseError>(
                ParseError::InvalidOperator("expected separator"),
            )
        }),
{
    let front = word_tokens(words);
    let tokens = front + seq![TokenModel::Operator(operator)] + rest;
    let n = words.len() as int;
    assert(tokens[n] == TokenModel::Operator(operator));
    assert forall|j: int| 0 <= j < words.len() implies #[trigger] tokens[j] == TokenModel::Word(
        words[j],
    ) by {
        assert(tokens[j] == front[j]);
    }
    assert(words.take(0) =~= Seq::empty());
    lemma_words_are_taken(tokens, words, 0);
    if rest.len() > 0 {
        assert(tokens[n + 1] == rest[0]);
    }
    if words.len() > 0 {
        assert(tokens[0] == TokenModel::Word(words[0]));
    }
}

} // verus!
