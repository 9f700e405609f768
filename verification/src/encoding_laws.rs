//! How a plan is laid out in bytes.

use vstd::prelude::*;
use vstd::utf8::*;
use crate::canonical;
use crate::shell_ir::{
    BuiltinModel,
    CommandModel,
    NativeShellKind,
    ProgramModel,
    RedirectModel,
    StatementModel,
};

verus! {

/// A length is written in four bytes, the least significant first.
pub proof fn lengths_are_written_least_byte_first(n: nat)
    requires
        n < 0x1_0000_0000,
    ensures
        ({
            let bytes = canonical::length_bytes(n);
            &&& bytes.len() == 4
            &&& bytes[0] + 256 * bytes[1] + 65536 * bytes[2] + 16777216 * bytes[3] == n
        }),
{
    assert(n % 256 + 256 * ((n / 256) % 256) + 65536 * ((n / 65536) % 256) + 16777216 * ((n
        / 16777216) % 256) == n);
}

/// A text is written as the length of its UTF-8 bytes, and those bytes.
pub proof fn texts_are_written_behind_their_length(s: Seq<char>)
    ensures
        canonical::text_bytes(s).take(4) == canonical::length_bytes(encode_utf8(s).len()),
        canonical::text_bytes(s).skip(4) == encode_utf8(s),
{
    assert(canonical::text_bytes(s).take(4) =~= canonical::length_bytes(encode_utf8(s).len()));
    assert(canonical::text_bytes(s).skip(4) =~= encode_utf8(s));
}

/// The texts of a list, each as it is written.
pub open spec fn written_texts(list: Seq<Seq<char>>) -> Seq<Seq<u8>> {
    Seq::new(list.len(), |i: int| canonical::text_bytes(list[i]))
}

proof fn lemma_joined_texts(list: Seq<Seq<char>>)
    ensures
        canonical::joined_texts(list) == written_texts(list).flatten(),
    decreases list.len(),
{
    let written = written_texts(list);
    written.lemma_flatten_and_flatten_alt_are_equivalent();
    if list.len() > 0 {
        let rest = list.drop_last();
        lemma_joined_texts(rest);
        written_texts(rest).lemma_flatten_and_flatten_alt_are_equivalent();
        assert(written.drop_last() =~= written_texts(rest));
        assert(written.last() == canonical::text_bytes(list.last()));
    }
}

/// A list of texts is written as how many there are, and each in order.
pub proof fn lists_of_texts_are_written_in_order(list: Seq<Seq<char>>)
    ensures
        canonical::text_list_bytes(list) == canonical::length_bytes(list.len()) + written_texts(
            list,
        ).flatten(),
{
    lemma_joined_texts(list);
}

/// Each builtin is written as a number of its own, and what it is given, in
/// order: what is copied or moved comes before where it goes.
pub proof fn builtins_are_written_with_what_they_are_given(
    path: Seq<char>,
    other: Seq<char>,
    args: Seq<Seq<char>>,
)
    ensures
        canonical::builtin_bytes(BuiltinModel::Pwd) == seq![0u8],
        canonical::builtin_bytes(BuiltinModel::Cd(path)) == seq![1u8] + canonical::text_bytes(path),
        canonical::builtin_bytes(BuiltinModel::Ls(path)) == seq![2u8] + canonical::text_bytes(path),
        canonical::builtin_bytes(BuiltinModel::Cat(path)) == seq![3u8] + canonical::text_bytes(
            path,
        ),
        canonical::builtin_bytes(BuiltinModel::Mkdir(path)) == seq![4u8] + canonical::text_bytes(
            path,
        ),
        canonical::builtin_bytes(BuiltinModel::Remove(path)) == seq![5u8] + canonical::text_bytes(
            path,
        ),
        canonical::builtin_bytes(BuiltinModel::Copy(path, other)) == seq![6u8]
            + canonical::text_bytes(path) + canonical::text_bytes(other),
        canonical::builtin_bytes(BuiltinModel::Move(path, other)) == seq![7u8]
            + canonical::text_bytes(path) + canonical::text_bytes(other),
        canonical::builtin_bytes(BuiltinModel::Env) == seq![8u8],
        canonical::builtin_bytes(BuiltinModel::Which(path)) == seq![9u8] + canonical::text_bytes(
            path,
        ),
        canonical::builtin_bytes(BuiltinModel::Echo(args)) == seq![10u8]
            + canonical::text_list_bytes(args),
        canonical::builtin_bytes(BuiltinModel::Export(path, Some(other))) == seq![11u8]
            + canonical::text_bytes(path) + seq![1u8] + canonical::text_bytes(other),
        canonical::builtin_bytes(BuiltinModel::Export(path, None)) == seq![11u8]
            + canonical::text_bytes(path) + seq![0u8],
{
    assert(canonical::builtin_bytes(BuiltinModel::Pwd) =~= seq![0u8]);
    assert(canonical::builtin_bytes(BuiltinModel::Env) =~= seq![8u8]);
    assert(canonical::builtin_bytes(BuiltinModel::Copy(path, other)) =~= seq![6u8]
        + canonical::text_bytes(path) + canonical::text_bytes(other));
    assert(canonical::builtin_bytes(BuiltinModel::Move(path, other)) =~= seq![7u8]
        + canonical::text_bytes(path) + canonical::text_bytes(other));
    assert(canonical::builtin_bytes(BuiltinModel::Export(path, Some(other))) =~= seq![11u8]
        + canonical::text_bytes(path) + seq![1u8] + canonical::text_bytes(other));
    assert(canonical::builtin_bytes(BuiltinModel::Export(path, None)) =~= seq![11u8]
        + canonical::text_bytes(path) + seq![0u8]);
}

/// A program is written as its number, and the builtin, the name, the path or
/// the shell that it is.
pub proof fn programs_are_written_with_their_name(
    builtin: BuiltinModel,
    name: Seq<char>,
    kind: NativeShellKind,
)
    ensures
        canonical::program_bytes(ProgramModel::Builtin(builtin)) == seq![0u8]
            + canonical::builtin_bytes(builtin),
        canonical::program_bytes(ProgramModel::External(name)) == seq![1u8]
            + canonical::text_bytes(name),
        canonical::program_bytes(ProgramModel::WasiComponent(name)) == seq![2u8]
            + canonical::text_bytes(name),
        kind is Bash ==> canonical::program_bytes(ProgramModel::NativeShell(kind)) == seq![
            3u8,
            0u8,
        ],
        kind is PowerShell ==> canonical::program_bytes(ProgramModel::NativeShell(kind)) == seq![
            3u8,
            1u8,
        ],
        kind is Cmd ==> canonical::program_bytes(ProgramModel::NativeShell(kind)) == seq![3u8, 2u8],
{
    let shell = canonical::program_bytes(ProgramModel::NativeShell(kind));
    assert(shell =~= seq![3u8, canonical::shell_kind_number(kind)]);
}

/// A redirection is written as its number and its path.
pub proof fn redirections_are_written_with_their_path(path: Seq<char>)
    ensures
        canonical::redirect_bytes(RedirectModel::Input(path)) == seq![0u8] + canonical::text_bytes(
            path,
        ),
        canonical::redirect_bytes(RedirectModel::OutputTruncate(path)) == seq![1u8]
            + canonical::text_bytes(path),
        canonical::redirect_bytes(RedirectModel::OutputAppend(path)) == seq![2u8]
            + canonical::text_bytes(path),
        canonical::redirect_bytes(RedirectModel::ErrorTruncate(path)) == seq![3u8]
            + canonical::text_bytes(path),
        canonical::redirect_bytes(RedirectModel::ErrorAppend(path)) == seq![4u8]
            + canonical::text_bytes(path),
{
}

/// The redirections of a list, each as it is written.
pub open spec fn written_redirects(list: Seq<RedirectModel>) -> Seq<Seq<u8>> {
    Seq::new(list.len(), |i: int| canonical::redirect_bytes(list[i]))
}

proof fn lemma_joined_redirects(list: Seq<RedirectModel>)
    ensures
        canonical::joined_redirects(list) == written_redirects(list).flatten(),
    decreases list.len(),
{
    let written = written_redirects(list);
    written.lemma_flatten_and_flatten_alt_are_equivalent();
    if list.len() > 0 {
        let rest = list.drop_last();
        lemma_joined_redirects(rest);
        written_redirects(rest).lemma_flatten_and_flatten_alt_are_equivalent();
        assert(written.drop_last() =~= written_redirects(rest));
        assert(written.last() == canonical::redirect_bytes(list.last()));
    }
}

/// A command is written as its program, its working directory, its arguments and
/// its redirections, all of them and in order.
pub proof fn commands_are_written_whole(command: CommandModel)
    ensures
        canonical::command_bytes(command) == canonical::program_bytes(command.program)
            + canonical::text_bytes(command.cwd) + canonical::length_bytes(command.args.len())
            + written_texts(command.args).flatten() + canonical::length_bytes(
            command.redirects.len(),
        ) + written_redirects(command.redirects).flatten(),
{
    lemma_joined_texts(command.args);
    lemma_joined_redirects(command.redirects);
    assert(canonical::command_bytes(command) =~= canonical::program_bytes(command.program)
        + canonical::text_bytes(command.cwd) + canonical::length_bytes(command.args.len())
        + written_texts(command.args).flatten() + canonical::length_bytes(command.redirects.len())
        + written_redirects(command.redirects).flatten());
}

/// The commands of a list, each as it is written.
pub open spec fn written_commands(list: Seq<CommandModel>) -> Seq<Seq<u8>> {
    Seq::new(list.len(), |i: int| canonical::command_bytes(list[i]))
}

proof fn lemma_joined_commands(list: Seq<CommandModel>)
    ensures
        canonical::joined_commands(list) == written_commands(list).flatten(),
    decreases list.len(),
{
    let written = written_commands(list);
    written.lemma_flatten_and_flatten_alt_are_equivalent();
    if list.len() > 0 {
        let rest = list.drop_last();
        lemma_joined_commands(rest);
        written_commands(rest).lemma_flatten_and_flatten_alt_are_equivalent();
        assert(written.drop_last() =~= written_commands(rest));
        assert(written.last() == canonical::command_bytes(list.last()));
    }
}

/// The statements of a list, each as it is written.
pub open spec fn written_statements(list: Seq<StatementModel>) -> Seq<Seq<u8>> {
    Seq::new(list.len(), |i: int| canonical::statement_bytes(list[i]))
}

proof fn lemma_joined_statements(list: Seq<StatementModel>)
    ensures
        canonical::joined_statements(list) == written_statements(list).flatten(),
    decreases list.len(),
{
    let written = written_statements(list);
    written.lemma_flatten_and_flatten_alt_are_equivalent();
    if list.len() > 0 {
        let rest = list.drop_last();
        lemma_joined_statements(rest);
        written_statements(rest).lemma_flatten_and_flatten_alt_are_equivalent();
        assert(written.drop_last() =~= written_statements(rest));
        assert(written.last() == canonical::statement_bytes(list.last()));
    }
}

/// A statement is written as its number, and what it is made of, in order: of a
/// condition the left side comes before the right.
pub proof fn statements_are_written_with_their_parts(
    command: CommandModel,
    stages: Seq<CommandModel>,
    left: StatementModel,
    right: StatementModel,
    list: Seq<StatementModel>,
)
    ensures
        canonical::statement_bytes(StatementModel::Command(command)) == seq![0u8]
            + canonical::command_bytes(command),
        canonical::statement_bytes(StatementModel::Pipeline(stages)) == seq![1u8]
            + canonical::length_bytes(stages.len()) + written_commands(stages).flatten(),
        canonical::statement_bytes(StatementModel::And(Box::new(left), Box::new(right))) == seq![
            2u8,
        ] + canonical::statement_bytes(left) + canonical::statement_bytes(right),
        canonical::statement_bytes(StatementModel::Or(Box::new(left), Box::new(right))) == seq![
            3u8,
        ] + canonical::statement_bytes(left) + canonical::statement_bytes(right),
        canonical::statement_bytes(StatementModel::Sequence(list)) == seq![4u8]
            + canonical::length_bytes(list.len()) + written_statements(list).flatten(),
        canonical::statement_bytes(StatementModel::Background(Box::new(left))) == seq![5u8]
            + canonical::statement_bytes(left),
{
    reveal_with_fuel(canonical::statement_bytes, 2);
    reveal_with_fuel(canonical::statement_body, 2);
    lemma_joined_commands(stages);
    lemma_joined_statements(list);
    assert(canonical::statement_bytes(StatementModel::Pipeline(stages)) =~= seq![1u8]
        + canonical::length_bytes(stages.len()) + written_commands(stages).flatten());
    assert(canonical::statement_bytes(StatementModel::And(Box::new(left), Box::new(right)))
        =~= seq![2u8] + canonical::statement_bytes(left) + canonical::statement_bytes(right));
    assert(canonical::statement_bytes(StatementModel::Or(Box::new(left), Box::new(right)))
        =~= seq![3u8] + canonical::statement_bytes(left) + canonical::statement_bytes(right));
    assert(canonical::statement_bytes(StatementModel::Sequence(list)) =~= seq![4u8]
        + canonical::length_bytes(list.len()) + written_statements(list).flatten());
}

/// A plan is written as the name of its format and its statements, all of them
/// and in order.
pub proof fn plans_are_written_whole(plan: Seq<StatementModel>, i: int)
    ensures
        canonical::plan_bytes(plan) == canonical::header() + written_statements(plan).flatten(),
        canonical::header().len() == "ferrous-shell-ir-v1\0"@.len(),
        0 <= i < canonical::header().len() ==> canonical::header()[i] as int
            == "ferrous-shell-ir-v1\0"@[i] as int,
{
    lemma_joined_statements(plan);
    reveal_strlit("ferrous-shell-ir-v1\0");
}

} // verus!
