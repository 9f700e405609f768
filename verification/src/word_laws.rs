//! What each command word means: the program that its words name, and the
//! arguments that the program is given.

use vstd::prelude::*;
use crate::grammar_laws;
use crate::grammar_laws::{WrittenChain, WrittenCommand, WrittenStatement};
use crate::parse_laws;
use crate::shell_ir;
use crate::shell_ir::{BuiltinModel, CommandModel, ProgramModel, StatementModel};
use crate::shell_lex::ParseError;
use crate::shell_parse;
use crate::shell_parse::ParseLimits;
use crate::text;

verus! {

/// A plan of one command without redirections.
pub open spec fn one_command(program: ProgramModel, args: Seq<Seq<char>>, cwd: Seq<char>) -> Result<
    Seq<StatementModel>,
    ParseError,
> {
    Ok(
        seq![
            StatementModel::Command(
                CommandModel { program, args, redirects: Seq::empty(), cwd },
            ),
        ],
    )
}

/// A plan of one builtin, which is given nothing more.
pub open spec fn one_builtin(builtin: BuiltinModel, cwd: Seq<char>) -> Result<
    Seq<StatementModel>,
    ParseError,
> {
    one_command(ProgramModel::Builtin(builtin), Seq::empty(), cwd)
}

/// Words that are refused for a reason.
pub open spec fn refused(reason: &'static str) -> Result<Seq<StatementModel>, ParseError> {
    Err(ParseError::InvalidBuiltin(reason))
}

/// Whether a text leads nowhere outside the session.
pub open spec fn is_path(path: Seq<char>) -> bool {
    shell_ir::path_fault(path) is None
}

proof fn lemma_words_differ()
    ensures
        forall|i: int, j: int|
            0 <= i < j < command_words().len() ==> command_words()[i] != command_words()[j],
{
    reveal_strlit("pwd");
    reveal_strlit("env");
    reveal_strlit("echo");
    reveal_strlit("cd");
    reveal_strlit("ls");
    reveal_strlit("cat");
    reveal_strlit("mkdir");
    reveal_strlit("rm");
    reveal_strlit("cp");
    reveal_strlit("mv");
    reveal_strlit("which");
    reveal_strlit("export");
    reveal_strlit("run-wasi");
    reveal_strlit("run-native");
    reveal_strlit("bash");
    reveal_strlit("sh");
    reveal_strlit("zsh");
    reveal_strlit("fish");
    reveal_strlit("powershell");
    reveal_strlit("pwsh");
    reveal_strlit("cmd");
    reveal_strlit("eval");
    reveal_strlit("source");
    reveal_strlit(".");
    reveal_strlit("alias");
    reveal_strlit("function");
    let words = command_words();
    assert forall|i: int, j: int| 0 <= i < j < words.len() implies words[i] != words[j] by {
        let a = words[i];
        let b = words[j];
        if a == b {
            assert(a.len() == b.len());
            assert(a[0] == b[0]);
            if a.len() > 1 {
                assert(a[1] == b[1]);
            }
            if a.len() > 2 {
                assert(a[2] == b[2]);
            }
        }
    }
}

/// The words that do not name a program of the host.
pub open spec fn command_words() -> Seq<Seq<char>> {
    seq![
        "pwd"@,
        "env"@,
        "echo"@,
        "cd"@,
        "ls"@,
        "cat"@,
        "mkdir"@,
        "rm"@,
        "cp"@,
        "mv"@,
        "which"@,
        "export"@,
        "run-wasi"@,
        "run-native"@,
        "bash"@,
        "sh"@,
        "zsh"@,
        "fish"@,
        "powershell"@,
        "pwsh"@,
        "cmd"@,
        "eval"@,
        "source"@,
        "."@,
        "alias"@,
        "function"@,
    ]
}

/// The word at a position differs from every other.
proof fn lemma_word(i: int)
    requires
        0 <= i < command_words().len(),
    ensures
        forall|j: int|
            0 <= j < command_words().len() && j != i ==> command_words()[i] != #[trigger] command_words()[j],
{
    lemma_words_differ();
}

/// `cp` and `mv` name the source first and the destination second.
pub proof fn copies_go_from_the_first_to_the_second(
    from: Seq<char>,
    to: Seq<char>,
    cwd: Seq<char>,
)
    requires
        is_path(from),
        is_path(to),
    ensures
        shell_parse::plan_of_argv("cp"@, seq![from, to], cwd) == one_builtin(
            BuiltinModel::Copy(from, to),
            cwd,
        ),
        shell_parse::plan_of_argv("mv"@, seq![from, to], cwd) == one_builtin(
            BuiltinModel::Move(from, to),
            cwd,
        ),
{
    lemma_words_differ();
    lemma_word(8);
    lemma_word(9);
    let words = command_words();
    assert(words[8] == "cp"@ && words[9] == "mv"@);
    lemma_not_special(8);
    lemma_not_special(9);
}

/// Only the words from position 12 on are more than names of builtins.
proof fn lemma_not_special(i: int)
    requires
        0 <= i < 12,
    ensures
        ({
            let word = command_words()[i];
            &&& word != "run-wasi"@ && word != "run-native"@
            &&& !shell_parse::is_shell_name(word)
            &&& word != "eval"@ && word != "source"@ && word != "."@ && word != "alias"@ && word
                != "function"@
            &&& i != 0 ==> word != "pwd"@
            &&& i != 1 ==> word != "env"@
            &&& i != 2 ==> word != "echo"@
            &&& i != 3 ==> word != "cd"@
            &&& i != 4 ==> word != "ls"@
            &&& i != 5 ==> word != "cat"@
            &&& i != 6 ==> word != "mkdir"@
            &&& i != 7 ==> word != "rm"@
            &&& i != 8 ==> word != "cp"@
            &&& i != 9 ==> word != "mv"@
            &&& i != 10 ==> word != "which"@
            &&& i != 11 ==> word != "export"@
        }),
{
    lemma_word(i);
    let words = command_words();
    assert(words[0] == "pwd"@);
    assert(words[1] == "env"@);
    assert(words[2] == "echo"@);
    assert(words[3] == "cd"@);
    assert(words[4] == "ls"@);
    assert(words[5] == "cat"@);
    assert(words[6] == "mkdir"@);
    assert(words[7] == "rm"@);
    assert(words[8] == "cp"@);
    assert(words[9] == "mv"@);
    assert(words[10] == "which"@);
    assert(words[11] == "export"@);
    assert(words[12] == "run-wasi"@);
    assert(words[13] == "run-native"@);
    assert(words[14] == "bash"@);
    assert(words[15] == "sh"@);
    assert(words[16] == "zsh"@);
    assert(words[17] == "fish"@);
    assert(words[18] == "powershell"@);
    assert(words[19] == "pwsh"@);
    assert(words[20] == "cmd"@);
    assert(words[21] == "eval"@);
    assert(words[22] == "source"@);
    assert(words[23] == "."@);
    assert(words[24] == "alias"@);
    assert(words[25] == "function"@);
}

/// `cp` and `mv` take exactly two arguments, which have to be session paths.
pub proof fn copies_need_two_paths(args: Seq<Seq<char>>, cwd: Seq<char>)
    ensures
        args.len() != 2 ==> shell_parse::plan_of_argv("cp"@, args, cwd) == refused(
            "cp and mv take exactly two path arguments",
        ) && shell_parse::plan_of_argv("mv"@, args, cwd) == refused(
            "cp and mv take exactly two path arguments",
        ),
        args.len() == 2 && !is_path(args[0]) ==> shell_parse::plan_of_argv("cp"@, args, cwd)
            == refused("source path is not a session path") && shell_parse::plan_of_argv(
            "mv"@,
            args,
            cwd,
        ) == refused("source path is not a session path"),
        args.len() == 2 && is_path(args[0]) && !is_path(args[1]) ==> shell_parse::plan_of_argv(
            "cp"@,
            args,
            cwd,
        ) == refused("destination path is not a session path") && shell_parse::plan_of_argv(
            "mv"@,
            args,
            cwd,
        ) == refused("destination path is not a session path"),
{
    assert(command_words()[8] == "cp"@ && command_words()[9] == "mv"@);
    lemma_not_special(8);
    lemma_not_special(9);
}

/// Each builtin that works on one path works on the path that it is given, and
/// `ls` without one on the working directory.
pub proof fn builtins_work_on_the_path_they_are_given(path: Seq<char>, cwd: Seq<char>)
    requires
        is_path(path),
    ensures
        shell_parse::plan_of_argv("cd"@, seq![path], cwd) == one_builtin(
            BuiltinModel::Cd(path),
            cwd,
        ),
        shell_parse::plan_of_argv("ls"@, seq![path], cwd) == one_builtin(
            BuiltinModel::Ls(path),
            cwd,
        ),
        shell_parse::plan_of_argv("cat"@, seq![path], cwd) == one_builtin(
            BuiltinModel::Cat(path),
            cwd,
        ),
        shell_parse::plan_of_argv("mkdir"@, seq![path], cwd) == one_builtin(
            BuiltinModel::Mkdir(path),
            cwd,
        ),
        shell_parse::plan_of_argv("rm"@, seq![path], cwd) == one_builtin(
            BuiltinModel::Remove(path),
            cwd,
        ),
        shell_parse::plan_of_argv("ls"@, Seq::empty(), cwd) == one_builtin(
            BuiltinModel::Ls("."@),
            cwd,
        ),
{
    let words = command_words();
    assert(words[3] == "cd"@ && words[4] == "ls"@ && words[5] == "cat"@ && words[6] == "mkdir"@
        && words[7] == "rm"@);
    lemma_not_special(3);
    lemma_not_special(4);
    lemma_not_special(5);
    lemma_not_special(6);
    lemma_not_special(7);
}

/// A builtin that works on one path refuses any other number of arguments, and
/// an argument that is no session path, under its own name.
pub proof fn builtins_refuse_other_arguments(args: Seq<Seq<char>>, cwd: Seq<char>)
    ensures
        args.len() != 1 ==> {
            &&& shell_parse::plan_of_argv("cd"@, args, cwd) == refused(
                "cd takes exactly one path argument",
            )
            &&& args.len() > 0 ==> shell_parse::plan_of_argv("ls"@, args, cwd) == refused(
                "ls takes at most one path argument",
            )
            &&& shell_parse::plan_of_argv("cat"@, args, cwd) == refused(
                "cat takes exactly one path argument",
            )
            &&& shell_parse::plan_of_argv("mkdir"@, args, cwd) == refused(
                "mkdir takes exactly one path argument",
            )
            &&& shell_parse::plan_of_argv("rm"@, args, cwd) == refused(
                "rm takes exactly one path argument",
            )
            &&& shell_parse::plan_of_argv("which"@, args, cwd) == refused(
                "which takes exactly one program name",
            )
            &&& shell_parse::plan_of_argv("export"@, args, cwd) == refused(
                "export takes exactly one NAME=value assignment",
            )
        },
        args.len() == 1 && !is_path(args[0]) ==> {
            &&& shell_parse::plan_of_argv("cd"@, args, cwd) == refused(
                "cd path is not a session path",
            )
            &&& shell_parse::plan_of_argv("ls"@, args, cwd) == refused(
                "ls path is not a session path",
            )
            &&& shell_parse::plan_of_argv("cat"@, args, cwd) == refused(
                "cat path is not a session path",
            )
            &&& shell_parse::plan_of_argv("mkdir"@, args, cwd) == refused(
                "mkdir path is not a session path",
            )
            &&& shell_parse::plan_of_argv("rm"@, args, cwd) == refused(
                "rm path is not a session path",
            )
        },
{
    let words = command_words();
    assert(words[3] == "cd"@ && words[4] == "ls"@ && words[5] == "cat"@ && words[6] == "mkdir"@
        && words[7] == "rm"@ && words[10] == "which"@ && words[11] == "export"@);
    lemma_not_special(3);
    lemma_not_special(4);
    lemma_not_special(5);
    lemma_not_special(6);
    lemma_not_special(7);
    lemma_not_special(10);
    lemma_not_special(11);
}

/// `echo` prints all the arguments that it is given, `which` looks for the one
/// it is given, and `pwd` and `env` need none.
pub proof fn builtins_keep_their_arguments(
    args: Seq<Seq<char>>,
    name: Seq<char>,
    cwd: Seq<char>,
)
    ensures
        shell_parse::plan_of_argv("echo"@, args, cwd) == one_command(
            ProgramModel::Builtin(BuiltinModel::Echo(args)),
            args,
            cwd,
        ),
        shell_parse::plan_of_argv("which"@, seq![name], cwd) == one_builtin(
            BuiltinModel::Which(name),
            cwd,
        ),
        shell_parse::plan_of_argv("pwd"@, args, cwd) == one_builtin(BuiltinModel::Pwd, cwd),
        shell_parse::plan_of_argv("env"@, args, cwd) == one_builtin(BuiltinModel::Env, cwd),
{
    let words = command_words();
    assert(words[0] == "pwd"@ && words[1] == "env"@ && words[2] == "echo"@ && words[10]
        == "which"@);
    lemma_not_special(0);
    lemma_not_special(1);
    lemma_not_special(2);
    lemma_not_special(10);
}

/// Whether a text names a variable that can be exported.
pub open spec fn is_variable(name: Seq<char>) -> bool {
    &&& name.len() > 0
    &&& !name.contains('=')
    &&& forall|i: int| 0 <= i < name.len() ==> !text::white_space(#[trigger] name[i])
}

/// `export NAME=value` sets the variable to all that stands behind the first
/// `=`, and `export NAME` removes it.
pub proof fn exports_name_a_variable_and_its_value(
    name: Seq<char>,
    value: Seq<char>,
    cwd: Seq<char>,
)
    requires
        is_variable(name),
    ensures
        shell_parse::plan_of_argv("export"@, seq![name.push('=') + value], cwd) == one_builtin(
            BuiltinModel::Export(name, Some(value)),
            cwd,
        ),
        shell_parse::plan_of_argv("export"@, seq![name], cwd) == one_builtin(
            BuiltinModel::Export(name, None),
            cwd,
        ),
{
    assert(command_words()[11] == "export"@);
    lemma_not_special(11);
    let argument = name.push('=') + value;
    assert(argument[name.len() as int] == '=');
    argument.index_of_first_ensures('=');
    name.index_of_first_ensures('=');
    let at = argument.index_of_first('=')->0;
    if at < name.len() {
        assert(name[at] == argument[at]);
        assert(name.contains('='));
    }
    assert(at == name.len());
    assert(argument.take(at) =~= name);
    assert(argument.skip(at + 1) =~= value);
}

/// What follows `run-wasi` is the component and then its own arguments; what
/// follows `run-native --allow --` is the program and then its own; and every
/// word that is none of the shell's names a program, with all its arguments.
pub proof fn programs_are_given_their_own_arguments(
    program: Seq<char>,
    args: Seq<Seq<char>>,
    cwd: Seq<char>,
)
    ensures
        shell_parse::plan_of_argv("run-wasi"@, seq![program] + args, cwd) == one_command(
            ProgramModel::WasiComponent(program),
            args,
            cwd,
        ),
        shell_parse::plan_of_argv(
            "run-native"@,
            seq!["--allow"@, "--"@, program] + args,
            cwd,
        ) == one_command(ProgramModel::External(program), args, cwd),
        !command_words().contains(program) ==> shell_parse::plan_of_argv(program, args, cwd)
            == one_command(ProgramModel::External(program), args, cwd),
{
    let words = command_words();
    lemma_words_differ();
    assert(words[12] == "run-wasi"@ && words[13] == "run-native"@);
    assert(words[12] != words[13]);
    assert((seq![program] + args).skip(1) =~= args);
    assert((seq!["--allow"@, "--"@, program] + args).skip(3) =~= args);
    if !words.contains(program) {
        lemma_not_special(0);
        assert(words[0] != program && words[1] != program && words[2] != program && words[3]
            != program && words[4] != program && words[5] != program && words[6] != program
            && words[7] != program && words[8] != program && words[9] != program && words[10]
            != program && words[11] != program && words[12] != program && words[13] != program
            && words[14] != program && words[15] != program && words[16] != program && words[17]
            != program && words[18] != program && words[19] != program && words[20] != program
            && words[21] != program && words[22] != program && words[23] != program && words[24]
            != program && words[25] != program);
    }
}

/// Shells, `eval`, startup files and changes of the shell itself are refused,
/// whatever follows, and so is `run-native` without `--allow --` and a program,
/// and `run-wasi` without a component.
pub proof fn unsafe_words_are_refused(args: Seq<Seq<char>>, cwd: Seq<char>)
    ensures
        forall|i: int|
            14 <= i < 21 ==> shell_parse::plan_of_argv(#[trigger] command_words()[i], args, cwd)
                == Err::<Seq<StatementModel>, ParseError>(
                ParseError::UnsupportedConstruct(
                    "native shell interpreters require explicit policy approval",
                ),
            ),
        shell_parse::plan_of_argv("eval"@, args, cwd) == Err::<Seq<StatementModel>, ParseError>(
            ParseError::UnsupportedConstruct("eval"),
        ),
        shell_parse::plan_of_argv("source"@, args, cwd) == Err::<Seq<StatementModel>, ParseError>(
            ParseError::UnsupportedConstruct("source/startup files"),
        ),
        shell_parse::plan_of_argv("."@, args, cwd) == Err::<Seq<StatementModel>, ParseError>(
            ParseError::UnsupportedConstruct("source/startup files"),
        ),
        shell_parse::plan_of_argv("alias"@, args, cwd) == Err::<Seq<StatementModel>, ParseError>(
            ParseError::UnsupportedConstruct("shell state mutation is not supported"),
        ),
        shell_parse::plan_of_argv("function"@, args, cwd) == Err::<
            Seq<StatementModel>,
            ParseError,
        >(ParseError::UnsupportedConstruct("shell state mutation is not supported")),
        !(args.len() >= 2 && args[0] == "--allow"@ && args[1] == "--"@)
            ==> shell_parse::plan_of_argv("run-native"@, args, cwd) == Err::<
            Seq<StatementModel>,
            ParseError,
        >(ParseError::InvalidOperator("run-native requires `--allow -- <program> [args]`")),
        args == seq!["--allow"@, "--"@] ==> shell_parse::plan_of_argv("run-native"@, args, cwd)
            == Err::<Seq<StatementModel>, ParseError>(
            ParseError::InvalidOperator("run-native requires a program after `--`"),
        ),
        args.len() == 0 ==> shell_parse::plan_of_argv("run-wasi"@, args, cwd) == Err::<
            Seq<StatementModel>,
            ParseError,
        >(ParseError::InvalidOperator("run-wasi requires a component path argument")),
{
    let words = command_words();
    lemma_words_differ();
    assert(words[12] == "run-wasi"@ && words[13] == "run-native"@ && words[14] == "bash"@
        && words[15] == "sh"@ && words[16] == "zsh"@ && words[17] == "fish"@ && words[18]
        == "powershell"@ && words[19] == "pwsh"@ && words[20] == "cmd"@ && words[21] == "eval"@
        && words[22] == "source"@ && words[23] == "."@ && words[24] == "alias"@ && words[25]
        == "function"@);
    assert forall|i: int, j: int|
        0 <= i < words.len() && 0 <= j < words.len() && i != j implies #[trigger] words[i]
        != #[trigger] words[j] by {
        if i < j {
            assert(words[i] != words[j]);
        } else {
            assert(words[j] != words[i]);
        }
    }
}

/// A plan of one written command makes of its words what they mean.
pub proof fn written_copies_go_from_the_first_to_the_second(
    from: Seq<char>,
    to: Seq<char>,
    limits: ParseLimits,
)
    requires
        is_path(from),
        is_path(to),
        limits.max_statements > 0,
        limits.max_pipeline_stages > 0,
    ensures
        shell_parse::plan_of_tokens(parse_laws::word_tokens(seq!["cp"@, from, to]), limits)
            == one_builtin(BuiltinModel::Copy(from, to), "."@),
        shell_parse::plan_of_tokens(parse_laws::word_tokens(seq!["mv"@, from, to]), limits)
            == one_builtin(BuiltinModel::Move(from, to), "."@),
{
    lemma_written_words(seq!["cp"@, from, to], limits);
    lemma_written_words(seq!["mv"@, from, to], limits);
    assert(seq!["cp"@, from, to].skip(1) =~= seq![from, to]);
    assert(seq!["mv"@, from, to].skip(1) =~= seq![from, to]);
    copies_go_from_the_first_to_the_second(from, to, "."@);
    written_words_are_an_argument_list(seq!["cp"@, from, to], limits);
    written_words_are_an_argument_list(seq!["mv"@, from, to], limits);
}

proof fn lemma_written_words(words: Seq<Seq<char>>, limits: ParseLimits)
    ensures
        ({
            let command = WrittenCommand { words, redirects: Seq::empty() };
            let chain = WrittenChain { first: seq![command], rest: Seq::empty() };
            grammar_laws::program_tokens(seq![WrittenStatement { chain, background: false }])
                == parse_laws::word_tokens(words)
        }),
{
    let command = WrittenCommand { words, redirects: Seq::empty() };
    assert(grammar_laws::command_tokens(command) =~= parse_laws::word_tokens(words));
}

/// Words without operators are planned as the argument list that they are.
pub proof fn written_words_are_an_argument_list(words: Seq<Seq<char>>, limits: ParseLimits)
    requires
        words.len() > 0,
        limits.max_statements > 0,
        limits.max_pipeline_stages > 0,
        shell_parse::plan_of_argv(words[0], words.skip(1), "."@) is Ok,
    ensures
        shell_parse::plan_of_tokens(parse_laws::word_tokens(words), limits)
            == shell_parse::plan_of_argv(words[0], words.skip(1), "."@),
{
    let command = WrittenCommand { words, redirects: Seq::empty() };
    let chain = WrittenChain { first: seq![command], rest: Seq::empty() };
    let program = seq![WrittenStatement { chain, background: false }];
    lemma_written_words(words, limits);
    assert(grammar_laws::is_written(command));
    grammar_laws::plans_are_what_is_written(program, limits);
    parse_laws::argv_plans_are_bounded(words[0], words.skip(1), "."@);
    let plan = shell_parse::plan_of_argv(words[0], words.skip(1), "."@)->Ok_0;
    assert(grammar_laws::command_meant(command).redirects =~= Seq::empty());
    assert(plan[0]->Command_0.redirects =~= Seq::empty());
    assert(grammar_laws::program_meant(program) =~= plan);
}

/// An argument of `export` that begins with `=` is a bare name, and a name with
/// white space in it is refused.
pub proof fn exports_need_a_name(rest: Seq<char>, name: Seq<char>, i: int, cwd: Seq<char>)
    requires
        0 <= i < name.len(),
        text::white_space(name[i]),
        !name.contains('='),
    ensures
        !shell_parse::has_white_space(seq!['='] + rest) ==> shell_parse::plan_of_argv(
            "export"@,
            seq![seq!['='] + rest],
            cwd,
        ) == one_builtin(BuiltinModel::Export(seq!['='] + rest, None), cwd),
        shell_parse::plan_of_argv("export"@, seq![name], cwd) == refused(
            "export requires a variable name",
        ),
        shell_parse::plan_of_argv("export"@, seq![name.push('=') + rest], cwd) == refused(
            "export requires a variable name",
        ),
{
    assert(command_words()[11] == "export"@);
    lemma_not_special(11);
    let bare = seq!['='] + rest;
    assert(bare[0] == '=');
    bare.index_of_first_ensures('=');
    name.index_of_first_ensures('=');
    let argument = name.push('=') + rest;
    assert(argument[name.len() as int] == '=');
    argument.index_of_first_ensures('=');
    let at = argument.index_of_first('=')->0;
    if at < name.len() {
        assert(name[at] == argument[at]);
        assert(name.contains('='));
    }
    assert(at == name.len());
    assert(argument.take(at) =~= name);
}

} // verus!
