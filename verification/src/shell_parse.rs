//! A safe, bounded Bash-like parser for the Ferrous Shell.
//!
//! The parser is a recursive-descent grammar over a bounded tokenizer. Its
//! contract is deliberately narrow:
//!
//! - supported: quoting (`'`/`"`), backslash escapes, simple commands,
//!   pipelines (`|`), `&&`, `||`, `;`, input/output redirection (`<`, `>`,
//!   `>>`), and background (`&`);
//! - rejected with explicit errors: command substitution, arithmetic
//!   expansion, here-documents, process substitution, aliases, function
//!   definitions, `eval`, environment-variable expansion, and any construct
//!   that would require an unbounded host-shell evaluation.
//!
//! The parser never performs filesystem expansion, never executes anything,
//! and never emits a shell command string. The output is always the typed
//! [`ShellProgram`] IR from [`crate::shell_ir`].

use vstd::prelude::*;
use crate::shell_ir;
use crate::shell_ir::{
    Builtin,
    BuiltinModel,
    CommandModel,
    CommandSpec,
    Program,
    ProgramModel,
    Redirect,
    RedirectModel,
    SessionPath,
    ShellProgram,
    Statement,
    StatementModel,
};
use crate::shell_lex;
use crate::text;

pub use crate::shell_lex::{Operator, ParseError, Token, TokenModel};

verus! {

/// Bounds applied while parsing so untrusted input cannot exhaust memory.
pub const DEFAULT_MAX_INPUT_BYTES: usize = 64 * 1024;

/// Maximum number of tokens in one line.
pub const DEFAULT_MAX_TOKENS: usize = 4096;

/// Maximum number of pipeline stages in one statement.
pub const DEFAULT_MAX_PIPELINE_STAGES: usize = 64;

/// Maximum number of statements in one plan.
pub const DEFAULT_MAX_STATEMENTS: usize = 4096;

/// Parse configuration bounds.
#[derive(Clone, Copy, Debug, PartialEq, Eq, Structural)]
pub struct ParseLimits {
    /// Maximum input length in bytes.
    pub max_input_bytes: usize,
    /// Maximum token count.
    pub max_tokens: usize,
    /// Maximum pipeline stages.
    pub max_pipeline_stages: usize,
    /// Maximum statements in a plan.
    pub max_statements: usize,
}

/// The bounds that apply unless others are chosen.
pub open spec fn default_limits() -> ParseLimits {
    ParseLimits {
        max_input_bytes: DEFAULT_MAX_INPUT_BYTES,
        max_tokens: DEFAULT_MAX_TOKENS,
        max_pipeline_stages: DEFAULT_MAX_PIPELINE_STAGES,
        max_statements: DEFAULT_MAX_STATEMENTS,
    }
}

impl Default for ParseLimits {
    fn default() -> (r: Self)
        ensures
            r == default_limits(),
    {
        ParseLimits {
            max_input_bytes: DEFAULT_MAX_INPUT_BYTES,
            max_tokens: DEFAULT_MAX_TOKENS,
            max_pipeline_stages: DEFAULT_MAX_PIPELINE_STAGES,
            max_statements: DEFAULT_MAX_STATEMENTS,
        }
    }
}

/// Why the one argument of a builtin is missing or not alone.
pub open spec fn arity_fault(name: Seq<char>) -> ParseError {
    ParseError::InvalidBuiltin(
        if name == "cd"@ {
            "cd takes exactly one path argument"
        } else if name == "ls"@ {
            "ls takes at most one path argument"
        } else if name == "cat"@ {
            "cat takes exactly one path argument"
        } else if name == "mkdir"@ {
            "mkdir takes exactly one path argument"
        } else if name == "rm"@ {
            "rm takes exactly one path argument"
        } else if name == "which"@ {
            "which takes exactly one program name"
        } else {
            "export takes exactly one NAME=value assignment"
        },
    )
}

/// The single argument of a builtin.
pub open spec fn only_argument(name: Seq<char>, args: Seq<Seq<char>>) -> Result<
    Seq<char>,
    ParseError,
> {
    if args.len() == 1 {
        Ok(args[0])
    } else {
        Err(arity_fault(name))
    }
}

/// The single argument of a builtin, which has to be a session path.
pub open spec fn only_path(
    name: Seq<char>,
    args: Seq<Seq<char>>,
    fault: &'static str,
) -> Result<Seq<char>, ParseError> {
    match only_argument(name, args) {
        Err(error) => Err(error),
        Ok(path) => if shell_ir::path_fault(path) is None {
            Ok(path)
        } else {
            Err(ParseError::InvalidBuiltin(fault))
        },
    }
}

/// The name and the value of an `export` argument. A text without `=`, or with
/// nothing before it, is a bare name.
pub open spec fn assignment_of(argument: Seq<char>) -> (Seq<char>, Option<Seq<char>>) {
    match argument.index_of_first('=') {
        Some(at) if at > 0 => (
            argument.take(at),
            Some(argument.skip(at + 1)),
        ),
        _ => (argument, None),
    }
}

/// Whether a text has a white-space character.
pub open spec fn has_white_space(s: Seq<char>) -> bool {
    exists|i: int| 0 <= i < s.len() && text::white_space(#[trigger] s[i])
}

/// The builtin that a name and its arguments make, with the arguments that the
/// command keeps: `None` for a name that is no builtin.
pub open spec fn builtin_of(name: Seq<char>, args: Seq<Seq<char>>) -> Result<
    Option<BuiltinModel>,
    ParseError,
> {
    if name == "pwd"@ {
        Ok(Some(BuiltinModel::Pwd))
    } else if name == "env"@ {
        Ok(Some(BuiltinModel::Env))
    } else if name == "echo"@ {
        Ok(Some(BuiltinModel::Echo(args)))
    } else if name == "cd"@ {
        match only_path(name, args, "cd path is not a session path") {
            Ok(path) => Ok(Some(BuiltinModel::Cd(path))),
            Err(error) => Err(error),
        }
    } else if name == "ls"@ {
        if args.len() == 0 {
            Ok(Some(BuiltinModel::Ls("."@)))
        } else {
            match only_path(name, args, "ls path is not a session path") {
                Ok(path) => Ok(Some(BuiltinModel::Ls(path))),
                Err(error) => Err(error),
            }
        }
    } else if name == "cat"@ {
        match only_path(name, args, "cat path is not a session path") {
            Ok(path) => Ok(Some(BuiltinModel::Cat(path))),
            Err(error) => Err(error),
        }
    } else if name == "mkdir"@ {
        match only_path(name, args, "mkdir path is not a session path") {
            Ok(path) => Ok(Some(BuiltinModel::Mkdir(path))),
            Err(error) => Err(error),
        }
    } else if name == "rm"@ {
        match only_path(name, args, "rm path is not a session path") {
            Ok(path) => Ok(Some(BuiltinModel::Remove(path))),
            Err(error) => Err(error),
        }
    } else if name == "cp"@ || name == "mv"@ {
        if args.len() != 2 {
            Err(ParseError::InvalidBuiltin("cp and mv take exactly two path arguments"))
        } else if shell_ir::path_fault(args[0]) is Some {
            Err(ParseError::InvalidBuiltin("source path is not a session path"))
        } else if shell_ir::path_fault(args[1]) is Some {
            Err(ParseError::InvalidBuiltin("destination path is not a session path"))
        } else if name == "cp"@ {
            Ok(Some(BuiltinModel::Copy(args[0], args[1])))
        } else {
            Ok(Some(BuiltinModel::Move(args[0], args[1])))
        }
    } else if name == "which"@ {
        match only_argument(name, args) {
            Ok(program) => Ok(Some(BuiltinModel::Which(program))),
            Err(error) => Err(error),
        }
    } else if name == "export"@ {
        match only_argument(name, args) {
            Err(error) => Err(error),
            Ok(argument) => {
                let (variable, value) = assignment_of(argument);
                if variable.len() == 0 || has_white_space(variable) {
                    Err(ParseError::InvalidBuiltin("export requires a variable name"))
                } else {
                    Ok(Some(BuiltinModel::Export(variable, value)))
                }
            },
        }
    } else {
        Ok(None)
    }
}

/// The names of native shell interpreters, which only an explicit policy
/// decision may start.
pub open spec fn is_shell_name(name: Seq<char>) -> bool {
    name == "bash"@ || name == "sh"@ || name == "zsh"@ || name == "fish"@ || name == "powershell"@
        || name == "pwsh"@ || name == "cmd"@
}

/// What a program name with its arguments stands for: the program and the
/// arguments it is run with.
pub open spec fn resolved(name: Seq<char>, args: Seq<Seq<char>>) -> Result<
    (ProgramModel, Seq<Seq<char>>),
    ParseError,
> {
    if name == "run-wasi"@ {
        if args.len() == 0 {
            Err(ParseError::InvalidOperator("run-wasi requires a component path argument"))
        } else {
            Ok((ProgramModel::WasiComponent(args[0]), args.skip(1)))
        }
    } else if name == "run-native"@ {
        if args.len() < 2 || args[0] != "--allow"@ || args[1] != "--"@ {
            Err(ParseError::InvalidOperator("run-native requires `--allow -- <program> [args]`"))
        } else if args.len() < 3 {
            Err(ParseError::InvalidOperator("run-native requires a program after `--`"))
        } else {
            Ok((ProgramModel::External(args[2]), args.skip(3)))
        }
    } else if is_shell_name(name) {
        Err(
            ParseError::UnsupportedConstruct(
                "native shell interpreters require explicit policy approval",
            ),
        )
    } else if name == "eval"@ {
        Err(ParseError::UnsupportedConstruct("eval"))
    } else if name == "source"@ || name == "."@ {
        Err(ParseError::UnsupportedConstruct("source/startup files"))
    } else if name == "alias"@ || name == "function"@ {
        Err(ParseError::UnsupportedConstruct("shell state mutation is not supported"))
    } else {
        match builtin_of(name, args) {
            Err(error) => Err(error),
            Ok(Some(BuiltinModel::Echo(words))) => Ok(
                (ProgramModel::Builtin(BuiltinModel::Echo(words)), words),
            ),
            Ok(Some(builtin)) => Ok((ProgramModel::Builtin(builtin), Seq::empty())),
            Ok(None) => Ok((ProgramModel::External(name), args)),
        }
    }
}

/// The single argument of a builtin.
fn exactly_one(name: &str, args: &Vec<String>) -> (r: Result<String, ParseError>)
    ensures
        match only_argument(name@, text::texts(args@)) {
            Ok(argument) => r is Ok && r->Ok_0@ == argument,
            Err(error) => r == Err::<String, ParseError>(error),
        },
{
    if args.len() == 1 {
        Ok(args[0].clone())
    } else {
        Err(
            ParseError::InvalidBuiltin(
                if text::same_text(name, "cd") {
                    "cd takes exactly one path argument"
                } else if text::same_text(name, "ls") {
                    "ls takes at most one path argument"
                } else if text::same_text(name, "cat") {
                    "cat takes exactly one path argument"
                } else if text::same_text(name, "mkdir") {
                    "mkdir takes exactly one path argument"
                } else if text::same_text(name, "rm") {
                    "rm takes exactly one path argument"
                } else if text::same_text(name, "which") {
                    "which takes exactly one program name"
                } else {
                    "export takes exactly one NAME=value assignment"
                },
            ),
        )
    }
}

/// The single argument of a builtin, which has to be a session path.
fn exactly_one_path(name: &str, args: &Vec<String>, fault: &'static str) -> (r: Result<
    SessionPath,
    ParseError,
>)
    ensures
        match only_path(name@, text::texts(args@), fault) {
            Ok(path) => r is Ok && r->Ok_0@ == path,
            Err(error) => r == Err::<SessionPath, ParseError>(error),
        },
{
    match exactly_one(name, args) {
        Err(error) => Err(error),
        Ok(target) => match SessionPath::new(target.as_str()) {
            Ok(path) => Ok(path),
            Err(_) => Err(ParseError::InvalidBuiltin(fault)),
        },
    }
}

/// Split an `export` argument at its first `=`.
fn split_assignment(argument: &str) -> (r: (String, Option<String>))
    ensures
        r.0@ == assignment_of(argument@).0,
        match assignment_of(argument@).1 {
            Some(value) => r.1 is Some && r.1->0@ == value,
            None => r.1 is None,
        },
{
    let chars = text::chars_of(argument);
    let mut i: usize = 0;
    while i < chars.len()
        invariant
            i <= chars.len(),
            chars@ == argument@,
            forall|j: int| 0 <= j < i ==> chars@[j] != '=',
        decreases chars.len() - i,
    {
        if chars[i] == '=' {
            proof {
                chars@.index_of_first_ensures('=');
                assert(chars@[i as int] == '=');
            }
            if i == 0 {
                return (argument.to_owned(), None);
            }
            let name = text::text_between(&chars, 0, i);
            let value = text::text_between(&chars, i + 1, chars.len());
            return (name, Some(value));
        }
        i = i + 1;
    }
    proof {
        argument@.index_of_first_ensures('=');
    }
    (argument.to_owned(), None)
}

/// Whether a text has a white-space character.
fn any_white_space(s: &str) -> (r: bool)
    ensures
        r == has_white_space(s@),
{
    let chars = text::chars_of(s);
    let mut i: usize = 0;
    while i < chars.len()
        invariant
            i <= chars.len(),
            chars@ == s@,
            forall|j: int| 0 <= j < i ==> !text::white_space(#[trigger] chars@[j]),
        decreases chars.len() - i,
    {
        if text::is_white_space(chars[i]) {
            assert(text::white_space(s@[i as int]));
            return true;
        }
        i = i + 1;
    }
    false
}

/// Build a structured [`Builtin`] from its argv, validating arity and paths.
/// The result is `None` for names that are not builtins.
fn builtin_from_words(name: &str, args: &Vec<String>) -> (r: Result<Option<Builtin>, ParseError>)
    ensures
        match builtin_of(name@, text::texts(args@)) {
            Ok(Some(builtin)) => r is Ok && r->Ok_0 is Some && r->Ok_0->0@ == builtin,
            Ok(None) => r is Ok && r->Ok_0 is None,
            Err(error) => r == Err::<Option<Builtin>, ParseError>(error),
        },
        r matches Ok(Some(Builtin::Copy { from, to })) ==> name@ == "cp"@ && args@.len() == 2
            && from@ == args@[0]@ && to@ == args@[1]@,
        r matches Ok(Some(Builtin::Move { from, to })) ==> name@ == "mv"@ && args@.len() == 2
            && from@ == args@[0]@ && to@ == args@[1]@,
{
    if text::same_text(name, "pwd") {
        Ok(Some(Builtin::Pwd))
    } else if text::same_text(name, "env") {
        Ok(Some(Builtin::Env))
    } else if text::same_text(name, "echo") {
        Ok(Some(Builtin::Echo(text::copy_texts(args))))
    } else if text::same_text(name, "cd") {
        match exactly_one_path(name, args, "cd path is not a session path") {
            Ok(path) => Ok(Some(Builtin::Cd(path))),
            Err(error) => Err(error),
        }
    } else if text::same_text(name, "ls") {
        if args.len() == 0 {
            let path = current_directory();
            return Ok(Some(Builtin::Ls(path)));
        }
        match exactly_one_path(name, args, "ls path is not a session path") {
            Ok(path) => Ok(Some(Builtin::Ls(path))),
            Err(error) => Err(error),
        }
    } else if text::same_text(name, "cat") {
        match exactly_one_path(name, args, "cat path is not a session path") {
            Ok(path) => Ok(Some(Builtin::Cat(path))),
            Err(error) => Err(error),
        }
    } else if text::same_text(name, "mkdir") {
        match exactly_one_path(name, args, "mkdir path is not a session path") {
            Ok(path) => Ok(Some(Builtin::Mkdir(path))),
            Err(error) => Err(error),
        }
    } else if text::same_text(name, "rm") {
        match exactly_one_path(name, args, "rm path is not a session path") {
            Ok(path) => Ok(Some(Builtin::Remove(path))),
            Err(error) => Err(error),
        }
    } else if text::same_text(name, "cp") || text::same_text(name, "mv") {
        if args.len() != 2 {
            return Err(ParseError::InvalidBuiltin("cp and mv take exactly two path arguments"));
        }
        let from = match SessionPath::new(args[0].as_str()) {
            Ok(path) => path,
            Err(_) => return Err(ParseError::InvalidBuiltin("source path is not a session path")),
        };
        let to = match SessionPath::new(args[1].as_str()) {
            Ok(path) => path,
            Err(_) => return Err(
                ParseError::InvalidBuiltin("destination path is not a session path"),
            ),
        };
        if text::same_text(name, "cp") {
            Ok(Some(Builtin::Copy { from, to }))
        } else {
            Ok(Some(Builtin::Move { from, to }))
        }
    } else if text::same_text(name, "which") {
        match exactly_one(name, args) {
            Ok(target) => Ok(Some(Builtin::Which(target))),
            Err(error) => Err(error),
        }
    } else if text::same_text(name, "export") {
        let argument = match exactly_one(name, args) {
            Ok(argument) => argument,
            Err(error) => return Err(error),
        };
        let (variable, value) = split_assignment(argument.as_str());
        if variable.as_str().is_empty() || any_white_space(variable.as_str()) {
            return Err(ParseError::InvalidBuiltin("export requires a variable name"));
        }
        Ok(Some(Builtin::Export { name: variable, value }))
    } else {
        Ok(None)
    }
}

/// The session path `.`.
pub(crate) fn current_directory() -> (r: SessionPath)
    ensures
        r@ == "."@,
{
    proof {
        lemma_current_directory();
    }
    match SessionPath::new(".") {
        Ok(path) => path,
        Err(_) => {
            assert(false);
            vstd::pervasive::unreached()
        },
    }
}

/// `.` is a session path.
pub proof fn lemma_current_directory()
    ensures
        shell_ir::path_fault("."@) is None,
{
    reveal_strlit(".");
    let path = "."@;
    let separators = shell_ir::path_separators();
    assert(path.len() == 1 && path[0] == '.');
    assert(path.drop_last() =~= Seq::empty());
    assert(!separators.contains('.')) by {
        assert(separators[0] == '/' && separators[1] == '\\');
    }
    reveal_with_fuel(text::split, 2);
    let parts = shell_ir::components(path);
    assert(parts =~= seq![seq!['.']]) by {
        assert(text::split(Seq::empty(), separators) == seq![Seq::<char>::empty()]);
        assert(parts[0] =~= seq!['.']);
    }
    assert(!parts.contains(shell_ir::parent_component())) by {
        assert(parts[0].len() == 1);
        assert(shell_ir::parent_component().len() == 2);
    }
}

/// The arguments from position `from` on.
fn arguments_from(args: &Vec<String>, from: usize) -> (r: Vec<String>)
    requires
        from <= args.len(),
    ensures
        text::texts(r@) == text::texts(args@).skip(from as int),
{
    let mut r: Vec<String> = Vec::new();
    let mut i: usize = from;
    while i < args.len()
        invariant
            from <= i <= args.len(),
            r.len() == i - from,
            forall|j: int| 0 <= j < r.len() ==> (#[trigger] r@[j])@ == args@[from + j]@,
        decreases args.len() - i,
    {
        r.push(args[i].clone());
        i = i + 1;
    }
    assert(text::texts(r@) =~= text::texts(args@).skip(from as int));
    r
}

/// Resolve a program name plus its argv, building structured builtins (with
/// validated paths) at parse time and rejecting native-shell escapes and
/// unbounded constructs.
fn resolve_program_and_args(name: &str, args: &Vec<String>) -> (r: Result<
    (Program, Vec<String>),
    ParseError,
>)
    ensures
        match resolved(name@, text::texts(args@)) {
            Ok((program, rest)) => r is Ok && r->Ok_0.0@ == program && text::texts(r->Ok_0.1@)
                == rest,
            Err(error) => r == Err::<(Program, Vec<String>), ParseError>(error),
        },
{
    if text::same_text(name, "run-wasi") {
        if args.len() == 0 {
            return Err(ParseError::InvalidOperator("run-wasi requires a component path argument"));
        }
        return Ok((Program::WasiComponent(args[0].clone()), arguments_from(args, 1)));
    }
    if text::same_text(name, "run-native") {
        if args.len() < 2 || !text::same_text(args[0].as_str(), "--allow") || !text::same_text(
            args[1].as_str(),
            "--",
        ) {
            return Err(
                ParseError::InvalidOperator("run-native requires `--allow -- <program> [args]`"),
            );
        }
        if args.len() < 3 {
            return Err(ParseError::InvalidOperator("run-native requires a program after `--`"));
        }
        return Ok((Program::External(args[2].clone()), arguments_from(args, 3)));
    }
    if text::same_text(name, "bash") || text::same_text(name, "sh") || text::same_text(name, "zsh")
        || text::same_text(name, "fish") || text::same_text(name, "powershell") || text::same_text(
        name,
        "pwsh",
    ) || text::same_text(name, "cmd") {
        return Err(
            ParseError::UnsupportedConstruct(
                "native shell interpreters require explicit policy approval",
            ),
        );
    }
    if text::same_text(name, "eval") {
        return Err(ParseError::UnsupportedConstruct("eval"));
    }
    if text::same_text(name, "source") || text::same_text(name, ".") {
        return Err(ParseError::UnsupportedConstruct("source/startup files"));
    }
    if text::same_text(name, "alias") || text::same_text(name, "function") {
        return Err(ParseError::UnsupportedConstruct("shell state mutation is not supported"));
    }
    match builtin_from_words(name, args) {
        Err(error) => Err(error),
        Ok(Some(Builtin::Echo(words))) => {
            let kept = text::copy_texts(&words);
            Ok((Program::Builtin(Builtin::Echo(words)), kept))
        },
        Ok(Some(builtin)) => {
            let kept: Vec<String> = Vec::new();
            assert(text::texts(kept@) =~= Seq::empty());
            Ok((Program::Builtin(builtin), kept))
        },
        Ok(None) => Ok((Program::External(name.to_owned()), text::copy_texts(args))),
    }
}

/// The token at a position, the end past the last.
pub open spec fn token_at(tokens: Seq<TokenModel>, i: int) -> TokenModel {
    if 0 <= i < tokens.len() {
        tokens[i]
    } else {
        TokenModel::End
    }
}

/// The redirection that an operator makes of a path.
pub open spec fn redirect_of(operator: Operator, path: Seq<char>) -> RedirectModel {
    match operator {
        Operator::RedirectIn => RedirectModel::Input(path),
        Operator::RedirectOut => RedirectModel::OutputTruncate(path),
        _ => RedirectModel::OutputAppend(path),
    }
}

/// The words and redirections of a command from position `i` on, behind those
/// already read, and the position behind the command.
pub open spec fn items_from(
    tokens: Seq<TokenModel>,
    i: int,
    words: Seq<Seq<char>>,
    redirects: Seq<RedirectModel>,
) -> Result<(Seq<Seq<char>>, Seq<RedirectModel>, int), ParseError>
    decreases tokens.len() - i,
{
    match token_at(tokens, i) {
        TokenModel::Word(word) => items_from(tokens, i + 1, words.push(word), redirects),
        TokenModel::Operator(Operator::OpenParen) => Err(
            ParseError::UnsupportedConstruct("subshell `( ... )`"),
        ),
        TokenModel::Operator(operator) => if operator == Operator::RedirectIn || operator
            == Operator::RedirectOut || operator == Operator::RedirectAppend {
            match token_at(tokens, i + 1) {
                TokenModel::Word(path) => if shell_ir::path_fault(path) is Some {
                    Err(ParseError::InvalidOperator("redirection target must be a session path"))
                } else {
                    items_from(tokens, i + 2, words, redirects.push(redirect_of(operator, path)))
                },
                _ => Err(ParseError::InvalidOperator("redirection target")),
            }
        } else {
            Ok((words, redirects, i))
        },
        _ => Ok((words, redirects, i)),
    }
}

/// The command at a position, and the position behind it.
pub open spec fn command_at(tokens: Seq<TokenModel>, i: int) -> Result<
    (CommandModel, int),
    ParseError,
> {
    match items_from(tokens, i, Seq::empty(), Seq::empty()) {
        Err(error) => Err(error),
        Ok((words, redirects, next)) => if words.len() == 0 {
            Err(ParseError::EmptyCommand)
        } else {
            match resolved(words[0], words.skip(1)) {
                Err(error) => Err(error),
                Ok((program, args)) => Ok(
                    (CommandModel { program, args, redirects, cwd: "."@ }, next),
                ),
            }
        },
    }
}

proof fn lemma_items_advance(
    tokens: Seq<TokenModel>,
    i: int,
    words: Seq<Seq<char>>,
    redirects: Seq<RedirectModel>,
)
    requires
        0 <= i <= tokens.len(),
    ensures
        match items_from(tokens, i, words, redirects) {
            Ok((all_words, _, next)) => {
                &&& i <= next <= tokens.len()
                &&& all_words.len() >= words.len()
                &&& all_words.len() > words.len() ==> i < next
            },
            Err(_) => true,
        },
    decreases tokens.len() - i,
{
    match token_at(tokens, i) {
        TokenModel::Word(word) => {
            lemma_items_advance(tokens, i + 1, words.push(word), redirects);
        },
        TokenModel::Operator(operator) => match token_at(tokens, i + 1) {
            TokenModel::Word(path) => {
                lemma_items_advance(
                    tokens,
                    i + 2,
                    words,
                    redirects.push(redirect_of(operator, path)),
                );
            },
            _ => {},
        },
        _ => {},
    }
}

/// Every command has a token.
pub proof fn lemma_command_advances(tokens: Seq<TokenModel>, i: int)
    ensures
        0 <= i <= tokens.len() ==> match command_at(tokens, i) {
            Ok((_, next)) => i < next <= tokens.len(),
            Err(_) => true,
        },
{
    if 0 <= i <= tokens.len() {
        lemma_items_advance(tokens, i, Seq::empty(), Seq::empty());
    }
}

/// The stages of a pipeline from position `i` on, behind those already read,
/// and the position behind the pipeline.
pub open spec fn stages_from(
    tokens: Seq<TokenModel>,
    i: int,
    stages: Seq<CommandModel>,
    max: usize,
) -> Result<(Seq<CommandModel>, int), ParseError>
    decreases tokens.len() - i,
{
    if token_at(tokens, i) == TokenModel::Operator(Operator::Pipe) {
        proof {
            lemma_command_advances(tokens, i + 1);
        }
        if stages.len() >= max {
            Err(ParseError::TooManyPipelineStages(max))
        } else {
            match command_at(tokens, i + 1) {
                Err(error) => Err(error),
                Ok((command, next)) => stages_from(tokens, next, stages.push(command), max),
            }
        }
    } else {
        Ok((stages, i))
    }
}

/// The pipeline at a position, or its only command, and the position behind it.
pub open spec fn pipeline_at(tokens: Seq<TokenModel>, i: int, max: usize) -> Result<
    (StatementModel, int),
    ParseError,
> {
    match command_at(tokens, i) {
        Err(error) => Err(error),
        Ok((command, next)) => match stages_from(tokens, next, seq![command], max) {
            Err(error) => Err(error),
            Ok((stages, next)) => if stages.len() == 1 {
                Ok((StatementModel::Command(stages[0]), next))
            } else {
                Ok((StatementModel::Pipeline(stages), next))
            },
        },
    }
}

proof fn lemma_stages_advance(
    tokens: Seq<TokenModel>,
    i: int,
    stages: Seq<CommandModel>,
    max: usize,
)
    requires
        0 <= i <= tokens.len(),
    ensures
        match stages_from(tokens, i, stages, max) {
            Ok((_, next)) => i <= next <= tokens.len(),
            Err(_) => true,
        },
    decreases tokens.len() - i,
{
    if token_at(tokens, i) == TokenModel::Operator(Operator::Pipe) {
        lemma_command_advances(tokens, i + 1);
        match command_at(tokens, i + 1) {
            Ok((command, next)) => lemma_stages_advance(tokens, next, stages.push(command), max),
            Err(_) => {},
        }
    }
}

/// Every pipeline has a token.
pub proof fn lemma_pipeline_advances(tokens: Seq<TokenModel>, i: int, max: usize)
    ensures
        0 <= i <= tokens.len() ==> match pipeline_at(tokens, i, max) {
            Ok((_, next)) => i < next <= tokens.len(),
            Err(_) => true,
        },
{
    if 0 <= i <= tokens.len() {
        lemma_command_advances(tokens, i);
        match command_at(tokens, i) {
            Ok((command, next)) => lemma_stages_advance(tokens, next, seq![command], max),
            Err(_) => {},
        }
    }
}

/// The conjunctions and disjunctions from position `i` on, with `left` on
/// their left, grouped from the left; and the position behind them.
pub open spec fn and_or_from(
    tokens: Seq<TokenModel>,
    i: int,
    left: StatementModel,
    max: usize,
) -> Result<(StatementModel, int), ParseError>
    decreases tokens.len() - i,
{
    let token = token_at(tokens, i);
    if token == TokenModel::Operator(Operator::And) || token == TokenModel::Operator(
        Operator::Or,
    ) {
        proof {
            lemma_pipeline_advances(tokens, i + 1, max);
        }
        match pipeline_at(tokens, i + 1, max) {
            Err(error) => Err(error),
            Ok((right, next)) => and_or_from(
                tokens,
                next,
                if token == TokenModel::Operator(Operator::And) {
                    StatementModel::And(Box::new(left), Box::new(right))
                } else {
                    StatementModel::Or(Box::new(left), Box::new(right))
                },
                max,
            ),
        }
    } else {
        Ok((left, i))
    }
}

/// The statement at a position, a background job where `&` follows it; and the
/// position behind it.
pub open spec fn statement_at(tokens: Seq<TokenModel>, i: int, max: usize) -> Result<
    (StatementModel, int),
    ParseError,
> {
    match pipeline_at(tokens, i, max) {
        Err(error) => Err(error),
        Ok((left, next)) => match and_or_from(tokens, next, left, max) {
            Err(error) => Err(error),
            Ok((statement, next)) => if token_at(tokens, next) == TokenModel::Operator(
                Operator::Background,
            ) {
                Ok((StatementModel::Background(Box::new(statement)), next + 1))
            } else {
                Ok((statement, next))
            },
        },
    }
}

proof fn lemma_and_or_advances(
    tokens: Seq<TokenModel>,
    i: int,
    left: StatementModel,
    max: usize,
)
    requires
        0 <= i <= tokens.len(),
    ensures
        match and_or_from(tokens, i, left, max) {
            Ok((_, next)) => i <= next <= tokens.len(),
            Err(_) => true,
        },
    decreases tokens.len() - i,
{
    let token = token_at(tokens, i);
    if token == TokenModel::Operator(Operator::And) || token == TokenModel::Operator(
        Operator::Or,
    ) {
        lemma_pipeline_advances(tokens, i + 1, max);
        match pipeline_at(tokens, i + 1, max) {
            Ok((right, next)) => {
                lemma_and_or_advances(
                    tokens,
                    next,
                    if token == TokenModel::Operator(Operator::And) {
                        StatementModel::And(Box::new(left), Box::new(right))
                    } else {
                        StatementModel::Or(Box::new(left), Box::new(right))
                    },
                    max,
                );
            },
            Err(_) => {},
        }
    }
}

/// Every statement has a token.
pub proof fn lemma_statement_advances(tokens: Seq<TokenModel>, i: int, max: usize)
    ensures
        0 <= i <= tokens.len() ==> match statement_at(tokens, i, max) {
            Ok((_, next)) => i < next <= tokens.len(),
            Err(_) => true,
        },
{
    if 0 <= i <= tokens.len() {
        lemma_pipeline_advances(tokens, i, max);
        match pipeline_at(tokens, i, max) {
            Ok((left, next)) => lemma_and_or_advances(tokens, next, left, max),
            Err(_) => {},
        }
    }
}

/// Whether a token separates statements.
pub open spec fn is_separator(token: TokenModel) -> bool {
    token == TokenModel::Operator(Operator::Semi) || token is Newline
}

/// Whether a token may follow a statement. A background marker ends its
/// statement, so anything may follow that.
pub open spec fn may_follow(statement: StatementModel, token: TokenModel) -> bool {
    ||| statement is Background
    ||| is_separator(token)
    ||| token is End
    ||| token == TokenModel::Operator(Operator::And)
    ||| token == TokenModel::Operator(Operator::Or)
}

/// The statements from position `i` on, behind those already read.
pub open spec fn statements_from(
    tokens: Seq<TokenModel>,
    i: int,
    statements: Seq<StatementModel>,
    limits: ParseLimits,
) -> Result<Seq<StatementModel>, ParseError>
    decreases tokens.len() - i,
{
    if i < 0 || i >= tokens.len() || tokens[i] is End {
        Ok(statements)
    } else if is_separator(tokens[i]) {
        statements_from(tokens, i + 1, statements, limits)
    } else if statements.len() >= limits.max_statements {
        Err(ParseError::TooManyStatements(limits.max_statements))
    } else {
        proof {
            lemma_statement_advances(tokens, i, limits.max_pipeline_stages);
        }
        match statement_at(tokens, i, limits.max_pipeline_stages) {
            Err(error) => Err(error),
            Ok((statement, next)) => if may_follow(statement, token_at(tokens, next)) {
                statements_from(tokens, next, statements.push(statement), limits)
            } else {
                Err(ParseError::InvalidOperator("expected separator"))
            },
        }
    }
}

/// Whether some tokens are line breaks and nothing else.
pub open spec fn is_blank(tokens: Seq<TokenModel>) -> bool {
    forall|i: int| 0 <= i < tokens.len() ==> #[trigger] tokens[i] is Newline
}

/// The plan that some tokens make.
pub open spec fn plan_of_tokens(tokens: Seq<TokenModel>, limits: ParseLimits) -> Result<
    Seq<StatementModel>,
    ParseError,
> {
    if is_blank(tokens) {
        Err(ParseError::EmptyInput)
    } else {
        match statements_from(tokens, 0, Seq::empty(), limits) {
            Err(error) => Err(error),
            Ok(statements) => if statements.len() == 0 {
                Err(ParseError::EmptyCommand)
            } else {
                Ok(statements)
            },
        }
    }
}

/// The plan that a line makes.
pub open spec fn plan_of(input: Seq<char>, limits: ParseLimits) -> Result<
    Seq<StatementModel>,
    ParseError,
> {
    if input.contains('\0') {
        Err(ParseError::NulByte)
    } else if vstd::utf8::encode_utf8(input).len() > limits.max_input_bytes {
        Err(ParseError::InputTooLong(limits.max_input_bytes))
    } else {
        match shell_lex::tokens_of(input, limits.max_tokens) {
            Err(error) => Err(error),
            Ok(tokens) => plan_of_tokens(tokens, limits),
        }
    }
}

/// The plan that a structured argv makes: one command.
pub open spec fn plan_of_argv(name: Seq<char>, args: Seq<Seq<char>>, cwd: Seq<char>) -> Result<
    Seq<StatementModel>,
    ParseError,
> {
    match resolved(name, args) {
        Err(error) => Err(error),
        Ok((program, args)) => Ok(
            seq![
                StatementModel::Command(
                    CommandModel { program, args, redirects: Seq::empty(), cwd },
                ),
            ],
        ),
    }
}

/// Whether some tokens are line breaks and nothing else.
fn only_line_breaks(tokens: &Vec<Token>) -> (r: bool)
    ensures
        r == is_blank(shell_lex::token_models(tokens@)),
{
    let mut i: usize = 0;
    while i < tokens.len()
        invariant
            i <= tokens.len(),
            forall|j: int| 0 <= j < i ==> (#[trigger] tokens@[j])@ is Newline,
        decreases tokens.len() - i,
    {
        match &tokens[i] {
            Token::Newline => {},
            _ => {
                assert(!(shell_lex::token_models(tokens@)[i as int] is Newline));
                return false;
            },
        }
        i = i + 1;
    }
    true
}

/// The recursive-descent grammar over a token stream.
struct Parser {
    tokens: Vec<Token>,
    position: usize,
    limits: ParseLimits,
}

impl Parser {
    spec fn models(&self) -> Seq<TokenModel> {
        shell_lex::token_models(self.tokens@)
    }

    spec fn ready(&self) -> bool {
        self.position <= self.tokens.len()
    }

    /// Only the position differs from another parser's.
    spec fn moved(&self, before: &Parser) -> bool {
        self.tokens == before.tokens && self.limits == before.limits && self.ready()
    }

    /// The operator at the position, if there is one.
    fn peek_operator(&self) -> (r: Option<Operator>)
        requires
            self.ready(),
        ensures
            match token_at(self.models(), self.position as int) {
                TokenModel::Operator(operator) => r == Some(operator),
                _ => r is None,
            },
    {
        if self.position < self.tokens.len() {
            match &self.tokens[self.position] {
                Token::Operator(operator) => Some(*operator),
                _ => None,
            }
        } else {
            None
        }
    }

    /// The word at position `i`, if there is one.
    fn word_at(&self, i: usize) -> (r: Option<String>)
        ensures
            match token_at(self.models(), i as int) {
                TokenModel::Word(word) => r is Some && r->0@ == word,
                _ => r is None,
            },
    {
        if i < self.tokens.len() {
            match &self.tokens[i] {
                Token::Word(word) => Some(word.clone()),
                _ => None,
            }
        } else {
            None
        }
    }

    fn parse_command(&mut self) -> (r: Result<CommandSpec, ParseError>)
        requires
            old(self).ready(),
        ensures
            final(self).moved(old(self)),
            match command_at(old(self).models(), old(self).position as int) {
                Ok((command, next)) => r is Ok && r->Ok_0@ == command && final(self).position
                    == next,
                Err(error) => r == Err::<CommandSpec, ParseError>(error),
            },
    {
        let ghost tokens = self.models();
        let ghost wanted = items_from(tokens, self.position as int, Seq::empty(), Seq::empty());
        let mut words: Vec<String> = Vec::new();
        let mut redirects: Vec<Redirect> = Vec::new();
        assert(text::texts(words@) =~= Seq::empty());
        assert(shell_ir::redirect_models(redirects@) =~= Seq::empty());
        while self.position < self.tokens.len()
            invariant_except_break
                wanted == items_from(
                    tokens,
                    self.position as int,
                    text::texts(words@),
                    shell_ir::redirect_models(redirects@),
                ),
            invariant
                self.moved(old(self)),
                tokens == self.models(),
                wanted == items_from(tokens, old(self).position as int, Seq::empty(), Seq::empty()),
            ensures
                wanted == Ok::<_, ParseError>(
                    (
                        text::texts(words@),
                        shell_ir::redirect_models(redirects@),
                        self.position as int,
                    ),
                ),
            decreases self.tokens.len() - self.position,
        {
            let ghost words_before = text::texts(words@);
            let ghost redirects_before = shell_ir::redirect_models(redirects@);
            if let Some(word) = self.word_at(self.position) {
                words.push(word);
                self.position = self.position + 1;
                assert(text::texts(words@) =~= words_before.push(word@));
                continue;
            }
            let operator = match self.peek_operator() {
                Some(operator) => operator,
                None => break,
            };
            match operator {
                Operator::OpenParen => {
                    return Err(ParseError::UnsupportedConstruct("subshell `( ... )`"));
                },
                Operator::RedirectIn | Operator::RedirectOut | Operator::RedirectAppend => {
                    let target = match self.word_at(self.position + 1) {
                        Some(target) => target,
                        None => return Err(ParseError::InvalidOperator("redirection target")),
                    };
                    let path = match SessionPath::new(target.as_str()) {
                        Ok(path) => path,
                        Err(_) => return Err(
                            ParseError::InvalidOperator(
                                "redirection target must be a session path",
                            ),
                        ),
                    };
                    let redirect = match operator {
                        Operator::RedirectIn => Redirect::Input(path),
                        Operator::RedirectOut => Redirect::OutputTruncate(path),
                        _ => Redirect::OutputAppend(path),
                    };
                    redirects.push(redirect);
                    self.position = self.position + 2;
                    assert(shell_ir::redirect_models(redirects@) =~= redirects_before.push(
                        redirect@,
                    ));
                },
                _ => break,
            }
        }
        if words.len() == 0 {
            return Err(ParseError::EmptyCommand);
        }
        let name = words.remove(0);
        proof {
            let all = wanted->Ok_0.0;
            assert(all[0] == name@);
            assert(text::texts(words@) =~= all.skip(1));
        }
        let (program, args) = match resolve_program_and_args(name.as_str(), &words) {
            Ok(found) => found,
            Err(error) => return Err(error),
        };
        Ok(CommandSpec { program, args, redirects, cwd: current_directory() })
    }

    fn parse_pipeline(&mut self) -> (r: Result<Statement, ParseError>)
        requires
            old(self).ready(),
        ensures
            final(self).moved(old(self)),
            match pipeline_at(
                old(self).models(),
                old(self).position as int,
                old(self).limits.max_pipeline_stages,
            ) {
                Ok((statement, next)) => r is Ok && r->Ok_0@ == statement && final(self).position
                    == next,
                Err(error) => r == Err::<Statement, ParseError>(error),
            },
    {
        let ghost tokens = self.models();
        let max = self.limits.max_pipeline_stages;
        let first = match self.parse_command() {
            Ok(command) => command,
            Err(error) => return Err(error),
        };
        let ghost wanted = stages_from(tokens, self.position as int, seq![first@], max);
        let mut stages: Vec<CommandSpec> = Vec::new();
        stages.push(first);
        assert(shell_ir::command_models(stages@) =~= seq![first@]);
        loop
            invariant_except_break
                wanted == stages_from(
                    tokens,
                    self.position as int,
                    shell_ir::command_models(stages@),
                    max,
                ),
            invariant
                self.moved(old(self)),
                tokens == self.models(),
                max == self.limits.max_pipeline_stages,
                command_at(tokens, old(self).position as int) is Ok,
                command_at(tokens, old(self).position as int)->Ok_0.0 == first@,
                wanted == stages_from(
                    tokens,
                    command_at(tokens, old(self).position as int)->Ok_0.1,
                    seq![first@],
                    max,
                ),
            ensures
                wanted == Ok::<_, ParseError>(
                    (shell_ir::command_models(stages@), self.position as int),
                ),
            decreases self.tokens.len() - self.position,
        {
            match self.peek_operator() {
                Some(Operator::Pipe) => {},
                _ => break,
            }
            proof {
                lemma_command_advances(tokens, self.position + 1);
            }
            if stages.len() >= max {
                return Err(ParseError::TooManyPipelineStages(max));
            }
            self.position = self.position + 1;
            let ghost before = shell_ir::command_models(stages@);
            let command = match self.parse_command() {
                Ok(command) => command,
                Err(error) => return Err(error),
            };
            stages.push(command);
            assert(shell_ir::command_models(stages@) =~= before.push(command@));
        }
        if stages.len() == 1 {
            let only = stages.remove(0);
            Ok(Statement::Command(only))
        } else {
            Ok(Statement::Pipeline(stages))
        }
    }

    fn parse_statement(&mut self) -> (r: Result<Statement, ParseError>)
        requires
            old(self).ready(),
        ensures
            final(self).moved(old(self)),
            match statement_at(
                old(self).models(),
                old(self).position as int,
                old(self).limits.max_pipeline_stages,
            ) {
                Ok((statement, next)) => r is Ok && r->Ok_0@ == statement && final(self).position
                    == next,
                Err(error) => r == Err::<Statement, ParseError>(error),
            },
    {
        let left = match self.parse_and_or() {
            Ok(left) => left,
            Err(error) => return Err(error),
        };
        // Trailing background marker.
        match self.peek_operator() {
            Some(Operator::Background) => {
                self.position = self.position + 1;
                Ok(Statement::Background(Box::new(left)))
            },
            _ => Ok(left),
        }
    }

    fn parse_and_or(&mut self) -> (r: Result<Statement, ParseError>)
        requires
            old(self).ready(),
        ensures
            final(self).moved(old(self)),
            match pipeline_at(
                old(self).models(),
                old(self).position as int,
                old(self).limits.max_pipeline_stages,
            ) {
                Err(error) => r == Err::<Statement, ParseError>(error),
                Ok((left, next)) => match and_or_from(
                    old(self).models(),
                    next,
                    left,
                    old(self).limits.max_pipeline_stages,
                ) {
                    Ok((statement, next)) => r is Ok && r->Ok_0@ == statement
                        && final(self).position == next,
                    Err(error) => r == Err::<Statement, ParseError>(error),
                },
            },
    {
        let ghost tokens = self.models();
        let ghost max = self.limits.max_pipeline_stages;
        let mut left = match self.parse_pipeline() {
            Ok(left) => left,
            Err(error) => return Err(error),
        };
        let ghost wanted = and_or_from(tokens, self.position as int, left@, max);
        loop
            invariant_except_break
                wanted == and_or_from(tokens, self.position as int, left@, max),
            invariant
                self.moved(old(self)),
                tokens == self.models(),
                max == self.limits.max_pipeline_stages,
                pipeline_at(tokens, old(self).position as int, max) is Ok,
                wanted == and_or_from(
                    tokens,
                    pipeline_at(tokens, old(self).position as int, max)->Ok_0.1,
                    pipeline_at(tokens, old(self).position as int, max)->Ok_0.0,
                    max,
                ),
            ensures
                wanted == Ok::<_, ParseError>((left@, self.position as int)),
            decreases self.tokens.len() - self.position,
        {
            let and = match self.peek_operator() {
                Some(Operator::And) => true,
                Some(Operator::Or) => false,
                _ => break,
            };
            proof {
                lemma_pipeline_advances(tokens, self.position + 1, max);
            }
            self.position = self.position + 1;
            let right = match self.parse_pipeline() {
                Ok(right) => right,
                Err(error) => return Err(error),
            };
            if and {
                left = Statement::And(Box::new(left), Box::new(right));
            } else {
                left = Statement::Or(Box::new(left), Box::new(right));
            }
        }
        Ok(left)
    }

    fn parse_program(&mut self) -> (r: Result<ShellProgram, ParseError>)
        requires
            old(self).position == 0,
        ensures
            match statements_from(old(self).models(), 0, Seq::empty(), old(self).limits) {
                Ok(statements) => r is Ok && r->Ok_0@ == statements,
                Err(error) => r == Err::<ShellProgram, ParseError>(error),
            },
    {
        let ghost tokens = self.models();
        let ghost wanted = statements_from(tokens, 0, Seq::empty(), self.limits);
        let mut statements: Vec<Statement> = Vec::new();
        while self.position < self.tokens.len()
            invariant_except_break
                wanted == statements_from(
                    tokens,
                    self.position as int,
                    shell_ir::statement_models(statements@),
                    self.limits,
                ),
            invariant
                self.moved(old(self)),
                tokens == self.models(),
                wanted == statements_from(tokens, 0, Seq::empty(), self.limits),
            ensures
                wanted == Ok::<_, ParseError>(shell_ir::statement_models(statements@)),
            decreases self.tokens.len() - self.position,
        {
            proof {
                shell_ir::lemma_statement_models(statements@);
                lemma_statement_advances(
                    tokens,
                    self.position as int,
                    self.limits.max_pipeline_stages,
                );
            }
            match &self.tokens[self.position] {
                Token::Operator(Operator::Semi) | Token::Newline => {
                    self.position = self.position + 1;
                    continue;
                },
                Token::End => break,
                _ => {},
            }
            if statements.len() >= self.limits.max_statements {
                return Err(ParseError::TooManyStatements(self.limits.max_statements));
            }
            let statement = match self.parse_statement() {
                Ok(statement) => statement,
                Err(error) => return Err(error),
            };
            let follows = match &statement {
                Statement::Background(_) => true,
                _ => if self.position < self.tokens.len() {
                    match &self.tokens[self.position] {
                        Token::Operator(Operator::Semi)
                        | Token::Operator(Operator::And)
                        | Token::Operator(Operator::Or)
                        | Token::Newline
                        | Token::End => true,
                        _ => false,
                    }
                } else {
                    true
                },
            };
            if !follows {
                return Err(ParseError::InvalidOperator("expected separator"));
            }
            let ghost before = statements@;
            statements.push(statement);
            assert(statements@.drop_last() =~= before);
        }
        Ok(ShellProgram { statements })
    }
}

/// The Ferrous Shell parser.
#[derive(Clone, Copy, Debug)]
pub struct ShellParser {
    /// Bounds applied to every parse.
    pub limits: ParseLimits,
}

impl Default for ShellParser {
    fn default() -> (r: Self)
        ensures
            r.limits == default_limits(),
    {
        ShellParser { limits: ParseLimits::default() }
    }
}

impl ShellParser {
    /// Create a parser with the default bounds.
    pub fn new() -> (r: Self)
        ensures
            r.limits == default_limits(),
    {
        ShellParser { limits: ParseLimits::default() }
    }

    /// Parse a human shell line into a typed plan.
    ///
    /// # Errors
    ///
    /// Returns a [`ParseError`] for malformed or intentionally unsupported
    /// input. Never executes or expands anything.
    pub fn parse(&self, input: &str) -> (r: Result<ShellProgram, ParseError>)
        ensures
            match plan_of(input@, self.limits) {
                Ok(plan) => r is Ok && r->Ok_0@ == plan,
                Err(error) => r == Err::<ShellProgram, ParseError>(error),
            },
    {
        let chars = text::chars_of(input);
        if text::holds_char(&chars, '\0') {
            return Err(ParseError::NulByte);
        }
        if input.as_bytes().len() > self.limits.max_input_bytes {
            return Err(ParseError::InputTooLong(self.limits.max_input_bytes));
        }
        let tokens = match shell_lex::tokenize(&chars, self.limits.max_tokens) {
            Ok(tokens) => tokens,
            Err(error) => return Err(error),
        };
        if only_line_breaks(&tokens) {
            return Err(ParseError::EmptyInput);
        }
        let mut parser = Parser { tokens, position: 0, limits: self.limits };
        let program = match parser.parse_program() {
            Ok(program) => program,
            Err(error) => return Err(error),
        };
        proof {
            shell_ir::lemma_statement_models(program.statements@);
        }
        if program.statements.len() == 0 {
            return Err(ParseError::EmptyCommand);
        }
        Ok(program)
    }

    /// Build a plan directly from a structured argv (the AI path).
    ///
    /// This bypasses text parsing entirely: the AI hands over a program name
    /// and separate arguments, and the result is a single command statement.
    /// The program name is resolved to a builtin when it is a known builtin;
    /// everything else becomes an external program. Explicit `run-wasi
    /// <component>` prefixes select the WASI backend, and `run-native --allow
    /// -- <program> [args]` maps to the compatible external path.
    ///
    /// # Errors
    ///
    /// Returns a [`ParseError`] when a builtin receives invalid arguments.
    pub fn parse_ai_argv(&self, program: &str, args: &[String], cwd: SessionPath) -> (r: Result<
        ShellProgram,
        ParseError,
    >)
        ensures
            match plan_of_argv(program@, text::texts(args@), cwd@) {
                Ok(plan) => r is Ok && r->Ok_0@ == plan,
                Err(error) => r == Err::<ShellProgram, ParseError>(error),
            },
    {
        let (program, args) = match resolve_program_and_args(program, &text::owned_texts(args)) {
            Ok(found) => found,
            Err(error) => return Err(error),
        };
        let redirects: Vec<Redirect> = Vec::new();
        assert(shell_ir::redirect_models(redirects@) =~= Seq::empty());
        let mut statements: Vec<Statement> = Vec::new();
        let ghost before = statements@;
        statements.push(Statement::Command(CommandSpec { program, args, redirects, cwd }));
        proof {
            assert(statements@.drop_last() =~= before);
            shell_ir::lemma_statement_models(statements@);
            assert(shell_ir::statement_models(statements@) =~= seq![statements@[0].model()]);
        }
        Ok(ShellProgram { statements })
    }
}

} // verus!
