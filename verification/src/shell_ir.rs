//! The typed Ferrous Shell intermediate representation (IR).
//!
//! Human shell text and AI tool calls both compile into this IR. The IR is the
//! only thing an executor may interpret: it carries each program and argument
//! as a separate value, so shell metacharacters can never be reinterpreted by
//! a host shell.

use sha2::{Digest, Sha256};
use vstd::prelude::*;
use crate::canonical;
use crate::text;

verus! {

/// Errors produced while constructing IR nodes.
#[derive(Clone, Copy, Debug, PartialEq, Eq, Structural)]
pub enum ShellIrError {
    /// A path was empty.
    EmptyPath,
    /// A path contained a NUL byte.
    NulByte,
    /// A path was absolute; all session paths are capability-relative.
    AbsolutePath,
    /// A path contained a parent (`..`) component.
    ParentComponent,
}

impl ShellIrError {
    /// The message of an error.
    pub open spec fn message_text(self) -> Seq<char> {
        match self {
            ShellIrError::EmptyPath => "session path cannot be empty"@,
            ShellIrError::NulByte => "session path cannot contain a NUL byte"@,
            ShellIrError::AbsolutePath => "session path must be relative to the session root"@,
            ShellIrError::ParentComponent => "session path cannot contain a parent component"@,
        }
    }

    /// A message for people.
    pub fn message(&self) -> (r: String)
        ensures
            r@ == self.message_text(),
    {
        match self {
            ShellIrError::EmptyPath => "session path cannot be empty".to_owned(),
            ShellIrError::NulByte => "session path cannot contain a NUL byte".to_owned(),
            ShellIrError::AbsolutePath => {
                "session path must be relative to the session root".to_owned()
            },
            ShellIrError::ParentComponent => {
                "session path cannot contain a parent component".to_owned()
            },
        }
    }
}

/// The characters that separate path components.
pub open spec fn path_separators() -> Seq<char> {
    seq!['/', '\\']
}

/// The components of a path text.
pub open spec fn components(path: Seq<char>) -> Seq<Seq<char>> {
    text::split(path, path_separators())
}

/// The `..` component.
pub open spec fn parent_component() -> Seq<char> {
    seq!['.', '.']
}

/// Why a text is not a session path, if it is not one.
pub open spec fn path_fault(path: Seq<char>) -> Option<ShellIrError> {
    if path.len() == 0 {
        Some(ShellIrError::EmptyPath)
    } else if path.contains('\0') {
        Some(ShellIrError::NulByte)
    } else if path_separators().contains(path[0]) {
        Some(ShellIrError::AbsolutePath)
    } else if components(path).contains(parent_component()) {
        Some(ShellIrError::ParentComponent)
    } else {
        None
    }
}

/// A validated path relative to the session root.
///
/// The path is a *capability-relative* coordinate, never an absolute host
/// path. It is non-empty, contains no NUL byte, and contains no `..` parent or
/// absolute components.
#[derive(Debug, PartialEq, Eq, Hash)]
pub struct SessionPath(String);

impl View for SessionPath {
    type V = Seq<char>;

    closed spec fn view(&self) -> Seq<char> {
        self.0@
    }
}

impl Clone for SessionPath {
    fn clone(&self) -> (r: Self)
        ensures
            r@ == self@,
    {
        proof {
            use_type_invariant(self);
        }
        SessionPath(self.0.clone())
    }
}

impl SessionPath {
    #[verifier::type_invariant]
    spec fn valid(&self) -> bool {
        path_fault(self@) is None
    }

    /// Validate and construct a capability-relative session path.
    pub fn new(path: &str) -> (r: Result<Self, ShellIrError>)
        ensures
            match path_fault(path@) {
                Some(fault) => r == Err::<Self, ShellIrError>(fault),
                None => r is Ok && r->Ok_0@ == path@,
            },
    {
        let chars = text::chars_of(path);
        if chars.len() == 0 {
            return Err(ShellIrError::EmptyPath);
        }
        if text::holds_char(&chars, '\0') {
            return Err(ShellIrError::NulByte);
        }
        let separators: Vec<char> = vec!['/', '\\'];
        assert(separators@ =~= path_separators());
        if text::holds_char(&separators, chars[0]) {
            return Err(ShellIrError::AbsolutePath);
        }
        let parts = text::split_text(path, &separators);
        let mut i: usize = 0;
        while i < parts.len()
            invariant
                i <= parts.len(),
                text::texts(parts@) == components(path@),
                forall|j: int| 0 <= j < i ==> #[trigger] text::texts(parts@)[j] != parent_component(),
                path@.len() > 0,
                !path@.contains('\0'),
                !path_separators().contains(path@[0]),
            decreases parts.len() - i,
        {
            if text::same_text(parts[i].as_str(), "..") {
                proof {
                    reveal_strlit("..");
                    assert(".."@ =~= parent_component());
                    assert(text::texts(parts@)[i as int] == parent_component());
                }
                return Err(ShellIrError::ParentComponent);
            }
            proof {
                reveal_strlit("..");
                assert(".."@ =~= parent_component());
            }
            i = i + 1;
        }
        let text = path.to_owned();
        Ok(SessionPath(text))
    }

    /// The underlying relative path string.
    pub fn as_str(&self) -> (r: &str)
        ensures
            r@ == self@,
            path_fault(r@) is None,
    {
        proof {
            use_type_invariant(self);
        }
        self.0.as_str()
    }

    /// The path as it is displayed.
    pub fn display_path(&self) -> (r: &str)
        ensures
            r@ == self@,
    {
        self.0.as_str()
    }
}

/// The native shell escape hatch kinds. Each is a distinct high-risk program
/// kind: a native shell can interpret arbitrary text, so it can never be
/// synthesized by ordinary command parsing.
#[derive(Clone, Copy, Debug, PartialEq, Eq, Hash, Structural)]
pub enum NativeShellKind {
    /// `/bin/bash` (or the host's bash).
    Bash,
    /// Windows PowerShell.
    PowerShell,
    /// Windows Command Prompt.
    Cmd,
}

/// A built-in command executed in-process by the Ferrous shell.
#[derive(Debug, PartialEq, Eq, Hash)]
pub enum Builtin {
    /// Print the current working directory.
    Pwd,
    /// Change the session working directory.
    Cd(SessionPath),
    /// List a directory.
    Ls(SessionPath),
    /// Print a file's contents.
    Cat(SessionPath),
    /// Create a directory.
    Mkdir(SessionPath),
    /// Remove a file or empty directory.
    Remove(SessionPath),
    /// Copy a file.
    Copy {
        /// Source path.
        from: SessionPath,
        /// Destination path.
        to: SessionPath,
    },
    /// Move a file.
    Move {
        /// Source path.
        from: SessionPath,
        /// Destination path.
        to: SessionPath,
    },
    /// Print the session environment overlay.
    Env,
    /// Locate an executable on the session PATH.
    Which(String),
    /// Print arguments joined by spaces.
    Echo(Vec<String>),
    /// Set or remove a variable in the session environment overlay.
    Export {
        /// Variable name.
        name: String,
        /// New value, or `None` to remove the variable from the overlay.
        value: Option<String>,
    },
}

/// What a program is.
#[derive(Debug, PartialEq, Eq, Hash)]
pub enum Program {
    /// An in-process builtin.
    Builtin(Builtin),
    /// An external program launched by direct argv (never through a shell).
    External(String),
    /// A WASI component admitted and run through the embedded runtime.
    WasiComponent(String),
    /// An explicit, policy-gated native shell escape hatch.
    NativeShell(NativeShellKind),
}

/// File redirection attached to one command.
#[derive(Debug, PartialEq, Eq, Hash)]
pub enum Redirect {
    /// Read stdin from a session file.
    Input(SessionPath),
    /// Truncate-and-write stdout to a session file.
    OutputTruncate(SessionPath),
    /// Append stdout to a session file.
    OutputAppend(SessionPath),
    /// Truncate-and-write stderr to a session file.
    ErrorTruncate(SessionPath),
    /// Append stderr to a session file.
    ErrorAppend(SessionPath),
}

/// One command in a plan: a program, its argv, redirects, and working
/// directory (relative to the session root).
#[derive(Debug, PartialEq, Eq, Hash)]
pub struct CommandSpec {
    /// The program to run.
    pub program: Program,
    /// Structured arguments; each element is a separate value.
    pub args: Vec<String>,
    /// File redirections, applied in order.
    pub redirects: Vec<Redirect>,
    /// Working directory for this command, relative to the session root.
    pub cwd: SessionPath,
}

/// One statement in a shell plan.
#[derive(Debug, PartialEq, Eq, Hash)]
pub enum Statement {
    /// A single command.
    Command(CommandSpec),
    /// A pipeline of commands connected by bounded channels.
    Pipeline(Vec<CommandSpec>),
    /// Run the right side only if the left side exited successfully.
    And(Box<Statement>, Box<Statement>),
    /// Run the right side only if the left side failed.
    Or(Box<Statement>, Box<Statement>),
    /// Run statements in order regardless of exit status.
    Sequence(Vec<Statement>),
    /// Run a statement as a session-owned background job.
    Background(Box<Statement>),
}

/// A complete shell plan: one or more statements executed in order.
#[derive(Debug, PartialEq, Eq, Hash)]
pub struct ShellProgram {
    /// The statements that make up the plan.
    pub statements: Vec<Statement>,
}

/// What a [`Builtin`] denotes.
pub enum BuiltinModel {
    /// Print the working directory.
    Pwd,
    /// Change directory.
    Cd(Seq<char>),
    /// List.
    Ls(Seq<char>),
    /// Print a file.
    Cat(Seq<char>),
    /// Create a directory.
    Mkdir(Seq<char>),
    /// Remove.
    Remove(Seq<char>),
    /// Copy the first path to the second.
    Copy(Seq<char>, Seq<char>),
    /// Move the first path to the second.
    Move(Seq<char>, Seq<char>),
    /// Print the overlay.
    Env,
    /// Locate a program.
    Which(Seq<char>),
    /// Print arguments.
    Echo(Seq<Seq<char>>),
    /// Set or remove an overlay variable.
    Export(Seq<char>, Option<Seq<char>>),
}

/// What a [`Program`] denotes.
pub enum ProgramModel {
    /// A builtin.
    Builtin(BuiltinModel),
    /// An external program by name.
    External(Seq<char>),
    /// A WASI component by path.
    WasiComponent(Seq<char>),
    /// A native shell.
    NativeShell(NativeShellKind),
}

/// What a [`Redirect`] denotes.
pub enum RedirectModel {
    /// Standard input from a path.
    Input(Seq<char>),
    /// Standard output over a path.
    OutputTruncate(Seq<char>),
    /// Standard output after a path.
    OutputAppend(Seq<char>),
    /// Standard error over a path.
    ErrorTruncate(Seq<char>),
    /// Standard error after a path.
    ErrorAppend(Seq<char>),
}

/// What a [`CommandSpec`] denotes.
pub struct CommandModel {
    /// The program.
    pub program: ProgramModel,
    /// The arguments.
    pub args: Seq<Seq<char>>,
    /// The redirections, in order.
    pub redirects: Seq<RedirectModel>,
    /// The working directory.
    pub cwd: Seq<char>,
}

/// What a [`Statement`] denotes.
pub enum StatementModel {
    /// A single command.
    Command(CommandModel),
    /// A pipeline.
    Pipeline(Seq<CommandModel>),
    /// Conjunction.
    And(Box<StatementModel>, Box<StatementModel>),
    /// Disjunction.
    Or(Box<StatementModel>, Box<StatementModel>),
    /// Statements in order.
    Sequence(Seq<StatementModel>),
    /// A background job.
    Background(Box<StatementModel>),
}

impl View for Builtin {
    type V = BuiltinModel;

    open spec fn view(&self) -> BuiltinModel {
        match self {
            Builtin::Pwd => BuiltinModel::Pwd,
            Builtin::Cd(path) => BuiltinModel::Cd(path@),
            Builtin::Ls(path) => BuiltinModel::Ls(path@),
            Builtin::Cat(path) => BuiltinModel::Cat(path@),
            Builtin::Mkdir(path) => BuiltinModel::Mkdir(path@),
            Builtin::Remove(path) => BuiltinModel::Remove(path@),
            Builtin::Copy { from, to } => BuiltinModel::Copy(from@, to@),
            Builtin::Move { from, to } => BuiltinModel::Move(from@, to@),
            Builtin::Env => BuiltinModel::Env,
            Builtin::Which(name) => BuiltinModel::Which(name@),
            Builtin::Echo(args) => BuiltinModel::Echo(text::texts(args@)),
            Builtin::Export { name, value } => BuiltinModel::Export(
                name@,
                match value {
                    Some(value) => Some(value@),
                    None => None,
                },
            ),
        }
    }
}

impl View for Program {
    type V = ProgramModel;

    open spec fn view(&self) -> ProgramModel {
        match self {
            Program::Builtin(builtin) => ProgramModel::Builtin(builtin@),
            Program::External(name) => ProgramModel::External(name@),
            Program::WasiComponent(path) => ProgramModel::WasiComponent(path@),
            Program::NativeShell(kind) => ProgramModel::NativeShell(*kind),
        }
    }
}

impl View for Redirect {
    type V = RedirectModel;

    open spec fn view(&self) -> RedirectModel {
        match self {
            Redirect::Input(path) => RedirectModel::Input(path@),
            Redirect::OutputTruncate(path) => RedirectModel::OutputTruncate(path@),
            Redirect::OutputAppend(path) => RedirectModel::OutputAppend(path@),
            Redirect::ErrorTruncate(path) => RedirectModel::ErrorTruncate(path@),
            Redirect::ErrorAppend(path) => RedirectModel::ErrorAppend(path@),
        }
    }
}

/// What a list of redirections denotes.
pub open spec fn redirect_models(list: Seq<Redirect>) -> Seq<RedirectModel> {
    Seq::new(list.len(), |i: int| list[i]@)
}

impl View for CommandSpec {
    type V = CommandModel;

    open spec fn view(&self) -> CommandModel {
        CommandModel {
            program: self.program@,
            args: text::texts(self.args@),
            redirects: redirect_models(self.redirects@),
            cwd: self.cwd@,
        }
    }
}

/// What a list of commands denotes.
pub open spec fn command_models(list: Seq<CommandSpec>) -> Seq<CommandModel> {
    Seq::new(list.len(), |i: int| list[i]@)
}

impl Statement {
    /// What this statement denotes.
    pub open spec fn model(self) -> StatementModel
        decreases self,
    {
        match self {
            Statement::Command(command) => StatementModel::Command(command@),
            Statement::Pipeline(stages) => StatementModel::Pipeline(command_models(stages@)),
            Statement::And(left, right) => StatementModel::And(
                Box::new(left.model()),
                Box::new(right.model()),
            ),
            Statement::Or(left, right) => StatementModel::Or(
                Box::new(left.model()),
                Box::new(right.model()),
            ),
            Statement::Sequence(list) => StatementModel::Sequence(statement_models(list@)),
            Statement::Background(inner) => StatementModel::Background(Box::new(inner.model())),
        }
    }
}

/// What a list of statements denotes.
pub open spec fn statement_models(list: Seq<Statement>) -> Seq<StatementModel>
    decreases list,
{
    if list.len() == 0 {
        Seq::empty()
    } else {
        statement_models(list.drop_last()).push(list.last().model())
    }
}

/// Denotations of a list of statements are element-wise.
pub proof fn lemma_statement_models(list: Seq<Statement>)
    ensures
        statement_models(list).len() == list.len(),
        forall|i: int|
            0 <= i < list.len() ==> #[trigger] statement_models(list)[i] == list[i].model(),
    decreases list.len(),
{
    if list.len() > 0 {
        lemma_statement_models(list.drop_last());
    }
}

impl View for Statement {
    type V = StatementModel;

    open spec fn view(&self) -> StatementModel {
        self.model()
    }
}

impl View for ShellProgram {
    type V = Seq<StatementModel>;

    open spec fn view(&self) -> Seq<StatementModel> {
        statement_models(self.statements@)
    }
}

impl ShellProgram {
    /// An empty plan (executes to success with no effects).
    pub fn empty() -> (r: Self)
        ensures
            r@ == Seq::<StatementModel>::empty(),
    {
        ShellProgram { statements: Vec::new() }
    }
}

impl Clone for Builtin {
    fn clone(&self) -> (r: Self)
        ensures
            r@ == self@,
    {
        match self {
            Builtin::Pwd => Builtin::Pwd,
            Builtin::Cd(path) => Builtin::Cd(path.clone()),
            Builtin::Ls(path) => Builtin::Ls(path.clone()),
            Builtin::Cat(path) => Builtin::Cat(path.clone()),
            Builtin::Mkdir(path) => Builtin::Mkdir(path.clone()),
            Builtin::Remove(path) => Builtin::Remove(path.clone()),
            Builtin::Copy { from, to } => Builtin::Copy { from: from.clone(), to: to.clone() },
            Builtin::Move { from, to } => Builtin::Move { from: from.clone(), to: to.clone() },
            Builtin::Env => Builtin::Env,
            Builtin::Which(name) => Builtin::Which(name.clone()),
            Builtin::Echo(args) => Builtin::Echo(text::copy_texts(args)),
            Builtin::Export { name, value } => Builtin::Export {
                name: name.clone(),
                value: match value {
                    Some(value) => Some(value.clone()),
                    None => None,
                },
            },
        }
    }
}

impl Clone for Program {
    fn clone(&self) -> (r: Self)
        ensures
            r@ == self@,
    {
        match self {
            Program::Builtin(builtin) => Program::Builtin(builtin.clone()),
            Program::External(name) => Program::External(name.clone()),
            Program::WasiComponent(path) => Program::WasiComponent(path.clone()),
            Program::NativeShell(kind) => Program::NativeShell(*kind),
        }
    }
}

impl Clone for Redirect {
    fn clone(&self) -> (r: Self)
        ensures
            r@ == self@,
    {
        match self {
            Redirect::Input(path) => Redirect::Input(path.clone()),
            Redirect::OutputTruncate(path) => Redirect::OutputTruncate(path.clone()),
            Redirect::OutputAppend(path) => Redirect::OutputAppend(path.clone()),
            Redirect::ErrorTruncate(path) => Redirect::ErrorTruncate(path.clone()),
            Redirect::ErrorAppend(path) => Redirect::ErrorAppend(path.clone()),
        }
    }
}

impl Clone for CommandSpec {
    fn clone(&self) -> (r: Self)
        ensures
            r@ == self@,
    {
        let mut redirects: Vec<Redirect> = Vec::new();
        let mut i: usize = 0;
        while i < self.redirects.len()
            invariant
                i <= self.redirects.len(),
                redirects.len() == i,
                forall|j: int| 0 <= j < i ==> (#[trigger] redirects@[j])@ == self.redirects@[j]@,
            decreases self.redirects.len() - i,
        {
            redirects.push(self.redirects[i].clone());
            i = i + 1;
        }
        assert(redirect_models(redirects@) =~= redirect_models(self.redirects@));
        CommandSpec {
            program: self.program.clone(),
            args: text::copy_texts(&self.args),
            redirects,
            cwd: self.cwd.clone(),
        }
    }
}

impl Clone for Statement {
    fn clone(&self) -> (r: Self)
        ensures
            r@ == self@,
        decreases self,
    {
        match self {
            Statement::Command(command) => Statement::Command(command.clone()),
            Statement::Pipeline(stages) => {
                let mut copies: Vec<CommandSpec> = Vec::new();
                let mut i: usize = 0;
                while i < stages.len()
                    invariant
                        i <= stages.len(),
                        copies.len() == i,
                        forall|j: int| 0 <= j < i ==> (#[trigger] copies@[j])@ == stages@[j]@,
                    decreases stages.len() - i,
                {
                    copies.push(stages[i].clone());
                    i = i + 1;
                }
                assert(command_models(copies@) =~= command_models(stages@));
                Statement::Pipeline(copies)
            },
            Statement::And(left, right) => {
                let left = Box::new((&**left).clone());
                let right = Box::new((&**right).clone());
                Statement::And(left, right)
            },
            Statement::Or(left, right) => {
                let left = Box::new((&**left).clone());
                let right = Box::new((&**right).clone());
                Statement::Or(left, right)
            },
            Statement::Sequence(list) => {
                let mut copies: Vec<Statement> = Vec::new();
                let mut i: usize = 0;
                while i < list.len()
                    invariant
                        i <= list.len(),
                        copies.len() == i,
                        forall|j: int|
                            0 <= j < i ==> (#[trigger] copies@[j]).model() == list@[j].model(),
                        self matches Statement::Sequence(inner) && inner == list,
                    decreases list.len() - i,
                {
                    let copy = list[i].clone();
                    assert(copy.model() == list@[i as int].model());
                    copies.push(copy);
                    i = i + 1;
                }
                proof {
                    lemma_statement_models(copies@);
                    lemma_statement_models(list@);
                    assert(statement_models(copies@) =~= statement_models(list@));
                }
                Statement::Sequence(copies)
            },
            Statement::Background(inner) => Statement::Background(Box::new((&**inner).clone())),
        }
    }
}

impl Clone for ShellProgram {
    fn clone(&self) -> (r: Self)
        ensures
            r@ == self@,
    {
        let mut statements: Vec<Statement> = Vec::new();
        let mut i: usize = 0;
        while i < self.statements.len()
            invariant
                i <= self.statements.len(),
                statements.len() == i,
                forall|j: int|
                    0 <= j < i ==> (#[trigger] statements@[j]).model()
                        == self.statements@[j].model(),
            decreases self.statements.len() - i,
        {
            let copy = self.statements[i].clone();
            assert(copy.model() == self.statements@[i as int].model());
            statements.push(copy);
            i = i + 1;
        }
        proof {
            lemma_statement_models(statements@);
            lemma_statement_models(self.statements@);
            assert(statement_models(statements@) =~= statement_models(self.statements@));
        }
        ShellProgram { statements }
    }
}

/// The SHA-256 hash of some bytes.
pub uninterp spec fn sha256(bytes: Seq<u8>) -> Seq<u8>;

/// `sha2`'s one-shot `Sha256::digest`, which hashes exactly the given bytes
/// with SHA-256. What the hash of given bytes is, is left to the name
/// `sha256`.
#[verifier::external_body]
fn sha256_digest(bytes: &Vec<u8>) -> (r: [u8; 32])
    ensures
        r@ == sha256(bytes@),
{
    Sha256::digest(bytes).into()
}

/// The lowercase hexadecimal digit of a number below sixteen.
pub open spec fn hex_digit(n: int) -> char {
    if n < 10 {
        ('0' as u32 + n) as char
    } else {
        ('a' as u32 + n - 10) as char
    }
}

/// The lowercase hexadecimal text of some bytes, two digits for each.
pub open spec fn hex_text(bytes: Seq<u8>) -> Seq<char>
    decreases bytes.len(),
{
    if bytes.len() == 0 {
        Seq::empty()
    } else {
        hex_text(bytes.drop_last()).push(hex_digit(bytes.last() as int / 16)).push(
            hex_digit(bytes.last() as int % 16),
        )
    }
}

/// The hexadecimal digit of a number below sixteen.
pub(crate) fn hex_char(n: u8) -> (r: char)
    requires
        n < 16,
    ensures
        r == hex_digit(n as int),
{
    if n < 10 {
        (48u8 + n) as char
    } else {
        (97u8 + (n - 10)) as char
    }
}

/// Two byte sequences with the same hexadecimal text are the same.
pub proof fn hex_is_injective(a: Seq<u8>, b: Seq<u8>)
    requires
        hex_text(a) == hex_text(b),
    ensures
        a == b,
    decreases a.len(),
{
    lemma_hex_len(a);
    lemma_hex_len(b);
    if a.len() > 0 {
        let x = hex_text(a);
        let y = hex_text(b);
        let n: int = x.len() as int;
        assert(x[n - 1] == y[n - 1] && x[n - 2] == y[n - 2]);
        assert(a.last() as int % 16 == b.last() as int % 16);
        assert(a.last() as int / 16 == b.last() as int / 16);
        assert(x.take(n - 2) =~= hex_text(a.drop_last()));
        assert(y.take(n - 2) =~= hex_text(b.drop_last()));
        hex_is_injective(a.drop_last(), b.drop_last());
        assert(a =~= a.drop_last().push(a.last()));
        assert(b =~= b.drop_last().push(b.last()));
    } else {
        assert(a =~= b);
    }
}

/// Two digits stand for each byte.
pub proof fn lemma_hex_len(bytes: Seq<u8>)
    ensures
        hex_text(bytes).len() == 2 * bytes.len(),
    decreases bytes.len(),
{
    if bytes.len() > 0 {
        lemma_hex_len(bytes.drop_last());
    }
}

/// A canonical 32-byte fingerprint of an entire shell plan.
///
/// The digest is stable across sessions and hosts because it is computed from
/// a canonical byte encoding of the AST, cwd, argv, and redirect targets,
/// never from formatting or a host-specific representation.
#[derive(Clone, Copy, Debug, Eq, Hash)]
pub struct CommandDigest([u8; 32]);

impl vstd::std_specs::cmp::PartialEqSpecImpl for CommandDigest {
    open spec fn obeys_eq_spec() -> bool {
        true
    }

    open spec fn eq_spec(&self, other: &Self) -> bool {
        self@ == other@
    }
}

impl PartialEq for CommandDigest {
    fn eq(&self, other: &Self) -> (r: bool) {
        let mut i: usize = 0;
        while i < 32
            invariant
                i <= 32,
                forall|j: int| 0 <= j < i ==> self@[j] == other@[j],
            decreases 32 - i,
        {
            if self.0[i] != other.0[i] {
                return false;
            }
            i = i + 1;
        }
        assert(self@ =~= other@);
        true
    }
}

impl View for CommandDigest {
    type V = Seq<u8>;

    closed spec fn view(&self) -> Seq<u8> {
        self.0@
    }
}

impl CommandDigest {
    /// Compute the canonical digest of a plan.
    pub fn of(program: &ShellProgram) -> (r: Self)
        ensures
            r@ == sha256(canonical::plan_bytes(program@)),
    {
        let bytes = program.canonical_bytes();
        CommandDigest(sha256_digest(&bytes))
    }

    /// The raw digest bytes.
    pub fn as_bytes(&self) -> (r: &[u8; 32])
        ensures
            r@ == self@,
    {
        &self.0
    }

    /// A lowercase hex representation for display and audit records.
    pub fn hex(&self) -> (r: String)
        ensures
            r@ == hex_text(self@),
            r@.len() == 64,
    {
        let mut output = String::new();
        let mut i: usize = 0;
        assert(self@.take(0) =~= Seq::empty());
        while i < 32
            invariant
                i <= 32,
                output@ == hex_text(self@.take(i as int)),
            decreases 32 - i,
        {
            let byte: u8 = self.0[i];
            output.push(hex_char(byte / 16));
            output.push(hex_char(byte % 16));
            i = i + 1;
            assert(self@.take(i as int).drop_last() =~= self@.take(i - 1));
        }
        proof {
            assert(self@.take(32) =~= self@);
            lemma_hex_len(self@);
        }
        output
    }
}

/// A summarized set of side effects for approval display and audit.
///
/// This is the *redacted* surface an agent or UI may see: it lists effect
/// targets (paths, hosts, secret *names*), never secret values.
#[derive(Clone, Debug, PartialEq, Eq)]
pub struct EffectSummary {
    /// Paths the plan reads.
    pub reads: Vec<String>,
    /// Paths the plan writes or creates.
    pub writes: Vec<String>,
    /// Paths the plan deletes.
    pub deletes: Vec<String>,
    /// Network hosts the plan may contact.
    pub network: Vec<String>,
    /// Secret *names* the plan may access (never values).
    pub secrets: Vec<String>,
    /// Scripts or lifecycle hooks the plan may execute.
    pub scripts: Vec<String>,
}

impl Default for EffectSummary {
    fn default() -> (r: Self)
        ensures
            r.reads@.len() == 0,
            r.writes@.len() == 0,
            r.deletes@.len() == 0,
            r.network@.len() == 0,
            r.secrets@.len() == 0,
            r.scripts@.len() == 0,
    {
        EffectSummary {
            reads: Vec::new(),
            writes: Vec::new(),
            deletes: Vec::new(),
            network: Vec::new(),
            secrets: Vec::new(),
            scripts: Vec::new(),
        }
    }
}

/// One network capability.
#[derive(Clone, Debug, PartialEq, Eq)]
pub struct NetworkCapability {
    /// Host or domain pattern, e.g. `registry.npmjs.org`.
    pub host: String,
    /// Ports permitted; empty means no ports.
    pub ports: Vec<u16>,
    /// Whether outgoing connections are permitted.
    pub connect: bool,
    /// Whether binding is permitted.
    pub bind: bool,
}

/// The delta of authority a request needs beyond the session's base grant.
#[derive(Clone, Debug, PartialEq, Eq)]
pub struct CapabilityDelta {
    /// Additional filesystem grants requested.
    pub filesystem: Vec<String>,
    /// Additional environment variable names requested.
    pub environment: Vec<String>,
    /// Additional network capabilities requested.
    pub network: Vec<NetworkCapability>,
    /// Whether native process execution is requested.
    pub native: bool,
    /// Secret names requested (never values).
    pub secrets: Vec<String>,
}

impl Default for CapabilityDelta {
    fn default() -> (r: Self)
        ensures
            r.filesystem@.len() == 0,
            r.environment@.len() == 0,
            r.network@.len() == 0,
            !r.native,
            r.secrets@.len() == 0,
    {
        CapabilityDelta {
            filesystem: Vec::new(),
            environment: Vec::new(),
            network: Vec::new(),
            native: false,
            secrets: Vec::new(),
        }
    }
}

} // verus!
