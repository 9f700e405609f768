//! The canonical byte encoding of shell plans.
//!
//! The encoding is what a plan's digest is computed from. Every text and every
//! list is preceded by its length, and every variant by a tag, so a plan can be
//! told from its bytes.

use vstd::prelude::*;
use vstd::string::*;
use vstd::utf8::*;
use crate::shell_ir;
use crate::shell_ir::{
    Builtin,
    BuiltinModel,
    CommandModel,
    CommandSpec,
    NativeShellKind,
    Program,
    ProgramModel,
    Redirect,
    RedirectModel,
    ShellProgram,
    Statement,
    StatementModel,
};
use crate::text;

verus! {

/// The four least significant base-256 digits of a length, least first.
pub open spec fn length_bytes(n: nat) -> Seq<u8> {
    seq![
        (n % 256) as u8,
        ((n / 256) % 256) as u8,
        ((n / 65536) % 256) as u8,
        ((n / 16777216) % 256) as u8,
    ]
}

/// The encoding of a text: the length of its UTF-8 bytes, then the bytes.
pub open spec fn text_bytes(s: Seq<char>) -> Seq<u8> {
    length_bytes(encode_utf8(s).len()) + encode_utf8(s)
}

/// The encodings of the texts of a list, one after another.
pub open spec fn joined_texts(list: Seq<Seq<char>>) -> Seq<u8>
    decreases list.len(),
{
    if list.len() == 0 {
        Seq::empty()
    } else {
        joined_texts(list.drop_last()) + text_bytes(list.last())
    }
}

/// The encoding of a list of texts: how many there are, then each.
pub open spec fn text_list_bytes(list: Seq<Seq<char>>) -> Seq<u8> {
    length_bytes(list.len()) + joined_texts(list)
}

/// The tag of a builtin.
pub open spec fn builtin_tag(builtin: BuiltinModel) -> u8 {
    match builtin {
        BuiltinModel::Pwd => 0,
        BuiltinModel::Cd(_) => 1,
        BuiltinModel::Ls(_) => 2,
        BuiltinModel::Cat(_) => 3,
        BuiltinModel::Mkdir(_) => 4,
        BuiltinModel::Remove(_) => 5,
        BuiltinModel::Copy(_, _) => 6,
        BuiltinModel::Move(_, _) => 7,
        BuiltinModel::Env => 8,
        BuiltinModel::Which(_) => 9,
        BuiltinModel::Echo(_) => 10,
        BuiltinModel::Export(_, _) => 11,
    }
}

/// What follows the tag of a builtin.
pub open spec fn builtin_body(builtin: BuiltinModel) -> Seq<u8> {
    match builtin {
        BuiltinModel::Pwd => Seq::empty(),
        BuiltinModel::Cd(path) => text_bytes(path),
        BuiltinModel::Ls(path) => text_bytes(path),
        BuiltinModel::Cat(path) => text_bytes(path),
        BuiltinModel::Mkdir(path) => text_bytes(path),
        BuiltinModel::Remove(path) => text_bytes(path),
        BuiltinModel::Copy(from, to) => text_bytes(from) + text_bytes(to),
        BuiltinModel::Move(from, to) => text_bytes(from) + text_bytes(to),
        BuiltinModel::Env => Seq::empty(),
        BuiltinModel::Which(name) => text_bytes(name),
        BuiltinModel::Echo(args) => text_list_bytes(args),
        BuiltinModel::Export(name, value) => text_bytes(name) + match value {
            Some(value) => seq![1u8] + text_bytes(value),
            None => seq![0u8],
        },
    }
}

/// The encoding of a builtin.
pub open spec fn builtin_bytes(builtin: BuiltinModel) -> Seq<u8> {
    seq![builtin_tag(builtin)] + builtin_body(builtin)
}

/// The number of a native shell kind.
pub open spec fn shell_kind_number(kind: NativeShellKind) -> u8 {
    match kind {
        NativeShellKind::Bash => 0,
        NativeShellKind::PowerShell => 1,
        NativeShellKind::Cmd => 2,
    }
}

/// The tag of a program.
pub open spec fn program_tag(program: ProgramModel) -> u8 {
    match program {
        ProgramModel::Builtin(_) => 0,
        ProgramModel::External(_) => 1,
        ProgramModel::WasiComponent(_) => 2,
        ProgramModel::NativeShell(_) => 3,
    }
}

/// What follows the tag of a program.
pub open spec fn program_body(program: ProgramModel) -> Seq<u8> {
    match program {
        ProgramModel::Builtin(builtin) => builtin_bytes(builtin),
        ProgramModel::External(name) => text_bytes(name),
        ProgramModel::WasiComponent(path) => text_bytes(path),
        ProgramModel::NativeShell(kind) => seq![shell_kind_number(kind)],
    }
}

/// The encoding of a program.
pub open spec fn program_bytes(program: ProgramModel) -> Seq<u8> {
    seq![program_tag(program)] + program_body(program)
}

/// The tag of a redirection.
pub open spec fn redirect_tag(redirect: RedirectModel) -> u8 {
    match redirect {
        RedirectModel::Input(_) => 0,
        RedirectModel::OutputTruncate(_) => 1,
        RedirectModel::OutputAppend(_) => 2,
        RedirectModel::ErrorTruncate(_) => 3,
        RedirectModel::ErrorAppend(_) => 4,
    }
}

/// The path of a redirection.
pub open spec fn redirect_path(redirect: RedirectModel) -> Seq<char> {
    match redirect {
        RedirectModel::Input(path) => path,
        RedirectModel::OutputTruncate(path) => path,
        RedirectModel::OutputAppend(path) => path,
        RedirectModel::ErrorTruncate(path) => path,
        RedirectModel::ErrorAppend(path) => path,
    }
}

/// The encoding of a redirection.
pub open spec fn redirect_bytes(redirect: RedirectModel) -> Seq<u8> {
    seq![redirect_tag(redirect)] + text_bytes(redirect_path(redirect))
}

/// The encodings of the redirections of a list, one after another.
pub open spec fn joined_redirects(list: Seq<RedirectModel>) -> Seq<u8>
    decreases list.len(),
{
    if list.len() == 0 {
        Seq::empty()
    } else {
        joined_redirects(list.drop_last()) + redirect_bytes(list.last())
    }
}

/// The encoding of a command: program, working directory, arguments,
/// redirections.
pub open spec fn command_bytes(command: CommandModel) -> Seq<u8> {
    program_bytes(command.program) + text_bytes(command.cwd) + text_list_bytes(command.args)
        + length_bytes(command.redirects.len()) + joined_redirects(command.redirects)
}

/// The encodings of the commands of a list, one after another.
pub open spec fn joined_commands(list: Seq<CommandModel>) -> Seq<u8>
    decreases list.len(),
{
    if list.len() == 0 {
        Seq::empty()
    } else {
        joined_commands(list.drop_last()) + command_bytes(list.last())
    }
}

/// The tag of a statement.
pub open spec fn statement_tag(statement: StatementModel) -> u8 {
    match statement {
        StatementModel::Command(_) => 0,
        StatementModel::Pipeline(_) => 1,
        StatementModel::And(_, _) => 2,
        StatementModel::Or(_, _) => 3,
        StatementModel::Sequence(_) => 4,
        StatementModel::Background(_) => 5,
    }
}

/// What follows the tag of a statement.
pub open spec fn statement_body(statement: StatementModel) -> Seq<u8>
    decreases statement, 0nat,
{
    match statement {
        StatementModel::Command(command) => command_bytes(command),
        StatementModel::Pipeline(stages) => length_bytes(stages.len()) + joined_commands(stages),
        StatementModel::And(left, right) => statement_bytes(*left) + statement_bytes(*right),
        StatementModel::Or(left, right) => statement_bytes(*left) + statement_bytes(*right),
        StatementModel::Sequence(list) => length_bytes(list.len()) + joined_statements(list),
        StatementModel::Background(inner) => statement_bytes(*inner),
    }
}

/// The encoding of a statement.
pub open spec fn statement_bytes(statement: StatementModel) -> Seq<u8>
    decreases statement, 1nat,
{
    seq![statement_tag(statement)] + statement_body(statement)
}

/// The encodings of the statements of a list, one after another.
pub open spec fn joined_statements(list: Seq<StatementModel>) -> Seq<u8>
    decreases list, 0nat,
{
    if list.len() == 0 {
        Seq::empty()
    } else {
        joined_statements(list.drop_last()) + statement_bytes(list.last())
    }
}

/// The bytes that open every encoded plan: `ferrous-shell-ir-v1` and a NUL.
pub open spec fn header() -> Seq<u8> {
    seq![
        102u8, 101, 114, 114, 111, 117, 115, 45, 115, 104, 101, 108, 108, 45, 105, 114, 45, 118,
        49, 0,
    ]
}

/// The canonical encoding of a whole plan.
pub open spec fn plan_bytes(plan: Seq<StatementModel>) -> Seq<u8> {
    header() + joined_statements(plan)
}

/// Append the four length bytes of `n`.
fn push_u32(out: &mut Vec<u8>, n: usize)
    ensures
        final(out)@ == old(out)@ + length_bytes(n as nat),
{
    let n: u64 = n as u64;
    out.push((n % 256) as u8);
    out.push(((n / 256) % 256) as u8);
    out.push(((n / 65536) % 256) as u8);
    out.push(((n / 16777216) % 256) as u8);
    assert(out@ =~= old(out)@ + length_bytes(n as nat));
}

/// Append one byte.
fn push_u8(out: &mut Vec<u8>, value: u8)
    ensures
        final(out)@ == old(out)@ + seq![value],
{
    out.push(value);
    assert(out@ =~= old(out)@ + seq![value]);
}

/// Append the encoding of a text.
fn push_str(out: &mut Vec<u8>, value: &str)
    ensures
        final(out)@ == old(out)@ + text_bytes(value@),
{
    let bytes = value.as_bytes();
    push_u32(out, bytes.len());
    let ghost before = out@;
    let mut i: usize = 0;
    while i < bytes.len()
        invariant
            i <= bytes.len(),
            bytes@ == encode_utf8(value@),
            out@ == before + bytes@.take(i as int),
        decreases bytes.len() - i,
    {
        out.push(bytes[i]);
        i = i + 1;
        assert(bytes@.take(i as int) =~= bytes@.take(i - 1).push(bytes@[i - 1]));
        assert(out@ =~= before + bytes@.take(i as int));
    }
    assert(bytes@.take(i as int) =~= bytes@);
    assert(out@ =~= old(out)@ + text_bytes(value@));
}

/// Append the encoding of a list of texts.
fn push_str_list(out: &mut Vec<u8>, values: &Vec<String>)
    ensures
        final(out)@ == old(out)@ + text_list_bytes(text::texts(values@)),
{
    push_u32(out, values.len());
    let ghost before = out@;
    let ghost list = text::texts(values@);
    let mut i: usize = 0;
    assert(list.take(0) =~= Seq::empty());
    assert(out@ =~= before + joined_texts(list.take(0)));
    while i < values.len()
        invariant
            i <= values.len(),
            list == text::texts(values@),
            out@ == before + joined_texts(list.take(i as int)),
        decreases values.len() - i,
    {
        push_str(out, values[i].as_str());
        i = i + 1;
        assert(list.take(i as int).drop_last() =~= list.take(i - 1));
        assert(list.take(i as int).last() == values@[i - 1]@);
        assert(out@ =~= before + joined_texts(list.take(i as int)));
    }
    assert(list.take(i as int) =~= list);
    assert(out@ =~= old(out)@ + text_list_bytes(list));
}

impl Builtin {
    /// Append the canonical encoding of this builtin.
    fn write_canonical(&self, out: &mut Vec<u8>)
        ensures
            final(out)@ == old(out)@ + builtin_bytes(self@),
    {
        match self {
            Builtin::Pwd => push_u8(out, 0),
            Builtin::Cd(path) => {
                push_u8(out, 1);
                push_str(out, path.as_str());
            },
            Builtin::Ls(path) => {
                push_u8(out, 2);
                push_str(out, path.as_str());
            },
            Builtin::Cat(path) => {
                push_u8(out, 3);
                push_str(out, path.as_str());
            },
            Builtin::Mkdir(path) => {
                push_u8(out, 4);
                push_str(out, path.as_str());
            },
            Builtin::Remove(path) => {
                push_u8(out, 5);
                push_str(out, path.as_str());
            },
            Builtin::Copy { from, to } => {
                push_u8(out, 6);
                push_str(out, from.as_str());
                push_str(out, to.as_str());
            },
            Builtin::Move { from, to } => {
                push_u8(out, 7);
                push_str(out, from.as_str());
                push_str(out, to.as_str());
            },
            Builtin::Env => push_u8(out, 8),
            Builtin::Which(name) => {
                push_u8(out, 9);
                push_str(out, name.as_str());
            },
            Builtin::Echo(args) => {
                push_u8(out, 10);
                push_str_list(out, args);
            },
            Builtin::Export { name, value } => {
                push_u8(out, 11);
                push_str(out, name.as_str());
                match value {
                    Some(value) => {
                        push_u8(out, 1);
                        push_str(out, value.as_str());
                    },
                    None => push_u8(out, 0),
                }
            },
        }
        assert(out@ =~= old(out)@ + builtin_bytes(self@));
    }
}

impl Redirect {
    /// Append the canonical encoding of this redirection.
    fn write_canonical(&self, out: &mut Vec<u8>)
        ensures
            final(out)@ == old(out)@ + redirect_bytes(self@),
    {
        match self {
            Redirect::Input(path) => {
                push_u8(out, 0);
                push_str(out, path.as_str());
            },
            Redirect::OutputTruncate(path) => {
                push_u8(out, 1);
                push_str(out, path.as_str());
            },
            Redirect::OutputAppend(path) => {
                push_u8(out, 2);
                push_str(out, path.as_str());
            },
            Redirect::ErrorTruncate(path) => {
                push_u8(out, 3);
                push_str(out, path.as_str());
            },
            Redirect::ErrorAppend(path) => {
                push_u8(out, 4);
                push_str(out, path.as_str());
            },
        }
        assert(out@ =~= old(out)@ + redirect_bytes(self@));
    }
}

impl CommandSpec {
    /// Append the canonical encoding of this command.
    fn write_canonical(&self, out: &mut Vec<u8>)
        ensures
            final(out)@ == old(out)@ + command_bytes(self@),
    {
        match &self.program {
            Program::Builtin(builtin) => {
                push_u8(out, 0);
                builtin.write_canonical(out);
            },
            Program::External(name) => {
                push_u8(out, 1);
                push_str(out, name.as_str());
            },
            Program::WasiComponent(path) => {
                push_u8(out, 2);
                push_str(out, path.as_str());
            },
            Program::NativeShell(kind) => {
                push_u8(out, 3);
                push_u8(
                    out,
                    match kind {
                        NativeShellKind::Bash => 0,
                        NativeShellKind::PowerShell => 1,
                        NativeShellKind::Cmd => 2,
                    },
                );
            },
        }
        assert(out@ =~= old(out)@ + program_bytes(self.program@));
        push_str(out, self.cwd.as_str());
        push_str_list(out, &self.args);
        push_u32(out, self.redirects.len());
        let ghost before = out@;
        let ghost list = self@.redirects;
        let mut i: usize = 0;
        assert(list.take(0) =~= Seq::empty());
        assert(out@ =~= before + joined_redirects(list.take(0)));
        while i < self.redirects.len()
            invariant
                i <= self.redirects.len(),
                list == shell_ir::redirect_models(self.redirects@),
                out@ == before + joined_redirects(list.take(i as int)),
            decreases self.redirects.len() - i,
        {
            self.redirects[i].write_canonical(out);
            i = i + 1;
            assert(list.take(i as int).drop_last() =~= list.take(i - 1));
            assert(out@ =~= before + joined_redirects(list.take(i as int)));
        }
        assert(list.take(i as int) =~= list);
        assert(out@ =~= old(out)@ + command_bytes(self@));
    }
}

impl Statement {
    /// Append the canonical encoding of this statement.
    fn write_canonical(&self, out: &mut Vec<u8>)
        ensures
            final(out)@ == old(out)@ + statement_bytes(self@),
        decreases self,
    {
        match self {
            Statement::Command(command) => {
                push_u8(out, 0);
                command.write_canonical(out);
            },
            Statement::Pipeline(stages) => {
                push_u8(out, 1);
                push_u32(out, stages.len());
                let ghost before = out@;
                let ghost list = shell_ir::command_models(stages@);
                let mut i: usize = 0;
                assert(list.take(0) =~= Seq::empty());
                assert(out@ =~= before + joined_commands(list.take(0)));
                while i < stages.len()
                    invariant
                        i <= stages.len(),
                        list == shell_ir::command_models(stages@),
                        out@ == before + joined_commands(list.take(i as int)),
                    decreases stages.len() - i,
                {
                    stages[i].write_canonical(out);
                    i = i + 1;
                    assert(list.take(i as int).drop_last() =~= list.take(i - 1));
                    assert(out@ =~= before + joined_commands(list.take(i as int)));
                }
                assert(list.take(i as int) =~= list);
            },
            Statement::And(left, right) => {
                push_u8(out, 2);
                left.write_canonical(out);
                right.write_canonical(out);
            },
            Statement::Or(left, right) => {
                push_u8(out, 3);
                left.write_canonical(out);
                right.write_canonical(out);
            },
            Statement::Sequence(statements) => {
                push_u8(out, 4);
                push_u32(out, statements.len());
                let ghost before = out@;
                let ghost list = shell_ir::statement_models(statements@);
                let mut i: usize = 0;
                assert(list.take(0) =~= Seq::empty());
                assert(out@ =~= before + joined_statements(list.take(0)));
                proof {
                    shell_ir::lemma_statement_models(statements@);
                }
                while i < statements.len()
                    invariant
                        i <= statements.len(),
                        list == shell_ir::statement_models(statements@),
                        list.len() == statements@.len(),
                        forall|j: int|
                            0 <= j < list.len() ==> #[trigger] list[j] == statements@[j].model(),
                        out@ == before + joined_statements(list.take(i as int)),
                        self matches Statement::Sequence(inner) && inner == statements,
                    decreases statements.len() - i,
                {
                    statements[i].write_canonical(out);
                    i = i + 1;
                    assert(list.take(i as int).drop_last() =~= list.take(i - 1));
                    assert(out@ =~= before + joined_statements(list.take(i as int)));
                }
                assert(list.take(i as int) =~= list);
            },
            Statement::Background(inner) => {
                push_u8(out, 5);
                inner.write_canonical(out);
            },
        }
        assert(out@ =~= old(out)@ + statement_bytes(self@));
    }
}

impl ShellProgram {
    /// The canonical encoding of this plan.
    pub fn canonical_bytes(&self) -> (r: Vec<u8>)
        ensures
            r@ == plan_bytes(self@),
    {
        let mut out: Vec<u8> = vec![
            102, 101, 114, 114, 111, 117, 115, 45, 115, 104, 101, 108, 108, 45, 105, 114, 45, 118,
            49, 0,
        ];
        assert(out@ =~= header());
        let ghost list = self@;
        let mut i: usize = 0;
        assert(list.take(0) =~= Seq::empty());
        assert(out@ =~= header() + joined_statements(list.take(0)));
        proof {
            shell_ir::lemma_statement_models(self.statements@);
        }
        while i < self.statements.len()
            invariant
                i <= self.statements.len(),
                list.len() == self.statements@.len(),
                forall|j: int|
                    0 <= j < list.len() ==> #[trigger] list[j] == self.statements@[j].model(),
                out@ == header() + joined_statements(list.take(i as int)),
            decreases self.statements.len() - i,
        {
            self.statements[i].write_canonical(&mut out);
            i = i + 1;
            assert(list.take(i as int).drop_last() =~= list.take(i - 1));
            assert(out@ =~= header() + joined_statements(list.take(i as int)));
        }
        assert(list.take(i as int) =~= list);
        out
    }
}

/// Whether a length can be told from its four bytes.
pub open spec fn length_fits(n: nat) -> bool {
    n < 0x1_0000_0000
}

/// Whether the length of a text can be told from its encoding.
pub open spec fn text_fits(s: Seq<char>) -> bool {
    length_fits(encode_utf8(s).len())
}

/// Whether the lengths in a list of texts can be told from its encoding.
pub open spec fn texts_fit(list: Seq<Seq<char>>) -> bool {
    &&& length_fits(list.len())
    &&& forall|i: int| 0 <= i < list.len() ==> text_fits(#[trigger] list[i])
}

/// Whether the lengths in a builtin can be told from its encoding.
pub open spec fn builtin_fits(builtin: BuiltinModel) -> bool {
    match builtin {
        BuiltinModel::Pwd | BuiltinModel::Env => true,
        BuiltinModel::Cd(path) => text_fits(path),
        BuiltinModel::Ls(path) => text_fits(path),
        BuiltinModel::Cat(path) => text_fits(path),
        BuiltinModel::Mkdir(path) => text_fits(path),
        BuiltinModel::Remove(path) => text_fits(path),
        BuiltinModel::Copy(from, to) => text_fits(from) && text_fits(to),
        BuiltinModel::Move(from, to) => text_fits(from) && text_fits(to),
        BuiltinModel::Which(name) => text_fits(name),
        BuiltinModel::Echo(args) => texts_fit(args),
        BuiltinModel::Export(name, value) => text_fits(name) && match value {
            Some(value) => text_fits(value),
            None => true,
        },
    }
}

/// Whether the lengths in a program can be told from its encoding.
pub open spec fn program_fits(program: ProgramModel) -> bool {
    match program {
        ProgramModel::Builtin(builtin) => builtin_fits(builtin),
        ProgramModel::External(name) => text_fits(name),
        ProgramModel::WasiComponent(path) => text_fits(path),
        ProgramModel::NativeShell(_) => true,
    }
}

/// Whether the lengths in a command can be told from its encoding.
pub open spec fn command_fits(command: CommandModel) -> bool {
    &&& program_fits(command.program)
    &&& text_fits(command.cwd)
    &&& texts_fit(command.args)
    &&& length_fits(command.redirects.len())
    &&& forall|i: int|
        0 <= i < command.redirects.len() ==> text_fits(
            redirect_path(#[trigger] command.redirects[i]),
        )
}

/// Whether the lengths in a statement can be told from its encoding.
pub open spec fn statement_fits(statement: StatementModel) -> bool
    decreases statement,
{
    match statement {
        StatementModel::Command(command) => command_fits(command),
        StatementModel::Pipeline(stages) => length_fits(stages.len()) && forall|i: int|
            0 <= i < stages.len() ==> command_fits(#[trigger] stages[i]),
        StatementModel::And(left, right) => statement_fits(*left) && statement_fits(*right),
        StatementModel::Or(left, right) => statement_fits(*left) && statement_fits(*right),
        StatementModel::Sequence(list) => length_fits(list.len()) && statements_fit(list),
        StatementModel::Background(inner) => statement_fits(*inner),
    }
}

/// Whether the lengths in every statement of a list can be told from its
/// encoding.
pub open spec fn statements_fit(list: Seq<StatementModel>) -> bool
    decreases list,
{
    if list.len() == 0 {
        true
    } else {
        statement_fits(list.first()) && statements_fit(list.subrange(1, list.len() as int))
    }
}

/// Two sequences that agree, and whose heads are of equal length, agree on the
/// heads and on the rests.
proof fn lemma_cut<A>(a: Seq<A>, s: Seq<A>, b: Seq<A>, t: Seq<A>)
    requires
        a + s == b + t,
        a.len() == b.len(),
    ensures
        a == b,
        s == t,
{
    assert forall|i: int| 0 <= i < a.len() implies a[i] == b[i] by {
        assert((a + s)[i] == a[i]);
        assert((b + t)[i] == b[i]);
    }
    assert((a + s).len() == a.len() + s.len());
    assert((b + t).len() == b.len() + t.len());
    assert forall|i: int| 0 <= i < s.len() implies s[i] == t[i] by {
        assert((a + s)[a.len() + i] == s[i]);
        assert((b + t)[b.len() + i] == t[i]);
    }
    assert(a =~= b);
    assert(s =~= t);
}

/// Concatenation is associative.
proof fn lemma_assoc<A>(a: Seq<A>, b: Seq<A>, c: Seq<A>)
    ensures
        (a + b) + c == a + (b + c),
{
    assert((a + b) + c =~= a + (b + c));
}

/// Five concatenated pieces and a rest, regrouped from the right.
proof fn lemma_regroup<A>(a: Seq<A>, b: Seq<A>, c: Seq<A>, d: Seq<A>, e: Seq<A>, s: Seq<A>)
    ensures
        (a + b + c + d + e) + s == a + (b + (c + (d + (e + s)))),
{
    assert((a + b + c + d + e) + s =~= a + (b + (c + (d + (e + s)))));
}

/// Concatenation with nothing changes nothing.
proof fn lemma_nothing<A>(a: Seq<A>)
    ensures
        a + Seq::empty() == a,
        Seq::empty() + a == a,
{
    assert(a + Seq::empty() =~= a);
    assert(Seq::empty() + a =~= a);
}

proof fn lemma_tag(a: u8, x: Seq<u8>, s: Seq<u8>, b: u8, y: Seq<u8>, t: Seq<u8>)
    requires
        (seq![a] + x) + s == (seq![b] + y) + t,
    ensures
        a == b,
        x + s == y + t,
{
    assert((seq![a] + x) + s =~= seq![a] + (x + s));
    assert((seq![b] + y) + t =~= seq![b] + (y + t));
    lemma_cut(seq![a], x + s, seq![b], y + t);
    assert(seq![a][0] == seq![b][0]);
}

/// A length is told from its four digits.
proof fn lemma_length_digits(n: nat)
    requires
        length_fits(n),
    ensures
        n == length_bytes(n)[0] as nat + 256 * (length_bytes(n)[1] as nat) + 65536 * (
        length_bytes(n)[2] as nat) + 16777216 * (length_bytes(n)[3] as nat),
{
    let n1 = n / 256;
    let n2 = n / 65536;
    let n3 = n / 16777216;
    assert(n == n % 256 + 256 * n1);
    assert(n2 == n1 / 256 && n1 == n1 % 256 + 256 * n2);
    assert(n3 == n2 / 256 && n2 == n2 % 256 + 256 * n3);
    assert(n3 < 256 && n3 % 256 == n3);
    assert(length_bytes(n)[0] as nat == n % 256);
    assert(length_bytes(n)[1] as nat == n1 % 256);
    assert(length_bytes(n)[2] as nat == n2 % 256);
    assert(length_bytes(n)[3] as nat == n3 % 256);
}

proof fn lemma_length(n: nat, s: Seq<u8>, m: nat, t: Seq<u8>)
    requires
        length_fits(n),
        length_fits(m),
        length_bytes(n) + s == length_bytes(m) + t,
    ensures
        n == m,
        s == t,
{
    lemma_cut(length_bytes(n), s, length_bytes(m), t);
    let x = length_bytes(n);
    let y = length_bytes(m);
    assert(x[0] == y[0] && x[1] == y[1] && x[2] == y[2] && x[3] == y[3]);
    lemma_length_digits(n);
    lemma_length_digits(m);
}

proof fn lemma_text(a: Seq<char>, s: Seq<u8>, b: Seq<char>, t: Seq<u8>)
    requires
        text_fits(a),
        text_fits(b),
        text_bytes(a) + s == text_bytes(b) + t,
    ensures
        a == b,
        s == t,
{
    let x = encode_utf8(a);
    let y = encode_utf8(b);
    assert(text_bytes(a) + s =~= length_bytes(x.len()) + (x + s));
    assert(text_bytes(b) + t =~= length_bytes(y.len()) + (y + t));
    lemma_length(x.len(), x + s, y.len(), y + t);
    lemma_cut(x, s, y, t);
    text::lemma_utf8_injective(a, b);
}

proof fn lemma_joined_texts_first(list: Seq<Seq<char>>)
    requires
        list.len() > 0,
    ensures
        joined_texts(list) == text_bytes(list.first()) + joined_texts(list.drop_first()),
    decreases list.len(),
{
    let first = text_bytes(list.first());
    lemma_nothing(first);
    if list.len() == 1 {
        assert(list.drop_last() == Seq::<Seq<char>>::empty());
        assert(list.drop_first() == Seq::<Seq<char>>::empty());
    } else {
        lemma_joined_texts_first(list.drop_last());
        assert(list.drop_last().drop_first() == list.drop_first().drop_last());
        lemma_assoc(first, joined_texts(list.drop_first().drop_last()), text_bytes(list.last()));
    }
}

proof fn lemma_joined_texts(a: Seq<Seq<char>>, s: Seq<u8>, b: Seq<Seq<char>>, t: Seq<u8>)
    requires
        a.len() == b.len(),
        forall|i: int| 0 <= i < a.len() ==> text_fits(#[trigger] a[i]),
        forall|i: int| 0 <= i < b.len() ==> text_fits(#[trigger] b[i]),
        joined_texts(a) + s == joined_texts(b) + t,
    ensures
        a == b,
        s == t,
    decreases a.len(),
{
    if a.len() == 0 {
        lemma_nothing(s);
        lemma_nothing(t);
        assert(a =~= b);
    } else {
        lemma_joined_texts_first(a);
        lemma_joined_texts_first(b);
        let x = a.drop_first();
        let y = b.drop_first();
        lemma_assoc(text_bytes(a[0]), joined_texts(x), s);
        lemma_assoc(text_bytes(b[0]), joined_texts(y), t);
        lemma_text(a[0], joined_texts(x) + s, b[0], joined_texts(y) + t);
        lemma_joined_texts(x, s, y, t);
        assert(a =~= seq![a[0]] + x);
        assert(b =~= seq![b[0]] + y);
    }
}

proof fn lemma_text_list(a: Seq<Seq<char>>, s: Seq<u8>, b: Seq<Seq<char>>, t: Seq<u8>)
    requires
        texts_fit(a),
        texts_fit(b),
        text_list_bytes(a) + s == text_list_bytes(b) + t,
    ensures
        a == b,
        s == t,
{
    assert(text_list_bytes(a) + s =~= length_bytes(a.len()) + (joined_texts(a) + s));
    assert(text_list_bytes(b) + t =~= length_bytes(b.len()) + (joined_texts(b) + t));
    lemma_length(a.len(), joined_texts(a) + s, b.len(), joined_texts(b) + t);
    lemma_joined_texts(a, s, b, t);
}

proof fn lemma_two_texts(
    a1: Seq<char>,
    a2: Seq<char>,
    s: Seq<u8>,
    b1: Seq<char>,
    b2: Seq<char>,
    t: Seq<u8>,
)
    requires
        text_fits(a1),
        text_fits(a2),
        text_fits(b1),
        text_fits(b2),
        (text_bytes(a1) + text_bytes(a2)) + s == (text_bytes(b1) + text_bytes(b2)) + t,
    ensures
        a1 == b1,
        a2 == b2,
        s == t,
{
    assert((text_bytes(a1) + text_bytes(a2)) + s =~= text_bytes(a1) + (text_bytes(a2) + s));
    assert((text_bytes(b1) + text_bytes(b2)) + t =~= text_bytes(b1) + (text_bytes(b2) + t));
    lemma_text(a1, text_bytes(a2) + s, b1, text_bytes(b2) + t);
    lemma_text(a2, s, b2, t);
}

proof fn lemma_builtin(a: BuiltinModel, s: Seq<u8>, b: BuiltinModel, t: Seq<u8>)
    requires
        builtin_fits(a),
        builtin_fits(b),
        builtin_bytes(a) + s == builtin_bytes(b) + t,
    ensures
        a == b,
        s == t,
{
    lemma_tag(builtin_tag(a), builtin_body(a), s, builtin_tag(b), builtin_body(b), t);
    match (a, b) {
        (BuiltinModel::Pwd, BuiltinModel::Pwd) | (BuiltinModel::Env, BuiltinModel::Env) => {
            assert(builtin_body(a) + s =~= s);
            assert(builtin_body(b) + t =~= t);
        },
        (BuiltinModel::Cd(x), BuiltinModel::Cd(y)) => lemma_text(x, s, y, t),
        (BuiltinModel::Ls(x), BuiltinModel::Ls(y)) => lemma_text(x, s, y, t),
        (BuiltinModel::Cat(x), BuiltinModel::Cat(y)) => lemma_text(x, s, y, t),
        (BuiltinModel::Mkdir(x), BuiltinModel::Mkdir(y)) => lemma_text(x, s, y, t),
        (BuiltinModel::Remove(x), BuiltinModel::Remove(y)) => lemma_text(x, s, y, t),
        (BuiltinModel::Which(x), BuiltinModel::Which(y)) => lemma_text(x, s, y, t),
        (BuiltinModel::Copy(x1, x2), BuiltinModel::Copy(y1, y2)) => {
            lemma_two_texts(x1, x2, s, y1, y2, t)
        },
        (BuiltinModel::Move(x1, x2), BuiltinModel::Move(y1, y2)) => {
            lemma_two_texts(x1, x2, s, y1, y2, t)
        },
        (BuiltinModel::Echo(x), BuiltinModel::Echo(y)) => lemma_text_list(x, s, y, t),
        (BuiltinModel::Export(x, v), BuiltinModel::Export(y, w)) => {
            let p: Seq<u8> = match v {
                Some(value) => seq![1u8] + text_bytes(value),
                None => seq![0u8],
            };
            let q: Seq<u8> = match w {
                Some(value) => seq![1u8] + text_bytes(value),
                None => seq![0u8],
            };
            assert(builtin_body(a) + s =~= text_bytes(x) + (p + s));
            assert(builtin_body(b) + t =~= text_bytes(y) + (q + t));
            lemma_text(x, p + s, y, q + t);
            assert((p + s)[0] == p[0]);
            assert((q + t)[0] == q[0]);
            match (v, w) {
                (Some(f), Some(g)) => {
                    lemma_tag(1u8, text_bytes(f), s, 1u8, text_bytes(g), t);
                    lemma_text(f, s, g, t);
                },
                (None, None) => lemma_cut(p, s, q, t),
                _ => {
                    assert(false);
                },
            }
        },
        _ => {
            assert(false);
        },
    }
}

proof fn lemma_program(a: ProgramModel, s: Seq<u8>, b: ProgramModel, t: Seq<u8>)
    requires
        program_fits(a),
        program_fits(b),
        program_bytes(a) + s == program_bytes(b) + t,
    ensures
        a == b,
        s == t,
{
    lemma_tag(program_tag(a), program_body(a), s, program_tag(b), program_body(b), t);
    match (a, b) {
        (ProgramModel::Builtin(x), ProgramModel::Builtin(y)) => lemma_builtin(x, s, y, t),
        (ProgramModel::External(x), ProgramModel::External(y)) => lemma_text(x, s, y, t),
        (ProgramModel::WasiComponent(x), ProgramModel::WasiComponent(y)) => lemma_text(x, s, y, t),
        (ProgramModel::NativeShell(x), ProgramModel::NativeShell(y)) => {
            lemma_cut(program_body(a), s, program_body(b), t);
            assert(program_body(a)[0] == program_body(b)[0]);
        },
        _ => {
            assert(false);
        },
    }
}

proof fn lemma_redirect(a: RedirectModel, s: Seq<u8>, b: RedirectModel, t: Seq<u8>)
    requires
        text_fits(redirect_path(a)),
        text_fits(redirect_path(b)),
        redirect_bytes(a) + s == redirect_bytes(b) + t,
    ensures
        a == b,
        s == t,
{
    let x = redirect_path(a);
    let y = redirect_path(b);
    lemma_tag(redirect_tag(a), text_bytes(x), s, redirect_tag(b), text_bytes(y), t);
    lemma_text(x, s, y, t);
}

proof fn lemma_joined_redirects_first(list: Seq<RedirectModel>)
    requires
        list.len() > 0,
    ensures
        joined_redirects(list) == redirect_bytes(list.first()) + joined_redirects(
            list.drop_first(),
        ),
    decreases list.len(),
{
    let first = redirect_bytes(list.first());
    lemma_nothing(first);
    if list.len() == 1 {
        assert(list.drop_last() == Seq::<RedirectModel>::empty());
        assert(list.drop_first() == Seq::<RedirectModel>::empty());
    } else {
        lemma_joined_redirects_first(list.drop_last());
        assert(list.drop_last().drop_first() == list.drop_first().drop_last());
        lemma_assoc(
            first,
            joined_redirects(list.drop_first().drop_last()),
            redirect_bytes(list.last()),
        );
    }
}

proof fn lemma_joined_redirects(
    a: Seq<RedirectModel>,
    s: Seq<u8>,
    b: Seq<RedirectModel>,
    t: Seq<u8>,
)
    requires
        a.len() == b.len(),
        forall|i: int| 0 <= i < a.len() ==> text_fits(redirect_path(#[trigger] a[i])),
        forall|i: int| 0 <= i < b.len() ==> text_fits(redirect_path(#[trigger] b[i])),
        joined_redirects(a) + s == joined_redirects(b) + t,
    ensures
        a == b,
        s == t,
    decreases a.len(),
{
    if a.len() == 0 {
        lemma_nothing(s);
        lemma_nothing(t);
        assert(a =~= b);
    } else {
        lemma_joined_redirects_first(a);
        lemma_joined_redirects_first(b);
        let x = a.drop_first();
        let y = b.drop_first();
        lemma_assoc(redirect_bytes(a[0]), joined_redirects(x), s);
        lemma_assoc(redirect_bytes(b[0]), joined_redirects(y), t);
        lemma_redirect(a[0], joined_redirects(x) + s, b[0], joined_redirects(y) + t);
        lemma_joined_redirects(x, s, y, t);
        assert(a =~= seq![a[0]] + x);
        assert(b =~= seq![b[0]] + y);
    }
}

proof fn lemma_command(a: CommandModel, s: Seq<u8>, b: CommandModel, t: Seq<u8>)
    requires
        command_fits(a),
        command_fits(b),
        command_bytes(a) + s == command_bytes(b) + t,
    ensures
        a == b,
        s == t,
{
    let a4 = joined_redirects(a.redirects) + s;
    let b4 = joined_redirects(b.redirects) + t;
    let a3 = length_bytes(a.redirects.len()) + a4;
    let b3 = length_bytes(b.redirects.len()) + b4;
    let a2 = text_list_bytes(a.args) + a3;
    let b2 = text_list_bytes(b.args) + b3;
    let a1 = text_bytes(a.cwd) + a2;
    let b1 = text_bytes(b.cwd) + b2;
    lemma_regroup(
        program_bytes(a.program),
        text_bytes(a.cwd),
        text_list_bytes(a.args),
        length_bytes(a.redirects.len()),
        joined_redirects(a.redirects),
        s,
    );
    lemma_regroup(
        program_bytes(b.program),
        text_bytes(b.cwd),
        text_list_bytes(b.args),
        length_bytes(b.redirects.len()),
        joined_redirects(b.redirects),
        t,
    );
    lemma_program(a.program, a1, b.program, b1);
    lemma_text(a.cwd, a2, b.cwd, b2);
    lemma_text_list(a.args, a3, b.args, b3);
    lemma_length(a.redirects.len(), a4, b.redirects.len(), b4);
    lemma_joined_redirects(a.redirects, s, b.redirects, t);
}

proof fn lemma_joined_commands_first(list: Seq<CommandModel>)
    requires
        list.len() > 0,
    ensures
        joined_commands(list) == command_bytes(list.first()) + joined_commands(list.drop_first()),
    decreases list.len(),
{
    let first = command_bytes(list.first());
    lemma_nothing(first);
    if list.len() == 1 {
        assert(list.drop_last() == Seq::<CommandModel>::empty());
        assert(list.drop_first() == Seq::<CommandModel>::empty());
    } else {
        lemma_joined_commands_first(list.drop_last());
        assert(list.drop_last().drop_first() == list.drop_first().drop_last());
        lemma_assoc(
            first,
            joined_commands(list.drop_first().drop_last()),
            command_bytes(list.last()),
        );
    }
}

proof fn lemma_joined_commands(a: Seq<CommandModel>, s: Seq<u8>, b: Seq<CommandModel>, t: Seq<u8>)
    requires
        a.len() == b.len(),
        forall|i: int| 0 <= i < a.len() ==> command_fits(#[trigger] a[i]),
        forall|i: int| 0 <= i < b.len() ==> command_fits(#[trigger] b[i]),
        joined_commands(a) + s == joined_commands(b) + t,
    ensures
        a == b,
        s == t,
    decreases a.len(),
{
    if a.len() == 0 {
        lemma_nothing(s);
        lemma_nothing(t);
        assert(a =~= b);
    } else {
        lemma_joined_commands_first(a);
        lemma_joined_commands_first(b);
        let x = a.drop_first();
        let y = b.drop_first();
        lemma_assoc(command_bytes(a[0]), joined_commands(x), s);
        lemma_assoc(command_bytes(b[0]), joined_commands(y), t);
        lemma_command(a[0], joined_commands(x) + s, b[0], joined_commands(y) + t);
        lemma_joined_commands(x, s, y, t);
        assert(a =~= seq![a[0]] + x);
        assert(b =~= seq![b[0]] + y);
    }
}

proof fn lemma_joined_statements_first(list: Seq<StatementModel>)
    requires
        list.len() > 0,
    ensures
        joined_statements(list) == statement_bytes(list.first()) + joined_statements(
            list.subrange(1, list.len() as int),
        ),
    decreases list.len(),
{
    let first = statement_bytes(list.first());
    let rest = list.subrange(1, list.len() as int);
    lemma_nothing(first);
    if list.len() == 1 {
        assert(list.drop_last() == Seq::<StatementModel>::empty());
        assert(rest == Seq::<StatementModel>::empty());
    } else {
        lemma_joined_statements_first(list.drop_last());
        assert(list.drop_last().subrange(1, list.len() - 1) == rest.drop_last());
        lemma_assoc(first, joined_statements(rest.drop_last()), statement_bytes(list.last()));
    }
}

proof fn lemma_statement(a: StatementModel, s: Seq<u8>, b: StatementModel, t: Seq<u8>)
    requires
        statement_fits(a),
        statement_fits(b),
        statement_bytes(a) + s == statement_bytes(b) + t,
    ensures
        a == b,
        s == t,
    decreases a, 0nat,
{
    lemma_tag(statement_tag(a), statement_body(a), s, statement_tag(b), statement_body(b), t);
    match (a, b) {
        (StatementModel::Command(x), StatementModel::Command(y)) => lemma_command(x, s, y, t),
        (StatementModel::Pipeline(x), StatementModel::Pipeline(y)) => {
            let p = joined_commands(x) + s;
            let q = joined_commands(y) + t;
            lemma_assoc(length_bytes(x.len()), joined_commands(x), s);
            lemma_assoc(length_bytes(y.len()), joined_commands(y), t);
            lemma_length(x.len(), p, y.len(), q);
            lemma_joined_commands(x, s, y, t);
        },
        (StatementModel::And(x1, x2), StatementModel::And(y1, y2)) => {
            let p = statement_bytes(*x2) + s;
            let q = statement_bytes(*y2) + t;
            lemma_assoc(statement_bytes(*x1), statement_bytes(*x2), s);
            lemma_assoc(statement_bytes(*y1), statement_bytes(*y2), t);
            lemma_statement(*x1, p, *y1, q);
            lemma_statement(*x2, s, *y2, t);
        },
        (StatementModel::Or(x1, x2), StatementModel::Or(y1, y2)) => {
            let p = statement_bytes(*x2) + s;
            let q = statement_bytes(*y2) + t;
            lemma_assoc(statement_bytes(*x1), statement_bytes(*x2), s);
            lemma_assoc(statement_bytes(*y1), statement_bytes(*y2), t);
            lemma_statement(*x1, p, *y1, q);
            lemma_statement(*x2, s, *y2, t);
        },
        (StatementModel::Sequence(x), StatementModel::Sequence(y)) => {
            let p = joined_statements(x) + s;
            let q = joined_statements(y) + t;
            lemma_assoc(length_bytes(x.len()), joined_statements(x), s);
            lemma_assoc(length_bytes(y.len()), joined_statements(y), t);
            lemma_length(x.len(), p, y.len(), q);
            lemma_joined_statements(x, s, y, t);
        },
        (StatementModel::Background(x), StatementModel::Background(y)) => {
            lemma_statement(*x, s, *y, t);
        },
        _ => {
            assert(false);
        },
    }
}

proof fn lemma_joined_statements(
    a: Seq<StatementModel>,
    s: Seq<u8>,
    b: Seq<StatementModel>,
    t: Seq<u8>,
)
    requires
        a.len() == b.len(),
        statements_fit(a),
        statements_fit(b),
        joined_statements(a) + s == joined_statements(b) + t,
    ensures
        a == b,
        s == t,
    decreases a, 0nat,
{
    if a.len() == 0 {
        lemma_nothing(s);
        lemma_nothing(t);
        assert(a =~= b);
    } else {
        lemma_joined_statements_first(a);
        lemma_joined_statements_first(b);
        let x = a.subrange(1, a.len() as int);
        let y = b.subrange(1, b.len() as int);
        lemma_assoc(statement_bytes(a[0]), joined_statements(x), s);
        lemma_assoc(statement_bytes(b[0]), joined_statements(y), t);
        lemma_statement(a[0], joined_statements(x) + s, b[0], joined_statements(y) + t);
        lemma_joined_statements(x, s, y, t);
        assert(a =~= seq![a[0]] + x);
        assert(b =~= seq![b[0]] + y);
    }
}

proof fn lemma_statement_lists(a: Seq<StatementModel>, b: Seq<StatementModel>)
    requires
        statements_fit(a),
        statements_fit(b),
        joined_statements(a) == joined_statements(b),
    ensures
        a == b,
    decreases a.len(),
{
    if a.len() > 0 {
        lemma_joined_statements_first(a);
    }
    if b.len() > 0 {
        lemma_joined_statements_first(b);
    }
    if a.len() > 0 && b.len() > 0 {
        let x = a.subrange(1, a.len() as int);
        let y = b.subrange(1, b.len() as int);
        lemma_statement(a[0], joined_statements(x), b[0], joined_statements(y));
        lemma_statement_lists(x, y);
        assert(a =~= seq![a[0]] + x);
        assert(b =~= seq![b[0]] + y);
    } else {
        assert(a =~= b);
    }
}

/// The canonical encoding tells plans apart: two plans with the same bytes are
/// the same plan, down to every program, argument, redirection and working
/// directory. (Lengths are kept modulo 2^32, so the law leaves out plans with
/// a text or a list of 2^32 bytes or items and more.)
pub proof fn encoding_is_injective(a: Seq<StatementModel>, b: Seq<StatementModel>)
    requires
        statements_fit(a),
        statements_fit(b),
        plan_bytes(a) == plan_bytes(b),
    ensures
        a == b,
{
    lemma_cut(header(), joined_statements(a), header(), joined_statements(b));
    lemma_statement_lists(a, b);
}

/// A digest binds to the exact plan: two plans with the same digest are the
/// same plan, unless their encodings are a collision of SHA-256. (Plans with a
/// text or a list of 2^32 bytes or items and more are left out.)
pub proof fn digests_bind_to_the_plan(a: Seq<StatementModel>, b: Seq<StatementModel>)
    requires
        statements_fit(a),
        statements_fit(b),
        shell_ir::sha256(plan_bytes(a)) == shell_ir::sha256(plan_bytes(b)),
    ensures
        a == b || plan_bytes(a) != plan_bytes(b),
{
    if plan_bytes(a) == plan_bytes(b) {
        encoding_is_injective(a, b);
    }
}

} // verus!
