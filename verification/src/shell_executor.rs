//! The Ferrous Shell IR executor.
//!
//! [`ShellExecutor`] interprets a typed [`ShellProgram`] against a persistent
//! session. Execution rules:
//!
//! - builtins run in-process;
//! - external programs run by direct argv through the native policy adapter
//!   (never through an intermediate shell);
//! - WASI components run through an embedded runtime;
//! - pipelines run stages over bounded channels;
//! - `&&` and `||` short-circuit on exact exit status;
//! - redirections target capability-checked session files;
//! - background jobs are owned by the session and killed on close.
//!
//! The executor is the *only* code path that turns IR into side effects. It
//! never constructs a shell command string and never falls back to ambient
//! execution. It decides what is to run next; the program around the library
//! runs it and hands the outcome back.
//!
//! # Known limits
//!
//! - WASI components in pipelines do not receive the previous stage's stdin;
//!   builtins and native stages do.
//! - Background job output is not streamed to the interactive sink; the exit
//!   code is recorded on the job handle.

use vstd::prelude::*;
use crate::command::{CommandError, CommandFault, CommandRequest, SessionEvent};
use crate::native::{NativeError, NativeFault};
use crate::shell_ir;
use crate::shell_ir::{ShellProgram, Statement, StatementModel};
use crate::terminal_session::{SessionError, SessionFault};
use crate::text;

pub use crate::host_action::AppendMode;

verus! {

/// How a plan ended.
#[derive(Clone, Copy, Debug, PartialEq, Eq, Structural)]
pub enum PlanStatus {
    /// A background job is still running.
    Running,
    /// The plan completed with an exit code.
    Exited,
    /// The plan failed before reaching an exit code.
    Failed,
    /// The plan was cancelled.
    Cancelled,
    /// The plan was denied by policy or the authority.
    Denied,
}

/// One recorded effect of a plan, for the audit trail.
#[derive(Debug, PartialEq, Eq)]
pub struct EffectRecord {
    /// Kind of effect (`builtin`, `native`, `wasi`).
    pub kind: &'static str,
    /// Target of the effect (path, host, or program name).
    pub target: String,
    /// Whether the effect ran under an explicit approval.
    pub approved: bool,
}

/// What an [`EffectRecord`] denotes.
pub struct EffectModel {
    /// Kind of effect.
    pub kind: &'static str,
    /// Target of the effect.
    pub target: Seq<char>,
    /// Whether it was approved.
    pub approved: bool,
}

impl View for EffectRecord {
    type V = EffectModel;

    open spec fn view(&self) -> EffectModel {
        EffectModel { kind: self.kind, target: self.target@, approved: self.approved }
    }
}

impl Clone for EffectRecord {
    fn clone(&self) -> (r: Self)
        ensures
            r@ == self@,
    {
        EffectRecord {
            kind: self.kind,
            target: self.target.clone(),
            approved: self.approved,
        }
    }
}

/// What a list of effects denotes.
pub open spec fn effect_models(list: Seq<EffectRecord>) -> Seq<EffectModel> {
    Seq::new(list.len(), |i: int| list[i]@)
}

/// The result of executing one plan.
#[derive(Debug, PartialEq, Eq)]
pub struct PlanResult {
    /// How the plan ended.
    pub status: PlanStatus,
    /// Exit code when the plan reached one.
    pub exit_code: Option<i32>,
    /// Recorded effects in execution order.
    pub effects: Vec<EffectRecord>,
    /// Deterministic audit identifier for this plan execution.
    pub audit_id: u128,
}

/// Errors produced while executing a plan.
#[derive(Debug, PartialEq, Eq)]
pub enum ExecuteError {
    /// The IR was structurally invalid.
    InvalidPlan(&'static str),
    /// The command needs authority the session does not hold.
    Denied(String),
    /// The native backend rejected the command.
    Native(NativeError),
    /// The command request was rejected at construction.
    Command(CommandError),
    /// The filesystem rejected an executor operation.
    Io(String),
    /// The session rejected the operation.
    Session(SessionError),
    /// The WASI backend rejected the command.
    Wasi(String),
    /// The event sink rejected an event.
    Sink(String),
    /// The command needs human approval that was not granted.
    RequiresApproval,
    /// The command was denied by the human authority.
    HumanDenied,
}

/// What an [`ExecuteError`] denotes.
pub enum ExecuteFault {
    /// The IR was structurally invalid.
    InvalidPlan(&'static str),
    /// The session does not hold the authority.
    Denied(Seq<char>),
    /// The native backend rejected the command.
    Native(NativeFault),
    /// The command request was rejected.
    Command(CommandFault),
    /// The filesystem rejected an operation.
    Io(Seq<char>),
    /// The session rejected the operation.
    Session(SessionFault),
    /// The WASI backend rejected the command.
    Wasi(Seq<char>),
    /// The event sink rejected an event.
    Sink(Seq<char>),
    /// Human approval is missing.
    RequiresApproval,
    /// The human denied the command.
    HumanDenied,
}

impl View for ExecuteError {
    type V = ExecuteFault;

    open spec fn view(&self) -> ExecuteFault {
        match self {
            ExecuteError::InvalidPlan(reason) => ExecuteFault::InvalidPlan(*reason),
            ExecuteError::Denied(reason) => ExecuteFault::Denied(reason@),
            ExecuteError::Native(error) => ExecuteFault::Native(error@),
            ExecuteError::Command(error) => ExecuteFault::Command(error@),
            ExecuteError::Io(reason) => ExecuteFault::Io(reason@),
            ExecuteError::Session(error) => ExecuteFault::Session(error@),
            ExecuteError::Wasi(reason) => ExecuteFault::Wasi(reason@),
            ExecuteError::Sink(reason) => ExecuteFault::Sink(reason@),
            ExecuteError::RequiresApproval => ExecuteFault::RequiresApproval,
            ExecuteError::HumanDenied => ExecuteFault::HumanDenied,
        }
    }
}

impl ExecuteFault {
    /// The message of an error.
    pub open spec fn message_text(self) -> Seq<char> {
        match self {
            ExecuteFault::InvalidPlan(reason) => "invalid execution plan: "@ + reason@,
            ExecuteFault::Denied(reason) => "denied by capability policy: "@ + reason,
            ExecuteFault::Native(fault) => "native execution failed: "@ + fault.message_text(),
            ExecuteFault::Command(fault) => "invalid command request: "@ + fault.message_text(),
            ExecuteFault::Io(reason) => "filesystem error: "@ + reason,
            ExecuteFault::Session(fault) => "session error: "@ + fault.message_text(),
            ExecuteFault::Wasi(reason) => "WASI execution failed: "@ + reason,
            ExecuteFault::Sink(reason) => "event sink failed: "@ + reason,
            ExecuteFault::RequiresApproval => "command requires human approval"@,
            ExecuteFault::HumanDenied => "command denied by human"@,
        }
    }
}

impl ExecuteError {
    /// A message for people.
    pub fn message(&self) -> (r: String)
        ensures
            r@ == self@.message_text(),
    {
        match self {
            ExecuteError::InvalidPlan(reason) => text::joined("invalid execution plan: ", reason),
            ExecuteError::Denied(reason) => text::joined(
                "denied by capability policy: ",
                reason.as_str(),
            ),
            ExecuteError::Native(error) => text::joined(
                "native execution failed: ",
                error.message().as_str(),
            ),
            ExecuteError::Command(error) => text::joined(
                "invalid command request: ",
                error.message().as_str(),
            ),
            ExecuteError::Io(reason) => text::joined("filesystem error: ", reason.as_str()),
            ExecuteError::Session(error) => text::joined(
                "session error: ",
                error.message().as_str(),
            ),
            ExecuteError::Wasi(reason) => text::joined("WASI execution failed: ", reason.as_str()),
            ExecuteError::Sink(reason) => text::joined("event sink failed: ", reason.as_str()),
            ExecuteError::RequiresApproval => "command requires human approval".to_owned(),
            ExecuteError::HumanDenied => "command denied by human".to_owned(),
        }
    }
}

/// The authority view exposed to the executor.
///
/// The executor can only *ask* whether a command may run; it cannot
/// authorize, mint, or widen anything itself.
pub trait ApprovalAuthorityView {
    /// Whether a native external command may run.
    ///
    /// # Errors
    ///
    /// Returns [`ExecuteError::HumanDenied`] or
    /// [`ExecuteError::RequiresApproval`] when the command needs (or was
    /// refused) human approval.
    fn authorize_native(&self, request: &CommandRequest) -> Result<(), ExecuteError>;
}

/// A sink that accepts session events produced by execution.
pub trait EventSink {
    /// Emit one event.
    ///
    /// # Errors
    ///
    /// Returns an error if the sink cannot accept the event.
    fn emit(&mut self, event: SessionEvent) -> Result<(), ExecuteError>;
}

/// An [`EventSink`] that records events in a [`Vec`].
#[derive(Debug)]
pub struct VecSink {
    /// Recorded events.
    pub events: Vec<SessionEvent>,
}

impl Default for VecSink {
    fn default() -> (r: Self)
        ensures
            r.events@.len() == 0,
    {
        VecSink { events: Vec::new() }
    }
}

impl EventSink for VecSink {
    fn emit(&mut self, event: SessionEvent) -> (r: Result<(), ExecuteError>)
        ensures
            r is Ok,
            final(self).events@ == old(self).events@.push(event),
    {
        self.events.push(event);
        Ok(())
    }
}

/// An authority that denies every native command (default for untrusted runs).
#[derive(Debug)]
pub struct DenyNative;

impl ApprovalAuthorityView for DenyNative {
    fn authorize_native(&self, _request: &CommandRequest) -> (r: Result<(), ExecuteError>)
        ensures
            r == Err::<(), ExecuteError>(ExecuteError::RequiresApproval),
    {
        Err(ExecuteError::RequiresApproval)
    }
}

/// How one command, pipeline or background job of a plan came out.
#[derive(Debug, PartialEq, Eq)]
pub struct Outcome {
    /// How it ended.
    pub status: PlanStatus,
    /// Its exit code, when it reached one.
    pub exit_code: Option<i32>,
    /// Its effects.
    pub effects: Vec<EffectRecord>,
}

/// What an [`Outcome`] denotes.
pub struct OutcomeModel {
    /// How it ended.
    pub status: PlanStatus,
    /// Its exit code.
    pub exit_code: Option<i32>,
    /// Its effects.
    pub effects: Seq<EffectModel>,
}

impl View for Outcome {
    type V = OutcomeModel;

    open spec fn view(&self) -> OutcomeModel {
        OutcomeModel {
            status: self.status,
            exit_code: self.exit_code,
            effects: effect_models(self.effects@),
        }
    }
}

/// What a list of outcomes denotes.
pub open spec fn outcome_models(list: Seq<Outcome>) -> Seq<OutcomeModel> {
    Seq::new(list.len(), |i: int| list[i]@)
}

/// How far some outcomes carry a statement: what has to run next, or how it
/// ended and how many outcomes it took.
pub enum Walk {
    /// This command, pipeline or background job has to run.
    Next(StatementModel),
    /// The statement is over.
    Over(PlanStatus, Option<i32>, int),
}

/// The exit status that lets `&&` go on.
pub open spec fn succeeded(status: PlanStatus, code: Option<i32>) -> bool {
    status == PlanStatus::Exited && code == Some(0i32)
}

/// The status that ends a plan at once.
pub open spec fn stops(status: PlanStatus) -> bool {
    status == PlanStatus::Cancelled || status == PlanStatus::Denied
}

/// How far the outcomes from position `i` on carry a statement.
///
/// `&&` runs its right side only after success, `||` only after anything else;
/// a sequence goes on whatever the exit status, and keeps the code of what
/// last exited.
pub open spec fn walk(statement: StatementModel, outcomes: Seq<OutcomeModel>, i: int) -> Walk
    decreases statement, 0nat,
{
    match statement {
        StatementModel::And(left, right) => match walk(*left, outcomes, i) {
            Walk::Over(status, code, next) => if succeeded(status, code) {
                walk(*right, outcomes, next)
            } else {
                Walk::Over(status, code, next)
            },
            waiting => waiting,
        },
        StatementModel::Or(left, right) => match walk(*left, outcomes, i) {
            Walk::Over(status, code, next) => if succeeded(status, code) {
                Walk::Over(status, code, next)
            } else {
                walk(*right, outcomes, next)
            },
            waiting => waiting,
        },
        StatementModel::Sequence(list) => walk_sequence(list, outcomes, i),
        _ => if 0 <= i < outcomes.len() {
            Walk::Over(outcomes[i].status, outcomes[i].exit_code, i + 1)
        } else {
            Walk::Next(statement)
        },
    }
}

/// How far the outcomes from position `i` on carry a sequence.
pub open spec fn walk_sequence(
    list: Seq<StatementModel>,
    outcomes: Seq<OutcomeModel>,
    i: int,
) -> Walk
    decreases list, 0nat,
{
    if list.len() == 0 {
        Walk::Over(PlanStatus::Exited, Some(0i32), i)
    } else {
        match walk_sequence(list.drop_last(), outcomes, i) {
            Walk::Over(status, code, next) => if stops(status) {
                Walk::Over(status, code, next)
            } else {
                match walk(list.last(), outcomes, next) {
                    Walk::Over(new_status, new_code, next) => Walk::Over(
                        new_status,
                        if new_status == PlanStatus::Exited {
                            new_code
                        } else {
                            code
                        },
                        next,
                    ),
                    waiting => waiting,
                }
            },
            waiting => waiting,
        }
    }
}

/// How far some outcomes carry a plan: like a sequence, but a denied or failed
/// statement leaves its own code behind, or 1 where it has none.
pub open spec fn walk_plan(plan: Seq<StatementModel>, outcomes: Seq<OutcomeModel>) -> Walk
    decreases plan.len(),
{
    if plan.len() == 0 {
        Walk::Over(PlanStatus::Exited, Some(0i32), 0)
    } else {
        match walk_plan(plan.drop_last(), outcomes) {
            Walk::Over(status, code, next) => if stops(status) {
                Walk::Over(status, code, next)
            } else {
                match walk(plan.last(), outcomes, next) {
                    Walk::Over(new_status, new_code, next) => Walk::Over(
                        new_status,
                        plan_code(code, new_status, new_code),
                        next,
                    ),
                    waiting => waiting,
                }
            },
            waiting => waiting,
        }
    }
}

/// The exit code of a plan after a statement of it.
pub open spec fn plan_code(before: Option<i32>, status: PlanStatus, code: Option<i32>) -> Option<
    i32,
> {
    if status == PlanStatus::Exited {
        code
    } else if status == PlanStatus::Denied || status == PlanStatus::Failed {
        match code {
            Some(code) => Some(code),
            None => Some(1i32),
        }
    } else {
        before
    }
}

/// The effects of some outcomes, in order.
pub open spec fn effects_of(outcomes: Seq<OutcomeModel>) -> Seq<EffectModel>
    decreases outcomes.len(),
{
    if outcomes.len() == 0 {
        Seq::empty()
    } else {
        effects_of(outcomes.drop_last()) + outcomes.last().effects
    }
}

/// The audit identifier of the plans of a session.
pub open spec fn audit_id(session_id: u64) -> u128 {
    (session_id * 0x1_0000_0000_0000_0000 + 0x5E11) as u128
}

/// How far some outcomes carry a statement.
#[derive(Debug, PartialEq, Eq)]
pub enum Progress<'a> {
    /// This command, pipeline or background job has to run next.
    Next(&'a Statement),
    /// The statement is over, with a status and an exit code; the outcomes from
    /// this position on are not its own.
    Over(PlanStatus, Option<i32>, usize),
}

impl<'a> View for Progress<'a> {
    type V = Walk;

    open spec fn view(&self) -> Walk {
        match self {
            Progress::Next(statement) => Walk::Next(statement.model()),
            Progress::Over(status, code, next) => Walk::Over(*status, *code, *next as int),
        }
    }
}

/// A walk never takes more outcomes than there are.
proof fn lemma_walk_bounds(statement: StatementModel, outcomes: Seq<OutcomeModel>, i: int)
    requires
        0 <= i <= outcomes.len(),
    ensures
        match walk(statement, outcomes, i) {
            Walk::Over(_, _, next) => i <= next <= outcomes.len(),
            Walk::Next(_) => true,
        },
    decreases statement, 0nat,
{
    match statement {
        StatementModel::And(left, right) | StatementModel::Or(left, right) => {
            lemma_walk_bounds(*left, outcomes, i);
            match walk(*left, outcomes, i) {
                Walk::Over(_, _, next) => lemma_walk_bounds(*right, outcomes, next),
                Walk::Next(_) => {},
            }
        },
        StatementModel::Sequence(list) => lemma_walk_sequence_bounds(list, outcomes, i),
        _ => {},
    }
}

proof fn lemma_walk_sequence_bounds(
    list: Seq<StatementModel>,
    outcomes: Seq<OutcomeModel>,
    i: int,
)
    requires
        0 <= i <= outcomes.len(),
    ensures
        match walk_sequence(list, outcomes, i) {
            Walk::Over(_, _, next) => i <= next <= outcomes.len(),
            Walk::Next(_) => true,
        },
    decreases list, 0nat,
{
    if list.len() > 0 {
        lemma_walk_sequence_bounds(list.drop_last(), outcomes, i);
        match walk_sequence(list.drop_last(), outcomes, i) {
            Walk::Over(_, _, next) => lemma_walk_bounds(list.last(), outcomes, next),
            Walk::Next(_) => {},
        }
    }
}

/// A sequence that waits or stops early does so whatever follows.
proof fn lemma_sequence_decided(
    list: Seq<StatementModel>,
    k: int,
    outcomes: Seq<OutcomeModel>,
    i: int,
)
    requires
        0 < k <= list.len(),
        match walk_sequence(list.take(k), outcomes, i) {
            Walk::Next(_) => true,
            Walk::Over(status, _, _) => stops(status),
        },
    ensures
        walk_sequence(list, outcomes, i) == walk_sequence(list.take(k), outcomes, i),
    decreases list.len() - k,
{
    if k == list.len() {
        assert(list.take(k) =~= list);
    } else {
        assert(list.take(k + 1).drop_last() =~= list.take(k));
        lemma_sequence_decided(list, k + 1, outcomes, i);
    }
}

/// A plan that waits or stops early does so whatever follows.
proof fn lemma_plan_decided(plan: Seq<StatementModel>, k: int, outcomes: Seq<OutcomeModel>)
    requires
        0 < k <= plan.len(),
        match walk_plan(plan.take(k), outcomes) {
            Walk::Next(_) => true,
            Walk::Over(status, _, _) => stops(status),
        },
    ensures
        walk_plan(plan, outcomes) == walk_plan(plan.take(k), outcomes),
    decreases plan.len() - k,
{
    if k == plan.len() {
        assert(plan.take(k) =~= plan);
    } else {
        assert(plan.take(k + 1).drop_last() =~= plan.take(k));
        lemma_plan_decided(plan, k + 1, outcomes);
    }
}

/// Whether an exit code is zero.
fn is_zero(code: Option<i32>) -> (r: bool)
    ensures
        r == (code == Some(0i32)),
{
    match code {
        Some(code) => code == 0,
        None => false,
    }
}

/// What a plan has come to: something has to run, or the plan is over.
#[derive(Debug, PartialEq, Eq)]
pub enum PlanStep<'a> {
    /// This command, pipeline or background job has to run next.
    Run(&'a Statement),
    /// The plan is over.
    Finished(PlanResult),
}

/// The executor. Owns the runtime used for WASI components.
#[derive(Debug)]
pub struct ShellExecutor<R> {
    runtime: R,
}

impl<R> ShellExecutor<R> {
    /// The runtime that an executor was created with.
    pub closed spec fn embedded(&self) -> R {
        self.runtime
    }

    /// Create an executor with an embedded runtime.
    pub fn new(runtime: R) -> (r: Self)
        ensures
            r.embedded() == runtime,
    {
        ShellExecutor { runtime }
    }

    /// The embedded runtime (shared with background threads).
    pub fn runtime(&self) -> (r: &R)
        ensures
            *r == self.embedded(),
    {
        &self.runtime
    }

    /// Decide how a statement goes on, given the outcomes of what it has run so
    /// far, in order from position `i` on. `&&` and `||` short-circuit on the exact
    /// exit status of their left side.
    pub fn execute_statement<'a>(
        &self,
        statement: &'a Statement,
        outcomes: &Vec<Outcome>,
        i: usize,
    ) -> (r: Progress<'a>)
        requires
            i <= outcomes.len(),
        ensures
            r@ == walk(statement.model(), outcome_models(outcomes@), i as int),
        decreases statement,
    {
        let ghost all = outcome_models(outcomes@);
        proof {
            lemma_walk_bounds(statement.model(), all, i as int);
        }
        match statement {
            Statement::And(left, right) => {
                proof {
                    lemma_walk_bounds(left.model(), all, i as int);
                }
                match self.execute_statement(left, outcomes, i) {
                    Progress::Over(status, code, next) => {
                        if status == PlanStatus::Exited && is_zero(code) {
                            self.execute_statement(right, outcomes, next)
                        } else {
                            Progress::Over(status, code, next)
                        }
                    },
                    waiting => waiting,
                }
            },
            Statement::Or(left, right) => {
                proof {
                    lemma_walk_bounds(left.model(), all, i as int);
                }
                match self.execute_statement(left, outcomes, i) {
                    Progress::Over(status, code, next) => {
                        if status == PlanStatus::Exited && is_zero(code) {
                            Progress::Over(status, code, next)
                        } else {
                            self.execute_statement(right, outcomes, next)
                        }
                    },
                    waiting => waiting,
                }
            },
            Statement::Sequence(list) => {
                let ghost models = shell_ir::statement_models(list@);
                let mut status = PlanStatus::Exited;
                let mut code: Option<i32> = Some(0);
                let mut next: usize = i;
                let mut k: usize = 0;
                proof {
                    shell_ir::lemma_statement_models(list@);
                    assert(models.take(0) =~= Seq::empty());
                }
                while k < list.len()
                    invariant
                        k <= list.len(),
                        i <= outcomes.len(),
                        next <= outcomes.len(),
                        all == outcome_models(outcomes@),
                        models == shell_ir::statement_models(list@),
                        models.len() == list@.len(),
                        forall|j: int|
                            0 <= j < list@.len() ==> #[trigger] models[j] == list@[j].model(),
                        !stops(status),
                        walk_sequence(models.take(k as int), all, i as int) == Walk::Over(
                            status,
                            code,
                            next as int,
                        ),
                        statement matches Statement::Sequence(inner) && inner == list,
                    decreases list.len() - k,
                {
                    proof {
                        assert(models.take(k + 1).drop_last() =~= models.take(k as int));
                        assert(models.take(k + 1).last() == list@[k as int].model());
                        lemma_walk_bounds(list@[k as int].model(), all, next as int);
                    }
                    match self.execute_statement(&list[k], outcomes, next) {
                        Progress::Next(leaf) => {
                            proof {
                                lemma_sequence_decided(models, k + 1, all, i as int);
                            }
                            return Progress::Next(leaf);
                        },
                        Progress::Over(new_status, new_code, new_next) => {
                            status = new_status;
                            if new_status == PlanStatus::Exited {
                                code = new_code;
                            }
                            next = new_next;
                        },
                    }
                    if status == PlanStatus::Cancelled || status == PlanStatus::Denied {
                        proof {
                            lemma_sequence_decided(models, k + 1, all, i as int);
                        }
                        return Progress::Over(status, code, next);
                    }
                    k = k + 1;
                }
                assert(models.take(k as int) =~= models);
                Progress::Over(status, code, next)
            },
            _ => if i < outcomes.len() {
                Progress::Over(outcomes[i].status, outcomes[i].exit_code, i + 1)
            } else {
                Progress::Next(statement)
            },
        }
    }

    /// Decide how a plan of a session goes on, given the outcomes of what it
    /// has run so far, in order.
    pub fn execute<'a>(
        &self,
        program: &'a ShellProgram,
        session_id: u64,
        outcomes: &Vec<Outcome>,
    ) -> (r: PlanStep<'a>)
        ensures
            match walk_plan(program@, outcome_models(outcomes@)) {
                Walk::Next(statement) => r matches PlanStep::Run(leaf) && leaf.model()
                    == statement,
                Walk::Over(status, code, used) => {
                    &&& r matches PlanStep::Finished(result)
                    &&& result.status == status
                    &&& result.exit_code == code
                    &&& effect_models(result.effects@) == effects_of(
                        outcome_models(outcomes@).take(used),
                    )
                    &&& result.audit_id == audit_id(session_id)
                },
            },
    {
        let ghost plan = program@;
        let ghost all = outcome_models(outcomes@);
        let mut status = PlanStatus::Exited;
        let mut code: Option<i32> = Some(0);
        let mut next: usize = 0;
        let mut k: usize = 0;
        proof {
            shell_ir::lemma_statement_models(program.statements@);
            assert(plan.take(0) =~= Seq::empty());
            assert(plan.take(plan.len() as int) =~= plan);
        }
        while k < program.statements.len()
            invariant_except_break
                walk_plan(plan.take(k as int), all) == Walk::Over(status, code, next as int),
                !stops(status),
            invariant
                k <= program.statements.len(),
                next <= outcomes.len(),
                all == outcome_models(outcomes@),
                plan.take(plan.len() as int) == plan,
                plan == shell_ir::statement_models(program.statements@),
                plan.len() == program.statements@.len(),
                forall|j: int|
                    0 <= j < plan.len() ==> #[trigger] plan[j] == program.statements@[j].model(),
            ensures
                walk_plan(plan, all) == Walk::Over(status, code, next as int),
            decreases program.statements.len() - k,
        {
            proof {
                assert(plan.take(k + 1).drop_last() =~= plan.take(k as int));
                assert(plan.take(k + 1).last() == program.statements@[k as int].model());
                lemma_walk_bounds(program.statements@[k as int].model(), all, next as int);
            }
            match self.execute_statement(&program.statements[k], outcomes, next) {
                Progress::Next(leaf) => {
                    proof {
                        lemma_plan_decided(plan, k + 1, all);
                    }
                    return PlanStep::Run(leaf);
                },
                Progress::Over(new_status, new_code, new_next) => {
                    status = new_status;
                    if new_status == PlanStatus::Exited {
                        code = new_code;
                    } else if new_status == PlanStatus::Denied || new_status
                        == PlanStatus::Failed {
                        code = match new_code {
                            Some(code) => Some(code),
                            None => Some(1),
                        };
                    }
                    next = new_next;
                },
            }
            k = k + 1;
            if status == PlanStatus::Cancelled || status == PlanStatus::Denied {
                proof {
                    lemma_plan_decided(plan, k as int, all);
                }
                break;
            }
        }
        let mut effects: Vec<EffectRecord> = Vec::new();
        let mut i: usize = 0;
        assert(all.take(0) =~= Seq::empty());
        assert(effect_models(effects@) =~= Seq::empty());
        while i < next
            invariant
                i <= next <= outcomes.len(),
                all == outcome_models(outcomes@),
                effect_models(effects@) == effects_of(all.take(i as int)),
            decreases next - i,
        {
            append_effects(&mut effects, &outcomes[i].effects);
            i = i + 1;
            assert(all.take(i as int).drop_last() =~= all.take(i - 1));
        }
        PlanStep::Finished(
            PlanResult {
                status,
                exit_code: code,
                effects,
                audit_id: session_id as u128 * 0x1_0000_0000_0000_0000 + 0x5E11,
            },
        )
    }
}

/// Append copies of some effects.
fn append_effects(effects: &mut Vec<EffectRecord>, more: &Vec<EffectRecord>)
    ensures
        effect_models(final(effects)@) == effect_models(old(effects)@) + effect_models(more@),
{
    let ghost before = effect_models(effects@);
    let ghost added = effect_models(more@);
    let mut i: usize = 0;
    assert(before + added.take(0) =~= before);
    while i < more.len()
        invariant
            i <= more.len(),
            added == effect_models(more@),
            effect_models(effects@) == before + added.take(i as int),
        decreases more.len() - i,
    {
        let ghost now = effect_models(effects@);
        let copy = more[i].clone();
        effects.push(copy);
        i = i + 1;
        assert(added.take(i as int) =~= added.take(i - 1).push(added[i - 1]));
        assert(effect_models(effects@) =~= now.push(copy@));
        assert(effect_models(effects@) =~= before + added.take(i as int));
    }
    assert(added.take(i as int) =~= added);
}

/// Pipeline bounds.
#[derive(Clone, Copy, Debug, PartialEq, Eq, Structural)]
pub struct PipelinePolicy {
    /// Maximum number of stages in one pipeline.
    pub max_stages: usize,
    /// Maximum bytes buffered between stages (backpressure bound).
    pub max_buffer_bytes: usize,
    /// Whether binary output may flow through the pipeline.
    pub allow_binary: bool,
}

impl Default for PipelinePolicy {
    fn default() -> (r: Self)
        ensures
            r.max_stages == 64,
            r.max_buffer_bytes == 1_048_576,
            r.allow_binary,
    {
        PipelinePolicy { max_stages: 64, max_buffer_bytes: 1_048_576, allow_binary: true }
    }
}

/// Whether a statement is run as a whole: a command, a pipeline or a
/// background job.
pub open spec fn is_leaf(statement: StatementModel) -> bool {
    statement is Command || statement is Pipeline || statement is Background
}

proof fn lemma_walk_keeps(
    statement: StatementModel,
    outcomes: Seq<OutcomeModel>,
    more: Seq<OutcomeModel>,
    i: int,
)
    requires
        0 <= i <= outcomes.len(),
    ensures
        match walk(statement, outcomes, i) {
            Walk::Over(status, code, next) => walk(statement, outcomes + more, i) == Walk::Over(
                status,
                code,
                next,
            ),
            Walk::Next(leaf) => is_leaf(leaf),
        },
    decreases statement, 0nat,
{
    match statement {
        StatementModel::And(left, right) | StatementModel::Or(left, right) => {
            lemma_walk_keeps(*left, outcomes, more, i);
            lemma_walk_bounds(*left, outcomes, i);
            match walk(*left, outcomes, i) {
                Walk::Over(_, _, next) => lemma_walk_keeps(*right, outcomes, more, next),
                Walk::Next(_) => {},
            }
        },
        StatementModel::Sequence(list) => lemma_walk_sequence_keeps(list, outcomes, more, i),
        _ => {
            if i < outcomes.len() {
                assert((outcomes + more)[i] == outcomes[i]);
            }
        },
    }
}

proof fn lemma_walk_sequence_keeps(
    list: Seq<StatementModel>,
    outcomes: Seq<OutcomeModel>,
    more: Seq<OutcomeModel>,
    i: int,
)
    requires
        0 <= i <= outcomes.len(),
    ensures
        match walk_sequence(list, outcomes, i) {
            Walk::Over(status, code, next) => walk_sequence(list, outcomes + more, i)
                == Walk::Over(status, code, next),
            Walk::Next(leaf) => is_leaf(leaf),
        },
    decreases list, 0nat,
{
    if list.len() > 0 {
        lemma_walk_sequence_keeps(list.drop_last(), outcomes, more, i);
        lemma_walk_sequence_bounds(list.drop_last(), outcomes, i);
        match walk_sequence(list.drop_last(), outcomes, i) {
            Walk::Over(_, _, next) => lemma_walk_keeps(list.last(), outcomes, more, next),
            Walk::Next(_) => {},
        }
    }
}

/// What a plan asks to be run is a command, a pipeline or a background job,
/// and a plan that is over stays as it is: no later outcome changes its
/// status, its exit code or its effects.
pub proof fn finished_plans_stay_finished(
    plan: Seq<StatementModel>,
    outcomes: Seq<OutcomeModel>,
    more: Seq<OutcomeModel>,
)
    ensures
        match walk_plan(plan, outcomes) {
            Walk::Over(status, code, used) => {
                &&& walk_plan(plan, outcomes + more) == Walk::Over(status, code, used)
                &&& 0 <= used <= outcomes.len()
                &&& (outcomes + more).take(used) == outcomes.take(used)
            },
            Walk::Next(leaf) => is_leaf(leaf),
        },
    decreases plan.len(),
{
    if plan.len() > 0 {
        finished_plans_stay_finished(plan.drop_last(), outcomes, more);
        match walk_plan(plan.drop_last(), outcomes) {
            Walk::Over(_, _, next) => {
                lemma_walk_keeps(plan.last(), outcomes, more, next);
                lemma_walk_bounds(plan.last(), outcomes, next);
            },
            Walk::Next(_) => {},
        }
    }
    match walk_plan(plan, outcomes) {
        Walk::Over(_, _, used) => {
            assert((outcomes + more).take(used) =~= outcomes.take(used));
        },
        Walk::Next(_) => {},
    }
}

proof fn lemma_effects_concat(a: Seq<OutcomeModel>, b: Seq<OutcomeModel>)
    ensures
        effects_of(a + b) == effects_of(a) + effects_of(b),
    decreases b.len(),
{
    if b.len() == 0 {
        assert(a + b =~= a);
        assert(effects_of(a) + effects_of(b) =~= effects_of(a));
    } else {
        lemma_effects_concat(a, b.drop_last());
        assert((a + b).drop_last() =~= a + b.drop_last());
        assert((effects_of(a) + effects_of(b.drop_last())) + b.last().effects =~= effects_of(a) + (
        effects_of(b.drop_last()) + b.last().effects));
    }
}

/// `&&` and `||`, as [`ShellExecutor::execute_statement`] runs them,
/// short-circuit on the exact exit status of their left side, wherever they stand in a plan. Where the left side decides, the whole ends as
/// it does, with its effects, and nothing of the right side runs; else the whole
/// goes on and ends as the right side does, with the effects of both.
pub proof fn and_or_short_circuit(
    left: StatementModel,
    right: StatementModel,
    outcomes: Seq<OutcomeModel>,
    i: int,
    status: PlanStatus,
    code: Option<i32>,
    next: int,
)
    requires
        0 <= i <= outcomes.len(),
        walk(left, outcomes, i) == Walk::Over(status, code, next),
    ensures
        ({
            let both = StatementModel::And(Box::new(left), Box::new(right));
            let either = StatementModel::Or(Box::new(left), Box::new(right));
            if status == PlanStatus::Exited && code == Some(0i32) {
                &&& walk(both, outcomes, i) == walk(right, outcomes, next)
                &&& walk(either, outcomes, i) == Walk::Over(status, code, next)
            } else {
                &&& walk(both, outcomes, i) == Walk::Over(status, code, next)
                &&& walk(either, outcomes, i) == walk(right, outcomes, next)
            }
        }),
        i <= next <= outcomes.len(),
        match walk(right, outcomes, next) {
            Walk::Over(_, _, end) => {
                &&& next <= end <= outcomes.len()
                &&& effects_of(outcomes.subrange(i, end)) == effects_of(
                    outcomes.subrange(i, next),
                ) + effects_of(outcomes.subrange(next, end))
            },
            Walk::Next(_) => true,
        },
{
    lemma_walk_bounds(left, outcomes, i);
    lemma_walk_bounds(right, outcomes, next);
    match walk(right, outcomes, next) {
        Walk::Over(_, _, end) => {
            lemma_effects_concat(outcomes.subrange(i, next), outcomes.subrange(next, end));
            assert(outcomes.subrange(i, next) + outcomes.subrange(next, end) =~= outcomes.subrange(
                i,
                end,
            ));
        },
        Walk::Next(_) => {},
    }
}

} // verus!
