//! Background jobs: a statement that runs on a copy of the session.

use vstd::prelude::*;
use crate::cancel::CancelHandle;
use crate::canonical;
use crate::shell_executor;
use crate::shell_executor::{EffectRecord, ExecuteError, ExecuteFault, Outcome, PlanStatus};
use crate::shell_ir;
use crate::shell_ir::{CommandDigest, ShellProgram, Statement, StatementModel};
use crate::terminal_session;
use crate::terminal_session::{
    SessionAction,
    SessionFault,
    SessionModel,
    TerminalSession,
    DEFAULT_MAX_JOBS,
};

verus! {

/// A job that is to be run in the background.
#[derive(Debug)]
pub struct BackgroundJob {
    /// The id under which the session owns it.
    pub id: u64,
    /// The handle that cancels it.
    pub cancel: CancelHandle,
    /// The session it works on: a copy without jobs or a lease.
    pub session: TerminalSession,
}

/// The digest under which a background statement is recorded, in hexadecimal.
pub open spec fn job_digest(statement: StatementModel) -> Seq<char> {
    shell_ir::hex_text(shell_ir::sha256(canonical::plan_bytes(seq![statement])))
}

/// Register a statement as a job of the session and hand out what it runs on.
///
/// The job runs on a snapshot of the session state: the same specification,
/// working directory and overlay, but its own job table. The session owns the
/// job's cancellation handle, so closing the session cancels it.
///
/// # Errors
///
/// Refuses a job of a closed session, or one too many.
pub fn start_background(statement: &Statement, session: &mut TerminalSession) -> (r: Result<
    BackgroundJob,
    ExecuteError,
>)
    ensures
        if old(session)@.closed {
            &&& r is Err
            &&& r->Err_0@ == ExecuteFault::Session(SessionFault::Closed)
            &&& final(session)@ == old(session)@
        } else if old(session)@.jobs.len() >= DEFAULT_MAX_JOBS {
            &&& r is Err
            &&& r->Err_0@ == ExecuteFault::Session(SessionFault::JobTableFull(DEFAULT_MAX_JOBS))
            &&& final(session)@ == old(session)@
        } else {
            let id = old(session)@.next_job_id;
            let jobs = final(session)@.jobs;
            &&& r is Ok
            &&& r->Ok_0.id == id
            &&& jobs == old(session)@.jobs.insert(id, jobs[id])
            &&& jobs[id].digest_hex@ == job_digest(statement.model())
            &&& jobs[id].cancel == r->Ok_0.cancel
            &&& jobs[id].cancel.is_fresh()
            &&& terminal_session::session_step(
                old(session)@,
                SessionAction::RegisterJob(jobs[id]),
                final(session)@,
            )
            &&& jobs[id].exit_code is None
            &&& final(session)@ == (SessionModel {
                jobs,
                next_job_id: final(session)@.next_job_id,
                ..old(session)@
            })
            &&& final(session)@.next_job_id == terminal_session::next_id(id)
            &&& r->Ok_0.session@ == (SessionModel {
                jobs: Map::empty(),
                next_job_id: 0,
                stopped: Map::empty(),
                lease: None,
                closed: false,
                ..old(session)@
            })
        },
{
    let cancel = CancelHandle::new();
    let mut statements: Vec<Statement> = Vec::new();
    let ghost before = statements@;
    let copy = statement.clone();
    statements.push(copy);
    proof {
        assert(statements@.drop_last() =~= before);
        shell_ir::lemma_statement_models(statements@);
        assert(shell_ir::statement_models(statements@) =~= seq![statement.model()]);
    }
    let plan = ShellProgram { statements };
    let digest = CommandDigest::of(&plan).hex();
    match session.register_job(digest, cancel.clone()) {
        Ok(id) => {
            proof {
                let jobs = session@.jobs;
                assert(jobs == old(session)@.jobs.insert(id, jobs[id]));
            }
            Ok(BackgroundJob { id, cancel, session: session.snapshot() })
        },
        Err(error) => Err(ExecuteError::Session(error)),
    }
}

/// The outcome of a statement that went to the background.
pub fn background_outcome() -> (r: Outcome)
    ensures
        r.status == PlanStatus::Running,
        r.exit_code is None,
        r@.effects == Seq::<shell_executor::EffectModel>::empty(),
{
    let effects: Vec<EffectRecord> = Vec::new();
    assert(shell_executor::effect_models(effects@) =~= Seq::empty());
    Outcome { status: PlanStatus::Running, exit_code: None, effects }
}

/// The exit code that is recorded for a job: 1 where it failed or has none.
pub fn background_code(result: &Result<Option<i32>, ExecuteError>) -> (r: i32)
    ensures
        r == match result {
            Ok(Some(code)) => *code,
            _ => 1i32,
        },
{
    match result {
        Ok(Some(code)) => *code,
        _ => 1,
    }
}

} // verus!
