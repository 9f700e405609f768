//! How plans end: which statement runs next, and which status, exit code and
//! effects a plan reports.

use vstd::prelude::*;
use crate::shell_executor;
use crate::shell_executor::{OutcomeModel, PlanStatus, Walk};
use crate::shell_ir::StatementModel;

verus! {

/// A plan whose last statement exited reports exactly the code of that
/// statement, whatever the statements before it reported. One that failed or was
/// denied reports its own code, or 1 where it has none; after any other end the
/// code before it stands.
pub proof fn plans_report_the_code_of_their_last_statement(
    before: Seq<StatementModel>,
    last: StatementModel,
    outcomes: Seq<OutcomeModel>,
    reported: Option<i32>,
    from: int,
    status: PlanStatus,
    code: Option<i32>,
    used: int,
)
    requires
        shell_executor::walk_plan(before, outcomes) matches Walk::Over(
            ended,
            earlier,
            next,
        ) && ended != PlanStatus::Cancelled && ended != PlanStatus::Denied && earlier == reported
            && next == from,
        shell_executor::walk(last, outcomes, from) == Walk::Over(status, code, used),
    ensures
        shell_executor::walk_plan(before.push(last), outcomes) == Walk::Over(
            status,
            match status {
                PlanStatus::Exited => code,
                PlanStatus::Failed | PlanStatus::Denied => if code is Some {
                    code
                } else {
                    Some(1i32)
                },
                _ => reported,
            },
            used,
        ),
{
    assert(before.push(last).drop_last() =~= before);
}

/// A statement that was cancelled or denied ends the plan at once: nothing that
/// is written behind it runs, and the plan ends as it did.
pub proof fn denied_plans_run_nothing_more(
    before: Seq<StatementModel>,
    behind: Seq<StatementModel>,
    outcomes: Seq<OutcomeModel>,
)
    requires
        shell_executor::walk_plan(before, outcomes) matches Walk::Over(status, _, _) && (status
            == PlanStatus::Cancelled || status == PlanStatus::Denied),
    ensures
        shell_executor::walk_plan(before + behind, outcomes) == shell_executor::walk_plan(
            before,
            outcomes,
        ),
    decreases behind.len(),
{
    if behind.len() == 0 {
        assert(before + behind =~= before);
    } else {
        denied_plans_run_nothing_more(before, behind.drop_last(), outcomes);
        assert((before + behind).drop_last() =~= before + behind.drop_last());
    }
}

/// A plan that waits for a statement waits for it whatever is written behind.
pub proof fn waiting_plans_ignore_what_follows(
    before: Seq<StatementModel>,
    behind: Seq<StatementModel>,
    outcomes: Seq<OutcomeModel>,
)
    requires
        shell_executor::walk_plan(before, outcomes) is Next,
    ensures
        shell_executor::walk_plan(before + behind, outcomes) == shell_executor::walk_plan(
            before,
            outcomes,
        ),
    decreases behind.len(),
{
    if behind.len() == 0 {
        assert(before + behind =~= before);
    } else {
        waiting_plans_ignore_what_follows(before, behind.drop_last(), outcomes);
        assert((before + behind).drop_last() =~= before + behind.drop_last());
    }
}

/// Whether a statement is a command, a pipeline or a background job.
pub open spec fn is_simple(statement: StatementModel) -> bool {
    statement is Command || statement is Pipeline || statement is Background
}

/// Whether an outcome lets a plan go on.
pub open spec fn goes_on(outcome: OutcomeModel) -> bool {
    outcome.status != PlanStatus::Cancelled && outcome.status != PlanStatus::Denied
}

/// A plan of simple statements runs them in order, each once: behind the
/// outcomes of the first `n`, none of which ends the plan, the statement at
/// position `n` runs next, and behind the last there is nothing more.
pub proof fn simple_plans_run_in_order(plan: Seq<StatementModel>, outcomes: Seq<OutcomeModel>)
    requires
        forall|i: int| 0 <= i < plan.len() ==> is_simple(#[trigger] plan[i]),
        outcomes.len() <= plan.len(),
        forall|i: int| 0 <= i < outcomes.len() ==> goes_on(#[trigger] outcomes[i]),
    ensures
        outcomes.len() < plan.len() ==> shell_executor::walk_plan(plan, outcomes) == Walk::Next(
            plan[outcomes.len() as int],
        ),
        outcomes.len() == plan.len() ==> {
            &&& shell_executor::walk_plan(plan, outcomes) matches Walk::Over(status, code, used)
            &&& used == plan.len()
            &&& plan.len() > 0 ==> status == outcomes.last().status
            &&& plan.len() > 0 && outcomes.last().status == PlanStatus::Exited ==> code
                == outcomes.last().exit_code
            &&& plan.len() == 0 ==> status == PlanStatus::Exited && code == Some(0i32)
        },
    decreases plan.len(),
{
    let n = outcomes.len() as int;
    lemma_simple_prefix(plan, outcomes, n);
    let done = plan.take(n);
    if n < plan.len() {
        assert(is_simple(plan[n]));
        assert(plan.take(n + 1).drop_last() =~= done);
        assert(plan.take(n + 1) + plan.skip(n + 1) =~= plan);
        waiting_plans_ignore_what_follows(plan.take(n + 1), plan.skip(n + 1), outcomes);
    } else {
        assert(done =~= plan);
    }
}

proof fn lemma_simple_prefix(plan: Seq<StatementModel>, outcomes: Seq<OutcomeModel>, n: int)
    requires
        forall|i: int| 0 <= i < plan.len() ==> is_simple(#[trigger] plan[i]),
        0 <= n <= outcomes.len() <= plan.len(),
        forall|i: int| 0 <= i < outcomes.len() ==> goes_on(#[trigger] outcomes[i]),
    ensures
        shell_executor::walk_plan(plan.take(n), outcomes) matches Walk::Over(status, code, used)
            && used == n && status != PlanStatus::Cancelled && status != PlanStatus::Denied && (n
            == 0 ==> status == PlanStatus::Exited && code == Some(0i32)) && (n > 0 ==> status
            == outcomes[n - 1].status && (status == PlanStatus::Exited ==> code
            == outcomes[n - 1].exit_code)),
    decreases n,
{
    if n > 0 {
        lemma_simple_prefix(plan, outcomes, n - 1);
        assert(plan.take(n).drop_last() =~= plan.take(n - 1));
        assert(is_simple(plan[n - 1]));
        assert(goes_on(outcomes[n - 1]));
    } else {
        assert(plan.take(0) =~= Seq::empty());
    }
}

/// A sequence runs as a plan does: its statements in order, whatever their exit
/// codes, up to one that is cancelled or denied; it ends as its last statement
/// does, with the code of the one that exited last.
pub proof fn sequences_end_as_their_last_statement(
    before: Seq<StatementModel>,
    last: StatementModel,
    outcomes: Seq<OutcomeModel>,
    i: int,
    reported: Option<i32>,
    from: int,
)
    requires
        shell_executor::walk(StatementModel::Sequence(before), outcomes, i) matches Walk::Over(
            ended,
            earlier,
            next,
        ) && ended != PlanStatus::Cancelled && ended != PlanStatus::Denied && earlier == reported
            && next == from,
    ensures
        match shell_executor::walk(last, outcomes, from) {
            Walk::Over(status, code, used) => shell_executor::walk(
                StatementModel::Sequence(before.push(last)),
                outcomes,
                i,
            ) == Walk::Over(
                status,
                if status == PlanStatus::Exited {
                    code
                } else {
                    reported
                },
                used,
            ),
            Walk::Next(leaf) => shell_executor::walk(
                StatementModel::Sequence(before.push(last)),
                outcomes,
                i,
            ) == Walk::Next(leaf),
        },
{
    let longer = before.push(last);
    assert(longer.drop_last() =~= before);
    assert(longer.last() == last);
    reveal_with_fuel(shell_executor::walk, 3);
    reveal_with_fuel(shell_executor::walk_sequence, 3);
}

/// Whether a statement is made of simple ones by `&&` and `||`.
pub open spec fn is_condition(statement: StatementModel) -> bool
    decreases statement,
{
    match statement {
        StatementModel::And(left, right) | StatementModel::Or(left, right) => is_condition(*left)
            && is_condition(*right),
        StatementModel::Sequence(_) => false,
        _ => true,
    }
}

/// A condition ends exactly as the last thing did that it ran, and runs at
/// least one.
pub proof fn conditions_end_as_what_they_ran_last(
    statement: StatementModel,
    outcomes: Seq<OutcomeModel>,
    i: int,
)
    requires
        is_condition(statement),
        0 <= i <= outcomes.len(),
    ensures
        match shell_executor::walk(statement, outcomes, i) {
            Walk::Over(status, code, used) => {
                &&& i < used <= outcomes.len()
                &&& status == outcomes[used - 1].status
                &&& code == outcomes[used - 1].exit_code
            },
            Walk::Next(leaf) => is_simple(leaf),
        },
    decreases statement,
{
    match statement {
        StatementModel::And(left, right) | StatementModel::Or(left, right) => {
            conditions_end_as_what_they_ran_last(*left, outcomes, i);
            match shell_executor::walk(*left, outcomes, i) {
                Walk::Over(_, _, next) => {
                    conditions_end_as_what_they_ran_last(*right, outcomes, next);
                },
                Walk::Next(_) => {},
            }
        },
        _ => {},
    }
}

/// A plan whose statements are conditions and that is over reports, where what
/// it ran last exited, exactly the code of that.
pub proof fn plans_report_the_code_that_came_last(
    plan: Seq<StatementModel>,
    outcomes: Seq<OutcomeModel>,
)
    requires
        forall|i: int| 0 <= i < plan.len() ==> is_condition(#[trigger] plan[i]),
        plan.len() > 0,
    ensures
        shell_executor::walk_plan(plan, outcomes) matches Walk::Over(status, code, used) ==> {
            &&& 0 < used <= outcomes.len()
            &&& status == outcomes[used - 1].status
            &&& status == PlanStatus::Exited ==> code == outcomes[used - 1].exit_code
            &&& status == PlanStatus::Failed || status == PlanStatus::Denied ==> code == if (
            outcomes[used - 1].exit_code is Some) {
                outcomes[used - 1].exit_code
            } else {
                Some(1i32)
            }
        },
    decreases plan.len(),
{
    let rest = plan.drop_last();
    assert(is_condition(plan[plan.len() - 1]));
    assert forall|i: int| 0 <= i < rest.len() implies is_condition(#[trigger] rest[i]) by {
        assert(rest[i] == plan[i]);
    }
    if rest.len() > 0 {
        plans_report_the_code_that_came_last(rest, outcomes);
    }
    match shell_executor::walk_plan(rest, outcomes) {
        Walk::Over(_, _, next) => {
            conditions_end_as_what_they_ran_last(plan.last(), outcomes, next);
        },
        Walk::Next(_) => {},
    }
}

/// The effects of a plan are those of all that it ran, in the order in which it
/// ran, none lost and none added.
pub proof fn effects_are_kept_in_order(outcomes: Seq<OutcomeModel>)
    ensures
        shell_executor::effects_of(outcomes) == outcomes.map_values(
            |outcome: OutcomeModel| outcome.effects,
        ).flatten(),
    decreases outcomes.len(),
{
    let lists = outcomes.map_values(|outcome: OutcomeModel| outcome.effects);
    if outcomes.len() > 0 {
        effects_are_kept_in_order(outcomes.drop_last());
        let rest = outcomes.drop_last().map_values(|outcome: OutcomeModel| outcome.effects);
        assert(rest =~= lists.drop_last());
        lists.lemma_flatten_and_flatten_alt_are_equivalent();
        rest.lemma_flatten_and_flatten_alt_are_equivalent();
        assert(lists.flatten_alt() == lists.drop_last().flatten_alt() + lists.last());
        assert(lists.last() == outcomes.last().effects);
    } else {
        assert(lists =~= Seq::empty());
        assert(lists.flatten() =~= Seq::empty());
    }
}

/// The audit identifier of a plan names its session and nothing else.
pub proof fn audit_identifiers_name_the_session(session: u64, other: u64)
    ensures
        shell_executor::audit_id(session) / 0x1_0000_0000_0000_0000u128 == session,
        shell_executor::audit_id(session) % 0x1_0000_0000_0000_0000u128 == 0x5E11,
        shell_executor::audit_id(session) == shell_executor::audit_id(other) ==> session == other,
{
}

/// Behind a command, `&&` goes on exactly where the command exited with code
/// zero, and `||` exactly where it did not; else the command is what the whole
/// ends as.
pub proof fn conditions_look_at_the_exit_code(
    left: StatementModel,
    right: StatementModel,
    outcomes: Seq<OutcomeModel>,
    i: int,
)
    requires
        left is Command || left is Pipeline || left is Background,
        0 <= i < outcomes.len(),
    ensures
        ({
            let came = outcomes[i];
            let well = came.status == PlanStatus::Exited && came.exit_code == Some(0i32);
            let over = Walk::Over(came.status, came.exit_code, i + 1);
            let both = StatementModel::And(Box::new(left), Box::new(right));
            let either = StatementModel::Or(Box::new(left), Box::new(right));
            &&& well ==> shell_executor::walk(both, outcomes, i) == shell_executor::walk(
                right,
                outcomes,
                i + 1,
            ) && shell_executor::walk(either, outcomes, i) == over
            &&& !well ==> shell_executor::walk(both, outcomes, i) == over && shell_executor::walk(
                either,
                outcomes,
                i,
            ) == shell_executor::walk(right, outcomes, i + 1)
        }),
{
    reveal_with_fuel(shell_executor::walk, 2);
}

} // verus!
