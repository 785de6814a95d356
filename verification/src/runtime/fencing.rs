//! Fencing: only the holder of a lease writes to what it claimed.
use vstd::prelude::*;
use crate::admin::control;
use crate::error;
use crate::error::{DurableError, ErrorModel};
use crate::persistence::models::{
    ActivityAttemptRow, ActivityAttemptRowModel, ActivityRow, ActivityRowModel, WorkflowEventRow,
    WorkflowRow, WorkflowRowModel,
};
use crate::persistence::status;
use crate::persistence::status::{ActivityStatus, WorkflowStatus};
use crate::policy;
use crate::policy::RetryPolicy;
use crate::runtime::activity_worker;
use crate::runtime::activity_worker::{
    attempt_renewed, finish_attempt, renewed_expiry, retry_delay_millis, ActivityClaim, ExecutionOutcome,
    ExecutionOutcomeModel, FinishPlan,
};
use crate::runtime::coordinator;
use crate::runtime::coordinator::{
    commit_transition, fail_activation, ActivationFailure, CommitPlan, CoordinatorConfig,
    WorkflowClaim,
};
use crate::runtime::lease;
use crate::store;
use crate::text::{is_some_text, same_text};
use crate::transition::StoredTransition;

verus! {

/// Whether a claim still holds a workflow.
pub open spec fn holds_workflow(current: Option<WorkflowRowModel>, claim: WorkflowClaim) -> bool {
    current matches Some(row) && row.id == claim.spec_row().id && lease::workflow_fenced(
        row,
        claim.spec_token(),
    )
}

/// Whether a claim still holds an activity: it runs, in the claimed attempt and
/// under the claimed token.
pub open spec fn holds_activity(current: Option<ActivityRowModel>, claim: ActivityClaim) -> bool {
    current matches Some(row) && row.id == claim.spec_row().id && row.attempt_count
        == claim.spec_attempt() && lease::activity_fenced(row, claim.spec_token())
}

/// Whether the attempt of a claim is still open.
pub open spec fn holds_attempt(
    current: Option<ActivityAttemptRowModel>,
    claim: ActivityClaim,
) -> bool {
    current matches Some(row) && row.activity_id == claim.spec_row().id && row.attempt_number
        == claim.spec_attempt() && row.lease_token == claim.spec_token() && row.finished_at is None
}

/// The contents of a row that may be there.
pub open spec fn workflow_of(current: Option<&WorkflowRow>) -> Option<WorkflowRowModel> {
    match current {
        Some(row) => Some(row@),
        None => None,
    }
}

/// The contents of a row that may be there.
pub open spec fn activity_of(current: Option<&ActivityRow>) -> Option<ActivityRowModel> {
    match current {
        Some(row) => Some(row@),
        None => None,
    }
}

/// The contents of a row that may be there.
pub open spec fn attempt_of(current: Option<&ActivityAttemptRow>) -> Option<
    ActivityAttemptRowModel,
> {
    match current {
        Some(row) => Some(row@),
        None => None,
    }
}

/// Whether a claim still holds a workflow.
pub fn is_workflow_held(current: Option<&WorkflowRow>, claim: &WorkflowClaim) -> (held: bool)
    ensures
        held == holds_workflow(workflow_of(current), *claim),
{
    match current {
        Some(row) => row.id == claim.row().id && row.status == WorkflowStatus::Running
            && is_some_text(&row.lease_token, claim.lease_token()),
        None => false,
    }
}

/// Whether a claim still holds an activity.
pub fn is_activity_held(current: Option<&ActivityRow>, claim: &ActivityClaim) -> (held: bool)
    ensures
        held == holds_activity(activity_of(current), *claim),
{
    match current {
        Some(row) => row.id == claim.row().id && row.attempt_count == claim.stored_attempt()
            && row.status == ActivityStatus::Running && is_some_text(
            &row.lease_token,
            claim.lease_token(),
        ),
        None => false,
    }
}

/// Whether the attempt of a claim is still open.
pub fn is_attempt_held(current: Option<&ActivityAttemptRow>, claim: &ActivityClaim) -> (held: bool)
    ensures
        held == holds_attempt(attempt_of(current), *claim),
{
    match current {
        Some(row) => row.activity_id == claim.row().id && row.attempt_number
            == claim.stored_attempt() && same_text(row.lease_token.as_str(), claim.lease_token())
            && row.finished_at.is_none(),
        None => false,
    }
}

/// Commits an activation, unless the claim has lost its workflow. `current` is
/// the locked row, which the commit is written to.
pub fn commit_activation(
    current: Option<&WorkflowRow>,
    claim: &WorkflowClaim,
    event: &WorkflowEventRow,
    transition: StoredTransition,
    config: &CoordinatorConfig,
    now: i64,
) -> (result: Result<CommitPlan, DurableError>)
    ensures
        ({
            let problem = coordinator::commit_error(claim.spec_row(), event@, transition, *config);
            let held = holds_workflow(workflow_of(current), *claim);
            match result {
                Ok(plan) => {
                    &&& problem is None && held
                    &&& coordinator::commit_is(
                        plan,
                        claim.spec_row(),
                        workflow_of(current)->0,
                        event@.delivery_sequence->0,
                        transition,
                        *config,
                        now,
                    )
                },
                Err(error) => match problem {
                    Some(problem) => error@ == problem,
                    None => !held && error@ == ErrorModel::FencedWrite,
                },
            }
        }),
{
    let held = is_workflow_held(current, claim);
    // Without a row nothing is written, but what else is refused comes first.
    let stored = match current {
        Some(row) => row,
        None => claim.row(),
    };
    match commit_transition(claim, stored, event, transition, config, now) {
        Ok(plan) => if held {
            Ok(plan)
        } else {
            Err(DurableError::FencedWrite)
        },
        Err(error) => Err(error),
    }
}

/// Settles a failed activation, unless the claim has lost its workflow.
pub fn record_activation_failure(
    current: Option<&WorkflowRow>,
    claim: &WorkflowClaim,
    config: &CoordinatorConfig,
    message: &str,
    now: i64,
) -> (result: Result<ActivationFailure, DurableError>)
    ensures
        match workflow_of(current) {
            Some(row) => if holds_workflow(Some(row), *claim) {
                let digest = policy::sha256_digest(
                    vstd::utf8::encode_utf8(coordinator::activation_seed(row)),
                );
                let delay = coordinator::activation_delay(
                    row,
                    config.activation_retry_policy.spec_backoff(),
                    policy::percentile_of(digest[0], digest[1]),
                );
                match result {
                    Ok(failure) => delay is Ok && coordinator::activation_failure_is(
                        failure,
                        row,
                        config.max_activation_attempts,
                        delay->Ok_0,
                        message@,
                        now,
                    ),
                    Err(error) => delay == Err::<i64, ErrorModel>(error@),
                }
            } else {
                result matches Err(error) && error@ == ErrorModel::FencedWrite
            },
            None => result matches Err(error) && error@ == ErrorModel::FencedWrite,
        },
{
    if !is_workflow_held(current, claim) {
        return Err(DurableError::FencedWrite);
    }
    match current {
        Some(row) => fail_activation(row.clone(), config, message, now),
        None => Err(DurableError::FencedWrite),
    }
}

/// What renewing a lease writes.
#[derive(Debug)]
pub struct Renewal {
    pub activity: ActivityRow,
    pub attempt: ActivityAttemptRow,
}

/// Whether a renewal is what a heartbeat writes to an activity and its attempt.
pub open spec fn renewal_is(
    renewal: Renewal,
    row: ActivityRowModel,
    attempt: ActivityAttemptRowModel,
    lease_millis: i64,
    now: i64,
) -> bool {
    &&& renewal.activity@ == activity_worker::lease_renewed(row, lease_millis, now)
    &&& renewal.attempt@ == activity_worker::heartbeat_noted(attempt, now)
}

/// Renews the lease of a claimed activity, unless the claim has lost it: `current`
/// and `attempt` are the locked rows of the activity and its attempt.
pub fn heartbeat(
    current: Option<&ActivityRow>,
    attempt: Option<&ActivityAttemptRow>,
    claim: &ActivityClaim,
    now: i64,
) -> (result: Result<Renewal, DurableError>)
    ensures
        ({
            let lease_millis = claim.spec_row().lease_duration_millis;
            let expiry = now + lease_millis;
            let held = holds_activity(activity_of(current), *claim) && holds_attempt(
                attempt_of(attempt),
                *claim,
            );
            match result {
                Ok(renewal) => {
                    &&& i64::MIN <= expiry <= i64::MAX && held
                    &&& renewal_is(
                        renewal,
                        activity_of(current)->0,
                        attempt_of(attempt)->0,
                        lease_millis,
                        now,
                    )
                },
                Err(error) => if i64::MIN <= expiry <= i64::MAX {
                    !held && error@ == ErrorModel::FencedWrite
                } else {
                    error@ == ErrorModel::InvalidState("activity lease overflow"@)
                },
            }
        }),
{
    let expiry: i64 = match renewed_expiry(claim, now) {
        Ok(expiry) => expiry,
        Err(error) => return Err(error),
    };
    if !is_activity_held(current, claim) || !is_attempt_held(attempt, claim) {
        return Err(DurableError::FencedWrite);
    }
    match (current, attempt) {
        (Some(row), Some(attempt)) => {
            let mut activity = row.clone();
            activity.lease_expires_at = Some(expiry);
            activity.updated_at = now;
            Ok(Renewal { activity, attempt: attempt_renewed(attempt.clone(), now) })
        },
        _ => Err(DurableError::FencedWrite),
    }
}

/// Whether a failed attempt is retried.
pub open spec fn is_retried(outcome: ExecutionOutcomeModel, attempt: i32, max_attempts: i32) -> bool {
    outcome is Retryable && attempt < max_attempts
}

/// Why the delay before the retry of an activity cannot be said.
pub open spec fn delay_problem(
    row: ActivityRowModel,
    attempt: i32,
    stored_policy: Result<RetryPolicy, ErrorModel>,
) -> Option<ErrorModel> {
    match stored_policy {
        Err(error) => Some(error),
        Ok(policy) => match activity_worker::retry_delay(
            policy.spec_backoff(),
            attempt,
            activity_worker::retry_seed(row.id, ":retry:"@, attempt),
        ) {
            Err(error) => Some(error),
            Ok(_) => None,
        },
    }
}

/// Why the end of an attempt is refused: its retry cannot be planned, the claim
/// was lost, or it cannot be settled.
pub open spec fn settle_refusal(
    held: bool,
    row: ActivityRowModel,
    attempt: i32,
    workflow: WorkflowRowModel,
    outcome: ExecutionOutcomeModel,
    stored_policy: Result<RetryPolicy, ErrorModel>,
) -> Option<ErrorModel> {
    if is_retried(outcome, attempt, row.max_attempts) && delay_problem(
        row,
        attempt,
        stored_policy,
    ) is Some {
        delay_problem(row, attempt, stored_policy)
    } else if !held {
        Some(ErrorModel::FencedWrite)
    } else {
        activity_worker::finish_error(row, attempt, workflow, outcome, stored_policy)
    }
}

/// Settles how a claimed attempt ended, unless the claim was lost: `current` and
/// `attempt` are the locked rows of the activity and its attempt, and `current` is
/// written to.
pub fn settle_attempt(
    current: Option<&ActivityRow>,
    attempt: Option<&ActivityAttemptRow>,
    claim: &ActivityClaim,
    workflow: WorkflowRow,
    outcome: ExecutionOutcome,
    stored_policy: Result<RetryPolicy, DurableError>,
    now: i64,
) -> (result: Result<FinishPlan, DurableError>)
    ensures
        ({
            let held = holds_activity(activity_of(current), *claim) && holds_attempt(
                attempt_of(attempt),
                *claim,
            );
            let row = claim.spec_row();
            let number = claim.spec_attempt();
            let policy_model = error::result_model(stored_policy);
            let refusal = settle_refusal(held, row, number, workflow@, outcome@, policy_model);
            match result {
                Ok(plan) => refusal is None && held && activity_worker::finish_is(
                    plan,
                    row,
                    activity_of(current)->0,
                    number,
                    workflow@,
                    outcome@,
                    policy_model,
                    now,
                ),
                Err(error) => refusal == Some(error@),
            }
        }),
{
    match current {
        Some(stored) => if is_activity_held(current, claim) && is_attempt_held(attempt, claim) {
            return finish_attempt(claim, stored, workflow, outcome, stored_policy, now);
        },
        None => {},
    }
    match outcome {
        ExecutionOutcome::Retryable { category: _, message: _ } => {
            if claim.stored_attempt() < claim.row().max_attempts {
                match stored_policy {
                    Ok(retry_policy) => match retry_delay_millis(
                        retry_policy,
                        claim.row().id,
                        ":retry:",
                        claim.stored_attempt(),
                    ) {
                        Ok(_) => {},
                        Err(error) => return Err(error),
                    },
                    Err(error) => return Err(error),
                }
            }
        },
        _ => {},
    }
    Err(DurableError::FencedWrite)
}

/// Refuses a write that did not change exactly the one row that it is about.
pub fn ensure_fenced(changed: usize) -> (result: Result<(), DurableError>)
    ensures
        error::result_model(result) == (if changed == 1 {
            Ok(())
        } else {
            Err(ErrorModel::FencedWrite)
        }),
{
    if changed == 1 {
        Ok(())
    } else {
        Err(DurableError::FencedWrite)
    }
}

/// A fresh claim holds its activity.
pub proof fn law_claim_holds_its_activity(
    claim: ActivityClaim,
    row: ActivityRowModel,
    worker_id: Seq<char>,
    now: i64,
)
    requires
        claim.spec_row() == activity_worker::activity_claimed(
            row,
            worker_id,
            claim.spec_token(),
            now,
        ),
        claim.spec_attempt() == row.attempt_count + 1,
    ensures
        holds_activity(Some(claim.spec_row()), claim),
{
}

/// Renewing the lease keeps the claim.
pub proof fn law_renewal_keeps_the_claim(
    claim: ActivityClaim,
    row: ActivityRowModel,
    lease_millis: i64,
    now: i64,
)
    requires
        holds_activity(Some(row), claim),
    ensures
        holds_activity(Some(activity_worker::lease_renewed(row, lease_millis, now)), claim),
{
}

/// Whatever ends an attempt ends its claim: once the lease ran out, the activity
/// ended, is retried, was cancelled or paused, no earlier claim can write to it.
pub proof fn law_ended_attempt_fences_its_claim(
    claim: ActivityClaim,
    row: ActivityRowModel,
    available_at: i64,
    output: Seq<char>,
    category: Seq<char>,
    message: Seq<char>,
    now: i64,
)
    ensures
        !holds_activity(Some(activity_worker::lease_lost(row, available_at, now)), claim),
        !holds_activity(Some(activity_worker::succeeded(row, output, now)), claim),
        !holds_activity(
            Some(activity_worker::retry_scheduled(row, available_at, category, message, now)),
            claim,
        ),
        !holds_activity(Some(activity_worker::dead_lettered(row, category, message, now)), claim),
        !holds_activity(Some(store::activity_cancelled(row, now)), claim),
        !holds_activity(Some(control::activity_paused(row, now)), claim),
{
}

/// A worker whose lease ran out stays fenced out when the activity is claimed
/// again, whatever token the next claim draws.
pub proof fn law_expired_worker_stays_fenced_out(
    stale: ActivityClaim,
    row: ActivityRowModel,
    available_at: i64,
    worker_id: Seq<char>,
    token: Seq<char>,
    reconciled_at: i64,
    now: i64,
)
    requires
        holds_activity(Some(row), stale),
        row.attempt_count < row.max_attempts,
    ensures
        !holds_activity(
            Some(
                activity_worker::activity_claimed(
                    activity_worker::lease_lost(row, available_at, reconciled_at),
                    worker_id,
                    token,
                    now,
                ),
            ),
            stale,
        ),
{
}

/// A claim that has lost its activity cannot settle its attempt.
pub proof fn law_lost_claim_settles_nothing(
    row: ActivityRowModel,
    attempt: i32,
    workflow: WorkflowRowModel,
    outcome: ExecutionOutcomeModel,
    stored_policy: Result<RetryPolicy, ErrorModel>,
)
    ensures
        settle_refusal(false, row, attempt, workflow, outcome, stored_policy) is Some,
{
}

/// An activity that has ended is never claimed again, so a finished activity
/// never runs a second time.
pub proof fn law_ended_activity_is_never_claimed(
    row: ActivityRowModel,
    workflow: WorkflowRowModel,
    now: i64,
)
    requires
        status::activity_ended(row.status),
    ensures
        !activity_worker::activity_claimable(row, workflow, now),
        !activity_worker::reconcilable(row, now),
{
}

/// A running activity is not claimed a second time before its lease runs out.
pub proof fn law_leased_activity_is_not_claimed(
    row: ActivityRowModel,
    workflow: WorkflowRowModel,
    worker_id: Seq<char>,
    token: Seq<char>,
    claimed_at: i64,
    now: i64,
)
    requires
        row.lease_duration_millis > 0,
        claimed_at + row.lease_duration_millis <= i64::MAX,
        claimed_at <= now < claimed_at + row.lease_duration_millis,
    ensures
        ({
            let held = activity_worker::activity_claimed(row, worker_id, token, claimed_at);
            &&& !activity_worker::activity_claimable(held, workflow, now)
            &&& !activity_worker::reconcilable(held, now)
        }),
{
}

/// An activity is leased exactly while it runs: every write keeps this.
pub proof fn law_activity_leases_stay_consistent(
    row: ActivityRowModel,
    lease_millis: i64,
    worker_id: Seq<char>,
    token: Seq<char>,
    available_at: i64,
    output: Seq<char>,
    category: Seq<char>,
    message: Seq<char>,
    now: i64,
)
    requires
        lease::activity_lease_consistent(row),
    ensures
        lease::activity_lease_consistent(
            activity_worker::activity_claimed(row, worker_id, token, now),
        ),
        row.status == ActivityStatus::Running ==> lease::activity_lease_consistent(
            activity_worker::lease_renewed(row, lease_millis, now),
        ),
        lease::activity_lease_consistent(activity_worker::lease_lost(row, available_at, now)),
        lease::activity_lease_consistent(activity_worker::succeeded(row, output, now)),
        lease::activity_lease_consistent(
            activity_worker::retry_scheduled(row, available_at, category, message, now),
        ),
        lease::activity_lease_consistent(
            activity_worker::dead_lettered(row, category, message, now),
        ),
        lease::activity_lease_consistent(store::activity_cancelled(row, now)),
        lease::activity_lease_consistent(control::activity_paused(row, now)),
{
}

/// The number of attempts never exceeds the cap of an activity: a claim is only
/// made within it, and nothing else raises the number.
pub proof fn law_attempts_stay_within_the_cap(
    row: ActivityRowModel,
    registered: bool,
    worker_id: Seq<char>,
    token: Seq<char>,
    now: i64,
)
    requires
        activity_worker::claim_error(row, registered, now) is None,
    ensures
        activity_worker::activity_claimed(row, worker_id, token, now).attempt_count
            <= row.max_attempts,
{
}

/// A retry is only planned while an attempt is left.
pub proof fn law_retry_leaves_an_attempt(
    plan: FinishPlan,
    row: ActivityRowModel,
    stored: ActivityRowModel,
    attempt: i32,
    workflow: WorkflowRowModel,
    outcome: ExecutionOutcomeModel,
    stored_policy: Result<RetryPolicy, ErrorModel>,
    now: i64,
)
    requires
        activity_worker::finish_is(
            plan,
            row,
            stored,
            attempt,
            workflow,
            outcome,
            stored_policy,
            now,
        ),
        plan.next@.status == ActivityStatus::Pending,
    ensures
        attempt < row.max_attempts,
        plan.workflow is None,
{
}

/// A fresh claim holds its workflow.
pub proof fn law_claim_holds_its_workflow(
    claim: WorkflowClaim,
    row: WorkflowRowModel,
    worker_id: Seq<char>,
    expiry: i64,
    now: i64,
)
    requires
        claim.spec_row() == coordinator::claimed(row, worker_id, claim.spec_token(), expiry, now),
    ensures
        holds_workflow(Some(claim.spec_row()), claim),
{
}

/// The row that a committed activation leaves.
pub open spec fn committed_row(plan: CommitPlan) -> WorkflowRowModel {
    match plan {
        CommitPlan::Ready { next, event: _ } => next@,
        CommitPlan::Sleeping { next, event: _ } => next@,
        CommitPlan::Completed { next, event: _, outcome: _ } => next@,
        CommitPlan::Approval { insert: _, next, event: _ } => next@,
        CommitPlan::Activity { activity: _, next, event: _ } => next@,
        CommitPlan::Child {
            child: _,
            deduplication_key: _,
            root_workflow_id: _,
            next,
            event: _,
        } => next@,
    }
}

/// A commit, a failed activation, a recovered lease and a cancellation end every
/// claim of a workflow: a coordinator that comes late is fenced out.
pub proof fn law_ended_activation_fences_its_claim(
    claim: WorkflowClaim,
    plan: CommitPlan,
    row: WorkflowRowModel,
    stored: WorkflowRowModel,
    delivered: i32,
    transition: StoredTransition,
    config: CoordinatorConfig,
    exhausted: bool,
    delay_millis: i64,
    message: Seq<char>,
    now: i64,
)
    requires
        coordinator::commit_is(plan, row, stored, delivered, transition, config, now),
    ensures
        !holds_workflow(Some(committed_row(plan)), claim),
        !holds_workflow(
            Some(coordinator::activation_failed(row, exhausted, delay_millis, message, now)),
            claim,
        ),
        !holds_workflow(Some(coordinator::lease_recovered(row, now)), claim),
        !holds_workflow(Some(store::workflow_cancelled(row, now)), claim),
        !holds_workflow(Some(control::workflow_paused(row, now)), claim),
{
}

/// A workflow is leased exactly while it runs: every write keeps this.
pub proof fn law_workflow_leases_stay_consistent(
    plan: CommitPlan,
    row: WorkflowRowModel,
    stored: WorkflowRowModel,
    worker_id: Seq<char>,
    token: Seq<char>,
    expiry: i64,
    delivered: i32,
    transition: StoredTransition,
    config: CoordinatorConfig,
    exhausted: bool,
    delay_millis: i64,
    message: Seq<char>,
    now: i64,
)
    requires
        lease::workflow_lease_consistent(row),
        coordinator::commit_is(plan, row, stored, delivered, transition, config, now),
    ensures
        lease::workflow_lease_consistent(coordinator::claimed(row, worker_id, token, expiry, now)),
        lease::workflow_lease_consistent(committed_row(plan)),
        lease::workflow_lease_consistent(
            coordinator::activation_failed(row, exhausted, delay_millis, message, now),
        ),
        lease::workflow_lease_consistent(coordinator::lease_recovered(row, now)),
        lease::workflow_lease_consistent(store::workflow_cancelled(row, now)),
        lease::workflow_lease_consistent(control::workflow_paused(row, now)),
{
}

/// A workflow that has ended is never claimed or recovered.
pub proof fn law_ended_workflow_is_never_claimed(row: WorkflowRowModel, now: i64)
    requires
        status::workflow_ended(row.status),
    ensures
        !coordinator::claimable(row, now),
        !coordinator::recoverable(row, now),
{
}

/// Each committed activation counts the event that it was told as delivered, so
/// the same event is not told twice.
pub proof fn law_commit_advances_delivery(
    plan: CommitPlan,
    row: WorkflowRowModel,
    stored: WorkflowRowModel,
    delivered: i32,
    transition: StoredTransition,
    config: CoordinatorConfig,
    now: i64,
)
    requires
        coordinator::commit_is(plan, row, stored, delivered, transition, config, now),
    ensures
        committed_row(plan).delivered_event_sequence == delivered,
        committed_row(plan).activation_attempts == 0,
{
}

/// A claim holds what it claimed exactly while that runs under the token of the claim; an
/// activity and its attempt also only while it is the claimed attempt, and the attempt while
/// it is open.
pub proof fn law_only_the_holder_of_the_token_writes(
    workflow: WorkflowRowModel,
    workflow_claim: WorkflowClaim,
    activity: ActivityRowModel,
    attempt: ActivityAttemptRowModel,
    claim: ActivityClaim,
)
    ensures
        holds_workflow(Some(workflow), workflow_claim) <==> {
            &&& workflow.id == workflow_claim.spec_row().id
            &&& workflow.status == WorkflowStatus::Running
            &&& workflow.lease_token == Some(workflow_claim.spec_token())
        },
        holds_activity(Some(activity), claim) <==> {
            &&& activity.id == claim.spec_row().id
            &&& activity.attempt_count == claim.spec_attempt()
            &&& activity.status == ActivityStatus::Running
            &&& activity.lease_token == Some(claim.spec_token())
        },
        holds_attempt(Some(attempt), claim) <==> {
            &&& attempt.activity_id == claim.spec_row().id
            &&& attempt.attempt_number == claim.spec_attempt()
            &&& attempt.lease_token == claim.spec_token()
            &&& attempt.finished_at is None
        },
        !holds_workflow(None, workflow_claim),
        !holds_activity(None, claim),
        !holds_attempt(None, claim),
{
}

/// A heartbeat moves the expiry of the lease to so long from now and notes the time; all
/// else of the activity and of its attempt stays as it is, so the claim still holds both.
pub proof fn law_heartbeat_extends_the_lease(
    renewal: Renewal,
    row: ActivityRowModel,
    attempt: ActivityAttemptRowModel,
    lease_millis: i64,
    now: i64,
    claim: ActivityClaim,
)
    requires
        renewal_is(renewal, row, attempt, lease_millis, now),
        i64::MIN <= now + lease_millis <= i64::MAX,
    ensures
        renewal.activity@.lease_expires_at == Some((now + lease_millis) as i64),
        renewal.activity@.updated_at == now,
        (ActivityRowModel {
            lease_expires_at: row.lease_expires_at,
            updated_at: row.updated_at,
            ..renewal.activity@
        }) == row,
        renewal.attempt@.heartbeat_at == now,
        (ActivityAttemptRowModel { heartbeat_at: attempt.heartbeat_at, ..renewal.attempt@ })
            == attempt,
        holds_activity(Some(row), claim) ==> holds_activity(Some(renewal.activity@), claim),
        holds_attempt(Some(attempt), claim) ==> holds_attempt(Some(renewal.attempt@), claim),
{
}

/// Only a failure that can be retried is, while an attempt is left.
pub proof fn law_only_retryable_failures_are_retried(
    outcome: ExecutionOutcomeModel,
    attempt: i32,
    max_attempts: i32,
)
    ensures
        is_retried(outcome, attempt, max_attempts) <==> outcome is Retryable && attempt
            < max_attempts,
        attempt >= max_attempts ==> !is_retried(outcome, attempt, max_attempts),
        outcome is Succeeded ==> !is_retried(outcome, attempt, max_attempts),
{
}

/// An attempt that its claim holds is settled as if nothing stood in its way: it is refused
/// only for what settling it meets.
pub proof fn law_held_attempt_is_settled(
    row: ActivityRowModel,
    attempt: i32,
    workflow: WorkflowRowModel,
    outcome: ExecutionOutcomeModel,
    stored_policy: Result<RetryPolicy, ErrorModel>,
)
    requires
        !(outcome is Retryable) || attempt >= row.max_attempts,
    ensures
        settle_refusal(true, row, attempt, workflow, outcome, stored_policy)
            == activity_worker::finish_error(row, attempt, workflow, outcome, stored_policy),
        settle_refusal(false, row, attempt, workflow, outcome, stored_policy) == Some(
            ErrorModel::FencedWrite,
        ),
{
}

} // verus!
