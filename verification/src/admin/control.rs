//! What operators may change: workflows, activities, approvals and schedules.
use vstd::prelude::*;
use crate::admin::types::{
    ActivityRetryOutcome, ApprovalResolutionOutcome, Operator, OperatorModel, ScheduleControlOutcome,
    WorkflowControlOutcome, WorkflowRestartOutcome,
};
use crate::arith;
use crate::error;
use crate::error::{ensure_size, DurableError, ErrorModel};
use crate::ids::{ActivityId, ApprovalId, ScheduleRunId, WorkflowId};
use crate::numerals;
use crate::numerals::{decimal_i64, parse_i32};
use crate::payload;
use crate::payload::{PreparedModel, PreparedWorkflowStart};
use crate::persistence::events;
use crate::persistence::events::{next_delivery_sequence, EventDraft, EventDraftModel};
use crate::persistence::models;
use crate::persistence::models::{
    ActivityRow, ActivityRowModel, ApprovalRow, ApprovalRowModel, NewActivityRow,
    NewActivityRowModel, NewScheduleRunRow, NewScheduleRunRowModel, ScheduleStateRow,
    ScheduleStateRowModel, WorkflowRow, WorkflowRowModel,
};
use crate::persistence::status;
use crate::persistence::status::{is_terminal, ActivityStatus, WorkflowStatus};
use crate::persistence::workflows;
use crate::persistence::workflows::clear_wait;
use crate::runtime::activity_worker;
use crate::runtime::activity_worker::AttemptClose;
use crate::runtime::coordinator;
use crate::runtime::coordinator::activity_row;
use crate::runtime::lease;
use crate::runtime::temporal;
use crate::schedule::registry::{MetadataModel, ScheduleDefinitionMetadata};
use crate::store;
use crate::store::{cancel_workflow, close_attempt, lineage_root, Cancellation, StartOptions};
use crate::text;
use crate::text::{is_some_text, join3, join5, same_text};
use crate::transition::{
    ActivityCommand, ApprovalResult, ApprovalResultModel, ChildOutcome, ChildOutcomeModel,
    WorkflowEvent, WorkflowEventModel,
};
use crate::MAX_EVENT_METADATA_BYTES;

verus! {

/// The refusal of an action on a workflow in its present status.
pub open spec fn status_conflict(
    workflow_id: int,
    action: Seq<char>,
    status: WorkflowStatus,
) -> ErrorModel {
    ErrorModel::Conflict(
        "workflow "@ + numerals::decimal(workflow_id) + " "@ + action + " while in "@
            + status::workflow_status_name(status) + " state"@,
    )
}

fn conflict(workflow_id: WorkflowId, action: &str, status: WorkflowStatus) -> (error: DurableError)
    ensures
        error@ == status_conflict(workflow_id@, action@, status),
{
    let mut message = join5("workflow ", workflow_id.text().as_str(), " ", action, " while in ");
    message.append(status.as_str());
    message.append(" state");
    DurableError::Conflict(message)
}

/// The refusal of something that does not exist.
pub fn not_found(resource: &'static str, identifier: &str) -> (error: DurableError)
    ensures
        error@ == (ErrorModel::NotFound { resource: resource@, identifier: identifier@ }),
{
    DurableError::NotFound { resource, identifier: identifier.to_owned() }
}

/// The history entry of an operator's action.
pub open spec fn operator_event(
    workflow_id: i64,
    event_type: Seq<char>,
    operator: OperatorModel,
    now: i64,
) -> EventDraftModel {
    EventDraftModel {
        actor_type: "operator"@,
        actor_id: Some(operator.actor_id),
        reason: Some(operator.reason),
        ..events::history_model(workflow_id, event_type, now)
    }
}

fn operator_entry(
    workflow_id: i64,
    event_type: &'static str,
    operator: &Operator,
    now: i64,
) -> (event: EventDraft)
    ensures
        event@ == operator_event(workflow_id, event_type@, operator@, now),
{
    EventDraft {
        workflow_id,
        delivery_sequence: None,
        event_type,
        event: None,
        actor_type: "operator",
        actor_id: Some(operator.actor_id().to_owned()),
        reason: Some(operator.reason().to_owned()),
        created_at: now,
    }
}

/// What a workflow waits for in another table.
#[derive(Debug, Clone, Copy, PartialEq, Eq, Structural)]
pub enum AwaitedRow {
    Activity(i64),
    Child(i64),
    Approval(i64),
}

/// What a workflow waits for in another table, where it waits for something there.
pub open spec fn awaited(row: WorkflowRowModel) -> Option<AwaitedRow> {
    match (row.wait_kind, row.wait_reference_id) {
        (Some(kind), Some(id)) => if kind == "activity"@ {
            Some(AwaitedRow::Activity(id))
        } else if kind == "child"@ {
            Some(AwaitedRow::Child(id))
        } else if kind == "approval"@ {
            Some(AwaitedRow::Approval(id))
        } else {
            None
        },
        _ => None,
    }
}

/// What a workflow waits for in another table, where it waits for something there.
pub fn awaited_row(row: &WorkflowRow) -> (found: Option<AwaitedRow>)
    ensures
        found == awaited(row@),
{
    match row.wait_reference_id {
        Some(id) => {
            if is_some_text(&row.wait_kind, "activity") {
                Some(AwaitedRow::Activity(id))
            } else if is_some_text(&row.wait_kind, "child") {
                Some(AwaitedRow::Child(id))
            } else if is_some_text(&row.wait_kind, "approval") {
                Some(AwaitedRow::Approval(id))
            } else {
                None
            }
        },
        None => None,
    }
}

/// Refuses to pause a workflow that is paused or has ended.
pub fn check_pausable(workflow_id: WorkflowId, workflow: &WorkflowRow) -> (result: Result<
    (),
    DurableError,
>)
    ensures
        error::result_model(result) == (if pausable(workflow@.status) {
            Ok(())
        } else {
            Err(status_conflict(workflow_id@, "cannot be paused"@, workflow@.status))
        }),
{
    if workflow.status == WorkflowStatus::Paused || is_terminal(workflow.status) {
        return Err(conflict(workflow_id, "cannot be paused", workflow.status));
    }
    Ok(())
}

/// Whether a workflow in this status can be paused.
pub open spec fn pausable(status: WorkflowStatus) -> bool {
    status != WorkflowStatus::Paused && !status::workflow_ended(status)
}

/// The row of a paused workflow: its wait is kept, its lease is not.
pub open spec fn workflow_paused(row: WorkflowRowModel, now: i64) -> WorkflowRowModel {
    WorkflowRowModel {
        status: WorkflowStatus::Paused,
        updated_at: now,
        ..lease::workflow_unleased(row)
    }
}

/// The row of an activity whose attempt a pause interrupted: it may be tried once
/// more than before.
pub open spec fn activity_paused(row: ActivityRowModel, now: i64) -> ActivityRowModel {
    ActivityRowModel {
        status: ActivityStatus::Pending,
        available_at: now,
        max_attempts: (row.max_attempts + 1) as i32,
        updated_at: now,
        ..lease::activity_unleased(row)
    }
}

/// What pausing does to the activity that a workflow waits for.
#[derive(Debug)]
pub struct PausedActivity {
    pub next: ActivityRow,
    pub attempt: AttemptClose,
}

/// Why the running attempt of an activity cannot be interrupted.
pub open spec fn interrupt_error(activity: ActivityRowModel) -> Option<ErrorModel> {
    if activity.lease_token is None {
        Some(
            ErrorModel::InvalidState(
                "running activity "@ + numerals::decimal(activity.id as int)
                    + " has no lease token"@,
            ),
        )
    } else if activity.max_attempts == i32::MAX {
        Some(
            ErrorModel::InvalidState(
                "activity attempt limit overflow after operator pause"@,
            ),
        )
    } else {
        None
    }
}

/// Interrupts the running attempt of an activity; gives nothing for an activity
/// that does not run.
pub fn pause_activity(activity: ActivityRow, operator: &Operator, now: i64) -> (result: Result<
    Option<PausedActivity>,
    DurableError,
>)
    ensures
        match result {
            Ok(None) => activity@.status != ActivityStatus::Running,
            Ok(Some(paused)) => {
                &&& activity@.status == ActivityStatus::Running
                &&& interrupt_error(activity@) is None
                &&& paused.next@ == activity_paused(activity@, now)
                &&& paused.attempt@ == store::attempt_closed(
                    "operator_paused"@,
                    operator@.reason,
                    now,
                )
            },
            Err(error) => activity@.status == ActivityStatus::Running && interrupt_error(activity@)
                == Some(error@),
        },
{
    if activity.status != ActivityStatus::Running {
        return Ok(None);
    }
    let attempt = match close_attempt(&activity, "operator_paused", operator.reason(), now) {
        Ok(attempt) => attempt,
        Err(error) => return Err(error),
    };
    let max_attempts: i32 = match activity.max_attempts.checked_add(1) {
        Some(limit) => limit,
        None => return Err(
            error::invalid_state("activity attempt limit overflow after operator pause"),
        ),
    };
    let mut next = activity;
    next.status = ActivityStatus::Pending;
    next.available_at = now;
    next.max_attempts = max_attempts;
    next.lease_owner = None;
    next.lease_token = None;
    next.lease_expires_at = None;
    next.updated_at = now;
    Ok(Some(PausedActivity { next, attempt }))
}

/// What pausing or resuming a workflow writes.
#[derive(Debug)]
pub struct WorkflowChange {
    pub next: WorkflowRow,
    pub event: EventDraft,
    pub outcome: WorkflowControlOutcome,
}

/// Pauses a workflow. The activity that it waits for is interrupted by
/// [`pause_activity`].
pub fn pause_workflow(
    workflow_id: WorkflowId,
    workflow: WorkflowRow,
    operator: &Operator,
    now: i64,
) -> (result: Result<WorkflowChange, DurableError>)
    ensures
        match result {
            Ok(change) => {
                &&& pausable(workflow@.status)
                &&& change.next@ == workflow_paused(workflow@, now)
                &&& change.event@ == operator_event(
                    workflow_id@ as i64,
                    "workflow_paused"@,
                    operator@,
                    now,
                )
                &&& change.outcome.workflow_id == workflow_id
                &&& change.outcome.status@ == "paused"@
            },
            Err(error) => !pausable(workflow@.status) && error@ == status_conflict(
                workflow_id@,
                "cannot be paused"@,
                workflow@.status,
            ),
        },
{
    match check_pausable(workflow_id, &workflow) {
        Ok(()) => {},
        Err(error) => return Err(error),
    }
    let mut next = workflow;
    next.status = WorkflowStatus::Paused;
    next.lease_owner = None;
    next.lease_token = None;
    next.lease_expires_at = None;
    next.updated_at = now;
    Ok(
        WorkflowChange {
            next,
            event: operator_entry(workflow_id.get(), "workflow_paused", operator, now),
            outcome: WorkflowControlOutcome { workflow_id, status: "paused".to_owned() },
        },
    )
}

/// The status that a paused workflow goes back to, or why it cannot go back.
/// `activity`, `child` and `approval` are the statuses of what it waits for.
pub open spec fn resume_target(
    row: WorkflowRowModel,
    activity: Option<ActivityStatus>,
    child: Option<WorkflowStatus>,
    approval: Option<Seq<char>>,
) -> Result<WorkflowStatus, ErrorModel> {
    match row.wait_kind {
        None => Ok(WorkflowStatus::Ready),
        Some(kind) => if kind == "timer"@ {
            Ok(WorkflowStatus::Sleeping)
        } else if kind == "activity"@ {
            if row.wait_reference_id is None {
                Err(ErrorModel::InvalidState("paused activity wait has no reference"@))
            } else {
                match activity {
                    None => Err(
                        ErrorModel::InvalidState(
                            "paused activity wait references a missing activity"@,
                        ),
                    ),
                    Some(ActivityStatus::Pending) | Some(ActivityStatus::Running) => Ok(
                        WorkflowStatus::WaitingActivity,
                    ),
                    Some(ActivityStatus::DeadLettered) => Ok(WorkflowStatus::Blocked),
                    Some(ActivityStatus::Succeeded) => Ok(WorkflowStatus::Ready),
                    Some(status) => Err(
                        ErrorModel::Conflict(
                            "paused workflow references activity in "@
                                + status::activity_status_name(status) + " state"@,
                        ),
                    ),
                }
            }
        } else if kind == "child"@ {
            match row.wait_reference_id {
                None => Err(ErrorModel::InvalidState("paused child wait has no reference"@)),
                Some(child_id) => match child {
                    None => Err(
                        ErrorModel::InvalidState(
                            "paused child wait references a missing workflow"@,
                        ),
                    ),
                    Some(status) => if status::workflow_ended(status) {
                        Err(
                            ErrorModel::Conflict(
                                "paused workflow references terminal child workflow "@
                                    + numerals::decimal(child_id as int)
                                    + " whose outcome was never delivered"@,
                            ),
                        )
                    } else {
                        Ok(WorkflowStatus::WaitingChild)
                    },
                },
            }
        } else if kind == "approval"@ {
            if row.wait_reference_id is None {
                Err(ErrorModel::InvalidState("paused approval wait has no reference"@))
            } else {
                match approval {
                    None => Err(
                        ErrorModel::InvalidState(
                            "paused approval wait references a missing approval"@,
                        ),
                    ),
                    Some(status) => Ok(
                        if status == "pending"@ {
                            WorkflowStatus::WaitingApproval
                        } else {
                            WorkflowStatus::Ready
                        },
                    ),
                }
            }
        } else {
            Err(
                ErrorModel::InvalidState(
                    "paused workflow has unsupported wait kind "@ + kind,
                ),
            )
        },
    }
}

/// The status that a paused workflow goes back to. `activity`, `child` and
/// `approval` are the statuses of what it waits for, where that exists.
pub fn resume_status(
    workflow: &WorkflowRow,
    activity: Option<ActivityStatus>,
    child: Option<WorkflowStatus>,
    approval: Option<&str>,
) -> (result: Result<WorkflowStatus, DurableError>)
    ensures
        error::result_model(result) == resume_target(
            workflow@,
            activity,
            child,
            text::opt_str(approval),
        ),
{
    let kind = match &workflow.wait_kind {
        Some(kind) => kind,
        None => return Ok(WorkflowStatus::Ready),
    };
    if same_text(kind.as_str(), "timer") {
        return Ok(WorkflowStatus::Sleeping);
    }
    if same_text(kind.as_str(), "activity") {
        if workflow.wait_reference_id.is_none() {
            return Err(error::invalid_state("paused activity wait has no reference"));
        }
        return match activity {
            None => Err(
                error::invalid_state("paused activity wait references a missing activity"),
            ),
            Some(ActivityStatus::Pending) | Some(ActivityStatus::Running) => Ok(
                WorkflowStatus::WaitingActivity,
            ),
            Some(ActivityStatus::DeadLettered) => Ok(WorkflowStatus::Blocked),
            Some(ActivityStatus::Succeeded) => Ok(WorkflowStatus::Ready),
            Some(status) => Err(
                DurableError::Conflict(
                    join3(
                        "paused workflow references activity in ",
                        status.as_str(),
                        " state",
                    ),
                ),
            ),
        };
    }
    if same_text(kind.as_str(), "child") {
        let child_id: i64 = match workflow.wait_reference_id {
            Some(id) => id,
            None => return Err(error::invalid_state("paused child wait has no reference")),
        };
        return match child {
            None => Err(error::invalid_state("paused child wait references a missing workflow")),
            Some(status) => {
                if is_terminal(status) {
                    Err(
                        DurableError::Conflict(
                            join3(
                                "paused workflow references terminal child workflow ",
                                decimal_i64(child_id).as_str(),
                                " whose outcome was never delivered",
                            ),
                        ),
                    )
                } else {
                    Ok(WorkflowStatus::WaitingChild)
                }
            },
        };
    }
    if same_text(kind.as_str(), "approval") {
        if workflow.wait_reference_id.is_none() {
            return Err(error::invalid_state("paused approval wait has no reference"));
        }
        return match approval {
            None => Err(
                error::invalid_state("paused approval wait references a missing approval"),
            ),
            Some(status) => Ok(
                if same_text(status, "pending") {
                    WorkflowStatus::WaitingApproval
                } else {
                    WorkflowStatus::Ready
                },
            ),
        };
    }
    Err(
        DurableError::InvalidState(
            text::join2("paused workflow has unsupported wait kind ", kind.as_str()),
        ),
    )
}

/// The row of a resumed workflow.
pub open spec fn workflow_resumed(
    row: WorkflowRowModel,
    status: WorkflowStatus,
    now: i64,
) -> WorkflowRowModel {
    WorkflowRowModel {
        status,
        available_at: if status == WorkflowStatus::Ready {
            now
        } else {
            row.available_at
        },
        updated_at: now,
        ..lease::workflow_unleased(row)
    }
}

/// Why a workflow cannot be resumed.
pub open spec fn resume_result(
    workflow_id: int,
    row: WorkflowRowModel,
    activity: Option<ActivityStatus>,
    child: Option<WorkflowStatus>,
    approval: Option<Seq<char>>,
) -> Result<WorkflowStatus, ErrorModel> {
    if row.status != WorkflowStatus::Paused {
        Err(status_conflict(workflow_id, "is not paused"@, row.status))
    } else {
        resume_target(row, activity, child, approval)
    }
}

/// Resumes a paused workflow. `activity`, `child` and `approval` are the statuses
/// of what it waits for, where that exists.
pub fn resume_workflow(
    workflow_id: WorkflowId,
    workflow: WorkflowRow,
    activity: Option<ActivityStatus>,
    child: Option<WorkflowStatus>,
    approval: Option<&str>,
    operator: &Operator,
    now: i64,
) -> (result: Result<WorkflowChange, DurableError>)
    ensures
        match (
            result,
            resume_result(workflow_id@, workflow@, activity, child, text::opt_str(approval)),
        ) {
            (Ok(change), Ok(status)) => {
                &&& change.next@ == workflow_resumed(workflow@, status, now)
                &&& change.event@ == operator_event(
                    workflow_id@ as i64,
                    "workflow_resumed"@,
                    operator@,
                    now,
                )
                &&& change.outcome.workflow_id == workflow_id
                &&& change.outcome.status@ == status::workflow_status_name(status)
            },
            (Err(error), Err(refusal)) => error@ == refusal,
            _ => false,
        },
{
    if workflow.status != WorkflowStatus::Paused {
        return Err(conflict(workflow_id, "is not paused", workflow.status));
    }
    let status = match resume_status(&workflow, activity, child, approval) {
        Ok(status) => status,
        Err(error) => return Err(error),
    };
    let mut next = workflow;
    next.status = status;
    if status == WorkflowStatus::Ready {
        next.available_at = now;
    }
    next.lease_owner = None;
    next.lease_token = None;
    next.lease_expires_at = None;
    next.updated_at = now;
    Ok(
        WorkflowChange {
            next,
            event: operator_entry(workflow_id.get(), "workflow_resumed", operator, now),
            outcome: WorkflowControlOutcome { workflow_id, status: status.as_str().to_owned() },
        },
    )
}

/// Cancels a workflow for an operator; refuses one that has ended.
pub fn cancel_for_operator(
    workflow_id: WorkflowId,
    workflow: WorkflowRow,
    operator: &Operator,
    now: i64,
) -> (result: Result<(Cancellation, WorkflowControlOutcome), DurableError>)
    ensures
        match result {
            Ok((plan, outcome)) => {
                &&& !status::workflow_ended(workflow@.status)
                &&& workflow@.id > 0
                &&& plan.next@ == store::workflow_cancelled(workflow@, now)
                &&& plan.event@ == store::cancelled_event(
                    workflow@.id,
                    operator@.reason,
                    Some(operator@.actor_id),
                    now,
                )
                &&& plan.ended@ == (ChildOutcomeModel::Failed {
                    category: "child_cancelled"@,
                    message: operator@.reason,
                })
                &&& plan.attempt_outcome@ == "operator_cancelled"@
                &&& outcome.workflow_id == workflow_id
                &&& outcome.status@ == "cancelled"@
            },
            Err(error) => if status::workflow_ended(workflow@.status) {
                error@ == status_conflict(workflow_id@, "is already terminal"@, workflow@.status)
            } else {
                workflow@.id <= 0 && error@ == ErrorModel::InvalidId(workflow@.id as int)
            },
        },
{
    if is_terminal(workflow.status) {
        return Err(conflict(workflow_id, "is already terminal", workflow.status));
    }
    let status = workflow.status;
    match cancel_workflow(workflow, operator.reason(), Some(operator.actor_id()), now) {
        Ok(Some(plan)) => Ok(
            (plan, WorkflowControlOutcome { workflow_id, status: "cancelled".to_owned() }),
        ),
        Ok(None) => Err(conflict(workflow_id, "is already terminal", status)),
        Err(error) => Err(error),
    }
}

/// Whether a workflow in this status can be restarted.
pub open spec fn restartable(status: WorkflowStatus) -> bool {
    status::workflow_ended(status) || status == WorkflowStatus::Blocked || status
        == WorkflowStatus::Paused
}

/// Why a workflow cannot be restarted.
pub open spec fn restart_error(
    workflow_id: int,
    status: WorkflowStatus,
    has_restart: bool,
) -> Option<ErrorModel> {
    if !restartable(status) {
        Some(
            status_conflict(
                workflow_id,
                "must be paused, blocked, or terminal before restart"@,
                status,
            ),
        )
    } else if has_restart {
        Some(
            ErrorModel::Conflict(
                "workflow "@ + numerals::decimal(workflow_id) + " already has a restart"@,
            ),
        )
    } else {
        None
    }
}

/// Refuses to restart a workflow that still runs or was restarted before.
pub fn check_restart(workflow_id: WorkflowId, source: &WorkflowRow, has_restart: bool) -> (result:
    Result<(), DurableError>)
    ensures
        match result {
            Ok(()) => restart_error(workflow_id@, source@.status, has_restart) is None,
            Err(error) => restart_error(workflow_id@, source@.status, has_restart) == Some(error@),
        },
{
    let restartable = match source.status {
        WorkflowStatus::Blocked | WorkflowStatus::Paused => true,
        status => is_terminal(status),
    };
    if !restartable {
        return Err(
            conflict(
                workflow_id,
                "must be paused, blocked, or terminal before restart",
                source.status,
            ),
        );
    }
    if has_restart {
        return Err(
            DurableError::Conflict(
                join3("workflow ", workflow_id.text().as_str(), " already has a restart"),
            ),
        );
    }
    Ok(())
}

/// The options of the workflow that restarts another.
pub fn restart_options(workflow_id: WorkflowId, source: &WorkflowRow) -> (result: Result<
    StartOptions,
    DurableError,
>)
    ensures
        match result {
            Ok(options) => {
                &&& store::root_of(source@) > 0
                &&& source@.schedule_run_id matches Some(run) ==> run > 0
                &&& options@ == (store::OptionsModel {
                    schedule_run_id: match source@.schedule_run_id {
                        Some(run) => Some(run as int),
                        None => None,
                    },
                    root_workflow_id: Some(store::root_of(source@) as int),
                    restarted_from_workflow_id: Some(workflow_id@),
                    ..store::no_options()
                })
            },
            Err(error) => if store::root_of(source@) <= 0 {
                error@ == ErrorModel::InvalidId(store::root_of(source@) as int)
            } else {
                source@.schedule_run_id matches Some(run) && run <= 0 && error@
                    == ErrorModel::InvalidId(run as int)
            },
        },
{
    let root = match WorkflowId::new(lineage_root(source)) {
        Ok(root) => root,
        Err(error) => return Err(error),
    };
    let schedule_run_id = match source.schedule_run_id {
        Some(run) => match ScheduleRunId::new(run) {
            Ok(id) => Some(id),
            Err(error) => return Err(error),
        },
        None => None,
    };
    let mut options = StartOptions::default();
    options.schedule_run_id = schedule_run_id;
    options.root_workflow_id = Some(root);
    options.restarted_from_workflow_id = Some(workflow_id);
    Ok(options)
}

/// What a restart does to the workflow that it replaces, where that has not ended.
#[derive(Debug)]
pub struct SupersededWorkflow {
    pub next: WorkflowRow,
    pub event: EventDraft,
    pub ended: ChildOutcome,
    /// How the open attempts of its activities end.
    pub attempt_outcome: &'static str,
}

/// What a restart writes once the new workflow was inserted.
#[derive(Debug)]
pub struct RestartPlan {
    pub superseded: Option<SupersededWorkflow>,
    /// The schedule run that named the old workflow and names the new one now.
    pub schedule_run_id: Option<i64>,
    pub source_event: EventDraft,
    pub created_event: EventDraft,
    pub outcome: WorkflowRestartOutcome,
}

/// What a restart writes once the new workflow was inserted: the workflow that it
/// replaces is cancelled where it has not ended, and both histories say so.
pub open spec fn restart_is(
    plan: RestartPlan,
    workflow_id: WorkflowId,
    source: WorkflowRowModel,
    corrected: bool,
    prepared: PreparedModel,
    started: store::StartOutcome,
    operator: OperatorModel,
    now: i64,
) -> bool {
    &&& match plan.superseded {
        Some(superseded) => {
            &&& !status::workflow_ended(source.status)
            &&& superseded.next@ == store::superseded(source, now)
            &&& superseded.event@ == operator_event(
                workflow_id@ as i64,
                "workflow_superseded_by_restart"@,
                operator,
                now,
            )
            &&& superseded.ended@ == (ChildOutcomeModel::Failed {
                category: "child_superseded"@,
                message: operator.reason,
            })
            &&& superseded.attempt_outcome@ == "operator_cancelled"@
        },
        None => status::workflow_ended(source.status),
    }
    &&& plan.schedule_run_id == source.schedule_run_id
    &&& plan.source_event@ == operator_event(
        workflow_id@ as i64,
        if corrected {
            "workflow_corrected_and_restarted"@
        } else {
            "workflow_restarted"@
        },
        operator,
        now,
    )
    &&& plan.created_event@ == operator_event(
        started.workflow_id@ as i64,
        "workflow_restart_created"@,
        operator,
        now,
    )
    &&& plan.outcome.source_workflow_id == workflow_id
    &&& plan.outcome.workflow_id == started.workflow_id
    &&& plan.outcome.kind@ == prepared.kind
    &&& plan.outcome.version == prepared.version
}

/// Plans what follows the insertion of the workflow that restarts another.
pub fn plan_restart(
    workflow_id: WorkflowId,
    source: WorkflowRow,
    corrected: bool,
    prepared: &PreparedWorkflowStart,
    started: store::StartOutcome,
    operator: &Operator,
    now: i64,
) -> (result: Result<RestartPlan, DurableError>)
    ensures
        match result {
            Ok(plan) => {
                &&& started.inserted
                &&& restart_is(
                    plan,
                    workflow_id,
                    source@,
                    corrected,
                    prepared@,
                    started,
                    operator@,
                    now,
                )
            },
            Err(error) => !started.inserted && error@ == ErrorModel::InvalidState(
                "workflow restart unexpectedly deduplicated"@,
            ),
        },
{
    if !started.inserted {
        return Err(error::invalid_state("workflow restart unexpectedly deduplicated"));
    }
    let schedule_run_id: Option<i64> = source.schedule_run_id;
    let superseded = if is_terminal(source.status) {
        None
    } else {
        let mut next = source;
        next.status = WorkflowStatus::Cancelled;
        next.lease_owner = None;
        next.lease_token = None;
        next.lease_expires_at = None;
        next.updated_at = now;
        next.completed_at = Some(now);
        Some(
            SupersededWorkflow {
                next,
                event: operator_entry(
                    workflow_id.get(),
                    "workflow_superseded_by_restart",
                    operator,
                    now,
                ),
                ended: ChildOutcome::Failed {
                    category: "child_superseded".to_owned(),
                    message: operator.reason().to_owned(),
                },
                attempt_outcome: "operator_cancelled",
            },
        )
    };
    Ok(
        RestartPlan {
            superseded,
            schedule_run_id,
            source_event: operator_entry(
                workflow_id.get(),
                if corrected {
                    "workflow_corrected_and_restarted"
                } else {
                    "workflow_restarted"
                },
                operator,
                now,
            ),
            created_event: operator_entry(
                started.workflow_id.get(),
                "workflow_restart_created",
                operator,
                now,
            ),
            outcome: WorkflowRestartOutcome {
                source_workflow_id: workflow_id,
                workflow_id: started.workflow_id,
                kind: prepared.kind().to_owned(),
                version: prepared.version(),
            },
        },
    )
}

/// Whether an activity is the dead letter that blocks its workflow.
pub open spec fn blocks(workflow: WorkflowRowModel, source: ActivityRowModel) -> bool {
    workflow.status == WorkflowStatus::Blocked && workflow.wait_reference_id == Some(source.id)
        && source.status == ActivityStatus::DeadLettered
}

/// The first activity of a row's chain of replacements.
pub open spec fn root_activity(source: ActivityRowModel) -> i64 {
    match source.root_activity_id {
        Some(root) => root,
        None => source.id,
    }
}

/// The operation key of the activity that replaces another: a new one where the
/// payload is corrected, the same otherwise.
pub open spec fn replacement_key(source: ActivityRowModel, corrected: bool) -> Option<Seq<char>> {
    if corrected {
        Some(
            "durable:activity:"@ + numerals::decimal(root_activity(source) as int) + ":correction:"@
                + numerals::decimal(source.replacement_number + 1),
        )
    } else {
        source.operation_key
    }
}

/// Why an activity cannot be retried.
pub open spec fn retry_refusal(
    activity_id: int,
    workflow_id: int,
    workflow: WorkflowRowModel,
    source: ActivityRowModel,
) -> Option<ErrorModel> {
    if !blocks(workflow, source) {
        Some(
            ErrorModel::Conflict(
                "activity "@ + numerals::decimal(activity_id)
                    + " is not the dead-lettered activity blocking workflow "@ + numerals::decimal(
                    workflow_id,
                ),
            ),
        )
    } else if source.replacement_number == i32::MAX {
        Some(ErrorModel::InvalidState("activity replacement number overflow"@))
    } else {
        None
    }
}

/// How an activity is replaced.
#[derive(Debug)]
pub struct Replacement {
    pub number: i32,
    pub root_id: i64,
    pub operation_key: Option<String>,
}

/// Plans the retry of the dead letter that blocks a workflow.
pub fn plan_retry(
    activity_id: ActivityId,
    workflow_id: WorkflowId,
    workflow: &WorkflowRow,
    source: &ActivityRow,
    corrected: bool,
) -> (result: Result<Replacement, DurableError>)
    ensures
        match result {
            Ok(replacement) => {
                &&& retry_refusal(activity_id@, workflow_id@, workflow@, source@) is None
                &&& replacement.number == source@.replacement_number + 1
                &&& replacement.root_id == root_activity(source@)
                &&& text::opt_text(replacement.operation_key) == replacement_key(source@, corrected)
            },
            Err(error) => retry_refusal(activity_id@, workflow_id@, workflow@, source@) == Some(
                error@,
            ),
        },
{
    let waits = match workflow.wait_reference_id {
        Some(id) => id == source.id,
        None => false,
    };
    if workflow.status != WorkflowStatus::Blocked || !waits || source.status
        != ActivityStatus::DeadLettered {
        let mut message = join3(
            "activity ",
            activity_id.text().as_str(),
            " is not the dead-lettered activity blocking workflow ",
        );
        message.append(workflow_id.text().as_str());
        return Err(DurableError::Conflict(message));
    }
    let number: i32 = match source.replacement_number.checked_add(1) {
        Some(number) => number,
        None => return Err(error::invalid_state("activity replacement number overflow")),
    };
    let root_id: i64 = match source.root_activity_id {
        Some(root) => root,
        None => source.id,
    };
    let operation_key = if corrected {
        let mut key = join3("durable:activity:", decimal_i64(root_id).as_str(), ":correction:");
        key.append(decimal_i64(number as i64).as_str());
        Some(key)
    } else {
        source.operation_key.clone()
    };
    Ok(Replacement { number, root_id, operation_key })
}

/// The row of the activity that replaces another.
pub open spec fn replacement_insert(
    source: ActivityRowModel,
    replacement: Replacement,
    command: ActivityCommand,
    retry_policy_json: Seq<char>,
    now: i64,
) -> NewActivityRowModel {
    NewActivityRowModel {
        replacement_number: replacement.number,
        available_at: now,
        operation_key: text::opt_text(replacement.operation_key),
        root_activity_id: Some(replacement.root_id),
        replaces_activity_id: Some(source.id),
        ..coordinator::activity_insert(
            source.workflow_id,
            source.command_sequence,
            command,
            retry_policy_json,
            now,
        )
    }
}

/// The row of the activity that replaces another; `retry_policy_json` is the
/// stored form of the command's retry policy.
pub fn replacement_row(
    source: &ActivityRow,
    replacement: &Replacement,
    command: &ActivityCommand,
    retry_policy_json: String,
    now: i64,
) -> (result: Result<NewActivityRow, DurableError>)
    ensures
        match result {
            Ok(row) => coordinator::activity_insert_error(*command) is None && row@
                == replacement_insert(source@, *replacement, *command, retry_policy_json@, now),
            Err(error) => coordinator::activity_insert_error(*command) == Some(error@),
        },
{
    let mut row = match activity_row(
        source.workflow_id,
        source.command_sequence,
        command,
        retry_policy_json,
        now,
    ) {
        Ok(row) => row,
        Err(error) => return Err(error),
    };
    row.replacement_number = replacement.number;
    row.available_at = now;
    row.operation_key = replacement.operation_key.clone();
    row.root_activity_id = Some(replacement.root_id);
    row.replaces_activity_id = Some(source.id);
    Ok(row)
}

/// The row of a workflow that waits for the replacement of its dead letter.
pub open spec fn workflow_retried(row: WorkflowRowModel, activity_id: i64, now: i64) -> WorkflowRowModel {
    WorkflowRowModel {
        status: WorkflowStatus::WaitingActivity,
        wait_kind: Some("activity"@),
        wait_reference_id: Some(activity_id),
        available_at: now,
        error_category: None,
        error_message: None,
        updated_at: now,
        ..row
    }
}

/// What a retry writes once the replacement was inserted.
#[derive(Debug)]
pub struct RetryPlan {
    pub next: WorkflowRow,
    pub event: EventDraft,
    pub outcome: ActivityRetryOutcome,
}

/// Points a blocked workflow at the replacement of its dead letter.
pub fn retry_blocked(
    activity_id: ActivityId,
    workflow_id: WorkflowId,
    workflow: WorkflowRow,
    inserted_id: i64,
    command: &ActivityCommand,
    operation_key: Option<String>,
    corrected: bool,
    operator: &Operator,
    now: i64,
) -> (result: Result<RetryPlan, DurableError>)
    ensures
        match result {
            Ok(plan) => {
                &&& inserted_id > 0
                &&& plan.next@ == workflow_retried(workflow@, inserted_id, now)
                &&& plan.event@ == operator_event(
                    workflow_id@ as i64,
                    if corrected {
                        "activity_corrected_and_retried"@
                    } else {
                        "activity_retried"@
                    },
                    operator@,
                    now,
                )
                &&& plan.outcome.source_activity_id == activity_id
                &&& plan.outcome.activity_id@ == inserted_id
                &&& plan.outcome.kind@ == command.kind@
                &&& plan.outcome.version == command.version
                &&& text::opt_text(plan.outcome.operation_key) == text::opt_text(operation_key)
            },
            Err(error) => inserted_id <= 0 && error@ == ErrorModel::InvalidId(inserted_id as int),
        },
{
    let replacement_id = match ActivityId::new(inserted_id) {
        Ok(id) => id,
        Err(error) => return Err(error),
    };
    let mut next = workflow;
    next.status = WorkflowStatus::WaitingActivity;
    next.wait_kind = Some("activity".to_owned());
    next.wait_reference_id = Some(inserted_id);
    next.available_at = now;
    next.error_category = None;
    next.error_message = None;
    next.updated_at = now;
    Ok(
        RetryPlan {
            next,
            event: operator_entry(
                workflow_id.get(),
                if corrected {
                    "activity_corrected_and_retried"
                } else {
                    "activity_retried"
                },
                operator,
                now,
            ),
            outcome: ActivityRetryOutcome {
                source_activity_id: activity_id,
                activity_id: replacement_id,
                kind: command.kind.clone(),
                version: command.version,
                operation_key,
            },
        },
    )
}

/// The actor number of an operator, or why there is none.
pub open spec fn actor_number(actor_id: Seq<char>) -> Result<i32, ErrorModel> {
    match numerals::bounded_value(actor_id, i32::MIN as int, i32::MAX as int) {
        None => Err(
            ErrorModel::InvalidDefinition(
                "schedule and approval controls require a numeric operator actor ID"@,
            ),
        ),
        Some(value) => if value <= 0 {
            Err(
                ErrorModel::InvalidDefinition(
                    "schedule and approval controls require a positive operator actor ID"@,
                ),
            )
        } else {
            Ok(value as i32)
        },
    }
}

/// The actor number of an operator; refuses an actor that is no positive number.
pub fn operator_actor_id(operator: &Operator) -> (result: Result<i32, DurableError>)
    ensures
        error::result_model(result) == actor_number(operator@.actor_id),
{
    match parse_i32(operator.actor_id()) {
        None => Err(
            error::invalid_definition(
                "schedule and approval controls require a numeric operator actor ID",
            ),
        ),
        Some(value) => {
            if value <= 0 {
                return Err(
                    error::invalid_definition(
                        "schedule and approval controls require a positive operator actor ID",
                    ),
                );
            }
            Ok(value)
        },
    }
}

/// Whether a workflow waits for an approval, perhaps while paused, and the
/// approval was asked for by its definition.
pub open spec fn matches_approval(workflow: WorkflowRowModel, approval: ApprovalRowModel) -> bool {
    &&& workflow.status == WorkflowStatus::WaitingApproval || workflow.status
        == WorkflowStatus::Paused
    &&& workflow.wait_kind == Some("approval"@)
    &&& workflow.wait_reference_id == Some(approval.id)
    &&& workflow.kind == approval.kind
    &&& workflow.version == approval.version
}

/// Why an approval cannot be resolved.
pub open spec fn resolution_refusal(
    approval_id: int,
    workflow_id: int,
    workflow: WorkflowRowModel,
    approval: ApprovalRowModel,
    now: i64,
) -> Option<ErrorModel> {
    let name = "approval "@ + numerals::decimal(approval_id);
    if approval.status != "pending"@ {
        Some(ErrorModel::Conflict(name + " is already "@ + approval.status))
    } else if approval.expires_at matches Some(expires_at) && expires_at <= now {
        Some(ErrorModel::Conflict(name + " has expired"@))
    } else if !matches_approval(workflow, approval) {
        Some(
            ErrorModel::Conflict(
                name + " no longer matches workflow "@ + numerals::decimal(workflow_id),
            ),
        )
    } else {
        None
    }
}

/// Refuses to resolve an approval that is not pending, has expired, or is not the
/// one that the workflow waits for.
pub fn check_resolution(
    approval_id: ApprovalId,
    workflow_id: WorkflowId,
    workflow: &WorkflowRow,
    approval: &ApprovalRow,
    now: i64,
) -> (result: Result<(), DurableError>)
    ensures
        match result {
            Ok(()) => resolution_refusal(
                approval_id@,
                workflow_id@,
                workflow@,
                approval@,
                now,
            ) is None,
            Err(error) => resolution_refusal(
                approval_id@,
                workflow_id@,
                workflow@,
                approval@,
                now,
            ) == Some(error@),
        },
{
    let name = text::join2("approval ", approval_id.text().as_str());
    if !same_text(approval.status.as_str(), "pending") {
        return Err(
            DurableError::Conflict(join3(name.as_str(), " is already ", approval.status.as_str())),
        );
    }
    let expired = match approval.expires_at {
        Some(expires_at) => expires_at <= now,
        None => false,
    };
    if expired {
        return Err(DurableError::Conflict(text::join2(name.as_str(), " has expired")));
    }
    let waits = match workflow.status {
        WorkflowStatus::WaitingApproval | WorkflowStatus::Paused => true,
        _ => false,
    };
    let same_reference = match workflow.wait_reference_id {
        Some(id) => id == approval.id,
        None => false,
    };
    if !waits || !is_some_text(&workflow.wait_kind, "approval") || !same_reference || !same_text(
        workflow.kind.as_str(),
        approval.kind.as_str(),
    ) || workflow.version != approval.version {
        return Err(
            DurableError::Conflict(
                join3(
                    name.as_str(),
                    " no longer matches workflow ",
                    workflow_id.text().as_str(),
                ),
            ),
        );
    }
    Ok(())
}

/// The event that tells a workflow of a decision.
pub open spec fn resolution_event(
    workflow: WorkflowRowModel,
    approval: ApprovalRowModel,
    decision: Seq<char>,
) -> WorkflowEventModel {
    WorkflowEventModel::ApprovalResolved {
        command_sequence: approval.command_sequence as u32,
        result: ApprovalResultModel {
            kind: workflow.kind,
            version: workflow.version,
            payload_json: decision,
        },
    }
}

/// The event that tells a workflow of a decision.
pub fn approval_event(workflow: &WorkflowRow, approval: &ApprovalRow, decision: &str) -> (result:
    Result<WorkflowEvent, DurableError>)
    ensures
        match result {
            Ok(event) => approval@.command_sequence >= 0 && event@ == resolution_event(
                workflow@,
                approval@,
                decision@,
            ),
            Err(error) => approval@.command_sequence < 0 && error@ == ErrorModel::InvalidState(
                "negative approval command sequence"@,
            ),
        },
{
    if approval.command_sequence < 0 {
        return Err(error::invalid_state("negative approval command sequence"));
    }
    Ok(
        WorkflowEvent::ApprovalResolved {
            command_sequence: approval.command_sequence as u32,
            result: ApprovalResult {
                kind: workflow.kind.clone(),
                version: workflow.version,
                payload_json: decision.to_owned(),
            },
        },
    )
}

/// The row of a resolved approval.
pub open spec fn approval_resolved(
    approval: ApprovalRowModel,
    decision: Seq<char>,
    actor: i32,
    reason: Seq<char>,
    now: i64,
) -> ApprovalRowModel {
    ApprovalRowModel {
        status: "resolved"@,
        decision_payload_json: Some(decision),
        decided_by: Some(actor),
        operator_reason: Some(reason),
        resolved_at: Some(now),
        ..approval
    }
}

/// What resolving an approval writes.
#[derive(Debug)]
pub struct ResolutionPlan {
    pub approval: ApprovalRow,
    pub workflow: WorkflowRow,
    pub event: EventDraft,
    pub outcome: ApprovalResolutionOutcome,
}

/// Why the event of a decision cannot be stored or delivered.
pub open spec fn delivery_refusal(metadata_json: Seq<char>, delivered: i32) -> Option<ErrorModel> {
    match payload::size_error(
        "approval resolution event"@,
        metadata_json,
        MAX_EVENT_METADATA_BYTES as int,
    ) {
        Some(error) => Some(error),
        None => if delivered == i32::MAX {
            Some(ErrorModel::InvalidState("workflow delivery sequence overflow"@))
        } else {
            None
        },
    }
}

/// Why a decision does not resolve an approval: what [`check_resolution`] refuses
/// first, and behind it the event that tells the workflow of the decision.
pub open spec fn resolve_refusal(
    approval_id: ApprovalId,
    workflow_id: WorkflowId,
    workflow: WorkflowRowModel,
    approval: ApprovalRowModel,
    metadata_json: Seq<char>,
    now: i64,
) -> Option<ErrorModel> {
    match resolution_refusal(approval_id@, workflow_id@, workflow, approval, now) {
        Some(error) => Some(error),
        None => if approval.command_sequence < 0 {
            Some(ErrorModel::InvalidState("negative approval command sequence"@))
        } else {
            delivery_refusal(metadata_json, workflow.delivered_event_sequence)
        },
    }
}

/// What resolving an approval with a decision writes.
pub open spec fn resolution_is(
    plan: ResolutionPlan,
    approval_id: ApprovalId,
    workflow_id: WorkflowId,
    workflow: WorkflowRowModel,
    approval: ApprovalRowModel,
    decision: Seq<char>,
    operator: OperatorModel,
    actor: i32,
    now: i64,
) -> bool {
    &&& plan.approval@ == approval_resolved(approval, decision, actor, operator.reason, now)
    &&& plan.workflow@ == workflows::wait_cleared(workflow, now)
    &&& plan.event@ == (EventDraftModel {
        actor_type: "operator"@,
        actor_id: Some(operator.actor_id),
        reason: Some(operator.reason),
        ..events::delivery_model(
            workflow.id,
            (workflow.delivered_event_sequence + 1) as i32,
            "approval_resolved"@,
            resolution_event(workflow, approval, decision),
            now,
        )
    })
    &&& plan.outcome.approval_id == approval_id
    &&& plan.outcome.workflow_id == workflow_id
    &&& plan.outcome.status@ == "resolved"@
}

/// Resolves a pending approval with a decision. `metadata_json` is the stored form
/// of the event of [`approval_event`] that tells the workflow of the decision.
pub fn resolve_approval(
    approval_id: ApprovalId,
    workflow_id: WorkflowId,
    workflow: WorkflowRow,
    approval: ApprovalRow,
    decision: &str,
    metadata_json: &str,
    operator: &Operator,
    actor: i32,
    now: i64,
) -> (result: Result<ResolutionPlan, DurableError>)
    ensures
        match result {
            Ok(plan) => {
                &&& resolve_refusal(
                    approval_id,
                    workflow_id,
                    workflow@,
                    approval@,
                    metadata_json@,
                    now,
                ) is None
                &&& resolution_is(
                    plan,
                    approval_id,
                    workflow_id,
                    workflow@,
                    approval@,
                    decision@,
                    operator@,
                    actor,
                    now,
                )
            },
            Err(error) => resolve_refusal(
                approval_id,
                workflow_id,
                workflow@,
                approval@,
                metadata_json@,
                now,
            ) == Some(error@),
        },
{
    match check_resolution(approval_id, workflow_id, &workflow, &approval, now) {
        Ok(()) => {},
        Err(error) => return Err(error),
    }
    let event = match approval_event(&workflow, &approval, decision) {
        Ok(event) => event,
        Err(error) => return Err(error),
    };
    match ensure_size("approval resolution event", metadata_json, MAX_EVENT_METADATA_BYTES) {
        Ok(()) => {},
        Err(error) => return Err(error),
    }
    let delivery_sequence: i32 = match next_delivery_sequence(workflow.delivered_event_sequence) {
        Ok(sequence) => sequence,
        Err(error) => return Err(error),
    };
    let draft = EventDraft {
        workflow_id: workflow.id,
        delivery_sequence: Some(delivery_sequence),
        event_type: "approval_resolved",
        event: Some(event),
        actor_type: "operator",
        actor_id: Some(operator.actor_id().to_owned()),
        reason: Some(operator.reason().to_owned()),
        created_at: now,
    };
    let mut resolved = approval;
    resolved.status = "resolved".to_owned();
    resolved.decision_payload_json = Some(decision.to_owned());
    resolved.decided_by = Some(actor);
    resolved.operator_reason = Some(operator.reason().to_owned());
    resolved.resolved_at = Some(now);
    Ok(
        ResolutionPlan {
            approval: resolved,
            workflow: clear_wait(workflow, now),
            event: draft,
            outcome: ApprovalResolutionOutcome {
                approval_id,
                workflow_id,
                status: "resolved".to_owned(),
            },
        },
    )
}

/// The schedules that a service was given; refuses to go on without them.
pub fn require_schedules<R>(schedules: Option<R>) -> (result: Result<R, DurableError>)
    ensures
        error::result_model(result) == (match schedules {
            Some(registry) => Ok(registry),
            None => Err(
                ErrorModel::InvalidDefinition(
                    "admin schedule controls require a schedule registry"@,
                ),
            ),
        }),
{
    match schedules {
        Some(registry) => Ok(registry),
        None => Err(
            error::invalid_definition("admin schedule controls require a schedule registry"),
        ),
    }
}

/// The application context that a service was given; refuses to go on without it.
pub fn require_context<C>(context: Option<C>) -> (result: Result<C, DurableError>)
    ensures
        error::result_model(result) == (match context {
            Some(context) => Ok(context),
            None => Err(
                ErrorModel::InvalidDefinition(
                    "admin schedule controls require an application context"@,
                ),
            ),
        }),
{
    match context {
        Some(context) => Ok(context),
        None => Err(
            error::invalid_definition("admin schedule controls require an application context"),
        ),
    }
}

/// Whether a persisted schedule state belongs to a definition.
pub open spec fn state_matches(state: ScheduleStateRowModel, metadata: MetadataModel) -> bool {
    state.definition_version == metadata.version && state.definition_fingerprint
        == metadata.fingerprint
}

/// The refusal of a state that belongs to another definition.
pub open spec fn state_mismatch(state: ScheduleStateRowModel, metadata: MetadataModel) -> ErrorModel {
    ErrorModel::Conflict(
        "schedule "@ + state.schedule_key + " persisted definition does not match registered v"@
            + numerals::decimal(metadata.version as int),
    )
}

/// Refuses a schedule state that belongs to another definition.
pub fn validate_schedule_state(
    state: &ScheduleStateRow,
    definition: &ScheduleDefinitionMetadata,
) -> (result: Result<(), DurableError>)
    ensures
        error::result_model(result) == (if state_matches(state@, definition@) {
            Ok(())
        } else {
            Err(state_mismatch(state@, definition@))
        }),
{
    if state.definition_version == definition.version && same_text(
        state.definition_fingerprint.as_str(),
        definition.fingerprint.as_str(),
    ) {
        return Ok(());
    }
    let mut message = join3(
        "schedule ",
        state.schedule_key.as_str(),
        " persisted definition does not match registered v",
    );
    message.append(decimal_i64(definition.version as i64).as_str());
    Err(DurableError::Conflict(message))
}

/// The state of a schedule that an operator paused or resumed.
pub open spec fn schedule_switched(
    state: ScheduleStateRowModel,
    paused: bool,
    actor: i32,
    reason: Seq<char>,
    now: i64,
) -> ScheduleStateRowModel {
    ScheduleStateRowModel {
        paused_at: if paused {
            Some(now)
        } else {
            None
        },
        paused_by: if paused {
            Some(actor)
        } else {
            None
        },
        pause_reason: if paused {
            Some(reason)
        } else {
            None
        },
        updated_at: now,
        ..state
    }
}

/// Why a schedule cannot be paused or resumed.
pub open spec fn switch_error(
    state: ScheduleStateRowModel,
    metadata: MetadataModel,
    paused: bool,
) -> Option<ErrorModel> {
    if !state_matches(state, metadata) {
        Some(state_mismatch(state, metadata))
    } else if paused == (state.paused_at is Some) {
        Some(
            ErrorModel::Conflict(
                "schedule "@ + metadata.key + " is already "@ + if paused {
                    "paused"@
                } else {
                    "active"@
                },
            ),
        )
    } else {
        None
    }
}

/// Pauses or resumes a schedule; refuses where it is so already.
pub fn set_schedule_paused(
    state: ScheduleStateRow,
    definition: &ScheduleDefinitionMetadata,
    paused: bool,
    operator: &Operator,
    actor: i32,
    now: i64,
) -> (result: Result<(ScheduleStateRow, ScheduleControlOutcome), DurableError>)
    ensures
        match result {
            Ok((next, outcome)) => {
                &&& switch_error(state@, definition@, paused) is None
                &&& next@ == schedule_switched(state@, paused, actor, operator@.reason, now)
                &&& outcome.schedule_key@ == definition@.key
                &&& outcome.paused == paused
            },
            Err(error) => switch_error(state@, definition@, paused) == Some(error@),
        },
{
    match validate_schedule_state(&state, definition) {
        Ok(()) => {},
        Err(error) => return Err(error),
    }
    if paused == state.paused_at.is_some() {
        let mut message = join3("schedule ", definition.key.as_str(), " is already ");
        message.append(
            if paused {
                "paused"
            } else {
                "active"
            },
        );
        return Err(DurableError::Conflict(message));
    }
    let mut next = state;
    if paused {
        next.paused_at = Some(now);
        next.paused_by = Some(actor);
        next.pause_reason = Some(operator.reason().to_owned());
    } else {
        next.paused_at = None;
        next.paused_by = None;
        next.pause_reason = None;
    }
    next.updated_at = now;
    Ok((next, ScheduleControlOutcome { schedule_key: definition.key.clone(), paused }))
}

/// The time of a run that an operator asks for: now, but later than every run
/// before.
pub open spec fn manual_time(last_scheduled: Option<i64>, now: i64) -> i64 {
    match last_scheduled {
        Some(last) => if last < i64::MAX && last + 1 > now {
            (last + 1) as i64
        } else {
            now
        },
        None => now,
    }
}

/// The run that is inserted when an operator asks for one.
pub open spec fn manual_insert(
    schedule_key: Seq<char>,
    scheduled_for: i64,
    reason: Seq<char>,
    actor: i32,
    now: i64,
) -> NewScheduleRunRowModel {
    NewScheduleRunRowModel {
        schedule_key,
        local_occurrence: "manual:"@ + numerals::decimal(scheduled_for as int),
        scheduled_for,
        materialized_at: now,
        status: "materializing"@,
        reason: Some(reason),
        actor_id: Some(actor),
        workflow_id: None,
        created_at: now,
    }
}

/// The run of a schedule that an operator asks for; `last_scheduled` is the time
/// of its latest run. Refuses a state that belongs to another definition.
pub fn run_schedule_now(
    state: &ScheduleStateRow,
    definition: &ScheduleDefinitionMetadata,
    last_scheduled: Option<i64>,
    operator: &Operator,
    actor: i32,
    now: i64,
) -> (result: Result<NewScheduleRunRow, DurableError>)
    ensures
        match result {
            Ok(run) => state_matches(state@, definition@) && run@ == manual_insert(
                definition@.key,
                manual_time(last_scheduled, now),
                operator@.reason,
                actor,
                now,
            ),
            Err(error) => !state_matches(state@, definition@) && error@ == state_mismatch(
                state@,
                definition@,
            ),
        },
{
    match validate_schedule_state(state, definition) {
        Ok(()) => {},
        Err(error) => return Err(error),
    }
    let mut scheduled_for: i64 = now;
    match last_scheduled {
        Some(last) => match last.checked_add(1) {
            Some(next) => {
                if next > now {
                    scheduled_for = next;
                }
            },
            None => {},
        },
        None => {},
    }
    Ok(
        NewScheduleRunRow {
            schedule_key: definition.key.clone(),
            local_occurrence: text::join2("manual:", decimal_i64(scheduled_for).as_str()),
            scheduled_for,
            materialized_at: now,
            status: "materializing".to_owned(),
            reason: Some(operator.reason().to_owned()),
            actor_id: Some(actor),
            workflow_id: None,
            created_at: now,
        },
    )
}

/// The history entry of the workflow that a run on demand started.
pub fn run_now_event(workflow_id: WorkflowId, operator: &Operator, now: i64) -> (event: EventDraft)
    ensures
        event@ == operator_event(workflow_id@ as i64, "schedule_run_now"@, operator@, now),
{
    operator_entry(workflow_id.get(), "schedule_run_now", operator, now)
}

/// Pausing a workflow and resuming it puts it back where it was: a workflow that
/// slept, that was ready, or whose wait has not ended meanwhile keeps its status
/// and its wait.
pub proof fn law_resume_undoes_pause(
    row: WorkflowRowModel,
    activity: Option<ActivityStatus>,
    child: Option<WorkflowStatus>,
    approval: Option<Seq<char>>,
    paused_at: i64,
    resumed_at: i64,
)
    requires
        match row.status {
            WorkflowStatus::Ready => row.wait_kind is None,
            WorkflowStatus::Sleeping => row.wait_kind == Some("timer"@),
            WorkflowStatus::WaitingActivity => row.wait_kind == Some("activity"@)
                && row.wait_reference_id is Some && (activity == Some(ActivityStatus::Pending)
                || activity == Some(ActivityStatus::Running)),
            WorkflowStatus::WaitingChild => row.wait_kind == Some("child"@)
                && row.wait_reference_id is Some && child is Some && !status::workflow_ended(
                child->0,
            ),
            WorkflowStatus::WaitingApproval => row.wait_kind == Some("approval"@)
                && row.wait_reference_id is Some && approval == Some("pending"@),
            WorkflowStatus::Blocked => row.wait_kind == Some("activity"@)
                && row.wait_reference_id is Some && activity == Some(ActivityStatus::DeadLettered),
            _ => false,
        },
    ensures
        ({
            let paused = workflow_paused(row, paused_at);
            &&& pausable(row.status)
            &&& resume_result(row.id as int, paused, activity, child, approval) == Ok::<
                WorkflowStatus,
                ErrorModel,
            >(row.status)
            &&& workflow_resumed(paused, row.status, resumed_at) == (WorkflowRowModel {
                available_at: if row.status == WorkflowStatus::Ready {
                    resumed_at
                } else {
                    row.available_at
                },
                updated_at: resumed_at,
                ..lease::workflow_unleased(row)
            })
        }),
{
    lemma_wait_kinds();
}

/// An interrupted attempt does not count: after a pause an activity may be tried
/// as often again as it could be before the attempt was claimed.
pub proof fn law_pause_gives_the_attempt_back(claimed: ActivityRowModel, now: i64)
    requires
        interrupt_error(claimed) is None,
    ensures
        activity_paused(claimed, now).max_attempts - activity_paused(claimed, now).attempt_count
            == claimed.max_attempts - (claimed.attempt_count - 1),
{
}

/// Runs on demand never collide: each is later than the last one, as long as
/// there is a later time.
pub proof fn law_manual_runs_are_later(last: i64, now: i64)
    requires
        last < i64::MAX,
    ensures
        manual_time(Some(last), now) > last,
        manual_time(Some(last), now) >= now,
{
}

/// An operator's action stands in the history of its workflow with the operator's name
/// and reason; nothing is told to the workflow.
pub proof fn law_history_names_the_operator(
    workflow_id: i64,
    event_type: Seq<char>,
    operator: OperatorModel,
    now: i64,
)
    ensures
        ({
            let event = operator_event(workflow_id, event_type, operator, now);
            &&& event.workflow_id == workflow_id
            &&& event.event_type == event_type
            &&& event.actor_type == "operator"@
            &&& event.actor_id == Some(operator.actor_id)
            &&& event.reason == Some(operator.reason)
            &&& event.delivery_sequence is None
            &&& event.event is None
            &&& event.created_at == now
        }),
{
}

/// What a workflow waits for in another table is what its wait names, in the table that
/// its wait says: a workflow that waits for an activity, a child or an approval is found
/// to wait for that one, and a timer or nothing is found nowhere.
pub proof fn law_wait_names_what_is_awaited(row: WorkflowRowModel, id: i64)
    requires
        row.wait_reference_id == Some(id),
    ensures
        row.wait_kind == Some("activity"@) ==> awaited(row) == Some(AwaitedRow::Activity(id)),
        row.wait_kind == Some("child"@) ==> awaited(row) == Some(AwaitedRow::Child(id)),
        row.wait_kind == Some("approval"@) ==> awaited(row) == Some(AwaitedRow::Approval(id)),
        row.wait_kind == Some("timer"@) ==> awaited(row) is None,
        row.wait_kind is None ==> awaited(row) is None,
{
    lemma_wait_kinds();
}

proof fn lemma_wait_kinds()
    ensures
        "timer"@ != "activity"@,
        "timer"@ != "child"@,
        "timer"@ != "approval"@,
        "activity"@ != "child"@,
        "activity"@ != "approval"@,
        "child"@ != "approval"@,
{
    reveal_strlit("timer");
    reveal_strlit("activity");
    reveal_strlit("child");
    reveal_strlit("approval");
    assert("timer"@.len() == 5 && "child"@.len() == 5 && "activity"@.len() == 8
        && "approval"@.len() == 8);
    assert("timer"@[0] != "child"@[0]);
    assert("activity"@[1] != "approval"@[1]);
}

/// A workflow is paused exactly where it has not ended and is not paused; pausing keeps
/// who it is, how far it came, what it waits for and when it may run, and takes its lease.
pub proof fn law_pause_keeps_the_workflow(row: WorkflowRowModel, now: i64)
    ensures
        pausable(row.status) <==> row.status != WorkflowStatus::Paused && row.status
            != WorkflowStatus::Succeeded && row.status != WorkflowStatus::Failed && row.status
            != WorkflowStatus::Cancelled,
        ({
            let next = workflow_paused(row, now);
            &&& next.status == WorkflowStatus::Paused
            &&& !pausable(next.status)
            &&& coordinator::keeps_all_but_its_lease(row, next)
            &&& next.available_at == row.available_at
            &&& next.updated_at == now
            &&& lease::workflow_lease_consistent(next)
        }),
{
}

/// A resumed workflow has the given status, and is otherwise as it was paused: one that is
/// ready may run now, every other keeps its time.
pub proof fn law_resume_keeps_the_workflow(row: WorkflowRowModel, status: WorkflowStatus, now: i64)
    ensures
        ({
            let next = workflow_resumed(row, status, now);
            &&& next.status == status
            &&& coordinator::keeps_all_but_its_lease(row, next)
            &&& status == WorkflowStatus::Ready ==> next.available_at == now
            &&& status != WorkflowStatus::Ready ==> next.available_at == row.available_at
            &&& next.updated_at == now
            &&& next.lease_owner is None && next.lease_token is None && next.lease_expires_at is None
        }),
{
}

/// Only a paused workflow is resumed, and it goes back to the wait that it still has: to
/// its timer; to its activity while that is open, to being blocked where that has failed
/// for good, on where it has succeeded; to its child while that has not ended; to its
/// approval while that is pending, on otherwise; and on where it waits for nothing.
pub proof fn law_resume_goes_back_to_the_wait(
    workflow_id: int,
    row: WorkflowRowModel,
    activity: ActivityStatus,
    child: WorkflowStatus,
    approval: Seq<char>,
)
    requires
        row.wait_reference_id is Some,
    ensures
        ({
            let result = resume_result(workflow_id, row, Some(activity), Some(child), Some(approval));
            &&& row.status != WorkflowStatus::Paused ==> result is Err
            &&& row.status == WorkflowStatus::Paused ==> {
                &&& row.wait_kind is None ==> result == Ok::<_, ErrorModel>(WorkflowStatus::Ready)
                &&& row.wait_kind == Some("timer"@) ==> result == Ok::<_, ErrorModel>(
                    WorkflowStatus::Sleeping,
                )
                &&& row.wait_kind == Some("activity"@) ==> match activity {
                    ActivityStatus::Pending | ActivityStatus::Running => result == Ok::<
                        _,
                        ErrorModel,
                    >(WorkflowStatus::WaitingActivity),
                    ActivityStatus::DeadLettered => result == Ok::<_, ErrorModel>(
                        WorkflowStatus::Blocked,
                    ),
                    ActivityStatus::Succeeded => result == Ok::<_, ErrorModel>(
                        WorkflowStatus::Ready,
                    ),
                    ActivityStatus::Cancelled => result is Err,
                }
                &&& row.wait_kind == Some("child"@) ==> if status::workflow_ended(child) {
                    result is Err
                } else {
                    result == Ok::<_, ErrorModel>(WorkflowStatus::WaitingChild)
                }
                &&& row.wait_kind == Some("approval"@) ==> result == Ok::<_, ErrorModel>(
                    if approval == "pending"@ {
                        WorkflowStatus::WaitingApproval
                    } else {
                        WorkflowStatus::Ready
                    },
                )
            }
        }),
        resume_target(
            (WorkflowRowModel { wait_kind: Some("activity"@), ..row }),
            None,
            Some(child),
            Some(approval),
        ) is Err,
        resume_target(
            (WorkflowRowModel { wait_kind: Some("child"@), ..row }),
            Some(activity),
            None,
            Some(approval),
        ) is Err,
        resume_target(
            (WorkflowRowModel { wait_kind: Some("approval"@), ..row }),
            Some(activity),
            Some(child),
            None,
        ) is Err,
{
    lemma_wait_kinds();
}

/// An interrupted activity is pending again at once, with one attempt more; what it was
/// asked to do and what its attempts left stay as they were. It is interrupted exactly
/// where its lease is known and one more attempt can be counted.
pub proof fn law_interrupted_activity_is_kept(row: ActivityRowModel, now: i64)
    ensures
        interrupt_error(row) is None <==> row.lease_token is Some && row.max_attempts < i32::MAX,
        interrupt_error(row) is None ==> {
            let next = activity_paused(row, now);
            &&& next.status == ActivityStatus::Pending
            &&& next.available_at == now
            &&& next.max_attempts == row.max_attempts + 1
            &&& next.attempt_count == row.attempt_count
            &&& next.updated_at == now
            &&& lease::activity_lease_consistent(next)
            &&& models::same_activity(
                row,
                (ActivityRowModel { max_attempts: row.max_attempts, ..next }),
            )
            &&& next.provider_result_json == row.provider_result_json
            &&& next.last_error_category == row.last_error_category
            &&& next.last_error_message == row.last_error_message
            &&& next.completed_at == row.completed_at
        },
{
}

/// A workflow is restarted exactly where it has ended, is blocked or is paused, and was
/// not restarted before.
pub proof fn law_only_stopped_workflows_are_restarted(
    workflow_id: int,
    status: WorkflowStatus,
    has_restart: bool,
)
    ensures
        restart_error(workflow_id, status, has_restart) is None <==> !has_restart && (status
            == WorkflowStatus::Succeeded || status == WorkflowStatus::Failed || status
            == WorkflowStatus::Cancelled || status == WorkflowStatus::Blocked || status
            == WorkflowStatus::Paused),
{
}

/// A restart ends the workflow that it replaces, where that has not ended, and tells its
/// parents that it failed with the operator's reason; one that has ended stays untouched.
/// The schedule run goes over to the new workflow, and the answer names both workflows.
pub proof fn law_restart_replaces_its_source(
    plan: RestartPlan,
    workflow_id: WorkflowId,
    source: WorkflowRowModel,
    corrected: bool,
    prepared: PreparedModel,
    started: store::StartOutcome,
    operator: OperatorModel,
    now: i64,
)
    requires
        restart_is(plan, workflow_id, source, corrected, prepared, started, operator, now),
    ensures
        plan.superseded is None <==> source.status == WorkflowStatus::Succeeded || source.status
            == WorkflowStatus::Failed || source.status == WorkflowStatus::Cancelled,
        plan.superseded matches Some(superseded) ==> {
            &&& superseded.next@.status == WorkflowStatus::Cancelled
            &&& superseded.next@.completed_at == Some(now)
            &&& models::same_workflow(source, superseded.next@)
            &&& models::same_progress(source, superseded.next@)
            &&& superseded.ended@ is Failed
            &&& superseded.ended@->message == operator.reason
            &&& superseded.event@.reason == Some(operator.reason)
            &&& superseded.event@.actor_id == Some(operator.actor_id)
        },
        plan.schedule_run_id == source.schedule_run_id,
        plan.source_event@.actor_id == Some(operator.actor_id),
        plan.source_event@.reason == Some(operator.reason),
        plan.created_event@.actor_id == Some(operator.actor_id),
        plan.created_event@.reason == Some(operator.reason),
        plan.source_event@.event_type == (if corrected {
            "workflow_corrected_and_restarted"@
        } else {
            "workflow_restarted"@
        }),
        i64::MIN <= workflow_id@ <= i64::MAX ==> plan.source_event@.workflow_id == workflow_id@,
        i64::MIN <= started.workflow_id@ <= i64::MAX ==> plan.created_event@.workflow_id
            == started.workflow_id@,
        plan.outcome.source_workflow_id == workflow_id,
        plan.outcome.workflow_id == started.workflow_id,
        plan.outcome.kind@ == prepared.kind,
        plan.outcome.version == prepared.version,
{
}

/// An activity is retried exactly where it is the dead letter that its blocked workflow
/// waits for, and its replacement can be counted.
pub proof fn law_only_the_blocking_dead_letter_is_retried(
    activity_id: int,
    workflow_id: int,
    workflow: WorkflowRowModel,
    source: ActivityRowModel,
)
    ensures
        retry_refusal(activity_id, workflow_id, workflow, source) is None <==> {
            &&& workflow.status == WorkflowStatus::Blocked
            &&& workflow.wait_reference_id == Some(source.id)
            &&& source.status == ActivityStatus::DeadLettered
            &&& source.replacement_number < i32::MAX
        },
{
}

/// Replacements of one activity form one chain: each names the one it replaces and the
/// first of them all.
pub proof fn law_replacements_form_one_chain(first: ActivityRowModel, later: ActivityRowModel)
    requires
        later.root_activity_id == Some(root_activity(first)),
    ensures
        root_activity(later) == root_activity(first),
        first.root_activity_id is None ==> root_activity(first) == first.id,
        first.root_activity_id matches Some(root) ==> root_activity(first) == root,
{
}

/// A retry keeps the operation key, so that its side effects count once; a correction gets
/// a key of its own, different for every replacement of every activity.
pub proof fn law_corrections_have_their_own_keys(
    source: ActivityRowModel,
    other: ActivityRowModel,
)
    ensures
        replacement_key(source, false) == source.operation_key,
        replacement_key(source, true) is Some,
        replacement_key(source, true) == replacement_key(other, true) ==> root_activity(source)
            == root_activity(other) && source.replacement_number == other.replacement_number,
{
    reveal_strlit(":correction:");
    if replacement_key(source, true) == replacement_key(other, true) {
        numerals::lemma_two_numbers(
            "durable:activity:"@,
            ":correction:"@,
            root_activity(source) as int,
            source.replacement_number + 1,
            root_activity(other) as int,
            other.replacement_number + 1,
        );
    }
}

/// The replacement of an activity answers the same command of the same workflow and does
/// what its own command says; it is pending at once, with no attempt made, and names the
/// activity that it replaces, the first of the chain, its number and its key.
pub proof fn law_replacement_answers_the_same_command(
    source: ActivityRowModel,
    replacement: Replacement,
    command: ActivityCommand,
    retry_policy_json: Seq<char>,
    now: i64,
)
    requires
        coordinator::activity_insert_error(command) is None,
    ensures
        ({
            let row = replacement_insert(source, replacement, command, retry_policy_json, now);
            &&& row.workflow_id == source.workflow_id
            &&& row.command_sequence == source.command_sequence
            &&& row.kind == command.kind@
            &&& row.version == command.version
            &&& row.topic == command.topic@
            &&& row.payload_json == command.payload_json@
            &&& row.max_attempts == command.max_attempts
            &&& row.retry_policy_json == retry_policy_json
            &&& row.replacement_number == replacement.number
            &&& row.root_activity_id == Some(replacement.root_id)
            &&& row.replaces_activity_id == Some(source.id)
            &&& row.operation_key is Some <==> replacement.operation_key is Some
            &&& replacement.operation_key matches Some(key) ==> row.operation_key == Some(key@)
            &&& row.status == ActivityStatus::Pending
            &&& row.attempt_count == 0
            &&& row.available_at == now
            &&& row.created_at == now
        }),
{
}

/// A blocked workflow whose dead letter was replaced waits for the replacement, with its
/// error forgotten, and a worker may claim that; who it is and how far it came stay.
pub proof fn law_retried_workflow_waits_for_the_replacement(
    row: WorkflowRowModel,
    inserted: ActivityRowModel,
    now: i64,
)
    requires
        inserted.status == ActivityStatus::Pending,
        inserted.available_at <= now,
        inserted.workflow_id == row.id,
    ensures
        ({
            let next = workflow_retried(row, inserted.id, now);
            &&& activity_worker::activity_claimable(inserted, next, now)
            &&& next.wait_kind == Some("activity"@)
            &&& next.error_category is None && next.error_message is None
            &&& next.available_at == now && next.updated_at == now
            &&& models::same_workflow(row, next)
            &&& models::same_progress(row, next)
            &&& next.result_json == row.result_json
            &&& next.completed_at == row.completed_at
            &&& next.activation_attempts == row.activation_attempts
            &&& next.consecutive_continuations == row.consecutive_continuations
            &&& next.lease_owner == row.lease_owner && next.lease_token == row.lease_token
            &&& next.lease_expires_at == row.lease_expires_at
        }),
{
}

/// The actor of schedule and approval controls is a positive number that is read as it is
/// written.
pub proof fn law_actor_number_reads_back(number: int)
    requires
        i32::MIN <= number <= i32::MAX,
    ensures
        match actor_number(numerals::decimal(number)) {
            Ok(actor) => number > 0 && actor == number,
            Err(_) => number <= 0,
        },
{
    numerals::lemma_decimal_round_trip(number);
}

/// An approval is resolved exactly while it is pending, has not run out, and is the one
/// that the workflow waits for under its own kind and version.
pub proof fn law_only_the_awaited_approval_is_resolved(
    approval_id: int,
    workflow_id: int,
    workflow: WorkflowRowModel,
    approval: ApprovalRowModel,
    now: i64,
)
    ensures
        resolution_refusal(approval_id, workflow_id, workflow, approval, now) is None <==> {
            &&& approval.status == "pending"@
            &&& approval.expires_at matches Some(expires_at) ==> now < expires_at
            &&& workflow.status == WorkflowStatus::WaitingApproval || workflow.status
                == WorkflowStatus::Paused
            &&& workflow.wait_kind == Some("approval"@)
            &&& workflow.wait_reference_id == Some(approval.id)
            &&& workflow.kind == approval.kind
            &&& workflow.version == approval.version
        },
        temporal::approval_due(approval, now) ==> resolution_refusal(
            approval_id,
            workflow_id,
            workflow,
            approval,
            now,
        ) is Some,
        matches_approval(workflow, approval) == temporal::awaits_approval(workflow, approval),
{
}

/// A decision reaches its workflow as it was made: the event carries the very decision and
/// answers the command of the approval. The approval is closed now with the decision, the
/// actor and the reason, and the workflow waits no longer.
pub proof fn law_decision_reaches_the_workflow(
    plan: ResolutionPlan,
    approval_id: ApprovalId,
    workflow_id: WorkflowId,
    workflow: WorkflowRowModel,
    approval: ApprovalRowModel,
    decision: Seq<char>,
    metadata_json: Seq<char>,
    operator: OperatorModel,
    actor: i32,
    now: i64,
)
    requires
        resolve_refusal(approval_id, workflow_id, workflow, approval, metadata_json, now) is None,
        resolution_is(
            plan,
            approval_id,
            workflow_id,
            workflow,
            approval,
            decision,
            operator,
            actor,
            now,
        ),
    ensures
        models::same_approval(approval, plan.approval@),
        plan.approval@.status == "resolved"@,
        plan.approval@.decision_payload_json == Some(decision),
        plan.approval@.decided_by == Some(actor),
        plan.approval@.operator_reason == Some(operator.reason),
        plan.approval@.resolved_at == Some(now),
        plan.event@.event matches Some(
            WorkflowEventModel::ApprovalResolved { command_sequence, result },
        ) && command_sequence == approval.command_sequence && result.kind == workflow.kind
            && result.version == workflow.version && result.payload_json == decision,
        plan.event@.workflow_id == workflow.id,
        plan.event@.event_type == "approval_resolved"@,
        plan.event@.delivery_sequence matches Some(position) && position
            == workflow.delivered_event_sequence + 1,
        plan.event@.actor_type == "operator"@,
        plan.event@.actor_id == Some(operator.actor_id),
        plan.event@.reason == Some(operator.reason),
        plan.event@.created_at == now,
        models::same_workflow(workflow, plan.workflow@),
        models::same_progress(workflow, plan.workflow@),
        plan.workflow@.wait_kind is None && plan.workflow@.wait_reference_id is None,
        workflow.status == WorkflowStatus::WaitingApproval ==> plan.workflow@.status
            == WorkflowStatus::Ready,
        workflow.status == WorkflowStatus::Paused ==> plan.workflow@.status
            == WorkflowStatus::Paused,
        plan.outcome.approval_id == approval_id,
        plan.outcome.workflow_id == workflow_id,
        plan.outcome.status@ == "resolved"@,
{
}

/// Behind its own refusals a decision is refused only where the event that tells it is too
/// large or cannot be numbered.
pub proof fn law_decision_is_refused_only_for_a_reason(metadata_json: Seq<char>, delivered: i32)
    ensures
        delivery_refusal(metadata_json, delivered) is None <==> text::utf8_len(metadata_json) <= 16
            * 1024 && delivered < i32::MAX,
{
}

/// A state belongs to a definition exactly where both its version and its fingerprint are
/// the same; a schedule is paused only where it is active, and resumed only where it is
/// paused.
pub proof fn law_schedule_is_switched_once(
    state: ScheduleStateRowModel,
    metadata: MetadataModel,
    paused: bool,
    actor: i32,
    reason: Seq<char>,
    now: i64,
)
    ensures
        state_matches(state, metadata) <==> state.definition_version == metadata.version
            && state.definition_fingerprint == metadata.fingerprint,
        switch_error(state, metadata, paused) is None <==> state_matches(state, metadata) && paused
            == (state.paused_at is None),
        ({
            let next = schedule_switched(state, paused, actor, reason, now);
            &&& switch_error(next, metadata, paused) is Some
            &&& paused ==> next.paused_at == Some(now) && next.paused_by == Some(actor)
                && next.pause_reason == Some(reason)
            &&& !paused ==> next.paused_at is None && next.paused_by is None
                && next.pause_reason is None
            &&& next.updated_at == now
            &&& next.schedule_key == state.schedule_key
            &&& next.definition_fingerprint == state.definition_fingerprint
            &&& next.definition_version == state.definition_version
            &&& next.next_local_occurrence == state.next_local_occurrence
            &&& next.next_occurrence_at == state.next_occurrence_at
            &&& next.last_materialized_at == state.last_materialized_at
            &&& next.created_at == state.created_at
        }),
{
}

/// A run on demand is one of its schedule at its own time, started right away, with the
/// operator's number and reason; runs at different times have different names. It is now
/// where no run is later.
pub proof fn law_run_on_demand_is_recorded(
    schedule_key: Seq<char>,
    scheduled_for: i64,
    other: i64,
    reason: Seq<char>,
    actor: i32,
    now: i64,
)
    ensures
        ({
            let run = manual_insert(schedule_key, scheduled_for, reason, actor, now);
            &&& run.schedule_key == schedule_key
            &&& run.scheduled_for == scheduled_for
            &&& run.materialized_at == now
            &&& run.created_at == now
            &&& run.status == "materializing"@
            &&& run.reason == Some(reason)
            &&& run.actor_id == Some(actor)
            &&& run.workflow_id is None
            &&& run.local_occurrence == manual_insert(
                schedule_key,
                other,
                reason,
                actor,
                now,
            ).local_occurrence ==> scheduled_for == other
        }),
        manual_time(None, now) == now,
        other < now ==> manual_time(Some(other), now) == now,
{
    let prefix = "manual:"@;
    let a = numerals::decimal(scheduled_for as int);
    let b = numerals::decimal(other as int);
    if prefix + a == prefix + b {
        assert((prefix + a).skip(prefix.len() as int) =~= a);
        assert((prefix + b).skip(prefix.len() as int) =~= b);
        numerals::lemma_decimal_round_trip(scheduled_for as int);
        numerals::lemma_decimal_round_trip(other as int);
    }
}

} // verus!
