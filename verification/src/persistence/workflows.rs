//! Starting workflows and waking the parents of ended children.
use vstd::prelude::*;
use crate::error::{conflict, invalid_state, DurableError, ErrorModel};
use crate::ids::WorkflowId;
use crate::numerals;
use crate::numerals::decimal_i64;
use crate::persistence::events;
use crate::persistence::events::{delivery_event, next_delivery_sequence, EventDraft};
use crate::persistence::models;
use crate::persistence::models::{
    NewWorkflowEventRow, NewWorkflowEventRowModel, WorkflowRow, WorkflowRowModel,
};
use crate::persistence::status::WorkflowStatus;
use crate::text;
use crate::text::{is_some_text, join3};
use crate::transition::{
    ChildOutcome, ChildOutcomeModel, StepResult, StepResultModel, WorkflowEvent, WorkflowEventModel,
};

verus! {

/// What came of inserting a workflow row.
#[derive(Debug, Clone, Copy, PartialEq, Eq, Structural)]
pub enum WorkflowInsert {
    Inserted(i64),
    DeduplicationConflict,
}

/// The first event of a workflow.
pub open spec fn start_record(workflow_id: i64, created_at: i64) -> NewWorkflowEventRowModel {
    NewWorkflowEventRowModel {
        workflow_id,
        sequence: 1,
        delivery_sequence: Some(1),
        event_type: "started"@,
        metadata_json: None,
        actor_type: Some("system"@),
        actor_id: None,
        reason: None,
        created_at,
    }
}

/// The first event of a workflow: its start is delivered to it.
pub fn started_event(workflow_id: i64, created_at: i64) -> (row: NewWorkflowEventRow)
    ensures
        row@ == start_record(workflow_id, created_at),
{
    NewWorkflowEventRow {
        workflow_id,
        sequence: 1,
        delivery_sequence: Some(1),
        event_type: "started".to_owned(),
        metadata_json: None,
        actor_type: Some("system".to_owned()),
        actor_id: None,
        reason: None,
        created_at,
    }
}

/// The workflow that a start yields and whether this start inserted it.
///
/// `existing` is the row found under the deduplication key after a conflict.
pub open spec fn start_result(
    insert: WorkflowInsert,
    has_key: bool,
    existing: Option<i64>,
) -> Result<(i64, bool), ErrorModel> {
    match insert {
        WorkflowInsert::Inserted(id) => Ok((id, true)),
        WorkflowInsert::DeduplicationConflict => if !has_key {
            Err(
                ErrorModel::InvalidState(
                    "workflow deduplication conflict without a deduplication key"@,
                ),
            )
        } else {
            match existing {
                Some(id) => Ok((id, false)),
                None => Err(
                    ErrorModel::Conflict(
                        "duplicate start raced with an uncommitted insert outside READ COMMITTED; retry"@,
                    ),
                ),
            }
        },
    }
}

/// Settles which workflow a start yields.
pub fn settle_start(insert: WorkflowInsert, has_key: bool, existing: Option<i64>) -> (result:
    Result<(i64, bool), DurableError>)
    ensures
        crate::error::result_model(result) == start_result(insert, has_key, existing),
{
    match insert {
        WorkflowInsert::Inserted(id) => Ok((id, true)),
        WorkflowInsert::DeduplicationConflict => {
            if !has_key {
                return Err(
                    invalid_state("workflow deduplication conflict without a deduplication key"),
                );
            }
            match existing {
                Some(id) => Ok((id, false)),
                None => Err(
                    conflict(
                        "duplicate start raced with an uncommitted insert outside READ COMMITTED; retry",
                    ),
                ),
            }
        },
    }
}

/// Whether a workflow waits for the given child, perhaps while paused.
pub open spec fn awaits_child(parent: WorkflowRowModel, child_workflow_id: i64) -> bool {
    &&& parent.status == WorkflowStatus::WaitingChild || parent.status == WorkflowStatus::Paused
    &&& parent.wait_kind == Some("child"@)
    &&& parent.wait_reference_id == Some(child_workflow_id)
}

/// The event that tells a parent how its child ended.
pub open spec fn child_event(
    command_sequence: u32,
    child_kind: Seq<char>,
    child_version: i32,
    outcome: ChildOutcomeModel,
) -> WorkflowEventModel {
    match outcome {
        ChildOutcomeModel::Succeeded { output_json } => WorkflowEventModel::ChildSucceeded {
            command_sequence,
            result: StepResultModel { kind: child_kind, version: child_version, output_json },
        },
        ChildOutcomeModel::Failed { category, message } => WorkflowEventModel::ChildFailed {
            command_sequence,
            kind: child_kind,
            version: child_version,
            category,
            message,
        },
    }
}

/// The row of a workflow whose wait is over: ready to run, or still paused.
pub open spec fn wait_cleared(row: WorkflowRowModel, now: i64) -> WorkflowRowModel {
    WorkflowRowModel {
        status: if row.status == WorkflowStatus::Paused {
            WorkflowStatus::Paused
        } else {
            WorkflowStatus::Ready
        },
        wait_kind: None,
        wait_reference_id: None,
        available_at: now,
        updated_at: now,
        ..row
    }
}

/// The parent's next row and the event delivered to it.
#[derive(Debug)]
pub struct ParentWake {
    pub next: WorkflowRow,
    pub event: EventDraft,
}

/// What the end of a child does to the parent that awaits it.
pub open spec fn wake_is(
    wake: ParentWake,
    parent: WorkflowRowModel,
    child_kind: Seq<char>,
    child_version: i32,
    outcome: ChildOutcomeModel,
    now: i64,
) -> bool {
    &&& wake.next@ == wait_cleared(parent, now)
    &&& wake.event@ == events::delivery_model(
        parent.id,
        (parent.delivered_event_sequence + 1) as i32,
        match outcome {
            ChildOutcomeModel::Succeeded { .. } => "child_succeeded"@,
            ChildOutcomeModel::Failed { .. } => "child_failed"@,
        },
        child_event(parent.command_sequence as u32, child_kind, child_version, outcome),
        now,
    )
}

/// Why an awaiting parent cannot be woken.
pub open spec fn wake_error(parent: WorkflowRowModel) -> Option<ErrorModel> {
    if parent.command_sequence < 0 {
        Some(
            ErrorModel::InvalidState(
                "workflow "@ + numerals::decimal(parent.id as int)
                    + " has a negative command sequence"@,
            ),
        )
    } else if events::successor(parent.delivered_event_sequence as int) is None {
        Some(ErrorModel::InvalidState("workflow delivery sequence overflow"@))
    } else if parent.id <= 0 {
        Some(ErrorModel::InvalidId(parent.id as int))
    } else {
        None
    }
}

/// A command number as the non-negative number that events carry.
pub fn command_number(workflow_id: i64, command_sequence: i32) -> (result: Result<u32, DurableError>)
    ensures
        match result {
            Ok(number) => number == command_sequence,
            Err(error) => command_sequence < 0 && error@ == ErrorModel::InvalidState(
                "workflow "@ + numerals::decimal(workflow_id as int)
                    + " has a negative command sequence"@,
            ),
        },
{
    if command_sequence < 0 {
        return Err(
            DurableError::InvalidState(
                join3(
                    "workflow ",
                    decimal_i64(workflow_id).as_str(),
                    " has a negative command sequence",
                ),
            ),
        );
    }
    Ok(command_sequence as u32)
}

/// Delivers the end of a child to a parent that may await it.
///
/// Gives nothing where the parent does not wait for this child (any more).
pub fn wake_parent(
    parent: WorkflowRow,
    child_workflow_id: i64,
    child_kind: &str,
    child_version: i32,
    outcome: &ChildOutcome,
    now: i64,
) -> (result: Result<Option<ParentWake>, DurableError>)
    ensures
        match result {
            Ok(None) => !awaits_child(parent@, child_workflow_id),
            Ok(Some(wake)) => {
                &&& awaits_child(parent@, child_workflow_id)
                &&& wake_error(parent@) is None
                &&& wake_is(wake, parent@, child_kind@, child_version, outcome@, now)
            },
            Err(error) => {
                &&& awaits_child(parent@, child_workflow_id)
                &&& wake_error(parent@) == Some(error@)
            },
        },
{
    let awaiting_status = match parent.status {
        WorkflowStatus::WaitingChild | WorkflowStatus::Paused => true,
        _ => false,
    };
    let awaiting_reference = match parent.wait_reference_id {
        Some(reference) => reference == child_workflow_id,
        None => false,
    };
    if !awaiting_status || !is_some_text(&parent.wait_kind, "child") || !awaiting_reference {
        return Ok(None);
    }
    let command_sequence: u32 = match command_number(parent.id, parent.command_sequence) {
        Ok(number) => number,
        Err(error) => return Err(error),
    };
    let delivery_sequence: i32 = match next_delivery_sequence(parent.delivered_event_sequence) {
        Ok(sequence) => sequence,
        Err(error) => return Err(error),
    };
    match WorkflowId::new(parent.id) {
        Ok(_) => {},
        Err(error) => return Err(error),
    }
    let event = match outcome {
        ChildOutcome::Succeeded { output_json } => delivery_event(
            parent.id,
            delivery_sequence,
            "child_succeeded",
            WorkflowEvent::ChildSucceeded {
                command_sequence,
                result: StepResult {
                    kind: child_kind.to_owned(),
                    version: child_version,
                    output_json: output_json.clone(),
                },
            },
            now,
        ),
        ChildOutcome::Failed { category, message } => delivery_event(
            parent.id,
            delivery_sequence,
            "child_failed",
            WorkflowEvent::ChildFailed {
                command_sequence,
                kind: child_kind.to_owned(),
                version: child_version,
                category: category.clone(),
                message: message.clone(),
            },
            now,
        ),
    };
    let next = clear_wait(parent, now);
    Ok(Some(ParentWake { next, event }))
}

/// Ends the wait of a workflow: it becomes ready, or stays paused.
pub fn clear_wait(row: WorkflowRow, now: i64) -> (next: WorkflowRow)
    ensures
        next@ == wait_cleared(row@, now),
{
    let mut next = row;
    if next.status != WorkflowStatus::Paused {
        next.status = WorkflowStatus::Ready;
    }
    next.wait_kind = None;
    next.wait_reference_id = None;
    next.available_at = now;
    next.updated_at = now;
    next
}

/// Why a workflow could not be inserted although its deduplication key was
/// free: the workflow that it restarts has been restarted before.
pub fn restart_conflict(restarted_from_workflow_id: Option<i64>) -> (error: DurableError)
    ensures
        error@ == ErrorModel::Conflict(
            match restarted_from_workflow_id {
                Some(id) => "workflow "@ + numerals::decimal(id as int)
                    + " already has a successor"@,
                None => "workflow insert conflicted without a deduplication or restart key"@,
            },
        ),
{
    match restarted_from_workflow_id {
        Some(id) => DurableError::Conflict(
            join3("workflow ", decimal_i64(id).as_str(), " already has a successor"),
        ),
        None => conflict("workflow insert conflicted without a deduplication or restart key"),
    }
}

/// Whether a write changed exactly one row; anything else lost its fence.
pub fn ensure_changed(changed: usize) -> (result: Result<(), DurableError>)
    ensures
        match result {
            Ok(()) => changed == 1,
            Err(error) => changed != 1 && error@ == ErrorModel::FencedWrite,
        },
{
    if changed == 1 {
        Ok(())
    } else {
        Err(DurableError::FencedWrite)
    }
}

/// A workflow whose wait is over waits for nothing and may run now, unless it is
/// paused; who it is, how far it came, its lease and its end stay as they were.
pub proof fn law_ended_wait_keeps_the_workflow(row: WorkflowRowModel, now: i64)
    ensures
        ({
            let next = wait_cleared(row, now);
            &&& models::same_workflow(row, next)
            &&& models::same_progress(row, next)
            &&& models::same_end(row, next)
            &&& next.wait_kind is None && next.wait_reference_id is None
            &&& next.available_at == now && next.updated_at == now
            &&& row.status == WorkflowStatus::Paused ==> next.status == WorkflowStatus::Paused
            &&& row.status != WorkflowStatus::Paused ==> next.status == WorkflowStatus::Ready
            &&& next.activation_attempts == row.activation_attempts
            &&& next.consecutive_continuations == row.consecutive_continuations
            &&& next.lease_owner == row.lease_owner && next.lease_token == row.lease_token
            &&& next.lease_expires_at == row.lease_expires_at
            &&& next.completed_at == row.completed_at
        }),
{
}

/// The end of a child is told to its parent as it was: its kind and version, the very
/// output of a success, the very category and message of a failure. It answers the
/// command that the parent waits with, at the position behind the last told event,
/// and the parent then waits for nothing.
pub proof fn law_parent_is_told_how_its_child_ended(
    wake: ParentWake,
    parent: WorkflowRowModel,
    child_kind: Seq<char>,
    child_version: i32,
    outcome: ChildOutcomeModel,
    now: i64,
)
    requires
        wake_error(parent) is None,
        wake_is(wake, parent, child_kind, child_version, outcome, now),
    ensures
        wake.event@.workflow_id == parent.id,
        wake.event@.created_at == now,
        wake.event@.delivery_sequence matches Some(position) && position
            == parent.delivered_event_sequence + 1,
        match outcome {
            ChildOutcomeModel::Succeeded { output_json } => wake.event@.event matches Some(
                WorkflowEventModel::ChildSucceeded { command_sequence, result },
            ) && command_sequence == parent.command_sequence && result.kind == child_kind
                && result.version == child_version && result.output_json == output_json
                && wake.event@.event_type == "child_succeeded"@,
            ChildOutcomeModel::Failed { category, message } => wake.event@.event matches Some(
                WorkflowEventModel::ChildFailed {
                    command_sequence,
                    kind,
                    version,
                    category: told_category,
                    message: told_message,
                },
            ) && command_sequence == parent.command_sequence && kind == child_kind && version
                == child_version && told_category == category && told_message == message
                && wake.event@.event_type == "child_failed"@,
        },
        models::same_workflow(parent, wake.next@),
        models::same_progress(parent, wake.next@),
        !awaits_child(wake.next@, parent.wait_reference_id->0),
{
}

/// Only a workflow that waits for this very child, as a child, is woken by its end; it
/// is woken also while it is paused.
pub proof fn law_only_the_awaiting_parent_is_woken(parent: WorkflowRowModel, child: i64, other: i64)
    requires
        awaits_child(parent, child),
    ensures
        awaits_child(parent, other) ==> other == child,
        parent.wait_kind == Some("child"@),
        parent.wait_reference_id == Some(child),
        parent.status == WorkflowStatus::WaitingChild || parent.status == WorkflowStatus::Paused,
        awaits_child(
            (WorkflowRowModel { status: WorkflowStatus::WaitingChild, ..parent }),
            child,
        ),
        awaits_child((WorkflowRowModel { status: WorkflowStatus::Paused, ..parent }), child),
{
}

/// A waiting parent is refused its wake only for a number out of range.
pub proof fn law_wake_is_refused_only_for_numbers(parent: WorkflowRowModel)
    ensures
        wake_error(parent) is None <==> parent.command_sequence >= 0
            && parent.delivered_event_sequence < i32::MAX && parent.id > 0,
{
}

/// A start yields the workflow that it inserted, as inserted; after a conflict on its
/// key it yields the one that was there, as not inserted; and nothing else.
pub proof fn law_start_yields_one_workflow(insert: WorkflowInsert, has_key: bool, existing: Option<i64>)
    ensures
        match start_result(insert, has_key, existing) {
            Ok((id, inserted)) => {
                &&& inserted <==> insert == WorkflowInsert::Inserted(id)
                &&& !inserted ==> has_key && existing == Some(id)
            },
            Err(_) => insert == WorkflowInsert::DeduplicationConflict && (!has_key
                || existing is None),
        },
{
}

/// The history of a workflow begins with its start, which the engine records and which is
/// the first event that the workflow is told.
pub proof fn law_history_begins_with_the_start(workflow_id: i64, created_at: i64)
    ensures
        start_record(workflow_id, created_at).workflow_id == workflow_id,
        start_record(workflow_id, created_at).created_at == created_at,
        start_record(workflow_id, created_at).sequence == 1,
        start_record(workflow_id, created_at).delivery_sequence == Some(1i32),
        start_record(workflow_id, created_at).event_type == "started"@,
        start_record(workflow_id, created_at).actor_type == Some("system"@),
        start_record(workflow_id, created_at).metadata_json is None,
{
}

} // verus!
