//! Timers that fire and approvals that expire.
use vstd::prelude::*;
use crate::error::{ensure_size, DurableError, ErrorModel};
use crate::ids::{ApprovalId, WorkflowId};
use crate::numerals;
use crate::numerals::decimal_i64;
use crate::persistence::events;
use crate::persistence::events::{delivery_event, next_delivery_sequence, EventDraft};
use crate::persistence::models;
use crate::persistence::models::{ApprovalRow, ApprovalRowModel, WorkflowRow, WorkflowRowModel};
use crate::persistence::status::WorkflowStatus;
use crate::persistence::workflows;
use crate::persistence::workflows::{clear_wait, command_number};
use crate::text::{is_some_text, join3, join5, same_text};
use crate::transition::{WorkflowEvent, WorkflowEventModel};
use crate::MAX_EVENT_METADATA_BYTES;

verus! {

/// What a workflow that is told of a passed time becomes, and the event.
#[derive(Debug)]
pub struct Wake {
    pub workflow_id: WorkflowId,
    pub next: WorkflowRow,
    pub event: EventDraft,
}

/// Why the command that a workflow waits for cannot be told.
pub open spec fn wait_command_error(workflow: WorkflowRowModel, kind: Seq<char>) -> Option<
    ErrorModel,
> {
    let name = "workflow "@ + numerals::decimal(workflow.id as int);
    match workflow.wait_reference_id {
        None => Some(ErrorModel::InvalidState(name + " "@ + kind + " wait has no reference"@)),
        Some(reference) => if kind == "timer"@ && reference != workflow.command_sequence {
            Some(
                ErrorModel::InvalidState(
                    name + " timer reference does not match its command sequence"@,
                ),
            )
        } else if workflow.command_sequence < 0 {
            Some(ErrorModel::InvalidState(name + " has a negative command sequence"@))
        } else {
            None
        },
    }
}

/// The number of the command that a workflow waits for.
pub fn wait_command_sequence(workflow: &WorkflowRow, kind: &str) -> (result: Result<
    u32,
    DurableError,
>)
    ensures
        match result {
            Ok(number) => wait_command_error(workflow@, kind@) is None && number
                == workflow@.command_sequence,
            Err(error) => wait_command_error(workflow@, kind@) == Some(error@),
        },
{
    match workflow.wait_reference_id {
        None => {
            Err(
                DurableError::InvalidState(
                    join5(
                        "workflow ",
                        decimal_i64(workflow.id).as_str(),
                        " ",
                        kind,
                        " wait has no reference",
                    ),
                ),
            )
        },
        Some(reference) => {
            if same_text(kind, "timer") && reference != workflow.command_sequence as i64 {
                return Err(
                    DurableError::InvalidState(
                        join3(
                            "workflow ",
                            decimal_i64(workflow.id).as_str(),
                            " timer reference does not match its command sequence",
                        ),
                    ),
                );
            }
            command_number(workflow.id, workflow.command_sequence)
        },
    }
}

/// Why a delivery cannot be appended to a workflow's history.
pub open spec fn delivery_error(workflow: WorkflowRowModel) -> Option<ErrorModel> {
    if events::successor(workflow.delivered_event_sequence as int) is None {
        Some(ErrorModel::InvalidState("workflow delivery sequence overflow"@))
    } else if workflow.id <= 0 {
        Some(ErrorModel::InvalidId(workflow.id as int))
    } else {
        None
    }
}

/// Refuses metadata of a timer or approval event that is too large to store.
pub fn check_event_metadata(metadata_json: &str) -> (result: Result<(), DurableError>)
    ensures
        crate::error::result_model(result) == crate::error::size_result(
            "temporal workflow event"@,
            metadata_json@,
            MAX_EVENT_METADATA_BYTES as int,
        ),
{
    ensure_size("temporal workflow event", metadata_json, MAX_EVENT_METADATA_BYTES)
}

fn deliver(workflow: WorkflowRow, event_type: &'static str, event: WorkflowEvent, now: i64) -> (
result: Result<Wake, DurableError>)
    ensures
        match result {
            Ok(wake) => {
                &&& delivery_error(workflow@) is None
                &&& wake.workflow_id@ == workflow@.id
                &&& wake.next@ == workflows::wait_cleared(workflow@, now)
                &&& wake.event@ == events::delivery_model(
                    workflow@.id,
                    (workflow@.delivered_event_sequence + 1) as i32,
                    event_type@,
                    event@,
                    now,
                )
            },
            Err(error) => delivery_error(workflow@) == Some(error@),
        },
{
    let delivery_sequence: i32 = match next_delivery_sequence(workflow.delivered_event_sequence) {
        Ok(sequence) => sequence,
        Err(error) => return Err(error),
    };
    let workflow_id = match WorkflowId::new(workflow.id) {
        Ok(id) => id,
        Err(error) => return Err(error),
    };
    let event = delivery_event(workflow.id, delivery_sequence, event_type, event, now);
    Ok(Wake { workflow_id, next: clear_wait(workflow, now), event })
}

/// Whether a sleeping workflow's timer has run out.
pub open spec fn timer_due(workflow: WorkflowRowModel, now: i64) -> bool {
    &&& workflow.status == WorkflowStatus::Sleeping
    &&& workflow.wait_kind == Some("timer"@)
    &&& workflow.available_at <= now
}

/// Why a due timer cannot fire.
pub open spec fn timer_error(workflow: WorkflowRowModel) -> Option<ErrorModel> {
    match wait_command_error(workflow, "timer"@) {
        Some(error) => Some(error),
        None => delivery_error(workflow),
    }
}

/// What a timer that fires does to its workflow.
pub open spec fn fired_is(wake: Wake, workflow: WorkflowRowModel, now: i64) -> bool {
    &&& wake.workflow_id@ == workflow.id
    &&& wake.next@ == workflows::wait_cleared(workflow, now)
    &&& wake.event@ == events::delivery_model(
        workflow.id,
        (workflow.delivered_event_sequence + 1) as i32,
        "timer_fired"@,
        WorkflowEventModel::TimerFired { command_sequence: workflow.command_sequence as u32 },
        now,
    )
}

/// Fires the timer of a sleeping workflow; gives nothing where it is not due.
pub fn fire_timer(workflow: WorkflowRow, now: i64) -> (result: Result<Option<Wake>, DurableError>)
    ensures
        match result {
            Ok(None) => !timer_due(workflow@, now),
            Ok(Some(wake)) => {
                &&& timer_due(workflow@, now)
                &&& timer_error(workflow@) is None
                &&& fired_is(wake, workflow@, now)
            },
            Err(error) => timer_due(workflow@, now) && timer_error(workflow@) == Some(error@),
        },
{
    if workflow.status != WorkflowStatus::Sleeping || !is_some_text(&workflow.wait_kind, "timer")
        || workflow.available_at > now {
        return Ok(None);
    }
    let command_sequence: u32 = match wait_command_sequence(&workflow, "timer") {
        Ok(number) => number,
        Err(error) => return Err(error),
    };
    match deliver(workflow, "timer_fired", WorkflowEvent::TimerFired { command_sequence }, now) {
        Ok(wake) => Ok(Some(wake)),
        Err(error) => Err(error),
    }
}

/// Whether a pending approval has run out.
pub open spec fn approval_due(approval: ApprovalRowModel, now: i64) -> bool {
    &&& approval.status == "pending"@
    &&& approval.expires_at matches Some(expires_at) && expires_at <= now
}

/// Whether a workflow waits for the given approval, perhaps while paused.
pub open spec fn awaits_approval(workflow: WorkflowRowModel, approval: ApprovalRowModel) -> bool {
    &&& workflow.status == WorkflowStatus::WaitingApproval || workflow.status
        == WorkflowStatus::Paused
    &&& workflow.wait_kind == Some("approval"@)
    &&& workflow.wait_reference_id == Some(approval.id)
    &&& workflow.kind == approval.kind
    &&& workflow.version == approval.version
}

/// Whether a workflow waits for the given approval, perhaps while paused.
pub fn is_awaiting_approval(workflow: &WorkflowRow, approval: &ApprovalRow) -> (yes: bool)
    ensures
        yes == awaits_approval(workflow@, approval@),
{
    let status = match workflow.status {
        WorkflowStatus::WaitingApproval | WorkflowStatus::Paused => true,
        _ => false,
    };
    let reference = match workflow.wait_reference_id {
        Some(reference) => reference == approval.id,
        None => false,
    };
    status && is_some_text(&workflow.wait_kind, "approval") && reference && same_text(
        workflow.kind.as_str(),
        approval.kind.as_str(),
    ) && workflow.version == approval.version
}

/// Why a due approval cannot expire.
pub open spec fn expiry_error(workflow: WorkflowRowModel, approval: ApprovalRowModel) -> Option<
    ErrorModel,
> {
    if !awaits_approval(workflow, approval) {
        Some(
            ErrorModel::InvalidState(
                "expired approval "@ + numerals::decimal(approval.id as int)
                    + " no longer matches workflow "@ + numerals::decimal(workflow.id as int),
            ),
        )
    } else {
        match wait_command_error(workflow, "approval"@) {
            Some(error) => Some(error),
            None => if workflow.command_sequence != approval.command_sequence {
                Some(
                    ErrorModel::InvalidState(
                        "approval "@ + numerals::decimal(approval.id as int)
                            + " command sequence does not match workflow "@ + numerals::decimal(
                            workflow.id as int,
                        ),
                    ),
                )
            } else {
                match delivery_error(workflow) {
                    Some(error) => Some(error),
                    None => if approval.id <= 0 {
                        Some(ErrorModel::InvalidId(approval.id as int))
                    } else {
                        None
                    },
                }
            },
        }
    }
}

/// What the expiry of an approval writes.
#[derive(Debug)]
pub struct Expiry {
    pub approval_id: ApprovalId,
    pub approval: ApprovalRow,
    pub next: WorkflowRow,
    pub event: EventDraft,
}

/// The row of an approval that expired.
pub open spec fn approval_expired(approval: ApprovalRowModel, now: i64) -> ApprovalRowModel {
    ApprovalRowModel { status: "expired"@, resolved_at: Some(now), ..approval }
}

/// What an approval that expires does to itself and to its workflow.
pub open spec fn expiry_is(
    expiry: Expiry,
    workflow: WorkflowRowModel,
    approval: ApprovalRowModel,
    now: i64,
) -> bool {
    &&& expiry.approval_id@ == approval.id
    &&& expiry.approval@ == approval_expired(approval, now)
    &&& expiry.next@ == workflows::wait_cleared(workflow, now)
    &&& expiry.event@ == events::delivery_model(
        workflow.id,
        (workflow.delivered_event_sequence + 1) as i32,
        "approval_expired"@,
        WorkflowEventModel::ApprovalExpired { command_sequence: workflow.command_sequence as u32 },
        now,
    )
}

/// Expires a pending approval; gives nothing where it is not due.
pub fn expire_approval(workflow: WorkflowRow, approval: ApprovalRow, now: i64) -> (result: Result<
    Option<Expiry>,
    DurableError,
>)
    ensures
        match result {
            Ok(None) => !approval_due(approval@, now),
            Ok(Some(expiry)) => {
                &&& approval_due(approval@, now)
                &&& expiry_error(workflow@, approval@) is None
                &&& expiry_is(expiry, workflow@, approval@, now)
            },
            Err(error) => approval_due(approval@, now) && expiry_error(workflow@, approval@)
                == Some(error@),
        },
{
    let due = match approval.expires_at {
        Some(expires_at) => expires_at <= now,
        None => false,
    };
    if !same_text(approval.status.as_str(), "pending") || !due {
        return Ok(None);
    }
    if !is_awaiting_approval(&workflow, &approval) {
        let mut message = join3(
            "expired approval ",
            decimal_i64(approval.id).as_str(),
            " no longer matches workflow ",
        );
        message.append(decimal_i64(workflow.id).as_str());
        return Err(DurableError::InvalidState(message));
    }
    proof {
        reveal_strlit("approval");
        reveal_strlit("timer");
        assert("approval"@.len() != "timer"@.len());
    }
    let command_sequence: u32 = match wait_command_sequence(&workflow, "approval") {
        Ok(number) => number,
        Err(error) => return Err(error),
    };
    if command_sequence as i64 != approval.command_sequence as i64 {
        let mut message = join3(
            "approval ",
            decimal_i64(approval.id).as_str(),
            " command sequence does not match workflow ",
        );
        message.append(decimal_i64(workflow.id).as_str());
        return Err(DurableError::InvalidState(message));
    }
    let wake = match deliver(
        workflow,
        "approval_expired",
        WorkflowEvent::ApprovalExpired { command_sequence },
        now,
    ) {
        Ok(wake) => wake,
        Err(error) => return Err(error),
    };
    let approval_id = match ApprovalId::new(approval.id) {
        Ok(id) => id,
        Err(error) => return Err(error),
    };
    let mut expired = approval;
    expired.status = "expired".to_owned();
    expired.resolved_at = Some(now);
    Ok(Some(Expiry { approval_id, approval: expired, next: wake.next, event: wake.event }))
}

/// A timer fires when its time has come and not before: a sleeping workflow whose timer
/// was set to a time is due from that time on.
pub proof fn law_timer_fires_when_due(workflow: WorkflowRowModel, now: i64)
    requires
        workflow.status == WorkflowStatus::Sleeping,
        workflow.wait_kind == Some("timer"@),
    ensures
        timer_due(workflow, now) <==> now >= workflow.available_at,
        timer_due(workflow, workflow.available_at),
{
}

/// A fired timer answers the command that the workflow sleeps with, at the position
/// behind the last told event; the workflow then waits for nothing and may run now.
pub proof fn law_fired_timer_answers_its_command(wake: Wake, workflow: WorkflowRowModel, now: i64)
    requires
        timer_due(workflow, now),
        timer_error(workflow) is None,
        fired_is(wake, workflow, now),
    ensures
        wake.workflow_id@ == workflow.id,
        wake.event@.workflow_id == workflow.id,
        wake.event@.event_type == "timer_fired"@,
        wake.event@.created_at == now,
        wake.event@.delivery_sequence matches Some(position) && position
            == workflow.delivered_event_sequence + 1,
        wake.event@.event matches Some(WorkflowEventModel::TimerFired { command_sequence })
            && command_sequence == workflow.command_sequence,
        models::same_workflow(workflow, wake.next@),
        models::same_progress(workflow, wake.next@),
        wake.next@.status == WorkflowStatus::Ready,
        wake.next@.wait_kind is None,
        wake.next@.available_at == now,
        !timer_due(wake.next@, now),
{
}

/// A due timer is refused only where the workflow does not sleep with its last command
/// or a number is out of range.
pub proof fn law_timer_is_refused_only_for_a_reason(workflow: WorkflowRowModel)
    ensures
        timer_error(workflow) is None <==> {
            &&& workflow.wait_reference_id matches Some(reference) && reference
                == workflow.command_sequence
            &&& workflow.command_sequence >= 0
            &&& workflow.delivered_event_sequence < i32::MAX
            &&& workflow.id > 0
        },
{
}

/// An approval expires when its time has come and not before, and only while it is
/// pending; one without an end never expires, and one that expired does not again.
pub proof fn law_approval_expires_when_due(approval: ApprovalRowModel, at: i64, now: i64)
    ensures
        approval_due(approval, now) ==> approval.status == "pending"@ && approval.expires_at is Some
            && approval.expires_at->0 <= now,
        approval.status == "pending"@ && approval.expires_at == Some(at) && at <= now
            ==> approval_due(approval, now),
        !approval_due(approval_expired(approval, now), now),
{
    reveal_strlit("pending");
    reveal_strlit("expired");
    assert("pending"@[0] == 'p');
    assert("expired"@[0] == 'e');
}

/// An expired approval is closed now without a decision, and its workflow is told so:
/// the event answers the command that the workflow waits with, which is the approval's.
pub proof fn law_expired_approval_answers_its_command(
    expiry: Expiry,
    workflow: WorkflowRowModel,
    approval: ApprovalRowModel,
    now: i64,
)
    requires
        expiry_error(workflow, approval) is None,
        expiry_is(expiry, workflow, approval, now),
    ensures
        expiry.approval_id@ == approval.id,
        models::same_approval(approval, expiry.approval@),
        expiry.approval@.status == "expired"@,
        expiry.approval@.resolved_at == Some(now),
        expiry.approval@.decision_payload_json == approval.decision_payload_json,
        expiry.approval@.decided_by == approval.decided_by,
        expiry.approval@.operator_reason == approval.operator_reason,
        expiry.event@.workflow_id == workflow.id,
        expiry.event@.event_type == "approval_expired"@,
        expiry.event@.created_at == now,
        expiry.event@.delivery_sequence matches Some(position) && position
            == workflow.delivered_event_sequence + 1,
        expiry.event@.event matches Some(WorkflowEventModel::ApprovalExpired { command_sequence })
            && command_sequence == workflow.command_sequence && command_sequence
            == approval.command_sequence,
        models::same_workflow(workflow, expiry.next@),
        models::same_progress(workflow, expiry.next@),
        expiry.next@.wait_kind is None && expiry.next@.wait_reference_id is None,
        workflow.status == WorkflowStatus::WaitingApproval ==> expiry.next@.status
            == WorkflowStatus::Ready,
        workflow.status == WorkflowStatus::Paused ==> expiry.next@.status
            == WorkflowStatus::Paused,
{
}

/// An approval belongs to the one workflow that waits for it under its number, kind and
/// version; another approval, and a workflow that waits for something else, do not match.
pub proof fn law_approval_matches_one_wait(
    workflow: WorkflowRowModel,
    approval: ApprovalRowModel,
)
    ensures
        awaits_approval(workflow, approval) ==> {
            &&& workflow.wait_reference_id == Some(approval.id)
            &&& workflow.wait_kind == Some("approval"@)
            &&& workflow.kind == approval.kind
            &&& workflow.version == approval.version
            &&& workflow.status == WorkflowStatus::WaitingApproval || workflow.status
                == WorkflowStatus::Paused
        },
        workflow.status == WorkflowStatus::WaitingApproval && workflow.wait_kind == Some(
            "approval"@,
        ) && workflow.wait_reference_id == Some(approval.id) && workflow.kind == approval.kind
            && workflow.version == approval.version ==> awaits_approval(workflow, approval)
            && awaits_approval(
            (WorkflowRowModel { status: WorkflowStatus::Paused, ..workflow }),
            approval,
        ),
{
}

} // verus!
