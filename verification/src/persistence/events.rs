//! Events appended to a workflow's history.
use vstd::prelude::*;
use crate::error::{invalid_state, DurableError, ErrorModel};
use crate::persistence::models::{NewWorkflowEventRow, NewWorkflowEventRowModel};
use crate::text;
use crate::transition::{WorkflowEvent, WorkflowEventModel};

verus! {

/// An event before its position in the history and its stored metadata are known.
///
/// Where `event` is present the metadata is its JSON text.
#[derive(Debug)]
pub struct EventDraft {
    pub workflow_id: i64,
    pub delivery_sequence: Option<i32>,
    pub event_type: &'static str,
    pub event: Option<WorkflowEvent>,
    pub actor_type: &'static str,
    pub actor_id: Option<String>,
    pub reason: Option<String>,
    pub created_at: i64,
}

/// The mathematical content of an [`EventDraft`].
#[verifier::ext_equal]
pub struct EventDraftModel {
    pub workflow_id: i64,
    pub delivery_sequence: Option<i32>,
    pub event_type: Seq<char>,
    pub event: Option<WorkflowEventModel>,
    pub actor_type: Seq<char>,
    pub actor_id: Option<Seq<char>>,
    pub reason: Option<Seq<char>>,
    pub created_at: i64,
}

impl View for EventDraft {
    type V = EventDraftModel;

    open spec fn view(&self) -> EventDraftModel {
        EventDraftModel {
            workflow_id: self.workflow_id,
            delivery_sequence: self.delivery_sequence,
            event_type: self.event_type@,
            event: match self.event {
                Some(event) => Some(event@),
                None => None,
            },
            actor_type: self.actor_type@,
            actor_id: text::opt_text(self.actor_id),
            reason: text::opt_text(self.reason),
            created_at: self.created_at,
        }
    }
}

/// An entry that only the history shows: nothing is delivered to the workflow.
pub open spec fn history_model(
    workflow_id: i64,
    event_type: Seq<char>,
    created_at: i64,
) -> EventDraftModel {
    EventDraftModel {
        workflow_id,
        delivery_sequence: None,
        event_type,
        event: None,
        actor_type: "system"@,
        actor_id: None,
        reason: None,
        created_at,
    }
}

/// An event that is delivered to the workflow.
pub open spec fn delivery_model(
    workflow_id: i64,
    delivery_sequence: i32,
    event_type: Seq<char>,
    event: WorkflowEventModel,
    created_at: i64,
) -> EventDraftModel {
    EventDraftModel {
        workflow_id,
        delivery_sequence: Some(delivery_sequence),
        event_type,
        event: Some(event),
        actor_type: "system"@,
        actor_id: None,
        reason: None,
        created_at,
    }
}

/// An entry that only the history shows.
pub fn history_event(workflow_id: i64, event_type: &'static str, created_at: i64) -> (draft:
    EventDraft)
    ensures
        draft@ == history_model(workflow_id, event_type@, created_at),
{
    EventDraft {
        workflow_id,
        delivery_sequence: None,
        event_type,
        event: None,
        actor_type: "system",
        actor_id: None,
        reason: None,
        created_at,
    }
}

/// An event that is delivered to the workflow.
pub fn delivery_event(
    workflow_id: i64,
    delivery_sequence: i32,
    event_type: &'static str,
    event: WorkflowEvent,
    created_at: i64,
) -> (draft: EventDraft)
    ensures
        draft@ == delivery_model(workflow_id, delivery_sequence, event_type@, event@, created_at),
{
    EventDraft {
        workflow_id,
        delivery_sequence: Some(delivery_sequence),
        event_type,
        event: Some(event),
        actor_type: "system",
        actor_id: None,
        reason: None,
        created_at,
    }
}

/// The position after the last one, where the number can be represented.
pub open spec fn successor(last: int) -> Option<i32> {
    if last < i32::MAX {
        Some((last + 1) as i32)
    } else {
        None
    }
}

/// The position of the next event in a history whose last position is `current`.
pub fn next_event_sequence(current: Option<i32>) -> (result: Result<i32, DurableError>)
    ensures
        ({
            let last = match current {
                Some(sequence) => sequence as int,
                None => 0,
            };
            match result {
                Ok(sequence) => successor(last) == Some(sequence),
                Err(error) => successor(last) is None && error@ == ErrorModel::InvalidState(
                    "workflow event sequence overflow"@,
                ),
            }
        }),
{
    let last: i32 = match current {
        Some(sequence) => sequence,
        None => 0,
    };
    match last.checked_add(1) {
        Some(sequence) => Ok(sequence),
        None => Err(invalid_state("workflow event sequence overflow")),
    }
}

/// The delivery position after `delivered`.
pub fn next_delivery_sequence(delivered: i32) -> (result: Result<i32, DurableError>)
    ensures
        match result {
            Ok(sequence) => successor(delivered as int) == Some(sequence),
            Err(error) => successor(delivered as int) is None && error@ == ErrorModel::InvalidState(
                "workflow delivery sequence overflow"@,
            ),
        },
{
    match delivered.checked_add(1) {
        Some(sequence) => Ok(sequence),
        None => Err(invalid_state("workflow delivery sequence overflow")),
    }
}

/// Whether a row records a draft at the given position with the given metadata.
pub open spec fn records_draft(
    row: NewWorkflowEventRowModel,
    draft: EventDraftModel,
    sequence: i32,
    metadata_json: Option<Seq<char>>,
) -> bool {
    row == NewWorkflowEventRowModel {
        workflow_id: draft.workflow_id,
        sequence,
        delivery_sequence: draft.delivery_sequence,
        event_type: draft.event_type,
        metadata_json,
        actor_type: Some(draft.actor_type),
        actor_id: draft.actor_id,
        reason: draft.reason,
        created_at: draft.created_at,
    }
}

/// The row of an event at the given position with the given metadata.
pub fn event_row(draft: EventDraft, sequence: i32, metadata_json: Option<String>) -> (row:
    NewWorkflowEventRow)
    ensures
        records_draft(row@, draft@, sequence, text::opt_text(metadata_json)),
{
    NewWorkflowEventRow {
        workflow_id: draft.workflow_id,
        sequence,
        delivery_sequence: draft.delivery_sequence,
        event_type: draft.event_type.to_owned(),
        metadata_json,
        actor_type: Some(draft.actor_type.to_owned()),
        actor_id: draft.actor_id,
        reason: draft.reason,
        created_at: draft.created_at,
    }
}

/// An entry of the history is told to no workflow; an event that is delivered carries
/// what it tells, to the workflow and at the position that were asked for.
pub proof fn law_events_carry_what_they_tell(
    workflow_id: i64,
    delivery_sequence: i32,
    event_type: Seq<char>,
    event: WorkflowEventModel,
    created_at: i64,
)
    ensures
        ({
            let shown = history_model(workflow_id, event_type, created_at);
            let told = delivery_model(workflow_id, delivery_sequence, event_type, event, created_at);
            &&& shown.delivery_sequence is None && shown.event is None
            &&& told.delivery_sequence == Some(delivery_sequence) && told.event == Some(event)
            &&& shown.workflow_id == workflow_id && told.workflow_id == workflow_id
            &&& shown.event_type == event_type && told.event_type == event_type
            &&& shown.created_at == created_at && told.created_at == created_at
            &&& shown.actor_id is None && told.actor_id is None
            &&& shown.reason is None && told.reason is None
            &&& shown.actor_type == "system"@ && told.actor_type == "system"@
        }),
{
}

/// Positions are consecutive: the next one is exactly one behind the last, and it is
/// refused only where the database has no number for it.
pub proof fn law_positions_are_consecutive(last: int)
    requires
        i32::MIN <= last <= i32::MAX,
    ensures
        match successor(last) {
            Some(next) => next == last + 1,
            None => last == i32::MAX,
        },
{
}

/// The row of an event says what its draft says, each part under its own name, at the
/// position and with the metadata that it was given.
pub proof fn law_row_says_what_the_draft_says(
    row: NewWorkflowEventRowModel,
    draft: EventDraftModel,
    sequence: i32,
    metadata_json: Option<Seq<char>>,
)
    requires
        records_draft(row, draft, sequence, metadata_json),
    ensures
        row.workflow_id == draft.workflow_id,
        row.sequence == sequence,
        row.delivery_sequence == draft.delivery_sequence,
        row.event_type == draft.event_type,
        row.metadata_json == metadata_json,
        row.actor_type == Some(draft.actor_type),
        row.actor_id == draft.actor_id,
        row.reason == draft.reason,
        row.created_at == draft.created_at,
{
}

} // verus!
