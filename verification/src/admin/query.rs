//! What operators read of workflows and activities: filters, pages and details.
use vstd::prelude::*;
use crate::admin::cursor;
use crate::admin::cursor::{decode_cursor, encode_cursor, CursorPosition, PositionModel};
use crate::admin::types;
use crate::admin::types::{
    ActivityAttemptSummary, ActivityDetail, ActivityDetailRequest, ActivityListFilter,
    ActivitySummary, AdminPage, ApprovalSummary, JsonFieldModel, JsonFieldSummary, PageRequest,
    ProgressSummary, WorkflowListFilter, WorkflowSummary, MAX_ADMIN_PAGE_SIZE,
};
use crate::error;
use crate::error::{DurableError, ErrorModel};
use crate::ids::{ActivityId, ApprovalId, ScheduleRunId, WorkflowId};
use crate::numerals;
use crate::numerals::{decimal_i64, parse_i64};
use crate::persistence::models::ProgressEventRow;
use crate::persistence::status;
use crate::persistence::status::{ActivityStatus, WorkflowStatus};
use crate::text;
use crate::text::join2;
use crate::transition::CONTINUATION_READY_AT_MILLIS;

verus! {

/// What a list of workflows reads of a row.
#[derive(Debug)]
pub struct WorkflowProjection {
    pub id: i64,
    pub kind: String,
    pub version: i32,
    pub status: WorkflowStatus,
    pub wait_kind: Option<String>,
    pub schedule_run_id: Option<i64>,
    pub root_workflow_id: Option<i64>,
    pub restarted_from_workflow_id: Option<i64>,
    pub input_bytes: i64,
    pub state_bytes: i64,
    pub result_bytes: Option<i64>,
    pub error_category: Option<String>,
    pub error_message: Option<String>,
    pub created_at: i64,
    pub updated_at: i64,
    pub completed_at: Option<i64>,
}

/// What the page of one workflow reads of its row.
#[derive(Debug)]
pub struct WorkflowDetailProjection {
    pub id: i64,
    pub kind: String,
    pub version: i32,
    pub status: WorkflowStatus,
    pub wait_kind: Option<String>,
    pub schedule_run_id: Option<i64>,
    pub root_workflow_id: Option<i64>,
    pub restarted_from_workflow_id: Option<i64>,
    pub input_json: String,
    pub state_json: String,
    pub result_json: Option<String>,
    pub error_category: Option<String>,
    pub error_message: Option<String>,
    pub created_at: i64,
    pub updated_at: i64,
    pub completed_at: Option<i64>,
}

/// What a list of activities reads of a row.
#[derive(Debug)]
pub struct ActivityProjection {
    pub id: i64,
    pub workflow_id: i64,
    pub kind: String,
    pub version: i32,
    pub topic: String,
    pub status: ActivityStatus,
    pub replacement_number: i32,
    pub attempt_count: i32,
    pub max_attempts: i32,
    pub operation_key: Option<String>,
    pub root_activity_id: Option<i64>,
    pub replaces_activity_id: Option<i64>,
    pub payload_bytes: i64,
    pub provider_result_bytes: Option<i64>,
    pub last_error_category: Option<String>,
    pub last_error_message: Option<String>,
    pub available_at: i64,
    pub created_at: i64,
    pub updated_at: i64,
    pub completed_at: Option<i64>,
}

/// What the page of one activity reads of its row.
#[derive(Debug)]
pub struct ActivityDetailProjection {
    pub id: i64,
    pub workflow_id: i64,
    pub kind: String,
    pub version: i32,
    pub topic: String,
    pub status: ActivityStatus,
    pub replacement_number: i32,
    pub attempt_count: i32,
    pub max_attempts: i32,
    pub operation_key: Option<String>,
    pub root_activity_id: Option<i64>,
    pub replaces_activity_id: Option<i64>,
    pub payload_json: String,
    pub provider_result_json: Option<String>,
    pub last_error_category: Option<String>,
    pub last_error_message: Option<String>,
    pub available_at: i64,
    pub created_at: i64,
    pub updated_at: i64,
    pub completed_at: Option<i64>,
}

/// What a timeline reads of an attempt.
#[derive(Debug)]
pub struct AttemptProjection {
    pub activity_id: i64,
    pub attempt_number: i32,
    pub worker_id: String,
    pub started_at: i64,
    pub heartbeat_at: i64,
    pub finished_at: Option<i64>,
    pub outcome: Option<String>,
    pub error_category: Option<String>,
    pub error_message: Option<String>,
    pub provider_result_bytes: Option<i64>,
}

/// What the page of one activity reads of an attempt.
#[derive(Debug)]
pub struct AttemptDetailProjection {
    pub activity_id: i64,
    pub attempt_number: i32,
    pub worker_id: String,
    pub started_at: i64,
    pub heartbeat_at: i64,
    pub finished_at: Option<i64>,
    pub outcome: Option<String>,
    pub error_category: Option<String>,
    pub error_message: Option<String>,
    pub provider_result_json: Option<String>,
}

/// What lists and timelines read of an approval.
#[derive(Debug)]
pub struct ApprovalProjection {
    pub id: i64,
    pub workflow_id: i64,
    pub kind: String,
    pub version: i32,
    pub status: String,
    pub decision_bytes: Option<i64>,
    pub decided_by: Option<i32>,
    pub operator_reason: Option<String>,
    pub requested_at: i64,
    pub expires_at: Option<i64>,
    pub resolved_at: Option<i64>,
}

/// Why a row number is no identifier.
pub open spec fn id_error(value: i64) -> Option<ErrorModel> {
    if value > 0 {
        None
    } else {
        Some(ErrorModel::InvalidId(value as int))
    }
}

/// Why an optional row number is no identifier.
pub open spec fn optional_id_error(value: Option<i64>) -> Option<ErrorModel> {
    match value {
        Some(value) => id_error(value),
        None => None,
    }
}

/// The first of two errors.
pub open spec fn either(first: Option<ErrorModel>, second: Option<ErrorModel>) -> Option<ErrorModel> {
    match first {
        Some(error) => Some(error),
        None => second,
    }
}

/// The first error of a sequence.
pub open spec fn first_error(errors: Seq<Option<ErrorModel>>) -> Option<ErrorModel>
    decreases errors.len(),
{
    if errors.len() == 0 {
        None
    } else {
        either(errors[0], first_error(errors.drop_first()))
    }
}

/// Where no place has an error there is no first one.
pub proof fn lemma_no_first_error(errors: Seq<Option<ErrorModel>>)
    requires
        forall|i: int| 0 <= i < errors.len() ==> (#[trigger] errors[i]) is None,
    ensures
        first_error(errors) is None,
    decreases errors.len(),
{
    if errors.len() > 0 {
        let rest = errors.drop_first();
        assert forall|i: int| 0 <= i < rest.len() implies (#[trigger] rest[i]) is None by {
            assert(rest[i] == errors[i + 1]);
        }
        assert(errors[0] is None);
        lemma_no_first_error(rest);
    }
}

/// An error behind places without one is the first.
pub proof fn lemma_first_error_at(errors: Seq<Option<ErrorModel>>, at: int)
    requires
        0 <= at < errors.len(),
        errors[at] is Some,
        forall|i: int| 0 <= i < at ==> (#[trigger] errors[i]) is None,
    ensures
        first_error(errors) == errors[at],
    decreases errors.len(),
{
    if at > 0 {
        let rest = errors.drop_first();
        assert forall|i: int| 0 <= i < at - 1 implies (#[trigger] rest[i]) is None by {
            assert(rest[i] == errors[i + 1]);
        }
        assert(errors[0] is None);
        lemma_first_error_at(rest, at - 1);
    }
}

/// The number of a workflow, where there is one.
pub fn workflow_reference(value: Option<i64>) -> (result: Result<Option<WorkflowId>, DurableError>)
    ensures
        match result {
            Ok(id) => optional_id_error(value) is None && (match (id, value) {
                (Some(id), Some(value)) => id@ == value,
                (None, None) => true,
                _ => false,
            }),
            Err(error) => optional_id_error(value) == Some(error@),
        },
{
    match value {
        Some(value) => match WorkflowId::new(value) {
            Ok(id) => Ok(Some(id)),
            Err(error) => Err(error),
        },
        None => Ok(None),
    }
}

fn activity_reference(value: Option<i64>) -> (result: Result<Option<ActivityId>, DurableError>)
    ensures
        match result {
            Ok(id) => optional_id_error(value) is None && (match (id, value) {
                (Some(id), Some(value)) => id@ == value,
                (None, None) => true,
                _ => false,
            }),
            Err(error) => optional_id_error(value) == Some(error@),
        },
{
    match value {
        Some(value) => match ActivityId::new(value) {
            Ok(id) => Ok(Some(id)),
            Err(error) => Err(error),
        },
        None => Ok(None),
    }
}

fn run_reference(value: Option<i64>) -> (result: Result<Option<ScheduleRunId>, DurableError>)
    ensures
        match result {
            Ok(id) => optional_id_error(value) is None && (match (id, value) {
                (Some(id), Some(value)) => id@ == value,
                (None, None) => true,
                _ => false,
            }),
            Err(error) => optional_id_error(value) == Some(error@),
        },
{
    match value {
        Some(value) => match ScheduleRunId::new(value) {
            Ok(id) => Ok(Some(id)),
            Err(error) => Err(error),
        },
        None => Ok(None),
    }
}

/// Whether an optional identifier has the number of an optional column.
pub open spec fn same_workflow(id: Option<WorkflowId>, value: Option<i64>) -> bool {
    match (id, value) {
        (Some(id), Some(value)) => id@ == value,
        (None, None) => true,
        _ => false,
    }
}

/// Whether an optional identifier has the number of an optional column.
pub open spec fn same_activity(id: Option<ActivityId>, value: Option<i64>) -> bool {
    match (id, value) {
        (Some(id), Some(value)) => id@ == value,
        (None, None) => true,
        _ => false,
    }
}

/// Whether an optional identifier has the number of an optional column.
pub open spec fn same_run(id: Option<ScheduleRunId>, value: Option<i64>) -> bool {
    match (id, value) {
        (Some(id), Some(value)) => id@ == value,
        (None, None) => true,
        _ => false,
    }
}

/// Why a stored byte length is refused: it is negative or larger than memory.
pub open spec fn length_error(bytes: i64) -> Option<ErrorModel> {
    if 0 <= bytes <= usize::MAX {
        None
    } else {
        Some(ErrorModel::InvalidState("negative persisted JSON byte length"@))
    }
}

/// Why an optional stored byte length is refused.
pub open spec fn optional_length_error(bytes: Option<i64>) -> Option<ErrorModel> {
    match bytes {
        Some(bytes) => length_error(bytes),
        None => None,
    }
}

/// The summary of a field of which the byte length was read.
pub open spec fn length_field(bytes: Option<i64>) -> JsonFieldModel {
    match bytes {
        Some(bytes) => types::measured_field(bytes as int),
        None => types::absent_field(),
    }
}

/// The summary of a set field of which the byte length was read.
pub fn required_json_summary(bytes: i64) -> (result: Result<JsonFieldSummary, DurableError>)
    ensures
        match result {
            Ok(field) => length_error(bytes) is None && field@ == length_field(Some(bytes)),
            Err(error) => length_error(bytes) == Some(error@),
        },
{
    if bytes < 0 || bytes as u128 > usize::MAX as u128 {
        return Err(error::invalid_state("negative persisted JSON byte length"));
    }
    Ok(JsonFieldSummary { present: true, bytes: bytes as usize, value: None })
}

/// The summary of a field that may be set and of which the byte length was read.
pub fn optional_json_summary(bytes: Option<i64>) -> (result: Result<JsonFieldSummary, DurableError>)
    ensures
        match result {
            Ok(field) => optional_length_error(bytes) is None && field@ == length_field(bytes),
            Err(error) => optional_length_error(bytes) == Some(error@),
        },
{
    match bytes {
        Some(bytes) => required_json_summary(bytes),
        None => Ok(JsonFieldSummary { present: false, bytes: 0, value: None }),
    }
}

/// Why a shown JSON text is refused.
pub open spec fn shown_error(raw: Option<Seq<char>>) -> Option<ErrorModel> {
    match types::shown_optional_field(raw) {
        Ok(_) => None,
        Err(error) => Some(error),
    }
}

/// Why a workflow cannot be listed.
pub open spec fn workflow_problem(row: WorkflowProjection) -> Option<ErrorModel> {
    either(
        id_error(row.id),
        either(
            optional_id_error(row.schedule_run_id),
            either(
                optional_id_error(row.root_workflow_id),
                either(
                    optional_id_error(row.restarted_from_workflow_id),
                    either(
                        length_error(row.input_bytes),
                        either(
                            length_error(row.state_bytes),
                            optional_length_error(row.result_bytes),
                        ),
                    ),
                ),
            ),
        ),
    )
}

/// Whether a summary shows a listed workflow.
pub open spec fn summarizes_workflow(row: WorkflowProjection, summary: WorkflowSummary) -> bool {
    &&& summary.id@ == row.id
    &&& summary.kind == row.kind
    &&& summary.version == row.version
    &&& summary.status@ == status::workflow_status_name(row.status)
    &&& summary.wait_kind == row.wait_kind
    &&& same_run(summary.schedule_run_id, row.schedule_run_id)
    &&& same_workflow(summary.root_workflow_id, row.root_workflow_id)
    &&& same_workflow(summary.restarted_from_workflow_id, row.restarted_from_workflow_id)
    &&& summary.input@ == length_field(Some(row.input_bytes))
    &&& summary.state@ == length_field(Some(row.state_bytes))
    &&& summary.result@ == length_field(row.result_bytes)
    &&& summary.error_category == row.error_category
    &&& summary.error_message == row.error_message
    &&& summary.created_at == row.created_at
    &&& summary.updated_at == row.updated_at
    &&& summary.completed_at == row.completed_at
}

/// The summary of a listed workflow.
pub fn workflow_summary(row: WorkflowProjection) -> (result: Result<WorkflowSummary, DurableError>)
    ensures
        match result {
            Ok(summary) => workflow_problem(row) is None && summarizes_workflow(row, summary),
            Err(error) => workflow_problem(row) == Some(error@),
        },
{
    let id = match WorkflowId::new(row.id) {
        Ok(id) => id,
        Err(error) => return Err(error),
    };
    let schedule_run_id = match run_reference(row.schedule_run_id) {
        Ok(id) => id,
        Err(error) => return Err(error),
    };
    let root_workflow_id = match workflow_reference(row.root_workflow_id) {
        Ok(id) => id,
        Err(error) => return Err(error),
    };
    let restarted_from_workflow_id = match workflow_reference(row.restarted_from_workflow_id) {
        Ok(id) => id,
        Err(error) => return Err(error),
    };
    let input = match required_json_summary(row.input_bytes) {
        Ok(field) => field,
        Err(error) => return Err(error),
    };
    let state = match required_json_summary(row.state_bytes) {
        Ok(field) => field,
        Err(error) => return Err(error),
    };
    let result = match optional_json_summary(row.result_bytes) {
        Ok(field) => field,
        Err(error) => return Err(error),
    };
    Ok(
        WorkflowSummary {
            id,
            kind: row.kind,
            version: row.version,
            status: row.status.as_str().to_owned(),
            wait_kind: row.wait_kind,
            schedule_run_id,
            root_workflow_id,
            restarted_from_workflow_id,
            input,
            state,
            result,
            error_category: row.error_category,
            error_message: row.error_message,
            created_at: row.created_at,
            updated_at: row.updated_at,
            completed_at: row.completed_at,
        },
    )
}

/// Why the page of one workflow cannot be shown.
pub open spec fn workflow_detail_problem(row: WorkflowDetailProjection) -> Option<ErrorModel> {
    either(
        id_error(row.id),
        either(
            optional_id_error(row.schedule_run_id),
            either(
                optional_id_error(row.root_workflow_id),
                either(
                    optional_id_error(row.restarted_from_workflow_id),
                    either(
                        shown_error(Some(row.input_json@)),
                        either(
                            shown_error(Some(row.state_json@)),
                            shown_error(text::opt_text(row.result_json)),
                        ),
                    ),
                ),
            ),
        ),
    )
}

/// Whether a summary shows one workflow with its JSON texts.
pub open spec fn details_workflow(row: WorkflowDetailProjection, summary: WorkflowSummary) -> bool {
    &&& summary.id@ == row.id
    &&& summary.kind == row.kind
    &&& summary.version == row.version
    &&& summary.status@ == status::workflow_status_name(row.status)
    &&& summary.wait_kind == row.wait_kind
    &&& same_run(summary.schedule_run_id, row.schedule_run_id)
    &&& same_workflow(summary.root_workflow_id, row.root_workflow_id)
    &&& same_workflow(summary.restarted_from_workflow_id, row.restarted_from_workflow_id)
    &&& types::shown_field(row.input_json@) == Ok::<JsonFieldModel, ErrorModel>(summary.input@)
    &&& types::shown_field(row.state_json@) == Ok::<JsonFieldModel, ErrorModel>(summary.state@)
    &&& types::shown_optional_field(text::opt_text(row.result_json)) == Ok::<
        JsonFieldModel,
        ErrorModel,
    >(summary.result@)
    &&& summary.error_category == row.error_category
    &&& summary.error_message == row.error_message
    &&& summary.created_at == row.created_at
    &&& summary.updated_at == row.updated_at
    &&& summary.completed_at == row.completed_at
}

fn shown(raw: &Option<String>) -> (result: Result<JsonFieldSummary, DurableError>)
    ensures
        types::field_model(result) == types::shown_optional_field(text::opt_text(*raw)),
{
    match raw {
        Some(raw) => JsonFieldSummary::from_optional_json(Some(raw.as_str())),
        None => JsonFieldSummary::from_optional_json(None),
    }
}

/// The summary of one workflow with its JSON texts.
pub fn workflow_detail_summary(row: WorkflowDetailProjection) -> (result: Result<
    WorkflowSummary,
    DurableError,
>)
    ensures
        match result {
            Ok(summary) => workflow_detail_problem(row) is None && details_workflow(row, summary),
            Err(error) => workflow_detail_problem(row) == Some(error@),
        },
{
    let id = match WorkflowId::new(row.id) {
        Ok(id) => id,
        Err(error) => return Err(error),
    };
    let schedule_run_id = match run_reference(row.schedule_run_id) {
        Ok(id) => id,
        Err(error) => return Err(error),
    };
    let root_workflow_id = match workflow_reference(row.root_workflow_id) {
        Ok(id) => id,
        Err(error) => return Err(error),
    };
    let restarted_from_workflow_id = match workflow_reference(row.restarted_from_workflow_id) {
        Ok(id) => id,
        Err(error) => return Err(error),
    };
    let input = match JsonFieldSummary::from_required_json(row.input_json.as_str()) {
        Ok(field) => field,
        Err(error) => return Err(error),
    };
    let state = match JsonFieldSummary::from_required_json(row.state_json.as_str()) {
        Ok(field) => field,
        Err(error) => return Err(error),
    };
    let result = match shown(&row.result_json) {
        Ok(field) => field,
        Err(error) => return Err(error),
    };
    Ok(
        WorkflowSummary {
            id,
            kind: row.kind,
            version: row.version,
            status: row.status.as_str().to_owned(),
            wait_kind: row.wait_kind,
            schedule_run_id,
            root_workflow_id,
            restarted_from_workflow_id,
            input,
            state,
            result,
            error_category: row.error_category,
            error_message: row.error_message,
            created_at: row.created_at,
            updated_at: row.updated_at,
            completed_at: row.completed_at,
        },
    )
}

/// When an activity became available: the marker of a prioritized continuation
/// stands for the time of its creation.
pub open spec fn shown_availability(available_at: i64, created_at: i64) -> i64 {
    if available_at == CONTINUATION_READY_AT_MILLIS {
        created_at
    } else {
        available_at
    }
}

/// Why an activity cannot be listed.
pub open spec fn activity_problem(row: ActivityProjection) -> Option<ErrorModel> {
    either(
        id_error(row.id),
        either(
            id_error(row.workflow_id),
            either(
                optional_id_error(row.root_activity_id),
                either(
                    optional_id_error(row.replaces_activity_id),
                    either(
                        length_error(row.payload_bytes),
                        optional_length_error(row.provider_result_bytes),
                    ),
                ),
            ),
        ),
    )
}

/// Whether a summary shows a listed activity.
pub open spec fn summarizes_activity(row: ActivityProjection, summary: ActivitySummary) -> bool {
    &&& summary.id@ == row.id
    &&& summary.workflow_id@ == row.workflow_id
    &&& summary.kind == row.kind
    &&& summary.version == row.version
    &&& summary.topic == row.topic
    &&& summary.status@ == status::activity_status_name(row.status)
    &&& summary.replacement_number == row.replacement_number
    &&& summary.attempt_count == row.attempt_count
    &&& summary.max_attempts == row.max_attempts
    &&& summary.operation_key == row.operation_key
    &&& same_activity(summary.root_activity_id, row.root_activity_id)
    &&& same_activity(summary.replaces_activity_id, row.replaces_activity_id)
    &&& summary.payload@ == length_field(Some(row.payload_bytes))
    &&& summary.provider_result@ == length_field(row.provider_result_bytes)
    &&& summary.error_category == row.last_error_category
    &&& summary.error_message == row.last_error_message
    &&& summary.available_at == shown_availability(row.available_at, row.created_at)
    &&& summary.created_at == row.created_at
    &&& summary.updated_at == row.updated_at
    &&& summary.completed_at == row.completed_at
}

fn availability(available_at: i64, created_at: i64) -> (at: i64)
    ensures
        at == shown_availability(available_at, created_at),
{
    if available_at == CONTINUATION_READY_AT_MILLIS {
        created_at
    } else {
        available_at
    }
}

/// The summary of a listed activity.
pub fn activity_summary(row: ActivityProjection) -> (result: Result<ActivitySummary, DurableError>)
    ensures
        match result {
            Ok(summary) => activity_problem(row) is None && summarizes_activity(row, summary),
            Err(error) => activity_problem(row) == Some(error@),
        },
{
    let id = match ActivityId::new(row.id) {
        Ok(id) => id,
        Err(error) => return Err(error),
    };
    let workflow_id = match WorkflowId::new(row.workflow_id) {
        Ok(id) => id,
        Err(error) => return Err(error),
    };
    let root_activity_id = match activity_reference(row.root_activity_id) {
        Ok(id) => id,
        Err(error) => return Err(error),
    };
    let replaces_activity_id = match activity_reference(row.replaces_activity_id) {
        Ok(id) => id,
        Err(error) => return Err(error),
    };
    let payload = match required_json_summary(row.payload_bytes) {
        Ok(field) => field,
        Err(error) => return Err(error),
    };
    let provider_result = match optional_json_summary(row.provider_result_bytes) {
        Ok(field) => field,
        Err(error) => return Err(error),
    };
    Ok(
        ActivitySummary {
            id,
            workflow_id,
            kind: row.kind,
            version: row.version,
            topic: row.topic,
            status: row.status.as_str().to_owned(),
            replacement_number: row.replacement_number,
            attempt_count: row.attempt_count,
            max_attempts: row.max_attempts,
            operation_key: row.operation_key,
            root_activity_id,
            replaces_activity_id,
            payload,
            provider_result,
            error_category: row.last_error_category,
            error_message: row.last_error_message,
            available_at: availability(row.available_at, row.created_at),
            created_at: row.created_at,
            updated_at: row.updated_at,
            completed_at: row.completed_at,
        },
    )
}

/// Why the page of one activity cannot be shown.
pub open spec fn activity_detail_problem(row: ActivityDetailProjection) -> Option<ErrorModel> {
    either(
        id_error(row.id),
        either(
            id_error(row.workflow_id),
            either(
                optional_id_error(row.root_activity_id),
                either(
                    optional_id_error(row.replaces_activity_id),
                    either(
                        shown_error(Some(row.payload_json@)),
                        shown_error(text::opt_text(row.provider_result_json)),
                    ),
                ),
            ),
        ),
    )
}

/// Whether a summary shows one activity with its JSON texts.
pub open spec fn details_activity(row: ActivityDetailProjection, summary: ActivitySummary) -> bool {
    &&& summary.id@ == row.id
    &&& summary.workflow_id@ == row.workflow_id
    &&& summary.kind == row.kind
    &&& summary.version == row.version
    &&& summary.topic == row.topic
    &&& summary.status@ == status::activity_status_name(row.status)
    &&& summary.replacement_number == row.replacement_number
    &&& summary.attempt_count == row.attempt_count
    &&& summary.max_attempts == row.max_attempts
    &&& summary.operation_key == row.operation_key
    &&& same_activity(summary.root_activity_id, row.root_activity_id)
    &&& same_activity(summary.replaces_activity_id, row.replaces_activity_id)
    &&& types::shown_field(row.payload_json@) == Ok::<JsonFieldModel, ErrorModel>(summary.payload@)
    &&& types::shown_optional_field(text::opt_text(row.provider_result_json)) == Ok::<
        JsonFieldModel,
        ErrorModel,
    >(summary.provider_result@)
    &&& summary.error_category == row.last_error_category
    &&& summary.error_message == row.last_error_message
    &&& summary.available_at == shown_availability(row.available_at, row.created_at)
    &&& summary.created_at == row.created_at
    &&& summary.updated_at == row.updated_at
    &&& summary.completed_at == row.completed_at
}

/// The summary of one activity with its JSON texts.
pub fn activity_detail_summary(row: ActivityDetailProjection) -> (result: Result<
    ActivitySummary,
    DurableError,
>)
    ensures
        match result {
            Ok(summary) => activity_detail_problem(row) is None && details_activity(row, summary),
            Err(error) => activity_detail_problem(row) == Some(error@),
        },
{
    let id = match ActivityId::new(row.id) {
        Ok(id) => id,
        Err(error) => return Err(error),
    };
    let workflow_id = match WorkflowId::new(row.workflow_id) {
        Ok(id) => id,
        Err(error) => return Err(error),
    };
    let root_activity_id = match activity_reference(row.root_activity_id) {
        Ok(id) => id,
        Err(error) => return Err(error),
    };
    let replaces_activity_id = match activity_reference(row.replaces_activity_id) {
        Ok(id) => id,
        Err(error) => return Err(error),
    };
    let payload = match JsonFieldSummary::from_required_json(row.payload_json.as_str()) {
        Ok(field) => field,
        Err(error) => return Err(error),
    };
    let provider_result = match shown(&row.provider_result_json) {
        Ok(field) => field,
        Err(error) => return Err(error),
    };
    Ok(
        ActivitySummary {
            id,
            workflow_id,
            kind: row.kind,
            version: row.version,
            topic: row.topic,
            status: row.status.as_str().to_owned(),
            replacement_number: row.replacement_number,
            attempt_count: row.attempt_count,
            max_attempts: row.max_attempts,
            operation_key: row.operation_key,
            root_activity_id,
            replaces_activity_id,
            payload,
            provider_result,
            error_category: row.last_error_category,
            error_message: row.last_error_message,
            available_at: availability(row.available_at, row.created_at),
            created_at: row.created_at,
            updated_at: row.updated_at,
            completed_at: row.completed_at,
        },
    )
}

/// Why an attempt cannot be listed.
pub open spec fn attempt_problem(row: AttemptProjection) -> Option<ErrorModel> {
    either(id_error(row.activity_id), optional_length_error(row.provider_result_bytes))
}

/// Whether a summary shows a listed attempt.
pub open spec fn summarizes_attempt(row: AttemptProjection, summary: ActivityAttemptSummary) -> bool {
    &&& summary.activity_id@ == row.activity_id
    &&& summary.attempt_number == row.attempt_number
    &&& summary.worker_id == row.worker_id
    &&& summary.started_at == row.started_at
    &&& summary.heartbeat_at == row.heartbeat_at
    &&& summary.finished_at == row.finished_at
    &&& summary.outcome == row.outcome
    &&& summary.error_category == row.error_category
    &&& summary.error_message == row.error_message
    &&& summary.provider_result@ == length_field(row.provider_result_bytes)
}

/// The summary of a listed attempt.
pub fn attempt_summary(row: AttemptProjection) -> (result: Result<
    ActivityAttemptSummary,
    DurableError,
>)
    ensures
        match result {
            Ok(summary) => attempt_problem(row) is None && summarizes_attempt(row, summary),
            Err(error) => attempt_problem(row) == Some(error@),
        },
{
    let activity_id = match ActivityId::new(row.activity_id) {
        Ok(id) => id,
        Err(error) => return Err(error),
    };
    let provider_result = match optional_json_summary(row.provider_result_bytes) {
        Ok(field) => field,
        Err(error) => return Err(error),
    };
    Ok(
        ActivityAttemptSummary {
            activity_id,
            attempt_number: row.attempt_number,
            worker_id: row.worker_id,
            started_at: row.started_at,
            heartbeat_at: row.heartbeat_at,
            finished_at: row.finished_at,
            outcome: row.outcome,
            error_category: row.error_category,
            error_message: row.error_message,
            provider_result,
        },
    )
}

/// Why an attempt of one activity cannot be shown.
pub open spec fn attempt_detail_problem(row: AttemptDetailProjection) -> Option<ErrorModel> {
    either(id_error(row.activity_id), shown_error(text::opt_text(row.provider_result_json)))
}

/// Whether a summary shows an attempt of one activity with its JSON text.
pub open spec fn details_attempt(
    row: AttemptDetailProjection,
    summary: ActivityAttemptSummary,
) -> bool {
    &&& summary.activity_id@ == row.activity_id
    &&& summary.attempt_number == row.attempt_number
    &&& summary.worker_id == row.worker_id
    &&& summary.started_at == row.started_at
    &&& summary.heartbeat_at == row.heartbeat_at
    &&& summary.finished_at == row.finished_at
    &&& summary.outcome == row.outcome
    &&& summary.error_category == row.error_category
    &&& summary.error_message == row.error_message
    &&& types::shown_optional_field(text::opt_text(row.provider_result_json)) == Ok::<
        JsonFieldModel,
        ErrorModel,
    >(summary.provider_result@)
}

/// The summary of an attempt of one activity with its JSON text.
pub fn attempt_detail_summary(row: AttemptDetailProjection) -> (result: Result<
    ActivityAttemptSummary,
    DurableError,
>)
    ensures
        match result {
            Ok(summary) => attempt_detail_problem(row) is None && details_attempt(row, summary),
            Err(error) => attempt_detail_problem(row) == Some(error@),
        },
{
    let activity_id = match ActivityId::new(row.activity_id) {
        Ok(id) => id,
        Err(error) => return Err(error),
    };
    let provider_result = match shown(&row.provider_result_json) {
        Ok(field) => field,
        Err(error) => return Err(error),
    };
    Ok(
        ActivityAttemptSummary {
            activity_id,
            attempt_number: row.attempt_number,
            worker_id: row.worker_id,
            started_at: row.started_at,
            heartbeat_at: row.heartbeat_at,
            finished_at: row.finished_at,
            outcome: row.outcome,
            error_category: row.error_category,
            error_message: row.error_message,
            provider_result,
        },
    )
}

/// Why an approval cannot be listed.
pub open spec fn approval_problem(row: ApprovalProjection) -> Option<ErrorModel> {
    either(
        id_error(row.id),
        either(id_error(row.workflow_id), optional_length_error(row.decision_bytes)),
    )
}

/// Whether a summary shows a listed approval under the given status.
pub open spec fn summarizes_approval(
    row: ApprovalProjection,
    status: Seq<char>,
    summary: ApprovalSummary,
) -> bool {
    &&& summary.id@ == row.id
    &&& summary.workflow_id@ == row.workflow_id
    &&& summary.kind == row.kind
    &&& summary.version == row.version
    &&& summary.status@ == status
    &&& summary.decision@ == length_field(row.decision_bytes)
    &&& summary.decided_by == row.decided_by
    &&& summary.operator_reason == row.operator_reason
    &&& summary.requested_at == row.requested_at
    &&& summary.expires_at == row.expires_at
    &&& summary.resolved_at == row.resolved_at
}

/// The summary of an approval in a timeline.
pub fn approval_summary(row: ApprovalProjection) -> (result: Result<ApprovalSummary, DurableError>)
    ensures
        match result {
            Ok(summary) => approval_problem(row) is None && summarizes_approval(
                row,
                row.status@,
                summary,
            ),
            Err(error) => approval_problem(row) == Some(error@),
        },
{
    let id = match ApprovalId::new(row.id) {
        Ok(id) => id,
        Err(error) => return Err(error),
    };
    let workflow_id = match WorkflowId::new(row.workflow_id) {
        Ok(id) => id,
        Err(error) => return Err(error),
    };
    let decision = match optional_json_summary(row.decision_bytes) {
        Ok(field) => field,
        Err(error) => return Err(error),
    };
    Ok(
        ApprovalSummary {
            id,
            workflow_id,
            kind: row.kind,
            version: row.version,
            status: row.status,
            decision,
            decided_by: row.decided_by,
            operator_reason: row.operator_reason,
            requested_at: row.requested_at,
            expires_at: row.expires_at,
            resolved_at: row.resolved_at,
        },
    )
}

/// Whether a summary shows a progress event.
pub open spec fn summarizes_progress(row: ProgressEventRow, summary: ProgressSummary) -> bool {
    &&& summary.activity_id@ == row.activity_id
    &&& summary.attempt_number == row.attempt_number
    &&& summary.sequence == row.sequence
    &&& summary.code == row.code
    &&& summary.description == row.description
    &&& summary.completed_units == row.completed_units
    &&& summary.total_units == row.total_units
    &&& summary.severity == row.severity
    &&& summary.created_at == row.created_at
}

/// The summary of a progress event.
pub fn progress_summary(row: ProgressEventRow) -> (result: Result<ProgressSummary, DurableError>)
    ensures
        match result {
            Ok(summary) => id_error(row.activity_id) is None && summarizes_progress(row, summary),
            Err(error) => id_error(row.activity_id) == Some(error@),
        },
{
    let activity_id = match ActivityId::new(row.activity_id) {
        Ok(id) => id,
        Err(error) => return Err(error),
    };
    Ok(
        ProgressSummary {
            activity_id,
            attempt_number: row.attempt_number,
            sequence: row.sequence,
            code: row.code,
            description: row.description,
            completed_units: row.completed_units,
            total_units: row.total_units,
            severity: row.severity,
            created_at: row.created_at,
        },
    )
}

/// A position in a collection of numbered rows, or why a cursor stands for none.
pub open spec fn numeric_position(position: Result<PositionModel, ErrorModel>) -> Result<
    (i64, i64),
    ErrorModel,
> {
    match position {
        Err(error) => Err(error),
        Ok(position) => match numerals::bounded_value(
            position.tie_breaker,
            i64::MIN as int,
            i64::MAX as int,
        ) {
            None => Err(ErrorModel::InvalidCursor("cursor tie breaker is not numeric"@)),
            Some(id) => if id <= 0 {
                Err(ErrorModel::InvalidCursor("cursor tie breaker must be positive"@))
            } else {
                Ok((position.timestamp, id as i64))
            },
        },
    }
}

/// The position that a numbered row is given in a cursor.
pub open spec fn row_position(timestamp: i64, id: i64) -> PositionModel {
    PositionModel { timestamp, tie_breaker: numerals::decimal(id as int) }
}

/// Whether the cursor of a row reads as that row's time and number.
pub open spec fn reads_row_cursor(
    scope: Seq<char>,
    cursor: Seq<char>,
    result: Result<(i64, i64), ErrorModel>,
) -> bool {
    forall|timestamp: i64, id: i64|
        id > 0 && cursor::scope_fits(scope) && cursor == cursor::encoded_cursor(
            scope,
            #[trigger] row_position(timestamp, id),
        ) && 1 <= text::utf8_len(cursor) <= cursor::MAX_CURSOR_BYTES ==> result == Ok::<
            (i64, i64),
            ErrorModel,
        >((timestamp, id))
}

/// The position inside a cursor as the time and number of a row.
pub fn numeric_cursor(position: CursorPosition) -> (result: Result<(i64, i64), DurableError>)
    ensures
        error::result_model(result) == numeric_position(Ok(position@)),
{
    match parse_i64(position.tie_breaker.as_str()) {
        None => Err(
            DurableError::InvalidCursor("cursor tie breaker is not numeric".to_owned()),
        ),
        Some(id) => {
            if id <= 0 {
                return Err(
                    DurableError::InvalidCursor("cursor tie breaker must be positive".to_owned()),
                );
            }
            Ok((position.timestamp, id))
        },
    }
}

proof fn lemma_row_position(timestamp: i64, id: i64)
    requires
        id > 0,
    ensures
        cursor::tie_breaker_fits(numerals::decimal(id as int)),
        numeric_position(Ok(row_position(timestamp, id))) == Ok::<(i64, i64), ErrorModel>(
            (timestamp, id),
        ),
{
    numerals::lemma_decimal_round_trip(id as int);
    numerals::lemma_decimal_length(id as int);
    numerals::lemma_decimal_chars(id as int);
    vstd::utf8::is_ascii_chars_encode_utf8(numerals::decimal(id as int));
    assert(numerals::decimal(id as int).len() > 0);
}

/// The time and number of the row at which a page ends. The cursor of a row reads
/// as that row.
pub fn decode_numeric_cursor(scope: &str, cursor: &str) -> (result: Result<
    (i64, i64),
    DurableError,
>)
    ensures
        error::result_model(result) == numeric_position(cursor::decoded_cursor(scope@, cursor@)),
        reads_row_cursor(scope@, cursor@, error::result_model(result)),
{
    let decoded = decode_cursor(scope, cursor);
    let ghost model = cursor::position_model(decoded);
    proof {
        assert forall|timestamp: i64, id: i64|
            id > 0 && cursor::scope_fits(scope@) && cursor@ == cursor::encoded_cursor(
                scope@,
                #[trigger] row_position(timestamp, id),
            ) && 1 <= text::utf8_len(cursor@) <= cursor::MAX_CURSOR_BYTES implies numeric_position(
            model,
        ) == Ok::<(i64, i64), ErrorModel>((timestamp, id)) by {
            lemma_row_position(timestamp, id);
        }
    }
    match decoded {
        Ok(position) => numeric_cursor(position),
        Err(error) => Err(error),
    }
}

/// The place where a page begins, or why its cursor is refused.
pub open spec fn page_start(scope: Seq<char>, cursor: Option<Seq<char>>) -> Result<
    Option<(i64, i64)>,
    ErrorModel,
> {
    match cursor {
        None => Ok(None),
        Some(cursor) => match numeric_position(cursor::decoded_cursor(scope, cursor)) {
            Ok(place) => Ok(Some(place)),
            Err(error) => Err(error),
        },
    }
}

/// The place where a page begins.
pub fn start_of_page(scope: &str, cursor: &Option<String>) -> (result: Result<
    Option<(i64, i64)>,
    DurableError,
>)
    ensures
        error::result_model(result) == page_start(scope@, text::opt_text(*cursor)),
{
    match cursor {
        None => Ok(None),
        Some(cursor) => match decode_numeric_cursor(scope, cursor.as_str()) {
            Ok(place) => Ok(Some(place)),
            Err(error) => Err(error),
        },
    }
}

/// Why a range of creation times is refused.
pub open spec fn range_error(after: Option<i64>, before: Option<i64>) -> Option<ErrorModel> {
    match (after, before) {
        (Some(after), Some(before)) => if after >= before {
            Some(ErrorModel::InvalidDefinition("createdAfter must precede createdBefore"@))
        } else {
            None
        },
        _ => None,
    }
}

fn validate_time_range(after: Option<i64>, before: Option<i64>) -> (result: Result<(), DurableError>)
    ensures
        match result {
            Ok(()) => range_error(after, before) is None,
            Err(error) => range_error(after, before) == Some(error@),
        },
{
    match (after, before) {
        (Some(after), Some(before)) if after >= before => Err(
            error::invalid_definition("createdAfter must precede createdBefore"),
        ),
        _ => Ok(()),
    }
}

/// Whether a version filter is not positive.
pub open spec fn bad_version(version: Option<i32>) -> bool {
    version matches Some(version) && version <= 0
}

/// Checks a filter of workflows.
pub fn validate_workflow_filter(filter: &WorkflowListFilter) -> (result: Result<(), DurableError>)
    ensures
        error::result_model(result) == (if bad_version(filter.version) {
            Err(ErrorModel::InvalidDefinition("workflow version filter must be positive"@))
        } else {
            match range_error(filter.created_after, filter.created_before) {
                Some(error) => Err(error),
                None => Ok(()),
            }
        }),
{
    match filter.version {
        Some(version) if version <= 0 => {
            return Err(error::invalid_definition("workflow version filter must be positive"));
        },
        _ => {},
    }
    validate_time_range(filter.created_after, filter.created_before)
}

/// Checks a filter of activities.
pub fn validate_activity_filter(filter: &ActivityListFilter) -> (result: Result<(), DurableError>)
    ensures
        error::result_model(result) == (if bad_version(filter.version) {
            Err(ErrorModel::InvalidDefinition("activity version filter must be positive"@))
        } else {
            match range_error(filter.created_after, filter.created_before) {
                Some(error) => Err(error),
                None => Ok(()),
            }
        }),
{
    match filter.version {
        Some(version) if version <= 0 => {
            return Err(error::invalid_definition("activity version filter must be positive"));
        },
        _ => {},
    }
    validate_time_range(filter.created_after, filter.created_before)
}

/// How many rows of a page are shown: all, or all but the one that shows that
/// there are more.
pub open spec fn shown_rows(rows: int, limit: u32) -> int {
    if rows > limit {
        rows - 1
    } else {
        rows
    }
}

/// The cursor behind the last shown row of a page, where there are more rows.
pub open spec fn next_page(
    scope: Seq<char>,
    rows: int,
    limit: u32,
    timestamp: i64,
    id: i64,
) -> Option<Seq<char>> {
    if rows > limit && rows > 1 {
        Some(cursor::encoded_cursor(scope, row_position(timestamp, id)))
    } else {
        None
    }
}

fn row_cursor(scope: &'static str, timestamp: i64, id: i64) -> (result: Result<String, DurableError>)
    ensures
        match result {
            Ok(cursor) => cursor@ == cursor::encoded_cursor(scope@, row_position(timestamp, id)),
            Err(error) => cursor::encode_error(scope@, numerals::decimal(id as int)) == Some(error@),
        },
{
    encode_cursor(scope, &CursorPosition { timestamp, tie_breaker: decimal_i64(id) })
}

/// A row number is a valid tie breaker.
pub proof fn lemma_decimal_fits(id: i64)
    ensures
        cursor::tie_breaker_fits(numerals::decimal(id as int)),
{
    numerals::lemma_decimal_length(id as int);
    numerals::lemma_decimal_chars(id as int);
    vstd::utf8::is_ascii_chars_encode_utf8(numerals::decimal(id as int));
}

proof fn lemma_list_scopes()
    ensures
        cursor::scope_fits("workflows"@),
        cursor::scope_fits("activities"@),
{
    reveal_strlit("workflows");
    reveal_strlit("activities");
    vstd::utf8::is_ascii_chars_encode_utf8("workflows"@);
    vstd::utf8::is_ascii_chars_encode_utf8("activities"@);
}

/// The same values in the opposite order.
pub fn reversed<T>(values: Vec<T>) -> (backwards: Vec<T>)
    ensures
        backwards@.len() == values@.len(),
        forall|j: int|
            0 <= j < backwards@.len() ==> #[trigger] backwards@[j] == values@[values@.len() - 1
                - j],
{
    let ghost all = values@;
    let mut rest = values;
    let mut backwards: Vec<T> = Vec::new();
    while rest.len() > 0
        invariant
            rest@.len() + backwards@.len() == all.len(),
            rest@ == all.take(rest@.len() as int),
            forall|j: int|
                0 <= j < backwards@.len() ==> #[trigger] backwards@[j] == all[all.len() - 1 - j],
        decreases rest@.len(),
    {
        match rest.pop() {
            Some(value) => {
                backwards.push(value);
            },
            None => {},
        }
        assert(rest@ =~= all.take(rest@.len() as int));
    }
    backwards
}

/// Whether a page lists the given workflows, all but the one that shows that there are
/// more.
pub open spec fn lists_workflows(
    rows: Seq<WorkflowProjection>,
    limit: u32,
    page: AdminPage<WorkflowSummary>,
) -> bool {
    let n = shown_rows(rows.len() as int, limit);
    &&& page.items@.len() == n
    &&& forall|i: int| 0 <= i < n ==> summarizes_workflow(rows[i], #[trigger] page.items@[i])
    &&& text::opt_text(page.next_cursor) == next_page(
        "workflows"@,
        rows.len() as int,
        limit,
        rows[n - 1].created_at,
        rows[n - 1].id,
    )
}

/// The page that lists the given workflows, one of them more than the page may
/// hold where there are more.
pub fn page_workflows(rows: Vec<WorkflowProjection>, limit: u32) -> (result: Result<
    AdminPage<WorkflowSummary>,
    DurableError,
>)
    ensures
        ({
            let n = shown_rows(rows@.len() as int, limit);
            let problems = Seq::new(n as nat, |i: int| workflow_problem(rows@[i]));
            match result {
                Ok(page) => first_error(problems) is None && lists_workflows(rows@, limit, page),
                Err(error) => first_error(problems) == Some(error@),
            }
        }),
{
    let ghost all = rows@;
    let mut rest = rows;
    let has_more = rest.len() > limit as usize;
    if has_more {
        let _ = rest.pop();
    }
    let mut next_cursor: Option<String> = None;
    if has_more && rest.len() > 0 {
        let last = &rest[rest.len() - 1];
        proof {
            lemma_decimal_fits(last.id);
            lemma_list_scopes();
        }
        next_cursor = match row_cursor("workflows", last.created_at, last.id) {
            Ok(cursor) => Some(cursor),
            Err(error) => return Err(error),
        };
    }
    let count: usize = rest.len();
    let ghost problems = Seq::new(count as nat, |i: int| workflow_problem(all[i]));
    let mut items: Vec<WorkflowSummary> = Vec::new();
    let mut pending = reversed(rest);
    while pending.len() > 0
        invariant
            items@.len() + pending@.len() == count,
            count <= all.len(),
            problems == Seq::new(count as nat, |i: int| workflow_problem(all[i])),
            forall|j: int| 0 <= j < pending@.len() ==> #[trigger] pending@[j] == all[count - 1 - j],
            forall|j: int|
                0 <= j < items@.len() ==> summarizes_workflow(all[j], #[trigger] items@[j]),
            forall|j: int| 0 <= j < items@.len() ==> (#[trigger] problems[j]) is None,
            count == shown_rows(all.len() as int, limit),
            all == rows@,
        decreases pending@.len(),
    {
        let ghost at = items@.len() as int;
        match pending.pop() {
            Some(row) => {
                assert(row == all[at]);
                match workflow_summary(row) {
                    Ok(summary) => {
                        items.push(summary);
                    },
                    Err(error) => {
                        proof {
                            assert(problems[at] == Some(error@));
                            lemma_first_error_at(problems, at);
                        }
                        return Err(error);
                    },
                }
            },
            None => {},
        }
    }
    proof {
        lemma_no_first_error(problems);
    }
    Ok(AdminPage { items, next_cursor })
}

/// Whether a page lists the given activities, all but the one that shows that there are
/// more.
pub open spec fn lists_activities(
    rows: Seq<ActivityProjection>,
    limit: u32,
    page: AdminPage<ActivitySummary>,
) -> bool {
    let n = shown_rows(rows.len() as int, limit);
    &&& page.items@.len() == n
    &&& forall|i: int| 0 <= i < n ==> summarizes_activity(rows[i], #[trigger] page.items@[i])
    &&& text::opt_text(page.next_cursor) == next_page(
        "activities"@,
        rows.len() as int,
        limit,
        rows[n - 1].created_at,
        rows[n - 1].id,
    )
}

/// The page that lists the given activities, one of them more than the page may
/// hold where there are more.
pub fn page_activities(rows: Vec<ActivityProjection>, limit: u32) -> (result: Result<
    AdminPage<ActivitySummary>,
    DurableError,
>)
    ensures
        ({
            let n = shown_rows(rows@.len() as int, limit);
            let problems = Seq::new(n as nat, |i: int| activity_problem(rows@[i]));
            match result {
                Ok(page) => first_error(problems) is None && lists_activities(rows@, limit, page),
                Err(error) => first_error(problems) == Some(error@),
            }
        }),
{
    let ghost all = rows@;
    let mut rest = rows;
    let has_more = rest.len() > limit as usize;
    if has_more {
        let _ = rest.pop();
    }
    let mut next_cursor: Option<String> = None;
    if has_more && rest.len() > 0 {
        let last = &rest[rest.len() - 1];
        proof {
            lemma_decimal_fits(last.id);
            lemma_list_scopes();
        }
        next_cursor = match row_cursor("activities", last.created_at, last.id) {
            Ok(cursor) => Some(cursor),
            Err(error) => return Err(error),
        };
    }
    let count: usize = rest.len();
    let ghost problems = Seq::new(count as nat, |i: int| activity_problem(all[i]));
    let mut items: Vec<ActivitySummary> = Vec::new();
    let mut pending = reversed(rest);
    while pending.len() > 0
        invariant
            items@.len() + pending@.len() == count,
            count <= all.len(),
            problems == Seq::new(count as nat, |i: int| activity_problem(all[i])),
            forall|j: int| 0 <= j < pending@.len() ==> #[trigger] pending@[j] == all[count - 1 - j],
            forall|j: int|
                0 <= j < items@.len() ==> summarizes_activity(all[j], #[trigger] items@[j]),
            forall|j: int| 0 <= j < items@.len() ==> (#[trigger] problems[j]) is None,
            count == shown_rows(all.len() as int, limit),
            all == rows@,
        decreases pending@.len(),
    {
        let ghost at = items@.len() as int;
        match pending.pop() {
            Some(row) => {
                assert(row == all[at]);
                match activity_summary(row) {
                    Ok(summary) => {
                        items.push(summary);
                    },
                    Err(error) => {
                        proof {
                            assert(problems[at] == Some(error@));
                            lemma_first_error_at(problems, at);
                        }
                        return Err(error);
                    },
                }
            },
            None => {},
        }
    }
    proof {
        lemma_no_first_error(problems);
    }
    Ok(AdminPage { items, next_cursor })
}

/// Whether a row comes behind a place in descending order of time and number.
pub open spec fn comes_behind(place: (i64, i64), timestamp: i64, id: i64) -> bool {
    timestamp < place.0 || (timestamp == place.0 && id < place.1)
}

/// Whether a row comes behind the place where a page begins.
pub fn is_behind(place: (i64, i64), timestamp: i64, id: i64) -> (behind: bool)
    ensures
        behind == comes_behind(place, timestamp, id),
{
    timestamp < place.0 || (timestamp == place.0 && id < place.1)
}

/// Pages never repeat or leave out a row: where a page shows the first rows of a
/// collection in strictly descending order of time and number, the rows that
/// come behind its last one are exactly those that it does not show.
pub proof fn law_next_page_continues(rows: Seq<(i64, i64)>, shown: int, i: int)
    requires
        forall|a: int, b: int|
            #![trigger rows[a], rows[b]]
            0 <= a < b < rows.len() ==> comes_behind(rows[a], rows[b].0, rows[b].1),
        0 < shown <= rows.len(),
        0 <= i < rows.len(),
    ensures
        comes_behind(rows[shown - 1], rows[i].0, rows[i].1) <==> i >= shown,
{
    if i < shown - 1 {
        assert(comes_behind(rows[i], rows[shown - 1].0, rows[shown - 1].1));
    } else if i >= shown {
        assert(comes_behind(rows[shown - 1], rows[i].0, rows[i].1));
    }
}

/// What the page of one activity asks for.
#[derive(Debug)]
pub struct DetailQuery {
    pub attempt_limit: u32,
    pub progress_limit: u32,
    pub attempt_after: Option<i32>,
    pub progress_after: Option<(i32, i32)>,
}

/// The scope of the attempts of an activity.
pub open spec fn attempt_scope(activity_id: int) -> Seq<char> {
    "activity_attempts:"@ + numerals::decimal(activity_id)
}

/// The scope of the progress of an activity.
pub open spec fn progress_scope(activity_id: int) -> Seq<char> {
    "activity_progress:"@ + numerals::decimal(activity_id)
}

/// The attempt behind which a page begins, or why its cursor is refused.
pub open spec fn attempt_start(place: Result<Option<(i64, i64)>, ErrorModel>) -> Result<
    Option<i32>,
    ErrorModel,
> {
    match place {
        Err(error) => Err(error),
        Ok(None) => Ok(None),
        Ok(Some(place)) => if place.1 > i32::MAX {
            Err(
                ErrorModel::InvalidCursor("activity attempt cursor exceeds the integer range"@),
            )
        } else {
            Ok(Some(place.1 as i32))
        },
    }
}

/// The progress event behind which a page begins, or why its cursor is refused.
pub open spec fn progress_start(place: Result<Option<(i64, i64)>, ErrorModel>) -> Result<
    Option<(i32, i32)>,
    ErrorModel,
> {
    match place {
        Err(error) => Err(error),
        Ok(None) => Ok(None),
        Ok(Some(place)) => if !(i32::MIN <= place.0 <= i32::MAX) {
            Err(
                ErrorModel::InvalidCursor("progress attempt cursor exceeds the integer range"@),
            )
        } else if place.1 > i32::MAX {
            Err(
                ErrorModel::InvalidCursor("progress sequence cursor exceeds the integer range"@),
            )
        } else {
            Ok(Some((place.0 as i32, place.1 as i32)))
        },
    }
}

/// Why a request for the page of one activity is refused.
pub open spec fn detail_error(activity_id: int, request: ActivityDetailRequest) -> Option<ErrorModel> {
    let attempts = attempt_start(
        page_start(attempt_scope(activity_id), text::opt_text(request.attempt_cursor)),
    );
    let progress = progress_start(
        page_start(progress_scope(activity_id), text::opt_text(request.progress_cursor)),
    );
    match (
        types::limit_result(request.attempt_limit, MAX_ADMIN_PAGE_SIZE),
        types::limit_result(request.progress_limit, MAX_ADMIN_PAGE_SIZE),
        attempts,
        progress,
    ) {
        (Err(error), _, _, _) => Some(error),
        (_, Err(error), _, _) => Some(error),
        (_, _, Err(error), _) => Some(error),
        (_, _, _, Err(error)) => Some(error),
        _ => None,
    }
}

/// The attempt behind which a page begins, from the place inside its cursor.
pub fn start_attempts(place: Option<(i64, i64)>) -> (result: Result<Option<i32>, DurableError>)
    requires
        place matches Some(place) ==> place.1 > 0,
    ensures
        error::result_model(result) == attempt_start(Ok(place)),
{
    match place {
        None => Ok(None),
        Some((_, attempt)) => {
            if attempt > 0x7fff_ffff {
                return Err(
                    DurableError::InvalidCursor(
                        "activity attempt cursor exceeds the integer range".to_owned(),
                    ),
                );
            }
            Ok(Some(attempt as i32))
        },
    }
}

/// The progress event behind which a page begins, from the place inside its cursor.
pub fn start_progress(place: Option<(i64, i64)>) -> (result: Result<
    Option<(i32, i32)>,
    DurableError,
>)
    requires
        place matches Some(place) ==> place.1 > 0,
    ensures
        error::result_model(result) == progress_start(Ok(place)),
{
    match place {
        None => Ok(None),
        Some((attempt, sequence)) => {
            if attempt < -0x8000_0000 || attempt > 0x7fff_ffff {
                return Err(
                    DurableError::InvalidCursor(
                        "progress attempt cursor exceeds the integer range".to_owned(),
                    ),
                );
            }
            if sequence > 0x7fff_ffff {
                return Err(
                    DurableError::InvalidCursor(
                        "progress sequence cursor exceeds the integer range".to_owned(),
                    ),
                );
            }
            Ok(Some((attempt as i32, sequence as i32)))
        },
    }
}

/// Whether a query asks for what a request for the page of one activity does.
pub open spec fn asks_for(
    activity_id: int,
    request: ActivityDetailRequest,
    query: DetailQuery,
) -> bool {
    &&& query.attempt_limit == types::asked_limit(request.attempt_limit)
    &&& query.progress_limit == types::asked_limit(request.progress_limit)
    &&& attempt_start(
        page_start(attempt_scope(activity_id), text::opt_text(request.attempt_cursor)),
    ) == Ok::<Option<i32>, ErrorModel>(query.attempt_after)
    &&& progress_start(
        page_start(progress_scope(activity_id), text::opt_text(request.progress_cursor)),
    ) == Ok::<Option<(i32, i32)>, ErrorModel>(query.progress_after)
}

/// Reads a request for the page of one activity.
pub fn detail_query(activity_id: ActivityId, request: ActivityDetailRequest) -> (result: Result<
    DetailQuery,
    DurableError,
>)
    ensures
        match result {
            Ok(query) => detail_error(activity_id@, request) is None && asks_for(
                activity_id@,
                request,
                query,
            ),
            Err(error) => detail_error(activity_id@, request) == Some(error@),
        },
{
    let attempt_page = PageRequest { cursor: request.attempt_cursor, limit: request.attempt_limit };
    let progress_page = PageRequest {
        cursor: request.progress_cursor,
        limit: request.progress_limit,
    };
    let attempt_limit: u32 = match attempt_page.bounded_limit(MAX_ADMIN_PAGE_SIZE) {
        Ok(limit) => limit,
        Err(error) => return Err(error),
    };
    let progress_limit: u32 = match progress_page.bounded_limit(MAX_ADMIN_PAGE_SIZE) {
        Ok(limit) => limit,
        Err(error) => return Err(error),
    };
    let attempt_scope = join2("activity_attempts:", activity_id.text().as_str());
    let attempt_place = match start_of_page(attempt_scope.as_str(), &attempt_page.cursor) {
        Ok(place) => place,
        Err(error) => return Err(error),
    };
    let attempt_after = match start_attempts(attempt_place) {
        Ok(after) => after,
        Err(error) => return Err(error),
    };
    let progress_scope = join2("activity_progress:", activity_id.text().as_str());
    let progress_place = match start_of_page(progress_scope.as_str(), &progress_page.cursor) {
        Ok(place) => place,
        Err(error) => return Err(error),
    };
    let progress_after = match start_progress(progress_place) {
        Ok(after) => after,
        Err(error) => return Err(error),
    };
    Ok(DetailQuery { attempt_limit, progress_limit, attempt_after, progress_after })
}

/// The smaller of a number of rows and a limit.
pub open spec fn at_most(rows: int, limit: u32) -> int {
    if rows > limit {
        limit as int
    } else {
        rows
    }
}

/// The cursor behind the last shown row of a page of so many rows.
pub open spec fn cursor_behind(
    scope: Seq<char>,
    rows: int,
    limit: u32,
    position: PositionModel,
) -> Option<Seq<char>> {
    if rows > limit && limit > 0 {
        Some(cursor::encoded_cursor(scope, position))
    } else {
        None
    }
}

/// The first `limit` of some values, in the opposite order.
fn first_reversed<T>(values: Vec<T>, limit: u32) -> (backwards: Vec<T>)
    ensures
        backwards@.len() == at_most(values@.len() as int, limit),
        forall|j: int|
            0 <= j < backwards@.len() ==> #[trigger] backwards@[j] == values@[backwards@.len() - 1
                - j],
{
    let ghost all = values@;
    let mut kept = values;
    while kept.len() > limit as usize
        invariant
            kept@.len() <= all.len(),
            kept@ == all.take(kept@.len() as int),
            kept@.len() >= at_most(all.len() as int, limit),
        decreases kept@.len(),
    {
        let _ = kept.pop();
        assert(kept@ =~= all.take(kept@.len() as int));
    }
    reversed(kept)
}

/// A short ASCII text with a row number behind it is a valid scope.
pub proof fn lemma_detail_scope(prefix: Seq<char>, activity_id: i64)
    requires
        vstd::utf8::is_ascii_chars(prefix),
        1 <= prefix.len() <= 40,
    ensures
        cursor::scope_fits(prefix + numerals::decimal(activity_id as int)),
{
    let scope = prefix + numerals::decimal(activity_id as int);
    numerals::lemma_decimal_length(activity_id as int);
    numerals::lemma_decimal_chars(activity_id as int);
    assert(vstd::utf8::is_ascii_chars(scope));
    vstd::utf8::is_ascii_chars_encode_utf8(scope);
}

/// The page of the attempts of one activity.
pub fn attempts_page(activity_id: ActivityId, rows: Vec<AttemptDetailProjection>, limit: u32) -> (
result: Result<AdminPage<ActivityAttemptSummary>, DurableError>)
    requires
        limit > 0,
    ensures
        ({
            let n = at_most(rows@.len() as int, limit);
            let problems = Seq::new(n as nat, |i: int| attempt_detail_problem(rows@[i]));
            match result {
                Ok(page) => {
                    &&& first_error(problems) is None
                    &&& page.items@.len() == n
                    &&& forall|i: int|
                        0 <= i < n ==> details_attempt(rows@[i], #[trigger] page.items@[i])
                    &&& text::opt_text(page.next_cursor) == cursor_behind(
                        attempt_scope(activity_id@),
                        rows@.len() as int,
                        limit,
                        row_position(0, rows@[n - 1].attempt_number as i64),
                    )
                },
                Err(error) => first_error(problems) == Some(error@),
            }
        }),
{
    let ghost all = rows@;
    let has_more = rows.len() > limit as usize;
    let mut pending = first_reversed(rows, limit);
    let count: usize = pending.len();
    let scope = join2("activity_attempts:", activity_id.text().as_str());
    let mut next_cursor: Option<String> = None;
    if has_more && count > 0 {
        let last: i32 = pending[0].attempt_number;
        let number: i64 = activity_id.get();
        proof {
            reveal_strlit("activity_attempts:");
            lemma_detail_scope("activity_attempts:"@, number);
            lemma_decimal_fits(last as i64);
        }
        next_cursor = match encode_cursor(
            scope.as_str(),
            &CursorPosition { timestamp: 0, tie_breaker: decimal_i64(last as i64) },
        ) {
            Ok(cursor) => Some(cursor),
            Err(error) => return Err(error),
        };
    }
    let ghost problems = Seq::new(count as nat, |i: int| attempt_detail_problem(all[i]));
    let mut items: Vec<ActivityAttemptSummary> = Vec::new();
    while pending.len() > 0
        invariant
            items@.len() + pending@.len() == count,
            count == at_most(all.len() as int, limit),
            all == rows@,
            problems == Seq::new(count as nat, |i: int| attempt_detail_problem(all[i])),
            forall|j: int| 0 <= j < pending@.len() ==> #[trigger] pending@[j] == all[count - 1 - j],
            forall|j: int| 0 <= j < items@.len() ==> details_attempt(all[j], #[trigger] items@[j]),
            forall|j: int| 0 <= j < items@.len() ==> (#[trigger] problems[j]) is None,
        decreases pending@.len(),
    {
        let ghost at = items@.len() as int;
        match pending.pop() {
            Some(row) => {
                assert(row == all[at]);
                match attempt_detail_summary(row) {
                    Ok(summary) => {
                        items.push(summary);
                    },
                    Err(error) => {
                        proof {
                            assert(problems[at] == Some(error@));
                            lemma_first_error_at(problems, at);
                        }
                        return Err(error);
                    },
                }
            },
            None => {},
        }
    }
    proof {
        lemma_no_first_error(problems);
    }
    Ok(AdminPage { items, next_cursor })
}

/// The page of the progress of one activity.
pub fn progress_page(activity_id: ActivityId, rows: Vec<ProgressEventRow>, limit: u32) -> (result:
    Result<AdminPage<ProgressSummary>, DurableError>)
    requires
        limit > 0,
    ensures
        ({
            let n = at_most(rows@.len() as int, limit);
            let problems = Seq::new(n as nat, |i: int| id_error(rows@[i].activity_id));
            match result {
                Ok(page) => {
                    &&& first_error(problems) is None
                    &&& page.items@.len() == n
                    &&& forall|i: int|
                        0 <= i < n ==> summarizes_progress(rows@[i], #[trigger] page.items@[i])
                    &&& text::opt_text(page.next_cursor) == cursor_behind(
                        progress_scope(activity_id@),
                        rows@.len() as int,
                        limit,
                        row_position(
                            rows@[n - 1].attempt_number as i64,
                            rows@[n - 1].sequence as i64,
                        ),
                    )
                },
                Err(error) => first_error(problems) == Some(error@),
            }
        }),
{
    let ghost all = rows@;
    let has_more = rows.len() > limit as usize;
    let mut pending = first_reversed(rows, limit);
    let count: usize = pending.len();
    let scope = join2("activity_progress:", activity_id.text().as_str());
    let mut next_cursor: Option<String> = None;
    if has_more && count > 0 {
        let attempt: i32 = pending[0].attempt_number;
        let sequence: i32 = pending[0].sequence;
        let number: i64 = activity_id.get();
        proof {
            reveal_strlit("activity_progress:");
            lemma_detail_scope("activity_progress:"@, number);
            lemma_decimal_fits(sequence as i64);
        }
        next_cursor = match encode_cursor(
            scope.as_str(),
            &CursorPosition {
                timestamp: attempt as i64,
                tie_breaker: decimal_i64(sequence as i64),
            },
        ) {
            Ok(cursor) => Some(cursor),
            Err(error) => return Err(error),
        };
    }
    let ghost problems = Seq::new(count as nat, |i: int| id_error(all[i].activity_id));
    let mut items: Vec<ProgressSummary> = Vec::new();
    while pending.len() > 0
        invariant
            items@.len() + pending@.len() == count,
            count == at_most(all.len() as int, limit),
            all == rows@,
            problems == Seq::new(count as nat, |i: int| id_error(all[i].activity_id)),
            forall|j: int| 0 <= j < pending@.len() ==> #[trigger] pending@[j] == all[count - 1 - j],
            forall|j: int|
                0 <= j < items@.len() ==> summarizes_progress(all[j], #[trigger] items@[j]),
            forall|j: int| 0 <= j < items@.len() ==> (#[trigger] problems[j]) is None,
        decreases pending@.len(),
    {
        let ghost at = items@.len() as int;
        match pending.pop() {
            Some(row) => {
                assert(row == all[at]);
                match progress_summary(row) {
                    Ok(summary) => {
                        items.push(summary);
                    },
                    Err(error) => {
                        proof {
                            assert(problems[at] == Some(error@));
                            lemma_first_error_at(problems, at);
                        }
                        return Err(error);
                    },
                }
            },
            None => {},
        }
    }
    proof {
        lemma_no_first_error(problems);
    }
    Ok(AdminPage { items, next_cursor })
}

/// Why the page of one activity cannot be shown, in the order in which its parts
/// are made: attempts, progress, the activity itself.
pub open spec fn activity_page_problem(
    row: ActivityDetailProjection,
    attempts: Seq<AttemptDetailProjection>,
    attempt_limit: u32,
    progress: Seq<ProgressEventRow>,
    progress_limit: u32,
) -> Option<ErrorModel> {
    either(
        first_error(
            Seq::new(
                at_most(attempts.len() as int, attempt_limit) as nat,
                |i: int| attempt_detail_problem(attempts[i]),
            ),
        ),
        either(
            first_error(
                Seq::new(
                    at_most(progress.len() as int, progress_limit) as nat,
                    |i: int| id_error(progress[i].activity_id),
                ),
            ),
            activity_detail_problem(row),
        ),
    )
}

/// Whether a page shows one activity with the first of its attempts and of its
/// progress.
pub open spec fn shows_activity(
    activity_id: int,
    row: ActivityDetailProjection,
    attempts: Seq<AttemptDetailProjection>,
    attempt_limit: u32,
    progress: Seq<ProgressEventRow>,
    progress_limit: u32,
    detail: ActivityDetail,
) -> bool {
    let shown_attempts = at_most(attempts.len() as int, attempt_limit);
    let shown_progress = at_most(progress.len() as int, progress_limit);
    &&& details_activity(row, detail.activity)
    &&& detail.attempts.items@.len() == shown_attempts
    &&& forall|i: int|
        0 <= i < shown_attempts ==> details_attempt(
            attempts[i],
            #[trigger] detail.attempts.items@[i],
        )
    &&& text::opt_text(detail.attempts.next_cursor) == cursor_behind(
        attempt_scope(activity_id),
        attempts.len() as int,
        attempt_limit,
        row_position(0, attempts[shown_attempts - 1].attempt_number as i64),
    )
    &&& detail.progress.items@.len() == shown_progress
    &&& forall|i: int|
        0 <= i < shown_progress ==> summarizes_progress(
            progress[i],
            #[trigger] detail.progress.items@[i],
        )
    &&& text::opt_text(detail.progress.next_cursor) == cursor_behind(
        progress_scope(activity_id),
        progress.len() as int,
        progress_limit,
        row_position(
            progress[shown_progress - 1].attempt_number as i64,
            progress[shown_progress - 1].sequence as i64,
        ),
    )
}

/// The page of one activity with the first of its attempts and of its progress.
pub fn activity_page(
    activity_id: ActivityId,
    row: ActivityDetailProjection,
    attempts: Vec<AttemptDetailProjection>,
    attempt_limit: u32,
    progress: Vec<ProgressEventRow>,
    progress_limit: u32,
) -> (result: Result<ActivityDetail, DurableError>)
    requires
        attempt_limit > 0,
        progress_limit > 0,
    ensures
        match result {
            Ok(detail) => activity_page_problem(
                row,
                attempts@,
                attempt_limit,
                progress@,
                progress_limit,
            ) is None && shows_activity(
                activity_id@,
                row,
                attempts@,
                attempt_limit,
                progress@,
                progress_limit,
                detail,
            ),
            Err(error) => activity_page_problem(
                row,
                attempts@,
                attempt_limit,
                progress@,
                progress_limit,
            ) == Some(error@),
        },
{
    let attempts = match attempts_page(activity_id, attempts, attempt_limit) {
        Ok(page) => page,
        Err(error) => return Err(error),
    };
    let progress = match progress_page(activity_id, progress, progress_limit) {
        Ok(page) => page,
        Err(error) => return Err(error),
    };
    let activity = match activity_detail_summary(row) {
        Ok(activity) => activity,
        Err(error) => return Err(error),
    };
    Ok(ActivityDetail { activity, attempts, progress })
}

/// Whether a field is shown as present with so many bytes, or as absent.
pub open spec fn shows_length(field: JsonFieldModel, bytes: Option<i64>) -> bool {
    match bytes {
        Some(bytes) => field.present && field.bytes == bytes && field.value is None,
        None => !field.present && field.bytes == 0 && field.value is None,
    }
}

/// Whether a field is shown as present with its text, or as absent.
pub open spec fn shows_text(field: JsonFieldModel, raw: Option<Seq<char>>) -> bool {
    match raw {
        Some(raw) => field.present && field.value == Some(raw) && field.bytes == text::utf8_len(raw),
        None => !field.present && field.bytes == 0 && field.value is None,
    }
}

/// The summary of a listed workflow shows that workflow, each column under its own name:
/// its input, its state and its result by their own lengths, and its lineage by its own
/// numbers.
pub proof fn law_listed_workflow_shows_its_row(row: WorkflowProjection, summary: WorkflowSummary)
    requires
        summarizes_workflow(row, summary),
    ensures
        summary.id@ == row.id,
        summary.kind == row.kind && summary.version == row.version,
        status::workflow_status_named(summary.status@) == Some(row.status),
        summary.wait_kind == row.wait_kind,
        shows_length(summary.input@, Some(row.input_bytes)),
        shows_length(summary.state@, Some(row.state_bytes)),
        shows_length(summary.result@, row.result_bytes),
        row.schedule_run_id matches Some(run) ==> (summary.schedule_run_id matches Some(id) && id@
            == run),
        row.schedule_run_id is None ==> summary.schedule_run_id is None,
        row.root_workflow_id matches Some(root) ==> (summary.root_workflow_id matches Some(id)
            && id@ == root),
        row.root_workflow_id is None ==> summary.root_workflow_id is None,
        row.restarted_from_workflow_id matches Some(from) ==> (
        summary.restarted_from_workflow_id matches Some(id) && id@ == from),
        row.restarted_from_workflow_id is None ==> summary.restarted_from_workflow_id is None,
        summary.error_category == row.error_category,
        summary.error_message == row.error_message,
        summary.created_at == row.created_at,
        summary.updated_at == row.updated_at,
        summary.completed_at == row.completed_at,
{
    status::law_workflow_status_name_round_trip(row.status);
}

/// The page of one workflow shows that workflow, each column under its own name: its input,
/// its state and its result with their own texts.
pub proof fn law_workflow_page_shows_its_row(row: WorkflowDetailProjection, summary: WorkflowSummary)
    requires
        details_workflow(row, summary),
    ensures
        summary.id@ == row.id,
        summary.kind == row.kind && summary.version == row.version,
        status::workflow_status_named(summary.status@) == Some(row.status),
        summary.wait_kind == row.wait_kind,
        shows_text(summary.input@, Some(row.input_json@)),
        shows_text(summary.state@, Some(row.state_json@)),
        shows_text(summary.result@, text::opt_text(row.result_json)),
        row.schedule_run_id matches Some(run) ==> (summary.schedule_run_id matches Some(id) && id@
            == run),
        row.root_workflow_id matches Some(root) ==> (summary.root_workflow_id matches Some(id)
            && id@ == root),
        row.restarted_from_workflow_id matches Some(from) ==> (
        summary.restarted_from_workflow_id matches Some(id) && id@ == from),
        summary.error_category == row.error_category,
        summary.error_message == row.error_message,
        summary.created_at == row.created_at,
        summary.updated_at == row.updated_at,
        summary.completed_at == row.completed_at,
{
    status::law_workflow_status_name_round_trip(row.status);
}

/// The summary of a listed activity shows that activity, each column under its own name.
pub proof fn law_listed_activity_shows_its_row(row: ActivityProjection, summary: ActivitySummary)
    requires
        summarizes_activity(row, summary),
    ensures
        summary.id@ == row.id && summary.workflow_id@ == row.workflow_id,
        summary.kind == row.kind && summary.version == row.version && summary.topic == row.topic,
        status::activity_status_named(summary.status@) == Some(row.status),
        summary.replacement_number == row.replacement_number,
        summary.attempt_count == row.attempt_count,
        summary.max_attempts == row.max_attempts,
        summary.operation_key == row.operation_key,
        row.root_activity_id matches Some(root) ==> (summary.root_activity_id matches Some(id)
            && id@ == root),
        row.replaces_activity_id matches Some(replaced) ==> (
        summary.replaces_activity_id matches Some(id) && id@ == replaced),
        shows_length(summary.payload@, Some(row.payload_bytes)),
        shows_length(summary.provider_result@, row.provider_result_bytes),
        summary.error_category == row.last_error_category,
        summary.error_message == row.last_error_message,
        row.available_at != 0 ==> summary.available_at == row.available_at,
        row.available_at == 0 ==> summary.available_at == row.created_at,
        summary.created_at == row.created_at,
        summary.updated_at == row.updated_at,
        summary.completed_at == row.completed_at,
{
    status::law_activity_status_name_round_trip(row.status);
}

/// The page of one activity shows that activity, each column under its own name, with the
/// texts of its payload and of its result.
pub proof fn law_activity_page_shows_its_row(row: ActivityDetailProjection, summary: ActivitySummary)
    requires
        details_activity(row, summary),
    ensures
        summary.id@ == row.id && summary.workflow_id@ == row.workflow_id,
        summary.kind == row.kind && summary.version == row.version && summary.topic == row.topic,
        status::activity_status_named(summary.status@) == Some(row.status),
        summary.replacement_number == row.replacement_number,
        summary.attempt_count == row.attempt_count,
        summary.max_attempts == row.max_attempts,
        summary.operation_key == row.operation_key,
        row.root_activity_id matches Some(root) ==> (summary.root_activity_id matches Some(id)
            && id@ == root),
        row.replaces_activity_id matches Some(replaced) ==> (
        summary.replaces_activity_id matches Some(id) && id@ == replaced),
        shows_text(summary.payload@, Some(row.payload_json@)),
        shows_text(summary.provider_result@, text::opt_text(row.provider_result_json)),
        summary.error_category == row.last_error_category,
        summary.error_message == row.last_error_message,
        row.available_at != 0 ==> summary.available_at == row.available_at,
        row.available_at == 0 ==> summary.available_at == row.created_at,
        summary.created_at == row.created_at,
        summary.updated_at == row.updated_at,
        summary.completed_at == row.completed_at,
{
    status::law_activity_status_name_round_trip(row.status);
}

/// A shown attempt, approval or progress event is the one that was read, each column under
/// its own name.
pub proof fn law_listed_rows_are_shown(
    attempt: AttemptProjection,
    attempt_summary: ActivityAttemptSummary,
    approval: ApprovalProjection,
    approval_summary: ApprovalSummary,
    progress: ProgressEventRow,
    progress_summary: ProgressSummary,
)
    requires
        summarizes_attempt(attempt, attempt_summary),
        summarizes_approval(approval, approval.status@, approval_summary),
        summarizes_progress(progress, progress_summary),
    ensures
        attempt_summary.activity_id@ == attempt.activity_id,
        attempt_summary.attempt_number == attempt.attempt_number,
        attempt_summary.worker_id == attempt.worker_id,
        attempt_summary.started_at == attempt.started_at,
        attempt_summary.heartbeat_at == attempt.heartbeat_at,
        attempt_summary.finished_at == attempt.finished_at,
        attempt_summary.outcome == attempt.outcome,
        attempt_summary.error_category == attempt.error_category,
        attempt_summary.error_message == attempt.error_message,
        shows_length(attempt_summary.provider_result@, attempt.provider_result_bytes),
        approval_summary.id@ == approval.id,
        approval_summary.workflow_id@ == approval.workflow_id,
        approval_summary.kind == approval.kind,
        approval_summary.version == approval.version,
        approval_summary.status@ == approval.status@,
        shows_length(approval_summary.decision@, approval.decision_bytes),
        approval_summary.decided_by == approval.decided_by,
        approval_summary.operator_reason == approval.operator_reason,
        approval_summary.requested_at == approval.requested_at,
        approval_summary.expires_at == approval.expires_at,
        approval_summary.resolved_at == approval.resolved_at,
        progress_summary.activity_id@ == progress.activity_id,
        progress_summary.attempt_number == progress.attempt_number,
        progress_summary.sequence == progress.sequence,
        progress_summary.code == progress.code,
        progress_summary.description == progress.description,
        progress_summary.completed_units == progress.completed_units,
        progress_summary.total_units == progress.total_units,
        progress_summary.severity == progress.severity,
        progress_summary.created_at == progress.created_at,
{
}

/// A shown attempt of one activity is the one that was read, with the text of its result.
pub proof fn law_attempt_page_shows_its_row(
    row: AttemptDetailProjection,
    summary: ActivityAttemptSummary,
)
    requires
        details_attempt(row, summary),
    ensures
        summary.activity_id@ == row.activity_id,
        summary.attempt_number == row.attempt_number,
        summary.worker_id == row.worker_id,
        summary.started_at == row.started_at,
        summary.heartbeat_at == row.heartbeat_at,
        summary.finished_at == row.finished_at,
        summary.outcome == row.outcome,
        summary.error_category == row.error_category,
        summary.error_message == row.error_message,
        shows_text(summary.provider_result@, text::opt_text(row.provider_result_json)),
{
}

/// A row is listed exactly where its numbers are identifiers and its lengths fit.
pub proof fn law_rows_are_refused_only_for_numbers(
    workflow: WorkflowProjection,
    activity: ActivityProjection,
)
    ensures
        workflow_problem(workflow) is None <==> {
            &&& workflow.id > 0
            &&& workflow.schedule_run_id matches Some(id) ==> id > 0
            &&& workflow.root_workflow_id matches Some(id) ==> id > 0
            &&& workflow.restarted_from_workflow_id matches Some(id) ==> id > 0
            &&& 0 <= workflow.input_bytes <= usize::MAX
            &&& 0 <= workflow.state_bytes <= usize::MAX
            &&& workflow.result_bytes matches Some(bytes) ==> 0 <= bytes <= usize::MAX
        },
        activity_problem(activity) is None <==> {
            &&& activity.id > 0
            &&& activity.workflow_id > 0
            &&& activity.root_activity_id matches Some(id) ==> id > 0
            &&& activity.replaces_activity_id matches Some(id) ==> id > 0
            &&& 0 <= activity.payload_bytes <= usize::MAX
            &&& activity.provider_result_bytes matches Some(bytes) ==> 0 <= bytes <= usize::MAX
        },
{
}

/// A page that was read with one row more than it may hold shows exactly as many as it may,
/// and goes on behind the last one that it shows; one that was not shows all, and ends.
pub proof fn law_page_shows_its_limit(
    scope: Seq<char>,
    rows: int,
    limit: u32,
    timestamp: i64,
    id: i64,
)
    requires
        0 <= rows <= limit + 1,
        limit > 0,
    ensures
        rows <= limit ==> shown_rows(rows, limit) == rows && next_page(
            scope,
            rows,
            limit,
            timestamp,
            id,
        ) is None,
        rows > limit ==> shown_rows(rows, limit) == limit && next_page(
            scope,
            rows,
            limit,
            timestamp,
            id,
        ) == Some(
            cursor::encoded_cursor(
                scope,
                PositionModel { timestamp, tie_breaker: numerals::decimal(id as int) },
            ),
        ),
        at_most(rows, limit) == shown_rows(rows, limit),
        cursor_behind(scope, rows, limit, row_position(timestamp, id)) == next_page(
            scope,
            rows,
            limit,
            timestamp,
            id,
        ),
{
}

/// The place inside the cursor of a row is that row: its time and its number.
pub proof fn law_row_position_reads_back(timestamp: i64, id: i64)
    requires
        id > 0,
    ensures
        numeric_position(Ok(row_position(timestamp, id))) == Ok::<(i64, i64), ErrorModel>(
            (timestamp, id),
        ),
        i32::MIN <= timestamp <= i32::MAX && id <= i32::MAX ==> progress_start(
            Ok(Some((timestamp, id))),
        ) == Ok::<Option<(i32, i32)>, ErrorModel>(Some((timestamp as i32, id as i32))),
        id <= i32::MAX ==> attempt_start(Ok(Some((timestamp, id)))) == Ok::<
            Option<i32>,
            ErrorModel,
        >(Some(id as i32)),
{
    lemma_row_position(timestamp, id);
}

/// A range of times is refused exactly where it is empty.
pub proof fn law_empty_ranges_are_refused(after: Option<i64>, before: Option<i64>)
    ensures
        range_error(after, before) is Some <==> after is Some && before is Some && after->0
            >= before->0,
{
}

/// Rows are listed from the latest on, and of one time from the largest number on.
pub proof fn law_rows_come_behind_one_another(a: (i64, i64), b: (i64, i64), c: (i64, i64))
    ensures
        comes_behind(a, b.0, b.1) <==> b.0 < a.0 || (b.0 == a.0 && b.1 < a.1),
        !comes_behind(a, a.0, a.1),
        a != b ==> comes_behind(a, b.0, b.1) != comes_behind(b, a.0, a.1),
        comes_behind(a, b.0, b.1) && comes_behind(b, c.0, c.1) ==> comes_behind(a, c.0, c.1),
{
}

/// The pages of different activities, and the attempts and the progress of one, have
/// cursors of their own.
pub proof fn law_detail_scopes_are_distinct(activity_id: int, other: int)
    ensures
        attempt_scope(activity_id) == attempt_scope(other) ==> activity_id == other,
        progress_scope(activity_id) == progress_scope(other) ==> activity_id == other,
        attempt_scope(activity_id) != progress_scope(other),
{
    reveal_strlit("activity_attempts:");
    reveal_strlit("activity_progress:");
    let a = "activity_attempts:"@;
    let p = "activity_progress:"@;
    let m = numerals::decimal(activity_id);
    let n = numerals::decimal(other);
    assert((a + m).skip(a.len() as int) =~= m);
    assert((a + n).skip(a.len() as int) =~= n);
    assert((p + m).skip(p.len() as int) =~= m);
    assert((p + n).skip(p.len() as int) =~= n);
    assert((a + m)[9] == 'a');
    assert((p + n)[9] == 'p');
    numerals::lemma_decimal_round_trip(activity_id);
    numerals::lemma_decimal_round_trip(other);
}

/// A page of workflows shows the first ones that were read, in their order and no more than
/// its limit. It ends where all were shown, and otherwise its cursor names the time and the
/// number of the last workflow that it shows.
pub proof fn law_page_of_workflows_continues(
    rows: Seq<WorkflowProjection>,
    limit: u32,
    page: AdminPage<WorkflowSummary>,
    i: int,
)
    requires
        lists_workflows(rows, limit, page),
        limit > 0,
        rows.len() <= limit + 1,
        0 <= i < page.items@.len(),
    ensures
        page.items@.len() <= limit,
        page.items@.len() <= rows.len(),
        page.items@[i].id@ == rows[i].id,
        page.items@[i].created_at == rows[i].created_at,
        page.next_cursor is None <==> page.items@.len() == rows.len(),
        page.next_cursor matches Some(cursor) ==> cursor@ == cursor::encoded_cursor(
            "workflows"@,
            (PositionModel {
                timestamp: page.items@.last().created_at,
                tie_breaker: numerals::decimal(page.items@.last().id@),
            }),
        ),
{
    assert(summarizes_workflow(rows[i], page.items@[i]));
    let last = page.items@.len() - 1;
    assert(summarizes_workflow(rows[last], page.items@[last]));
}

/// A page of activities shows the first ones that were read, in their order and no more
/// than its limit. It ends where all were shown, and otherwise its cursor names the time and
/// the number of the last activity that it shows.
pub proof fn law_page_of_activities_continues(
    rows: Seq<ActivityProjection>,
    limit: u32,
    page: AdminPage<ActivitySummary>,
    i: int,
)
    requires
        lists_activities(rows, limit, page),
        limit > 0,
        rows.len() <= limit + 1,
        0 <= i < page.items@.len(),
    ensures
        page.items@.len() <= limit,
        page.items@.len() <= rows.len(),
        page.items@[i].id@ == rows[i].id,
        page.items@[i].created_at == rows[i].created_at,
        page.next_cursor is None <==> page.items@.len() == rows.len(),
        page.next_cursor matches Some(cursor) ==> cursor@ == cursor::encoded_cursor(
            "activities"@,
            (PositionModel {
                timestamp: page.items@.last().created_at,
                tie_breaker: numerals::decimal(page.items@.last().id@),
            }),
        ),
{
    assert(summarizes_activity(rows[i], page.items@[i]));
    let last = page.items@.len() - 1;
    assert(summarizes_activity(rows[last], page.items@[last]));
}

/// The page of one activity shows the first of its attempts and of its progress events, in
/// their order and no more than the limits. A cursor names the last attempt, or the attempt
/// and the sequence of the last event, that the page shows.
pub proof fn law_activity_page_continues(
    activity_id: int,
    row: ActivityDetailProjection,
    attempts: Seq<AttemptDetailProjection>,
    attempt_limit: u32,
    progress: Seq<ProgressEventRow>,
    progress_limit: u32,
    detail: ActivityDetail,
    i: int,
)
    requires
        shows_activity(
            activity_id,
            row,
            attempts,
            attempt_limit,
            progress,
            progress_limit,
            detail,
        ),
        attempt_limit > 0,
        progress_limit > 0,
        i >= 0,
    ensures
        detail.activity.id@ == row.id,
        detail.attempts.items@.len() <= attempt_limit,
        i < detail.attempts.items@.len() ==> detail.attempts.items@[i].attempt_number
            == attempts[i].attempt_number,
        detail.attempts.next_cursor is None <==> detail.attempts.items@.len() == attempts.len(),
        detail.attempts.next_cursor matches Some(cursor) ==> cursor@ == cursor::encoded_cursor(
            attempt_scope(activity_id),
            (PositionModel {
                timestamp: 0,
                tie_breaker: numerals::decimal(
                    detail.attempts.items@.last().attempt_number as int,
                ),
            }),
        ),
        detail.progress.items@.len() <= progress_limit,
        i < detail.progress.items@.len() ==> detail.progress.items@[i].sequence
            == progress[i].sequence && detail.progress.items@[i].attempt_number
            == progress[i].attempt_number,
        detail.progress.next_cursor is None <==> detail.progress.items@.len() == progress.len(),
        detail.progress.next_cursor matches Some(cursor) ==> cursor@ == cursor::encoded_cursor(
            progress_scope(activity_id),
            (PositionModel {
                timestamp: detail.progress.items@.last().attempt_number as i64,
                tie_breaker: numerals::decimal(detail.progress.items@.last().sequence as int),
            }),
        ),
{
    let shown = detail.attempts.items@;
    let told = detail.progress.items@;
    if shown.len() > 0 {
        assert(details_attempt(attempts[shown.len() - 1], shown[shown.len() - 1]));
    }
    if told.len() > 0 {
        assert(summarizes_progress(progress[told.len() - 1], told[told.len() - 1]));
    }
    if i < shown.len() {
        assert(details_attempt(attempts[i], shown[i]));
    }
    if i < told.len() {
        assert(summarizes_progress(progress[i], told[i]));
    }
}

/// There is a first error exactly where some place has one, and it is that of a place behind
/// which none comes before.
pub proof fn law_first_error_comes_first(errors: Seq<Option<ErrorModel>>, at: int)
    ensures
        first_error(errors) is None <==> forall|i: int|
            0 <= i < errors.len() ==> (#[trigger] errors[i]) is None,
        0 <= at < errors.len() && errors[at] is Some && (forall|i: int|
            0 <= i < at ==> (#[trigger] errors[i]) is None) ==> first_error(errors) == errors[at],
    decreases errors.len(),
{
    if errors.len() > 0 {
        let rest = errors.drop_first();
        assert(forall|i: int| 0 <= i < rest.len() ==> #[trigger] rest[i] == errors[i + 1]);
        law_first_error_comes_first(rest, at - 1);
        if forall|i: int| 0 <= i < errors.len() ==> (#[trigger] errors[i]) is None {
            lemma_no_first_error(errors);
        }
        if first_error(errors) is None {
            assert forall|i: int| 0 <= i < errors.len() implies (#[trigger] errors[i]) is None by {
                if i > 0 {
                    assert(rest[i - 1] is None);
                }
            }
        }
        if 0 <= at < errors.len() && errors[at] is Some && (forall|i: int|
            0 <= i < at ==> (#[trigger] errors[i]) is None) {
            lemma_first_error_at(errors, at);
        }
    }
}

/// A row is shown with its texts exactly where its numbers are identifiers and its texts are
/// JSON.
pub proof fn law_detail_rows_are_refused_only_for_a_reason(
    workflow: WorkflowDetailProjection,
    activity: ActivityDetailProjection,
    attempt: AttemptDetailProjection,
)
    ensures
        workflow_detail_problem(workflow) is None <==> {
            &&& workflow.id > 0
            &&& workflow.schedule_run_id matches Some(id) ==> id > 0
            &&& workflow.root_workflow_id matches Some(id) ==> id > 0
            &&& workflow.restarted_from_workflow_id matches Some(id) ==> id > 0
            &&& types::shown_field(workflow.input_json@) is Ok
            &&& types::shown_field(workflow.state_json@) is Ok
            &&& workflow.result_json matches Some(json) ==> types::shown_field(json@) is Ok
        },
        activity_detail_problem(activity) is None <==> {
            &&& activity.id > 0
            &&& activity.workflow_id > 0
            &&& activity.root_activity_id matches Some(id) ==> id > 0
            &&& activity.replaces_activity_id matches Some(id) ==> id > 0
            &&& types::shown_field(activity.payload_json@) is Ok
            &&& activity.provider_result_json matches Some(json) ==> types::shown_field(json@) is Ok
        },
        attempt_detail_problem(attempt) is None <==> {
            &&& attempt.activity_id > 0
            &&& attempt.provider_result_json matches Some(json) ==> types::shown_field(json@) is Ok
        },
{
}

/// An attempt and an approval are listed exactly where their numbers are identifiers and
/// their lengths fit.
pub proof fn law_attempts_and_approvals_are_refused_only_for_numbers(
    attempt: AttemptProjection,
    approval: ApprovalProjection,
)
    ensures
        attempt_problem(attempt) is None <==> {
            &&& attempt.activity_id > 0
            &&& attempt.provider_result_bytes matches Some(bytes) ==> 0 <= bytes <= usize::MAX
        },
        approval_problem(approval) is None <==> {
            &&& approval.id > 0
            &&& approval.workflow_id > 0
            &&& approval.decision_bytes matches Some(bytes) ==> 0 <= bytes <= usize::MAX
        },
{
}

/// A version that is asked for is refused exactly where it is not positive.
pub proof fn law_versions_are_positive(version: Option<i32>)
    ensures
        bad_version(version) <==> version is Some && version->0 <= 0,
{
}

/// A page without a cursor begins at the front; one with the cursor of a row begins behind
/// that row, and one whose cursor is refused is refused with it.
pub proof fn law_page_begins_at_its_cursor(scope: Seq<char>, cursor: Seq<char>)
    ensures
        page_start(scope, None) == Ok::<Option<(i64, i64)>, ErrorModel>(None),
        match cursor::decoded_cursor(scope, cursor) {
            Ok(position) => match page_start(scope, Some(cursor)) {
                Ok(Some(place)) => place.0 == position.timestamp && numerals::bounded_value(
                    position.tie_breaker,
                    i64::MIN as int,
                    i64::MAX as int,
                ) == Some(place.1 as int) && place.1 > 0,
                Ok(None) => false,
                Err(_) => match numerals::bounded_value(
                    position.tie_breaker,
                    i64::MIN as int,
                    i64::MAX as int,
                ) {
                    Some(id) => id <= 0,
                    None => true,
                },
            },
            Err(error) => page_start(scope, Some(cursor)) == Err::<Option<(i64, i64)>, ErrorModel>(
                error,
            ),
        },
{
}

/// A request for the page of one activity is refused only for a limit that is not from 1 to
/// 100 or for a cursor; what is asked for are the limits and the places that it names.
pub proof fn law_detail_request_is_kept(
    activity_id: int,
    request: ActivityDetailRequest,
    query: DetailQuery,
)
    requires
        detail_error(activity_id, request) is None,
        asks_for(activity_id, request, query),
    ensures
        request.attempt_limit matches Some(limit) ==> query.attempt_limit == limit,
        request.attempt_limit is None ==> query.attempt_limit == 50,
        request.progress_limit matches Some(limit) ==> query.progress_limit == limit,
        request.progress_limit is None ==> query.progress_limit == 50,
        1 <= query.attempt_limit <= 100,
        1 <= query.progress_limit <= 100,
        request.attempt_cursor is None ==> query.attempt_after is None,
        request.attempt_cursor matches Some(cursor) ==> (page_start(
            attempt_scope(activity_id),
            Some(cursor@),
        ) matches Ok(Some(place)) && query.attempt_after == Some(place.1 as i32) && place.1
            <= i32::MAX),
        request.progress_cursor is None ==> query.progress_after is None,
        request.progress_cursor matches Some(cursor) ==> (page_start(
            progress_scope(activity_id),
            Some(cursor@),
        ) matches Ok(Some(place)) && query.progress_after == Some(
            (place.0 as i32, place.1 as i32),
        )),
{
}

} // verus!
