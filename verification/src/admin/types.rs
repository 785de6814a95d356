//! What operators ask for and what they are shown.
use vstd::prelude::*;
use crate::error;
use crate::error::{DurableError, ErrorModel};
use crate::ids::{ActivityId, ApprovalId, ScheduleRunId, WorkflowId};
use crate::json;
use crate::json::check_json;
use crate::numerals;
use crate::numerals::decimal_u64;
use crate::schedule::registry::{MisfirePolicy, OverlapPolicy};
use crate::text;
use crate::text::{byte_len, join2, join3, trim};
use crate::MAX_ERROR_REASON_BYTES;

verus! {

/// The most entries of an administrative page.
pub const MAX_ADMIN_PAGE_SIZE: u32 = 100;

/// The most entries of a page of a workflow's timeline.
pub const MAX_TIMELINE_PAGE_SIZE: u32 = 200;

/// The entries of a page for which no limit is asked.
pub const DEFAULT_ADMIN_PAGE_SIZE: u32 = 50;

/// The longest actor identifier, in bytes.
pub const MAX_ACTOR_ID_BYTES: usize = 191;

/// Where a page begins and how many entries it may hold.
#[derive(Debug, Clone, PartialEq, Eq)]
pub struct PageRequest {
    pub cursor: Option<String>,
    pub limit: Option<u32>,
}

impl Default for PageRequest {
    fn default() -> (page: Self)
        ensures
            page.cursor is None,
            page.limit is None,
    {
        PageRequest { cursor: None, limit: None }
    }
}

/// The limit of a page: the one asked for, or the default.
pub open spec fn asked_limit(limit: Option<u32>) -> u32 {
    match limit {
        Some(limit) => limit,
        None => DEFAULT_ADMIN_PAGE_SIZE,
    }
}

/// The limit of a page, or why it is refused.
pub open spec fn limit_result(limit: Option<u32>, maximum: u32) -> Result<u32, ErrorModel> {
    if 1 <= asked_limit(limit) <= maximum {
        Ok(asked_limit(limit))
    } else {
        Err(
            ErrorModel::InvalidDefinition(
                "page limit must contain 1 to "@ + numerals::decimal(maximum as int) + " entries"@,
            ),
        )
    }
}

impl PageRequest {
    /// The number of entries asked for; refuses none and more than `maximum`.
    pub fn bounded_limit(&self, maximum: u32) -> (result: Result<u32, DurableError>)
        ensures
            error::result_model(result) == limit_result(self.limit, maximum),
    {
        let limit: u32 = match self.limit {
            Some(limit) => limit,
            None => DEFAULT_ADMIN_PAGE_SIZE,
        };
        if limit == 0 || limit > maximum {
            return Err(
                DurableError::InvalidDefinition(
                    join3(
                        "page limit must contain 1 to ",
                        decimal_u64(maximum as u64).as_str(),
                        " entries",
                    ),
                ),
            );
        }
        Ok(limit)
    }
}

/// Who acts on the engine, and why.
#[derive(Debug, PartialEq, Eq)]
pub struct Operator {
    actor_id: String,
    reason: String,
}

/// The mathematical content of an [`Operator`].
#[verifier::ext_equal]
pub struct OperatorModel {
    pub actor_id: Seq<char>,
    pub reason: Seq<char>,
}

impl View for Operator {
    type V = OperatorModel;

    closed spec fn view(&self) -> OperatorModel {
        OperatorModel { actor_id: self.actor_id@, reason: self.reason@ }
    }
}

impl Clone for Operator {
    fn clone(&self) -> (copy: Self)
        ensures
            copy == *self,
    {
        proof {
            use_type_invariant(self);
        }
        Operator { actor_id: self.actor_id.clone(), reason: self.reason.clone() }
    }
}

/// Whether an actor identifier has an allowed length.
pub open spec fn actor_fits(actor_id: Seq<char>) -> bool {
    1 <= text::utf8_len(actor_id) <= MAX_ACTOR_ID_BYTES
}

/// Whether a trimmed reason has an allowed length.
pub open spec fn reason_fits(reason: Seq<char>) -> bool {
    1 <= text::utf8_len(reason) <= MAX_ERROR_REASON_BYTES
}

/// The operator that an actor and a reason make, or why it is refused.
pub open spec fn operator_result(actor_id: Seq<char>, reason: Seq<char>) -> Result<
    OperatorModel,
    ErrorModel,
> {
    if !actor_fits(actor_id) {
        Err(ErrorModel::InvalidDefinition("operator actor ID must contain 1 to 191 bytes"@))
    } else if !reason_fits(text::trimmed(reason)) {
        Err(
            ErrorModel::InvalidDefinition(
                "operator reason must contain 1 to "@ + numerals::decimal(
                    MAX_ERROR_REASON_BYTES as int,
                ) + " bytes"@,
            ),
        )
    } else {
        Ok(OperatorModel { actor_id, reason: text::trimmed(reason) })
    }
}

impl Operator {
    #[verifier::type_invariant]
    spec fn fits(self) -> bool {
        actor_fits(self.actor_id@) && reason_fits(self.reason@)
    }

    /// The operator `actor_id` acting for a reason, which is trimmed.
    pub fn new(actor_id: &str, reason: &str) -> (result: Result<Self, DurableError>)
        ensures
            match result {
                Ok(operator) => operator_result(actor_id@, reason@) == Ok::<
                    OperatorModel,
                    ErrorModel,
                >(operator@),
                Err(error) => operator_result(actor_id@, reason@) == Err::<
                    OperatorModel,
                    ErrorModel,
                >(error@),
            },
    {
        let reason = trim(reason);
        let actor_bytes: usize = byte_len(actor_id);
        if actor_bytes == 0 || actor_bytes > MAX_ACTOR_ID_BYTES {
            return Err(error::invalid_definition("operator actor ID must contain 1 to 191 bytes"));
        }
        let reason_bytes: usize = byte_len(reason.as_str());
        if reason_bytes == 0 || reason_bytes > MAX_ERROR_REASON_BYTES {
            return Err(
                DurableError::InvalidDefinition(
                    join3(
                        "operator reason must contain 1 to ",
                        decimal_u64(MAX_ERROR_REASON_BYTES as u64).as_str(),
                        " bytes",
                    ),
                ),
            );
        }
        Ok(Operator { actor_id: actor_id.to_owned(), reason })
    }

    /// Who acts.
    pub fn actor_id(&self) -> (actor_id: &str)
        ensures
            actor_id@ == self@.actor_id,
            actor_fits(actor_id@),
    {
        proof {
            use_type_invariant(self);
        }
        self.actor_id.as_str()
    }

    /// Why.
    pub fn reason(&self) -> (reason: &str)
        ensures
            reason@ == self@.reason,
            reason_fits(reason@),
    {
        proof {
            use_type_invariant(self);
        }
        self.reason.as_str()
    }
}

/// Whether a JSON field is set, how long its text is, and the text itself where
/// it is shown.
#[derive(Debug, Clone, PartialEq, Eq)]
pub struct JsonFieldSummary {
    pub present: bool,
    pub bytes: usize,
    /// The JSON text, on detail pages only.
    pub value: Option<String>,
}

/// The mathematical content of a [`JsonFieldSummary`].
#[verifier::ext_equal]
pub struct JsonFieldModel {
    pub present: bool,
    pub bytes: int,
    pub value: Option<Seq<char>>,
}

impl View for JsonFieldSummary {
    type V = JsonFieldModel;

    open spec fn view(&self) -> JsonFieldModel {
        JsonFieldModel {
            present: self.present,
            bytes: self.bytes as int,
            value: text::opt_text(self.value),
        }
    }
}

/// The summary of a field that is not set.
pub open spec fn absent_field() -> JsonFieldModel {
    JsonFieldModel { present: false, bytes: 0, value: None }
}

/// The summary of a set field of a known length whose text is not shown.
pub open spec fn measured_field(bytes: int) -> JsonFieldModel {
    JsonFieldModel { present: true, bytes, value: None }
}

/// The summary of a JSON text that is shown, or why it is refused.
pub open spec fn shown_field(raw: Seq<char>) -> Result<JsonFieldModel, ErrorModel> {
    match json::parsed_json(vstd::utf8::encode_utf8(raw)) {
        Ok(_) => Ok(
            JsonFieldModel { present: true, bytes: text::utf8_len(raw) as int, value: Some(raw) },
        ),
        Err(refusal) => Err(ErrorModel::InvalidState("persisted JSON is invalid: "@ + refusal)),
    }
}

/// The summary of an optional JSON text that is shown, or why it is refused.
pub open spec fn shown_optional_field(raw: Option<Seq<char>>) -> Result<JsonFieldModel, ErrorModel> {
    match raw {
        Some(raw) => shown_field(raw),
        None => Ok(absent_field()),
    }
}

/// The model of a field summary or of the error in its place.
pub open spec fn field_model(result: Result<JsonFieldSummary, DurableError>) -> Result<
    JsonFieldModel,
    ErrorModel,
> {
    match result {
        Ok(field) => Ok(field@),
        Err(error) => Err(error@),
    }
}

impl JsonFieldSummary {
    /// A set field whose text is not shown.
    pub fn from_required(value: &str) -> (field: Self)
        ensures
            field@ == measured_field(text::utf8_len(value@) as int),
    {
        JsonFieldSummary { present: true, bytes: byte_len(value), value: None }
    }

    /// A field that may be set and whose text is not shown.
    pub fn from_optional(value: Option<&str>) -> (field: Self)
        ensures
            field@ == (match value {
                Some(value) => measured_field(text::utf8_len(value@) as int),
                None => absent_field(),
            }),
    {
        match value {
            Some(value) => JsonFieldSummary::from_required(value),
            None => JsonFieldSummary { present: false, bytes: 0, value: None },
        }
    }

    /// The field that a JSON text makes once it was read: `checked` is what the
    /// reading of `raw` said.
    pub fn from_checked_json(raw: &str, checked: Result<(), String>) -> (result: Result<
        Self,
        DurableError,
    >)
        ensures
            field_model(result) == (match checked {
                Ok(()) => Ok(
                    JsonFieldModel {
                        present: true,
                        bytes: text::utf8_len(raw@) as int,
                        value: Some(raw@),
                    },
                ),
                Err(refusal) => Err(
                    ErrorModel::InvalidState("persisted JSON is invalid: "@ + refusal@),
                ),
            }),
    {
        match checked {
            Ok(()) => Ok(
                JsonFieldSummary { present: true, bytes: byte_len(raw), value: Some(raw.to_owned()) },
            ),
            Err(refusal) => Err(
                DurableError::InvalidState(join2("persisted JSON is invalid: ", refusal.as_str())),
            ),
        }
    }

    /// A set field whose JSON text is shown; refuses a text that is not JSON.
    pub fn from_required_json(raw: &str) -> (result: Result<Self, DurableError>)
        ensures
            field_model(result) == shown_field(raw@),
    {
        JsonFieldSummary::from_checked_json(raw, check_json(raw))
    }

    /// A field that may be set and whose JSON text is shown.
    pub fn from_optional_json(raw: Option<&str>) -> (result: Result<Self, DurableError>)
        ensures
            field_model(result) == shown_optional_field(text::opt_str(raw)),
    {
        match raw {
            Some(raw) => JsonFieldSummary::from_required_json(raw),
            None => Ok(JsonFieldSummary { present: false, bytes: 0, value: None }),
        }
    }
}

/// One page of a collection and the cursor of the next one.
#[derive(Debug, Clone, PartialEq, Eq)]
pub struct AdminPage<T> {
    pub items: Vec<T>,
    pub next_cursor: Option<String>,
}

/// Which workflows to list.
#[derive(Debug, Clone, PartialEq, Eq, Default)]
pub struct WorkflowListFilter {
    pub page: PageRequest,
    pub kind: Option<String>,
    pub version: Option<i32>,
    pub status: Option<String>,
    pub schedule_run_id: Option<ScheduleRunId>,
    pub root_workflow_id: Option<WorkflowId>,
    pub created_after: Option<i64>,
    pub created_before: Option<i64>,
    pub waiting_approval: Option<bool>,
}

/// Which activities to list.
#[derive(Debug, Clone, PartialEq, Eq, Default)]
pub struct ActivityListFilter {
    pub page: PageRequest,
    pub workflow_id: Option<WorkflowId>,
    pub kind: Option<String>,
    pub version: Option<i32>,
    pub topic: Option<String>,
    pub status: Option<String>,
    pub created_after: Option<i64>,
    pub created_before: Option<i64>,
}

/// Which attempts and progress events of an activity to show.
#[derive(Debug, Clone, PartialEq, Eq, Default)]
pub struct ActivityDetailRequest {
    pub attempt_cursor: Option<String>,
    pub attempt_limit: Option<u32>,
    pub progress_cursor: Option<String>,
    pub progress_limit: Option<u32>,
}

/// Which approvals to list.
#[derive(Debug, Clone, PartialEq, Eq, Default)]
pub struct ApprovalListFilter {
    pub page: PageRequest,
    pub workflow_id: Option<WorkflowId>,
    pub kind: Option<String>,
    pub version: Option<i32>,
    pub status: Option<String>,
    pub requested_after: Option<i64>,
    pub requested_before: Option<i64>,
}

/// How many activities were completed in one hour.
#[derive(Debug, Clone, PartialEq, Eq)]
pub struct HourlyThroughputBucket {
    pub starts_at: i64,
    pub completed_count: u64,
}

/// The load of one activity topic.
#[derive(Debug, Clone, PartialEq, Eq)]
pub struct TopicMetrics {
    pub topic: String,
    pub max_concurrency: u32,
    pub configured_max_concurrency: u32,
    pub configuration_mismatch: bool,
    pub active_count: u64,
    pub available_capacity: u32,
    pub ready_count: u64,
    pub retry_scheduled_count: u64,
    pub dead_letter_count: u64,
    pub oldest_ready_age_millis: Option<u64>,
    pub oldest_active_age_millis: Option<u64>,
    pub hourly_throughput: Vec<HourlyThroughputBucket>,
    pub captured_at: i64,
}

/// The persisted state of a schedule.
#[derive(Debug, Clone, PartialEq, Eq)]
pub struct ScheduleStateSummary {
    pub definition_fingerprint: String,
    pub definition_version: i32,
    pub next_local_occurrence: String,
    pub next_occurrence_at: i64,
    pub last_materialized_at: Option<i64>,
    pub paused_at: Option<i64>,
    pub paused_by: Option<i32>,
    pub pause_reason: Option<String>,
    pub created_at: i64,
    pub updated_at: i64,
}

/// How a registered schedule and its persisted state disagree.
#[derive(Debug, Clone, PartialEq, Eq)]
pub enum ScheduleHealthIssue {
    MissingState,
    UnregisteredState,
    DefinitionMismatch {
        registered_version: i32,
        persisted_version: i32,
    },
}

/// One run of a schedule and the state of its workflow.
#[derive(Debug, PartialEq, Eq)]
pub struct ScheduleRunSummary {
    pub id: ScheduleRunId,
    pub schedule_key: String,
    pub local_occurrence: String,
    pub scheduled_for: i64,
    pub materialized_at: i64,
    pub status: String,
    pub reason: Option<String>,
    pub actor_id: Option<i32>,
    pub workflow_id: Option<WorkflowId>,
    pub workflow_status: Option<String>,
    pub workflow_completed_at: Option<i64>,
    pub created_at: i64,
}

impl Clone for ScheduleRunSummary {
    fn clone(&self) -> (copy: Self)
        ensures
            copy == *self,
    {
        ScheduleRunSummary {
            id: self.id,
            schedule_key: self.schedule_key.clone(),
            local_occurrence: self.local_occurrence.clone(),
            scheduled_for: self.scheduled_for,
            materialized_at: self.materialized_at,
            status: self.status.clone(),
            reason: self.reason.clone(),
            actor_id: self.actor_id,
            workflow_id: self.workflow_id,
            workflow_status: self.workflow_status.clone(),
            workflow_completed_at: self.workflow_completed_at,
            created_at: self.created_at,
        }
    }
}

/// A schedule, registered or persisted, with its runs.
#[derive(Debug, Clone, PartialEq, Eq)]
pub struct ScheduleSummary {
    pub key: String,
    pub registered_version: Option<i32>,
    pub registered_fingerprint: Option<String>,
    pub cron: Option<String>,
    pub timezone: Option<String>,
    pub misfire: Option<MisfirePolicy>,
    pub overlap: Option<OverlapPolicy>,
    pub misfire_grace_millis: Option<i64>,
    pub state: Option<ScheduleStateSummary>,
    pub active_overlap_count: u64,
    pub skipped_count: u64,
    pub coalesced_count: u64,
    pub last_run: Option<ScheduleRunSummary>,
    pub recent_runs: Vec<ScheduleRunSummary>,
    pub health_issues: Vec<ScheduleHealthIssue>,
}

/// What became of a workflow under an operator.
#[derive(Debug, Clone, PartialEq, Eq)]
pub struct WorkflowControlOutcome {
    pub workflow_id: WorkflowId,
    pub status: String,
}

/// A workflow and the one that restarts it.
#[derive(Debug, Clone, PartialEq, Eq)]
pub struct WorkflowRestartOutcome {
    pub source_workflow_id: WorkflowId,
    pub workflow_id: WorkflowId,
    pub kind: String,
    pub version: i32,
}

/// A dead-lettered activity and the one that replaces it.
#[derive(Debug, Clone, PartialEq, Eq)]
pub struct ActivityRetryOutcome {
    pub source_activity_id: ActivityId,
    pub activity_id: ActivityId,
    pub kind: String,
    pub version: i32,
    pub operation_key: Option<String>,
}

/// What became of an approval.
#[derive(Debug, Clone, PartialEq, Eq)]
pub struct ApprovalResolutionOutcome {
    pub approval_id: ApprovalId,
    pub workflow_id: WorkflowId,
    pub status: String,
}

/// Whether a schedule is paused.
#[derive(Debug, Clone, PartialEq, Eq)]
pub struct ScheduleControlOutcome {
    pub schedule_key: String,
    pub paused: bool,
}

/// A schedule run that an operator asked for.
#[derive(Debug, Clone, PartialEq, Eq)]
pub struct ScheduleRunNowOutcome {
    pub schedule_run_id: ScheduleRunId,
    pub workflow_id: WorkflowId,
    pub scheduled_for: i64,
}

/// A workflow as operators see it.
#[derive(Debug, Clone, PartialEq, Eq)]
pub struct WorkflowSummary {
    pub id: WorkflowId,
    pub kind: String,
    pub version: i32,
    pub status: String,
    pub wait_kind: Option<String>,
    pub schedule_run_id: Option<ScheduleRunId>,
    pub root_workflow_id: Option<WorkflowId>,
    pub restarted_from_workflow_id: Option<WorkflowId>,
    pub input: JsonFieldSummary,
    pub state: JsonFieldSummary,
    pub result: JsonFieldSummary,
    pub error_category: Option<String>,
    pub error_message: Option<String>,
    pub created_at: i64,
    pub updated_at: i64,
    pub completed_at: Option<i64>,
}

/// An activity as operators see it.
#[derive(Debug, Clone, PartialEq, Eq)]
pub struct ActivitySummary {
    pub id: ActivityId,
    pub workflow_id: WorkflowId,
    pub kind: String,
    pub version: i32,
    pub topic: String,
    pub status: String,
    pub replacement_number: i32,
    pub attempt_count: i32,
    pub max_attempts: i32,
    pub operation_key: Option<String>,
    pub root_activity_id: Option<ActivityId>,
    pub replaces_activity_id: Option<ActivityId>,
    pub payload: JsonFieldSummary,
    pub provider_result: JsonFieldSummary,
    pub error_category: Option<String>,
    pub error_message: Option<String>,
    pub available_at: i64,
    pub created_at: i64,
    pub updated_at: i64,
    pub completed_at: Option<i64>,
}

/// An attempt as operators see it.
#[derive(Debug, Clone, PartialEq, Eq)]
pub struct ActivityAttemptSummary {
    pub activity_id: ActivityId,
    pub attempt_number: i32,
    pub worker_id: String,
    pub started_at: i64,
    pub heartbeat_at: i64,
    pub finished_at: Option<i64>,
    pub outcome: Option<String>,
    pub error_category: Option<String>,
    pub error_message: Option<String>,
    pub provider_result: JsonFieldSummary,
}

/// An activity with a page of its attempts and one of its progress.
#[derive(Debug, Clone, PartialEq, Eq)]
pub struct ActivityDetail {
    pub activity: ActivitySummary,
    pub attempts: AdminPage<ActivityAttemptSummary>,
    pub progress: AdminPage<ProgressSummary>,
}

/// A progress event as operators see it.
#[derive(Debug, Clone, PartialEq, Eq)]
pub struct ProgressSummary {
    pub activity_id: ActivityId,
    pub attempt_number: i32,
    pub sequence: i32,
    pub code: String,
    pub description: String,
    pub completed_units: Option<i64>,
    pub total_units: Option<i64>,
    pub severity: String,
    pub created_at: i64,
}

/// An approval as operators see it.
#[derive(Debug, Clone, PartialEq, Eq)]
pub struct ApprovalSummary {
    pub id: ApprovalId,
    pub workflow_id: WorkflowId,
    pub kind: String,
    pub version: i32,
    pub status: String,
    pub decision: JsonFieldSummary,
    pub decided_by: Option<i32>,
    pub operator_reason: Option<String>,
    pub requested_at: i64,
    pub expires_at: Option<i64>,
    pub resolved_at: Option<i64>,
}

/// One entry of a workflow's timeline.
#[derive(Debug, Clone, PartialEq, Eq)]
pub enum TimelineEntry {
    WorkflowEvent {
        event_type: String,
        actor_type: Option<String>,
        actor_id: Option<String>,
        reason: Option<String>,
        occurred_at: i64,
    },
    Activity(ActivitySummary),
    ActivityAttempt(ActivityAttemptSummary),
    Progress(ProgressSummary),
    Approval(ApprovalSummary),
}

pub type WorkflowSummaryPage = AdminPage<WorkflowSummary>;

pub type TimelineEntryPage = AdminPage<TimelineEntry>;

pub type ActivitySummaryPage = AdminPage<ActivitySummary>;

pub type ActivityAttemptSummaryPage = AdminPage<ActivityAttemptSummary>;

pub type ProgressSummaryPage = AdminPage<ProgressSummary>;

pub type TopicMetricsPage = AdminPage<TopicMetrics>;

pub type ScheduleSummaryPage = AdminPage<ScheduleSummary>;

pub type ScheduleRunSummaryPage = AdminPage<ScheduleRunSummary>;

pub type ApprovalSummaryPage = AdminPage<ApprovalSummary>;

/// An operator acts under a name of 1 to 191 bytes for a reason of 1 to 2048 bytes, which
/// is kept without the white space around it; the name is kept as it is.
pub proof fn law_operator_is_refused_only_for_a_reason(actor_id: Seq<char>, reason: Seq<char>)
    ensures
        match operator_result(actor_id, reason) {
            Ok(operator) => {
                &&& operator.actor_id == actor_id
                &&& operator.reason == text::trimmed(reason)
                &&& 1 <= text::utf8_len(actor_id) <= 191
                &&& 1 <= text::utf8_len(operator.reason) <= 2048
            },
            Err(_) => !(1 <= text::utf8_len(actor_id) <= 191) || !(1 <= text::utf8_len(
                text::trimmed(reason),
            ) <= 2048),
        },
{
}

/// A shown field is the very text with its length, and refused only where it is no JSON; a
/// field that is not set is absent and not refused.
pub proof fn law_shown_field_is_the_text(raw: Seq<char>)
    ensures
        match shown_field(raw) {
            Ok(field) => field.present && field.value == Some(raw) && field.bytes == text::utf8_len(
                raw,
            ) && json::parsed_json(vstd::utf8::encode_utf8(raw)) is Ok,
            Err(_) => json::parsed_json(vstd::utf8::encode_utf8(raw)) is Err,
        },
        shown_optional_field(Some(raw)) == shown_field(raw),
        shown_optional_field(None) matches Ok(field) && !field.present && field.bytes == 0
            && field.value is None,
        ({
            let field = measured_field(text::utf8_len(raw) as int);
            field.present && field.bytes == text::utf8_len(raw) && field.value is None
        }),
{
}

/// A page shows as many rows as were asked for, or fifty; it is refused where that is none
/// or more than allowed.
pub proof fn law_asked_limit_is_kept(limit: Option<u32>, maximum: u32)
    ensures
        match limit_result(limit, maximum) {
            Ok(kept) => kept == asked_limit(limit) && 1 <= kept <= maximum,
            Err(_) => !(1 <= asked_limit(limit) <= maximum),
        },
        limit matches Some(asked) ==> asked_limit(limit) == asked,
        limit is None ==> asked_limit(limit) == 50,
{
}

} // verus!
