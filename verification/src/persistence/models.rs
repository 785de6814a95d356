//! The rows of the durable tables.
//!
//! Each row type has a model with the same columns, in which texts are character sequences.
use vstd::prelude::*;
use crate::persistence::status::{ActivityStatus, WorkflowStatus};
use crate::text;

verus! {

/// A stored workflow.
#[derive(Debug)]
pub struct WorkflowRow {
    pub id: i64,
    pub kind: String,
    pub version: i32,
    pub input_json: String,
    pub state_json: String,
    pub state_version: i32,
    pub status: WorkflowStatus,
    pub result_json: Option<String>,
    pub error_category: Option<String>,
    pub error_message: Option<String>,
    pub wait_kind: Option<String>,
    pub wait_reference_id: Option<i64>,
    pub available_at: i64,
    pub activation_attempts: i32,
    pub max_activation_attempts: i32,
    pub consecutive_continuations: i32,
    pub lease_owner: Option<String>,
    pub lease_token: Option<String>,
    pub lease_expires_at: Option<i64>,
    pub deduplication_key: Option<String>,
    pub schedule_run_id: Option<i64>,
    pub root_workflow_id: Option<i64>,
    pub restarted_from_workflow_id: Option<i64>,
    pub parent_workflow_id: Option<i64>,
    pub parent_command_sequence: Option<i32>,
    pub command_sequence: i32,
    pub delivered_event_sequence: i32,
    pub created_at: i64,
    pub updated_at: i64,
    pub completed_at: Option<i64>,
}

impl Clone for WorkflowRow {
    fn clone(&self) -> (copy: Self)
        ensures
            copy == *self,
    {
        WorkflowRow {
            id: self.id,
            kind: self.kind.clone(),
            version: self.version,
            input_json: self.input_json.clone(),
            state_json: self.state_json.clone(),
            state_version: self.state_version,
            status: self.status,
            result_json: self.result_json.clone(),
            error_category: self.error_category.clone(),
            error_message: self.error_message.clone(),
            wait_kind: self.wait_kind.clone(),
            wait_reference_id: self.wait_reference_id,
            available_at: self.available_at,
            activation_attempts: self.activation_attempts,
            max_activation_attempts: self.max_activation_attempts,
            consecutive_continuations: self.consecutive_continuations,
            lease_owner: self.lease_owner.clone(),
            lease_token: self.lease_token.clone(),
            lease_expires_at: self.lease_expires_at,
            deduplication_key: self.deduplication_key.clone(),
            schedule_run_id: self.schedule_run_id,
            root_workflow_id: self.root_workflow_id,
            restarted_from_workflow_id: self.restarted_from_workflow_id,
            parent_workflow_id: self.parent_workflow_id,
            parent_command_sequence: self.parent_command_sequence,
            command_sequence: self.command_sequence,
            delivered_event_sequence: self.delivered_event_sequence,
            created_at: self.created_at,
            updated_at: self.updated_at,
            completed_at: self.completed_at,
        }
    }
}

/// The mathematical content of a [`WorkflowRow`].
#[verifier::ext_equal]
pub struct WorkflowRowModel {
    pub id: i64,
    pub kind: Seq<char>,
    pub version: i32,
    pub input_json: Seq<char>,
    pub state_json: Seq<char>,
    pub state_version: i32,
    pub status: WorkflowStatus,
    pub result_json: Option<Seq<char>>,
    pub error_category: Option<Seq<char>>,
    pub error_message: Option<Seq<char>>,
    pub wait_kind: Option<Seq<char>>,
    pub wait_reference_id: Option<i64>,
    pub available_at: i64,
    pub activation_attempts: i32,
    pub max_activation_attempts: i32,
    pub consecutive_continuations: i32,
    pub lease_owner: Option<Seq<char>>,
    pub lease_token: Option<Seq<char>>,
    pub lease_expires_at: Option<i64>,
    pub deduplication_key: Option<Seq<char>>,
    pub schedule_run_id: Option<i64>,
    pub root_workflow_id: Option<i64>,
    pub restarted_from_workflow_id: Option<i64>,
    pub parent_workflow_id: Option<i64>,
    pub parent_command_sequence: Option<i32>,
    pub command_sequence: i32,
    pub delivered_event_sequence: i32,
    pub created_at: i64,
    pub updated_at: i64,
    pub completed_at: Option<i64>,
}

impl View for WorkflowRow {
    type V = WorkflowRowModel;

    open spec fn view(&self) -> WorkflowRowModel {
        WorkflowRowModel {
            id: self.id,
            kind: self.kind@,
            version: self.version,
            input_json: self.input_json@,
            state_json: self.state_json@,
            state_version: self.state_version,
            status: self.status,
            result_json: text::opt_text(self.result_json),
            error_category: text::opt_text(self.error_category),
            error_message: text::opt_text(self.error_message),
            wait_kind: text::opt_text(self.wait_kind),
            wait_reference_id: self.wait_reference_id,
            available_at: self.available_at,
            activation_attempts: self.activation_attempts,
            max_activation_attempts: self.max_activation_attempts,
            consecutive_continuations: self.consecutive_continuations,
            lease_owner: text::opt_text(self.lease_owner),
            lease_token: text::opt_text(self.lease_token),
            lease_expires_at: self.lease_expires_at,
            deduplication_key: text::opt_text(self.deduplication_key),
            schedule_run_id: self.schedule_run_id,
            root_workflow_id: self.root_workflow_id,
            restarted_from_workflow_id: self.restarted_from_workflow_id,
            parent_workflow_id: self.parent_workflow_id,
            parent_command_sequence: self.parent_command_sequence,
            command_sequence: self.command_sequence,
            delivered_event_sequence: self.delivered_event_sequence,
            created_at: self.created_at,
            updated_at: self.updated_at,
            completed_at: self.completed_at,
        }
    }
}

/// A stored workflow event.
#[derive(Debug)]
pub struct WorkflowEventRow {
    pub id: i64,
    pub workflow_id: i64,
    pub sequence: i32,
    pub delivery_sequence: Option<i32>,
    pub event_type: String,
    pub metadata_json: Option<String>,
    pub actor_type: Option<String>,
    pub actor_id: Option<String>,
    pub reason: Option<String>,
    pub created_at: i64,
}

impl Clone for WorkflowEventRow {
    fn clone(&self) -> (copy: Self)
        ensures
            copy == *self,
    {
        WorkflowEventRow {
            id: self.id,
            workflow_id: self.workflow_id,
            sequence: self.sequence,
            delivery_sequence: self.delivery_sequence,
            event_type: self.event_type.clone(),
            metadata_json: self.metadata_json.clone(),
            actor_type: self.actor_type.clone(),
            actor_id: self.actor_id.clone(),
            reason: self.reason.clone(),
            created_at: self.created_at,
        }
    }
}

/// The mathematical content of a [`WorkflowEventRow`].
#[verifier::ext_equal]
pub struct WorkflowEventRowModel {
    pub id: i64,
    pub workflow_id: i64,
    pub sequence: i32,
    pub delivery_sequence: Option<i32>,
    pub event_type: Seq<char>,
    pub metadata_json: Option<Seq<char>>,
    pub actor_type: Option<Seq<char>>,
    pub actor_id: Option<Seq<char>>,
    pub reason: Option<Seq<char>>,
    pub created_at: i64,
}

impl View for WorkflowEventRow {
    type V = WorkflowEventRowModel;

    open spec fn view(&self) -> WorkflowEventRowModel {
        WorkflowEventRowModel {
            id: self.id,
            workflow_id: self.workflow_id,
            sequence: self.sequence,
            delivery_sequence: self.delivery_sequence,
            event_type: self.event_type@,
            metadata_json: text::opt_text(self.metadata_json),
            actor_type: text::opt_text(self.actor_type),
            actor_id: text::opt_text(self.actor_id),
            reason: text::opt_text(self.reason),
            created_at: self.created_at,
        }
    }
}

/// A stored activity.
#[derive(Debug)]
pub struct ActivityRow {
    pub id: i64,
    pub workflow_id: i64,
    pub command_sequence: i32,
    pub replacement_number: i32,
    pub kind: String,
    pub version: i32,
    pub topic: String,
    pub payload_json: String,
    pub status: ActivityStatus,
    pub available_at: i64,
    pub max_attempts: i32,
    pub attempt_count: i32,
    pub timeout_millis: i64,
    pub lease_duration_millis: i64,
    pub retry_policy_json: String,
    pub operation_key: Option<String>,
    pub provider_result_json: Option<String>,
    pub last_error_category: Option<String>,
    pub last_error_message: Option<String>,
    pub lease_owner: Option<String>,
    pub lease_token: Option<String>,
    pub lease_expires_at: Option<i64>,
    pub root_activity_id: Option<i64>,
    pub replaces_activity_id: Option<i64>,
    pub created_at: i64,
    pub updated_at: i64,
    pub completed_at: Option<i64>,
}

impl Clone for ActivityRow {
    fn clone(&self) -> (copy: Self)
        ensures
            copy == *self,
    {
        ActivityRow {
            id: self.id,
            workflow_id: self.workflow_id,
            command_sequence: self.command_sequence,
            replacement_number: self.replacement_number,
            kind: self.kind.clone(),
            version: self.version,
            topic: self.topic.clone(),
            payload_json: self.payload_json.clone(),
            status: self.status,
            available_at: self.available_at,
            max_attempts: self.max_attempts,
            attempt_count: self.attempt_count,
            timeout_millis: self.timeout_millis,
            lease_duration_millis: self.lease_duration_millis,
            retry_policy_json: self.retry_policy_json.clone(),
            operation_key: self.operation_key.clone(),
            provider_result_json: self.provider_result_json.clone(),
            last_error_category: self.last_error_category.clone(),
            last_error_message: self.last_error_message.clone(),
            lease_owner: self.lease_owner.clone(),
            lease_token: self.lease_token.clone(),
            lease_expires_at: self.lease_expires_at,
            root_activity_id: self.root_activity_id,
            replaces_activity_id: self.replaces_activity_id,
            created_at: self.created_at,
            updated_at: self.updated_at,
            completed_at: self.completed_at,
        }
    }
}

/// The mathematical content of a [`ActivityRow`].
#[verifier::ext_equal]
pub struct ActivityRowModel {
    pub id: i64,
    pub workflow_id: i64,
    pub command_sequence: i32,
    pub replacement_number: i32,
    pub kind: Seq<char>,
    pub version: i32,
    pub topic: Seq<char>,
    pub payload_json: Seq<char>,
    pub status: ActivityStatus,
    pub available_at: i64,
    pub max_attempts: i32,
    pub attempt_count: i32,
    pub timeout_millis: i64,
    pub lease_duration_millis: i64,
    pub retry_policy_json: Seq<char>,
    pub operation_key: Option<Seq<char>>,
    pub provider_result_json: Option<Seq<char>>,
    pub last_error_category: Option<Seq<char>>,
    pub last_error_message: Option<Seq<char>>,
    pub lease_owner: Option<Seq<char>>,
    pub lease_token: Option<Seq<char>>,
    pub lease_expires_at: Option<i64>,
    pub root_activity_id: Option<i64>,
    pub replaces_activity_id: Option<i64>,
    pub created_at: i64,
    pub updated_at: i64,
    pub completed_at: Option<i64>,
}

impl View for ActivityRow {
    type V = ActivityRowModel;

    open spec fn view(&self) -> ActivityRowModel {
        ActivityRowModel {
            id: self.id,
            workflow_id: self.workflow_id,
            command_sequence: self.command_sequence,
            replacement_number: self.replacement_number,
            kind: self.kind@,
            version: self.version,
            topic: self.topic@,
            payload_json: self.payload_json@,
            status: self.status,
            available_at: self.available_at,
            max_attempts: self.max_attempts,
            attempt_count: self.attempt_count,
            timeout_millis: self.timeout_millis,
            lease_duration_millis: self.lease_duration_millis,
            retry_policy_json: self.retry_policy_json@,
            operation_key: text::opt_text(self.operation_key),
            provider_result_json: text::opt_text(self.provider_result_json),
            last_error_category: text::opt_text(self.last_error_category),
            last_error_message: text::opt_text(self.last_error_message),
            lease_owner: text::opt_text(self.lease_owner),
            lease_token: text::opt_text(self.lease_token),
            lease_expires_at: self.lease_expires_at,
            root_activity_id: self.root_activity_id,
            replaces_activity_id: self.replaces_activity_id,
            created_at: self.created_at,
            updated_at: self.updated_at,
            completed_at: self.completed_at,
        }
    }
}

/// A stored attempt of an activity.
#[derive(Debug)]
pub struct ActivityAttemptRow {
    pub activity_id: i64,
    pub attempt_number: i32,
    pub worker_id: String,
    pub lease_token: String,
    pub started_at: i64,
    pub heartbeat_at: i64,
    pub finished_at: Option<i64>,
    pub outcome: Option<String>,
    pub error_category: Option<String>,
    pub error_message: Option<String>,
    pub provider_result_json: Option<String>,
}

impl Clone for ActivityAttemptRow {
    fn clone(&self) -> (copy: Self)
        ensures
            copy == *self,
    {
        ActivityAttemptRow {
            activity_id: self.activity_id,
            attempt_number: self.attempt_number,
            worker_id: self.worker_id.clone(),
            lease_token: self.lease_token.clone(),
            started_at: self.started_at,
            heartbeat_at: self.heartbeat_at,
            finished_at: self.finished_at,
            outcome: self.outcome.clone(),
            error_category: self.error_category.clone(),
            error_message: self.error_message.clone(),
            provider_result_json: self.provider_result_json.clone(),
        }
    }
}

/// The mathematical content of a [`ActivityAttemptRow`].
#[verifier::ext_equal]
pub struct ActivityAttemptRowModel {
    pub activity_id: i64,
    pub attempt_number: i32,
    pub worker_id: Seq<char>,
    pub lease_token: Seq<char>,
    pub started_at: i64,
    pub heartbeat_at: i64,
    pub finished_at: Option<i64>,
    pub outcome: Option<Seq<char>>,
    pub error_category: Option<Seq<char>>,
    pub error_message: Option<Seq<char>>,
    pub provider_result_json: Option<Seq<char>>,
}

impl View for ActivityAttemptRow {
    type V = ActivityAttemptRowModel;

    open spec fn view(&self) -> ActivityAttemptRowModel {
        ActivityAttemptRowModel {
            activity_id: self.activity_id,
            attempt_number: self.attempt_number,
            worker_id: self.worker_id@,
            lease_token: self.lease_token@,
            started_at: self.started_at,
            heartbeat_at: self.heartbeat_at,
            finished_at: self.finished_at,
            outcome: text::opt_text(self.outcome),
            error_category: text::opt_text(self.error_category),
            error_message: text::opt_text(self.error_message),
            provider_result_json: text::opt_text(self.provider_result_json),
        }
    }
}

/// A stored progress event of an attempt.
#[derive(Debug)]
pub struct ProgressEventRow {
    pub activity_id: i64,
    pub attempt_number: i32,
    pub sequence: i32,
    pub code: String,
    pub description: String,
    pub description_bytes: i32,
    pub completed_units: Option<i64>,
    pub total_units: Option<i64>,
    pub severity: String,
    pub metadata_json: Option<String>,
    pub created_at: i64,
}

impl Clone for ProgressEventRow {
    fn clone(&self) -> (copy: Self)
        ensures
            copy == *self,
    {
        ProgressEventRow {
            activity_id: self.activity_id,
            attempt_number: self.attempt_number,
            sequence: self.sequence,
            code: self.code.clone(),
            description: self.description.clone(),
            description_bytes: self.description_bytes,
            completed_units: self.completed_units,
            total_units: self.total_units,
            severity: self.severity.clone(),
            metadata_json: self.metadata_json.clone(),
            created_at: self.created_at,
        }
    }
}

/// The mathematical content of a [`ProgressEventRow`].
#[verifier::ext_equal]
pub struct ProgressEventRowModel {
    pub activity_id: i64,
    pub attempt_number: i32,
    pub sequence: i32,
    pub code: Seq<char>,
    pub description: Seq<char>,
    pub description_bytes: i32,
    pub completed_units: Option<i64>,
    pub total_units: Option<i64>,
    pub severity: Seq<char>,
    pub metadata_json: Option<Seq<char>>,
    pub created_at: i64,
}

impl View for ProgressEventRow {
    type V = ProgressEventRowModel;

    open spec fn view(&self) -> ProgressEventRowModel {
        ProgressEventRowModel {
            activity_id: self.activity_id,
            attempt_number: self.attempt_number,
            sequence: self.sequence,
            code: self.code@,
            description: self.description@,
            description_bytes: self.description_bytes,
            completed_units: self.completed_units,
            total_units: self.total_units,
            severity: self.severity@,
            metadata_json: text::opt_text(self.metadata_json),
            created_at: self.created_at,
        }
    }
}

/// A stored approval request.
#[derive(Debug)]
pub struct ApprovalRow {
    pub id: i64,
    pub workflow_id: i64,
    pub command_sequence: i32,
    pub kind: String,
    pub version: i32,
    pub prompt_metadata_json: String,
    pub validation_schema_json: String,
    pub validation_version: i32,
    pub status: String,
    pub requested_at: i64,
    pub expires_at: Option<i64>,
    pub decision_payload_json: Option<String>,
    pub decided_by: Option<i32>,
    pub operator_reason: Option<String>,
    pub resolved_at: Option<i64>,
}

impl Clone for ApprovalRow {
    fn clone(&self) -> (copy: Self)
        ensures
            copy == *self,
    {
        ApprovalRow {
            id: self.id,
            workflow_id: self.workflow_id,
            command_sequence: self.command_sequence,
            kind: self.kind.clone(),
            version: self.version,
            prompt_metadata_json: self.prompt_metadata_json.clone(),
            validation_schema_json: self.validation_schema_json.clone(),
            validation_version: self.validation_version,
            status: self.status.clone(),
            requested_at: self.requested_at,
            expires_at: self.expires_at,
            decision_payload_json: self.decision_payload_json.clone(),
            decided_by: self.decided_by,
            operator_reason: self.operator_reason.clone(),
            resolved_at: self.resolved_at,
        }
    }
}

/// The mathematical content of a [`ApprovalRow`].
#[verifier::ext_equal]
pub struct ApprovalRowModel {
    pub id: i64,
    pub workflow_id: i64,
    pub command_sequence: i32,
    pub kind: Seq<char>,
    pub version: i32,
    pub prompt_metadata_json: Seq<char>,
    pub validation_schema_json: Seq<char>,
    pub validation_version: i32,
    pub status: Seq<char>,
    pub requested_at: i64,
    pub expires_at: Option<i64>,
    pub decision_payload_json: Option<Seq<char>>,
    pub decided_by: Option<i32>,
    pub operator_reason: Option<Seq<char>>,
    pub resolved_at: Option<i64>,
}

impl View for ApprovalRow {
    type V = ApprovalRowModel;

    open spec fn view(&self) -> ApprovalRowModel {
        ApprovalRowModel {
            id: self.id,
            workflow_id: self.workflow_id,
            command_sequence: self.command_sequence,
            kind: self.kind@,
            version: self.version,
            prompt_metadata_json: self.prompt_metadata_json@,
            validation_schema_json: self.validation_schema_json@,
            validation_version: self.validation_version,
            status: self.status@,
            requested_at: self.requested_at,
            expires_at: self.expires_at,
            decision_payload_json: text::opt_text(self.decision_payload_json),
            decided_by: self.decided_by,
            operator_reason: text::opt_text(self.operator_reason),
            resolved_at: self.resolved_at,
        }
    }
}

/// The stored state of a schedule.
#[derive(Debug)]
pub struct ScheduleStateRow {
    pub schedule_key: String,
    pub definition_fingerprint: String,
    pub definition_version: i32,
    pub next_local_occurrence: String,
    pub next_occurrence_at: i64,
    pub last_materialized_at: Option<i64>,
    pub paused_at: Option<i64>,
    pub paused_by: Option<i32>,
    pub pause_reason: Option<String>,
    pub created_at: i64,
    pub updated_at: i64,
}

impl Clone for ScheduleStateRow {
    fn clone(&self) -> (copy: Self)
        ensures
            copy == *self,
    {
        ScheduleStateRow {
            schedule_key: self.schedule_key.clone(),
            definition_fingerprint: self.definition_fingerprint.clone(),
            definition_version: self.definition_version,
            next_local_occurrence: self.next_local_occurrence.clone(),
            next_occurrence_at: self.next_occurrence_at,
            last_materialized_at: self.last_materialized_at,
            paused_at: self.paused_at,
            paused_by: self.paused_by,
            pause_reason: self.pause_reason.clone(),
            created_at: self.created_at,
            updated_at: self.updated_at,
        }
    }
}

/// The mathematical content of a [`ScheduleStateRow`].
#[verifier::ext_equal]
pub struct ScheduleStateRowModel {
    pub schedule_key: Seq<char>,
    pub definition_fingerprint: Seq<char>,
    pub definition_version: i32,
    pub next_local_occurrence: Seq<char>,
    pub next_occurrence_at: i64,
    pub last_materialized_at: Option<i64>,
    pub paused_at: Option<i64>,
    pub paused_by: Option<i32>,
    pub pause_reason: Option<Seq<char>>,
    pub created_at: i64,
    pub updated_at: i64,
}

impl View for ScheduleStateRow {
    type V = ScheduleStateRowModel;

    open spec fn view(&self) -> ScheduleStateRowModel {
        ScheduleStateRowModel {
            schedule_key: self.schedule_key@,
            definition_fingerprint: self.definition_fingerprint@,
            definition_version: self.definition_version,
            next_local_occurrence: self.next_local_occurrence@,
            next_occurrence_at: self.next_occurrence_at,
            last_materialized_at: self.last_materialized_at,
            paused_at: self.paused_at,
            paused_by: self.paused_by,
            pause_reason: text::opt_text(self.pause_reason),
            created_at: self.created_at,
            updated_at: self.updated_at,
        }
    }
}

/// A stored occurrence of a schedule.
#[derive(Debug)]
pub struct ScheduleRunRow {
    pub id: i64,
    pub schedule_key: String,
    pub local_occurrence: String,
    pub scheduled_for: i64,
    pub materialized_at: i64,
    pub status: String,
    pub reason: Option<String>,
    pub actor_id: Option<i32>,
    pub workflow_id: Option<i64>,
    pub created_at: i64,
}

impl Clone for ScheduleRunRow {
    fn clone(&self) -> (copy: Self)
        ensures
            copy == *self,
    {
        ScheduleRunRow {
            id: self.id,
            schedule_key: self.schedule_key.clone(),
            local_occurrence: self.local_occurrence.clone(),
            scheduled_for: self.scheduled_for,
            materialized_at: self.materialized_at,
            status: self.status.clone(),
            reason: self.reason.clone(),
            actor_id: self.actor_id,
            workflow_id: self.workflow_id,
            created_at: self.created_at,
        }
    }
}

/// The mathematical content of a [`ScheduleRunRow`].
#[verifier::ext_equal]
pub struct ScheduleRunRowModel {
    pub id: i64,
    pub schedule_key: Seq<char>,
    pub local_occurrence: Seq<char>,
    pub scheduled_for: i64,
    pub materialized_at: i64,
    pub status: Seq<char>,
    pub reason: Option<Seq<char>>,
    pub actor_id: Option<i32>,
    pub workflow_id: Option<i64>,
    pub created_at: i64,
}

impl View for ScheduleRunRow {
    type V = ScheduleRunRowModel;

    open spec fn view(&self) -> ScheduleRunRowModel {
        ScheduleRunRowModel {
            id: self.id,
            schedule_key: self.schedule_key@,
            local_occurrence: self.local_occurrence@,
            scheduled_for: self.scheduled_for,
            materialized_at: self.materialized_at,
            status: self.status@,
            reason: text::opt_text(self.reason),
            actor_id: self.actor_id,
            workflow_id: self.workflow_id,
            created_at: self.created_at,
        }
    }
}

/// The stored concurrency limit of a topic.
#[derive(Debug)]
pub struct TopicLockRow {
    pub topic: String,
    pub max_concurrency: i32,
    pub updated_at: i64,
}

impl Clone for TopicLockRow {
    fn clone(&self) -> (copy: Self)
        ensures
            copy == *self,
    {
        TopicLockRow {
            topic: self.topic.clone(),
            max_concurrency: self.max_concurrency,
            updated_at: self.updated_at,
        }
    }
}

/// The mathematical content of a [`TopicLockRow`].
#[verifier::ext_equal]
pub struct TopicLockRowModel {
    pub topic: Seq<char>,
    pub max_concurrency: i32,
    pub updated_at: i64,
}

impl View for TopicLockRow {
    type V = TopicLockRowModel;

    open spec fn view(&self) -> TopicLockRowModel {
        TopicLockRowModel {
            topic: self.topic@,
            max_concurrency: self.max_concurrency,
            updated_at: self.updated_at,
        }
    }
}

/// A workflow to store.
#[derive(Debug)]
pub struct NewWorkflowRow {
    pub kind: String,
    pub version: i32,
    pub input_json: String,
    pub state_json: String,
    pub state_version: i32,
    pub status: WorkflowStatus,
    pub result_json: Option<String>,
    pub error_category: Option<String>,
    pub error_message: Option<String>,
    pub wait_kind: Option<String>,
    pub wait_reference_id: Option<i64>,
    pub available_at: i64,
    pub activation_attempts: i32,
    pub max_activation_attempts: i32,
    pub consecutive_continuations: i32,
    pub lease_owner: Option<String>,
    pub lease_token: Option<String>,
    pub lease_expires_at: Option<i64>,
    pub deduplication_key: Option<String>,
    pub schedule_run_id: Option<i64>,
    pub root_workflow_id: Option<i64>,
    pub restarted_from_workflow_id: Option<i64>,
    pub parent_workflow_id: Option<i64>,
    pub parent_command_sequence: Option<i32>,
    pub command_sequence: i32,
    pub delivered_event_sequence: i32,
    pub created_at: i64,
    pub updated_at: i64,
    pub completed_at: Option<i64>,
}

impl Clone for NewWorkflowRow {
    fn clone(&self) -> (copy: Self)
        ensures
            copy == *self,
    {
        NewWorkflowRow {
            kind: self.kind.clone(),
            version: self.version,
            input_json: self.input_json.clone(),
            state_json: self.state_json.clone(),
            state_version: self.state_version,
            status: self.status,
            result_json: self.result_json.clone(),
            error_category: self.error_category.clone(),
            error_message: self.error_message.clone(),
            wait_kind: self.wait_kind.clone(),
            wait_reference_id: self.wait_reference_id,
            available_at: self.available_at,
            activation_attempts: self.activation_attempts,
            max_activation_attempts: self.max_activation_attempts,
            consecutive_continuations: self.consecutive_continuations,
            lease_owner: self.lease_owner.clone(),
            lease_token: self.lease_token.clone(),
            lease_expires_at: self.lease_expires_at,
            deduplication_key: self.deduplication_key.clone(),
            schedule_run_id: self.schedule_run_id,
            root_workflow_id: self.root_workflow_id,
            restarted_from_workflow_id: self.restarted_from_workflow_id,
            parent_workflow_id: self.parent_workflow_id,
            parent_command_sequence: self.parent_command_sequence,
            command_sequence: self.command_sequence,
            delivered_event_sequence: self.delivered_event_sequence,
            created_at: self.created_at,
            updated_at: self.updated_at,
            completed_at: self.completed_at,
        }
    }
}

/// The mathematical content of a [`NewWorkflowRow`].
#[verifier::ext_equal]
pub struct NewWorkflowRowModel {
    pub kind: Seq<char>,
    pub version: i32,
    pub input_json: Seq<char>,
    pub state_json: Seq<char>,
    pub state_version: i32,
    pub status: WorkflowStatus,
    pub result_json: Option<Seq<char>>,
    pub error_category: Option<Seq<char>>,
    pub error_message: Option<Seq<char>>,
    pub wait_kind: Option<Seq<char>>,
    pub wait_reference_id: Option<i64>,
    pub available_at: i64,
    pub activation_attempts: i32,
    pub max_activation_attempts: i32,
    pub consecutive_continuations: i32,
    pub lease_owner: Option<Seq<char>>,
    pub lease_token: Option<Seq<char>>,
    pub lease_expires_at: Option<i64>,
    pub deduplication_key: Option<Seq<char>>,
    pub schedule_run_id: Option<i64>,
    pub root_workflow_id: Option<i64>,
    pub restarted_from_workflow_id: Option<i64>,
    pub parent_workflow_id: Option<i64>,
    pub parent_command_sequence: Option<i32>,
    pub command_sequence: i32,
    pub delivered_event_sequence: i32,
    pub created_at: i64,
    pub updated_at: i64,
    pub completed_at: Option<i64>,
}

impl View for NewWorkflowRow {
    type V = NewWorkflowRowModel;

    open spec fn view(&self) -> NewWorkflowRowModel {
        NewWorkflowRowModel {
            kind: self.kind@,
            version: self.version,
            input_json: self.input_json@,
            state_json: self.state_json@,
            state_version: self.state_version,
            status: self.status,
            result_json: text::opt_text(self.result_json),
            error_category: text::opt_text(self.error_category),
            error_message: text::opt_text(self.error_message),
            wait_kind: text::opt_text(self.wait_kind),
            wait_reference_id: self.wait_reference_id,
            available_at: self.available_at,
            activation_attempts: self.activation_attempts,
            max_activation_attempts: self.max_activation_attempts,
            consecutive_continuations: self.consecutive_continuations,
            lease_owner: text::opt_text(self.lease_owner),
            lease_token: text::opt_text(self.lease_token),
            lease_expires_at: self.lease_expires_at,
            deduplication_key: text::opt_text(self.deduplication_key),
            schedule_run_id: self.schedule_run_id,
            root_workflow_id: self.root_workflow_id,
            restarted_from_workflow_id: self.restarted_from_workflow_id,
            parent_workflow_id: self.parent_workflow_id,
            parent_command_sequence: self.parent_command_sequence,
            command_sequence: self.command_sequence,
            delivered_event_sequence: self.delivered_event_sequence,
            created_at: self.created_at,
            updated_at: self.updated_at,
            completed_at: self.completed_at,
        }
    }
}

/// A workflow event to store.
#[derive(Debug)]
pub struct NewWorkflowEventRow {
    pub workflow_id: i64,
    pub sequence: i32,
    pub delivery_sequence: Option<i32>,
    pub event_type: String,
    pub metadata_json: Option<String>,
    pub actor_type: Option<String>,
    pub actor_id: Option<String>,
    pub reason: Option<String>,
    pub created_at: i64,
}

impl Clone for NewWorkflowEventRow {
    fn clone(&self) -> (copy: Self)
        ensures
            copy == *self,
    {
        NewWorkflowEventRow {
            workflow_id: self.workflow_id,
            sequence: self.sequence,
            delivery_sequence: self.delivery_sequence,
            event_type: self.event_type.clone(),
            metadata_json: self.metadata_json.clone(),
            actor_type: self.actor_type.clone(),
            actor_id: self.actor_id.clone(),
            reason: self.reason.clone(),
            created_at: self.created_at,
        }
    }
}

/// The mathematical content of a [`NewWorkflowEventRow`].
#[verifier::ext_equal]
pub struct NewWorkflowEventRowModel {
    pub workflow_id: i64,
    pub sequence: i32,
    pub delivery_sequence: Option<i32>,
    pub event_type: Seq<char>,
    pub metadata_json: Option<Seq<char>>,
    pub actor_type: Option<Seq<char>>,
    pub actor_id: Option<Seq<char>>,
    pub reason: Option<Seq<char>>,
    pub created_at: i64,
}

impl View for NewWorkflowEventRow {
    type V = NewWorkflowEventRowModel;

    open spec fn view(&self) -> NewWorkflowEventRowModel {
        NewWorkflowEventRowModel {
            workflow_id: self.workflow_id,
            sequence: self.sequence,
            delivery_sequence: self.delivery_sequence,
            event_type: self.event_type@,
            metadata_json: text::opt_text(self.metadata_json),
            actor_type: text::opt_text(self.actor_type),
            actor_id: text::opt_text(self.actor_id),
            reason: text::opt_text(self.reason),
            created_at: self.created_at,
        }
    }
}

/// An activity to store.
#[derive(Debug)]
pub struct NewActivityRow {
    pub workflow_id: i64,
    pub command_sequence: i32,
    pub replacement_number: i32,
    pub kind: String,
    pub version: i32,
    pub topic: String,
    pub payload_json: String,
    pub status: ActivityStatus,
    pub available_at: i64,
    pub max_attempts: i32,
    pub attempt_count: i32,
    pub timeout_millis: i64,
    pub lease_duration_millis: i64,
    pub retry_policy_json: String,
    pub operation_key: Option<String>,
    pub provider_result_json: Option<String>,
    pub last_error_category: Option<String>,
    pub last_error_message: Option<String>,
    pub lease_owner: Option<String>,
    pub lease_token: Option<String>,
    pub lease_expires_at: Option<i64>,
    pub root_activity_id: Option<i64>,
    pub replaces_activity_id: Option<i64>,
    pub created_at: i64,
    pub updated_at: i64,
    pub completed_at: Option<i64>,
}

impl Clone for NewActivityRow {
    fn clone(&self) -> (copy: Self)
        ensures
            copy == *self,
    {
        NewActivityRow {
            workflow_id: self.workflow_id,
            command_sequence: self.command_sequence,
            replacement_number: self.replacement_number,
            kind: self.kind.clone(),
            version: self.version,
            topic: self.topic.clone(),
            payload_json: self.payload_json.clone(),
            status: self.status,
            available_at: self.available_at,
            max_attempts: self.max_attempts,
            attempt_count: self.attempt_count,
            timeout_millis: self.timeout_millis,
            lease_duration_millis: self.lease_duration_millis,
            retry_policy_json: self.retry_policy_json.clone(),
            operation_key: self.operation_key.clone(),
            provider_result_json: self.provider_result_json.clone(),
            last_error_category: self.last_error_category.clone(),
            last_error_message: self.last_error_message.clone(),
            lease_owner: self.lease_owner.clone(),
            lease_token: self.lease_token.clone(),
            lease_expires_at: self.lease_expires_at,
            root_activity_id: self.root_activity_id,
            replaces_activity_id: self.replaces_activity_id,
            created_at: self.created_at,
            updated_at: self.updated_at,
            completed_at: self.completed_at,
        }
    }
}

/// The mathematical content of a [`NewActivityRow`].
#[verifier::ext_equal]
pub struct NewActivityRowModel {
    pub workflow_id: i64,
    pub command_sequence: i32,
    pub replacement_number: i32,
    pub kind: Seq<char>,
    pub version: i32,
    pub topic: Seq<char>,
    pub payload_json: Seq<char>,
    pub status: ActivityStatus,
    pub available_at: i64,
    pub max_attempts: i32,
    pub attempt_count: i32,
    pub timeout_millis: i64,
    pub lease_duration_millis: i64,
    pub retry_policy_json: Seq<char>,
    pub operation_key: Option<Seq<char>>,
    pub provider_result_json: Option<Seq<char>>,
    pub last_error_category: Option<Seq<char>>,
    pub last_error_message: Option<Seq<char>>,
    pub lease_owner: Option<Seq<char>>,
    pub lease_token: Option<Seq<char>>,
    pub lease_expires_at: Option<i64>,
    pub root_activity_id: Option<i64>,
    pub replaces_activity_id: Option<i64>,
    pub created_at: i64,
    pub updated_at: i64,
    pub completed_at: Option<i64>,
}

impl View for NewActivityRow {
    type V = NewActivityRowModel;

    open spec fn view(&self) -> NewActivityRowModel {
        NewActivityRowModel {
            workflow_id: self.workflow_id,
            command_sequence: self.command_sequence,
            replacement_number: self.replacement_number,
            kind: self.kind@,
            version: self.version,
            topic: self.topic@,
            payload_json: self.payload_json@,
            status: self.status,
            available_at: self.available_at,
            max_attempts: self.max_attempts,
            attempt_count: self.attempt_count,
            timeout_millis: self.timeout_millis,
            lease_duration_millis: self.lease_duration_millis,
            retry_policy_json: self.retry_policy_json@,
            operation_key: text::opt_text(self.operation_key),
            provider_result_json: text::opt_text(self.provider_result_json),
            last_error_category: text::opt_text(self.last_error_category),
            last_error_message: text::opt_text(self.last_error_message),
            lease_owner: text::opt_text(self.lease_owner),
            lease_token: text::opt_text(self.lease_token),
            lease_expires_at: self.lease_expires_at,
            root_activity_id: self.root_activity_id,
            replaces_activity_id: self.replaces_activity_id,
            created_at: self.created_at,
            updated_at: self.updated_at,
            completed_at: self.completed_at,
        }
    }
}

/// An attempt to store.
#[derive(Debug)]
pub struct NewActivityAttemptRow {
    pub activity_id: i64,
    pub attempt_number: i32,
    pub worker_id: String,
    pub lease_token: String,
    pub started_at: i64,
    pub heartbeat_at: i64,
    pub finished_at: Option<i64>,
    pub outcome: Option<String>,
    pub error_category: Option<String>,
    pub error_message: Option<String>,
    pub provider_result_json: Option<String>,
}

impl Clone for NewActivityAttemptRow {
    fn clone(&self) -> (copy: Self)
        ensures
            copy == *self,
    {
        NewActivityAttemptRow {
            activity_id: self.activity_id,
            attempt_number: self.attempt_number,
            worker_id: self.worker_id.clone(),
            lease_token: self.lease_token.clone(),
            started_at: self.started_at,
            heartbeat_at: self.heartbeat_at,
            finished_at: self.finished_at,
            outcome: self.outcome.clone(),
            error_category: self.error_category.clone(),
            error_message: self.error_message.clone(),
            provider_result_json: self.provider_result_json.clone(),
        }
    }
}

/// The mathematical content of a [`NewActivityAttemptRow`].
#[verifier::ext_equal]
pub struct NewActivityAttemptRowModel {
    pub activity_id: i64,
    pub attempt_number: i32,
    pub worker_id: Seq<char>,
    pub lease_token: Seq<char>,
    pub started_at: i64,
    pub heartbeat_at: i64,
    pub finished_at: Option<i64>,
    pub outcome: Option<Seq<char>>,
    pub error_category: Option<Seq<char>>,
    pub error_message: Option<Seq<char>>,
    pub provider_result_json: Option<Seq<char>>,
}

impl View for NewActivityAttemptRow {
    type V = NewActivityAttemptRowModel;

    open spec fn view(&self) -> NewActivityAttemptRowModel {
        NewActivityAttemptRowModel {
            activity_id: self.activity_id,
            attempt_number: self.attempt_number,
            worker_id: self.worker_id@,
            lease_token: self.lease_token@,
            started_at: self.started_at,
            heartbeat_at: self.heartbeat_at,
            finished_at: self.finished_at,
            outcome: text::opt_text(self.outcome),
            error_category: text::opt_text(self.error_category),
            error_message: text::opt_text(self.error_message),
            provider_result_json: text::opt_text(self.provider_result_json),
        }
    }
}

/// A progress event to store.
#[derive(Debug)]
pub struct NewProgressEventRow {
    pub activity_id: i64,
    pub attempt_number: i32,
    pub sequence: i32,
    pub code: String,
    pub description: String,
    pub description_bytes: i32,
    pub completed_units: Option<i64>,
    pub total_units: Option<i64>,
    pub severity: String,
    pub metadata_json: Option<String>,
    pub created_at: i64,
}

impl Clone for NewProgressEventRow {
    fn clone(&self) -> (copy: Self)
        ensures
            copy == *self,
    {
        NewProgressEventRow {
            activity_id: self.activity_id,
            attempt_number: self.attempt_number,
            sequence: self.sequence,
            code: self.code.clone(),
            description: self.description.clone(),
            description_bytes: self.description_bytes,
            completed_units: self.completed_units,
            total_units: self.total_units,
            severity: self.severity.clone(),
            metadata_json: self.metadata_json.clone(),
            created_at: self.created_at,
        }
    }
}

/// The mathematical content of a [`NewProgressEventRow`].
#[verifier::ext_equal]
pub struct NewProgressEventRowModel {
    pub activity_id: i64,
    pub attempt_number: i32,
    pub sequence: i32,
    pub code: Seq<char>,
    pub description: Seq<char>,
    pub description_bytes: i32,
    pub completed_units: Option<i64>,
    pub total_units: Option<i64>,
    pub severity: Seq<char>,
    pub metadata_json: Option<Seq<char>>,
    pub created_at: i64,
}

impl View for NewProgressEventRow {
    type V = NewProgressEventRowModel;

    open spec fn view(&self) -> NewProgressEventRowModel {
        NewProgressEventRowModel {
            activity_id: self.activity_id,
            attempt_number: self.attempt_number,
            sequence: self.sequence,
            code: self.code@,
            description: self.description@,
            description_bytes: self.description_bytes,
            completed_units: self.completed_units,
            total_units: self.total_units,
            severity: self.severity@,
            metadata_json: text::opt_text(self.metadata_json),
            created_at: self.created_at,
        }
    }
}

/// An approval request to store.
#[derive(Debug)]
pub struct NewApprovalRow {
    pub workflow_id: i64,
    pub command_sequence: i32,
    pub kind: String,
    pub version: i32,
    pub prompt_metadata_json: String,
    pub validation_schema_json: String,
    pub validation_version: i32,
    pub status: String,
    pub requested_at: i64,
    pub expires_at: Option<i64>,
    pub decision_payload_json: Option<String>,
    pub decided_by: Option<i32>,
    pub operator_reason: Option<String>,
    pub resolved_at: Option<i64>,
}

impl Clone for NewApprovalRow {
    fn clone(&self) -> (copy: Self)
        ensures
            copy == *self,
    {
        NewApprovalRow {
            workflow_id: self.workflow_id,
            command_sequence: self.command_sequence,
            kind: self.kind.clone(),
            version: self.version,
            prompt_metadata_json: self.prompt_metadata_json.clone(),
            validation_schema_json: self.validation_schema_json.clone(),
            validation_version: self.validation_version,
            status: self.status.clone(),
            requested_at: self.requested_at,
            expires_at: self.expires_at,
            decision_payload_json: self.decision_payload_json.clone(),
            decided_by: self.decided_by,
            operator_reason: self.operator_reason.clone(),
            resolved_at: self.resolved_at,
        }
    }
}

/// The mathematical content of a [`NewApprovalRow`].
#[verifier::ext_equal]
pub struct NewApprovalRowModel {
    pub workflow_id: i64,
    pub command_sequence: i32,
    pub kind: Seq<char>,
    pub version: i32,
    pub prompt_metadata_json: Seq<char>,
    pub validation_schema_json: Seq<char>,
    pub validation_version: i32,
    pub status: Seq<char>,
    pub requested_at: i64,
    pub expires_at: Option<i64>,
    pub decision_payload_json: Option<Seq<char>>,
    pub decided_by: Option<i32>,
    pub operator_reason: Option<Seq<char>>,
    pub resolved_at: Option<i64>,
}

impl View for NewApprovalRow {
    type V = NewApprovalRowModel;

    open spec fn view(&self) -> NewApprovalRowModel {
        NewApprovalRowModel {
            workflow_id: self.workflow_id,
            command_sequence: self.command_sequence,
            kind: self.kind@,
            version: self.version,
            prompt_metadata_json: self.prompt_metadata_json@,
            validation_schema_json: self.validation_schema_json@,
            validation_version: self.validation_version,
            status: self.status@,
            requested_at: self.requested_at,
            expires_at: self.expires_at,
            decision_payload_json: text::opt_text(self.decision_payload_json),
            decided_by: self.decided_by,
            operator_reason: text::opt_text(self.operator_reason),
            resolved_at: self.resolved_at,
        }
    }
}

/// A schedule state to store.
#[derive(Debug)]
pub struct NewScheduleStateRow {
    pub schedule_key: String,
    pub definition_fingerprint: String,
    pub definition_version: i32,
    pub next_local_occurrence: String,
    pub next_occurrence_at: i64,
    pub last_materialized_at: Option<i64>,
    pub paused_at: Option<i64>,
    pub paused_by: Option<i32>,
    pub pause_reason: Option<String>,
    pub created_at: i64,
    pub updated_at: i64,
}

impl Clone for NewScheduleStateRow {
    fn clone(&self) -> (copy: Self)
        ensures
            copy == *self,
    {
        NewScheduleStateRow {
            schedule_key: self.schedule_key.clone(),
            definition_fingerprint: self.definition_fingerprint.clone(),
            definition_version: self.definition_version,
            next_local_occurrence: self.next_local_occurrence.clone(),
            next_occurrence_at: self.next_occurrence_at,
            last_materialized_at: self.last_materialized_at,
            paused_at: self.paused_at,
            paused_by: self.paused_by,
            pause_reason: self.pause_reason.clone(),
            created_at: self.created_at,
            updated_at: self.updated_at,
        }
    }
}

/// The mathematical content of a [`NewScheduleStateRow`].
#[verifier::ext_equal]
pub struct NewScheduleStateRowModel {
    pub schedule_key: Seq<char>,
    pub definition_fingerprint: Seq<char>,
    pub definition_version: i32,
    pub next_local_occurrence: Seq<char>,
    pub next_occurrence_at: i64,
    pub last_materialized_at: Option<i64>,
    pub paused_at: Option<i64>,
    pub paused_by: Option<i32>,
    pub pause_reason: Option<Seq<char>>,
    pub created_at: i64,
    pub updated_at: i64,
}

impl View for NewScheduleStateRow {
    type V = NewScheduleStateRowModel;

    open spec fn view(&self) -> NewScheduleStateRowModel {
        NewScheduleStateRowModel {
            schedule_key: self.schedule_key@,
            definition_fingerprint: self.definition_fingerprint@,
            definition_version: self.definition_version,
            next_local_occurrence: self.next_local_occurrence@,
            next_occurrence_at: self.next_occurrence_at,
            last_materialized_at: self.last_materialized_at,
            paused_at: self.paused_at,
            paused_by: self.paused_by,
            pause_reason: text::opt_text(self.pause_reason),
            created_at: self.created_at,
            updated_at: self.updated_at,
        }
    }
}

/// A schedule occurrence to store.
#[derive(Debug)]
pub struct NewScheduleRunRow {
    pub schedule_key: String,
    pub local_occurrence: String,
    pub scheduled_for: i64,
    pub materialized_at: i64,
    pub status: String,
    pub reason: Option<String>,
    pub actor_id: Option<i32>,
    pub workflow_id: Option<i64>,
    pub created_at: i64,
}

impl Clone for NewScheduleRunRow {
    fn clone(&self) -> (copy: Self)
        ensures
            copy == *self,
    {
        NewScheduleRunRow {
            schedule_key: self.schedule_key.clone(),
            local_occurrence: self.local_occurrence.clone(),
            scheduled_for: self.scheduled_for,
            materialized_at: self.materialized_at,
            status: self.status.clone(),
            reason: self.reason.clone(),
            actor_id: self.actor_id,
            workflow_id: self.workflow_id,
            created_at: self.created_at,
        }
    }
}

/// The mathematical content of a [`NewScheduleRunRow`].
#[verifier::ext_equal]
pub struct NewScheduleRunRowModel {
    pub schedule_key: Seq<char>,
    pub local_occurrence: Seq<char>,
    pub scheduled_for: i64,
    pub materialized_at: i64,
    pub status: Seq<char>,
    pub reason: Option<Seq<char>>,
    pub actor_id: Option<i32>,
    pub workflow_id: Option<i64>,
    pub created_at: i64,
}

impl View for NewScheduleRunRow {
    type V = NewScheduleRunRowModel;

    open spec fn view(&self) -> NewScheduleRunRowModel {
        NewScheduleRunRowModel {
            schedule_key: self.schedule_key@,
            local_occurrence: self.local_occurrence@,
            scheduled_for: self.scheduled_for,
            materialized_at: self.materialized_at,
            status: self.status@,
            reason: text::opt_text(self.reason),
            actor_id: self.actor_id,
            workflow_id: self.workflow_id,
            created_at: self.created_at,
        }
    }
}

/// A topic limit to store.
#[derive(Debug)]
pub struct NewTopicLockRow {
    pub topic: String,
    pub max_concurrency: i32,
    pub updated_at: i64,
}

impl Clone for NewTopicLockRow {
    fn clone(&self) -> (copy: Self)
        ensures
            copy == *self,
    {
        NewTopicLockRow {
            topic: self.topic.clone(),
            max_concurrency: self.max_concurrency,
            updated_at: self.updated_at,
        }
    }
}

/// The mathematical content of a [`NewTopicLockRow`].
#[verifier::ext_equal]
pub struct NewTopicLockRowModel {
    pub topic: Seq<char>,
    pub max_concurrency: i32,
    pub updated_at: i64,
}

impl View for NewTopicLockRow {
    type V = NewTopicLockRowModel;

    open spec fn view(&self) -> NewTopicLockRowModel {
        NewTopicLockRowModel {
            topic: self.topic@,
            max_concurrency: self.max_concurrency,
            updated_at: self.updated_at,
        }
    }
}

/// Whether two rows are of one workflow: what it is, what it was started with and
/// where it comes from.
pub open spec fn same_workflow(a: WorkflowRowModel, b: WorkflowRowModel) -> bool {
    &&& a.id == b.id
    &&& a.kind == b.kind
    &&& a.version == b.version
    &&& a.input_json == b.input_json
    &&& a.max_activation_attempts == b.max_activation_attempts
    &&& a.deduplication_key == b.deduplication_key
    &&& a.schedule_run_id == b.schedule_run_id
    &&& a.root_workflow_id == b.root_workflow_id
    &&& a.restarted_from_workflow_id == b.restarted_from_workflow_id
    &&& a.parent_workflow_id == b.parent_workflow_id
    &&& a.parent_command_sequence == b.parent_command_sequence
    &&& a.created_at == b.created_at
}

/// Whether a workflow is as far in two rows: its state, the commands it gave and the
/// events it was told.
pub open spec fn same_progress(a: WorkflowRowModel, b: WorkflowRowModel) -> bool {
    &&& a.state_json == b.state_json
    &&& a.state_version == b.state_version
    &&& a.command_sequence == b.command_sequence
    &&& a.delivered_event_sequence == b.delivered_event_sequence
}

/// Whether a workflow waits for the same in two rows.
pub open spec fn same_wait(a: WorkflowRowModel, b: WorkflowRowModel) -> bool {
    a.wait_kind == b.wait_kind && a.wait_reference_id == b.wait_reference_id
}

/// Whether a workflow has the same result and the same error in two rows.
pub open spec fn same_end(a: WorkflowRowModel, b: WorkflowRowModel) -> bool {
    &&& a.result_json == b.result_json
    &&& a.error_category == b.error_category
    &&& a.error_message == b.error_message
}

/// Whether two rows are of one activity: what it is asked to do, for which command,
/// and within which bounds.
pub open spec fn same_activity(a: ActivityRowModel, b: ActivityRowModel) -> bool {
    &&& a.id == b.id
    &&& a.workflow_id == b.workflow_id
    &&& a.command_sequence == b.command_sequence
    &&& a.replacement_number == b.replacement_number
    &&& a.kind == b.kind
    &&& a.version == b.version
    &&& a.topic == b.topic
    &&& a.payload_json == b.payload_json
    &&& a.max_attempts == b.max_attempts
    &&& a.timeout_millis == b.timeout_millis
    &&& a.lease_duration_millis == b.lease_duration_millis
    &&& a.retry_policy_json == b.retry_policy_json
    &&& a.operation_key == b.operation_key
    &&& a.root_activity_id == b.root_activity_id
    &&& a.replaces_activity_id == b.replaces_activity_id
    &&& a.created_at == b.created_at
}

/// Whether two rows are of one approval: the question, what it belongs to and its
/// bounds.
pub open spec fn same_approval(a: ApprovalRowModel, b: ApprovalRowModel) -> bool {
    &&& a.id == b.id
    &&& a.workflow_id == b.workflow_id
    &&& a.command_sequence == b.command_sequence
    &&& a.kind == b.kind
    &&& a.version == b.version
    &&& a.prompt_metadata_json == b.prompt_metadata_json
    &&& a.validation_schema_json == b.validation_schema_json
    &&& a.validation_version == b.validation_version
    &&& a.requested_at == b.requested_at
    &&& a.expires_at == b.expires_at
}

} // verus!
