//! What workflows ask for and the events that answer them.
use vstd::prelude::*;
use crate::duration::Duration;
use crate::policy::RetryPolicy;

verus! {

/// The `available_at` of an activity that is claimed ahead of all others.
pub const CONTINUATION_READY_AT_MILLIS: i64 = 0;

/// A request to run one activity.
#[derive(Debug, Clone, PartialEq, Eq)]
pub struct ActivityCommand {
    pub kind: String,
    pub version: i32,
    pub topic: String,
    pub payload_json: String,
    pub max_attempts: u32,
    pub timeout: Duration,
    pub lease_duration: Duration,
    pub retry_policy: RetryPolicy,
    pub operation_key: Option<String>,
    pub continuation_priority: bool,
}

/// A request to run one child workflow.
#[derive(Debug, Clone, PartialEq, Eq)]
pub struct ChildWorkflowCommand {
    pub kind: String,
    pub version: i32,
    pub input_json: String,
    pub state_json: String,
    pub deduplication_key: Option<String>,
}

impl ChildWorkflowCommand {
    /// The same request with a deduplication key of the caller's choice.
    pub fn with_deduplication_key(self, deduplication_key: String) -> (command: Self)
        ensures
            command == (ChildWorkflowCommand {
                deduplication_key: Some(deduplication_key),
                ..self
            }),
    {
        ChildWorkflowCommand {
            kind: self.kind,
            version: self.version,
            input_json: self.input_json,
            state_json: self.state_json,
            deduplication_key: Some(deduplication_key),
        }
    }
}

/// The output of a succeeded activity or child workflow with its definition.
#[derive(Debug, Clone)]
pub struct StepResult {
    pub kind: String,
    pub version: i32,
    pub output_json: String,
}

/// The decision on an approval with the definition that it was made for.
#[derive(Debug, Clone)]
pub struct ApprovalResult {
    pub kind: String,
    pub version: i32,
    pub payload_json: String,
}

/// What is delivered to a workflow.
#[derive(Debug, Clone)]
pub enum WorkflowEvent {
    Started,
    Continued,
    ActivitySucceeded { command_sequence: u32, result: StepResult },
    ChildSucceeded { command_sequence: u32, result: StepResult },
    ChildFailed {
        command_sequence: u32,
        kind: String,
        version: i32,
        category: String,
        message: String,
    },
    TimerFired { command_sequence: u32 },
    ApprovalResolved { command_sequence: u32, result: ApprovalResult },
    ApprovalExpired { command_sequence: u32 },
}

/// The mathematical content of a [`StepResult`].
#[verifier::ext_equal]
pub struct StepResultModel {
    pub kind: Seq<char>,
    pub version: i32,
    pub output_json: Seq<char>,
}

impl View for StepResult {
    type V = StepResultModel;

    open spec fn view(&self) -> StepResultModel {
        StepResultModel {
            kind: self.kind@,
            version: self.version,
            output_json: self.output_json@,
        }
    }
}

/// The mathematical content of an [`ApprovalResult`].
#[verifier::ext_equal]
pub struct ApprovalResultModel {
    pub kind: Seq<char>,
    pub version: i32,
    pub payload_json: Seq<char>,
}

impl View for ApprovalResult {
    type V = ApprovalResultModel;

    open spec fn view(&self) -> ApprovalResultModel {
        ApprovalResultModel {
            kind: self.kind@,
            version: self.version,
            payload_json: self.payload_json@,
        }
    }
}

/// The mathematical content of a [`WorkflowEvent`].
#[verifier::ext_equal]
pub enum WorkflowEventModel {
    Started,
    Continued,
    ActivitySucceeded { command_sequence: u32, result: StepResultModel },
    ChildSucceeded { command_sequence: u32, result: StepResultModel },
    ChildFailed {
        command_sequence: u32,
        kind: Seq<char>,
        version: i32,
        category: Seq<char>,
        message: Seq<char>,
    },
    TimerFired { command_sequence: u32 },
    ApprovalResolved { command_sequence: u32, result: ApprovalResultModel },
    ApprovalExpired { command_sequence: u32 },
}

impl View for WorkflowEvent {
    type V = WorkflowEventModel;

    open spec fn view(&self) -> WorkflowEventModel {
        match *self {
            WorkflowEvent::Started => WorkflowEventModel::Started,
            WorkflowEvent::Continued => WorkflowEventModel::Continued,
            WorkflowEvent::ActivitySucceeded { command_sequence, result } =>
                WorkflowEventModel::ActivitySucceeded { command_sequence, result: result@ },
            WorkflowEvent::ChildSucceeded { command_sequence, result } =>
                WorkflowEventModel::ChildSucceeded { command_sequence, result: result@ },
            WorkflowEvent::ChildFailed { command_sequence, kind, version, category, message } =>
                WorkflowEventModel::ChildFailed {
                command_sequence,
                kind: kind@,
                version,
                category: category@,
                message: message@,
            },
            WorkflowEvent::TimerFired { command_sequence } => WorkflowEventModel::TimerFired {
                command_sequence,
            },
            WorkflowEvent::ApprovalResolved { command_sequence, result } =>
                WorkflowEventModel::ApprovalResolved { command_sequence, result: result@ },
            WorkflowEvent::ApprovalExpired { command_sequence } =>
                WorkflowEventModel::ApprovalExpired { command_sequence },
        }
    }
}

/// What a workflow does next, with its state and payloads as JSON texts.
#[derive(Debug, Clone, PartialEq)]
pub enum StoredTransition {
    RunActivity { state_json: String, activity: ActivityCommand },
    RunChild { state_json: String, child: ChildWorkflowCommand },
    SleepUntil { state_json: String, wake_at_millis: i64 },
    WaitForApproval {
        state_json: String,
        approval_json: String,
        expires_at_millis: Option<i64>,
    },
    Continue { state_json: String },
    Complete { output_json: String },
}

/// How a child workflow ended.
#[derive(Debug)]
pub enum ChildOutcome {
    Succeeded { output_json: String },
    Failed { category: String, message: String },
}

/// The mathematical content of a [`ChildOutcome`].
#[verifier::ext_equal]
pub enum ChildOutcomeModel {
    Succeeded { output_json: Seq<char> },
    Failed { category: Seq<char>, message: Seq<char> },
}

impl View for ChildOutcome {
    type V = ChildOutcomeModel;

    open spec fn view(&self) -> ChildOutcomeModel {
        match *self {
            ChildOutcome::Succeeded { output_json } => ChildOutcomeModel::Succeeded {
                output_json: output_json@,
            },
            ChildOutcome::Failed { category, message } => ChildOutcomeModel::Failed {
                category: category@,
                message: message@,
            },
        }
    }
}

} // verus!
