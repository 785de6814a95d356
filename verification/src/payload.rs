//! Sizes of the JSON payloads that are stored, and prepared workflow starts.
use vstd::prelude::*;
use crate::error;
use crate::error::{ensure_size, DurableError, ErrorModel, WorkflowError};
use crate::registry;
use crate::registry::validate_definition;
use crate::text;
use crate::text::{join2, join3};
use crate::transition::StoredTransition;
use crate::{MAX_EVENT_METADATA_BYTES, MAX_INPUT_STATE_PAYLOAD_BYTES, MAX_OUTPUT_BYTES};

verus! {

/// A workflow whose input and initial state are ready to be stored.
#[derive(Debug, Clone, PartialEq, Eq)]
pub struct PreparedWorkflowStart {
    kind: String,
    version: i32,
    input_json: String,
    state_json: String,
}

/// The mathematical content of a [`PreparedWorkflowStart`].
#[verifier::ext_equal]
pub struct PreparedModel {
    pub kind: Seq<char>,
    pub version: i32,
    pub input_json: Seq<char>,
    pub state_json: Seq<char>,
}

impl View for PreparedWorkflowStart {
    type V = PreparedModel;

    closed spec fn view(&self) -> PreparedModel {
        PreparedModel {
            kind: self.kind@,
            version: self.version,
            input_json: self.input_json@,
            state_json: self.state_json@,
        }
    }
}

/// Whether a size check fails, and how.
pub open spec fn size_error(field: Seq<char>, value: Seq<char>, max_bytes: int) -> Option<
    ErrorModel,
> {
    match error::size_result(field, value, max_bytes) {
        Ok(_) => None,
        Err(error) => Some(error),
    }
}

/// Why an input and an initial state cannot be stored.
pub open spec fn payload_error(input_json: Seq<char>, state_json: Seq<char>) -> Option<ErrorModel> {
    match size_error("workflow input"@, input_json, MAX_INPUT_STATE_PAYLOAD_BYTES as int) {
        Some(error) => Some(error),
        None => size_error("workflow state"@, state_json, MAX_INPUT_STATE_PAYLOAD_BYTES as int),
    }
}

/// Refuses an input or an initial state that is too large to store.
pub fn check_payload(input_json: &str, state_json: &str) -> (result: Result<(), DurableError>)
    ensures
        match result {
            Ok(()) => payload_error(input_json@, state_json@) is None,
            Err(error) => payload_error(input_json@, state_json@) == Some(error@),
        },
{
    match ensure_size("workflow input", input_json, MAX_INPUT_STATE_PAYLOAD_BYTES) {
        Ok(()) => {},
        Err(error) => return Err(error),
    }
    ensure_size("workflow state", state_json, MAX_INPUT_STATE_PAYLOAD_BYTES)
}

impl PreparedWorkflowStart {
    /// A start of the definition `kind` and `version` with the JSON texts of the
    /// workflow and of its initial state.
    pub fn from_workflow(kind: &str, version: i32, input_json: String, state_json: String) -> (result:
        Result<Self, DurableError>)
        ensures
            ({
                let problem = match registry::definition_error(kind@, version as int) {
                    Some(error) => Some(error),
                    None => payload_error(input_json@, state_json@),
                };
                match result {
                    Ok(prepared) => problem is None && prepared@ == (PreparedModel {
                        kind: kind@,
                        version,
                        input_json: input_json@,
                        state_json: state_json@,
                    }),
                    Err(error) => problem == Some(error@),
                }
            }),
    {
        match validate_definition(kind, version) {
            Ok(()) => {},
            Err(error) => return Err(error),
        }
        match check_payload(input_json.as_str(), state_json.as_str()) {
            Ok(()) => {},
            Err(error) => return Err(error),
        }
        Ok(PreparedWorkflowStart { kind: kind.to_owned(), version, input_json, state_json })
    }

    /// The kind of the workflow.
    pub fn kind(&self) -> (kind: &str)
        ensures
            kind@ == self@.kind,
    {
        self.kind.as_str()
    }

    /// The version of the workflow.
    pub fn version(&self) -> (version: i32)
        ensures
            version == self@.version,
    {
        self.version
    }

    /// The input as JSON.
    pub fn input_json(&self) -> (input_json: &str)
        ensures
            input_json@ == self@.input_json,
    {
        self.input_json.as_str()
    }

    /// The initial state as JSON.
    pub fn state_json(&self) -> (state_json: &str)
        ensures
            state_json@ == self@.state_json,
    {
        self.state_json.as_str()
    }
}

/// Why a transition is too large to store.
pub open spec fn transition_error(transition: StoredTransition) -> Option<ErrorModel> {
    match transition {
        StoredTransition::RunActivity { state_json, activity } => size_error(
            "workflow state"@,
            state_json@,
            MAX_INPUT_STATE_PAYLOAD_BYTES as int,
        ),
        StoredTransition::RunChild { state_json, child } => size_error(
            "workflow state"@,
            state_json@,
            MAX_INPUT_STATE_PAYLOAD_BYTES as int,
        ),
        StoredTransition::SleepUntil { state_json, wake_at_millis } => size_error(
            "workflow state"@,
            state_json@,
            MAX_INPUT_STATE_PAYLOAD_BYTES as int,
        ),
        StoredTransition::WaitForApproval { state_json, approval_json, expires_at_millis } =>
            match size_error(
            "workflow state"@,
            state_json@,
            MAX_INPUT_STATE_PAYLOAD_BYTES as int,
        ) {
            Some(error) => Some(error),
            None => size_error(
                "approval request"@,
                approval_json@,
                MAX_EVENT_METADATA_BYTES as int,
            ),
        },
        StoredTransition::Continue { state_json } => size_error(
            "workflow state"@,
            state_json@,
            MAX_INPUT_STATE_PAYLOAD_BYTES as int,
        ),
        StoredTransition::Complete { output_json } => size_error(
            "workflow output"@,
            output_json@,
            MAX_OUTPUT_BYTES as int,
        ),
    }
}

/// Refuses a transition whose state, approval request or output is too large to store.
pub fn store_transition(transition: StoredTransition) -> (result: Result<
    StoredTransition,
    DurableError,
>)
    ensures
        match result {
            Ok(stored) => transition_error(transition) is None && stored == transition,
            Err(error) => transition_error(transition) == Some(error@),
        },
{
    let checked = match &transition {
        StoredTransition::RunActivity { state_json, activity: _ } => check_state(state_json),
        StoredTransition::RunChild { state_json, child: _ } => check_state(state_json),
        StoredTransition::SleepUntil { state_json, wake_at_millis: _ } => check_state(state_json),
        StoredTransition::WaitForApproval { state_json, approval_json, expires_at_millis: _ } => {
            match check_state(state_json) {
                Ok(()) => ensure_size(
                    "approval request",
                    approval_json.as_str(),
                    MAX_EVENT_METADATA_BYTES,
                ),
                Err(error) => Err(error),
            }
        },
        StoredTransition::Continue { state_json } => check_state(state_json),
        StoredTransition::Complete { output_json } => ensure_size(
            "workflow output",
            output_json.as_str(),
            MAX_OUTPUT_BYTES,
        ),
    };
    match checked {
        Ok(()) => Ok(transition),
        Err(error) => Err(error),
    }
}

fn check_state(state_json: &String) -> (result: Result<(), DurableError>)
    ensures
        match result {
            Ok(()) => size_error(
                "workflow state"@,
                state_json@,
                MAX_INPUT_STATE_PAYLOAD_BYTES as int,
            ) is None,
            Err(error) => size_error(
                "workflow state"@,
                state_json@,
                MAX_INPUT_STATE_PAYLOAD_BYTES as int,
            ) == Some(error@),
        },
{
    ensure_size("workflow state", state_json.as_str(), MAX_INPUT_STATE_PAYLOAD_BYTES)
}

/// Refuses an activity output that is too large to store.
pub fn check_activity_output(output_json: &str) -> (result: Result<(), DurableError>)
    ensures
        error::result_model(result) == error::size_result(
            "activity output"@,
            output_json@,
            MAX_OUTPUT_BYTES as int,
        ),
{
    ensure_size("activity output", output_json, MAX_OUTPUT_BYTES)
}

/// Refuses an approval decision that is too large to store.
pub fn check_approval_decision(decision_json: &str) -> (result: Result<(), DurableError>)
    ensures
        error::result_model(result) == error::size_result(
            "approval decision"@,
            decision_json@,
            MAX_EVENT_METADATA_BYTES as int,
        ),
{
    ensure_size("approval decision", decision_json, MAX_EVENT_METADATA_BYTES)
}

/// The refusal of a request payload that does not decode.
pub fn invalid_payload(field: &'static str, decode_error: &str) -> (error: DurableError)
    ensures
        error@ == (ErrorModel::InvalidPayload { field: field@, message: decode_error@ }),
{
    DurableError::InvalidPayload { field, message: decode_error.to_owned() }
}

/// Why a workflow could not be stepped.
#[derive(Debug)]
pub enum WorkflowDispatchError {
    Handler(WorkflowError),
    Durable(DurableError),
}

/// The text that describes why a workflow could not be stepped.
pub open spec fn dispatch_text(error: WorkflowDispatchError) -> Seq<char> {
    match error {
        WorkflowDispatchError::Handler(failure) => "workflow handler failed: "@ + (
        failure.category@ + ": "@ + failure.message@),
        WorkflowDispatchError::Durable(durable) => "workflow dispatch serialization failed: "@
            + error::error_text(durable@),
    }
}

impl WorkflowDispatchError {
    /// The text that describes the failure.
    pub fn message(&self) -> (text: String)
        ensures
            text@ == dispatch_text(*self),
    {
        match self {
            WorkflowDispatchError::Handler(failure) => join2(
                "workflow handler failed: ",
                join3(failure.category.as_str(), ": ", failure.message.as_str()).as_str(),
            ),
            WorkflowDispatchError::Durable(durable) => join2(
                "workflow dispatch serialization failed: ",
                durable.message().as_str(),
            ),
        }
    }
}

/// A transition is stored exactly where its state, its approval request or its output is
/// not too large, each by its own limit.
pub proof fn law_only_oversized_transitions_are_refused(transition: StoredTransition)
    ensures
        transition_error(transition) is None <==> match transition {
            StoredTransition::RunActivity { state_json, .. }
            | StoredTransition::RunChild { state_json, .. }
            | StoredTransition::SleepUntil { state_json, .. }
            | StoredTransition::Continue { state_json } => text::utf8_len(state_json@) <= 256
                * 1024,
            StoredTransition::WaitForApproval { state_json, approval_json, .. } => text::utf8_len(
                state_json@,
            ) <= 256 * 1024 && text::utf8_len(approval_json@) <= 16 * 1024,
            StoredTransition::Complete { output_json } => text::utf8_len(output_json@) <= 64
                * 1024,
        },
{
}

/// An input and a state are stored exactly where neither is too large; where one is, the
/// refusal is about that one, the input first.
pub proof fn law_only_oversized_payloads_are_refused(input_json: Seq<char>, state_json: Seq<char>)
    ensures
        match payload_error(input_json, state_json) {
            None => text::utf8_len(input_json) <= 256 * 1024 && text::utf8_len(state_json) <= 256
                * 1024,
            Some(error) => error matches ErrorModel::PayloadTooLarge {
                field,
                actual_bytes,
                max_bytes,
            } && max_bytes == 256 * 1024 && actual_bytes > max_bytes && (if text::utf8_len(
                input_json,
            ) > 256 * 1024 {
                field == "workflow input"@ && actual_bytes == text::utf8_len(input_json)
            } else {
                field == "workflow state"@ && actual_bytes == text::utf8_len(state_json)
            }),
        },
{
}

/// The text of a failed dispatch tells a failure of the handler, with its category and its
/// message, from one of the engine.
pub proof fn law_dispatch_text_tells_the_failure(error: WorkflowDispatchError)
    ensures
        match error {
            WorkflowDispatchError::Handler(failure) => dispatch_text(error)
                == "workflow handler failed: "@ + (failure.category@ + ": "@ + failure.message@),
            WorkflowDispatchError::Durable(durable) => dispatch_text(error)
                == "workflow dispatch serialization failed: "@ + error::error_text(durable@),
        },
{
}

} // verus!
