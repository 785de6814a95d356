use durable_workflows::duration::Duration;
use durable_workflows::error::WorkflowError;
use durable_workflows::flow::{
    apply_event, conclude, FlowJournal, FlowTransition, JournalEntry, PendingStep, StepOutcome,
    WfCtx, WfError,
};
use durable_workflows::ids::WorkflowId;
use durable_workflows::policy::{BackoffPolicy, RetryPolicy};
use durable_workflows::transition::{
    ActivityCommand, ChildWorkflowCommand, StepResult, WorkflowEvent,
};

const DOUBLE_KIND: &str = "double_activity";
const DOUBLE_VERSION: i32 = 1;
const ECHO_KIND: &str = "child_echo";
const ECHO_VERSION: i32 = 1;

fn double_command(value: i64, operation_key: Option<String>) -> ActivityCommand {
    ActivityCommand {
        kind: DOUBLE_KIND.to_string(),
        version: DOUBLE_VERSION,
        topic: "flow_test_topic".to_string(),
        payload_json: format!("{{\"value\":{value}}}"),
        max_attempts: 1,
        timeout: Duration::from_secs(5),
        lease_duration: Duration::from_secs(10),
        retry_policy: RetryPolicy::from_validated(BackoffPolicy::Fixed { delay_secs: 1 }),
        operation_key,
        continuation_priority: false,
    }
}

fn double(ctx: &mut WfCtx<'_, ()>, value: i64) -> Result<i64, WfError> {
    let key = ctx.auto_operation_key();
    match ctx.request_activity(DOUBLE_KIND, DOUBLE_VERSION)? {
        Some(result) => Ok(result.parse().expect("number")),
        None => Err(ctx.suspend(PendingStep::Activity(double_command(value, key)))),
    }
}

fn echo(ctx: &mut WfCtx<'_, ()>, message: String) -> Result<String, WfError> {
    match ctx.request_child(ECHO_KIND, ECHO_VERSION)? {
        Some(result) => Ok(result.trim_matches('"').to_string()),
        None => Err(ctx.suspend(PendingStep::Child(ChildWorkflowCommand {
            kind: ECHO_KIND.to_string(),
            version: ECHO_VERSION,
            input_json: message,
            state_json: "{}".to_string(),
            deduplication_key: None,
        }))),
    }
}

fn run_pipeline(ctx: &mut WfCtx<'_, ()>, value: i64, with_child: bool) -> Result<i64, WfError> {
    let doubled = double(ctx, value)?;
    if with_child {
        let echoed = echo(ctx, doubled.to_string())?;
        let parsed: i64 = echoed
            .parse()
            .map_err(|_| WfError::new("parse", "child echo was not numeric"))?;
        return double(ctx, parsed);
    }
    Ok(doubled)
}

fn workflow_id() -> Option<WorkflowId> {
    Some(WorkflowId::new(7).expect("workflow id"))
}

fn step(
    workflow_id: Option<WorkflowId>,
    journal: FlowJournal,
    event: WorkflowEvent,
    with_child: bool,
) -> Result<FlowTransition<i64>, WorkflowError> {
    let mut journal = journal;
    apply_event(&mut journal, event)?;
    let mut ctx = WfCtx::new(&(), workflow_id, journal);
    let result = run_pipeline(&mut ctx, 3, with_child);
    conclude(ctx, result)
}

fn activity_result(value: i64) -> StepResult {
    StepResult {
        kind: DOUBLE_KIND.to_string(),
        version: DOUBLE_VERSION,
        output_json: value.to_string(),
    }
}

fn recorded(step_kind: String, step_version: Option<i32>, result_json: &str) -> JournalEntry {
    JournalEntry {
        step_kind,
        step_version,
        outcome: StepOutcome::Succeeded { result_json: result_json.to_string() },
    }
}

fn doubled_once() -> JournalEntry {
    recorded(format!("activity:{}", DOUBLE_KIND), Some(DOUBLE_VERSION), "6")
}

#[test]
fn started_flow_suspends_at_the_first_activity_with_an_auto_key() {
    let transition = step(workflow_id(), FlowJournal::default(), WorkflowEvent::Started, true)
        .expect("first transition");
    let FlowTransition::RunActivity { state, activity } = transition else {
        panic!("expected an activity suspension");
    };
    assert!(state.steps.is_empty());
    assert_eq!(activity.kind, DOUBLE_KIND);
    assert_eq!(activity.operation_key.as_deref(), Some("wf:7:step:1"));
}

#[test]
fn activity_result_replays_into_a_child_suspension() {
    let transition = step(
        workflow_id(),
        FlowJournal::default(),
        WorkflowEvent::ActivitySucceeded { command_sequence: 1, result: activity_result(6) },
        true,
    )
    .expect("child transition");
    let FlowTransition::RunChild { state, child } = transition else {
        panic!("expected a child suspension");
    };
    assert_eq!(state.steps.len(), 1);
    assert_eq!(child.kind, ECHO_KIND);
    assert!(child.deduplication_key.is_none());
}

#[test]
fn child_result_replays_and_the_flow_completes() {
    let journal = FlowJournal { steps: vec![doubled_once()] };
    let transition = step(
        workflow_id(),
        journal,
        WorkflowEvent::ChildSucceeded {
            command_sequence: 2,
            result: StepResult {
                kind: ECHO_KIND.to_string(),
                version: ECHO_VERSION,
                output_json: "\"6\"".to_string(),
            },
        },
        true,
    )
    .expect("second activity transition");
    let FlowTransition::RunActivity { state, activity } = transition else {
        panic!("expected the second activity suspension");
    };
    assert_eq!(state.steps.len(), 2);
    assert_eq!(activity.operation_key.as_deref(), Some("wf:7:step:3"));

    let journal = state;
    let transition = step(
        workflow_id(),
        journal,
        WorkflowEvent::ActivitySucceeded { command_sequence: 3, result: activity_result(12) },
        true,
    )
    .expect("completion");
    let FlowTransition::Complete { output } = transition else {
        panic!("expected completion");
    };
    assert_eq!(output, 12);
}

#[test]
fn child_failure_replays_as_a_typed_error_and_fails_the_flow() {
    let journal = FlowJournal { steps: vec![doubled_once()] };
    let error = step(
        workflow_id(),
        journal,
        WorkflowEvent::ChildFailed {
            command_sequence: 2,
            kind: ECHO_KIND.to_string(),
            version: ECHO_VERSION,
            category: "child_cancelled".to_string(),
            message: "operator cancelled".to_string(),
        },
        true,
    )
    .expect_err("child failure must fail the flow");
    assert_eq!(error.category, "child_failed");
    assert!(error.message.contains("child_cancelled"));
}

#[test]
fn nondeterministic_replay_fails_closed() {
    let journal = FlowJournal {
        steps: vec![recorded("child:unexpected_workflow".to_string(), Some(1), "null")],
    };
    let error = step(workflow_id(), journal, WorkflowEvent::Continued, false)
        .expect_err("mismatched journal must fail");
    assert_eq!(error.category, "flow_definition");
    assert!(error.message.contains("nondeterministic"));
}

#[test]
fn activity_version_mismatch_on_replay_fails_closed() {
    let journal = FlowJournal {
        steps: vec![recorded(
            format!("activity:{}", DOUBLE_KIND),
            Some(DOUBLE_VERSION + 1),
            "6",
        )],
    };
    let error = step(workflow_id(), journal, WorkflowEvent::Continued, false)
        .expect_err("version mismatch must fail");
    assert_eq!(error.category, "flow_definition");
    assert!(error.message.contains("recorded version"));
}

#[test]
fn child_version_mismatch_on_replay_fails_closed() {
    let journal = FlowJournal {
        steps: vec![
            doubled_once(),
            recorded(format!("child:{}", ECHO_KIND), Some(ECHO_VERSION + 1), "\"6\""),
        ],
    };
    let error = step(workflow_id(), journal, WorkflowEvent::Continued, true)
        .expect_err("child version mismatch must fail");
    assert_eq!(error.category, "flow_definition");
    assert!(error.message.contains("recorded version"));
}

#[test]
fn completion_rejects_unreplayed_journal_steps() {
    let mut journal = FlowJournal { steps: vec![doubled_once()] };
    apply_event(&mut journal, WorkflowEvent::Continued).expect("nothing to record");
    let ctx = WfCtx::new(&(), workflow_id(), journal);
    let error = conclude(ctx, Ok::<(), WfError>(()))
        .expect_err("unconsumed journal steps must fail closed");
    assert_eq!(error.category, "flow_definition");
    assert!(error.message.contains("without replaying"));
}

#[test]
fn out_of_order_step_results_fail_closed() {
    let error = step(
        workflow_id(),
        FlowJournal::default(),
        WorkflowEvent::ActivitySucceeded { command_sequence: 4, result: activity_result(6) },
        false,
    )
    .expect_err("sequence gap must fail");
    assert_eq!(error.category, "flow");
    assert!(error.message.contains("expects 1"));
}

#[test]
fn flows_without_a_workflow_id_omit_auto_operation_keys() {
    let transition = step(None, FlowJournal::default(), WorkflowEvent::Started, false)
        .expect("first transition");
    let FlowTransition::RunActivity { activity, .. } = transition else {
        panic!("expected an activity suspension");
    };
    assert_eq!(activity.operation_key, None);
}

#[test]
fn approvals_are_no_flow_steps() {
    let mut journal = FlowJournal::default();
    let error = apply_event(&mut journal, WorkflowEvent::ApprovalExpired { command_sequence: 1 })
        .expect_err("refused");
    assert_eq!(error.message, "flows do not support approval waits");
}

#[test]
fn timers_suspend_and_replay() {
    let mut ctx = WfCtx::new(&(), workflow_id(), FlowJournal::default());
    let result = ctx.sleep_until(500);
    let FlowTransition::SleepUntil { state, wake_at_millis } =
        conclude(ctx, result).expect("timer transition")
    else {
        panic!("expected a timer");
    };
    assert_eq!(wake_at_millis, 500);
    let mut journal = state;
    apply_event(&mut journal, WorkflowEvent::TimerFired { command_sequence: 1 }).expect("recorded");
    let mut ctx = WfCtx::new(&(), workflow_id(), journal);
    assert!(ctx.sleep_until(500).is_ok());
}
