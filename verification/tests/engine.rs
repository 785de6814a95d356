use durable_workflows::duration::Duration;
use durable_workflows::error::{ActivityError, DurableError};
use durable_workflows::payload::PreparedWorkflowStart;
use durable_workflows::persistence::events::{event_row, next_event_sequence};
use durable_workflows::persistence::models::{
    ActivityAttemptRow, ActivityRow, ApprovalRow, NewActivityAttemptRow, WorkflowEventRow,
    WorkflowRow,
};
use durable_workflows::persistence::status::{ActivityStatus, WorkflowStatus};
use durable_workflows::persistence::workflows::{
    restart_conflict, settle_start, wake_parent, WorkflowInsert,
};
use durable_workflows::policy::{BackoffPolicy, RetryPolicy};
use durable_workflows::registry::{ActivityRegistry, WorkflowRegistry};
use durable_workflows::runtime::activity_worker::{
    claim_attempt, claim_candidate, dispatch_outcome, heartbeat_interval, is_activity_claimable,
    is_reconcilable, lease_authority, locked_batch, reconcile_expired, validate_worker, ActivityClaim,
    ActivityDispatchError, BatchBudget, ExecutionOutcome, WorkerConfig,
};
use durable_workflows::runtime::coordinator::{
    activity_row, check_activation, claim_expiry, claim_row, claim_workflow, decode_event, fail_activation_at,
    is_claimable, is_recoverable, next_expired_page, recover_lease, terminal_child_outcome, validate_coordinator,
    with_reference, CommitPlan, CoordinatorConfig, EventSource, WorkflowClaim,
};
use durable_workflows::runtime::execution::{
    heartbeat_step, Execution, ExecutionSignal, HeartbeatEvent, HeartbeatStep, NextStep,
};
use durable_workflows::runtime::fencing::{
    commit_activation, ensure_fenced, heartbeat, is_activity_held, record_activation_failure,
    settle_attempt,
};
use durable_workflows::runtime::temporal::{expire_approval, fire_timer};
use durable_workflows::store::{
    cancel_activity, cancel_workflow, plan_child, plan_recoverable_start, plan_start,
    validate_options, RecoverablePlan, StartOptions, StartPlan,
};
use durable_workflows::transition::{
    ActivityCommand, ChildOutcome, ChildWorkflowCommand, StoredTransition, WorkflowEvent,
};

fn workflow(id: i64, status: WorkflowStatus) -> WorkflowRow {
    WorkflowRow {
        id,
        kind: "greet".to_string(),
        version: 1,
        input_json: "{}".to_string(),
        state_json: "{}".to_string(),
        state_version: 0,
        status,
        result_json: None,
        error_category: None,
        error_message: None,
        wait_kind: None,
        wait_reference_id: None,
        available_at: 10,
        activation_attempts: 0,
        max_activation_attempts: 8,
        consecutive_continuations: 0,
        lease_owner: None,
        lease_token: None,
        lease_expires_at: None,
        deduplication_key: None,
        schedule_run_id: None,
        root_workflow_id: None,
        restarted_from_workflow_id: None,
        parent_workflow_id: None,
        parent_command_sequence: None,
        command_sequence: 0,
        delivered_event_sequence: 0,
        created_at: 1,
        updated_at: 1,
        completed_at: None,
    }
}

fn waiting_for(activity: i64) -> WorkflowRow {
    let mut row = workflow(3, WorkflowStatus::WaitingActivity);
    row.wait_kind = Some("activity".to_string());
    row.wait_reference_id = Some(activity);
    row
}

fn activity(status: ActivityStatus) -> ActivityRow {
    ActivityRow {
        id: 5,
        workflow_id: 3,
        command_sequence: 1,
        replacement_number: 0,
        kind: "send".to_string(),
        version: 1,
        topic: "email".to_string(),
        payload_json: "{}".to_string(),
        status,
        available_at: 10,
        max_attempts: 2,
        attempt_count: 0,
        timeout_millis: 30_000,
        lease_duration_millis: 60_000,
        retry_policy_json: "{}".to_string(),
        operation_key: None,
        provider_result_json: None,
        last_error_category: None,
        last_error_message: None,
        lease_owner: None,
        lease_token: None,
        lease_expires_at: None,
        root_activity_id: None,
        replaces_activity_id: None,
        created_at: 1,
        updated_at: 1,
        completed_at: None,
    }
}

fn activities() -> ActivityRegistry<()> {
    let mut registry = ActivityRegistry::new();
    registry.register("send", 1, "email".to_string(), ()).expect("registered");
    registry
}

fn workflows() -> WorkflowRegistry<()> {
    let mut registry = WorkflowRegistry::new();
    registry.register("greet", 1, ()).expect("registered");
    registry
}

fn claim(row: ActivityRow, token: &str, now: i64) -> (ActivityClaim, ActivityAttemptRow) {
    let (claim, attempt) =
        claim_attempt(row, None, &activities(), "worker", token.to_string(), now).expect("claim");
    (claim, stored_attempt(attempt))
}

fn stored_attempt(row: NewActivityAttemptRow) -> ActivityAttemptRow {
    ActivityAttemptRow {
        activity_id: row.activity_id,
        attempt_number: row.attempt_number,
        worker_id: row.worker_id,
        lease_token: row.lease_token,
        started_at: row.started_at,
        heartbeat_at: row.heartbeat_at,
        finished_at: row.finished_at,
        outcome: row.outcome,
        error_category: row.error_category,
        error_message: row.error_message,
        provider_result_json: row.provider_result_json,
    }
}

fn fixed() -> Result<RetryPolicy, DurableError> {
    Ok(RetryPolicy::from_validated(BackoffPolicy::Fixed { delay_secs: 5 }))
}

fn retryable() -> ExecutionOutcome {
    dispatch_outcome(Err(ActivityDispatchError::Handler(ActivityError::retryable(
        "provider", "busy",
    ))))
}

#[test]
fn pending_activities_are_claimed_for_the_workflow_that_waits() {
    let row = activity(ActivityStatus::Pending);
    assert!(is_activity_claimable(&row, &waiting_for(5), 10));
    assert!(!is_activity_claimable(&row, &waiting_for(6), 10));
    assert!(!is_activity_claimable(&row, &waiting_for(5), 9));
    assert!(!is_activity_claimable(&activity(ActivityStatus::Succeeded), &waiting_for(5), 10));
    let (claim, attempt) = claim(row, "t1", 1_000);
    assert_eq!(claim.row().status, ActivityStatus::Running);
    assert_eq!(claim.row().lease_expires_at, Some(61_000));
    assert_eq!(claim.stored_attempt(), 1);
    assert_eq!(attempt.lease_token, "t1");
    assert!(is_activity_held(Some(claim.row()), &claim));
}

#[test]
fn fresh_claims_draw_their_own_token() {
    let first = claim_candidate(
        activity(ActivityStatus::Pending),
        Some(4),
        &activities(),
        "worker",
        1_000,
    )
    .expect("claim")
    .0;
    let second = claim_candidate(
        activity(ActivityStatus::Pending),
        None,
        &activities(),
        "worker",
        1_000,
    )
    .expect("claim")
    .0;
    assert_eq!(first.lease_token().len(), 36);
    assert_ne!(first.lease_token(), second.lease_token());
    assert_eq!(first.schedule_run_id(), Some(4));
}

#[test]
fn claims_are_refused_with_their_reason() {
    let refuse = |row: ActivityRow| {
        claim_attempt(row, None, &activities(), "worker", "t".to_string(), 0)
            .expect_err("refused")
            .message()
    };
    let mut unknown = activity(ActivityStatus::Pending);
    unknown.version = 2;
    assert_eq!(refuse(unknown), "missing durable definition send v2");
    let mut used_up = activity(ActivityStatus::Pending);
    used_up.attempt_count = 2;
    assert_eq!(
        refuse(used_up),
        "invalid durable state: pending activity 5 has exhausted its attempt cap"
    );
    let mut short = activity(ActivityStatus::Pending);
    short.lease_duration_millis = 30_000;
    assert_eq!(
        refuse(short),
        "invalid durable state: activity 5 has invalid timeout or lease bounds"
    );
}

#[test]
fn a_worker_whose_lease_ran_out_is_fenced_out() {
    let (stale, attempt) = claim(activity(ActivityStatus::Pending), "t1", 1_000);
    assert!(is_reconcilable(stale.row(), 61_000));
    assert!(!is_reconcilable(stale.row(), 60_999));
    let lost = reconcile_expired(stale.row().clone(), waiting_for(5), fixed(), 61_000)
        .expect("settled");
    assert_eq!(lost.next.status, ActivityStatus::Pending);
    assert_eq!(lost.next.available_at, 66_000);
    assert!(lost.blocked.is_none());
    let settle = |row: Option<&ActivityRow>| {
        settle_attempt(
            row,
            Some(&attempt),
            &stale,
            waiting_for(5),
            ExecutionOutcome::Succeeded("1".to_string()),
            fixed(),
            70_000,
        )
    };
    assert!(matches!(settle(Some(&lost.next)), Err(DurableError::FencedWrite)));
    let (next, _) = claim(lost.next, "t1", 70_000);
    assert!(matches!(settle(Some(next.row())), Err(DurableError::FencedWrite)));
    assert!(matches!(settle(None), Err(DurableError::FencedWrite)));
    assert!(matches!(
        heartbeat(Some(next.row()), Some(&attempt), &stale, 70_000),
        Err(DurableError::FencedWrite)
    ));
}

#[test]
fn a_success_wakes_the_workflow() {
    let (claim, attempt) = claim(activity(ActivityStatus::Pending), "t1", 1_000);
    let plan = settle_attempt(
        Some(claim.row()),
        Some(&attempt),
        &claim,
        waiting_for(5),
        ExecutionOutcome::Succeeded("\"sent\"".to_string()),
        fixed(),
        2_000,
    )
    .expect("settled");
    assert_eq!(plan.next.status, ActivityStatus::Succeeded);
    assert_eq!(plan.next.lease_token, None);
    let woken = plan.workflow.expect("workflow");
    assert_eq!(woken.status, WorkflowStatus::Ready);
    assert_eq!(woken.wait_reference_id, None);
    assert_eq!(plan.event.delivery_sequence, Some(1));
    assert!(matches!(
        plan.event.event,
        Some(WorkflowEvent::ActivitySucceeded { command_sequence: 1, .. })
    ));
    assert!(!is_activity_held(Some(&plan.next), &claim));
}

#[test]
fn failures_are_retried_until_the_cap() {
    let (first, attempt) = claim(activity(ActivityStatus::Pending), "t1", 1_000);
    let plan = settle_attempt(
        Some(first.row()),
        Some(&attempt),
        &first,
        waiting_for(5),
        retryable(),
        fixed(),
        2_000,
    )
    .expect("settled");
    assert_eq!(plan.next.status, ActivityStatus::Pending);
    assert_eq!(plan.next.available_at, 7_000);
    assert_eq!(plan.attempt.outcome, "retryable_failure");
    assert!(plan.workflow.is_none());
    let (second, attempt) = claim(plan.next, "t2", 7_000);
    let plan = settle_attempt(
        Some(second.row()),
        Some(&attempt),
        &second,
        waiting_for(5),
        retryable(),
        fixed(),
        8_000,
    )
    .expect("settled");
    assert_eq!(plan.next.status, ActivityStatus::DeadLettered);
    let blocked = plan.workflow.expect("workflow");
    assert_eq!(blocked.status, WorkflowStatus::Blocked);
    assert_eq!(blocked.error_message.as_deref(), Some("busy"));
}

#[test]
fn a_lease_is_renewed_by_its_holder() {
    let (claim, attempt) = claim(activity(ActivityStatus::Pending), "t1", 1_000);
    let renewed = heartbeat(Some(claim.row()), Some(&attempt), &claim, 5_000).expect("renewed");
    assert_eq!(renewed.activity.lease_expires_at, Some(65_000));
    assert!(is_activity_held(Some(&renewed.activity), &claim));
    assert_eq!(renewed.attempt.heartbeat_at, 5_000);
    assert_eq!(renewed.attempt.started_at, attempt.started_at);
    assert_eq!(heartbeat_interval(Duration::from_secs(5), 60_000).expect("nanos"), 5_000_000_000);
    assert_eq!(heartbeat_interval(Duration::from_secs(50), 60_000).expect("nanos"), 20_000_000_000);
    assert_eq!(lease_authority(1_000).expect("authority"), Duration::from_millis(999));
    assert!(lease_authority(-1).is_err());
    assert!(ensure_fenced(1).is_ok());
    assert!(ensure_fenced(0).is_err());
}

#[test]
fn writes_keep_the_columns_of_the_stored_row() {
    let (claim, attempt) = claim(activity(ActivityStatus::Pending), "t1", 1_000);
    let mut stored = claim.row().clone();
    stored.max_attempts += 5;
    stored.lease_duration_millis += 1;
    stored.payload_json = "[1]".to_string();
    let renewed = heartbeat(Some(&stored), Some(&attempt), &claim, 5_000).expect("renewed");
    assert_eq!(renewed.activity.max_attempts, stored.max_attempts);
    assert_eq!(renewed.activity.payload_json, "[1]");
    assert_eq!(renewed.activity.lease_expires_at, Some(65_000));
    for outcome in [
        ExecutionOutcome::Succeeded("1".to_string()),
        retryable(),
        ExecutionOutcome::Permanent { category: "bad".to_string(), message: "no".to_string() },
    ] {
        let plan = settle_attempt(
            Some(&stored),
            Some(&attempt),
            &claim,
            waiting_for(5),
            outcome,
            fixed(),
            2_000,
        )
        .expect("settled");
        assert_eq!(plan.next.max_attempts, stored.max_attempts);
        assert_eq!(plan.next.payload_json, "[1]");
    }
    let claim = leased(workflow(3, WorkflowStatus::Ready));
    let mut stored = claim.row().clone();
    stored.input_json = "[2]".to_string();
    stored.state_version = 40;
    let plan = commit_activation(
        Some(&stored),
        &claim,
        &started_row(),
        StoredTransition::Continue { state_json: "{}".to_string() },
        &CoordinatorConfig::default(),
        11_000,
    )
    .expect("plan");
    match plan {
        CommitPlan::Ready { next, .. } => {
            assert_eq!(next.input_json, "[2]");
            assert_eq!(next.state_version, claim.row().state_version + 1);
        }
        _ => panic!("not ready"),
    }
}

#[test]
fn revoked_handlers_clean_up_within_the_lease() {
    let secs = Duration::from_secs;
    let mut execution = Execution::start();
    let left = |execution: &Execution, lease| {
        execution.cleanup_left(secs(30), secs(7), secs(lease)).map(|left| left.as_millis())
    };
    assert_eq!(left(&execution, 60), Some(30_000));
    assert_eq!(left(&execution, 20), Some(20_000));
    assert_eq!(left(&execution, 0), None);
    execution.receive(ExecutionSignal::Cancellation);
    assert_eq!(left(&execution, 20), Some(7_000));
    execution.receive(ExecutionSignal::HandlerReturned(Ok("1".to_string())));
    assert_eq!(left(&execution, 20), None);
}

#[test]
fn heartbeats_end_with_the_lease_or_when_asked() {
    for (event, step) in [
        (HeartbeatEvent::Stopped, HeartbeatStep::Finish),
        (HeartbeatEvent::LeaseEnded, HeartbeatStep::Fence),
        (HeartbeatEvent::RenewalDue, HeartbeatStep::Renew),
        (HeartbeatEvent::Renewed, HeartbeatStep::Wait),
        (HeartbeatEvent::RenewalFailed, HeartbeatStep::Fail),
    ] {
        assert_eq!(heartbeat_step(event), step);
    }
}

#[test]
fn batches_take_all_topics_or_none() {
    let locked = || vec![("email".to_string(), 2), ("fax".to_string(), 1)];
    assert_eq!(locked_batch(2, locked()), locked());
    assert!(locked_batch(3, locked()).is_empty());
}

#[test]
fn scans_for_expired_leases_go_on_behind_full_pages() {
    let page = |count: i64| (0..count).map(|id| (7, id)).collect::<Vec<_>>();
    assert_eq!(next_expired_page(&page(0)), None);
    assert_eq!(next_expired_page(&page(31)), None);
    assert_eq!(next_expired_page(&page(32)), Some((7, 31)));
    let config = CoordinatorConfig::default();
    assert_eq!(claim_expiry(&config, 5).expect("expiry"), 30_005);
    assert!(claim_expiry(&config, i64::MAX).is_err());
}

#[test]
fn batches_stay_within_their_limits() {
    let mut budget = BatchBudget::new(3);
    assert_eq!(budget.begin_topic(4, 2, 9), 2);
    assert!(budget.wants_more());
    budget.record_claim();
    budget.record_claim();
    assert!(!budget.wants_more());
    assert_eq!(budget.begin_topic(10, 0, 9), 1);
    assert_eq!(budget.begin_topic(1, 5, 9), 0);
}

#[test]
fn handler_results_become_outcomes() {
    assert_eq!(retryable().trace_name(), "retryable");
    let permanent = dispatch_outcome(Err(ActivityDispatchError::Handler(
        ActivityError::permanent("input", "bad"),
    )));
    assert_eq!(permanent.trace_name(), "permanent");
    let error = ActivityDispatchError::Durable(DurableError::FencedWrite);
    assert!(error.message().starts_with("activity dispatch serialization failed: "));
    assert_eq!(dispatch_outcome(Err(error)).trace_name(), "permanent");
    assert_eq!(dispatch_outcome(Ok("1".to_string())).trace_name(), "succeeded");
    assert!(validate_worker("", &WorkerConfig::default()).is_err());
}

#[test]
fn executions_settle_after_their_heartbeat() {
    let mut execution = Execution::start();
    let reaction = execution.receive(ExecutionSignal::HandlerReturned(Ok("1".to_string())));
    assert!(reaction.stop_heartbeat);
    assert!(matches!(execution.next_step(), NextStep::Wait));
    execution.receive(ExecutionSignal::HeartbeatStopped);
    assert!(matches!(
        execution.next_step(),
        NextStep::Settle(ExecutionOutcome::Succeeded(output)) if output == "1"
    ));
}

#[test]
fn forced_executions_are_abandoned() {
    let mut execution = Execution::start();
    execution.receive(ExecutionSignal::ForcedCancellation);
    execution.receive(ExecutionSignal::HandlerReturned(Ok("1".to_string())));
    execution.receive(ExecutionSignal::HeartbeatStopped);
    assert!(matches!(execution.next_step(), NextStep::Abandon));
}

fn leased(row: WorkflowRow) -> WorkflowClaim {
    claim_row(row, "a:coordinator", "t1".to_string(), 40_000, 10_000)
}

fn started_row() -> WorkflowEventRow {
    WorkflowEventRow {
        id: 1,
        workflow_id: 3,
        sequence: 1,
        delivery_sequence: Some(1),
        event_type: "started".to_string(),
        metadata_json: None,
        actor_type: None,
        actor_id: None,
        reason: None,
        created_at: 1,
    }
}

#[test]
fn ready_workflows_are_claimed_and_recovered() {
    let row = workflow(3, WorkflowStatus::Ready);
    assert!(is_claimable(&row, &workflows(), 10));
    assert!(!is_claimable(&row, &workflows(), 9));
    let claim = claim_workflow(row, "a:coordinator", &CoordinatorConfig::default(), 10_000)
        .expect("claim");
    assert_eq!(claim.lease_token().len(), 36);
    assert_eq!(claim.row().lease_expires_at, Some(40_000));
    assert!(!is_recoverable(claim.row(), 39_999));
    assert!(is_recoverable(claim.row(), 40_000));
    let (recovered, event) = recover_lease(claim.row().clone(), 40_000);
    assert_eq!(recovered.status, WorkflowStatus::Ready);
    assert_eq!(event.event_type, "lease_recovered");
    let late = commit_activation(
        Some(&recovered),
        &claim,
        &started_row(),
        StoredTransition::Complete { output_json: "1".to_string() },
        &CoordinatorConfig::default(),
        41_000,
    );
    assert!(matches!(late, Err(DurableError::FencedWrite)));
}

#[test]
fn commits_follow_their_transition() {
    let claim = leased(workflow(3, WorkflowStatus::Ready));
    let commit = |transition| {
        commit_activation(
            Some(claim.row()),
            &claim,
            &started_row(),
            transition,
            &CoordinatorConfig::default(),
            11_000,
        )
        .expect("plan")
    };
    match commit(StoredTransition::Complete { output_json: "1".to_string() }) {
        CommitPlan::Completed { next, .. } => {
            assert_eq!(next.status, WorkflowStatus::Succeeded);
            assert_eq!(next.completed_at, Some(11_000));
            assert_eq!(next.delivered_event_sequence, 1);
        }
        _ => panic!("expected completion"),
    }
    match commit(StoredTransition::SleepUntil { state_json: "{}".to_string(), wake_at_millis: 99 }) {
        CommitPlan::Sleeping { next, .. } => {
            assert_eq!(next.status, WorkflowStatus::Sleeping);
            assert_eq!(next.wait_reference_id, Some(1));
            assert_eq!(next.available_at, 99);
        }
        _ => panic!("expected a timer"),
    }
    match commit(StoredTransition::Continue { state_json: "{}".to_string() }) {
        CommitPlan::Ready { next, event } => {
            assert_eq!(next.consecutive_continuations, 1);
            assert_eq!(event.delivery_sequence, Some(2));
        }
        _ => panic!("expected a continuation"),
    }
    let child = ChildWorkflowCommand {
        kind: "greet".to_string(),
        version: 1,
        input_json: "{}".to_string(),
        state_json: "{}".to_string(),
        deduplication_key: None,
    };
    match commit(StoredTransition::RunChild { state_json: "{}".to_string(), child }) {
        CommitPlan::Child { deduplication_key, root_workflow_id, next, .. } => {
            assert_eq!(deduplication_key, "child:3:1");
            assert_eq!(root_workflow_id, 3);
            assert_eq!(with_reference(next, 8).wait_reference_id, Some(8));
        }
        _ => panic!("expected a child"),
    }
}

fn command() -> ActivityCommand {
    ActivityCommand {
        kind: "send".to_string(),
        version: 1,
        topic: "email".to_string(),
        payload_json: "{}".to_string(),
        max_attempts: 3,
        timeout: Duration::from_secs(30),
        lease_duration: Duration::from_secs(60),
        retry_policy: RetryPolicy::from_validated(BackoffPolicy::Fixed { delay_secs: 5 }),
        operation_key: Some("wf:3:step:1".to_string()),
        continuation_priority: false,
    }
}

#[test]
fn requested_activities_become_rows() {
    let row = activity_row(3, 1, &command(), "{}".to_string(), 500).expect("row");
    assert_eq!(row.timeout_millis, 30_000);
    assert_eq!(row.lease_duration_millis, 60_000);
    assert_eq!(row.available_at, 500);
    let mut urgent = command();
    urgent.continuation_priority = true;
    assert_eq!(activity_row(3, 1, &urgent, "{}".to_string(), 500).expect("row").available_at, 0);
    let request = |kind: &str| {
        let mut activity = command();
        activity.kind = kind.to_string();
        StoredTransition::RunActivity { state_json: "{}".to_string(), activity }
    };
    assert!(check_activation(&request("send"), &workflows(), &activities()).is_none());
    assert!(check_activation(&request("unknown"), &workflows(), &activities()).is_some());
}

#[test]
fn failed_activations_are_retried_and_exhausted() {
    let claim = leased(workflow(3, WorkflowStatus::Ready));
    let config = CoordinatorConfig::default();
    let failure =
        fail_activation_at(claim.row().clone(), &config, "panic", 50, 11_000).expect("settled");
    assert_eq!(failure.next.status, WorkflowStatus::Ready);
    assert_eq!(failure.next.available_at, 12_000);
    assert_eq!(failure.next.activation_attempts, 1);
    let mut tired = claim.row().clone();
    tired.activation_attempts = 7;
    let tired = leased(tired);
    let failure = record_activation_failure(Some(tired.row()), &tired, &config, "panic", 11_000)
        .expect("settled");
    assert_eq!(failure.next.status, WorkflowStatus::Failed);
    assert!(matches!(failure.ended, Some(ChildOutcome::Failed { .. })));
    let gone = workflow(3, WorkflowStatus::Paused);
    assert!(matches!(
        record_activation_failure(Some(&gone), &claim, &config, "panic", 11_000),
        Err(DurableError::FencedWrite)
    ));
    assert!(validate_coordinator("", &config).is_err());
}

#[test]
fn events_are_told_as_they_were_stored() {
    assert!(matches!(decode_event(&started_row()), Ok(EventSource::Started)));
    let mut fired = started_row();
    fired.event_type = "timer_fired".to_string();
    fired.metadata_json = Some("{}".to_string());
    assert!(matches!(decode_event(&fired), Ok(EventSource::Json(text)) if text == "{}"));
    fired.metadata_json = None;
    assert!(decode_event(&fired).is_err());
    assert_eq!(next_event_sequence(None).expect("sequence"), 1);
    assert_eq!(next_event_sequence(Some(4)).expect("sequence"), 5);
    assert!(next_event_sequence(Some(i32::MAX)).is_err());
}

#[test]
fn timers_fire_when_they_are_due() {
    let mut row = workflow(3, WorkflowStatus::Sleeping);
    row.wait_kind = Some("timer".to_string());
    row.wait_reference_id = Some(2);
    row.command_sequence = 2;
    row.available_at = 500;
    assert!(fire_timer(row.clone(), 499).expect("timer").is_none());
    let wake = fire_timer(row, 500).expect("timer").expect("due");
    assert_eq!(wake.next.status, WorkflowStatus::Ready);
    assert!(matches!(wake.event.event, Some(WorkflowEvent::TimerFired { command_sequence: 2 })));
    let stored = event_row(wake.event, 6, Some("{}".to_string()));
    assert_eq!((stored.sequence, stored.delivery_sequence), (6, Some(1)));
}

fn approval(status: &str) -> ApprovalRow {
    ApprovalRow {
        id: 7,
        workflow_id: 3,
        command_sequence: 1,
        kind: "greet".to_string(),
        version: 1,
        prompt_metadata_json: "{}".to_string(),
        validation_schema_json: "{}".to_string(),
        validation_version: 1,
        status: status.to_string(),
        requested_at: 1,
        expires_at: Some(500),
        decision_payload_json: None,
        decided_by: None,
        operator_reason: None,
        resolved_at: None,
    }
}

#[test]
fn approvals_expire_when_they_are_due() {
    let mut row = workflow(3, WorkflowStatus::WaitingApproval);
    row.wait_kind = Some("approval".to_string());
    row.wait_reference_id = Some(7);
    row.command_sequence = 1;
    assert!(expire_approval(row.clone(), approval("pending"), 499).expect("expiry").is_none());
    assert!(expire_approval(row.clone(), approval("approved"), 500).expect("expiry").is_none());
    let expiry = expire_approval(row, approval("pending"), 500).expect("expiry").expect("due");
    assert_eq!(expiry.approval.status, "expired");
    assert_eq!(expiry.next.status, WorkflowStatus::Ready);
}

fn prepared() -> PreparedWorkflowStart {
    PreparedWorkflowStart::from_workflow("greet", 1, "{}".to_string(), "{}".to_string())
        .expect("prepared")
}

fn keyed(key: &str) -> StartOptions {
    StartOptions::default().with_deduplication_key(key.to_string())
}

#[test]
fn starts_with_a_key_are_idempotent() {
    let plan = plan_start(&prepared(), &keyed("k"), None, 100).expect("plan");
    let StartPlan::Insert(row) = plan else {
        panic!("expected an insert");
    };
    assert_eq!(row.deduplication_key.as_deref(), Some("k"));
    assert_eq!(row.status, WorkflowStatus::Ready);
    let mut existing = workflow(9, WorkflowStatus::Running);
    existing.deduplication_key = Some("k".to_string());
    let plan = plan_start(&prepared(), &keyed("k"), Some(&existing), 100).expect("plan");
    assert!(matches!(
        plan,
        StartPlan::Existing(outcome) if outcome.workflow_id.get() == 9 && !outcome.inserted
    ));
    assert!(validate_options(&keyed("")).is_err());
    assert_eq!(settle_start(WorkflowInsert::Inserted(4), false, None).expect("start"), (4, true));
    assert!(settle_start(WorkflowInsert::DeduplicationConflict, true, None).is_err());
    assert!(matches!(
        restart_conflict(Some(7)),
        DurableError::Conflict(reason) if reason == "workflow 7 already has a successor"
    ));
    assert!(matches!(
        restart_conflict(None),
        DurableError::Conflict(reason)
            if reason == "workflow insert conflicted without a deduplication or restart key"
    ));
}

#[test]
fn blocked_workflows_are_superseded() {
    let mut blocked = workflow(9, WorkflowStatus::Blocked);
    blocked.deduplication_key = Some("k".to_string());
    let plan = plan_recoverable_start(
        &prepared(),
        keyed("k"),
        Some((&blocked, blocked.clone())),
        100,
    )
    .expect("plan");
    match plan {
        RecoverablePlan::Supersede { cancelled, insert } => {
            assert_eq!(cancelled.expect("cancelled").0.status, WorkflowStatus::Cancelled);
            assert_eq!(insert.root_workflow_id, Some(9));
            assert_eq!(insert.restarted_from_workflow_id, Some(9));
        }
        _ => panic!("expected a successor"),
    }
    let mut running = blocked.clone();
    running.status = WorkflowStatus::Running;
    let plan = plan_recoverable_start(
        &prepared(),
        keyed("k"),
        Some((&running, running.clone())),
        100,
    )
    .expect("plan");
    assert!(matches!(plan, RecoverablePlan::Existing(_)));
}

#[test]
fn children_wake_their_parents() {
    let child = ChildWorkflowCommand {
        kind: "greet".to_string(),
        version: 1,
        input_json: "{}".to_string(),
        state_json: "{}".to_string(),
        deduplication_key: None,
    };
    let plan = plan_child(&child, "child:3:1".to_string(), None, 3, 1, 3, 100).expect("plan");
    let StartPlan::Insert(row) = plan else {
        panic!("expected an insert");
    };
    assert_eq!((row.parent_workflow_id, row.root_workflow_id), (Some(3), Some(3)));
    let mut parent = workflow(3, WorkflowStatus::WaitingChild);
    parent.wait_kind = Some("child".to_string());
    parent.wait_reference_id = Some(8);
    parent.command_sequence = 1;
    let outcome = ChildOutcome::Succeeded { output_json: "1".to_string() };
    let wake = wake_parent(parent.clone(), 8, "greet", 1, &outcome, 200)
        .expect("wake")
        .expect("waits");
    assert_eq!(wake.next.status, WorkflowStatus::Ready);
    assert!(wake_parent(parent, 9, "greet", 1, &outcome, 200).expect("wake").is_none());
    let mut done = workflow(8, WorkflowStatus::Succeeded);
    done.result_json = Some("1".to_string());
    assert!(matches!(
        terminal_child_outcome(&done),
        Some(ChildOutcome::Succeeded { output_json }) if output_json == "1"
    ));
    assert!(terminal_child_outcome(&workflow(8, WorkflowStatus::Running)).is_none());
}

#[test]
fn cancellations_end_what_is_open() {
    let cancelled = cancel_workflow(workflow(3, WorkflowStatus::Sleeping), "no", None, 100)
        .expect("cancelled")
        .expect("open");
    assert_eq!(cancelled.next.status, WorkflowStatus::Cancelled);
    assert!(cancel_workflow(workflow(3, WorkflowStatus::Succeeded), "no", None, 100)
        .expect("cancelled")
        .is_none());
    let (claim, _) = claim(activity(ActivityStatus::Pending), "t1", 1_000);
    let ended = cancel_activity(claim.row().clone(), "cancelled", "no", 2_000)
        .expect("cancelled")
        .expect("open");
    assert_eq!(ended.next.status, ActivityStatus::Cancelled);
    assert!(ended.attempt.is_some());
    assert!(cancel_activity(activity(ActivityStatus::Succeeded), "cancelled", "no", 2_000)
        .expect("cancelled")
        .is_none());
}
