use durable_workflows::admin::control::{
    cancel_for_operator, check_restart, operator_actor_id, pause_activity, pause_workflow,
    plan_retry, replacement_row, resolve_approval, resume_workflow, retry_blocked,
    run_schedule_now, set_schedule_paused,
};
use durable_workflows::admin::cursor::{
    decode_cursor, encode_cursor, scoped_cursor_scope, CursorPosition,
};
use durable_workflows::admin::query::{
    activity_page, decode_numeric_cursor, detail_query, is_behind, page_activities, page_workflows,
    validate_activity_filter, validate_workflow_filter, workflow_detail_summary,
    ActivityDetailProjection, ActivityProjection, AttemptDetailProjection,
    WorkflowDetailProjection, WorkflowProjection,
};
use durable_workflows::admin::timeline::{
    decode_timeline_cursor, scope_of, timeline_filter, timeline_key, timeline_page,
    EventProjection, TimelineCursor, TimelineFilter, TimelineRows,
};
use durable_workflows::admin::types::{
    ActivityDetailRequest, ActivityListFilter, JsonFieldSummary, Operator, PageRequest,
    TimelineEntry, WorkflowListFilter, MAX_ADMIN_PAGE_SIZE,
};
use durable_workflows::duration::Duration;
use durable_workflows::ids::{ActivityId, ApprovalId, WorkflowId};
use durable_workflows::persistence::models::{
    ActivityRow, ApprovalRow, ProgressEventRow, ScheduleStateRow, WorkflowRow,
};
use durable_workflows::persistence::status::{ActivityStatus, WorkflowStatus};
use durable_workflows::policy::{BackoffPolicy, RetryPolicy};
use durable_workflows::schedule::registry::{
    MisfirePolicy, OverlapPolicy, ScheduleDefinitionMetadata,
};
use durable_workflows::transition::{ActivityCommand, WorkflowEvent};

fn operator() -> Operator {
    Operator::new("17", "because").expect("operator")
}

fn workflow_id(id: i64) -> WorkflowId {
    WorkflowId::new(id).expect("workflow id")
}

fn workflow(status: WorkflowStatus) -> WorkflowRow {
    WorkflowRow {
        id: 3,
        kind: "greet".to_string(),
        version: 1,
        input_json: "{}".to_string(),
        state_json: "{}".to_string(),
        state_version: 0,
        status,
        result_json: None,
        error_category: None,
        error_message: None,
        wait_kind: None,
        wait_reference_id: None,
        available_at: 10,
        activation_attempts: 0,
        max_activation_attempts: 8,
        consecutive_continuations: 0,
        lease_owner: None,
        lease_token: None,
        lease_expires_at: None,
        deduplication_key: None,
        schedule_run_id: None,
        root_workflow_id: None,
        restarted_from_workflow_id: None,
        parent_workflow_id: None,
        parent_command_sequence: None,
        command_sequence: 1,
        delivered_event_sequence: 1,
        created_at: 1,
        updated_at: 1,
        completed_at: None,
    }
}

fn waiting(status: WorkflowStatus, kind: &str, reference: i64) -> WorkflowRow {
    let mut row = workflow(status);
    row.wait_kind = Some(kind.to_string());
    row.wait_reference_id = Some(reference);
    row
}

fn running_activity() -> ActivityRow {
    ActivityRow {
        id: 5,
        workflow_id: 3,
        command_sequence: 1,
        replacement_number: 0,
        kind: "send".to_string(),
        version: 1,
        topic: "email".to_string(),
        payload_json: "{}".to_string(),
        status: ActivityStatus::Running,
        available_at: 10,
        max_attempts: 2,
        attempt_count: 1,
        timeout_millis: 30_000,
        lease_duration_millis: 60_000,
        retry_policy_json: "{}".to_string(),
        operation_key: Some("wf:3:step:1".to_string()),
        provider_result_json: None,
        last_error_category: None,
        last_error_message: None,
        lease_owner: Some("worker".to_string()),
        lease_token: Some("t1".to_string()),
        lease_expires_at: Some(61_000),
        root_activity_id: None,
        replaces_activity_id: None,
        created_at: 1,
        updated_at: 1,
        completed_at: None,
    }
}

#[test]
fn operators_name_themselves_and_their_reason() {
    assert!(Operator::new("", "because").is_err());
    assert!(Operator::new("17", "  ").is_err());
    assert_eq!(operator_actor_id(&operator()).expect("actor"), 17);
    let named = Operator::new("jo", "because").expect("operator");
    assert!(operator_actor_id(&named).is_err());
}

#[test]
fn a_pause_is_undone_by_a_resume() {
    let row = waiting(WorkflowStatus::WaitingActivity, "activity", 5);
    let paused = pause_workflow(workflow_id(3), row, &operator(), 100).expect("paused");
    assert_eq!(paused.next.status, WorkflowStatus::Paused);
    assert_eq!(paused.outcome.status, "paused");
    let resumed = resume_workflow(
        workflow_id(3),
        paused.next,
        Some(ActivityStatus::Pending),
        None,
        None,
        &operator(),
        200,
    )
    .expect("resumed");
    assert_eq!(resumed.next.status, WorkflowStatus::WaitingActivity);
    assert!(
        pause_workflow(workflow_id(3), workflow(WorkflowStatus::Succeeded), &operator(), 100)
            .is_err()
    );
}

#[test]
fn a_pause_gives_the_attempt_back() {
    let paused = pause_activity(running_activity(), &operator(), 100)
        .expect("paused")
        .expect("running");
    assert_eq!(paused.next.status, ActivityStatus::Pending);
    assert_eq!(paused.next.lease_token, None);
    assert_eq!(paused.attempt.finished_at, 100);
}

#[test]
fn operators_cancel_and_restart() {
    let (cancelled, outcome) =
        cancel_for_operator(workflow_id(3), workflow(WorkflowStatus::Blocked), &operator(), 100)
            .expect("cancelled");
    assert_eq!(cancelled.next.status, WorkflowStatus::Cancelled);
    assert_eq!(outcome.status, "cancelled");
    assert!(
        cancel_for_operator(workflow_id(3), workflow(WorkflowStatus::Cancelled), &operator(), 100)
            .is_err()
    );
    assert!(check_restart(workflow_id(3), &workflow(WorkflowStatus::Failed), false).is_ok());
    assert!(check_restart(workflow_id(3), &workflow(WorkflowStatus::Failed), true).is_err());
    assert!(check_restart(workflow_id(3), &workflow(WorkflowStatus::Running), false).is_err());
}

fn command() -> ActivityCommand {
    ActivityCommand {
        kind: "send".to_string(),
        version: 1,
        topic: "email".to_string(),
        payload_json: "{}".to_string(),
        max_attempts: 2,
        timeout: Duration::from_secs(30),
        lease_duration: Duration::from_secs(60),
        retry_policy: RetryPolicy::from_validated(BackoffPolicy::Fixed { delay_secs: 5 }),
        operation_key: None,
        continuation_priority: false,
    }
}

#[test]
fn dead_letters_are_replaced() {
    let mut letter = running_activity();
    letter.status = ActivityStatus::DeadLettered;
    letter.lease_owner = None;
    letter.lease_token = None;
    letter.lease_expires_at = None;
    let blocked = waiting(WorkflowStatus::Blocked, "activity", 5);
    let activity_id = ActivityId::new(5).expect("activity id");
    let replacement = plan_retry(activity_id, workflow_id(3), &blocked, &letter, false)
        .expect("replacement");
    assert_eq!((replacement.number, replacement.root_id), (1, 5));
    assert_eq!(replacement.operation_key.as_deref(), Some("wf:3:step:1"));
    let row = replacement_row(&letter, &replacement, &command(), "{}".to_string(), 100)
        .expect("row");
    assert_eq!(row.replaces_activity_id, Some(5));
    let plan = retry_blocked(
        activity_id,
        workflow_id(3),
        blocked,
        6,
        &command(),
        replacement.operation_key,
        false,
        &operator(),
        100,
    )
    .expect("plan");
    assert_eq!(plan.next.status, WorkflowStatus::WaitingActivity);
    assert_eq!(plan.next.wait_reference_id, Some(6));
    assert!(plan_retry(
        activity_id,
        workflow_id(3),
        &workflow(WorkflowStatus::Ready),
        &letter,
        false
    )
    .is_err());
}

fn approval() -> ApprovalRow {
    ApprovalRow {
        id: 7,
        workflow_id: 3,
        command_sequence: 1,
        kind: "greet".to_string(),
        version: 1,
        prompt_metadata_json: "{}".to_string(),
        validation_schema_json: "{}".to_string(),
        validation_version: 1,
        status: "pending".to_string(),
        requested_at: 1,
        expires_at: None,
        decision_payload_json: None,
        decided_by: None,
        operator_reason: None,
        resolved_at: None,
    }
}

#[test]
fn approvals_are_resolved_once() {
    let row = waiting(WorkflowStatus::WaitingApproval, "approval", 7);
    let approval_id = ApprovalId::new(7).expect("approval id");
    let event = durable_workflows::admin::control::approval_event(&row, &approval(), "true")
        .expect("event");
    assert!(matches!(event, WorkflowEvent::ApprovalResolved { command_sequence: 1, .. }));
    let plan = resolve_approval(
        approval_id,
        workflow_id(3),
        row,
        approval(),
        "true",
        "{}",
        &operator(),
        17,
        100,
    )
    .expect("plan");
    assert_eq!(plan.approval.status, "resolved");
    assert_eq!(plan.workflow.status, WorkflowStatus::Ready);
    assert_eq!(plan.event.delivery_sequence, Some(2));
    let checked = durable_workflows::admin::control::check_resolution(
        approval_id,
        workflow_id(3),
        &plan.workflow,
        &plan.approval,
        100,
    );
    assert!(checked.is_err());
    let again = resolve_approval(
        approval_id,
        workflow_id(3),
        plan.workflow,
        plan.approval,
        "true",
        "{}",
        &operator(),
        17,
        100,
    )
    .expect_err("already resolved");
    assert_eq!(
        again.message(),
        "durable operation conflicts with current state: approval 7 is already resolved"
    );
}

#[test]
fn refused_approvals_are_not_resolved() {
    let resolve = |row, approval, metadata: &str| {
        resolve_approval(
            ApprovalId::new(7).expect("approval id"),
            workflow_id(3),
            row,
            approval,
            "true",
            metadata,
            &operator(),
            17,
            100,
        )
    };
    let row = || waiting(WorkflowStatus::WaitingApproval, "approval", 7);
    let mut expired = approval();
    expired.expires_at = Some(100);
    assert!(resolve(row(), expired, "{}").is_err());
    assert!(resolve(waiting(WorkflowStatus::WaitingApproval, "timer", 7), approval(), "{}").is_err());
    let mut negative = approval();
    negative.command_sequence = -1;
    assert!(resolve(row(), negative, "{}").is_err());
    let mut last = row();
    last.delivered_event_sequence = i32::MAX;
    assert!(resolve(last, approval(), "{}").is_err());
    assert!(resolve(row(), approval(), &"x".repeat(1_000_000)).is_err());
    let mut paused = row();
    paused.status = WorkflowStatus::Paused;
    let plan = resolve(paused, approval(), "{}").expect("plan");
    assert_eq!(plan.workflow.status, WorkflowStatus::Paused);
}

fn state() -> ScheduleStateRow {
    ScheduleStateRow {
        schedule_key: "daily".to_string(),
        definition_fingerprint: "f".to_string(),
        definition_version: 1,
        next_local_occurrence: "2026-01-01T00:00:00".to_string(),
        next_occurrence_at: 1,
        last_materialized_at: None,
        paused_at: None,
        paused_by: None,
        pause_reason: None,
        created_at: 1,
        updated_at: 1,
    }
}

fn definition() -> ScheduleDefinitionMetadata {
    ScheduleDefinitionMetadata {
        key: "daily".to_string(),
        version: 1,
        fingerprint: "f".to_string(),
        cron: "0 0 8 * * *".to_string(),
        timezone: "UTC".to_string(),
        misfire: MisfirePolicy::Skip,
        overlap: OverlapPolicy::Allow,
        misfire_grace_millis: 60_000,
    }
}

#[test]
fn schedules_are_paused_and_run_by_hand() {
    let (paused, outcome) =
        set_schedule_paused(state(), &definition(), true, &operator(), 17, 100).expect("paused");
    assert_eq!((paused.paused_at, paused.paused_by), (Some(100), Some(17)));
    assert!(outcome.paused);
    let (resumed, _) =
        set_schedule_paused(paused, &definition(), false, &operator(), 17, 200).expect("resumed");
    assert_eq!(resumed.paused_at, None);
    let run = run_schedule_now(&state(), &definition(), Some(500), &operator(), 17, 300)
        .expect("run");
    assert!(run.scheduled_for > 500);
    let mut drifted = state();
    drifted.definition_version = 4;
    assert!(run_schedule_now(&drifted, &definition(), None, &operator(), 17, 300).is_err());
}

#[test]
fn pages_are_bounded() {
    let request = |limit| PageRequest { cursor: None, limit };
    assert!(request(Some(0)).bounded_limit(MAX_ADMIN_PAGE_SIZE).is_err());
    assert!(request(Some(MAX_ADMIN_PAGE_SIZE + 1)).bounded_limit(MAX_ADMIN_PAGE_SIZE).is_err());
    assert_eq!(request(Some(3)).bounded_limit(MAX_ADMIN_PAGE_SIZE).expect("limit"), 3);
}

#[test]
fn cursors_give_back_what_they_hold() {
    let position = CursorPosition { timestamp: -5, tie_breaker: "a\"b".to_string() };
    let cursor = encode_cursor("workflows", &position).expect("cursor");
    assert_ne!(cursor, "a\"b");
    let read = decode_cursor("workflows", &cursor).expect("position");
    assert_eq!((read.timestamp, read.tie_breaker.as_str()), (-5, "a\"b"));
    assert!(decode_cursor("activities", &cursor).is_err());
    assert!(decode_cursor("workflows", "%%%").is_err());
    assert!(decode_cursor("workflows", "e30").is_err());
    assert!(encode_cursor("", &position).is_err());
    assert!(decode_numeric_cursor("workflows", &cursor).is_err());
    assert_eq!(scoped_cursor_scope("runs", ""), "runs:cbf29ce484222325");
    assert_ne!(scoped_cursor_scope("runs", "a"), scoped_cursor_scope("runs", "b"));
}

fn listed(id: i64, created_at: i64) -> WorkflowProjection {
    WorkflowProjection {
        id,
        kind: "greet".to_string(),
        version: 1,
        status: WorkflowStatus::Ready,
        wait_kind: None,
        schedule_run_id: None,
        root_workflow_id: None,
        restarted_from_workflow_id: None,
        input_bytes: 2,
        state_bytes: 2,
        result_bytes: None,
        error_category: None,
        error_message: None,
        created_at,
        updated_at: created_at,
        completed_at: None,
    }
}

#[test]
fn workflow_pages_continue_where_they_ended() {
    let page = page_workflows(vec![listed(9, 30), listed(8, 20), listed(7, 20)], 2).expect("page");
    assert_eq!(page.items.len(), 2);
    assert_eq!(page.items[0].status, "ready");
    let place = decode_numeric_cursor("workflows", &page.next_cursor.expect("cursor"))
        .expect("place");
    assert_eq!(place, (20, 8));
    assert!(is_behind(place, 20, 7));
    assert!(!is_behind(place, 20, 8));
    assert!(!is_behind(place, 30, 9));
    assert!(page_workflows(vec![listed(0, 1)], 2).is_err());
}

#[test]
fn filters_are_checked() {
    let mut filter = WorkflowListFilter::default();
    assert!(validate_workflow_filter(&filter).is_ok());
    filter.version = Some(0);
    assert!(validate_workflow_filter(&filter).is_err());
    let mut filter = ActivityListFilter::default();
    filter.created_after = Some(2);
    filter.created_before = Some(2);
    assert!(validate_activity_filter(&filter).is_err());
}

#[test]
fn json_fields_are_summarized() {
    let field = JsonFieldSummary::from_required_json("{\"a\":1}").expect("field");
    assert_eq!((field.present, field.bytes), (true, 7));
    assert_eq!(field.value.as_deref(), Some("{\"a\":1}"));
    assert!(JsonFieldSummary::from_required_json("{").is_err());
    let absent = JsonFieldSummary::from_optional_json(None).expect("field");
    assert!(!absent.present);
}

#[test]
fn workflow_details_show_their_json() {
    let summary = workflow_detail_summary(WorkflowDetailProjection {
        id: 3,
        kind: "greet".to_string(),
        version: 1,
        status: WorkflowStatus::Succeeded,
        wait_kind: None,
        schedule_run_id: None,
        root_workflow_id: Some(2),
        restarted_from_workflow_id: None,
        input_json: "{}".to_string(),
        state_json: "[]".to_string(),
        result_json: Some("1".to_string()),
        error_category: None,
        error_message: None,
        created_at: 1,
        updated_at: 2,
        completed_at: Some(2),
    })
    .expect("summary");
    assert_eq!(summary.root_workflow_id.map(|id| id.get()), Some(2));
    assert_eq!(summary.result.value.as_deref(), Some("1"));
}

fn activity_projection(id: i64) -> ActivityProjection {
    ActivityProjection {
        id,
        workflow_id: 3,
        kind: "send".to_string(),
        version: 1,
        topic: "email".to_string(),
        status: ActivityStatus::Pending,
        replacement_number: 0,
        attempt_count: 0,
        max_attempts: 2,
        operation_key: None,
        root_activity_id: None,
        replaces_activity_id: None,
        payload_bytes: 2,
        provider_result_bytes: None,
        last_error_category: None,
        last_error_message: None,
        available_at: 1,
        created_at: 40,
        updated_at: 1,
        completed_at: None,
    }
}

#[test]
fn activity_pages_and_details_are_read() {
    let page = page_activities(vec![activity_projection(5)], 2).expect("page");
    assert_eq!(page.items[0].payload.bytes, 2);
    let activity_id = ActivityId::new(5).expect("activity id");
    let query = detail_query(activity_id, ActivityDetailRequest::default()).expect("query");
    assert!(query.attempt_after.is_none());
    let mut request = ActivityDetailRequest::default();
    request.attempt_cursor = Some("nonsense".to_string());
    assert!(detail_query(activity_id, request).is_err());
    let row = ActivityDetailProjection {
        id: 5,
        workflow_id: 3,
        kind: "send".to_string(),
        version: 1,
        topic: "email".to_string(),
        status: ActivityStatus::Succeeded,
        replacement_number: 0,
        attempt_count: 1,
        max_attempts: 2,
        operation_key: None,
        root_activity_id: None,
        replaces_activity_id: None,
        payload_json: "{}".to_string(),
        provider_result_json: Some("1".to_string()),
        last_error_category: None,
        last_error_message: None,
        available_at: 1,
        created_at: 1,
        updated_at: 1,
        completed_at: Some(2),
    };
    let attempt = |number| AttemptDetailProjection {
        activity_id: 5,
        attempt_number: number,
        worker_id: "worker".to_string(),
        started_at: 1,
        heartbeat_at: 1,
        finished_at: None,
        outcome: None,
        error_category: None,
        error_message: None,
        provider_result_json: None,
    };
    let detail = activity_page(activity_id, row, vec![attempt(1), attempt(2)], 1, vec![], 1)
        .expect("detail");
    assert_eq!(detail.attempts.items.len(), 1);
    assert!(detail.attempts.next_cursor.is_some());
    assert!(detail.progress.next_cursor.is_none());
}

#[test]
fn timelines_merge_what_happened() {
    let rows = TimelineRows {
        events: vec![EventProjection {
            id: 1,
            event_type: "started".to_string(),
            actor_type: Some("system".to_string()),
            actor_id: None,
            reason: None,
            created_at: 50,
        }],
        activities: vec![activity_projection(5)],
        attempts: vec![],
        progress: vec![ProgressEventRow {
            activity_id: 5,
            attempt_number: 1,
            sequence: 1,
            code: "half".to_string(),
            description: "half way".to_string(),
            description_bytes: 8,
            completed_units: Some(1),
            total_units: Some(2),
            severity: "info".to_string(),
            metadata_json: None,
            created_at: 60,
        }],
        approvals: vec![],
    };
    let page = timeline_page(workflow_id(3), rows, 2).expect("page");
    assert_eq!(page.items.len(), 2);
    assert!(matches!(page.items[0], TimelineEntry::Activity(_)));
    assert!(matches!(page.items[1], TimelineEntry::WorkflowEvent { occurred_at: 50, .. }));
    let scope = scope_of(workflow_id(3));
    let place = decode_timeline_cursor(&scope, &page.next_cursor.expect("cursor")).expect("place");
    assert_eq!((place.timestamp, place.id), (50, 1));
    assert!(matches!(timeline_filter(3, &place), TimelineFilter::NotEarlier(50)));
    assert!(timeline_key(1, &vec![2]) < timeline_key(1, &vec![10]));
}

fn timeline_event(id: i64, created_at: i64) -> EventProjection {
    EventProjection {
        id,
        event_type: format!("event {id}"),
        actor_type: None,
        actor_id: None,
        reason: None,
        created_at,
    }
}

fn timeline_progress(sequence: i32, created_at: i64) -> ProgressEventRow {
    ProgressEventRow {
        activity_id: 5,
        attempt_number: 1,
        sequence,
        code: format!("step {sequence}"),
        description: "step".to_string(),
        description_bytes: 4,
        completed_units: None,
        total_units: None,
        severity: "info".to_string(),
        metadata_json: None,
        created_at,
    }
}

/// The rows of a timeline behind a place, at most so many of each kind.
fn load_timeline(place: Option<&TimelineCursor>, count: usize) -> TimelineRows {
    let passes = |rank: u8, time: i64, numbers: (i64, i32, i32)| match place
        .map(|place| timeline_filter(rank, place))
    {
        None => true,
        Some(TimelineFilter::Later(after)) => time > after,
        Some(TimelineFilter::NotEarlier(from)) => time >= from,
        Some(TimelineFilter::Beyond(at)) => {
            (time, numbers) > (at.timestamp, (at.id, at.attempt_number, at.sequence))
        }
    };
    let events = [(1, 10), (2, 10), (9, 20), (10, 20), (11, 20), (12, 30)];
    let steps = [(1, 10), (2, 20), (9, 20), (10, 20)];
    TimelineRows {
        events: events
            .into_iter()
            .filter(|(id, time)| passes(0, *time, (*id, 0, 0)))
            .take(count)
            .map(|(id, time)| timeline_event(id, time))
            .collect(),
        activities: vec![],
        attempts: vec![],
        progress: steps
            .into_iter()
            .filter(|(sequence, time)| passes(3, *time, (5, 1, *sequence)))
            .take(count)
            .map(|(sequence, time)| timeline_progress(sequence, time))
            .collect(),
        approvals: vec![],
    }
}

#[test]
fn following_the_cursors_lists_every_row_once() {
    let expected = vec![
        "event 1", "event 2", "step 1", "event 9", "event 10", "event 11", "step 2", "step 9",
        "step 10", "event 12",
    ];
    let scope = scope_of(workflow_id(3));
    for limit in 1..=11_u32 {
        let mut listed: Vec<String> = Vec::new();
        let mut place: Option<TimelineCursor> = None;
        loop {
            let rows = load_timeline(place.as_ref(), limit as usize + 1);
            let page = timeline_page(workflow_id(3), rows, limit).expect("page");
            for item in &page.items {
                listed.push(match item {
                    TimelineEntry::WorkflowEvent { event_type, .. } => event_type.clone(),
                    TimelineEntry::Progress(progress) => progress.code.clone(),
                    _ => unreachable!(),
                });
            }
            assert!(!page.items.is_empty());
            match page.next_cursor {
                Some(cursor) => {
                    assert_eq!(page.items.len(), limit as usize);
                    place = Some(decode_timeline_cursor(&scope, &cursor).expect("place"));
                }
                None => break,
            }
        }
        assert_eq!(listed, expected, "{limit} rows a page");
    }
    let none = TimelineRows {
        events: vec![],
        activities: vec![],
        attempts: vec![],
        progress: vec![],
        approvals: vec![],
    };
    let page = timeline_page(workflow_id(3), none, 1).expect("page");
    assert!(page.items.is_empty() && page.next_cursor.is_none());
}

#[test]
fn timeline_keys_order_as_numbers() {
    assert!(timeline_key(0, &vec![9]) < timeline_key(0, &vec![10]));
    assert!(timeline_key(2, &vec![9, 10]) < timeline_key(2, &vec![10, 9]));
    assert!(timeline_key(3, &vec![1, 2, 9]) < timeline_key(3, &vec![1, 2, 10]));
    assert!(timeline_key(7, &vec![1, 1, 1, i64::MAX]) < timeline_key(7, &vec![1, 1, 2, 1]));
    assert!(timeline_key(8, &vec![i64::MAX]) < timeline_key(9, &vec![1]));
    assert_ne!(timeline_key(4, &vec![12, 3]), timeline_key(4, &vec![1, 23]));
}

#[test]
fn cursors_read_back_in_their_scope_only() {
    for tie_breaker in ["1", "a\"b", "\u{1}", "0:00000000000000000009"] {
        let position = CursorPosition { timestamp: -7, tie_breaker: tie_breaker.to_string() };
        let cursor = encode_cursor("workflows", &position).expect("cursor");
        assert!(!cursor.is_empty());
        assert_eq!(decode_cursor("workflows", &cursor).expect("position"), position);
        assert!(decode_cursor("activities", &cursor).is_err());
    }
}
