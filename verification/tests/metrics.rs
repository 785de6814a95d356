use durable_workflows::admin::metrics::{
    age, empty_hourly_throughput, hour_bucket_bounds, hour_bucket_start, hourly_window,
    nonnegative_count, page_approvals, passes_status, validate_approval_filter, validate_now,
    HOURLY_BUCKET_COUNT, HOUR_MILLIS,
};
use durable_workflows::admin::query::ApprovalProjection;
use durable_workflows::admin::schedules::{
    check_recent_run_limit, merge_schedule_keys, page_schedule_keys, page_schedule_runs,
    schedule_counts, schedule_summary, ScheduleRunProjection,
};
use durable_workflows::admin::topic_metrics::{
    candidate_roots, load_topic_metrics, page_topics, TopicRows,
};
use durable_workflows::admin::types::{
    ApprovalListFilter, PageRequest, ScheduleHealthIssue,
};
use durable_workflows::persistence::models::ScheduleStateRow;
use durable_workflows::persistence::status::{ActivityStatus, WorkflowStatus};
use durable_workflows::schedule::registry::{
    MisfirePolicy, OverlapPolicy, ScheduleDefinitionMetadata,
};
use durable_workflows::topics::TopicRegistry;

#[test]
fn age_is_none_without_timestamp() {
    assert_eq!(age(1_000, None), None);
}

#[test]
fn age_is_delta_when_timestamp_is_in_the_past() {
    assert_eq!(age(1_000, Some(250)), Some(750));
}

#[test]
fn age_clamps_future_timestamps_to_zero() {
    assert_eq!(age(1_000, Some(1_500)), Some(0));
}

#[test]
fn hour_bucket_start_aligns_to_hour_boundaries() {
    assert_eq!(hour_bucket_start(0), 0);
    assert_eq!(hour_bucket_start(HOUR_MILLIS - 1), 0);
    assert_eq!(hour_bucket_start(HOUR_MILLIS), HOUR_MILLIS);
    assert_eq!(hour_bucket_start(100_000_000), 97_200_000);
}

#[test]
fn hours_before_the_epoch_start_at_their_boundary() {
    assert_eq!(hour_bucket_start(-1), -HOUR_MILLIS);
    assert_eq!(hour_bucket_start(-HOUR_MILLIS), -HOUR_MILLIS);
}

#[test]
fn hourly_window_covers_twenty_four_hours_ending_at_now() {
    let now = 100_000_000;
    let window = hourly_window(now);
    assert_eq!(window.first_hour, 14_400_000);
    assert_eq!(window.exclusive_end, now + 1);
    let buckets = empty_hourly_throughput(window);
    assert_eq!(buckets.len(), HOURLY_BUCKET_COUNT);
    assert_eq!(buckets[0].starts_at, window.first_hour);
    assert_eq!(buckets[23].starts_at, 97_200_000);
    assert!(buckets.iter().all(|bucket| bucket.completed_count == 0));
}

#[test]
fn hour_bucket_bounds_clip_the_current_hour_to_now() {
    let window = hourly_window(100_000_000);
    assert_eq!(
        hour_bucket_bounds(window, 0),
        (window.first_hour, window.first_hour + HOUR_MILLIS)
    );
    assert_eq!(hour_bucket_bounds(window, 23), (97_200_000, 100_000_001));
}

#[test]
fn buckets_partition_the_window() {
    let window = hourly_window(100_000_000);
    for index in 0..HOURLY_BUCKET_COUNT - 1 {
        let (_, end) = hour_bucket_bounds(window, index);
        let (start, _) = hour_bucket_bounds(window, index + 1);
        assert_eq!(end, start);
    }
}

#[test]
fn counts_and_times_must_not_be_negative() {
    assert_eq!(nonnegative_count(3).expect("count"), 3);
    assert_eq!(
        nonnegative_count(-1).expect_err("refused").message(),
        "invalid durable state: negative aggregate count"
    );
    assert!(validate_now(0).is_ok());
    assert!(validate_now(-1).is_err());
    assert_eq!(
        schedule_counts(1, 2, -3).expect_err("refused").message(),
        "invalid durable state: negative aggregate count"
    );
    assert_eq!(schedule_counts(1, 2, 3).expect("counts"), (1, 2, 3));
}

fn topics() -> TopicRegistry {
    let mut topics = TopicRegistry::new();
    topics.register("email", 4).expect("topic");
    topics.register("fax", 2).expect("topic");
    topics.register("pdf", 1).expect("topic");
    topics
}

fn no_rows() -> TopicRows {
    TopicRows {
        persisted_caps: vec![],
        active: vec![],
        dead_letters: vec![],
        resolved: vec![],
        ready: vec![],
        retries: vec![],
        oldest_active: vec![],
        hourly: vec![],
    }
}

#[test]
fn topic_metrics_show_the_load_of_each_topic() {
    let definitions = topics().definitions();
    let mut rows = no_rows();
    rows.persisted_caps = vec![("email".to_string(), 3), ("fax".to_string(), 2)];
    rows.active = vec![("email".to_string(), (ActivityStatus::Running, 5))];
    rows.dead_letters = vec![
        ("fax".to_string(), (10, None)),
        ("fax".to_string(), (11, Some(9))),
        ("email".to_string(), (12, None)),
    ];
    rows.resolved = vec![(20, Some(9))];
    rows.ready = vec![("fax".to_string(), (7, Some(99_000_000)))];
    rows.retries = vec![("pdf".to_string(), 1)];
    rows.oldest_active = vec![("email".to_string(), Some(100_000_500))];
    rows.hourly = vec![vec![]; 24];
    rows.hourly[23] = vec![("email".to_string(), 8), ("unknown".to_string(), -1)];
    let items = load_topic_metrics(&definitions, &rows, 100_000_000).expect("metrics");
    assert_eq!(items.len(), 3);
    let email = &items[0];
    assert_eq!(email.topic, "email");
    assert_eq!((email.max_concurrency, email.configured_max_concurrency), (3, 4));
    assert!(email.configuration_mismatch);
    assert_eq!((email.active_count, email.available_capacity), (5, 0));
    assert_eq!(email.oldest_active_age_millis, Some(0));
    assert_eq!(email.dead_letter_count, 1);
    assert_eq!(email.hourly_throughput[23].completed_count, 8);
    assert_eq!(email.hourly_throughput[22].completed_count, 0);
    let fax = &items[1];
    assert!(!fax.configuration_mismatch);
    assert_eq!((fax.ready_count, fax.oldest_ready_age_millis), (7, Some(1_000_000)));
    assert_eq!(fax.dead_letter_count, 1);
    assert_eq!(fax.available_capacity, 2);
    let pdf = &items[2];
    assert!(pdf.configuration_mismatch);
    assert_eq!(pdf.retry_scheduled_count, 1);
    assert_eq!(pdf.captured_at, 100_000_000);
}

#[test]
fn unsound_topic_rows_are_refused() {
    let definitions = topics().definitions();
    let mut rows = no_rows();
    rows.persisted_caps = vec![("fax".to_string(), -2)];
    assert_eq!(
        load_topic_metrics(&definitions, &rows, 0).expect_err("refused").message(),
        "invalid durable state: activity topic fax has invalid persisted concurrency limit -2"
    );
    let mut rows = no_rows();
    rows.hourly = vec![vec![("fax".to_string(), -1)]];
    assert!(load_topic_metrics(&definitions, &rows, 0).is_err());
    assert!(load_topic_metrics(&vec![], &rows, 0).expect("metrics").is_empty());
}

#[test]
fn roots_are_looked_up_once() {
    let letters = vec![
        ("fax".to_string(), (5, Some(2))),
        ("fax".to_string(), (2, None)),
        ("email".to_string(), (1, None)),
    ];
    assert_eq!(candidate_roots(&letters), vec![1, 2]);
}

#[test]
fn topic_pages_continue_where_they_ended() {
    let definitions = topics().definitions();
    let (first, cursor) = page_topics(definitions, None, 2).expect("page");
    assert_eq!(first.len(), 2);
    assert!(cursor.is_some());
    let after = durable_workflows::admin::metrics::decode_string_cursor(
        "topics",
        cursor.expect("cursor").as_str(),
    )
    .expect("position");
    assert_eq!(after, "fax");
    let (second, cursor) = page_topics(topics().definitions(), Some(&after), 2).expect("page");
    assert_eq!(second.len(), 1);
    assert_eq!(second[0].key, "pdf");
    assert!(cursor.is_none());
}

#[test]
fn string_cursors_hold_no_time() {
    let numeric = durable_workflows::admin::cursor::encode_cursor(
        "topics",
        &durable_workflows::admin::cursor::CursorPosition {
            timestamp: 5,
            tie_breaker: "fax".to_string(),
        },
    )
    .expect("cursor");
    assert_eq!(
        durable_workflows::admin::metrics::decode_string_cursor("topics", &numeric)
            .expect_err("refused")
            .message(),
        "invalid durable admin cursor: string cursor position is invalid"
    );
}

#[test]
fn approval_filters_are_checked() {
    let filter = |version, after, before| ApprovalListFilter {
        page: PageRequest { cursor: None, limit: None },
        workflow_id: None,
        kind: None,
        version,
        status: None,
        requested_after: after,
        requested_before: before,
    };
    assert!(validate_approval_filter(&filter(Some(1), Some(1), Some(2))).is_ok());
    assert_eq!(
        validate_approval_filter(&filter(Some(0), None, None)).expect_err("refused").message(),
        "invalid durable definition: approval version filter must be positive"
    );
    assert_eq!(
        validate_approval_filter(&filter(None, Some(2), Some(2))).expect_err("refused").message(),
        "invalid durable definition: requestedAfter must precede requestedBefore"
    );
}

fn approval(id: i64, status: &str, expires_at: Option<i64>) -> ApprovalProjection {
    ApprovalProjection {
        id,
        workflow_id: 3,
        kind: "release".to_string(),
        version: 1,
        status: status.to_string(),
        decision_bytes: None,
        decided_by: None,
        operator_reason: None,
        requested_at: 50,
        expires_at,
        resolved_at: None,
    }
}

#[test]
fn expired_approvals_are_listed_as_expired() {
    let rows = vec![approval(9, "pending", Some(100)), approval(8, "pending", None)];
    let page = page_approvals(rows, 5, 100).expect("page");
    assert_eq!(page.items[0].status, "expired");
    assert_eq!(page.items[1].status, "pending");
    assert!(page.next_cursor.is_none());
    assert!(passes_status("expired", "pending", Some(100), 100));
    assert!(!passes_status("pending", "pending", Some(100), 100));
    assert!(passes_status("pending", "pending", None, 100));
    assert!(passes_status("approved", "approved", None, 100));
    let rows = vec![approval(9, "pending", None), approval(8, "pending", None)];
    assert!(page_approvals(rows, 1, 100).expect("page").next_cursor.is_some());
    assert!(page_approvals(vec![approval(0, "pending", None)], 1, 100).is_err());
}

fn state(key: &str, version: i32) -> ScheduleStateRow {
    ScheduleStateRow {
        schedule_key: key.to_string(),
        definition_fingerprint: "f".to_string(),
        definition_version: version,
        next_local_occurrence: "2026-01-01T00:00:00".to_string(),
        next_occurrence_at: 1,
        last_materialized_at: None,
        paused_at: None,
        paused_by: None,
        pause_reason: None,
        created_at: 1,
        updated_at: 1,
    }
}

fn definition(version: i32) -> ScheduleDefinitionMetadata {
    ScheduleDefinitionMetadata {
        key: "daily".to_string(),
        version,
        fingerprint: "f".to_string(),
        cron: "0 0 8 * * *".to_string(),
        timezone: "UTC".to_string(),
        misfire: MisfirePolicy::Skip,
        overlap: OverlapPolicy::Allow,
        misfire_grace_millis: 60_000,
    }
}

#[test]
fn schedule_summaries_name_disagreements() {
    let row = state("daily", 2);
    let metadata = definition(1);
    let mismatch = schedule_summary("daily", Some(&metadata), Some(&row), (1, 2, 3), vec![]);
    assert_eq!(
        mismatch.health_issues,
        vec![ScheduleHealthIssue::DefinitionMismatch { registered_version: 1, persisted_version: 2 }]
    );
    assert_eq!(mismatch.skipped_count, 2);
    let missing = schedule_summary("daily", Some(&metadata), None, (0, 0, 0), vec![]);
    assert_eq!(missing.health_issues, vec![ScheduleHealthIssue::MissingState]);
    let unregistered = schedule_summary("daily", None, Some(&row), (0, 0, 0), vec![]);
    assert_eq!(unregistered.health_issues, vec![ScheduleHealthIssue::UnregisteredState]);
    let metadata = definition(2);
    let healthy = schedule_summary("daily", Some(&metadata), Some(&row), (0, 0, 0), vec![]);
    assert!(healthy.health_issues.is_empty());
    assert!(healthy.last_run.is_none());
}

#[test]
fn schedule_keys_are_merged_and_paged() {
    let registered = vec!["daily".to_string(), "weekly".to_string(), "alpha".to_string()];
    let persisted = vec!["daily".to_string(), "monthly".to_string()];
    let keys = merge_schedule_keys(&registered, Some("alpha"), &persisted);
    assert_eq!(keys, vec!["daily", "monthly", "weekly"]);
    let (page, cursor) = page_schedule_keys(keys, 2).expect("page");
    assert_eq!(page, vec!["daily", "monthly"]);
    assert!(cursor.is_some());
    assert!(check_recent_run_limit(20).is_ok());
    assert!(check_recent_run_limit(21).is_err());
    assert!(check_recent_run_limit(0).is_err());
}

#[test]
fn schedule_runs_are_paged() {
    let run = |id, scheduled_for| ScheduleRunProjection {
        id,
        schedule_key: "daily".to_string(),
        local_occurrence: "2026-01-01T08:00:00".to_string(),
        scheduled_for,
        materialized_at: 1,
        status: "started".to_string(),
        reason: None,
        actor_id: None,
        workflow_id: Some(4),
        created_at: 1,
        workflow_status: Some(WorkflowStatus::WaitingActivity),
        workflow_completed_at: None,
    };
    let page = page_schedule_runs("daily", vec![run(2, 20), run(1, 10)], 1).expect("page");
    assert_eq!(page.items.len(), 1);
    assert_eq!(page.items[0].workflow_status.as_deref(), Some("waiting_activity"));
    assert!(page.next_cursor.is_some());
    assert!(page_schedule_runs("daily", vec![run(0, 20)], 1).is_err());
}
