use durable_workflows::definition::{ActivityContext, DefinitionKey, WorkflowContext};
use durable_workflows::digest::hash_bytes;
use durable_workflows::duration::Duration;
use durable_workflows::error::{ActivityError, DurableError, WorkflowError};
use durable_workflows::ids::{ActivityId, WorkflowId};
use durable_workflows::json::{check_json, integer_member, text_member};
use durable_workflows::observability::{
    emit_readiness_alerts, emit_schedule_materialization_alert, lease_fingerprint, scan_once,
    ActivityAlertRow, HealthAlert, HealthRows, HealthScannerConfig, WorkflowAlertRow,
};
use durable_workflows::payload::{store_transition, PreparedWorkflowStart};
use durable_workflows::persistence::models::{ActivityRow, TopicLockRow};
use durable_workflows::persistence::status::{ActivityStatus, WorkflowStatus};
use durable_workflows::policy::{deterministic_jitter_percentile, RetryPolicy};
use durable_workflows::progress::{
    report, validate_event, ProgressEvent, ProgressReportOutcome, ProgressSeverity,
};
use durable_workflows::readiness::ReadinessReport;
use durable_workflows::registry::{ActivityRegistry, WorkflowRegistry};
use durable_workflows::runtime::activity_worker::check_topic;
use durable_workflows::schedule::registry::{
    MisfirePolicy, OverlapPolicy, ScheduleDefinitionMetadata,
};
use durable_workflows::topics::{SeedEvent, SeedStep, TopicRegistry};
use durable_workflows::transition::StoredTransition;

#[test]
fn deterministic_jitter_percentile_is_bounded_and_stable() {
    let first = deterministic_jitter_percentile(b"activity:1:attempt:2");
    let second = deterministic_jitter_percentile(b"activity:1:attempt:2");
    assert_eq!(first, second);
    assert!(first <= 100);
    let other = deterministic_jitter_percentile(b"activity:2:attempt:2");
    // Different seeds almost always differ; if they collide the bound still holds.
    assert!(other <= 100);
}

#[test]
fn jitter_follows_the_digest_of_its_seed() {
    // The digest of no bytes starts with e3 b0.
    assert_eq!(deterministic_jitter_percentile(b""), (0xb0e3_u32 % 101) as u8);
}

#[test]
fn retry_delays_grow_up_to_their_maximum() {
    let fixed = RetryPolicy::fixed(5).expect("policy");
    assert_eq!(fixed.delay_for_attempt(3, 100).expect("delay"), Duration::from_secs(5));
    let growing = RetryPolicy::exponential(2, 60, 0).expect("policy");
    assert_eq!(growing.delay_for_attempt(1, 50).expect("delay"), Duration::from_secs(2));
    assert_eq!(growing.delay_for_attempt(4, 50).expect("delay"), Duration::from_secs(16));
    assert_eq!(growing.delay_for_attempt(9, 50).expect("delay"), Duration::from_secs(60));
    let spread = RetryPolicy::exponential(100, 100, 20).expect("policy");
    assert_eq!(spread.delay_for_attempt(1, 0).expect("delay"), Duration::from_secs(80));
    assert_eq!(spread.delay_for_attempt(1, 100).expect("delay"), Duration::from_secs(120));
    assert!(RetryPolicy::fixed(0).is_err());
    assert!(RetryPolicy::exponential(30, 5, 20).is_err());
    assert!(growing.delay_for_attempt(0, 50).is_err());
    assert!(growing.delay_for_attempt(1, 101).is_err());
}

#[test]
fn partial_progress_units_must_be_non_negative() {
    for (completed_units, total_units) in [(Some(-1), None), (None, Some(-1))] {
        let mut event = ProgressEvent::new("working", "Still working");
        event.completed_units = completed_units;
        event.total_units = total_units;

        let error = validate_event(&event).expect_err("negative units must be rejected");
        assert!(error.message().contains("0 <= completed <= total"));
    }
}

#[test]
fn progress_events_are_checked() {
    let mut event = ProgressEvent::new("working", "Still working");
    event.completed_units = Some(2);
    event.total_units = Some(1);
    assert!(validate_event(&event).is_err());
    event.total_units = Some(2);
    event.metadata_json = Some("{}".to_string());
    assert!(validate_event(&event).is_ok());
    event.metadata_json = Some("{".to_string());
    assert!(matches!(validate_event(&event), Err(DurableError::Serialization(_))));
    assert!(validate_event(&ProgressEvent::new("", "x")).is_err());
    assert!(validate_event(&ProgressEvent::new("é", "x")).is_err());
    let long = "x".repeat(2_049);
    assert!(matches!(
        validate_event(&ProgressEvent::new("a", &long)),
        Err(DurableError::PayloadTooLarge { .. })
    ));
}

fn running() -> ActivityRow {
    ActivityRow {
        id: 5,
        workflow_id: 3,
        command_sequence: 1,
        replacement_number: 0,
        kind: "send".to_string(),
        version: 1,
        topic: "email".to_string(),
        payload_json: "{}".to_string(),
        status: ActivityStatus::Running,
        available_at: 10,
        max_attempts: 2,
        attempt_count: 1,
        timeout_millis: 30_000,
        lease_duration_millis: 60_000,
        retry_policy_json: "{}".to_string(),
        operation_key: None,
        provider_result_json: None,
        last_error_category: None,
        last_error_message: None,
        lease_owner: Some("worker".to_string()),
        lease_token: Some("t1".to_string()),
        lease_expires_at: Some(61_000),
        root_activity_id: None,
        replaces_activity_id: None,
        created_at: 1,
        updated_at: 1,
        completed_at: None,
    }
}

#[test]
fn progress_is_numbered_and_fenced() {
    let event = || ProgressEvent::new("half", "half way");
    let row = running();
    let first = report(Some(&row), 1, "t1", None, event(), 100).expect("report");
    assert_eq!(first.outcome, ProgressReportOutcome::Persisted { sequence: 1 });
    let stored = first.row.expect("row");
    assert_eq!((stored.sequence, stored.description_bytes), (1, 8));
    assert_eq!(stored.severity, "info");
    let full = report(Some(&row), 1, "t1", Some(100), event(), 100).expect("report");
    assert_eq!(full.outcome, ProgressReportOutcome::LimitReached);
    assert!(full.row.is_none());
    assert!(matches!(
        report(Some(&row), 1, "t2", None, event(), 100),
        Err(DurableError::FencedWrite)
    ));
    assert!(matches!(
        report(Some(&row), 2, "t1", None, event(), 100),
        Err(DurableError::FencedWrite)
    ));
    assert!(matches!(report(None, 1, "t1", None, event(), 100), Err(DurableError::FencedWrite)));
    assert_eq!(ProgressSeverity::Warning.as_str(), "warning");
}

fn registries() -> (WorkflowRegistry<()>, ActivityRegistry<()>, TopicRegistry) {
    let mut workflows = WorkflowRegistry::new();
    workflows.register("greet", 1, ()).expect("registered");
    workflows.register("greet", 2, ()).expect("registered");
    let mut activities = ActivityRegistry::new();
    activities.register("send", 1, "email".to_string(), ()).expect("registered");
    let mut topics = TopicRegistry::new();
    topics.register("email", 4).expect("registered");
    (workflows, activities, topics)
}

#[test]
fn registries_know_their_current_version() {
    let (mut workflows, activities, mut topics) = registries();
    assert!(check_topic(&topics, "email").is_ok());
    assert!(matches!(
        check_topic(&topics, "fax"),
        Err(DurableError::InvalidDefinition(reason))
            if reason == "unregistered activity topic fax"
    ));
    assert_eq!(workflows.current_version("greet"), Some(2));
    assert_eq!(workflows.current_version("leave"), None);
    assert!(matches!(
        workflows.register("greet", 1, ()),
        Err(DurableError::DuplicateDefinition { .. })
    ));
    assert!(workflows.register("greet", 0, ()).is_err());
    assert!(matches!(
        workflows.workflow_definition("greet", 3),
        Err(DurableError::MissingDefinition { version: 3, .. })
    ));
    assert!(matches!(
        workflows.current_definition("leave"),
        Err(DurableError::MissingCurrentDefinition { .. })
    ));
    assert_eq!(activities.topic_for("send", 1), Some("email"));
    assert!(topics.register("email", 5).is_err());
    assert!(topics.register("email", 4).is_ok());
    assert!(topics.register("fax", 0).is_err());
    assert_eq!(topics.len(), 1);
}

fn readiness() -> ReadinessReport {
    let (workflows, activities, topics) = registries();
    ReadinessReport::assemble(
        &workflows,
        &activities,
        &topics,
        vec![("greet".to_string(), 1), ("leave".to_string(), 3)],
        vec![("send".to_string(), 2)],
        vec!["fax".to_string()],
    )
}

#[test]
fn readiness_names_what_is_missing() {
    let report = readiness();
    assert_eq!(report.missing_workflows(), &vec![("leave".to_string(), 3)]);
    assert_eq!(report.missing_activities(), &vec![("send".to_string(), 2)]);
    assert_eq!(report.missing_topics(), &vec!["fax".to_string()]);
    assert!(matches!(report.ensure_ready(), Err(DurableError::MissingDefinitions { .. })));
    let (workflows, activities, topics) = registries();
    let ready =
        ReadinessReport::assemble(&workflows, &activities, &topics, vec![], vec![], vec![]);
    assert!(ready.ensure_ready().is_ok());
    let records = emit_readiness_alerts(&report, 9);
    assert_eq!(records.len(), 3);
    assert_eq!(records[0].alert_kind, "missing_workflow_definition");
    assert_eq!(records[2].topic.as_deref(), Some("fax"));
}

fn letter(id: i64, root: Option<i64>) -> ActivityAlertRow {
    ActivityAlertRow {
        id,
        root_activity_id: root,
        workflow_id: 3,
        kind: "send".to_string(),
        version: 1,
        topic: "email".to_string(),
    }
}

#[test]
fn scans_report_what_is_out_of_order() {
    let rows = HealthRows {
        exhausted: vec![WorkflowAlertRow { id: 4, kind: "greet".to_string(), version: 1 }],
        dead_letters: vec![letter(10, None), letter(11, Some(9)), letter(12, None), letter(13, None)],
        resolved: vec![(20, Some(9))],
        stale_workflows: vec![WorkflowAlertRow { id: 6, kind: "greet".to_string(), version: 2 }],
        stale_activities: vec![letter(30, None)],
    };
    let mut config = HealthScannerConfig::default();
    config.max_alerts_per_kind = 2;
    let report = scan_once(&readiness(), &rows, &config, 500).expect("report");
    let letters: Vec<i64> = report
        .alerts
        .iter()
        .filter_map(|alert| match alert {
            HealthAlert::ActivityDeadLettered { activity_id, .. } => Some(activity_id.get()),
            _ => None,
        })
        .collect();
    assert_eq!(letters, vec![10, 12]);
    assert_eq!(report.alerts.len(), 8);
    let records = report.emit();
    assert_eq!(records.last().map(|record| record.alert_kind), Some("stale_activity"));
    assert!(records.iter().all(|record| record.captured_at == 500));
    assert_eq!(config.stale_before(1_000_000).expect("time"), 700_000);
    config.max_alerts_per_kind = 0;
    assert!(config.validate().is_err());
    let broken = HealthRows {
        exhausted: vec![WorkflowAlertRow { id: 0, kind: "greet".to_string(), version: 1 }],
        dead_letters: vec![],
        resolved: vec![],
        stale_workflows: vec![],
        stale_activities: vec![],
    };
    assert!(scan_once(&readiness(), &broken, &HealthScannerConfig::default(), 500).is_err());
}

#[test]
fn schedule_alerts_name_their_cause() {
    let definition = ScheduleDefinitionMetadata {
        key: "daily".to_string(),
        version: 1,
        fingerprint: "f".to_string(),
        cron: "0 0 8 * * *".to_string(),
        timezone: "UTC".to_string(),
        misfire: MisfirePolicy::Skip,
        overlap: OverlapPolicy::Allow,
        misfire_grace_millis: 60_000,
    };
    let kind = |error: DurableError| {
        emit_schedule_materialization_alert(&definition, &error, 1).alert_kind
    };
    assert_eq!(kind(DurableError::Conflict("x".to_string())), "schedule_definition_drift");
    assert_eq!(
        kind(DurableError::InvalidState("hit the occurrence scan bound".to_string())),
        "schedule_backlog_bound_exhausted"
    );
    assert_eq!(kind(DurableError::FencedWrite), "schedule_materialization_failed");
}

#[test]
fn fingerprints_are_hashes_of_the_token() {
    assert_eq!(lease_fingerprint(""), "cbf29ce484222325");
    assert_eq!(lease_fingerprint("a"), "af63dc4c8601ec8c");
    assert_eq!(hash_bytes(b"a"), 0xaf63_dc4c_8601_ec8c);
}

#[test]
fn identifiers_are_positive() {
    assert_eq!(WorkflowId::new(7).expect("id").get(), 7);
    assert!(matches!(WorkflowId::new(0), Err(DurableError::InvalidId(0))));
    assert!(ActivityId::new(-1).is_err());
    assert_eq!(WorkflowId::new(7).expect("id").text(), "7");
}

#[test]
fn contexts_carry_the_application() {
    let application = 4;
    let context = WorkflowContext::new(&application);
    assert!(context.workflow_id().is_none());
    let context = context.with_workflow_id(WorkflowId::new(7).expect("id"));
    assert_eq!(*context.application(), 4);
    assert_eq!(context.workflow_id().map(|id| id.get()), Some(7));
    let activity = ActivityContext::for_execution(
        &application,
        ActivityId::new(5).expect("id"),
        2,
        "t1",
        Some("key"),
    );
    assert_eq!(activity.attempt_number(), Some(2));
    assert_eq!(activity.lease_token(), Some("t1"));
    assert_eq!(activity.operation_key(), Some("key"));
    assert_eq!(DefinitionKey::new("greet", 1).version, 1);
}

#[test]
fn errors_are_cut_to_their_limits() {
    let error = WorkflowError::new("category", &"é".repeat(5_000));
    assert!(error.message.len() <= 4_096);
    assert!(error.message.chars().all(|c| c == 'é'));
    assert!(matches!(
        ActivityError::permanent("a", "b"),
        ActivityError::Permanent { message, .. } if message == "b"
    ));
    assert_eq!(WorkflowError::new("category", "short").message, "short");
}

#[test]
fn errors_describe_themselves() {
    assert_eq!(
        DurableError::MissingDefinitions {
            workflows: vec![DefinitionKey::new("greet", 1)],
            activities: vec![],
            topics: vec!["a\"b".to_string()],
        }
        .message(),
        "durable readiness is missing workflow definitions [DefinitionKey { kind: \"greet\", version: 1 }], activity definitions [], and activity topics [\"a\\\"b\"]"
    );
}

#[test]
fn payloads_are_bounded() {
    let prepared =
        PreparedWorkflowStart::from_workflow("greet", 1, "{}".to_string(), "{}".to_string())
            .expect("prepared");
    assert_eq!((prepared.kind(), prepared.version()), ("greet", 1));
    assert_eq!((prepared.input_json(), prepared.state_json()), ("{}", "{}"));
    let large = "x".repeat(2_000_000);
    assert!(PreparedWorkflowStart::from_workflow("greet", 1, large.clone(), "{}".to_string())
        .is_err());
    assert!(store_transition(StoredTransition::Continue { state_json: large }).is_err());
}

#[test]
fn json_is_read_and_written() {
    assert!(check_json("{\"a\":[1,2]}").is_ok());
    assert!(check_json("{\"a\":").is_err());
    assert_eq!(text_member("a", "b\"c\n"), "\"a\":\"b\\\"c\\n\"");
    assert_eq!(integer_member("a", -4), "\"a\":-4");
    assert!(matches!(
        WorkflowStatus::parse("waiting_child"),
        Ok(WorkflowStatus::WaitingChild)
    ));
    assert!(WorkflowStatus::parse("gone").is_err());
    assert_eq!(ActivityStatus::DeadLettered.as_str(), "dead_lettered");
}

#[test]
fn seeded_topic_limits_are_the_registered_ones() {
    let mut topics = TopicRegistry::new();
    topics.register("email", 4).expect("registered");
    topics.register("fax", 2).expect("registered");
    let mut table: Vec<TopicLockRow> = vec![];
    let seed = |table: &mut Vec<TopicLockRow>, now: i64| {
        let mut written = 0;
        for row in topics.lock_rows(now).expect("rows") {
            if !table.iter().any(|present| present.topic == row.topic) {
                written += 1;
                table.push(TopicLockRow {
                    topic: row.topic,
                    max_concurrency: row.max_concurrency,
                    updated_at: row.updated_at,
                });
            }
        }
        written
    };
    assert_eq!(seed(&mut table, 10), 2);
    topics.check_persisted(&table).expect("agrees");
    assert_eq!(
        table.iter().map(|row| (row.topic.as_str(), row.max_concurrency)).collect::<Vec<_>>(),
        vec![("email", 4), ("fax", 2)]
    );
    assert_eq!(seed(&mut table, 20), 0);
    topics.check_persisted(&table).expect("agrees");
    assert!(table.iter().all(|row| row.updated_at == 10));
    table[0].max_concurrency = 5;
    assert_eq!(seed(&mut table, 30), 0);
    assert_eq!(table[0].max_concurrency, 5);
    assert!(topics.check_persisted(&table).is_err());
}

#[test]
fn topic_limits_are_seeded_once() {
    let mut topics = TopicRegistry::new();
    topics.register("fax", 2).expect("registered");
    topics.register("email", 4).expect("registered");
    assert!(matches!(topics.seed_step(false, SeedEvent::Called), (false, SeedStep::ReadClock)));
    let rows = match topics.seed_step(false, SeedEvent::Clock(10)) {
        (false, SeedStep::Insert(rows)) => rows,
        other => panic!("unexpected {other:?}"),
    };
    assert!(matches!(
        topics.seed_step(false, SeedEvent::Inserted),
        (false, SeedStep::Select(keys)) if keys == ["email", "fax"]
    ));
    let persisted = |extra: i32| {
        rows.iter()
            .map(|row| TopicLockRow {
                topic: row.topic.clone(),
                max_concurrency: row.max_concurrency + extra,
                updated_at: 1,
            })
            .collect::<Vec<_>>()
    };
    assert!(matches!(
        topics.seed_step(false, SeedEvent::Selected(persisted(1))),
        (false, SeedStep::Refuse(DurableError::InvalidDefinition(_)))
    ));
    assert!(matches!(
        topics.seed_step(false, SeedEvent::Selected(persisted(0))),
        (true, SeedStep::Done)
    ));
    for event in [SeedEvent::Called, SeedEvent::Clock(20), SeedEvent::Selected(persisted(1))] {
        assert!(matches!(topics.seed_step(true, event), (true, SeedStep::Done)));
    }
    let none = TopicRegistry::default();
    assert!(matches!(none.seed_step(false, SeedEvent::Clock(1)), (true, SeedStep::Done)));
}
