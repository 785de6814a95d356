use durable_workflows::duration::Duration;
use durable_workflows::error::DurableError;
use durable_workflows::policy::BackoffPolicy;
use durable_workflows::runtime::dispatcher::{DispatchAction, DispatchEvent, Dispatcher};
use durable_workflows::runtime::executions::{
    ActivityExecutions, ExecutionEnd, ExecutionSnapshot, RuntimeTaskFailure,
};
use durable_workflows::runtime::supervisor::{
    after_sweep, coordinator_owner, dispatch_capacity, dispatch_room, dispatcher_owner,
    errors_after_deadline, errors_in_time, initial_tasks, jittered_idle_delay,
    local_topic_capacity, local_topic_limit, not_restartable, pause_after, schedule_failure,
    shutdown_result, valid_temporal_poll_interval, validate_runtime, RuntimeConfig,
    RuntimeTaskError, Supervision, SupervisorEnd, TaskSpec, TopicWorkerLimits,
};
use durable_workflows::topics::{is_canonical_topic_key, TopicRegistry};

#[test]
fn canonical_topic_keys_are_lowercase_ascii() {
    assert!(is_canonical_topic_key("provider"));
    assert!(is_canonical_topic_key("pdf_rendering"));
    assert!(is_canonical_topic_key("a"));
    assert!(is_canonical_topic_key("9fax"));
    assert!(!is_canonical_topic_key(""));
    assert!(!is_canonical_topic_key("PROVIDER"));
    assert!(!is_canonical_topic_key("café"));
    assert!(!is_canonical_topic_key("straße"));
    assert!(!is_canonical_topic_key("_leading"));
    assert!(!is_canonical_topic_key("has space"));
}

fn topics() -> TopicRegistry {
    let mut topics = TopicRegistry::new();
    topics.register("rtms", 40).expect("topic");
    topics.register("billing", 40).expect("topic");
    topics
}

#[test]
fn topic_override_only_changes_selected_local_capacity_and_obeys_global_limit() {
    let limits = TopicWorkerLimits::new()
        .with_topic_worker_limit(&topics(), "rtms", 24)
        .expect("limits");
    assert_eq!(local_topic_limit("rtms", 40, 4, &limits), 24);
    assert_eq!(local_topic_limit("billing", 40, 4, &limits), 4);
    assert_eq!(local_topic_limit("rtms", 12, 4, &limits), 12);
}

#[test]
fn overrides_need_a_registered_topic_and_capacity() {
    assert!(TopicWorkerLimits::new().with_topic_worker_limit(&topics(), "fax", 3).is_err());
    assert!(TopicWorkerLimits::new().with_topic_worker_limit(&topics(), "rtms", 0).is_err());
    let limits = TopicWorkerLimits::new()
        .with_topic_worker_limit(&topics(), "rtms", 24)
        .and_then(|limits| limits.with_topic_worker_limit(&topics(), "rtms", 2))
        .expect("limits");
    assert_eq!(local_topic_limit("rtms", 40, 4, &limits), 2);
}

#[test]
fn dispatch_room_is_what_running_executions_leave() {
    let limits = TopicWorkerLimits::new()
        .with_topic_worker_limit(&topics(), "rtms", 2)
        .expect("limits");
    let definitions = topics().definitions();
    assert_eq!(dispatch_capacity(&definitions, 4, &limits), Some(6));
    let mut executions = ActivityExecutions::new();
    executions.spawn("1", "rtms", 1);
    executions.spawn("2", "rtms", 1);
    executions.spawn("3", "billing", 1);
    let snapshot = executions.snapshot();
    assert_eq!(dispatch_room(6, &snapshot), 3);
    assert_eq!(dispatch_room(2, &snapshot), 0);
    let rooms = local_topic_capacity(&definitions, 4, &limits, &snapshot);
    assert_eq!(rooms, vec![("billing".to_string(), 3), ("rtms".to_string(), 0)]);
}

fn died(message: &str) -> ExecutionEnd {
    ExecutionEnd::Died { message: message.to_string(), panicked: true }
}

fn active(executions: &ActivityExecutions, topic: &str) -> Option<usize> {
    executions
        .snapshot()
        .active_by_topic
        .into_iter()
        .find(|entry| entry.0 == topic)
        .map(|entry| entry.1)
}

#[test]
fn activity_execution_error_releases_capacity_without_failing_dispatcher() {
    let mut executions = ActivityExecutions::new();
    executions.spawn("1", "external", 1);
    executions.finish("1", ExecutionEnd::Failed).expect("recorded");
    assert!(executions.take_failure().is_none());
    assert_eq!(active(&executions, "external"), Some(0));
    executions.begin_shutdown();
    assert!(executions.is_drained());
    executions.conclude().expect("collector exit");
}

#[test]
fn activity_execution_panic_is_reported_without_waiting_for_sibling() {
    let mut executions = ActivityExecutions::new();
    executions.spawn("1", "other", 1);
    executions.spawn("2", "external", 1);
    executions.finish("2", died("activity handler panic")).expect("recorded");
    let failure = executions.take_failure().expect("panic reported before sibling release");
    assert!(failure.panicked);
    assert_eq!(executions.snapshot().total, 1);
    assert_eq!(active(&executions, "other"), Some(1));
    executions.finish("1", ExecutionEnd::Completed).expect("recorded");
    assert_eq!(active(&executions, "other"), Some(0));
    executions.begin_shutdown();
    assert!(executions.is_drained());
    executions.conclude().expect("collector exit");
}

#[test]
fn activity_execution_panic_discovered_during_shutdown_is_retained() {
    let mut executions = ActivityExecutions::new();
    executions.spawn("1", "external", 1);
    executions
        .finish("1", died("activity handler panic during shutdown"))
        .expect("recorded");
    assert_eq!(executions.snapshot().total, 0);
    executions.begin_shutdown();
    assert!(executions.is_drained());
    let failure = executions.conclude().expect_err("shutdown must retain the unconsumed panic");
    assert!(failure.panicked);
}

#[test]
fn a_panic_that_ends_during_shutdown_is_retained() {
    let mut executions = ActivityExecutions::new();
    executions.spawn("1", "external", 1);
    executions.begin_shutdown();
    assert!(!executions.is_drained());
    executions.finish("1", died("late panic")).expect("recorded");
    assert!(executions.is_drained());
    assert!(executions.conclude().expect_err("retained").panicked);
}

#[test]
fn abandoned_failure_request_returns_panic_to_the_queue() {
    let mut executions = ActivityExecutions::new();
    executions.spawn("1", "external", 1);
    executions
        .finish("1", died("activity handler panic during cancellation"))
        .expect("recorded");
    let abandoned = executions.take_failure().expect("failure");
    executions.requeue(abandoned);
    let failure = executions.take_failure().expect("abandoned panic was requeued");
    assert!(failure.panicked);
    executions.begin_shutdown();
    executions.conclude().expect("collector exit");
}

#[test]
fn activity_execution_panics_from_one_dispatcher_are_one_incident() {
    let mut executions = ActivityExecutions::new();
    executions.spawn("1", "external", 1);
    executions.spawn("2", "external", 1);
    executions.finish("1", died("first activity handler panic")).expect("recorded");
    let failure = executions.take_failure().expect("panic burst reported");
    assert!(failure.panicked);
    executions.finish("2", died("late sibling activity handler panic")).expect("recorded");
    assert!(executions.take_failure().is_none());
    executions.begin_shutdown();
    let late_failure = executions
        .conclude()
        .expect_err("late sibling panic is retained for shutdown");
    assert!(late_failure.panicked);
    assert!(late_failure.message.contains("late sibling activity handler panic"));
}

#[test]
fn failures_of_several_dispatchers_are_taken_as_one() {
    let mut executions = ActivityExecutions::new();
    for (id, dispatcher) in [("1", 1), ("2", 2), ("3", 3)] {
        executions.spawn(id, "external", dispatcher);
        executions.finish(id, died("gone")).expect("recorded");
    }
    let failure = executions.take_failure().expect("failure");
    assert_eq!(
        failure.message,
        "activity execution task failed: gone; 2 additional activity execution tasks failed"
    );
    assert_eq!(
        executions.finish("9", ExecutionEnd::Completed).expect_err("unknown").message,
        "activity execution task 9 had no topic record"
    );
    assert!(!executions.is_running("1"));
    executions.begin_shutdown();
    assert_eq!(
        executions.check_open().expect_err("closed").message,
        "activity execution manager is shutting down"
    );
}

#[test]
fn runtimes_check_their_bounds() {
    let config = RuntimeConfig::default();
    assert_eq!(
        config.coordinator.activation_retry_policy.backoff(),
        BackoffPolicy::Exponential { initial_secs: 1, max_secs: 60, jitter_percent: 20 }
    );
    assert!(validate_runtime("a", &config).is_ok());
    assert!(validate_runtime("", &config).is_err());
    let mut slow = RuntimeConfig::default();
    slow.timer_poll_interval = Duration::from_secs(61);
    assert_eq!(
        validate_runtime("a", &slow).expect_err("refused").message(),
        "invalid durable definition: durable runtime identity and bounds must be non-zero"
    );
    assert!(valid_temporal_poll_interval(Duration::from_secs(60)));
    assert!(!valid_temporal_poll_interval(Duration::from_secs(0)));
    let mut loud = RuntimeConfig::default();
    loud.max_health_alerts_per_kind = 101;
    assert!(validate_runtime("a", &loud).is_err());
}

#[test]
fn a_runtime_starts_a_task_for_each_schedule() {
    let tasks = initial_tasks(&vec!["daily".to_string()]);
    let names: Vec<String> = tasks.iter().map(|task| task.name()).collect();
    assert_eq!(
        names,
        vec![
            "activity-execution-manager",
            "coordinator",
            "health",
            "timer",
            "approval-expiry",
            "schedule:daily",
            "activity-dispatcher",
        ]
    );
    assert_eq!(
        not_restartable().message,
        "activity execution manager cannot be started as a restartable task"
    );
    assert_eq!(coordinator_owner("a"), "a:coordinator");
    assert_eq!(dispatcher_owner("a"), "a:dispatcher");
}

fn failed(message: &str) -> Result<(), RuntimeTaskFailure> {
    Err(RuntimeTaskFailure { message: message.to_string(), panicked: false })
}

#[test]
fn tasks_are_restarted_a_bounded_number_of_times() {
    let mut supervision = Supervision::new();
    supervision.watch("1", TaskSpec::Timer);
    let step = supervision.joined("1", failed("lost"), false, 2);
    assert_eq!(step.restart, Some(TaskSpec::Timer));
    supervision.watch("2", TaskSpec::Timer);
    assert_eq!(supervision.joined("2", Ok(()), false, 2).restart, Some(TaskSpec::Timer));
    supervision.watch("3", TaskSpec::Timer);
    let step = supervision.joined("3", failed("lost"), false, 2);
    assert!(step.cancel && step.restart.is_none() && !step.shut_down_executions);
    let errors = supervision.into_errors();
    assert_eq!(errors.len(), 3);
    assert_eq!(errors[1].message, "task stopped unexpectedly");
}

#[test]
fn the_dispatcher_takes_the_executions_with_it() {
    let mut supervision = Supervision::new();
    supervision.watch("1", TaskSpec::ActivityDispatcher);
    let step = supervision.joined("1", Ok(()), true, 8);
    assert!(step.shut_down_executions && !step.cancel && step.restart.is_none());
    supervision.watch("2", TaskSpec::ActivityExecutionManager);
    assert!(supervision.joined("2", Ok(()), false, 8).cancel);
    let step = supervision.joined("7", Ok(()), false, 8);
    assert!(step.cancel);
    supervision.record_shutdown_failure(RuntimeTaskFailure {
        message: "gone".to_string(),
        panicked: false,
    });
    let errors = supervision.into_errors();
    assert_eq!(errors[1].message, "completed task 7 had no supervision record");
    assert_eq!(errors[2].task, "activity-execution-manager");
}

#[test]
fn idle_dispatchers_look_less_and_less_often() {
    let empty = jittered_idle_delay(0, "");
    assert_eq!(empty.as_millis(), 900);
    assert_eq!(jittered_idle_delay(1, "").as_millis(), 1_800);
    assert_eq!(jittered_idle_delay(2, "").as_millis(), 4_500);
    assert_eq!(jittered_idle_delay(9, "").as_millis(), 9_000);
    assert_eq!(jittered_idle_delay(3, "a").as_millis(), 9_970);
    assert_eq!(after_sweep(2, 0), 3);
    assert_eq!(after_sweep(2, 1), 0);
}

#[test]
fn pollers_wait_when_they_find_nothing() {
    let config = RuntimeConfig::default();
    assert_eq!(pause_after(&TaskSpec::Timer, &config, false), Some(Duration::from_secs(10)));
    assert_eq!(pause_after(&TaskSpec::Timer, &config, true), None);
    assert_eq!(pause_after(&TaskSpec::Health, &config, true), Some(Duration::from_secs(60)));
    assert_eq!(pause_after(&TaskSpec::Coordinator, &config, false), Some(Duration::from_secs(2)));
}

#[test]
fn schedule_tasks_end_on_errors_that_a_restart_may_mend() {
    let lost = DurableError::Database("gone".to_string());
    assert_eq!(
        schedule_failure("daily", true, &lost).expect("failure").message,
        "database error: gone"
    );
    let conflict = DurableError::Conflict("drift".to_string());
    assert!(schedule_failure("daily", true, &conflict).is_none());
    assert!(schedule_failure("daily", false, &conflict)
        .expect("failure")
        .message
        .contains("schedule definition"));
}

#[test]
fn shutdowns_report_what_went_wrong() {
    assert!(shutdown_result(vec![]).is_ok());
    let error = RuntimeTaskError {
        task: "timer".to_string(),
        message: "lost".to_string(),
        panicked: false,
    };
    let errors = errors_in_time(SupervisorEnd::Finished(vec![error.clone()])).expect("errors");
    assert_eq!(errors, vec![error.clone()]);
    assert!(errors_in_time(SupervisorEnd::TimedOut).is_none());
    let forced = errors_after_deadline(
        Duration::from_millis(1_500),
        Duration::from_secs(5),
        SupervisorEnd::TimedOut,
    );
    assert_eq!(forced[0].message, "shutdown deadline elapsed after 1.5s");
    assert_eq!(forced[1].message, "forced shutdown did not reach a safe point after 5s");
    let late = errors_after_deadline(
        Duration::from_secs(1),
        Duration::from_secs(5),
        SupervisorEnd::Finished(vec![error]),
    );
    assert_eq!(late[1].message, "shutdown deadline elapsed after 1s");
    let refused = shutdown_result(late).expect_err("errors");
    assert_eq!(refused.message(), "durable runtime stopped with 2 task error(s)");
}

#[test]
fn dispatchers_check_before_they_claim() {
    let mut topics = TopicRegistry::new();
    topics.register("email", 2).expect("registered");
    topics.register("fax", 1).expect("registered");
    let limits = TopicWorkerLimits::new();
    let dispatcher = Dispatcher::new(topics.definitions(), 4, &limits, "");
    let (dispatcher, action) = dispatcher.next(DispatchEvent::Cancelled(false));
    assert!(matches!(action, DispatchAction::TakeFailure));
    let (dispatcher, action) = dispatcher.next(DispatchEvent::Failure(None));
    assert!(matches!(action, DispatchAction::TakeSnapshot));
    let snapshot = |total| ExecutionSnapshot {
        total,
        active_by_topic: vec![("email".to_string(), total)],
    };
    let (dispatcher, action) = dispatcher.next(DispatchEvent::Snapshot(Some(snapshot(1))));
    match action {
        DispatchAction::Claim { room, local } => {
            assert_eq!(room, 2);
            assert_eq!(local, vec![("email".to_string(), 1), ("fax".to_string(), 1)]);
        }
        other => panic!("unexpected {other:?}"),
    }
    let (dispatcher, action) = dispatcher.next(DispatchEvent::Claimed(0));
    assert!(matches!(action, DispatchAction::Idle(delay) if delay.as_millis() == 900));
    let (dispatcher, action) = dispatcher.next(DispatchEvent::Waited);
    assert!(matches!(action, DispatchAction::CheckCancelled));
    let (dispatcher, action) = dispatcher.next(DispatchEvent::Claimed(0));
    assert!(matches!(action, DispatchAction::Idle(delay) if delay.as_millis() == 1_800));
    let (dispatcher, action) = dispatcher.next(DispatchEvent::Claimed(2));
    assert!(matches!(action, DispatchAction::StartClaims));
    let (dispatcher, action) = dispatcher.next(DispatchEvent::Started);
    assert!(matches!(action, DispatchAction::CheckCancelled));
    let (dispatcher, action) = dispatcher.next(DispatchEvent::Claimed(0));
    assert!(matches!(action, DispatchAction::Idle(delay) if delay.as_millis() == 900));
    let (dispatcher, action) = dispatcher.next(DispatchEvent::Snapshot(Some(snapshot(3))));
    assert!(matches!(action, DispatchAction::AwaitChange));
    let (dispatcher, action) = dispatcher.next(DispatchEvent::Snapshot(None));
    assert!(matches!(action, DispatchAction::Stop));
    let failure = RuntimeTaskFailure { message: "broken".to_string(), panicked: true };
    let (dispatcher, action) = dispatcher.next(DispatchEvent::Failure(Some(failure)));
    assert!(matches!(action, DispatchAction::Fail(failure) if failure.message == "broken"));
    let (_, action) = dispatcher.next(DispatchEvent::Cancelled(true));
    assert!(matches!(action, DispatchAction::Stop));
}
