use chrono::{TimeZone, Utc};
use durable_workflows::duration::Duration;
use durable_workflows::runtime::schedule_materializer::{
    advance_state, begin_tick, classify, continue_after_reconcile, current_occurrence,
    materialize_due, plan_due_chunk, promoted_run, started_run, OccurrenceOutcome, Tick, TickStart,
    ScheduleMaterializationReport, MAX_DUE_OCCURRENCES_PER_TICK,
};
use durable_workflows::persistence::models::{
    NewScheduleStateRow, ScheduleRunRow, ScheduleStateRow,
};
use durable_workflows::schedule::calendar::{
    LocalTime, LocalTimeDisposition, ScheduleCalendar, ScheduleOccurrence,
};
use durable_workflows::schedule::registry::{
    metadata, reconcile_state, state_row, DurableSchedule, MisfirePolicy, OverlapPolicy,
    ScheduleRegistry, ScheduleStateReconcileOutcome,
};

fn assert_chunked_matches_full(timezone: &str, start: i64, now: i64) {
    let calendar = ScheduleCalendar::new("0 * * * * *", timezone).expect("calendar");
    let first = calendar.next_after(start).expect("first occurrence");
    let mut next = first.clone();
    let mut all = Vec::new();
    while next.due_at <= now {
        all.push(next.clone());
        next = calendar.next_after_local(next.local_datetime).expect("next");
    }
    assert!(all.len() > MAX_DUE_OCCURRENCES_PER_TICK);
    for policy in [
        MisfirePolicy::Skip,
        MisfirePolicy::RunLatest,
        MisfirePolicy::CatchUp { max_occurrences: 2 },
        MisfirePolicy::CatchUp { max_occurrences: 100 },
    ] {
        let expected = classify(&all, policy, 60_000, now, 0);
        let mut actual: Vec<(ScheduleOccurrence, OccurrenceOutcome)> = Vec::new();
        let mut occurrence = first.clone();
        let mut ticks = 0;
        while occurrence.due_at <= now {
            let chunk = plan_due_chunk(&calendar, occurrence.clone(), policy, 60_000, now)
                .expect("recoverable chunk");
            assert!(!chunk.due.is_empty());
            assert!(chunk.due.len() <= MAX_DUE_OCCURRENCES_PER_TICK);
            assert!(chunk.next.local_datetime.millis() > occurrence.local_datetime.millis());
            actual.extend(chunk.due.into_iter().zip(chunk.outcomes));
            occurrence = chunk.next;
            ticks += 1;
            assert!(ticks <= 4, "recovery must make bounded progress");
        }
        assert_eq!(
            actual,
            all.iter().cloned().zip(expected).collect::<Vec<_>>()
        );
    }
}

#[test]
fn over_bound_backlog_recovers_without_repeating_the_latest_n_budget() {
    let start = Utc
        .with_ymd_and_hms(2026, 1, 1, 0, 0, 0)
        .single()
        .expect("start")
        .timestamp_millis();
    assert_chunked_matches_full("UTC", start, start + 20_001 * 60_000);
}

#[test]
fn chunk_boundary_preserves_dst_gap_and_fold_policies() {
    for (month, day, hour) in [(3, 8, 9), (11, 1, 7)] {
        let boundary = Utc
            .with_ymd_and_hms(2026, month, day, hour, 0, 0)
            .single()
            .expect("boundary");
        let start = boundary - chrono::Duration::minutes(10_000);
        assert_chunked_matches_full(
            "America/Denver",
            start.timestamp_millis(),
            (boundary + chrono::Duration::hours(3)).timestamp_millis(),
        );
    }
}

fn utc(year: i32, month: u32, day: u32, hour: u32, minute: u32) -> i64 {
    Utc.with_ymd_and_hms(year, month, day, hour, minute, 0)
        .single()
        .expect("time")
        .timestamp_millis()
}

#[test]
fn occurrences_follow_the_wall_clock() {
    let calendar = ScheduleCalendar::new("0 30 8 * * *", "America/Denver").expect("calendar");
    let winter = calendar.next_after(utc(2026, 1, 1, 0, 0)).expect("occurrence");
    assert_eq!(winter.local_occurrence, "2026-01-01T08:30:00");
    assert_eq!(winter.scheduled_for, utc(2026, 1, 1, 15, 30));
    assert_eq!(winter.due_at, winter.scheduled_for);
    assert_eq!(winter.disposition, LocalTimeDisposition::Exact);
    let summer = calendar.next_after(utc(2026, 7, 1, 0, 0)).expect("occurrence");
    assert_eq!(summer.scheduled_for, utc(2026, 7, 1, 14, 30));
}

#[test]
fn wall_clock_times_that_a_shift_skips_are_gaps() {
    let calendar = ScheduleCalendar::new("0 30 2 8 3 *", "America/Denver").expect("calendar");
    let gap = calendar.next_after(utc(2026, 1, 1, 0, 0)).expect("occurrence");
    assert_eq!(gap.local_occurrence, "2026-03-08T02:30:00");
    assert_eq!(gap.disposition, LocalTimeDisposition::Gap);
    assert_eq!(gap.due_at, utc(2026, 3, 8, 9, 0));
    let calendar = ScheduleCalendar::new("0 30 1 1 11 *", "America/Denver").expect("calendar");
    let fold = calendar.next_after(utc(2026, 1, 1, 0, 0)).expect("occurrence");
    assert_eq!(fold.disposition, LocalTimeDisposition::AmbiguousEarlier);
    assert_eq!(fold.scheduled_for, utc(2026, 11, 1, 7, 30));
}

#[test]
fn calendars_refuse_what_they_cannot_read() {
    assert!(ScheduleCalendar::new("not a cron", "UTC").is_err());
    assert!(ScheduleCalendar::new("0 * * * * *", "Mars/Olympus").is_err());
    let over = ScheduleCalendar::new("0 0 0 1 1 * 2020", "UTC").expect("calendar");
    assert!(over.next_after(utc(2026, 1, 1, 0, 0)).is_err());
    assert!(LocalTime::from_millis(i64::MAX).is_none());
}

struct Daily;

impl DurableSchedule for Daily {
    const KEY: &'static str = "daily";
    const VERSION: i32 = 2;
    const CRON: &'static str = "0 0 8 * * *";
    const TIMEZONE: &'static str = "UTC";
    const MISFIRE: MisfirePolicy = MisfirePolicy::CatchUp { max_occurrences: 3 };
    const OVERLAP: OverlapPolicy = OverlapPolicy::QueueOne;
    const MISFIRE_GRACE: Duration = Duration { secs: 60, nanos: 0 };
}

struct Broken;

impl DurableSchedule for Broken {
    const KEY: &'static str = "Broken Key";
    const VERSION: i32 = 1;
    const CRON: &'static str = "0 0 8 * * *";
    const TIMEZONE: &'static str = "UTC";
    const MISFIRE: MisfirePolicy = MisfirePolicy::Skip;
    const OVERLAP: OverlapPolicy = OverlapPolicy::Allow;
    const MISFIRE_GRACE: Duration = Duration { secs: 60, nanos: 0 };
}

#[test]
fn schedules_are_registered_once() {
    let mut schedules: ScheduleRegistry<u8> = ScheduleRegistry::new();
    schedules.register::<Daily>(7).expect("registered");
    assert!(schedules.register::<Daily>(8).is_err());
    assert!(schedules.register::<Broken>(9).is_err());
    assert_eq!(schedules.definitions().len(), 1);
    assert_eq!(schedules.get("daily").expect("definition").misfire_grace_millis, 60_000);
    assert_eq!(*schedules.handler("daily").expect("handler"), 7);
    assert!(schedules.handler("weekly").is_err());
    assert!(schedules.calendar("daily").is_some());
    let definition = metadata::<Daily>().expect("metadata");
    assert_eq!(definition.fingerprint.len(), 64);
    assert!(definition.fingerprint.bytes().all(|byte| byte.is_ascii_hexdigit()));
}

fn stored(row: NewScheduleStateRow) -> ScheduleStateRow {
    ScheduleStateRow {
        schedule_key: row.schedule_key,
        definition_fingerprint: row.definition_fingerprint,
        definition_version: row.definition_version,
        next_local_occurrence: row.next_local_occurrence,
        next_occurrence_at: row.next_occurrence_at,
        last_materialized_at: row.last_materialized_at,
        paused_at: row.paused_at,
        paused_by: row.paused_by,
        pause_reason: row.pause_reason,
        created_at: row.created_at,
        updated_at: row.updated_at,
    }
}

#[test]
fn schedule_state_is_reconciled_with_its_definition() {
    let definition = metadata::<Daily>().expect("metadata");
    let calendar = ScheduleCalendar::new(Daily::CRON, Daily::TIMEZONE).expect("calendar");
    let next = calendar.next_after(utc(2026, 1, 1, 9, 0)).expect("next");
    let row = stored(state_row(&definition, &next, 5));
    let reconcile = |row, inserted| reconcile_state(&definition, &next, inserted, row, 6);
    assert_eq!(
        reconcile(row.clone(), true).expect("state").0,
        ScheduleStateReconcileOutcome::Inserted
    );
    assert_eq!(
        reconcile(row.clone(), false).expect("state").0,
        ScheduleStateReconcileOutcome::Preserved
    );
    let mut older = row.clone();
    older.definition_version = 1;
    let (outcome, upgraded) = reconcile(older, false).expect("state");
    assert_eq!(outcome, ScheduleStateReconcileOutcome::Upgraded);
    assert_eq!(upgraded.expect("row").definition_version, 2);
    let mut newer = row.clone();
    newer.definition_version = 3;
    assert_eq!(
        reconcile(newer, false).expect("state").0,
        ScheduleStateReconcileOutcome::NewerPersisted
    );
    let mut changed = row.clone();
    changed.definition_fingerprint = "other".to_string();
    assert_eq!(
        reconcile(changed, false).expect_err("refused").message(),
        "durable operation conflicts with current state: schedule daily v2 metadata changed without a version bump"
    );
    assert!(continue_after_reconcile("daily", ScheduleStateReconcileOutcome::Preserved)
        .expect("tick"));
    assert!(!continue_after_reconcile("daily", ScheduleStateReconcileOutcome::Inserted)
        .expect("tick"));
    assert!(
        continue_after_reconcile("daily", ScheduleStateReconcileOutcome::NewerPersisted).is_err()
    );
}

#[test]
fn ticks_start_from_the_persisted_state() {
    let definition = metadata::<Daily>().expect("metadata");
    let calendar = ScheduleCalendar::new(Daily::CRON, Daily::TIMEZONE).expect("calendar");
    let next = calendar.next_after(utc(2026, 1, 1, 9, 0)).expect("next");
    let row = stored(state_row(&definition, &next, 5));
    assert_eq!(current_occurrence(&row, &calendar).expect("occurrence"), next);
    let mut shifted = row.clone();
    shifted.next_occurrence_at += 1;
    assert!(current_occurrence(&shifted, &calendar).is_err());
    let mut unreadable = row.clone();
    unreadable.next_local_occurrence = "soon".to_string();
    assert!(current_occurrence(&unreadable, &calendar).is_err());
    let mut paused = row.clone();
    paused.paused_at = Some(1);
    assert!(matches!(
        begin_tick(&paused, &definition, 0, false),
        Ok(TickStart::Paused(report)) if report.paused
    ));
    assert!(matches!(
        begin_tick(&row, &definition, 0, true),
        Ok(TickStart::Run { promote: true, .. })
    ));
    let mut drifted = row.clone();
    drifted.definition_version = 9;
    assert!(begin_tick(&drifted, &definition, 0, false).is_err());
    let advanced = advance_state(row.clone(), 1, &next, 77).expect("advanced");
    assert_eq!(advanced.last_materialized_at, Some(77));
    assert!(advance_state(row, 0, &next, 77).is_none());
}

#[test]
fn a_persisted_leap_second_is_kept() {
    let calendar = ScheduleCalendar::new("59 * * * * *", "America/Denver").expect("calendar");
    let definition = metadata::<Daily>().expect("metadata");
    let next = calendar.next_after(utc(2026, 1, 1, 9, 0)).expect("next");
    assert_eq!(next.local_occurrence, "2026-01-01T02:00:59");
    let mut row = stored(state_row(&definition, &next, 5));
    row.next_local_occurrence = "2026-01-01T02:00:60".to_string();
    assert!(current_occurrence(&row, &calendar).is_err());
    row.next_occurrence_at += 1000;
    let leap = current_occurrence(&row, &calendar).expect("leap second");
    assert_eq!(leap.local_occurrence, "2026-01-01T02:00:60");
    assert_eq!(leap.due_at, utc(2026, 1, 1, 9, 1));
    assert_eq!((leap.scheduled_for, leap.disposition), (leap.due_at, LocalTimeDisposition::Exact));
    assert!(leap.local_datetime.leap());
    assert_eq!(leap.local_datetime.millis(), next.local_datetime.millis());
    assert!(leap.local_datetime > next.local_datetime);
    let chunk = plan_due_chunk(&calendar, leap.clone(), MisfirePolicy::Skip, 60_000, leap.due_at)
        .expect("chunk");
    assert_eq!(chunk.due, vec![leap]);
    assert_eq!(chunk.next.local_occurrence, "2026-01-01T02:01:59");
    row.next_local_occurrence = "2026-01-01T02:00:61".to_string();
    assert!(current_occurrence(&row, &calendar).is_err());
}

#[test]
fn leap_seconds_in_gaps_and_folds_follow_their_second() {
    let calendar = ScheduleCalendar::new("59 * * * * *", "America/Denver").expect("calendar");
    let at = |text: &str| {
        let local = chrono::NaiveDateTime::parse_from_str(text, "%Y-%m-%dT%H:%M:%S").expect("time");
        let local = local.and_utc();
        let local = LocalTime::from_second(local.timestamp(), local.timestamp_subsec_nanos())
            .expect("local time");
        calendar.occurrence_at_local(local).expect("occurrence")
    };
    let gap = at("2026-03-08T02:30:60");
    assert_eq!(gap.local_occurrence, "2026-03-08T02:30:60");
    assert_eq!((gap.due_at, gap.disposition), (utc(2026, 3, 8, 9, 0), LocalTimeDisposition::Gap));
    let fold = at("2026-11-01T01:30:60");
    assert_eq!(fold.disposition, LocalTimeDisposition::AmbiguousEarlier);
    assert_eq!(fold.due_at, utc(2026, 11, 1, 7, 31));
    assert!(LocalTime::from_second(58, 1_000_000_000).is_none());
    assert!(LocalTime::from_second(59, 1_000_000_000).is_some());
    assert!(LocalTime::from_second(59, 1).is_none());
    assert!(LocalTime::from_second(i64::MAX, 0).is_none());
}

fn tick() -> Tick {
    Tick { active: 0, queued: false, report: ScheduleMaterializationReport::empty("daily") }
}

#[test]
fn overlapping_occurrences_follow_their_policy() {
    let calendar = ScheduleCalendar::new("0 * * * * *", "UTC").expect("calendar");
    let start = utc(2026, 1, 1, 0, 0);
    let first = calendar.next_after(start).expect("first");
    let chunk = plan_due_chunk(
        &calendar,
        first,
        MisfirePolicy::CatchUp { max_occurrences: 3 },
        600_000,
        start + 180_000,
    )
    .expect("chunk");
    assert_eq!(chunk.outcomes, vec![OccurrenceOutcome::Start; 3]);
    let statuses = |overlap| {
        let (runs, tick) = materialize_due(tick(), &chunk, overlap, start + 180_000);
        let statuses: Vec<String> = runs.into_iter().map(|run| run.status).collect();
        (statuses, tick.report)
    };
    let (allowed, report) = statuses(OverlapPolicy::Allow);
    assert_eq!(allowed, vec!["materializing", "materializing", "materializing"]);
    assert_eq!((report.inspected, report.started), (3, 3));
    let (skipped, report) = statuses(OverlapPolicy::SkipIfActive);
    assert_eq!(skipped, vec!["materializing", "skipped", "skipped"]);
    assert_eq!((report.started, report.skipped), (1, 2));
    let (queued, report) = statuses(OverlapPolicy::QueueOne);
    assert_eq!(queued, vec!["materializing", "queued", "skipped"]);
    assert_eq!((report.started, report.queued, report.skipped), (1, 1, 1));
}

#[test]
fn run_latest_coalesces_what_was_missed() {
    let calendar = ScheduleCalendar::new("0 * * * * *", "UTC").expect("calendar");
    let start = utc(2026, 1, 1, 0, 0);
    let first = calendar.next_after(start).expect("first");
    let chunk =
        plan_due_chunk(&calendar, first, MisfirePolicy::RunLatest, 60_000, start + 180_000)
            .expect("chunk");
    assert_eq!(
        chunk.outcomes,
        vec![OccurrenceOutcome::Coalesce, OccurrenceOutcome::Coalesce, OccurrenceOutcome::Start]
    );
}

#[test]
fn runs_remember_their_workflow() {
    let run = ScheduleRunRow {
        id: 1,
        schedule_key: "daily".to_string(),
        local_occurrence: "2026-01-01T08:00:00".to_string(),
        scheduled_for: 1,
        materialized_at: 1,
        status: "materializing".to_string(),
        reason: None,
        actor_id: None,
        workflow_id: None,
        created_at: 1,
    };
    let started = started_run(run.clone(), 9);
    assert_eq!((started.status.as_str(), started.workflow_id), ("started", Some(9)));
    assert_eq!(promoted_run(run, 9).workflow_id, Some(9));
}
