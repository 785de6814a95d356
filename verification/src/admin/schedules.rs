//! What operators read of schedules.
use vstd::prelude::*;
use crate::admin::cursor;
use crate::admin::cursor::{encode_cursor, scoped_cursor_scope, CursorPosition, PositionModel};
use crate::admin::metrics;
use crate::admin::metrics::{encode_string_cursor, nonnegative_count};
use crate::admin::query;
use crate::admin::query::{reversed, workflow_reference};
use crate::admin::types::{
    AdminPage, ScheduleHealthIssue, ScheduleRunSummary, ScheduleStateSummary, ScheduleSummary,
};
use crate::digest;
use crate::error;
use crate::error::{DurableError, ErrorModel};
use crate::ids::ScheduleRunId;
use crate::numerals;
use crate::numerals::decimal_i64;
use crate::order;
use crate::order::{dedup_ranked, sort_ranked, Ranked};
use crate::persistence::models::ScheduleStateRow;
use crate::persistence::status;
use crate::persistence::status::WorkflowStatus;
use crate::schedule::registry::ScheduleDefinitionMetadata;
use crate::text;
use crate::text::{precedes, same_text};

verus! {

/// The most recent runs that the summary of a schedule shows.
pub const MAX_RECENT_SCHEDULE_RUNS: u32 = 20;

/// Checks how many recent runs are asked for.
pub fn check_recent_run_limit(recent_run_limit: u32) -> (result: Result<(), DurableError>)
    ensures
        error::result_model(result) == (if 1 <= recent_run_limit <= MAX_RECENT_SCHEDULE_RUNS {
            Ok(())
        } else {
            Err(
                ErrorModel::InvalidDefinition(
                    "recent schedule run limit must contain 1 to 20 entries"@,
                ),
            )
        }),
{
    if recent_run_limit == 0 || recent_run_limit > MAX_RECENT_SCHEDULE_RUNS {
        return Err(
            error::invalid_definition("recent schedule run limit must contain 1 to 20 entries"),
        );
    }
    Ok(())
}

/// Whether a text is one of some texts.
pub open spec fn among(values: Seq<String>, value: Seq<char>) -> bool {
    exists|i: int| 0 <= i < values.len() && (#[trigger] values[i])@ == value
}

/// Whether a key belongs to the list of schedules behind a key: as that of a
/// registered schedule behind it, or as that of a persisted one.
pub open spec fn is_listed(
    registered: Seq<String>,
    after: Option<Seq<char>>,
    persisted: Seq<String>,
    key: Seq<char>,
) -> bool {
    (among(registered, key) && (after matches Some(after) ==> text::text_before(after, key)))
        || among(persisted, key)
}

/// The keys of the registered schedules behind a key and of the persisted ones,
/// each once, in increasing order.
pub fn merge_schedule_keys(
    registered: &Vec<String>,
    after: Option<&str>,
    persisted: &Vec<String>,
) -> (keys: Vec<String>)
    ensures
        order::strictly_ranked(keys@),
        forall|key: Seq<char>| #[trigger]
            among(keys@, key) <==> is_listed(registered@, text::opt_str(after), persisted@, key),
{
    let mut all: Vec<String> = Vec::new();
    let mut i: usize = 0;
    while i < registered.len()
        invariant
            i <= registered@.len(),
            forall|j: int|
                0 <= j < all@.len() ==> is_listed(
                    registered@,
                    text::opt_str(after),
                    persisted@,
                    (#[trigger] all@[j])@,
                ),
            forall|j: int|
                0 <= j < i && (text::opt_str(after) matches Some(after) ==> text::text_before(
                    after,
                    registered@[j]@,
                )) ==> among(all@, (#[trigger] registered@[j])@),
        decreases registered@.len() - i,
    {
        let comes_behind = match after {
            Some(after) => precedes(after, registered[i].as_str()),
            None => true,
        };
        let ghost before = all@;
        if comes_behind {
            all.push(registered[i].clone());
            proof {
                assert(among(registered@, registered@[i as int]@));
                assert(all@[before.len() as int]@ == registered@[i as int]@);
                lemma_among_push(before, registered@[i as int]);
            }
        }
        i = i + 1;
    }
    let ghost listed = all@;
    let mut k: usize = 0;
    while k < persisted.len()
        invariant
            k <= persisted@.len(),
            forall|j: int|
                0 <= j < all@.len() ==> is_listed(
                    registered@,
                    text::opt_str(after),
                    persisted@,
                    (#[trigger] all@[j])@,
                ),
            forall|key: Seq<char>| among(listed, key) ==> #[trigger] among(all@, key),
            forall|j: int| 0 <= j < k ==> among(all@, (#[trigger] persisted@[j])@),
        decreases persisted@.len() - k,
    {
        let ghost before = all@;
        all.push(persisted[k].clone());
        proof {
            assert(among(persisted@, persisted@[k as int]@));
            assert(all@[before.len() as int]@ == persisted@[k as int]@);
            lemma_among_push(before, persisted@[k as int]);
        }
        k = k + 1;
    }
    let ghost unsorted = all@;
    let sorted = sort_ranked(all);
    let unique = dedup_ranked(sorted);
    proof {
        assert forall|key: Seq<char>| #[trigger] among(unique@, key) implies is_listed(
            registered@,
            text::opt_str(after),
            persisted@,
            key,
        ) by {
            let at = choose|i: int| 0 <= i < unique@.len() && (#[trigger] unique@[i])@ == key;
            assert(sorted@.contains(unique@[at]));
            order::lemma_same_elements(unsorted, sorted@, unique@[at]);
            let from = choose|i: int| 0 <= i < unsorted.len() && unsorted[i] == unique@[at];
            assert(unsorted[from]@ == key);
        }
        assert forall|key: Seq<char>|
            is_listed(registered@, text::opt_str(after), persisted@, key) implies #[trigger] among(
            unique@,
            key,
        ) by {
            if among(persisted@, key) {
                let at = choose|i: int|
                    0 <= i < persisted@.len() && (#[trigger] persisted@[i])@ == key;
                assert(among(unsorted, persisted@[at]@));
            } else {
                let at = choose|i: int|
                    0 <= i < registered@.len() && (#[trigger] registered@[i])@ == key;
                assert(among(listed, registered@[at]@));
            }
            assert(among(unsorted, key));
            let at = choose|i: int| 0 <= i < unsorted.len() && (#[trigger] unsorted[i])@ == key;
            order::lemma_same_elements(unsorted, sorted@, unsorted[at]);
            let from = choose|i: int| 0 <= i < sorted@.len() && sorted@[i] == unsorted[at];
            assert(sorted@[from] == unsorted[at]);
            assert(order::represented(sorted@[from], unique@));
            let to = choose|k: int|
                0 <= k < unique@.len() && #[trigger] order::same_rank(sorted@[from], unique@[k]);
            text::lemma_text_order(sorted@[from]@, unique@[to]@);
            assert(unique@[to]@ == key);
        }
    }
    unique
}

proof fn lemma_among_push(values: Seq<String>, added: String)
    ensures
        among(values.push(added), added@),
        forall|key: Seq<char>| among(values, key) ==> #[trigger] among(values.push(added), key),
{
    let all = values.push(added);
    assert(all[values.len() as int] == added);
    assert forall|key: Seq<char>| among(values, key) implies #[trigger] among(all, key) by {
        let at = choose|i: int| 0 <= i < values.len() && (#[trigger] values[i])@ == key;
        assert(all[at] == values[at]);
    }
}

/// Whether a page lists the first of the given keys.
pub open spec fn lists_keys(
    keys: Seq<String>,
    limit: u32,
    page: Seq<String>,
    next_cursor: Option<Seq<char>>,
) -> bool {
    let n = query::at_most(keys.len() as int, limit);
    &&& page == keys.take(n)
    &&& next_cursor == query::cursor_behind(
        "schedules"@,
        keys.len() as int,
        limit,
        PositionModel { timestamp: 0, tie_breaker: keys[n - 1]@ },
    )
}

/// The first keys of a list of schedules, and the cursor behind them where more
/// follow.
pub fn page_schedule_keys(keys: Vec<String>, limit: u32) -> (result: Result<
    (Vec<String>, Option<String>),
    DurableError,
>)
    requires
        limit > 0,
    ensures
        ({
            let n = query::at_most(keys@.len() as int, limit);
            let key = keys@[n - 1]@;
            match result {
                Ok((page, next_cursor)) => {
                    &&& keys@.len() > limit ==> cursor::encode_error("schedules"@, key) is None
                    &&& lists_keys(keys@, limit, page@, text::opt_text(next_cursor))
                },
                Err(error) => keys@.len() > limit && cursor::encode_error("schedules"@, key) == Some(
                    error@,
                ),
            }
        }),
{
    let ghost all = keys@;
    let has_more = keys.len() > limit as usize;
    let mut page = keys;
    page.truncate(limit as usize);
    assert(page@ =~= all.take(query::at_most(all.len() as int, limit)));
    let mut next_cursor: Option<String> = None;
    if has_more {
        next_cursor = match encode_string_cursor("schedules", page[page.len() - 1].as_str()) {
            Ok(cursor) => Some(cursor),
            Err(error) => return Err(error),
        };
    }
    Ok((page, next_cursor))
}

/// Whether a registered schedule and its persisted state agree.
pub open spec fn same_definition(
    definition: ScheduleDefinitionMetadata,
    state: ScheduleStateRow,
) -> bool {
    definition.version == state.definition_version && definition.fingerprint@
        == state.definition_fingerprint@
}

/// How a schedule and its persisted state disagree, if they do.
pub open spec fn schedule_issues(
    definition: Option<ScheduleDefinitionMetadata>,
    state: Option<ScheduleStateRow>,
) -> Seq<ScheduleHealthIssue> {
    match (definition, state) {
        (Some(_), None) => seq![ScheduleHealthIssue::MissingState],
        (None, Some(_)) => seq![ScheduleHealthIssue::UnregisteredState],
        (Some(definition), Some(state)) => if same_definition(definition, state) {
            seq![]
        } else {
            seq![
                ScheduleHealthIssue::DefinitionMismatch {
                    registered_version: definition.version,
                    persisted_version: state.definition_version,
                },
            ]
        },
        (None, None) => seq![],
    }
}

/// Whether a summary shows the persisted state of a schedule.
pub open spec fn summarizes_state(row: ScheduleStateRow, summary: ScheduleStateSummary) -> bool {
    &&& summary.definition_fingerprint == row.definition_fingerprint
    &&& summary.definition_version == row.definition_version
    &&& summary.next_local_occurrence == row.next_local_occurrence
    &&& summary.next_occurrence_at == row.next_occurrence_at
    &&& summary.last_materialized_at == row.last_materialized_at
    &&& summary.paused_at == row.paused_at
    &&& summary.paused_by == row.paused_by
    &&& summary.pause_reason == row.pause_reason
    &&& summary.created_at == row.created_at
    &&& summary.updated_at == row.updated_at
}

/// The summary of the persisted state of a schedule.
pub fn schedule_state_summary(row: &ScheduleStateRow) -> (summary: ScheduleStateSummary)
    ensures
        summarizes_state(*row, summary),
{
    ScheduleStateSummary {
        definition_fingerprint: row.definition_fingerprint.clone(),
        definition_version: row.definition_version,
        next_local_occurrence: row.next_local_occurrence.clone(),
        next_occurrence_at: row.next_occurrence_at,
        last_materialized_at: row.last_materialized_at,
        paused_at: row.paused_at,
        paused_by: row.paused_by,
        pause_reason: row.pause_reason.clone(),
        created_at: row.created_at,
        updated_at: row.updated_at,
    }
}

/// Why the counts of a schedule are refused.
pub open spec fn schedule_counts_error(active: i64, skipped: i64, coalesced: i64) -> Option<
    ErrorModel,
> {
    query::either(
        metrics::count_error(active),
        query::either(metrics::count_error(skipped), metrics::count_error(coalesced)),
    )
}

/// How many runs of a schedule are open, were skipped and were coalesced.
pub fn schedule_counts(active: i64, skipped: i64, coalesced: i64) -> (result: Result<
    (u64, u64, u64),
    DurableError,
>)
    ensures
        match result {
            Ok(counts) => schedule_counts_error(active, skipped, coalesced) is None && counts.0
                == active && counts.1 == skipped && counts.2 == coalesced,
            Err(error) => schedule_counts_error(active, skipped, coalesced) == Some(error@),
        },
{
    match (nonnegative_count(active), nonnegative_count(skipped), nonnegative_count(coalesced)) {
        (Ok(active), Ok(skipped), Ok(coalesced)) => Ok((active, skipped, coalesced)),
        (Err(error), _, _) => Err(error),
        (_, Err(error), _) => Err(error),
        (_, _, Err(error)) => Err(error),
    }
}

/// Whether a summary shows a schedule.
pub open spec fn summarizes_schedule(
    key: Seq<char>,
    definition: Option<ScheduleDefinitionMetadata>,
    state: Option<ScheduleStateRow>,
    counts: (u64, u64, u64),
    recent_runs: Seq<ScheduleRunSummary>,
    summary: ScheduleSummary,
) -> bool {
    &&& summary.key@ == key
    &&& match definition {
        Some(definition) => {
            &&& summary.registered_version == Some(definition.version)
            &&& summary.registered_fingerprint == Some(definition.fingerprint)
            &&& summary.cron == Some(definition.cron)
            &&& summary.timezone == Some(definition.timezone)
            &&& summary.misfire == Some(definition.misfire)
            &&& summary.overlap == Some(definition.overlap)
            &&& summary.misfire_grace_millis == Some(definition.misfire_grace_millis)
        },
        None => {
            &&& summary.registered_version is None
            &&& summary.registered_fingerprint is None
            &&& summary.cron is None
            &&& summary.timezone is None
            &&& summary.misfire is None
            &&& summary.overlap is None
            &&& summary.misfire_grace_millis is None
        },
    }
    &&& match (state, summary.state) {
        (Some(row), Some(shown)) => summarizes_state(row, shown),
        (None, None) => true,
        _ => false,
    }
    &&& summary.active_overlap_count == counts.0
    &&& summary.skipped_count == counts.1
    &&& summary.coalesced_count == counts.2
    &&& summary.last_run == (if recent_runs.len() > 0 {
        Some(recent_runs[0])
    } else {
        None
    })
    &&& summary.recent_runs@ == recent_runs
    &&& summary.health_issues@ == schedule_issues(definition, state)
}

/// The summary of a schedule that is registered or persisted.
pub fn schedule_summary(
    key: &str,
    definition: Option<&ScheduleDefinitionMetadata>,
    state: Option<&ScheduleStateRow>,
    counts: (u64, u64, u64),
    recent_runs: Vec<ScheduleRunSummary>,
) -> (summary: ScheduleSummary)
    ensures
        summarizes_schedule(
            key@,
            match definition {
                Some(definition) => Some(*definition),
                None => None,
            },
            match state {
                Some(state) => Some(*state),
                None => None,
            },
            counts,
            recent_runs@,
            summary,
        ),
{
    let mut health_issues: Vec<ScheduleHealthIssue> = Vec::new();
    match (definition, state) {
        (Some(_), None) => {
            health_issues.push(ScheduleHealthIssue::MissingState);
        },
        (None, Some(_)) => {
            health_issues.push(ScheduleHealthIssue::UnregisteredState);
        },
        (Some(definition), Some(state)) => {
            if definition.version != state.definition_version || !same_text(
                definition.fingerprint.as_str(),
                state.definition_fingerprint.as_str(),
            ) {
                health_issues.push(
                    ScheduleHealthIssue::DefinitionMismatch {
                        registered_version: definition.version,
                        persisted_version: state.definition_version,
                    },
                );
            }
        },
        (None, None) => {},
    }
    let last_run = if recent_runs.len() > 0 {
        Some(recent_runs[0].clone())
    } else {
        None
    };
    let state = match state {
        Some(state) => Some(schedule_state_summary(state)),
        None => None,
    };
    match definition {
        Some(definition) => ScheduleSummary {
            key: key.to_owned(),
            registered_version: Some(definition.version),
            registered_fingerprint: Some(definition.fingerprint.clone()),
            cron: Some(definition.cron.clone()),
            timezone: Some(definition.timezone.clone()),
            misfire: Some(definition.misfire),
            overlap: Some(definition.overlap),
            misfire_grace_millis: Some(definition.misfire_grace_millis),
            state,
            active_overlap_count: counts.0,
            skipped_count: counts.1,
            coalesced_count: counts.2,
            last_run,
            recent_runs,
            health_issues,
        },
        None => ScheduleSummary {
            key: key.to_owned(),
            registered_version: None,
            registered_fingerprint: None,
            cron: None,
            timezone: None,
            misfire: None,
            overlap: None,
            misfire_grace_millis: None,
            state,
            active_overlap_count: counts.0,
            skipped_count: counts.1,
            coalesced_count: counts.2,
            last_run,
            recent_runs,
            health_issues,
        },
    }
}

/// What is read of a run of a schedule and its workflow.
#[derive(Debug)]
pub struct ScheduleRunProjection {
    pub id: i64,
    pub schedule_key: String,
    pub local_occurrence: String,
    pub scheduled_for: i64,
    pub materialized_at: i64,
    pub status: String,
    pub reason: Option<String>,
    pub actor_id: Option<i32>,
    pub workflow_id: Option<i64>,
    pub created_at: i64,
    pub workflow_status: Option<WorkflowStatus>,
    pub workflow_completed_at: Option<i64>,
}

/// Why a run cannot be shown.
pub open spec fn run_problem(row: ScheduleRunProjection) -> Option<ErrorModel> {
    query::either(query::id_error(row.id), query::optional_id_error(row.workflow_id))
}

/// Whether a summary shows a run.
pub open spec fn summarizes_run(row: ScheduleRunProjection, summary: ScheduleRunSummary) -> bool {
    &&& summary.id@ == row.id
    &&& summary.schedule_key == row.schedule_key
    &&& summary.local_occurrence == row.local_occurrence
    &&& summary.scheduled_for == row.scheduled_for
    &&& summary.materialized_at == row.materialized_at
    &&& summary.status == row.status
    &&& summary.reason == row.reason
    &&& summary.actor_id == row.actor_id
    &&& match (summary.workflow_id, row.workflow_id) {
        (Some(id), Some(number)) => id@ == number,
        (None, None) => true,
        _ => false,
    }
    &&& text::opt_text(summary.workflow_status) == (match row.workflow_status {
        Some(state) => Some(status::workflow_status_name(state)),
        None => None,
    })
    &&& summary.workflow_completed_at == row.workflow_completed_at
    &&& summary.created_at == row.created_at
}

/// The summary of a run.
pub fn schedule_run_summary(row: ScheduleRunProjection) -> (result: Result<
    ScheduleRunSummary,
    DurableError,
>)
    ensures
        match result {
            Ok(summary) => run_problem(row) is None && summarizes_run(row, summary),
            Err(error) => run_problem(row) == Some(error@),
        },
{
    let id = match ScheduleRunId::new(row.id) {
        Ok(id) => id,
        Err(error) => return Err(error),
    };
    let workflow_id = match workflow_reference(row.workflow_id) {
        Ok(id) => id,
        Err(error) => return Err(error),
    };
    Ok(
        ScheduleRunSummary {
            id,
            schedule_key: row.schedule_key,
            local_occurrence: row.local_occurrence,
            scheduled_for: row.scheduled_for,
            materialized_at: row.materialized_at,
            status: row.status,
            reason: row.reason,
            actor_id: row.actor_id,
            workflow_id,
            workflow_status: match row.workflow_status {
                Some(status) => Some(status.as_str().to_owned()),
                None => None,
            },
            workflow_completed_at: row.workflow_completed_at,
            created_at: row.created_at,
        },
    )
}

/// Why one of some runs cannot be shown.
pub open spec fn runs_problem(rows: Seq<ScheduleRunProjection>) -> Option<ErrorModel> {
    query::first_error(Seq::new(rows.len(), |i: int| run_problem(rows[i])))
}

/// The summaries of some runs.
pub fn schedule_run_summaries(rows: Vec<ScheduleRunProjection>) -> (result: Result<
    Vec<ScheduleRunSummary>,
    DurableError,
>)
    ensures
        match result {
            Ok(items) => {
                &&& runs_problem(rows@) is None
                &&& items@.len() == rows@.len()
                &&& forall|i: int|
                    0 <= i < rows@.len() ==> summarizes_run(rows@[i], #[trigger] items@[i])
            },
            Err(error) => runs_problem(rows@) == Some(error@),
        },
{
    let ghost all = rows@;
    let ghost problems = Seq::new(all.len(), |i: int| run_problem(all[i]));
    let mut pending = reversed(rows);
    let mut items: Vec<ScheduleRunSummary> = Vec::new();
    while pending.len() > 0
        invariant
            items@.len() + pending@.len() == all.len(),
            all == rows@,
            problems == Seq::new(all.len(), |i: int| run_problem(all[i])),
            forall|j: int|
                0 <= j < pending@.len() ==> #[trigger] pending@[j] == all[all.len() - 1 - j],
            forall|j: int| 0 <= j < items@.len() ==> summarizes_run(all[j], #[trigger] items@[j]),
            forall|j: int| 0 <= j < items@.len() ==> (#[trigger] problems[j]) is None,
        decreases pending@.len(),
    {
        let ghost at = items@.len() as int;
        match pending.pop() {
            Some(row) => {
                assert(row == all[at]);
                match schedule_run_summary(row) {
                    Ok(summary) => {
                        items.push(summary);
                    },
                    Err(error) => {
                        proof {
                            assert(problems[at] == Some(error@));
                            query::lemma_first_error_at(problems, at);
                        }
                        return Err(error);
                    },
                }
            },
            None => {},
        }
    }
    proof {
        query::lemma_no_first_error(problems);
    }
    Ok(items)
}

proof fn lemma_runs_scope(schedule_key: Seq<char>)
    ensures
        cursor::scope_fits(cursor::scoped_scope("schedule_runs"@, schedule_key)),
{
    let number = digest::fnv1a(vstd::utf8::encode_utf8(schedule_key)) as nat;
    let scope = cursor::scoped_scope("schedule_runs"@, schedule_key);
    reveal_strlit("schedule_runs");
    reveal_strlit(":");
    numerals::lemma_hex_digits(number, 16);
    assert(vstd::utf8::is_ascii_chars(scope));
    vstd::utf8::is_ascii_chars_encode_utf8(scope);
}

/// Whether a page lists the first of the given runs of a schedule.
pub open spec fn lists_runs(
    schedule_key: Seq<char>,
    rows: Seq<ScheduleRunProjection>,
    limit: u32,
    page: AdminPage<ScheduleRunSummary>,
) -> bool {
    let n = query::at_most(rows.len() as int, limit);
    &&& page.items@.len() == n
    &&& forall|i: int| 0 <= i < n ==> summarizes_run(rows[i], #[trigger] page.items@[i])
    &&& text::opt_text(page.next_cursor) == query::cursor_behind(
        cursor::scoped_scope("schedule_runs"@, schedule_key),
        rows.len() as int,
        limit,
        query::row_position(rows[n - 1].scheduled_for, rows[n - 1].id),
    )
}

/// The page that lists the given runs of a schedule, one of them more than the
/// page may hold where there are more.
pub fn page_schedule_runs(
    schedule_key: &str,
    rows: Vec<ScheduleRunProjection>,
    limit: u32,
) -> (result: Result<AdminPage<ScheduleRunSummary>, DurableError>)
    requires
        limit > 0,
    ensures
        ({
            match result {
                Ok(page) => runs_problem(rows@) is None && lists_runs(
                    schedule_key@,
                    rows@,
                    limit,
                    page,
                ),
                Err(error) => runs_problem(rows@) == Some(error@),
            }
        }),
{
    let ghost all = rows@;
    let has_more = rows.len() > limit as usize;
    let mut items = match schedule_run_summaries(rows) {
        Ok(items) => items,
        Err(error) => return Err(error),
    };
    items.truncate(limit as usize);
    let ghost n = query::at_most(all.len() as int, limit);
    let mut next_cursor: Option<String> = None;
    if has_more {
        let last = &items[items.len() - 1];
        let scope = scoped_cursor_scope("schedule_runs", schedule_key);
        proof {
            assert(summarizes_run(all[n - 1], items@[n - 1]));
            query::lemma_decimal_fits(all[n - 1].id);
            lemma_runs_scope(schedule_key@);
        }
        next_cursor = match encode_cursor(
            scope.as_str(),
            &CursorPosition { timestamp: last.scheduled_for, tie_breaker: decimal_i64(last.id.get()) },
        ) {
            Ok(cursor) => Some(cursor),
            Err(error) => return Err(error),
        };
    }
    Ok(AdminPage { items, next_cursor })
}

/// A schedule is found unhealthy exactly where it is registered without a state, has a state
/// without being registered, or is persisted under another version or fingerprint than it
/// is registered under.
pub proof fn law_health_tells_how_schedules_disagree(
    definition: Option<ScheduleDefinitionMetadata>,
    state: Option<ScheduleStateRow>,
)
    ensures
        schedule_issues(definition, state).len() <= 1,
        schedule_issues(definition, state).len() == 0 <==> match (definition, state) {
            (None, None) => true,
            (Some(definition), Some(state)) => definition.version == state.definition_version
                && definition.fingerprint@ == state.definition_fingerprint@,
            _ => false,
        },
        schedule_issues(definition, state).len() == 1 ==> match schedule_issues(
            definition,
            state,
        )[0] {
            ScheduleHealthIssue::MissingState => definition is Some && state is None,
            ScheduleHealthIssue::UnregisteredState => definition is None && state is Some,
            ScheduleHealthIssue::DefinitionMismatch { registered_version, persisted_version } => {
                &&& definition matches Some(definition)
                &&& state matches Some(state)
                &&& registered_version == definition.version
                &&& persisted_version == state.definition_version
            },
        },
{
}

/// The summary of a schedule shows its definition, its state, its counts and its runs, each
/// under its own name; the last run is the first of the recent ones.
pub proof fn law_schedule_summary_shows_the_schedule(
    key: Seq<char>,
    definition: Option<ScheduleDefinitionMetadata>,
    state: Option<ScheduleStateRow>,
    counts: (u64, u64, u64),
    recent_runs: Seq<ScheduleRunSummary>,
    summary: ScheduleSummary,
)
    requires
        summarizes_schedule(key, definition, state, counts, recent_runs, summary),
    ensures
        summary.key@ == key,
        definition is None <==> summary.registered_version is None,
        definition matches Some(registered) ==> {
            &&& summary.registered_version == Some(registered.version)
            &&& summary.registered_fingerprint == Some(registered.fingerprint)
            &&& summary.cron == Some(registered.cron)
            &&& summary.timezone == Some(registered.timezone)
            &&& summary.misfire == Some(registered.misfire)
            &&& summary.overlap == Some(registered.overlap)
            &&& summary.misfire_grace_millis == Some(registered.misfire_grace_millis)
        },
        state is None <==> summary.state is None,
        state matches Some(row) ==> (summary.state matches Some(shown) && {
            &&& shown.definition_fingerprint == row.definition_fingerprint
            &&& shown.definition_version == row.definition_version
            &&& shown.next_local_occurrence == row.next_local_occurrence
            &&& shown.next_occurrence_at == row.next_occurrence_at
            &&& shown.last_materialized_at == row.last_materialized_at
            &&& shown.paused_at == row.paused_at
            &&& shown.paused_by == row.paused_by
            &&& shown.pause_reason == row.pause_reason
            &&& shown.created_at == row.created_at
            &&& shown.updated_at == row.updated_at
        }),
        summary.active_overlap_count == counts.0,
        summary.skipped_count == counts.1,
        summary.coalesced_count == counts.2,
        summary.recent_runs@ == recent_runs,
        recent_runs.len() > 0 ==> summary.last_run == Some(recent_runs[0]),
        recent_runs.len() == 0 ==> summary.last_run is None,
        summary.health_issues@.len() > 0 <==> match (definition, state) {
            (None, None) => false,
            (Some(definition), Some(state)) => definition.version != state.definition_version
                || definition.fingerprint@ != state.definition_fingerprint@,
            _ => true,
        },
{
}

/// The counts of a schedule are refused exactly where one of them is negative.
pub proof fn law_counts_are_refused_only_where_negative(active: i64, skipped: i64, coalesced: i64)
    ensures
        schedule_counts_error(active, skipped, coalesced) is None <==> active >= 0 && skipped >= 0
            && coalesced >= 0,
{
}

/// The summary of a run shows that run, each column under its own name, with the state of
/// its workflow.
pub proof fn law_run_summary_shows_the_run(row: ScheduleRunProjection, summary: ScheduleRunSummary)
    requires
        summarizes_run(row, summary),
    ensures
        summary.id@ == row.id,
        summary.schedule_key == row.schedule_key,
        summary.local_occurrence == row.local_occurrence,
        summary.scheduled_for == row.scheduled_for,
        summary.materialized_at == row.materialized_at,
        summary.status == row.status,
        summary.reason == row.reason,
        summary.actor_id == row.actor_id,
        summary.workflow_id is None <==> row.workflow_id is None,
        row.workflow_id matches Some(number) ==> (summary.workflow_id matches Some(id) && id@
            == number),
        row.workflow_status is None <==> summary.workflow_status is None,
        row.workflow_status matches Some(state) ==> (summary.workflow_status matches Some(name)
            && status::workflow_status_named(name@) == Some(state)),
        summary.workflow_completed_at == row.workflow_completed_at,
        summary.created_at == row.created_at,
{
    if let Some(state) = row.workflow_status {
        status::law_workflow_status_name_round_trip(state);
    }
}

/// A run can be shown exactly where its numbers are identifiers.
pub proof fn law_runs_are_refused_only_for_numbers(row: ScheduleRunProjection)
    ensures
        run_problem(row) is None <==> row.id > 0 && (row.workflow_id matches Some(id) ==> id > 0),
{
}

/// A page of runs shows the first ones that were read, in their order and no more than its
/// limit. It ends where all were shown, and otherwise its cursor names the time and the
/// number of the last run that it shows.
pub proof fn law_page_of_runs_continues(
    schedule_key: Seq<char>,
    rows: Seq<ScheduleRunProjection>,
    limit: u32,
    page: AdminPage<ScheduleRunSummary>,
    i: int,
)
    requires
        lists_runs(schedule_key, rows, limit, page),
        limit > 0,
        0 <= i < page.items@.len(),
    ensures
        page.items@.len() <= limit,
        page.items@[i].id@ == rows[i].id,
        page.items@[i].scheduled_for == rows[i].scheduled_for,
        page.next_cursor is None <==> page.items@.len() == rows.len(),
        page.next_cursor matches Some(cursor) ==> cursor@ == cursor::encoded_cursor(
            cursor::scoped_scope("schedule_runs"@, schedule_key),
            (PositionModel {
                timestamp: page.items@.last().scheduled_for,
                tie_breaker: numerals::decimal(page.items@.last().id@),
            }),
        ),
{
    let last = page.items@.len() - 1;
    assert(summarizes_run(rows[i], page.items@[i]));
    assert(summarizes_run(rows[last], page.items@[last]));
}

/// A page of keys shows the first ones, in their order and no more than its limit. It ends
/// where all were shown, and otherwise its cursor names the last key that it shows.
pub proof fn law_page_of_keys_continues(
    keys: Seq<String>,
    limit: u32,
    page: Seq<String>,
    next_cursor: Option<Seq<char>>,
    i: int,
)
    requires
        lists_keys(keys, limit, page, next_cursor),
        limit > 0,
        0 <= i < page.len(),
    ensures
        page.len() <= limit,
        page[i] == keys[i],
        next_cursor is None <==> page.len() == keys.len(),
        next_cursor matches Some(cursor) ==> cursor == cursor::encoded_cursor(
            "schedules"@,
            (PositionModel { timestamp: 0, tie_breaker: page.last()@ }),
        ),
{
}

/// The list of schedules behind a key holds every persisted schedule that was read, every
/// registered one whose key comes behind it, and no other.
pub proof fn law_list_holds_the_schedules_behind_a_key(
    registered: Seq<String>,
    after: Option<Seq<char>>,
    persisted: Seq<String>,
    i: int,
    key: Seq<char>,
)
    ensures
        0 <= i < persisted.len() ==> is_listed(registered, after, persisted, persisted[i]@),
        0 <= i < registered.len() && (after matches Some(after) ==> text::text_before(
            after,
            registered[i]@,
        )) ==> is_listed(registered, after, persisted, registered[i]@),
        is_listed(registered, after, persisted, key) && !among(persisted, key) ==> among(
            registered,
            key,
        ) && (after matches Some(after) ==> text::text_before(after, key)),
        among(persisted, key) <==> exists|j: int|
            0 <= j < persisted.len() && (#[trigger] persisted[j])@ == key,
{
}

} // verus!
