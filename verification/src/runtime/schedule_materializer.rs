//! The materialization of due schedule occurrences: which ones start, are
//! skipped or coalesced, and what that writes.
use vstd::prelude::*;
use crate::arith;
use crate::arith::saturating_sum;
use crate::error;
use crate::error::{DurableError, ErrorModel};
use crate::persistence::models::{
    NewScheduleRunRow, NewScheduleRunRowModel, ScheduleRunRow, ScheduleRunRowModel, ScheduleStateRow,
    ScheduleStateRowModel,
};
use crate::policy;
use crate::schedule::calendar;
use crate::schedule::calendar::{
    parse_local, LocalTime, LocalTimeDisposition, OccurrenceModel, ScheduleCalendar,
    ScheduleOccurrence, MAX_CALENDAR_MILLIS,
};
use crate::schedule::registry::{
    MisfirePolicy, OverlapPolicy, ScheduleDefinitionMetadata, ScheduleStateReconcileOutcome,
};
use crate::text;
use crate::text::{join3, same_text};

verus! {

/// The most due occurrences that one tick materializes.
pub const MAX_DUE_OCCURRENCES_PER_TICK: usize = 10_000;

/// What becomes of one due occurrence.
#[derive(Debug, Clone, Copy, PartialEq, Eq)]
pub enum OccurrenceOutcome {
    Start,
    Skip(&'static str),
    Coalesce,
}

/// The mathematical content of an [`OccurrenceOutcome`].
#[verifier::ext_equal]
pub enum OutcomeModel {
    Start,
    Skip(Seq<char>),
    Coalesce,
}

impl View for OccurrenceOutcome {
    type V = OutcomeModel;

    open spec fn view(&self) -> OutcomeModel {
        match *self {
            OccurrenceOutcome::Start => OutcomeModel::Start,
            OccurrenceOutcome::Skip(reason) => OutcomeModel::Skip(reason@),
            OccurrenceOutcome::Coalesce => OutcomeModel::Coalesce,
        }
    }
}

/// Whether an occurrence lies in no gap of its time zone.
pub open spec fn is_runnable(occurrence: OccurrenceModel) -> bool {
    occurrence.disposition != LocalTimeDisposition::Gap
}

/// How many occurrences lie in no gap.
pub open spec fn runnable_count(due: Seq<OccurrenceModel>) -> nat
    decreases due.len(),
{
    if due.len() == 0 {
        0
    } else {
        (if is_runnable(due[0]) {
            1nat
        } else {
            0nat
        }) + runnable_count(due.drop_first())
    }
}

/// What becomes of a due occurrence that so many due occurrences outside gaps
/// follow: each policy that limits what starts keeps the latest ones.
pub open spec fn outcome_for(
    occurrence: OccurrenceModel,
    policy: MisfirePolicy,
    grace_millis: i64,
    now: i64,
    later: int,
) -> OutcomeModel {
    if !is_runnable(occurrence) {
        OutcomeModel::Skip("dst_gap"@)
    } else {
        match policy {
            MisfirePolicy::Skip => if arith::clamp64(occurrence.due_at + grace_millis) < now {
                OutcomeModel::Skip("misfire_skip"@)
            } else {
                OutcomeModel::Start
            },
            MisfirePolicy::RunLatest => if later == 0 {
                OutcomeModel::Start
            } else {
                OutcomeModel::Coalesce
            },
            MisfirePolicy::CatchUp { max_occurrences } => if later < max_occurrences {
                OutcomeModel::Start
            } else {
                OutcomeModel::Skip("catch_up_limit"@)
            },
        }
    }
}

/// The views of a sequence of occurrences.
pub open spec fn occurrence_views(due: Seq<ScheduleOccurrence>) -> Seq<OccurrenceModel> {
    due.map_values(|occurrence: ScheduleOccurrence| occurrence@)
}

/// The views of a sequence of outcomes.
pub open spec fn outcome_views(outcomes: Seq<OccurrenceOutcome>) -> Seq<OutcomeModel> {
    outcomes.map_values(|outcome: OccurrenceOutcome| outcome@)
}

/// What becomes of each due occurrence, where `following` due occurrences
/// outside gaps come after the last one.
pub open spec fn classified(
    due: Seq<OccurrenceModel>,
    policy: MisfirePolicy,
    grace_millis: i64,
    now: i64,
    following: int,
) -> Seq<OutcomeModel> {
    Seq::new(
        due.len(),
        |i: int|
            outcome_for(
                due[i],
                policy,
                grace_millis,
                now,
                runnable_count(due.skip(i + 1)) + following,
            ),
    )
}

fn decide(
    occurrence: &ScheduleOccurrence,
    policy: MisfirePolicy,
    grace_millis: i64,
    now: i64,
    later: u128,
) -> (outcome: OccurrenceOutcome)
    ensures
        outcome@ == outcome_for(occurrence@, policy, grace_millis, now, later as int),
{
    if occurrence.disposition == LocalTimeDisposition::Gap {
        return OccurrenceOutcome::Skip("dst_gap");
    }
    match policy {
        MisfirePolicy::Skip => {
            if saturating_sum(occurrence.due_at, grace_millis) < now {
                OccurrenceOutcome::Skip("misfire_skip")
            } else {
                OccurrenceOutcome::Start
            }
        },
        MisfirePolicy::RunLatest => {
            if later == 0 {
                OccurrenceOutcome::Start
            } else {
                OccurrenceOutcome::Coalesce
            }
        },
        MisfirePolicy::CatchUp { max_occurrences } => {
            if later < max_occurrences as u128 {
                OccurrenceOutcome::Start
            } else {
                OccurrenceOutcome::Skip("catch_up_limit")
            }
        },
    }
}

proof fn lemma_runnable_count_bound(due: Seq<OccurrenceModel>)
    ensures
        runnable_count(due) <= due.len(),
    decreases due.len(),
{
    if due.len() > 0 {
        lemma_runnable_count_bound(due.drop_first());
    }
}

fn count_runnable(due: &Vec<ScheduleOccurrence>) -> (count: usize)
    ensures
        count == runnable_count(occurrence_views(due@)),
{
    let mut count: usize = 0;
    let total: usize = due.len();
    let mut i: usize = total;
    let ghost views = occurrence_views(due@);
    assert(views.skip(views.len() as int) =~= Seq::<OccurrenceModel>::empty());
    while i > 0
        invariant
            i <= total,
            total == due@.len(),
            views == occurrence_views(due@),
            count == runnable_count(views.skip(i as int)),
            count <= total - i,
        decreases i,
    {
        i = i - 1;
        assert(views.skip(i as int).drop_first() =~= views.skip(i as int + 1));
        assert(views.skip(i as int)[0] == due@[i as int]@);
        if due[i].disposition != LocalTimeDisposition::Gap {
            count = count + 1;
        }
    }
    assert(views.skip(0) =~= views);
    count
}

/// Decides what becomes of each due occurrence. `following_runnable` due
/// occurrences outside gaps come after the last one.
pub fn classify(
    due: &Vec<ScheduleOccurrence>,
    policy: MisfirePolicy,
    grace_millis: i64,
    now: i64,
    following_runnable: u32,
) -> (outcomes: Vec<OccurrenceOutcome>)
    ensures
        outcome_views(outcomes@) == classified(
            occurrence_views(due@),
            policy,
            grace_millis,
            now,
            following_runnable as int,
        ),
{
    let ghost views = occurrence_views(due@);
    let mut outcomes: Vec<OccurrenceOutcome> = Vec::new();
    let mut later: usize = count_runnable(due);
    let mut i: usize = 0;
    assert(views.skip(0) =~= views);
    while i < due.len()
        invariant
            i <= due@.len(),
            views == occurrence_views(due@),
            later == runnable_count(views.skip(i as int)),
            outcomes@.len() == i,
            forall|j: int|
                0 <= j < i ==> (#[trigger] outcomes@[j])@ == outcome_for(
                    views[j],
                    policy,
                    grace_millis,
                    now,
                    runnable_count(views.skip(j + 1)) + following_runnable,
                ),
        decreases due@.len() - i,
    {
        proof {
            assert(views.skip(i as int).drop_first() =~= views.skip(i as int + 1));
            assert(views.skip(i as int)[0] == due@[i as int]@);
            lemma_runnable_count_bound(views.skip(i as int + 1));
        }
        if due[i].disposition != LocalTimeDisposition::Gap {
            later = later - 1;
        }
        let followers: u128 = later as u128 + following_runnable as u128;
        outcomes.push(decide(&due[i], policy, grace_millis, now, followers));
        i = i + 1;
    }
    assert(outcome_views(outcomes@) =~= classified(
        views,
        policy,
        grace_millis,
        now,
        following_runnable as int,
    ));
    outcomes
}

/// The occurrence after the one at a wall-clock time.
pub open spec fn succeeding(cron: Seq<char>, timezone: Seq<char>, local: int) -> Result<
    OccurrenceModel,
    ErrorModel,
> {
    if local > MAX_CALENDAR_MILLIS - 1000 {
        Err(ErrorModel::InvalidDefinition("schedule has no next occurrence"@))
    } else {
        calendar::next_occurrence(cron, timezone, local)
    }
}

/// The due occurrences from the given one on, at most `limit` of them, and the
/// one that comes next.
pub open spec fn due_from(
    cron: Seq<char>,
    timezone: Seq<char>,
    occurrence: OccurrenceModel,
    now: i64,
    limit: nat,
) -> Result<(Seq<OccurrenceModel>, OccurrenceModel), ErrorModel>
    decreases limit,
{
    if occurrence.due_at > now || limit == 0 {
        Ok((Seq::empty(), occurrence))
    } else {
        match succeeding(cron, timezone, occurrence.local) {
            Err(error) => Err(error),
            Ok(next) => with_earlier(
                seq![occurrence],
                due_from(cron, timezone, next, now, (limit - 1) as nat),
            ),
        }
    }
}

/// Due occurrences with some earlier ones in front.
pub open spec fn with_earlier(
    earlier: Seq<OccurrenceModel>,
    due: Result<(Seq<OccurrenceModel>, OccurrenceModel), ErrorModel>,
) -> Result<(Seq<OccurrenceModel>, OccurrenceModel), ErrorModel> {
    match due {
        Ok((later, next)) => Ok((earlier + later, next)),
        Err(error) => Err(error),
    }
}

/// How many occurrences a policy lets start when several were missed; none where
/// each occurrence is judged by itself.
pub open spec fn budget_of(policy: MisfirePolicy) -> nat {
    match policy {
        MisfirePolicy::Skip => 0,
        MisfirePolicy::RunLatest => 1,
        MisfirePolicy::CatchUp { max_occurrences } => max_occurrences as nat,
    }
}

/// How many due occurrences outside gaps come after a wall-clock time, counted
/// no further than `budget`.
pub open spec fn following(
    cron: Seq<char>,
    timezone: Seq<char>,
    after: int,
    now: i64,
    budget: nat,
) -> Result<nat, ErrorModel>
    decreases budget,
{
    if budget == 0 {
        Ok(0)
    } else if after > MAX_CALENDAR_MILLIS - 1000 {
        Err(ErrorModel::InvalidDefinition("schedule has no next occurrence"@))
    } else {
        match calendar::next_runnable(cron, timezone, after, now as int) {
            Err(error) => Err(error),
            Ok(None) => Ok(0),
            Ok(Some(next)) => one_more(
                following(cron, timezone, next.local, now, (budget - 1) as nat),
            ),
        }
    }
}

/// One more than a count.
pub open spec fn one_more(count: Result<nat, ErrorModel>) -> Result<nat, ErrorModel> {
    match count {
        Ok(count) => Ok(count + 1),
        Err(error) => Err(error),
    }
}

/// So many more than a count.
pub open spec fn so_many_more(earlier: nat, count: Result<nat, ErrorModel>) -> Result<
    nat,
    ErrorModel,
> {
    match count {
        Ok(count) => Ok(earlier + count),
        Err(error) => Err(error),
    }
}

/// What one tick does about the due occurrences of a schedule.
pub struct ChunkModel {
    pub due: Seq<OccurrenceModel>,
    pub next: OccurrenceModel,
    pub outcomes: Seq<OutcomeModel>,
}

/// The chunk of a tick: the first due occurrences, what becomes of each, and the
/// occurrence at which the next tick goes on. Due occurrences that are left for
/// later ticks count against the policy's budget.
pub open spec fn chunk_from(
    cron: Seq<char>,
    timezone: Seq<char>,
    occurrence: OccurrenceModel,
    policy: MisfirePolicy,
    grace_millis: i64,
    now: i64,
    limit: nat,
) -> Result<ChunkModel, ErrorModel> {
    match due_from(cron, timezone, occurrence, now, limit) {
        Err(error) => Err(error),
        Ok((due, next)) => {
            let count = if next.due_at <= now && due.len() > 0 {
                following(cron, timezone, due.last().local, now, budget_of(policy))
            } else {
                Ok(0)
            };
            match count {
                Err(error) => Err(error),
                Ok(count) => Ok(
                    ChunkModel {
                        due,
                        next,
                        outcomes: classified(due, policy, grace_millis, now, count as int),
                    },
                ),
            }
        },
    }
}

/// The due occurrences of a tick, the occurrence that comes next, and what
/// becomes of each due one.
#[derive(Debug)]
pub struct DueChunk {
    pub due: Vec<ScheduleOccurrence>,
    pub next: ScheduleOccurrence,
    pub outcomes: Vec<OccurrenceOutcome>,
}

impl View for DueChunk {
    type V = ChunkModel;

    open spec fn view(&self) -> ChunkModel {
        ChunkModel {
            due: occurrence_views(self.due@),
            next: self.next@,
            outcomes: outcome_views(self.outcomes@),
        }
    }
}

/// The model of a chunk or of the error in its place.
pub open spec fn chunk_result(result: Result<DueChunk, DurableError>) -> Result<
    ChunkModel,
    ErrorModel,
> {
    match result {
        Ok(chunk) => Ok(chunk@),
        Err(error) => Err(error@),
    }
}

/// The occurrence at a place of a backlog, or the one behind it.
pub open spec fn nth(all: Seq<OccurrenceModel>, end: OccurrenceModel, i: int) -> OccurrenceModel {
    if 0 <= i < all.len() {
        all[i]
    } else {
        end
    }
}

/// Whether the calendar was asked for each due occurrence and for the one behind
/// them: the ticks behind the due ones are the next ones, and the occurrences that
/// follow the first are those of their wall-clock times.
pub open spec fn is_grounded(
    cron: Seq<char>,
    timezone: Seq<char>,
    due: Seq<OccurrenceModel>,
    next: OccurrenceModel,
) -> bool {
    &&& forall|i: int|
        0 <= i < due.len() ==> calendar::tick_is_next(cron, (#[trigger] due[i]).local)
    &&& forall|i: int|
        1 <= i < due.len() ==> calendar::is_occurrence(timezone, #[trigger] due[i])
    &&& due.len() > 0 ==> calendar::is_occurrence(timezone, next)
}

fn succeed(calendar: &ScheduleCalendar, local: LocalTime) -> (result: Result<
    ScheduleOccurrence,
    DurableError,
>)
    ensures
        calendar::occurrence_result(result) == succeeding(
            calendar@.cron,
            calendar@.timezone,
            local@,
        ),
        result matches Ok(next) ==> calendar::tick_is_next(calendar@.cron, local@)
            && calendar::is_occurrence(calendar@.timezone, next@),
{
    if local.millis() > MAX_CALENDAR_MILLIS - 1000 {
        return Err(error::invalid_definition("schedule has no next occurrence"));
    }
    calendar.next_after_local(local)
}

fn collect_due(
    calendar: &ScheduleCalendar,
    occurrence: ScheduleOccurrence,
    now: i64,
) -> (result: Result<(Vec<ScheduleOccurrence>, ScheduleOccurrence), DurableError>)
    ensures
        match result {
            Ok((due, next)) => due_from(
                calendar@.cron,
                calendar@.timezone,
                occurrence@,
                now,
                MAX_DUE_OCCURRENCES_PER_TICK as nat,
            ) == Ok::<_, ErrorModel>((occurrence_views(due@), next@)) && due@.len()
                <= MAX_DUE_OCCURRENCES_PER_TICK && is_grounded(
                calendar@.cron,
                calendar@.timezone,
                occurrence_views(due@),
                next@,
            ),
            Err(error) => due_from(
                calendar@.cron,
                calendar@.timezone,
                occurrence@,
                now,
                MAX_DUE_OCCURRENCES_PER_TICK as nat,
            ) == Err::<(Seq<OccurrenceModel>, OccurrenceModel), _>(error@),
        },
{
    let ghost cron = calendar@.cron;
    let ghost timezone = calendar@.timezone;
    let ghost whole = due_from(
        cron,
        timezone,
        occurrence@,
        now,
        MAX_DUE_OCCURRENCES_PER_TICK as nat,
    );
    let mut due: Vec<ScheduleOccurrence> = Vec::new();
    let mut current = occurrence;
    proof {
        assert(with_earlier(occurrence_views(due@), whole) == whole) by {
            match whole {
                Ok((later, next)) => {
                    assert(occurrence_views(due@) + later =~= later);
                },
                Err(_) => {},
            }
        }
    }
    while current.due_at <= now && due.len() < MAX_DUE_OCCURRENCES_PER_TICK
        invariant
            cron == calendar@.cron,
            timezone == calendar@.timezone,
            whole == due_from(
                cron,
                timezone,
                occurrence@,
                now,
                MAX_DUE_OCCURRENCES_PER_TICK as nat,
            ),
            due@.len() <= MAX_DUE_OCCURRENCES_PER_TICK,
            with_earlier(
                occurrence_views(due@),
                due_from(
                    cron,
                    timezone,
                    current@,
                    now,
                    (MAX_DUE_OCCURRENCES_PER_TICK - due@.len()) as nat,
                ),
            ) == whole,
            is_grounded(cron, timezone, occurrence_views(due@), current@),
        decreases MAX_DUE_OCCURRENCES_PER_TICK - due@.len(),
    {
        let ghost before = occurrence_views(due@);
        let ghost here = current@;
        let next = match succeed(calendar, current.local_datetime) {
            Ok(next) => next,
            Err(error) => return Err(error),
        };
        due.push(current);
        proof {
            assert(occurrence_views(due@) =~= before.push(here));
            let rest = due_from(
                cron,
                timezone,
                next@,
                now,
                (MAX_DUE_OCCURRENCES_PER_TICK - due@.len()) as nat,
            );
            match rest {
                Ok((later, _)) => {
                    assert(before + (seq![here] + later) =~= before.push(here) + later);
                },
                Err(_) => {},
            }
        }
        current = next;
    }
    proof {
        assert(occurrence_views(due@) + Seq::<OccurrenceModel>::empty() =~= occurrence_views(due@));
    }
    Ok((due, current))
}

fn count_following(calendar: &ScheduleCalendar, after: LocalTime, now: i64, budget: u32) -> (result:
    Result<u32, DurableError>)
    ensures
        match result {
            Ok(count) => following(
                calendar@.cron,
                calendar@.timezone,
                after@,
                now,
                budget as nat,
            ) == Ok::<nat, ErrorModel>(count as nat),
            Err(error) => following(
                calendar@.cron,
                calendar@.timezone,
                after@,
                now,
                budget as nat,
            ) == Err::<nat, ErrorModel>(error@),
        },
{
    let ghost cron = calendar@.cron;
    let ghost timezone = calendar@.timezone;
    let ghost whole = following(cron, timezone, after@, now, budget as nat);
    let mut count: u32 = 0;
    let mut current = after;
    while count < budget
        invariant
            cron == calendar@.cron,
            timezone == calendar@.timezone,
            whole == following(cron, timezone, after@, now, budget as nat),
            count <= budget,
            so_many_more(
                count as nat,
                following(cron, timezone, current@, now, (budget - count) as nat),
            ) == whole,
        decreases budget - count,
    {
        if current.millis() > MAX_CALENDAR_MILLIS - 1000 {
            return Err(error::invalid_definition("schedule has no next occurrence"));
        }
        match calendar.next_runnable_through(current, now) {
            Ok(Some(next)) => {
                count = count + 1;
                current = next.local_datetime;
            },
            Ok(None) => return Ok(count),
            Err(error) => return Err(error),
        }
    }
    Ok(count)
}

/// Plans one tick of a schedule from the given occurrence on: at most
/// [`MAX_DUE_OCCURRENCES_PER_TICK`] due occurrences, what becomes of each, and
/// where the next tick goes on.
pub fn plan_due_chunk(
    calendar: &ScheduleCalendar,
    occurrence: ScheduleOccurrence,
    policy: MisfirePolicy,
    grace_millis: i64,
    now: i64,
) -> (result: Result<DueChunk, DurableError>)
    ensures
        chunk_result(result) == chunk_from(
            calendar@.cron,
            calendar@.timezone,
            occurrence@,
            policy,
            grace_millis,
            now,
            MAX_DUE_OCCURRENCES_PER_TICK as nat,
        ),
        result matches Ok(chunk) ==> chunk.due@.len() == chunk.outcomes@.len() && chunk.due@.len()
            <= MAX_DUE_OCCURRENCES_PER_TICK && is_grounded(
            calendar@.cron,
            calendar@.timezone,
            chunk@.due,
            chunk@.next,
        ),
{
    let (due, next) = match collect_due(calendar, occurrence, now) {
        Ok(found) => found,
        Err(error) => return Err(error),
    };
    let budget: u32 = match policy {
        MisfirePolicy::Skip => 0,
        MisfirePolicy::RunLatest => 1,
        MisfirePolicy::CatchUp { max_occurrences } => max_occurrences,
    };
    let mut following_runnable: u32 = 0;
    if next.due_at <= now && due.len() > 0 {
        assert(occurrence_views(due@).last() == due@.last()@);
        following_runnable = match count_following(
            calendar,
            due[due.len() - 1].local_datetime,
            now,
            budget,
        ) {
            Ok(count) => count,
            Err(error) => return Err(error),
        };
    }
    let outcomes = classify(&due, policy, grace_millis, now, following_runnable);
    proof {
        assert(outcome_views(outcomes@).len() == outcomes@.len());
        assert(occurrence_views(due@).len() == due@.len());
    }
    Ok(DueChunk { due, next, outcomes })
}

/// What one tick did for a schedule.
#[derive(Debug, Clone, PartialEq, Eq)]
pub struct ScheduleMaterializationReport {
    pub schedule_key: String,
    pub inspected: u32,
    pub started: u32,
    pub queued: u32,
    pub skipped: u32,
    pub coalesced: u32,
    pub paused: bool,
}

/// The mathematical content of a [`ScheduleMaterializationReport`].
#[verifier::ext_equal]
pub struct ReportModel {
    pub schedule_key: Seq<char>,
    pub inspected: int,
    pub started: int,
    pub queued: int,
    pub skipped: int,
    pub coalesced: int,
    pub paused: bool,
}

impl View for ScheduleMaterializationReport {
    type V = ReportModel;

    open spec fn view(&self) -> ReportModel {
        ReportModel {
            schedule_key: self.schedule_key@,
            inspected: self.inspected as int,
            started: self.started as int,
            queued: self.queued as int,
            skipped: self.skipped as int,
            coalesced: self.coalesced as int,
            paused: self.paused,
        }
    }
}

/// The report of a tick that did nothing.
pub open spec fn empty_report(schedule_key: Seq<char>) -> ReportModel {
    ReportModel {
        schedule_key,
        inspected: 0,
        started: 0,
        queued: 0,
        skipped: 0,
        coalesced: 0,
        paused: false,
    }
}

impl ScheduleMaterializationReport {
    /// The report of a tick that did nothing.
    pub fn empty(schedule_key: &str) -> (report: Self)
        ensures
            report@ == empty_report(schedule_key@),
    {
        ScheduleMaterializationReport {
            schedule_key: schedule_key.to_owned(),
            inspected: 0,
            started: 0,
            queued: 0,
            skipped: 0,
            coalesced: 0,
            paused: false,
        }
    }
}

/// Whether a tick goes on once the state of its schedule was reconciled: not
/// where the state is new or was upgraded. Refuses a state of a newer definition.
pub fn continue_after_reconcile(schedule_key: &str, outcome: ScheduleStateReconcileOutcome) -> (
result: Result<bool, DurableError>)
    ensures
        error::result_model(result) == (match outcome {
            ScheduleStateReconcileOutcome::Inserted | ScheduleStateReconcileOutcome::Upgraded => Ok(
                false,
            ),
            ScheduleStateReconcileOutcome::Preserved => Ok(true),
            ScheduleStateReconcileOutcome::NewerPersisted => Err(
                ErrorModel::Conflict(
                    "schedule "@ + schedule_key@ + " has a newer persisted definition"@,
                ),
            ),
        }),
{
    match outcome {
        ScheduleStateReconcileOutcome::Inserted | ScheduleStateReconcileOutcome::Upgraded => Ok(
            false,
        ),
        ScheduleStateReconcileOutcome::Preserved => Ok(true),
        ScheduleStateReconcileOutcome::NewerPersisted => Err(
            DurableError::Conflict(
                join3("schedule ", schedule_key, " has a newer persisted definition"),
            ),
        ),
    }
}

/// The state of a tick between its occurrences: how many workflows of the
/// schedule run, whether a run is queued, and what was done so far.
#[derive(Debug)]
pub struct Tick {
    pub active: i64,
    pub queued: bool,
    pub report: ScheduleMaterializationReport,
}

/// The mathematical content of a [`Tick`].
#[verifier::ext_equal]
pub struct TickModel {
    pub active: i64,
    pub queued: bool,
    pub report: ReportModel,
}

impl View for Tick {
    type V = TickModel;

    open spec fn view(&self) -> TickModel {
        TickModel { active: self.active, queued: self.queued, report: self.report@ }
    }
}

/// Whether a tick begins by starting the queued run.
pub open spec fn promotes(overlap: OverlapPolicy, active: i64, queued: bool) -> bool {
    overlap == OverlapPolicy::QueueOne && active == 0 && queued
}

/// A tick at its start.
pub open spec fn fresh_tick(
    schedule_key: Seq<char>,
    overlap: OverlapPolicy,
    active: i64,
    queued: bool,
) -> TickModel {
    if promotes(overlap, active, queued) {
        TickModel {
            active: 1,
            queued: false,
            report: ReportModel { started: 1, ..empty_report(schedule_key) },
        }
    } else {
        TickModel { active, queued, report: empty_report(schedule_key) }
    }
}

/// How a tick begins.
#[derive(Debug)]
pub enum TickStart {
    /// The schedule is paused: nothing is done.
    Paused(ScheduleMaterializationReport),
    /// The tick runs; where `promote` is set the queued run is started first.
    Run { tick: Tick, promote: bool },
}

/// Begins a tick on the locked state of a schedule. Refuses a state that does not
/// belong to the definition any more.
pub fn begin_tick(
    state: &ScheduleStateRow,
    metadata: &ScheduleDefinitionMetadata,
    active: i64,
    queued: bool,
) -> (result: Result<TickStart, DurableError>)
    ensures
        ({
            let current = state@.definition_version == metadata@.version
                && state@.definition_fingerprint == metadata@.fingerprint;
            match result {
                Ok(TickStart::Paused(report)) => current && state@.paused_at is Some && report@ == (
                ReportModel { paused: true, ..empty_report(metadata@.key) }),
                Ok(TickStart::Run { tick, promote }) => {
                    &&& current
                    &&& state@.paused_at is None
                    &&& promote == promotes(metadata@.overlap, active, queued)
                    &&& tick@ == fresh_tick(metadata@.key, metadata@.overlap, active, queued)
                },
                Err(error) => !current && error@ == ErrorModel::Conflict(
                    "schedule "@ + metadata@.key + " definition changed while materializing"@,
                ),
            }
        }),
{
    if state.definition_version != metadata.version || !same_text(
        state.definition_fingerprint.as_str(),
        metadata.fingerprint.as_str(),
    ) {
        return Err(
            DurableError::Conflict(
                join3(
                    "schedule ",
                    metadata.key.as_str(),
                    " definition changed while materializing",
                ),
            ),
        );
    }
    let mut report = ScheduleMaterializationReport::empty(metadata.key.as_str());
    if state.paused_at.is_some() {
        report.paused = true;
        return Ok(TickStart::Paused(report));
    }
    let promote = metadata.overlap == OverlapPolicy::QueueOne && active == 0 && queued;
    if promote {
        report.started = 1;
        return Ok(TickStart::Run { tick: Tick { active: 1, queued: false, report }, promote });
    }
    Ok(TickStart::Run { tick: Tick { active, queued, report }, promote })
}

/// Where a schedule stands according to its persisted state, or why the state is
/// refused. `local` is what the persisted wall-clock time reads as.
pub open spec fn persisted_occurrence(
    state: ScheduleStateRowModel,
    timezone: Seq<char>,
    local: Result<(int, int), Seq<char>>,
) -> Result<OccurrenceModel, ErrorModel> {
    match local {
        Err(refusal) => Err(
            ErrorModel::InvalidState(
                "schedule "@ + state.schedule_key + " has invalid persisted local occurrence: "@
                    + refusal,
            ),
        ),
        Ok((seconds, nanos)) => if !calendar::is_second(seconds, nanos) {
            Err(occurrences_disagree(state))
        } else {
            match calendar::resolved_at(timezone, 1000 * seconds, nanos == calendar::LEAP_NANOS) {
                Err(error) => Err(error),
                Ok(occurrence) => if occurrence.text != state.next_local_occurrence
                    || occurrence.due_at != state.next_occurrence_at {
                    Err(occurrences_disagree(state))
                } else {
                    Ok(occurrence)
                },
            }
        },
    }
}

/// The refusal of a state whose two next occurrences are not the same.
pub open spec fn occurrences_disagree(state: ScheduleStateRowModel) -> ErrorModel {
    ErrorModel::InvalidState(
        "schedule "@ + state.schedule_key + " persisted local and UTC occurrences disagree"@,
    )
}

/// Where a schedule stands according to its persisted state; `local` is what the
/// persisted wall-clock time reads as, in seconds and nanoseconds.
pub fn occurrence_from(
    state: &ScheduleStateRow,
    calendar: &ScheduleCalendar,
    local: Result<(i64, u32), String>,
) -> (result: Result<ScheduleOccurrence, DurableError>)
    ensures
        calendar::occurrence_result(result) == persisted_occurrence(
            state@,
            calendar@.timezone,
            calendar::local_model(local),
        ),
        result matches Ok(occurrence) ==> calendar::is_occurrence(calendar@.timezone, occurrence@),
{
    let local = match local {
        Ok((seconds, nanos)) => LocalTime::from_second(seconds, nanos),
        Err(refusal) => {
            let mut message = join3(
                "schedule ",
                state.schedule_key.as_str(),
                " has invalid persisted local occurrence: ",
            );
            message.append(refusal.as_str());
            return Err(DurableError::InvalidState(message));
        },
    };
    let disagreement = join3(
        "schedule ",
        state.schedule_key.as_str(),
        " persisted local and UTC occurrences disagree",
    );
    let occurrence = match local {
        Some(local) => match calendar.occurrence_at_local(local) {
            Ok(occurrence) => occurrence,
            Err(error) => return Err(error),
        },
        None => return Err(DurableError::InvalidState(disagreement)),
    };
    if !same_text(
        occurrence.local_occurrence.as_str(),
        state.next_local_occurrence.as_str(),
    ) || occurrence.due_at != state.next_occurrence_at {
        return Err(DurableError::InvalidState(disagreement));
    }
    proof {
        reveal(calendar::is_occurrence);
    }
    Ok(occurrence)
}

/// Whether a state that was written for an occurrence of the years 0 to 9999 is
/// read back as that occurrence.
pub open spec fn reads_written_state(
    state: ScheduleStateRowModel,
    timezone: Seq<char>,
    result: Result<OccurrenceModel, ErrorModel>,
) -> bool {
    forall|local: int, leap: bool|
        -62_167_219_200_000 <= local < 253_402_300_800_000 && local % 1000 == 0 && (leap
            ==> calendar::ends_minute(local)) && (#[trigger] calendar::resolved_at(
            timezone,
            local,
            leap,
        )) is Ok && state.next_local_occurrence == calendar::resolved_at(
            timezone,
            local,
            leap,
        )->Ok_0.text && state.next_occurrence_at == calendar::resolved_at(
            timezone,
            local,
            leap,
        )->Ok_0.due_at ==> result == calendar::resolved_at(timezone, local, leap)
}

/// Where a schedule stands according to its persisted state. A state that was
/// written for an occurrence is read back as that occurrence.
pub fn current_occurrence(state: &ScheduleStateRow, calendar: &ScheduleCalendar) -> (result: Result<
    ScheduleOccurrence,
    DurableError,
>)
    ensures
        calendar::occurrence_result(result) == persisted_occurrence(
            state@,
            calendar@.timezone,
            calendar::parsed_local(state@.next_local_occurrence),
        ),
        result matches Ok(occurrence) ==> calendar::is_occurrence(calendar@.timezone, occurrence@),
        reads_written_state(state@, calendar@.timezone, calendar::occurrence_result(result)),
{
    let local = parse_local(state.next_local_occurrence.as_str());
    let ghost reading = calendar::local_model(local);
    let result = occurrence_from(state, calendar, local);
    proof {
        assert forall|local: int, leap: bool|
            -62_167_219_200_000 <= local < 253_402_300_800_000 && local % 1000 == 0 && (leap
                ==> calendar::ends_minute(local)) && (#[trigger] calendar::resolved_at(
                calendar@.timezone,
                local,
                leap,
            )) is Ok && state@.next_local_occurrence == calendar::resolved_at(
                calendar@.timezone,
                local,
                leap,
            )->Ok_0.text && state@.next_occurrence_at == calendar::resolved_at(
                calendar@.timezone,
                local,
                leap,
            )->Ok_0.due_at implies calendar::occurrence_result(result) == calendar::resolved_at(
            calendar@.timezone,
            local,
            leap,
        ) by {
            let nanos = if leap {
                calendar::LEAP_NANOS as int
            } else {
                0
            };
            assert(local % 1000 * calendar::MILLI_NANOS == 0);
            assert(calendar::is_second(local / 1000, nanos));
            assert(state@.next_local_occurrence == calendar::local_text(local / 1000, nanos));
            assert(reading == Ok::<(int, int), Seq<char>>((local / 1000, nanos)));
        }
    }
    result
}

/// What becomes of an occurrence in view of the workflows that still run.
pub open spec fn placed(
    outcome: OutcomeModel,
    overlap: OverlapPolicy,
    active: i64,
    queued: bool,
) -> OutcomeModel {
    if outcome is Start && active > 0 {
        match overlap {
            OverlapPolicy::Allow => outcome,
            OverlapPolicy::SkipIfActive => OutcomeModel::Skip("overlap_active"@),
            OverlapPolicy::QueueOne => if queued {
                OutcomeModel::Skip("overlap_queue_full"@)
            } else {
                outcome
            },
        }
    } else {
        outcome
    }
}

/// Whether an occurrence is queued rather than started.
pub open spec fn is_queued(
    outcome: OutcomeModel,
    overlap: OverlapPolicy,
    active: i64,
    queued: bool,
) -> bool {
    outcome is Start && overlap == OverlapPolicy::QueueOne && active > 0 && !queued
}

/// The status and reason of the run of an occurrence.
pub open spec fn run_status(
    outcome: OutcomeModel,
    overlap: OverlapPolicy,
    active: i64,
    queued: bool,
) -> (Seq<char>, Option<Seq<char>>) {
    if is_queued(outcome, overlap, active, queued) {
        ("queued"@, Some("overlap_queue_one"@))
    } else {
        match placed(outcome, overlap, active, queued) {
            OutcomeModel::Start => ("materializing"@, None),
            OutcomeModel::Skip(reason) => ("skipped"@, Some(reason)),
            OutcomeModel::Coalesce => ("coalesced"@, Some("run_latest"@)),
        }
    }
}

/// The run that is inserted for an occurrence.
pub open spec fn planned_run(
    schedule_key: Seq<char>,
    occurrence: OccurrenceModel,
    status: (Seq<char>, Option<Seq<char>>),
    now: i64,
) -> NewScheduleRunRowModel {
    NewScheduleRunRowModel {
        schedule_key,
        local_occurrence: occurrence.text,
        scheduled_for: occurrence.scheduled_for as i64,
        materialized_at: now,
        status: status.0,
        reason: status.1,
        actor_id: None,
        workflow_id: None,
        created_at: now,
    }
}

/// One more, where the number can be represented.
pub open spec fn bumped(count: int) -> int {
    if count < u32::MAX {
        count + 1
    } else {
        count
    }
}

/// The tick after one occurrence.
pub open spec fn after_occurrence(
    tick: TickModel,
    outcome: OutcomeModel,
    overlap: OverlapPolicy,
) -> TickModel {
    if is_queued(outcome, overlap, tick.active, tick.queued) {
        TickModel {
            queued: true,
            report: ReportModel { queued: bumped(tick.report.queued), ..tick.report },
            ..tick
        }
    } else {
        match placed(outcome, overlap, tick.active, tick.queued) {
            OutcomeModel::Start => TickModel {
                active: arith::clamp64(tick.active + 1),
                report: ReportModel { started: bumped(tick.report.started), ..tick.report },
                ..tick
            },
            OutcomeModel::Skip(_) => TickModel {
                report: ReportModel { skipped: bumped(tick.report.skipped), ..tick.report },
                ..tick
            },
            OutcomeModel::Coalesce => TickModel {
                report: ReportModel { coalesced: bumped(tick.report.coalesced), ..tick.report },
                ..tick
            },
        }
    }
}

fn bump(count: u32) -> (next: u32)
    ensures
        next == bumped(count as int),
{
    if count < u32::MAX {
        count + 1
    } else {
        count
    }
}

impl Tick {
    /// Takes up one occurrence: gives the run to insert and counts it. A run with
    /// the status `materializing` is started right away.
    pub fn materialize_occurrence(
        &mut self,
        overlap: OverlapPolicy,
        occurrence: &ScheduleOccurrence,
        outcome: OccurrenceOutcome,
        now: i64,
    ) -> (run: NewScheduleRunRow)
        ensures
            run@ == planned_run(
                old(self)@.report.schedule_key,
                occurrence@,
                run_status(outcome@, overlap, old(self)@.active, old(self)@.queued),
                now,
            ),
            final(self)@ == after_occurrence(old(self)@, outcome@, overlap),
    {
        let starts = match outcome {
            OccurrenceOutcome::Start => true,
            _ => false,
        };
        let (status, reason): (&'static str, Option<&'static str>) = if starts && self.active > 0
            && overlap == OverlapPolicy::SkipIfActive {
            self.report.skipped = bump(self.report.skipped);
            ("skipped", Some("overlap_active"))
        } else if starts && self.active > 0 && overlap == OverlapPolicy::QueueOne && self.queued {
            self.report.skipped = bump(self.report.skipped);
            ("skipped", Some("overlap_queue_full"))
        } else if starts && self.active > 0 && overlap == OverlapPolicy::QueueOne {
            self.queued = true;
            self.report.queued = bump(self.report.queued);
            ("queued", Some("overlap_queue_one"))
        } else {
            match outcome {
                OccurrenceOutcome::Start => {
                    self.active = saturating_sum(self.active, 1);
                    self.report.started = bump(self.report.started);
                    ("materializing", None)
                },
                OccurrenceOutcome::Skip(reason) => {
                    self.report.skipped = bump(self.report.skipped);
                    ("skipped", Some(reason))
                },
                OccurrenceOutcome::Coalesce => {
                    self.report.coalesced = bump(self.report.coalesced);
                    ("coalesced", Some("run_latest"))
                },
            }
        };
        NewScheduleRunRow {
            schedule_key: self.report.schedule_key.clone(),
            local_occurrence: occurrence.local_occurrence.clone(),
            scheduled_for: occurrence.scheduled_for,
            materialized_at: now,
            status: status.to_owned(),
            reason: text::opt_owned(reason),
            actor_id: None,
            workflow_id: None,
            created_at: now,
        }
    }
}

/// The tick after some occurrences.
pub open spec fn after_occurrences(
    tick: TickModel,
    outcomes: Seq<OutcomeModel>,
    overlap: OverlapPolicy,
) -> TickModel
    decreases outcomes.len(),
{
    if outcomes.len() == 0 {
        tick
    } else {
        after_occurrence(
            after_occurrences(tick, outcomes.drop_last(), overlap),
            outcomes.last(),
            overlap,
        )
    }
}

/// The runs that are inserted for some occurrences.
pub open spec fn planned_runs(
    tick: TickModel,
    due: Seq<OccurrenceModel>,
    outcomes: Seq<OutcomeModel>,
    overlap: OverlapPolicy,
    now: i64,
) -> Seq<NewScheduleRunRowModel> {
    Seq::new(
        due.len(),
        |i: int|
            {
                let before = after_occurrences(tick, outcomes.take(i), overlap);
                planned_run(
                    before.report.schedule_key,
                    due[i],
                    run_status(outcomes[i], overlap, before.active, before.queued),
                    now,
                )
            },
    )
}

/// The views of a sequence of runs.
pub open spec fn run_views(runs: Seq<NewScheduleRunRow>) -> Seq<NewScheduleRunRowModel> {
    runs.map_values(|run: NewScheduleRunRow| run@)
}

/// Takes up the due occurrences of a tick one after the other: gives the runs to
/// insert, and counts them.
pub fn materialize_due(tick: Tick, chunk: &DueChunk, overlap: OverlapPolicy, now: i64) -> (planned:
    (Vec<NewScheduleRunRow>, Tick))
    requires
        chunk.due@.len() == chunk.outcomes@.len(),
        chunk.due@.len() <= MAX_DUE_OCCURRENCES_PER_TICK,
    ensures
        run_views(planned.0@) == planned_runs(tick@, chunk@.due, chunk@.outcomes, overlap, now),
        planned.1@ == (TickModel {
            report: ReportModel {
                inspected: chunk@.due.len() as int,
                ..after_occurrences(tick@, chunk@.outcomes, overlap).report
            },
            ..after_occurrences(tick@, chunk@.outcomes, overlap)
        }),
{
    let ghost outcomes = chunk@.outcomes;
    let ghost start = tick@;
    let mut current = tick;
    let mut runs: Vec<NewScheduleRunRow> = Vec::new();
    let mut i: usize = 0;
    assert(outcomes.take(0) =~= Seq::<OutcomeModel>::empty());
    while i < chunk.due.len()
        invariant
            i <= chunk.due@.len(),
            chunk.due@.len() == chunk.outcomes@.len(),
            outcomes == chunk@.outcomes,
            runs@.len() == i,
            current@ == after_occurrences(start, outcomes.take(i as int), overlap),
            forall|j: int|
                0 <= j < i ==> (#[trigger] runs@[j])@ == planned_runs(
                    start,
                    chunk@.due,
                    outcomes,
                    overlap,
                    now,
                )[j],
        decreases chunk.due@.len() - i,
    {
        proof {
            assert(outcomes.take(i as int + 1).drop_last() =~= outcomes.take(i as int));
            assert(outcomes.take(i as int + 1).last() == chunk.outcomes@[i as int]@);
            assert(chunk@.due[i as int] == chunk.due@[i as int]@);
        }
        runs.push(
            current.materialize_occurrence(overlap, &chunk.due[i], chunk.outcomes[i], now),
        );
        i = i + 1;
    }
    proof {
        assert(outcomes.take(i as int) =~= outcomes);
        assert(run_views(runs@) =~= planned_runs(start, chunk@.due, outcomes, overlap, now));
    }
    current.report.inspected = chunk.due.len() as u32;
    (runs, current)
}

/// The state of a schedule after a tick that took up occurrences.
pub open spec fn advanced_state(
    state: ScheduleStateRowModel,
    next: OccurrenceModel,
    now: i64,
) -> ScheduleStateRowModel {
    ScheduleStateRowModel {
        next_local_occurrence: next.text,
        next_occurrence_at: next.due_at as i64,
        last_materialized_at: Some(now),
        updated_at: now,
        ..state
    }
}

/// The state of a schedule after a tick; unchanged, so nothing is written, where
/// no occurrence was due.
pub fn advance_state(
    state: ScheduleStateRow,
    inspected: u32,
    next: &ScheduleOccurrence,
    now: i64,
) -> (advanced: Option<ScheduleStateRow>)
    ensures
        match advanced {
            Some(row) => inspected != 0 && row@ == advanced_state(state@, next@, now),
            None => inspected == 0,
        },
{
    if inspected == 0 {
        return None;
    }
    let mut row = state;
    row.next_local_occurrence = next.local_occurrence.clone();
    row.next_occurrence_at = next.due_at;
    row.last_materialized_at = Some(now);
    row.updated_at = now;
    Some(row)
}

/// A run whose workflow was started.
pub open spec fn run_started(run: ScheduleRunRowModel, workflow_id: i64) -> ScheduleRunRowModel {
    ScheduleRunRowModel { status: "started"@, workflow_id: Some(workflow_id), ..run }
}

/// A run that waited for its predecessor and whose workflow was started.
pub open spec fn run_promoted(run: ScheduleRunRowModel, workflow_id: i64) -> ScheduleRunRowModel {
    ScheduleRunRowModel {
        status: "started"@,
        workflow_id: Some(workflow_id),
        reason: Some("queue_one_promoted"@),
        ..run
    }
}

/// The run of an occurrence whose workflow was started.
pub fn started_run(run: ScheduleRunRow, workflow_id: i64) -> (started: ScheduleRunRow)
    ensures
        started@ == run_started(run@, workflow_id),
{
    let mut started = run;
    started.status = "started".to_owned();
    started.workflow_id = Some(workflow_id);
    started
}

/// The queued run whose workflow was started at last.
pub fn promoted_run(run: ScheduleRunRow, workflow_id: i64) -> (started: ScheduleRunRow)
    ensures
        started@ == run_promoted(run@, workflow_id),
{
    let mut started = run;
    started.status = "started".to_owned();
    started.workflow_id = Some(workflow_id);
    started.reason = Some("queue_one_promoted".to_owned());
    started
}

/// The outcomes that a report counts.
pub open spec fn accounted(report: ReportModel) -> int {
    report.started + report.queued + report.skipped + report.coalesced
}

/// Every occurrence that a tick takes up is started, queued, skipped or coalesced,
/// and counted once.
pub proof fn law_report_accounts_for_every_occurrence(
    tick: TickModel,
    outcomes: Seq<OutcomeModel>,
    overlap: OverlapPolicy,
)
    requires
        0 <= tick.report.started,
        0 <= tick.report.queued,
        0 <= tick.report.skipped,
        0 <= tick.report.coalesced,
        accounted(tick.report) + outcomes.len() <= u32::MAX,
    ensures
        accounted(after_occurrences(tick, outcomes, overlap).report) == accounted(tick.report)
            + outcomes.len(),
        after_occurrences(tick, outcomes, overlap).report.started >= 0,
        after_occurrences(tick, outcomes, overlap).report.queued >= 0,
        after_occurrences(tick, outcomes, overlap).report.skipped >= 0,
        after_occurrences(tick, outcomes, overlap).report.coalesced >= 0,
    decreases outcomes.len(),
{
    if outcomes.len() > 0 {
        law_report_accounts_for_every_occurrence(tick, outcomes.drop_last(), overlap);
    }
}

/// A schedule that skips while it is active never starts a second workflow, and
/// one that queues never has a second queued run: however many occurrences a tick
/// takes up, at most one of them starts and, with a queue, at most one is queued.
pub proof fn law_overlap_policies_hold(
    tick: TickModel,
    outcomes: Seq<OutcomeModel>,
    overlap: OverlapPolicy,
)
    requires
        overlap != OverlapPolicy::Allow,
        tick.active >= 0,
    ensures
        ({
            let after = after_occurrences(tick, outcomes, overlap);
            &&& after.active >= tick.active
            &&& tick.active >= 1 ==> after.active == tick.active && after.report.started
                == tick.report.started
            &&& tick.active == 0 ==> after.active <= 1 && after.report.started
                <= tick.report.started + 1
            &&& after.active == 0 ==> after.report.started == tick.report.started
            &&& tick.queued ==> after.queued && after.report.queued == tick.report.queued
            &&& after.report.queued <= tick.report.queued + 1
            &&& !after.queued ==> after.report.queued == tick.report.queued
            &&& overlap == OverlapPolicy::SkipIfActive ==> after.report.queued == tick.report.queued
        }),
    decreases outcomes.len(),
{
    if outcomes.len() > 0 {
        law_overlap_policies_hold(tick, outcomes.drop_last(), overlap);
    }
}

/// Whether `all` are due occurrences of a schedule, one after the other, and `end`
/// is the one that follows.
#[verifier::opaque]
pub open spec fn is_run(
    cron: Seq<char>,
    timezone: Seq<char>,
    all: Seq<OccurrenceModel>,
    end: OccurrenceModel,
    now: i64,
) -> bool {
    &&& calendar::is_occurrence(timezone, end)
    &&& forall|i: int|
        0 <= i < all.len() ==> {
            &&& (#[trigger] all[i]).due_at <= now
            &&& calendar::is_occurrence(timezone, all[i])
            &&& calendar::tick_is_next(cron, all[i].local)
            &&& succeeding(cron, timezone, all[i].local) == Ok::<OccurrenceModel, ErrorModel>(
                nth(all, end, i + 1),
            )
        }
}

/// Whether `all` are the due occurrences of a schedule, one after the other, and
/// `end` is the first one that is not due.
pub open spec fn is_backlog(
    cron: Seq<char>,
    timezone: Seq<char>,
    all: Seq<OccurrenceModel>,
    end: OccurrenceModel,
    now: i64,
) -> bool {
    is_run(cron, timezone, all, end, now) && end.due_at > now
}

proof fn lemma_tick_between(cron: Seq<char>, after: int, between: int)
    requires
        calendar::tick_is_next(cron, after),
    ensures
        match calendar::next_tick(cron, after) {
            Some(tick) => {
                &&& after < tick
                &&& 0 <= tick < calendar::END_OF_OCCURRENCES_MILLIS
                &&& tick % 1000 == 0
                &&& after <= between < tick ==> calendar::next_tick(cron, between) == Some(tick)
            },
            None => true,
        },
{
    reveal(calendar::tick_is_next);
    let other = calendar::next_tick(cron, between);
}

proof fn lemma_plain_gap(timezone: Seq<char>, local: int, between: int, instant: int)
    requires
        calendar::gap_is_plain(timezone, local),
        calendar::instants_of(timezone, local) is Never,
        calendar::gap_end(timezone, local, 1) == Some(instant),
        local < between < calendar::local_at(timezone, instant),
        (between - local) % 1000 == 0,
    ensures
        calendar::instants_of(timezone, between) is Never,
{
    reveal(calendar::gap_is_plain);
    let shown = calendar::instants_of(timezone, between);
}

proof fn lemma_backlog_at(
    cron: Seq<char>,
    timezone: Seq<char>,
    all: Seq<OccurrenceModel>,
    end: OccurrenceModel,
    now: i64,
    i: int,
)
    requires
        is_run(cron, timezone, all, end, now),
    ensures
        calendar::is_occurrence(timezone, end),
        0 <= i < all.len() ==> {
            &&& all[i].due_at <= now
            &&& calendar::is_occurrence(timezone, all[i])
            &&& calendar::tick_is_next(cron, all[i].local)
            &&& all[i].local <= MAX_CALENDAR_MILLIS - 1000
            &&& succeeding(cron, timezone, all[i].local) == Ok::<OccurrenceModel, ErrorModel>(
                nth(all, end, i + 1),
            )
            &&& calendar::next_occurrence(cron, timezone, all[i].local) == Ok::<
                OccurrenceModel,
                ErrorModel,
            >(nth(all, end, i + 1))
        },
        0 <= i < all.len() ==> {
            &&& calendar::in_calendar(all[i].local)
            &&& all[i].local % 1000 == 0
            &&& calendar::resolved_at(timezone, all[i].local, all[i].leap) == Ok::<
                OccurrenceModel,
                ErrorModel,
            >(all[i])
            &&& calendar::gap_is_plain(timezone, all[i].local)
        },
{
    reveal(is_run);
    reveal(calendar::is_occurrence);
}

proof fn lemma_next_is_resolved(cron: Seq<char>, timezone: Seq<char>, after: int)
    requires
        calendar::tick_is_next(cron, after),
    ensures
        match calendar::next_occurrence(cron, timezone, after) {
            Ok(next) => {
                &&& after < next.local
                &&& 0 <= next.local < calendar::END_OF_OCCURRENCES_MILLIS
                &&& next.local % 1000 == 0
                &&& calendar::next_tick(cron, after) == Some(next.local)
                &&& calendar::resolved(timezone, next.local) == Ok::<OccurrenceModel, ErrorModel>(
                    next,
                )
            },
            Err(_) => true,
        },
{
    lemma_tick_between(cron, after, after);
    match calendar::next_tick(cron, after) {
        Some(tick) => {
            match calendar::resolved(timezone, tick) {
                Ok(next) => {
                    assert(next.local == tick);
                },
                Err(_) => {},
            }
        },
        None => {},
    }
}

proof fn lemma_gap_end_shifted(timezone: Seq<char>, local: int, shift: int, offset: int)
    requires
        0 < shift < offset,
        calendar::gap_end(timezone, local, offset) is Some,
    ensures
        calendar::gap_end(timezone, local + 1000 * shift, offset - shift) == calendar::gap_end(
            timezone,
            local,
            offset,
        ),
    decreases calendar::MAX_GAP_SCAN_SECONDS + 1 - offset,
{
    assert(local + 1000 * shift + 1000 * (offset - shift) == local + 1000 * offset);
    match calendar::instants_of(timezone, local + 1000 * offset) {
        calendar::InstantsModel::Once(_) => {},
        _ => {
            lemma_gap_end_shifted(timezone, local, shift, offset + 1);
        },
    }
}

proof fn lemma_gap_end_once(timezone: Seq<char>, local: int, offset: int) -> (found: int)
    requires
        offset >= 1,
        calendar::gap_end(timezone, local, offset) is Some,
    ensures
        offset <= found <= calendar::MAX_GAP_SCAN_SECONDS,
        calendar::instants_of(timezone, local + 1000 * found) == calendar::InstantsModel::Once(
            calendar::gap_end(timezone, local, offset)->0,
        ),
        forall|k: int|
            offset <= k < found ==> !((#[trigger] calendar::instants_of(timezone, local + 1000 * k))
                is Once),
    decreases calendar::MAX_GAP_SCAN_SECONDS + 1 - offset,
{
    match calendar::instants_of(timezone, local + 1000 * offset) {
        calendar::InstantsModel::Once(_) => offset,
        _ => lemma_gap_end_once(timezone, local, offset + 1),
    }
}

/// The gap of a wall-clock time ends at the first whole second behind it that the
/// clocks show exactly once.
proof fn lemma_gap_end_found(timezone: Seq<char>, local: int) -> (found: int)
    requires
        calendar::gap_is_plain(timezone, local),
        calendar::instants_of(timezone, local) is Never,
        calendar::gap_end(timezone, local, 1) is Some,
    ensures
        1 <= found <= calendar::MAX_GAP_SCAN_SECONDS,
        calendar::local_at(timezone, calendar::gap_end(timezone, local, 1)->0) == local + 1000
            * found,
        calendar::in_calendar(calendar::gap_end(timezone, local, 1)->0),
        calendar::in_calendar(local + 1000 * found),
        forall|k: int|
            1 <= k < found ==> !((#[trigger] calendar::instants_of(timezone, local + 1000 * k))
                is Once),
{
    reveal(calendar::gap_is_plain);
    let found = lemma_gap_end_once(timezone, local, 1);
    let end = calendar::local_at(timezone, calendar::gap_end(timezone, local, 1)->0);
    let whole = (end - local) / 1000;
    assert(end == local + 1000 * whole);
    if whole < found {
        assert(!(calendar::instants_of(timezone, local + 1000 * whole) is Once));
    }
    if found < whole {
        assert(calendar::instants_of(timezone, local + 1000 * found) is Never);
    }
    found
}

/// From inside a gap the occurrences are gaps with the same end, up to the first
/// one behind the gap; a search that goes on one second before the end finds it.
proof fn lemma_gap_run(
    cron: Seq<char>,
    timezone: Seq<char>,
    all: Seq<OccurrenceModel>,
    end: OccurrenceModel,
    now: i64,
    start: int,
    i: int,
    instant: int,
) -> (m: int)
    requires
        is_backlog(cron, timezone, all, end, now),
        0 <= start <= i < all.len(),
        calendar::instants_of(timezone, all[start].local) is Never,
        calendar::gap_end(timezone, all[start].local, 1) == Some(instant),
        instant <= now,
        all[start].local <= all[i].local < calendar::local_at(timezone, instant),
        forall|k: int| start <= k <= i ==> !is_runnable(#[trigger] all[k]),
    ensures
        i < m <= all.len(),
        forall|k: int| start <= k < m ==> !is_runnable(#[trigger] all[k]),
        calendar::next_occurrence(cron, timezone, calendar::local_at(timezone, instant) - 1000)
            == Ok::<OccurrenceModel, ErrorModel>(nth(all, end, m)),
        all[start].local < nth(all, end, m).local < calendar::END_OF_OCCURRENCES_MILLIS,
    decreases all.len() - i,
{
    let first = all[start].local;
    lemma_backlog_at(cron, timezone, all, end, now, start);
    lemma_backlog_at(cron, timezone, all, end, now, i);
    let found = lemma_gap_end_found(timezone, first);
    let close = calendar::local_at(timezone, instant);
    assert(close == first + 1000 * found);
    let next = nth(all, end, i + 1);
    lemma_next_is_resolved(cron, timezone, all[i].local);
    if next.local < close {
        lemma_inside_gap(timezone, first, next, instant, found);
        assert(i + 1 < all.len());
        lemma_gap_run(cron, timezone, all, end, now, start, i + 1, instant)
    } else {
        let before = close - 1000;
        assert(all[i].local <= before) by {
            assert(all[i].local % 1000 == 0 && close % 1000 == 0);
        }
        lemma_tick_between(cron, all[i].local, before);
        assert(calendar::next_tick(cron, before) == Some(next.local));
        i + 1
    }
}

/// An occurrence inside a gap is a gap with the same end.
proof fn lemma_inside_gap(
    timezone: Seq<char>,
    first: int,
    next: OccurrenceModel,
    instant: int,
    found: int,
)
    requires
        calendar::gap_is_plain(timezone, first),
        calendar::instants_of(timezone, first) is Never,
        calendar::gap_end(timezone, first, 1) == Some(instant),
        calendar::local_at(timezone, instant) == first + 1000 * found,
        1 <= found <= calendar::MAX_GAP_SCAN_SECONDS,
        forall|k: int|
            1 <= k < found ==> !((#[trigger] calendar::instants_of(timezone, first + 1000 * k))
                is Once),
        first < next.local < first + 1000 * found,
        first % 1000 == 0,
        next.local % 1000 == 0,
        calendar::resolved(timezone, next.local) == Ok::<OccurrenceModel, ErrorModel>(next),
    ensures
        next.due_at == instant,
        !is_runnable(next),
{
    let shift = (next.local - first) / 1000;
    assert(next.local == first + 1000 * shift);
    lemma_plain_gap(timezone, first, next.local, instant);
    lemma_gap_end_skips(timezone, first, 1, shift + 1, found);
    lemma_gap_end_shifted(timezone, first, shift, shift + 1);
    assert(calendar::gap_end(timezone, next.local, 1) == Some(instant));
}

proof fn lemma_gap_end_skips(
    timezone: Seq<char>,
    local: int,
    offset: int,
    later: int,
    found: int,
)
    requires
        1 <= offset <= later <= found <= calendar::MAX_GAP_SCAN_SECONDS,
        calendar::gap_end(timezone, local, offset) is Some,
        forall|k: int|
            offset <= k < found ==> !((#[trigger] calendar::instants_of(timezone, local + 1000 * k))
                is Once),
    ensures
        calendar::gap_end(timezone, local, later) == calendar::gap_end(timezone, local, offset),
    decreases later - offset,
{
    if offset < later {
        assert(!(calendar::instants_of(timezone, local + 1000 * offset) is Once));
        lemma_gap_end_skips(timezone, local, offset + 1, later, found);
    }
}

/// The first place from `i` on that lies in no gap, or the end of the backlog.
spec fn first_runnable(all: Seq<OccurrenceModel>, i: int) -> int
    decreases all.len() - i,
{
    if i >= all.len() || is_runnable(all[i]) {
        i
    } else {
        first_runnable(all, i + 1)
    }
}

proof fn lemma_first_runnable(all: Seq<OccurrenceModel>, i: int, m: int)
    requires
        0 <= i <= m <= all.len(),
        forall|k: int| i <= k < m ==> !is_runnable(#[trigger] all[k]),
    ensures
        first_runnable(all, i) == first_runnable(all, m),
        m <= first_runnable(all, m) <= all.len(),
        first_runnable(all, m) < all.len() ==> is_runnable(all[first_runnable(all, m)]),
        runnable_count(all.skip(i)) == runnable_count(all.skip(m)),
    decreases all.len() - i,
{
    if i < m {
        assert(!is_runnable(all[i]));
        assert(all.skip(i).drop_first() =~= all.skip(i + 1));
        lemma_first_runnable(all, i + 1, m);
    } else if m < all.len() && !is_runnable(all[m]) {
        assert(all.skip(m).drop_first() =~= all.skip(m + 1));
        lemma_first_runnable(all, m + 1, m + 1);
    }
}

proof fn lemma_skip_to_runnable(all: Seq<OccurrenceModel>, i: int)
    requires
        0 <= i <= all.len(),
    ensures
        i <= first_runnable(all, i) <= all.len(),
        first_runnable(all, i) < all.len() ==> is_runnable(all[first_runnable(all, i)]),
        runnable_count(all.skip(i)) == runnable_count(all.skip(first_runnable(all, i))),
    decreases all.len() - i,
{
    if i < all.len() && !is_runnable(all[i]) {
        assert(all.skip(i).drop_first() =~= all.skip(i + 1));
        lemma_skip_to_runnable(all, i + 1);
    }
}

/// The search for a runnable occurrence finds the first one of the backlog.
proof fn lemma_search_finds_first(
    cron: Seq<char>,
    timezone: Seq<char>,
    all: Seq<OccurrenceModel>,
    end: OccurrenceModel,
    now: i64,
    i: int,
)
    requires
        is_backlog(cron, timezone, all, end, now),
        0 <= i <= all.len(),
    ensures
        calendar::runnable_from(cron, timezone, nth(all, end, i), now as int) == Ok::<
            Option<OccurrenceModel>,
            ErrorModel,
        >(
            if first_runnable(all, i) < all.len() {
                Some(all[first_runnable(all, i)])
            } else {
                None
            },
        ),
    decreases all.len() - i,
{
    lemma_skip_to_runnable(all, i);
    lemma_backlog_at(cron, timezone, all, end, now, i);
    if i < all.len() && !is_runnable(all[i]) {
        let here = all[i];
        assert(calendar::instants_of(timezone, here.local) is Never);
        let instant = calendar::gap_end(timezone, here.local, 1)->0;
        assert(here.due_at == instant);
        let found = lemma_gap_end_found(timezone, here.local);
        let m = lemma_gap_run(cron, timezone, all, end, now, i, i, instant);
        lemma_first_runnable(all, i, m);
        lemma_search_finds_first(cron, timezone, all, end, now, m);
        assert(calendar::local_at(timezone, instant) == here.local + 1000 * found);
        assert(calendar::gap_restart(timezone, instant) == Ok::<int, ErrorModel>(
            calendar::local_at(timezone, instant) - 1000,
        ));
    }
}

/// The occurrences that follow a place of a backlog are counted up to the budget.
proof fn lemma_following_counts(
    cron: Seq<char>,
    timezone: Seq<char>,
    all: Seq<OccurrenceModel>,
    end: OccurrenceModel,
    now: i64,
    i: int,
    budget: nat,
)
    requires
        is_backlog(cron, timezone, all, end, now),
        0 < i <= all.len(),
    ensures
        following(cron, timezone, all[i - 1].local, now, budget) == Ok::<nat, ErrorModel>(
            if runnable_count(all.skip(i)) < budget {
                runnable_count(all.skip(i))
            } else {
                budget
            },
        ),
    decreases budget,
{
    if budget > 0 {
        lemma_search_finds_first(cron, timezone, all, end, now, i);
        lemma_skip_to_runnable(all, i);
        lemma_backlog_at(cron, timezone, all, end, now, i - 1);
        let k = first_runnable(all, i);
        if k < all.len() {
            assert(all.skip(k).drop_first() =~= all.skip(k + 1));
            assert(all.skip(k)[0] == all[k]);
            lemma_following_counts(cron, timezone, all, end, now, k + 1, (budget - 1) as nat);
        } else {
            assert(all.skip(k) =~= Seq::<OccurrenceModel>::empty());
        }
    }
}

proof fn lemma_due_from_backlog(
    cron: Seq<char>,
    timezone: Seq<char>,
    all: Seq<OccurrenceModel>,
    end: OccurrenceModel,
    now: i64,
    i: int,
    limit: nat,
)
    requires
        is_backlog(cron, timezone, all, end, now),
        0 <= i <= all.len(),
    ensures
        ({
            let n = if all.len() - i < limit {
                all.len() - i
            } else {
                limit as int
            };
            due_from(cron, timezone, nth(all, end, i), now, limit) == Ok::<
                (Seq<OccurrenceModel>, OccurrenceModel),
                ErrorModel,
            >((all.subrange(i, i + n), nth(all, end, i + n)))
        }),
    decreases limit,
{
    let n = if all.len() - i < limit {
        all.len() - i
    } else {
        limit as int
    };
    lemma_backlog_at(cron, timezone, all, end, now, i);
    if i < all.len() && limit > 0 {
        lemma_due_from_backlog(cron, timezone, all, end, now, i + 1, (limit - 1) as nat);
        assert(seq![all[i]] + all.subrange(i + 1, i + n) =~= all.subrange(i, i + n));
    } else {
        assert(all.subrange(i, i + n) =~= Seq::<OccurrenceModel>::empty());
    }
}

proof fn lemma_count_splits(all: Seq<OccurrenceModel>, i: int, m: int)
    requires
        0 <= i <= m <= all.len(),
    ensures
        runnable_count(all.skip(i)) == runnable_count(all.subrange(i, m)) + runnable_count(
            all.skip(m),
        ),
    decreases m - i,
{
    if i < m {
        lemma_count_splits(all, i + 1, m);
        assert(all.skip(i).drop_first() =~= all.skip(i + 1));
        assert(all.subrange(i, m).drop_first() =~= all.subrange(i + 1, m));
    } else {
        assert(all.subrange(i, m) =~= Seq::<OccurrenceModel>::empty());
    }
}

/// Whatever place of a backlog a tick starts at, it takes the next occurrences,
/// gives each the outcome that it has in a plan of the whole backlog, and leaves
/// off at the occurrence behind them.
proof fn lemma_chunk_of_backlog(
    cron: Seq<char>,
    timezone: Seq<char>,
    all: Seq<OccurrenceModel>,
    end: OccurrenceModel,
    policy: MisfirePolicy,
    grace_millis: i64,
    now: i64,
    start: int,
    limit: nat,
)
    requires
        is_backlog(cron, timezone, all, end, now),
        0 <= start < all.len(),
        limit > 0,
    ensures
        ({
            let stop = if all.len() - start < limit {
                all.len() as int
            } else {
                start + limit
            };
            chunk_from(cron, timezone, all[start], policy, grace_millis, now, limit) == Ok::<
                ChunkModel,
                ErrorModel,
            >(
                ChunkModel {
                    due: all.subrange(start, stop),
                    next: nth(all, end, stop),
                    outcomes: classified(all, policy, grace_millis, now, 0).subrange(start, stop),
                },
            )
        }),
{
    let stop = if all.len() - start < limit {
        all.len() as int
    } else {
        start + limit
    };
    lemma_due_from_backlog(cron, timezone, all, end, now, start, limit);
    let due = all.subrange(start, stop);
    let budget = budget_of(policy);
    lemma_following_counts(cron, timezone, all, end, now, stop, budget);
    lemma_backlog_at(cron, timezone, all, end, now, stop);
    assert(due.last() == all[stop - 1]);
    let rest = runnable_count(all.skip(stop));
    let count = if stop < all.len() {
        if rest < budget {
            rest
        } else {
            budget
        }
    } else {
        0
    };
    if stop == all.len() {
        assert(all.skip(stop) =~= Seq::<OccurrenceModel>::empty());
    }
    let whole = classified(all, policy, grace_millis, now, 0);
    let part = classified(due, policy, grace_millis, now, count as int);
    assert forall|k: int| 0 <= k < due.len() implies part[k] == whole.subrange(start, stop)[k] by {
        let j = start + k;
        lemma_count_splits(all, j + 1, stop);
        assert(due.skip(k + 1) =~= all.subrange(j + 1, stop));
    }
    assert(part =~= whole.subrange(start, stop));
}

/// Where a tick starts that follows so many chunks.
pub open spec fn chunk_start(
    start: OccurrenceModel,
    chunks: Seq<ChunkModel>,
    i: int,
) -> OccurrenceModel {
    if i <= 0 {
        start
    } else {
        chunks[i - 1].next
    }
}

/// Whether a chunk is what a tick plans that starts where the chunk before it
/// leaves off, at an occurrence that is due.
pub open spec fn is_tick(
    cron: Seq<char>,
    timezone: Seq<char>,
    start: OccurrenceModel,
    chunks: Seq<ChunkModel>,
    policy: MisfirePolicy,
    grace_millis: i64,
    now: i64,
    i: int,
) -> bool {
    &&& chunk_start(start, chunks, i).due_at <= now
    &&& chunk_from(
        cron,
        timezone,
        chunk_start(start, chunks, i),
        policy,
        grace_millis,
        now,
        MAX_DUE_OCCURRENCES_PER_TICK as nat,
    ) == Ok::<ChunkModel, ErrorModel>(chunks[i])
    &&& is_grounded(cron, timezone, chunks[i].due, chunks[i].next)
}

/// Whether the chunks are those of ticks that follow one another from an
/// occurrence on until what comes next is not due.
pub open spec fn are_ticks(
    cron: Seq<char>,
    timezone: Seq<char>,
    start: OccurrenceModel,
    chunks: Seq<ChunkModel>,
    policy: MisfirePolicy,
    grace_millis: i64,
    now: i64,
) -> bool {
    &&& calendar::is_occurrence(timezone, start)
    &&& chunk_start(start, chunks, chunks.len() as int).due_at > now
    &&& forall|i: int|
        0 <= i < chunks.len() ==> #[trigger] is_tick(
            cron,
            timezone,
            start,
            chunks,
            policy,
            grace_millis,
            now,
            i,
        )
}

/// Whether a chunk takes at least one and at most
/// [`MAX_DUE_OCCURRENCES_PER_TICK`] due occurrences and leaves off at a later
/// wall-clock time than it starts at.
pub open spec fn makes_progress(start: OccurrenceModel, chunks: Seq<ChunkModel>, i: int) -> bool {
    &&& 1 <= chunks[i].due.len() <= MAX_DUE_OCCURRENCES_PER_TICK
    &&& chunk_start(start, chunks, i).local < chunks[i].next.local
}

/// The due occurrences of some chunks, one chunk behind the other.
pub open spec fn joined_due(chunks: Seq<ChunkModel>) -> Seq<OccurrenceModel>
    decreases chunks.len(),
{
    if chunks.len() == 0 {
        Seq::empty()
    } else {
        joined_due(chunks.drop_last()) + chunks.last().due
    }
}

/// The outcomes of some chunks, one chunk behind the other.
pub open spec fn joined_outcomes(chunks: Seq<ChunkModel>) -> Seq<OutcomeModel>
    decreases chunks.len(),
{
    if chunks.len() == 0 {
        Seq::empty()
    } else {
        joined_outcomes(chunks.drop_last()) + chunks.last().outcomes
    }
}

/// What was planned to be due is a run of due occurrences from the given one on.
proof fn lemma_due_is_run(
    cron: Seq<char>,
    timezone: Seq<char>,
    occurrence: OccurrenceModel,
    now: i64,
    limit: nat,
    due: Seq<OccurrenceModel>,
    next: OccurrenceModel,
)
    requires
        calendar::is_occurrence(timezone, occurrence),
        due_from(cron, timezone, occurrence, now, limit) == Ok::<
            (Seq<OccurrenceModel>, OccurrenceModel),
            ErrorModel,
        >((due, next)),
        is_grounded(cron, timezone, due, next),
    ensures
        is_run(cron, timezone, due, next, now),
        nth(due, next, 0) == occurrence,
        due.len() <= limit,
        occurrence.due_at <= now && limit > 0 ==> due.len() > 0 && occurrence.local < next.local,
    decreases limit,
{
    reveal(is_run);
    if occurrence.due_at <= now && limit > 0 {
        let second = succeeding(cron, timezone, occurrence.local)->Ok_0;
        let (later, _) = due_from(cron, timezone, second, now, (limit - 1) as nat)->Ok_0;
        assert(due == seq![occurrence] + later);
        assert(due[0] == occurrence);
        assert(calendar::tick_is_next(cron, due[0].local));
        lemma_next_is_resolved(cron, timezone, occurrence.local);
        assert(second.local > occurrence.local);
        assert(nth(due, next, 1) == nth(later, next, 0));
        assert(is_grounded(cron, timezone, later, next)) by {
            assert(forall|i: int| 0 <= i < later.len() ==> #[trigger] later[i] == due[i + 1]);
        }
        lemma_due_starts_with(cron, timezone, second, now, (limit - 1) as nat, later, next);
        assert(calendar::is_occurrence(timezone, second)) by {
            if later.len() > 0 {
                assert(due[1] == second);
            }
        }
        lemma_due_is_run(cron, timezone, second, now, (limit - 1) as nat, later, next);
        assert forall|i: int| 0 <= i < due.len() implies {
            &&& (#[trigger] due[i]).due_at <= now
            &&& calendar::is_occurrence(timezone, due[i])
            &&& calendar::tick_is_next(cron, due[i].local)
            &&& succeeding(cron, timezone, due[i].local) == Ok::<OccurrenceModel, ErrorModel>(
                nth(due, next, i + 1),
            )
        } by {
            if i > 0 {
                assert(due[i] == later[i - 1]);
                assert(nth(due, next, i + 1) == nth(later, next, i));
            }
        }
    }
}

proof fn lemma_due_starts_with(
    cron: Seq<char>,
    timezone: Seq<char>,
    occurrence: OccurrenceModel,
    now: i64,
    limit: nat,
    due: Seq<OccurrenceModel>,
    next: OccurrenceModel,
)
    requires
        due_from(cron, timezone, occurrence, now, limit) == Ok::<
            (Seq<OccurrenceModel>, OccurrenceModel),
            ErrorModel,
        >((due, next)),
    ensures
        nth(due, next, 0) == occurrence,
{
}

proof fn lemma_runs_join(
    cron: Seq<char>,
    timezone: Seq<char>,
    earlier: Seq<OccurrenceModel>,
    later: Seq<OccurrenceModel>,
    end: OccurrenceModel,
    now: i64,
)
    requires
        is_run(cron, timezone, earlier, nth(later, end, 0), now),
        is_run(cron, timezone, later, end, now),
    ensures
        is_run(cron, timezone, earlier + later, end, now),
{
    reveal(is_run);
    let all = earlier + later;
    assert forall|i: int| 0 <= i < all.len() implies {
        &&& (#[trigger] all[i]).due_at <= now
        &&& calendar::is_occurrence(timezone, all[i])
        &&& calendar::tick_is_next(cron, all[i].local)
        &&& succeeding(cron, timezone, all[i].local) == Ok::<OccurrenceModel, ErrorModel>(
            nth(all, end, i + 1),
        )
    } by {
        if i < earlier.len() {
            assert(all[i] == earlier[i]);
            assert(nth(all, end, i + 1) == nth(earlier, nth(later, end, 0), i + 1));
        } else {
            assert(all[i] == later[i - earlier.len()]);
            assert(nth(all, end, i + 1) == nth(later, end, i - earlier.len() + 1));
        }
    }
}

/// The due occurrences of the first chunks are a run up to where they leave off.
proof fn lemma_ticks_run(
    cron: Seq<char>,
    timezone: Seq<char>,
    start: OccurrenceModel,
    chunks: Seq<ChunkModel>,
    policy: MisfirePolicy,
    grace_millis: i64,
    now: i64,
    n: int,
)
    requires
        are_ticks(cron, timezone, start, chunks, policy, grace_millis, now),
        0 <= n <= chunks.len(),
    ensures
        is_run(
            cron,
            timezone,
            joined_due(chunks.take(n)),
            chunk_start(start, chunks, n),
            now,
        ),
        nth(joined_due(chunks.take(n)), chunk_start(start, chunks, n), 0) == start,
        n > 0 ==> {
            &&& joined_due(chunks.take(n)) == joined_due(chunks.take(n - 1)) + chunks[n - 1].due
            &&& joined_outcomes(chunks.take(n)) == joined_outcomes(chunks.take(n - 1)) + chunks[n
                - 1].outcomes
            &&& chunks[n - 1].due[0] == chunk_start(start, chunks, n - 1)
            &&& makes_progress(start, chunks, n - 1)
        },
    decreases n,
{
    if n == 0 {
        reveal(is_run);
    } else {
        let from = chunk_start(start, chunks, n - 1);
        let chunk = chunks[n - 1];
        assert(is_tick(cron, timezone, start, chunks, policy, grace_millis, now, n - 1));
        lemma_ticks_run(cron, timezone, start, chunks, policy, grace_millis, now, n - 1);
        lemma_backlog_at(cron, timezone, joined_due(chunks.take(n - 1)), from, now, 0);
        lemma_due_is_run(
            cron,
            timezone,
            from,
            now,
            MAX_DUE_OCCURRENCES_PER_TICK as nat,
            chunk.due,
            chunk.next,
        );
        lemma_runs_join(
            cron,
            timezone,
            joined_due(chunks.take(n - 1)),
            chunk.due,
            chunk.next,
            now,
        );
        assert(chunks.take(n).drop_last() =~= chunks.take(n - 1));
        assert(chunks.take(n).last() == chunk);
    }
}

proof fn lemma_joined_prefix(chunks: Seq<ChunkModel>, n: int)
    requires
        0 <= n <= chunks.len(),
    ensures
        joined_due(chunks.take(n)).len() <= joined_due(chunks).len(),
        joined_due(chunks).take(joined_due(chunks.take(n)).len() as int) == joined_due(
            chunks.take(n),
        ),
    decreases chunks.len(),
{
    if n == chunks.len() {
        assert(chunks.take(n) =~= chunks);
        assert(joined_due(chunks).take(joined_due(chunks).len() as int) =~= joined_due(chunks));
    } else {
        lemma_joined_prefix(chunks.drop_last(), n);
        assert(chunks.drop_last().take(n) =~= chunks.take(n));
        let prefix = joined_due(chunks.take(n));
        assert(joined_due(chunks).take(prefix.len() as int) =~= joined_due(
            chunks.drop_last(),
        ).take(prefix.len() as int));
    }
}

/// Whether a chunk has the outcomes that stand at its places in a whole plan.
#[verifier::opaque]
spec fn has_outcomes_of(whole: Seq<OutcomeModel>, chunks: Seq<ChunkModel>, i: int) -> bool {
    let begin = joined_due(chunks.take(i)).len() as int;
    let stop = joined_due(chunks.take(i + 1)).len() as int;
    begin <= stop <= whole.len() && chunks[i].outcomes == whole.subrange(begin, stop)
}

proof fn lemma_tick_outcomes(
    cron: Seq<char>,
    timezone: Seq<char>,
    start: OccurrenceModel,
    chunks: Seq<ChunkModel>,
    policy: MisfirePolicy,
    grace_millis: i64,
    now: i64,
    i: int,
)
    requires
        are_ticks(cron, timezone, start, chunks, policy, grace_millis, now),
        0 <= i < chunks.len(),
    ensures
        has_outcomes_of(
            classified(joined_due(chunks), policy, grace_millis, now, 0),
            chunks,
            i,
        ),
{
    reveal(has_outcomes_of);
    let all = joined_due(chunks);
    let end = chunk_start(start, chunks, chunks.len() as int);
    assert(chunks.take(chunks.len() as int) =~= chunks);
    lemma_ticks_run(
        cron,
        timezone,
        start,
        chunks,
        policy,
        grace_millis,
        now,
        chunks.len() as int,
    );
    lemma_ticks_run(cron, timezone, start, chunks, policy, grace_millis, now, i + 1);
    lemma_joined_prefix(chunks, i + 1);
    let chunk = chunks[i];
    assert(is_tick(cron, timezone, start, chunks, policy, grace_millis, now, i));
    let begin = joined_due(chunks.take(i)).len() as int;
    let after = joined_due(chunks.take(i + 1));
    assert(all[begin] == all.take(after.len() as int)[begin]);
    assert(after[begin] == chunk.due[0]);
    lemma_chunk_of_backlog(
        cron,
        timezone,
        all,
        end,
        policy,
        grace_millis,
        now,
        begin,
        MAX_DUE_OCCURRENCES_PER_TICK as nat,
    );
    assert(chunk.due.len() == after.len() - begin);
}

proof fn lemma_joined_outcomes(whole: Seq<OutcomeModel>, chunks: Seq<ChunkModel>, n: int)
    requires
        0 <= n <= chunks.len(),
        forall|i: int| 0 <= i < n ==> #[trigger] has_outcomes_of(whole, chunks, i),
    ensures
        joined_due(chunks.take(n)).len() <= whole.len(),
        joined_outcomes(chunks.take(n)) == whole.take(joined_due(chunks.take(n)).len() as int),
    decreases n,
{
    if n == 0 {
        assert(whole.take(0) =~= joined_outcomes(chunks.take(0)));
    } else {
        reveal(has_outcomes_of);
        assert(has_outcomes_of(whole, chunks, n - 1));
        lemma_joined_outcomes(whole, chunks, n - 1);
        assert(chunks.take(n).drop_last() =~= chunks.take(n - 1));
        let begin = joined_due(chunks.take(n - 1)).len() as int;
        let stop = joined_due(chunks.take(n)).len() as int;
        assert(whole.take(begin) + whole.subrange(begin, stop) =~= whole.take(stop));
    }
}

/// A backlog that is worked off in ticks is treated as if it were planned at once.
/// Each tick takes at least one due occurrence, at most
/// [`MAX_DUE_OCCURRENCES_PER_TICK`], and leaves off at a later wall-clock time than
/// it started at. Joined, the ticks take every due occurrence once, in order, and
/// give each the outcome that it has in a plan of the whole backlog, so all the
/// ticks together start no more than the policy's budget of latest occurrences.
pub proof fn law_chunks_match_the_whole_plan(
    cron: Seq<char>,
    timezone: Seq<char>,
    start: OccurrenceModel,
    chunks: Seq<ChunkModel>,
    policy: MisfirePolicy,
    grace_millis: i64,
    now: i64,
)
    requires
        are_ticks(cron, timezone, start, chunks, policy, grace_millis, now),
    ensures
        forall|i: int| 0 <= i < chunks.len() ==> #[trigger] makes_progress(start, chunks, i),
        is_backlog(
            cron,
            timezone,
            joined_due(chunks),
            chunk_start(start, chunks, chunks.len() as int),
            now,
        ),
        nth(
            joined_due(chunks),
            chunk_start(start, chunks, chunks.len() as int),
            0,
        ) == start,
        due_from(cron, timezone, start, now, joined_due(chunks).len()) == Ok::<
            (Seq<OccurrenceModel>, OccurrenceModel),
            ErrorModel,
        >((joined_due(chunks), chunk_start(start, chunks, chunks.len() as int))),
        joined_outcomes(chunks) == classified(
            joined_due(chunks),
            policy,
            grace_millis,
            now,
            0,
        ),
{
    let n = chunks.len() as int;
    let all = joined_due(chunks);
    let end = chunk_start(start, chunks, n);
    assert(chunks.take(n) =~= chunks);
    lemma_ticks_run(cron, timezone, start, chunks, policy, grace_millis, now, n);
    let whole = classified(all, policy, grace_millis, now, 0);
    assert forall|i: int| 0 <= i < n implies #[trigger] has_outcomes_of(whole, chunks, i) by {
        lemma_tick_outcomes(cron, timezone, start, chunks, policy, grace_millis, now, i);
    }
    lemma_joined_outcomes(whole, chunks, n);
    assert(whole.take(all.len() as int) =~= whole);
    lemma_due_from_backlog(cron, timezone, all, end, now, 0, all.len());
    assert(all.subrange(0, all.len() as int) =~= all);
    assert forall|i: int| 0 <= i < n implies #[trigger] makes_progress(start, chunks, i) by {
        lemma_ticks_run(cron, timezone, start, chunks, policy, grace_millis, now, i + 1);
    }
}

/// Each due occurrence is given one outcome. One in a gap of its time zone is skipped as
/// such under every policy, and no other is.
pub proof fn law_occurrences_in_gaps_are_skipped(
    due: Seq<OccurrenceModel>,
    policy: MisfirePolicy,
    grace_millis: i64,
    now: i64,
    following: int,
    i: int,
)
    requires
        0 <= i < due.len(),
    ensures
        classified(due, policy, grace_millis, now, following).len() == due.len(),
        due[i].disposition == LocalTimeDisposition::Gap ==> classified(
            due,
            policy,
            grace_millis,
            now,
            following,
        )[i] == OutcomeModel::Skip("dst_gap"@),
        due[i].disposition != LocalTimeDisposition::Gap ==> classified(
            due,
            policy,
            grace_millis,
            now,
            following,
        )[i] != OutcomeModel::Skip("dst_gap"@),
{
    reveal_strlit("dst_gap");
    reveal_strlit("misfire_skip");
    reveal_strlit("catch_up_limit");
    assert("dst_gap"@.len() != "misfire_skip"@.len());
    assert("dst_gap"@.len() != "catch_up_limit"@.len());
}

/// A schedule that skips misfires starts an occurrence outside a gap as long as its grace
/// has not passed, and skips it as a misfire once it has. In particular one that is taken
/// up at its due time starts, whatever the grace. How many others are due does not matter.
pub proof fn law_grace_decides_about_misfires(
    due: Seq<OccurrenceModel>,
    grace_millis: i64,
    now: i64,
    following: int,
    i: int,
)
    requires
        0 <= i < due.len(),
        due[i].disposition != LocalTimeDisposition::Gap,
        i64::MIN <= due[i].due_at,
        0 <= grace_millis,
    ensures
        ({
            let outcome = classified(due, MisfirePolicy::Skip, grace_millis, now, following)[i];
            &&& now <= due[i].due_at + grace_millis ==> outcome == OutcomeModel::Start
            &&& now > due[i].due_at + grace_millis ==> outcome == OutcomeModel::Skip(
                "misfire_skip"@,
            )
            &&& now == due[i].due_at ==> outcome == OutcomeModel::Start
        }),
{
}

/// A schedule that catches up with the latest occurrence starts exactly the last due one
/// outside a gap, wherever it is, and coalesces all others outside gaps into it.
pub proof fn law_latest_occurrence_runs(
    due: Seq<OccurrenceModel>,
    grace_millis: i64,
    now: i64,
    following: int,
    i: int,
)
    requires
        0 <= i < due.len(),
        due[i].disposition != LocalTimeDisposition::Gap,
        0 <= following,
    ensures
        ({
            let outcome = classified(due, MisfirePolicy::RunLatest, grace_millis, now, following)[i];
            let last = following == 0 && (forall|j: int|
                i < j < due.len() ==> (#[trigger] due[j]).disposition == LocalTimeDisposition::Gap);
            &&& last ==> outcome == OutcomeModel::Start
            &&& !last ==> outcome == OutcomeModel::Coalesce
        }),
{
    lemma_no_runnable(due.skip(i + 1));
    assert forall|j: int| i < j < due.len() implies due[j] == #[trigger] due.skip(i + 1)[j - i
        - 1] by {}
    if forall|j: int|
        i < j < due.len() ==> (#[trigger] due[j]).disposition == LocalTimeDisposition::Gap {
        assert forall|k: int| 0 <= k < due.skip(i + 1).len() implies !is_runnable(
            #[trigger] due.skip(i + 1)[k],
        ) by {
            assert(due.skip(i + 1)[k] == due[i + 1 + k]);
        }
    } else {
        let j = choose|j: int|
            i < j < due.len() && (#[trigger] due[j]).disposition != LocalTimeDisposition::Gap;
        assert(is_runnable(due.skip(i + 1)[j - i - 1]));
    }
}

proof fn lemma_no_runnable(due: Seq<OccurrenceModel>)
    ensures
        runnable_count(due) == 0 <==> forall|k: int|
            0 <= k < due.len() ==> !is_runnable(#[trigger] due[k]),
    decreases due.len(),
{
    if due.len() > 0 {
        let rest = due.drop_first();
        lemma_no_runnable(rest);
        if is_runnable(due[0]) {
        } else if runnable_count(due) == 0 {
            assert forall|k: int| 0 <= k < due.len() implies !is_runnable(#[trigger] due[k]) by {
                if k > 0 {
                    assert(due[k] == rest[k - 1]);
                }
            }
        } else {
            let k = choose|k: int| 0 <= k < rest.len() && is_runnable(#[trigger] rest[k]);
            assert(due[k + 1] == rest[k]);
        }
    }
}

/// How many of some outcomes are starts.
pub open spec fn start_count(outcomes: Seq<OutcomeModel>) -> nat
    decreases outcomes.len(),
{
    if outcomes.len() == 0 {
        0
    } else {
        (if outcomes[0] is Start {
            1nat
        } else {
            0nat
        }) + start_count(outcomes.drop_first())
    }
}

/// A schedule that catches up starts as many of the due occurrences outside gaps as its
/// limit leaves, and these are the latest: where one starts, every later one outside a
/// gap does too. One that catches up with the latest only starts one.
pub proof fn law_catching_up_starts_the_latest(
    due: Seq<OccurrenceModel>,
    max_occurrences: u32,
    grace_millis: i64,
    now: i64,
    i: int,
    j: int,
)
    requires
        0 <= i < j < due.len(),
    ensures
        ({
            let outcomes = classified(
                due,
                MisfirePolicy::CatchUp { max_occurrences },
                grace_millis,
                now,
                0,
            );
            &&& start_count(outcomes) == policy::smaller(
                runnable_count(due) as int,
                max_occurrences as int,
            )
            &&& outcomes[i] is Start && due[j].disposition != LocalTimeDisposition::Gap
                ==> outcomes[j] is Start
            &&& due[i].disposition != LocalTimeDisposition::Gap && outcomes[i] !is Start
                ==> outcomes[i] == OutcomeModel::Skip("catch_up_limit"@)
        }),
        start_count(classified(due, MisfirePolicy::RunLatest, grace_millis, now, 0))
            == policy::smaller(runnable_count(due) as int, 1),
{
    lemma_starts(due, MisfirePolicy::CatchUp { max_occurrences }, grace_millis, now);
    lemma_starts(due, MisfirePolicy::RunLatest, grace_millis, now);
    lemma_count_from(due, i + 1, j + 1);
}

proof fn lemma_count_from(due: Seq<OccurrenceModel>, i: int, j: int)
    requires
        0 <= i <= j <= due.len(),
    ensures
        runnable_count(due.skip(j)) <= runnable_count(due.skip(i)),
    decreases j - i,
{
    if i < j {
        assert(due.skip(i).drop_first() =~= due.skip(i + 1));
        lemma_count_from(due, i + 1, j);
    }
}

proof fn lemma_starts(due: Seq<OccurrenceModel>, policy: MisfirePolicy, grace_millis: i64, now: i64)
    requires
        policy != MisfirePolicy::Skip,
    ensures
        start_count(classified(due, policy, grace_millis, now, 0)) == policy::smaller(
            runnable_count(due) as int,
            budget_of(policy) as int,
        ),
    decreases due.len(),
{
    let outcomes = classified(due, policy, grace_millis, now, 0);
    if due.len() > 0 {
        let rest = due.drop_first();
        lemma_starts(rest, policy, grace_millis, now);
        assert(due.skip(1) =~= rest);
        assert forall|k: int| 0 <= k < rest.len() implies #[trigger] outcomes.drop_first()[k]
            == classified(rest, policy, grace_millis, now, 0)[k] by {
            assert(due.skip(k + 2) =~= rest.skip(k + 1));
        }
        assert(outcomes.drop_first() =~= classified(rest, policy, grace_millis, now, 0));
    }
}

/// A run is recorded for its occurrence: under the schedule's key, with the occurrence's
/// own wall-clock text and scheduled time, as taken up now, and not yet started.
pub proof fn law_run_is_recorded_for_its_occurrence(
    schedule_key: Seq<char>,
    occurrence: OccurrenceModel,
    status: (Seq<char>, Option<Seq<char>>),
    now: i64,
)
    requires
        i64::MIN <= occurrence.scheduled_for <= i64::MAX,
    ensures
        ({
            let run = planned_run(schedule_key, occurrence, status, now);
            &&& run.schedule_key == schedule_key
            &&& run.local_occurrence == occurrence.text
            &&& run.scheduled_for == occurrence.scheduled_for
            &&& run.materialized_at == now
            &&& run.created_at == now
            &&& run.status == status.0
            &&& run.reason == status.1
            &&& run.actor_id is None
            &&& run.workflow_id is None
        }),
{
}

/// An occurrence that is to start does so at once where nothing of the schedule runs or
/// overlaps are allowed. Otherwise it is skipped, or queued where the schedule queues and
/// its queue is empty. What is not to start is recorded as decided, whatever runs.
pub proof fn law_overlap_decides_about_starts(
    outcome: OutcomeModel,
    overlap: OverlapPolicy,
    active: i64,
    queued: bool,
)
    ensures
        match outcome {
            OutcomeModel::Start => run_status(outcome, overlap, active, queued) == (if active <= 0
                || overlap == OverlapPolicy::Allow {
                ("materializing"@, None)
            } else if overlap == OverlapPolicy::SkipIfActive {
                ("skipped"@, Some("overlap_active"@))
            } else if queued {
                ("skipped"@, Some("overlap_queue_full"@))
            } else {
                ("queued"@, Some("overlap_queue_one"@))
            }),
            OutcomeModel::Skip(reason) => run_status(outcome, overlap, active, queued) == (
                "skipped"@,
                Some(reason),
            ),
            OutcomeModel::Coalesce => run_status(outcome, overlap, active, queued) == (
                "coalesced"@,
                Some("run_latest"@),
            ),
        },
{
}

/// A tick counts what it records: a run that is started, queued, skipped or coalesced adds
/// one to that count and to no other. A started run is active from then on, and a queued
/// one fills the queue.
pub proof fn law_tick_counts_what_it_records(
    tick: TickModel,
    outcome: OutcomeModel,
    overlap: OverlapPolicy,
)
    requires
        0 <= tick.report.started < u32::MAX,
        0 <= tick.report.queued < u32::MAX,
        0 <= tick.report.skipped < u32::MAX,
        0 <= tick.report.coalesced < u32::MAX,
        tick.active < i64::MAX,
    ensures
        ({
            let status = run_status(outcome, overlap, tick.active, tick.queued).0;
            let after = after_occurrence(tick, outcome, overlap);
            let started = status == "materializing"@;
            let queued = status == "queued"@;
            let skipped = status == "skipped"@;
            let coalesced = status == "coalesced"@;
            &&& started || queued || skipped || coalesced
            &&& after.report.started == tick.report.started + (if started {
                1int
            } else {
                0
            })
            &&& after.report.queued == tick.report.queued + (if queued {
                1int
            } else {
                0
            })
            &&& after.report.skipped == tick.report.skipped + (if skipped {
                1int
            } else {
                0
            })
            &&& after.report.coalesced == tick.report.coalesced + (if coalesced {
                1int
            } else {
                0
            })
            &&& after.active == tick.active + (if started {
                1int
            } else {
                0
            })
            &&& after.queued == (tick.queued || queued)
            &&& after.report.schedule_key == tick.report.schedule_key
            &&& after.report.inspected == tick.report.inspected
            &&& after.report.paused == tick.report.paused
        }),
{
    reveal_strlit("materializing");
    reveal_strlit("queued");
    reveal_strlit("skipped");
    reveal_strlit("coalesced");
    assert("materializing"@.len() == 13);
    assert("queued"@.len() == 6);
    assert("skipped"@.len() == 7);
    assert("coalesced"@.len() == 9);
}

/// A tick records one run for each due occurrence, in their order, each for its own
/// occurrence and under the key of the schedule.
pub proof fn law_tick_records_every_occurrence(
    tick: TickModel,
    due: Seq<OccurrenceModel>,
    outcomes: Seq<OutcomeModel>,
    overlap: OverlapPolicy,
    now: i64,
    i: int,
)
    requires
        due.len() == outcomes.len(),
        0 <= i < due.len(),
        i64::MIN <= due[i].scheduled_for <= i64::MAX,
    ensures
        ({
            let runs = planned_runs(tick, due, outcomes, overlap, now);
            let before = after_occurrences(tick, outcomes.take(i), overlap);
            &&& runs.len() == due.len()
            &&& runs[i].schedule_key == tick.report.schedule_key
            &&& runs[i].local_occurrence == due[i].text
            &&& runs[i].scheduled_for == due[i].scheduled_for
            &&& (runs[i].status, runs[i].reason) == run_status(
                outcomes[i],
                overlap,
                before.active,
                before.queued,
            )
            &&& runs[i].workflow_id is None
            &&& after_occurrence(before, outcomes[i], overlap) == after_occurrences(
                tick,
                outcomes.take(i + 1),
                overlap,
            )
        }),
{
    lemma_tick_keeps_its_key(tick, outcomes.take(i), overlap);
    assert(outcomes.take(i + 1).drop_last() =~= outcomes.take(i));
}

proof fn lemma_tick_keeps_its_key(
    tick: TickModel,
    outcomes: Seq<OutcomeModel>,
    overlap: OverlapPolicy,
)
    ensures
        after_occurrences(tick, outcomes, overlap).report.schedule_key == tick.report.schedule_key,
    decreases outcomes.len(),
{
    if outcomes.len() > 0 {
        lemma_tick_keeps_its_key(tick, outcomes.drop_last(), overlap);
    }
}

/// A tick begins with nothing counted; only where the schedule queues, a run is queued and
/// nothing runs does it begin by starting that run, which empties the queue.
pub proof fn law_tick_begins_with_the_queued_run(
    schedule_key: Seq<char>,
    overlap: OverlapPolicy,
    active: i64,
    queued: bool,
)
    ensures
        ({
            let tick = fresh_tick(schedule_key, overlap, active, queued);
            let promoted = overlap == OverlapPolicy::QueueOne && queued && active == 0;
            &&& promotes(overlap, active, queued) == promoted
            &&& tick.active == (if promoted {
                1
            } else {
                active
            })
            &&& tick.queued == (queued && !promoted)
            &&& tick.report.schedule_key == schedule_key
            &&& tick.report.started == (if promoted {
                1int
            } else {
                0
            })
            &&& tick.report.inspected == 0
            &&& tick.report.queued == 0
            &&& tick.report.skipped == 0
            &&& tick.report.coalesced == 0
            &&& !tick.report.paused
        }),
{
}

/// After a tick the schedule stands at the occurrence that comes next, as taken up now;
/// its definition and its pause stay as they were.
pub proof fn law_tick_moves_the_schedule_on(
    state: ScheduleStateRowModel,
    next: OccurrenceModel,
    now: i64,
)
    requires
        i64::MIN <= next.due_at <= i64::MAX,
    ensures
        ({
            let moved = advanced_state(state, next, now);
            &&& moved.next_local_occurrence == next.text
            &&& moved.next_occurrence_at == next.due_at
            &&& moved.last_materialized_at == Some(now)
            &&& moved.updated_at == now
            &&& moved.schedule_key == state.schedule_key
            &&& moved.definition_fingerprint == state.definition_fingerprint
            &&& moved.definition_version == state.definition_version
            &&& moved.paused_at == state.paused_at
            &&& moved.paused_by == state.paused_by
            &&& moved.pause_reason == state.pause_reason
            &&& moved.created_at == state.created_at
        }),
{
}

/// A persisted state is only followed where its two next occurrences are the same: the
/// occurrence that its wall-clock time stands for has its text and its due time.
pub proof fn law_persisted_occurrences_agree(
    state: ScheduleStateRowModel,
    timezone: Seq<char>,
    local: Result<(int, int), Seq<char>>,
)
    ensures
        match persisted_occurrence(state, timezone, local) {
            Ok(occurrence) => {
                &&& occurrence.text == state.next_local_occurrence
                &&& occurrence.due_at == state.next_occurrence_at
                &&& local is Ok
            },
            Err(error) => local is Err ==> error is InvalidState,
        },
{
}

/// A started run names its workflow and stays the run of its occurrence; a promoted one also
/// says that it had waited.
pub proof fn law_started_run_names_its_workflow(run: ScheduleRunRowModel, workflow_id: i64)
    ensures
        run_started(run, workflow_id).status == "started"@,
        run_started(run, workflow_id).workflow_id == Some(workflow_id),
        run_started(run, workflow_id).reason == run.reason,
        (ScheduleRunRowModel {
            status: run.status,
            workflow_id: run.workflow_id,
            ..run_started(run, workflow_id)
        }) == run,
        run_promoted(run, workflow_id).status == "started"@,
        run_promoted(run, workflow_id).workflow_id == Some(workflow_id),
        run_promoted(run, workflow_id).reason == Some("queue_one_promoted"@),
        (ScheduleRunRowModel {
            status: run.status,
            workflow_id: run.workflow_id,
            reason: run.reason,
            ..run_promoted(run, workflow_id)
        }) == run,
{
}

} // verus!
