//! The timeline of a workflow: events, activities, attempts, progress and
//! approvals merged in the order of their times.
use vstd::prelude::*;
use crate::admin::cursor;
use crate::admin::cursor::{decode_cursor, encode_cursor, CursorPosition, PositionModel};
use crate::admin::query;
use crate::admin::query::{
    activity_summary, approval_summary, attempt_summary, progress_summary, reversed,
    ActivityProjection, ApprovalProjection, AttemptProjection,
};
use crate::admin::types::{AdminPage, TimelineEntry};
use crate::error::{DurableError, ErrorModel};
use crate::ids::WorkflowId;
use crate::json;
use crate::numerals;
use crate::numerals::{decimal_u64, padded_decimal_i64, parse_i64, parse_u8};
use crate::order;
use crate::order::{sort_ranked, Ranked};
use crate::persistence::models::ProgressEventRow;
use crate::text;
use crate::text::{chars_of, join2, precedes};

verus! {

/// What a timeline reads of an event.
#[derive(Debug)]
pub struct EventProjection {
    pub id: i64,
    pub event_type: String,
    pub actor_type: Option<String>,
    pub actor_id: Option<String>,
    pub reason: Option<String>,
    pub created_at: i64,
}

/// Where a page of a timeline begins: a time, the kind of the last entry and its
/// numbers.
#[derive(Debug, Clone, Copy, PartialEq, Eq, Structural)]
pub struct TimelineCursor {
    pub timestamp: i64,
    pub rank: u8,
    pub id: i64,
    pub attempt_number: i32,
    pub sequence: i32,
}

/// Some numbers, each padded to 20 characters, with colons between them.
pub open spec fn padded_numbers(numbers: Seq<int>) -> Seq<char>
    decreases numbers.len(),
{
    if numbers.len() == 0 {
        Seq::empty()
    } else if numbers.len() == 1 {
        numerals::padded_signed(numbers[0], 20)
    } else {
        padded_numbers(numbers.drop_last()) + ":"@ + numerals::padded_signed(numbers.last(), 20)
    }
}

/// What orders the entries of a timeline that have the same time.
pub open spec fn entry_key(rank: int, numbers: Seq<int>) -> Seq<char> {
    numerals::decimal(rank) + ":"@ + padded_numbers(numbers)
}

/// The views of some numbers.
pub open spec fn number_views(numbers: Seq<i64>) -> Seq<int> {
    numbers.map_values(|number: i64| number as int)
}

/// What orders the entries of a timeline that have the same time.
pub fn timeline_key(rank: u8, numbers: &Vec<i64>) -> (key: String)
    ensures
        key@ == entry_key(rank as int, number_views(numbers@)),
{
    let ghost views = number_views(numbers@);
    let mut padded = String::new();
    let mut i: usize = 0;
    assert(views.take(0) =~= Seq::<int>::empty());
    assert(padded@ =~= padded_numbers(views.take(0)));
    while i < numbers.len()
        invariant
            i <= numbers@.len(),
            views == number_views(numbers@),
            padded@ == padded_numbers(views.take(i as int)),
        decreases numbers@.len() - i,
    {
        proof {
            assert(views.take(i as int + 1).drop_last() =~= views.take(i as int));
            assert(views.take(i as int + 1).last() == numbers@[i as int]);
        }
        if i > 0 {
            padded.append(":");
        }
        padded.append(padded_decimal_i64(numbers[i], 20).as_str());
        i = i + 1;
        assert(padded@ =~= padded_numbers(views.take(i as int)));
    }
    assert(views.take(i as int) =~= views);
    let mut key = decimal_u64(rank as u64);
    key.append(":");
    key.append(padded.as_str());
    key
}

/// The parts of a text between its colons.
pub open spec fn colon_parts(s: Seq<char>) -> Seq<Seq<char>>
    decreases s.len(),
{
    if s.len() == 0 {
        seq![Seq::<char>::empty()]
    } else {
        let parts = colon_parts(s.drop_last());
        if s.last() == ':' {
            parts.push(Seq::<char>::empty())
        } else {
            parts.update(parts.len() - 1, parts.last().push(s.last()))
        }
    }
}

proof fn lemma_some_part(s: Seq<char>)
    ensures
        colon_parts(s).len() > 0,
    decreases s.len(),
{
    if s.len() > 0 {
        lemma_some_part(s.drop_last());
    }
}

/// The parts of a text between its colons.
pub fn split_colons(s: &str) -> (parts: Vec<String>)
    ensures
        text::texts(parts@) == colon_parts(s@),
        parts@.len() > 0,
{
    let chars = chars_of(s);
    let mut parts: Vec<String> = Vec::new();
    let mut current = String::new();
    let mut i: usize = 0;
    proof {
        assert(chars@.take(0) =~= Seq::<char>::empty());
        assert(text::texts(parts@).push(current@) =~= colon_parts(chars@.take(0)));
    }
    while i < chars.len()
        invariant
            i <= chars@.len(),
            chars@ == s@,
            text::texts(parts@).push(current@) == colon_parts(chars@.take(i as int)),
        decreases chars@.len() - i,
    {
        let ghost before = text::texts(parts@);
        let ghost partial = current@;
        proof {
            assert(chars@.take(i as int + 1).drop_last() =~= chars@.take(i as int));
        }
        let c = chars[i];
        if c == ':' {
            parts.push(current);
            current = String::new();
            assert(text::texts(parts@) =~= before.push(partial));
            assert(text::texts(parts@).push(current@) =~= colon_parts(chars@.take(i as int + 1)));
        } else {
            current.push(c);
            assert(text::texts(parts@).push(current@) =~= colon_parts(chars@.take(i as int + 1)));
        }
        i = i + 1;
    }
    let ghost before = text::texts(parts@);
    let ghost partial = current@;
    parts.push(current);
    proof {
        assert(chars@.take(i as int) =~= s@);
        assert(text::texts(parts@) =~= before.push(partial));
    }
    parts
}

/// The numbers that some texts stand for, where each stands for one.
pub open spec fn numbers_in(parts: Seq<Seq<char>>) -> Option<Seq<int>>
    decreases parts.len(),
{
    if parts.len() == 0 {
        Some(Seq::empty())
    } else {
        match (
            numbers_in(parts.drop_last()),
            numerals::bounded_value(parts.last(), i64::MIN as int, i64::MAX as int),
        ) {
            (Some(numbers), Some(number)) => Some(numbers.push(number)),
            _ => None,
        }
    }
}

/// How many numbers the key of an entry holds.
pub open spec fn expected_numbers(rank: int) -> Option<int> {
    if rank == 0 || rank == 1 || rank == 4 {
        Some(1)
    } else if rank == 2 {
        Some(2)
    } else if rank == 3 {
        Some(3)
    } else {
        None
    }
}

/// Whether every number is positive.
pub open spec fn all_positive(numbers: Seq<int>) -> bool {
    forall|i: int| 0 <= i < numbers.len() ==> (#[trigger] numbers[i]) > 0
}

/// Where a page of a timeline begins, or why its cursor is refused.
pub open spec fn timeline_place(position: PositionModel) -> Result<TimelineCursor, ErrorModel> {
    let parts = colon_parts(position.tie_breaker);
    match numerals::small_value(parts[0]) {
        None => Err(ErrorModel::InvalidCursor("timeline cursor rank is invalid"@)),
        Some(rank) => match numbers_in(parts.drop_first()) {
            None => Err(
                ErrorModel::InvalidCursor("timeline cursor component is not numeric"@),
            ),
            Some(numbers) => match expected_numbers(rank) {
                None => Err(
                    ErrorModel::InvalidCursor(
                        "timeline cursor rank is outside the supported range"@,
                    ),
                ),
                Some(expected) => if numbers.len() != expected || !all_positive(numbers) {
                    Err(ErrorModel::InvalidCursor("timeline cursor has invalid components"@))
                } else if numbers.len() > 1 && numbers[1] > i32::MAX {
                    Err(
                        ErrorModel::InvalidCursor(
                            "timeline cursor attempt number is outside the supported range"@,
                        ),
                    )
                } else if numbers.len() > 2 && numbers[2] > i32::MAX {
                    Err(
                        ErrorModel::InvalidCursor(
                            "timeline cursor sequence is outside the supported range"@,
                        ),
                    )
                } else {
                    Ok(
                        TimelineCursor {
                            timestamp: position.timestamp,
                            rank: rank as u8,
                            id: numbers[0] as i64,
                            attempt_number: if numbers.len() > 1 {
                                numbers[1] as i32
                            } else {
                                0
                            },
                            sequence: if numbers.len() > 2 {
                                numbers[2] as i32
                            } else {
                                0
                            },
                        },
                    )
                },
            },
        },
    }
}

fn invalid_cursor(message: &str) -> (error: DurableError)
    ensures
        error@ == ErrorModel::InvalidCursor(message@),
{
    DurableError::InvalidCursor(message.to_owned())
}

fn parse_numbers(parts: &Vec<String>) -> (numbers: Option<Vec<i64>>)
    requires
        parts@.len() > 0,
    ensures
        match numbers {
            Some(numbers) => numbers_in(text::texts(parts@).drop_first()) == Some(
                number_views(numbers@),
            ),
            None => numbers_in(text::texts(parts@).drop_first()) is None,
        },
{
    let ghost rest = text::texts(parts@).drop_first();
    let mut numbers: Vec<i64> = Vec::new();
    let mut i: usize = 1;
    assert(rest.take(0) =~= Seq::<Seq<char>>::empty());
    assert(number_views(numbers@) =~= Seq::<int>::empty());
    while i < parts.len()
        invariant
            1 <= i <= parts@.len(),
            rest == text::texts(parts@).drop_first(),
            numbers_in(rest.take(i - 1)) == Some(number_views(numbers@)),
        decreases parts@.len() - i,
    {
        proof {
            assert(rest.take(i as int).drop_last() =~= rest.take(i - 1));
            assert(rest.take(i as int).last() == parts@[i as int]@);
        }
        match parse_i64(parts[i].as_str()) {
            Some(number) => {
                let ghost before = number_views(numbers@);
                numbers.push(number);
                assert(number_views(numbers@) =~= before.push(number as int));
            },
            None => {
                proof {
                    lemma_not_numeric(rest, i as int);
                }
                return None;
            },
        }
        i = i + 1;
    }
    assert(rest.take(i - 1) =~= rest);
    Some(numbers)
}

proof fn lemma_not_numeric(parts: Seq<Seq<char>>, k: int)
    requires
        0 <= k <= parts.len(),
        numbers_in(parts.take(k)) is None,
    ensures
        numbers_in(parts) is None,
    decreases parts.len() - k,
{
    if k < parts.len() {
        assert(parts.take(k + 1).drop_last() =~= parts.take(k));
        lemma_not_numeric(parts, k + 1);
    } else {
        assert(parts.take(k) =~= parts);
    }
}

fn are_positive(numbers: &Vec<i64>) -> (positive: bool)
    ensures
        positive == all_positive(number_views(numbers@)),
{
    let ghost views = number_views(numbers@);
    let mut i: usize = 0;
    while i < numbers.len()
        invariant
            i <= numbers@.len(),
            views == number_views(numbers@),
            forall|j: int| 0 <= j < i ==> (#[trigger] views[j]) > 0,
        decreases numbers@.len() - i,
    {
        assert(views[i as int] == numbers@[i as int]);
        if numbers[i] <= 0 {
            return false;
        }
        i = i + 1;
    }
    true
}

/// Where a page of a timeline begins, from the position inside its cursor.
pub fn timeline_cursor(position: &CursorPosition) -> (result: Result<TimelineCursor, DurableError>)
    ensures
        match result {
            Ok(place) => timeline_place(position@) == Ok::<TimelineCursor, ErrorModel>(place),
            Err(error) => timeline_place(position@) == Err::<TimelineCursor, ErrorModel>(error@),
        },
{
    let parts = split_colons(position.tie_breaker.as_str());
    assert(text::texts(parts@)[0] == parts@[0]@);
    let rank: u8 = match parse_u8(parts[0].as_str()) {
        Some(rank) => rank,
        None => return Err(invalid_cursor("timeline cursor rank is invalid")),
    };
    let numbers = match parse_numbers(&parts) {
        Some(numbers) => numbers,
        None => return Err(invalid_cursor("timeline cursor component is not numeric")),
    };
    let ghost views = number_views(numbers@);
    let expected: usize = match rank {
        0 | 1 | 4 => 1,
        2 => 2,
        3 => 3,
        _ => return Err(invalid_cursor("timeline cursor rank is outside the supported range")),
    };
    if numbers.len() != expected || !are_positive(&numbers) {
        return Err(invalid_cursor("timeline cursor has invalid components"));
    }
    assert(views[0] == numbers@[0]);
    let mut attempt_number: i32 = 0;
    if numbers.len() > 1 {
        assert(views[1] == numbers@[1]);
        if numbers[1] > 0x7fff_ffff {
            return Err(
                invalid_cursor("timeline cursor attempt number is outside the supported range"),
            );
        }
        attempt_number = numbers[1] as i32;
    }
    let mut sequence: i32 = 0;
    if numbers.len() > 2 {
        assert(views[2] == numbers@[2]);
        if numbers[2] > 0x7fff_ffff {
            return Err(invalid_cursor("timeline cursor sequence is outside the supported range"));
        }
        sequence = numbers[2] as i32;
    }
    Ok(
        TimelineCursor {
            timestamp: position.timestamp,
            rank,
            id: numbers[0],
            attempt_number,
            sequence,
        },
    )
}

/// Whether this is what the cursor of a page of a timeline reads as in a scope.
pub open spec fn is_read_place(
    scope: Seq<char>,
    cursor: Seq<char>,
    result: Result<TimelineCursor, ErrorModel>,
) -> bool {
    let read = cursor::decoded_cursor(scope, cursor);
    &&& cursor::is_read_cursor(scope, cursor, read)
    &&& result == (match read {
        Ok(position) => timeline_place(position),
        Err(error) => Err(error),
    })
}

/// The model of a place or of the error in its stead.
pub open spec fn place_model(result: Result<TimelineCursor, DurableError>) -> Result<
    TimelineCursor,
    ErrorModel,
> {
    match result {
        Ok(place) => Ok(place),
        Err(error) => Err(error@),
    }
}

/// Where a page of a timeline begins. A cursor that was written for the same scope
/// reads as the place of the position that it was written for.
pub fn decode_timeline_cursor(scope: &str, cursor: &str) -> (result: Result<
    TimelineCursor,
    DurableError,
>)
    ensures
        is_read_place(scope@, cursor@, place_model(result)),
{
    match decode_cursor(scope, cursor) {
        Ok(position) => timeline_cursor(&position),
        Err(error) => Err(error),
    }
}

/// An entry of a timeline with its place.
#[derive(Debug)]
pub struct TimelineEnvelope {
    pub occurred_at: i64,
    pub tie_breaker: String,
    pub entry: TimelineEntry,
}

impl Ranked for TimelineEnvelope {
    open spec fn ranks_before(&self, other: &Self) -> bool {
        self.occurred_at < other.occurred_at || (self.occurred_at == other.occurred_at
            && text::text_before(self.tie_breaker@, other.tie_breaker@))
    }

    proof fn lemma_asymmetric(a: &Self, b: &Self) {
        text::lemma_text_order(a.tie_breaker@, b.tie_breaker@);
    }

    proof fn lemma_not_before_transitive(a: &Self, b: &Self, c: &Self) {
        if a.occurred_at == b.occurred_at && b.occurred_at == c.occurred_at {
            String::lemma_not_before_transitive(&a.tie_breaker, &b.tie_breaker, &c.tie_breaker);
        }
    }

    fn is_before(&self, other: &Self) -> (before: bool) {
        self.occurred_at < other.occurred_at || (self.occurred_at == other.occurred_at && precedes(
            self.tie_breaker.as_str(),
            other.tie_breaker.as_str(),
        ))
    }
}

/// Whether an entry shows an event.
pub open spec fn shows_event(row: EventProjection, envelope: TimelineEnvelope) -> bool {
    &&& envelope.occurred_at == row.created_at
    &&& envelope.tie_breaker@ == entry_key(0, seq![row.id as int])
    &&& envelope.entry == (TimelineEntry::WorkflowEvent {
        event_type: row.event_type,
        actor_type: row.actor_type,
        actor_id: row.actor_id,
        reason: row.reason,
        occurred_at: row.created_at,
    })
}

fn event_entries(rows: Vec<EventProjection>) -> (entries: Vec<TimelineEnvelope>)
    ensures
        entries@.len() == rows@.len(),
        forall|i: int| 0 <= i < entries@.len() ==> shows_event(rows@[i], #[trigger] entries@[i]),
{
    let ghost all = rows@;
    let mut pending = reversed(rows);
    let mut entries: Vec<TimelineEnvelope> = Vec::new();
    while pending.len() > 0
        invariant
            all == rows@,
            entries@.len() + pending@.len() == all.len(),
            forall|j: int|
                0 <= j < pending@.len() ==> #[trigger] pending@[j] == all[all.len() - 1 - j],
            forall|j: int| 0 <= j < entries@.len() ==> shows_event(all[j], #[trigger] entries@[j]),
        decreases pending@.len(),
    {
        let ghost at = entries@.len() as int;
        match pending.pop() {
            Some(row) => {
                assert(row == all[at]);
                let mut numbers: Vec<i64> = Vec::new();
                numbers.push(row.id);
                assert(number_views(numbers@) =~= seq![row.id as int]);
                entries.push(
                    TimelineEnvelope {
                        occurred_at: row.created_at,
                        tie_breaker: timeline_key(0, &numbers),
                        entry: TimelineEntry::WorkflowEvent {
                            event_type: row.event_type,
                            actor_type: row.actor_type,
                            actor_id: row.actor_id,
                            reason: row.reason,
                            occurred_at: row.created_at,
                        },
                    },
                );
            },
            None => {},
        }
    }
    entries
}

/// Whether an entry shows an activity.
pub open spec fn shows_activity(row: ActivityProjection, envelope: TimelineEnvelope) -> bool {
    &&& envelope.occurred_at == row.created_at
    &&& envelope.tie_breaker@ == entry_key(1, seq![row.id as int])
    &&& envelope.entry matches TimelineEntry::Activity(summary) && query::summarizes_activity(row, summary)
}

fn activity_entries(rows: Vec<ActivityProjection>) -> (result: Result<Vec<TimelineEnvelope>, DurableError>)
    ensures
        ({
            let problems = Seq::new(rows@.len(), |i: int| query::activity_problem(rows@[i]));
            match result {
                Ok(entries) => {
                    &&& query::first_error(problems) is None
                    &&& entries@.len() == rows@.len()
                    &&& forall|i: int|
                        0 <= i < entries@.len() ==> shows_activity(rows@[i], #[trigger] entries@[i])
                },
                Err(error) => query::first_error(problems) == Some(error@),
            }
        }),
{
    let ghost all = rows@;
    let ghost problems = Seq::new(rows@.len(), |i: int| query::activity_problem(rows@[i]));
    let mut pending = reversed(rows);
    let mut entries: Vec<TimelineEnvelope> = Vec::new();
    while pending.len() > 0
        invariant
            all == rows@,
            problems == Seq::new(rows@.len(), |i: int| query::activity_problem(rows@[i])),
            entries@.len() + pending@.len() == all.len(),
            forall|j: int|
                0 <= j < pending@.len() ==> #[trigger] pending@[j] == all[all.len() - 1 - j],
            forall|j: int| 0 <= j < entries@.len() ==> shows_activity(all[j], #[trigger] entries@[j]),
            forall|j: int| 0 <= j < entries@.len() ==> (#[trigger] problems[j]) is None,
        decreases pending@.len(),
    {
        let ghost at = entries@.len() as int;
        match pending.pop() {
            Some(row) => {
                assert(row == all[at]);
                let occurred_at: i64 = row.created_at;
                let mut numbers: Vec<i64> = Vec::new();
                numbers.push(row.id);
                assert(number_views(numbers@) =~= seq![row.id as int]);
                let tie_breaker = timeline_key(1, &numbers);
                match activity_summary(row) {
                    Ok(summary) => {
                        entries.push(
                            TimelineEnvelope {
                                occurred_at,
                                tie_breaker,
                                entry: TimelineEntry::Activity(summary),
                            },
                        );
                    },
                    Err(error) => {
                        proof {
                            assert(problems[at] == Some(error@));
                            query::lemma_first_error_at(problems, at);
                        }
                        return Err(error);
                    },
                }
            },
            None => {},
        }
    }
    proof {
        query::lemma_no_first_error(problems);
    }
    Ok(entries)
}

/// Whether an entry shows an attempt.
pub open spec fn shows_attempt(row: AttemptProjection, envelope: TimelineEnvelope) -> bool {
    &&& envelope.occurred_at == row.started_at
    &&& envelope.tie_breaker@ == entry_key(2, seq![row.activity_id as int, row.attempt_number as int])
    &&& envelope.entry matches TimelineEntry::ActivityAttempt(summary) && query::summarizes_attempt(row, summary)
}

fn attempt_entries(rows: Vec<AttemptProjection>) -> (result: Result<Vec<TimelineEnvelope>, DurableError>)
    ensures
        ({
            let problems = Seq::new(rows@.len(), |i: int| query::attempt_problem(rows@[i]));
            match result {
                Ok(entries) => {
                    &&& query::first_error(problems) is None
                    &&& entries@.len() == rows@.len()
                    &&& forall|i: int|
                        0 <= i < entries@.len() ==> shows_attempt(rows@[i], #[trigger] entries@[i])
                },
                Err(error) => query::first_error(problems) == Some(error@),
            }
        }),
{
    let ghost all = rows@;
    let ghost problems = Seq::new(rows@.len(), |i: int| query::attempt_problem(rows@[i]));
    let mut pending = reversed(rows);
    let mut entries: Vec<TimelineEnvelope> = Vec::new();
    while pending.len() > 0
        invariant
            all == rows@,
            problems == Seq::new(rows@.len(), |i: int| query::attempt_problem(rows@[i])),
            entries@.len() + pending@.len() == all.len(),
            forall|j: int|
                0 <= j < pending@.len() ==> #[trigger] pending@[j] == all[all.len() - 1 - j],
            forall|j: int| 0 <= j < entries@.len() ==> shows_attempt(all[j], #[trigger] entries@[j]),
            forall|j: int| 0 <= j < entries@.len() ==> (#[trigger] problems[j]) is None,
        decreases pending@.len(),
    {
        let ghost at = entries@.len() as int;
        match pending.pop() {
            Some(row) => {
                assert(row == all[at]);
                let occurred_at: i64 = row.started_at;
                let mut numbers: Vec<i64> = Vec::new();
                numbers.push(row.activity_id);
                numbers.push(row.attempt_number as i64);
                assert(number_views(numbers@) =~= seq![row.activity_id as int, row.attempt_number as int]);
                let tie_breaker = timeline_key(2, &numbers);
                match attempt_summary(row) {
                    Ok(summary) => {
                        entries.push(
                            TimelineEnvelope {
                                occurred_at,
                                tie_breaker,
                                entry: TimelineEntry::ActivityAttempt(summary),
                            },
                        );
                    },
                    Err(error) => {
                        proof {
                            assert(problems[at] == Some(error@));
                            query::lemma_first_error_at(problems, at);
                        }
                        return Err(error);
                    },
                }
            },
            None => {},
        }
    }
    proof {
        query::lemma_no_first_error(problems);
    }
    Ok(entries)
}

/// Whether an entry shows a progress event.
pub open spec fn shows_progress(row: ProgressEventRow, envelope: TimelineEnvelope) -> bool {
    &&& envelope.occurred_at == row.created_at
    &&& envelope.tie_breaker@ == entry_key(3, seq![row.activity_id as int, row.attempt_number as int, row.sequence as int])
    &&& envelope.entry matches TimelineEntry::Progress(summary) && query::summarizes_progress(row, summary)
}

fn progress_entries(rows: Vec<ProgressEventRow>) -> (result: Result<Vec<TimelineEnvelope>, DurableError>)
    ensures
        ({
            let problems = Seq::new(rows@.len(), |i: int| query::id_error(rows@[i].activity_id));
            match result {
                Ok(entries) => {
                    &&& query::first_error(problems) is None
                    &&& entries@.len() == rows@.len()
                    &&& forall|i: int|
                        0 <= i < entries@.len() ==> shows_progress(rows@[i], #[trigger] entries@[i])
                },
                Err(error) => query::first_error(problems) == Some(error@),
            }
        }),
{
    let ghost all = rows@;
    let ghost problems = Seq::new(rows@.len(), |i: int| query::id_error(rows@[i].activity_id));
    let mut pending = reversed(rows);
    let mut entries: Vec<TimelineEnvelope> = Vec::new();
    while pending.len() > 0
        invariant
            all == rows@,
            problems == Seq::new(rows@.len(), |i: int| query::id_error(rows@[i].activity_id)),
            entries@.len() + pending@.len() == all.len(),
            forall|j: int|
                0 <= j < pending@.len() ==> #[trigger] pending@[j] == all[all.len() - 1 - j],
            forall|j: int| 0 <= j < entries@.len() ==> shows_progress(all[j], #[trigger] entries@[j]),
            forall|j: int| 0 <= j < entries@.len() ==> (#[trigger] problems[j]) is None,
        decreases pending@.len(),
    {
        let ghost at = entries@.len() as int;
        match pending.pop() {
            Some(row) => {
                assert(row == all[at]);
                let occurred_at: i64 = row.created_at;
                let mut numbers: Vec<i64> = Vec::new();
                numbers.push(row.activity_id);
                numbers.push(row.attempt_number as i64);
                numbers.push(row.sequence as i64);
                assert(number_views(numbers@) =~= seq![row.activity_id as int, row.attempt_number as int, row.sequence as int]);
                let tie_breaker = timeline_key(3, &numbers);
                match progress_summary(row) {
                    Ok(summary) => {
                        entries.push(
                            TimelineEnvelope {
                                occurred_at,
                                tie_breaker,
                                entry: TimelineEntry::Progress(summary),
                            },
                        );
                    },
                    Err(error) => {
                        proof {
                            assert(problems[at] == Some(error@));
                            query::lemma_first_error_at(problems, at);
                        }
                        return Err(error);
                    },
                }
            },
            None => {},
        }
    }
    proof {
        query::lemma_no_first_error(problems);
    }
    Ok(entries)
}

/// Whether an entry shows an approval.
pub open spec fn shows_approval(row: ApprovalProjection, envelope: TimelineEnvelope) -> bool {
    &&& envelope.occurred_at == row.requested_at
    &&& envelope.tie_breaker@ == entry_key(4, seq![row.id as int])
    &&& envelope.entry matches TimelineEntry::Approval(summary) && query::summarizes_approval(row, row.status@, summary)
}

fn approval_entries(rows: Vec<ApprovalProjection>) -> (result: Result<Vec<TimelineEnvelope>, DurableError>)
    ensures
        ({
            let problems = Seq::new(rows@.len(), |i: int| query::approval_problem(rows@[i]));
            match result {
                Ok(entries) => {
                    &&& query::first_error(problems) is None
                    &&& entries@.len() == rows@.len()
                    &&& forall|i: int|
                        0 <= i < entries@.len() ==> shows_approval(rows@[i], #[trigger] entries@[i])
                },
                Err(error) => query::first_error(problems) == Some(error@),
            }
        }),
{
    let ghost all = rows@;
    let ghost problems = Seq::new(rows@.len(), |i: int| query::approval_problem(rows@[i]));
    let mut pending = reversed(rows);
    let mut entries: Vec<TimelineEnvelope> = Vec::new();
    while pending.len() > 0
        invariant
            all == rows@,
            problems == Seq::new(rows@.len(), |i: int| query::approval_problem(rows@[i])),
            entries@.len() + pending@.len() == all.len(),
            forall|j: int|
                0 <= j < pending@.len() ==> #[trigger] pending@[j] == all[all.len() - 1 - j],
            forall|j: int| 0 <= j < entries@.len() ==> shows_approval(all[j], #[trigger] entries@[j]),
            forall|j: int| 0 <= j < entries@.len() ==> (#[trigger] problems[j]) is None,
        decreases pending@.len(),
    {
        let ghost at = entries@.len() as int;
        match pending.pop() {
            Some(row) => {
                assert(row == all[at]);
                let occurred_at: i64 = row.requested_at;
                let mut numbers: Vec<i64> = Vec::new();
                numbers.push(row.id);
                assert(number_views(numbers@) =~= seq![row.id as int]);
                let tie_breaker = timeline_key(4, &numbers);
                match approval_summary(row) {
                    Ok(summary) => {
                        entries.push(
                            TimelineEnvelope {
                                occurred_at,
                                tie_breaker,
                                entry: TimelineEntry::Approval(summary),
                            },
                        );
                    },
                    Err(error) => {
                        proof {
                            assert(problems[at] == Some(error@));
                            query::lemma_first_error_at(problems, at);
                        }
                        return Err(error);
                    },
                }
            },
            None => {},
        }
    }
    proof {
        query::lemma_no_first_error(problems);
    }
    Ok(entries)
}

/// What a page of a timeline is made from.
pub struct TimelineRows {
    pub events: Vec<EventProjection>,
    pub activities: Vec<ActivityProjection>,
    pub attempts: Vec<AttemptProjection>,
    pub progress: Vec<ProgressEventRow>,
    pub approvals: Vec<ApprovalProjection>,
}

/// Whether the entries show all rows, one source after the other.
pub open spec fn gathers(rows: TimelineRows, entries: Seq<TimelineEnvelope>) -> bool {
    let a = rows.events@.len() as int;
    let b = a + rows.activities@.len();
    let c = b + rows.attempts@.len();
    let d = c + rows.progress@.len();
    let e = d + rows.approvals@.len();
    &&& entries.len() == e
    &&& forall|i: int| 0 <= i < a ==> shows_event(rows.events@[i], #[trigger] entries[i])
    &&& forall|i: int|
        a <= i < b ==> shows_activity(rows.activities@[i - a], #[trigger] entries[i])
    &&& forall|i: int| b <= i < c ==> shows_attempt(rows.attempts@[i - b], #[trigger] entries[i])
    &&& forall|i: int| c <= i < d ==> shows_progress(rows.progress@[i - c], #[trigger] entries[i])
    &&& forall|i: int| d <= i < e ==> shows_approval(rows.approvals@[i - d], #[trigger] entries[i])
}

/// Why some rows cannot be shown in a timeline.
pub open spec fn timeline_problem(rows: TimelineRows) -> Option<ErrorModel> {
    query::either(
        query::first_error(
            Seq::new(
                rows.activities@.len(),
                |i: int| query::activity_problem(rows.activities@[i]),
            ),
        ),
        query::either(
            query::first_error(
                Seq::new(
                    rows.attempts@.len(),
                    |i: int| query::attempt_problem(rows.attempts@[i]),
                ),
            ),
            query::either(
                query::first_error(
                    Seq::new(
                        rows.progress@.len(),
                        |i: int| query::id_error(rows.progress@[i].activity_id),
                    ),
                ),
                query::first_error(
                    Seq::new(
                        rows.approvals@.len(),
                        |i: int| query::approval_problem(rows.approvals@[i]),
                    ),
                ),
            ),
        ),
    )
}

fn gather(rows: TimelineRows) -> (result: Result<Vec<TimelineEnvelope>, DurableError>)
    ensures
        match result {
            Ok(entries) => timeline_problem(rows) is None && gathers(rows, entries@),
            Err(error) => timeline_problem(rows) == Some(error@),
        },
{
    let mut entries = event_entries(rows.events);
    let mut activities = match activity_entries(rows.activities) {
        Ok(entries) => entries,
        Err(error) => return Err(error),
    };
    let mut attempts = match attempt_entries(rows.attempts) {
        Ok(entries) => entries,
        Err(error) => return Err(error),
    };
    let mut progress = match progress_entries(rows.progress) {
        Ok(entries) => entries,
        Err(error) => return Err(error),
    };
    let mut approvals = match approval_entries(rows.approvals) {
        Ok(entries) => entries,
        Err(error) => return Err(error),
    };
    let ghost parts = (entries@, activities@, attempts@, progress@, approvals@);
    entries.append(&mut activities);
    entries.append(&mut attempts);
    entries.append(&mut progress);
    entries.append(&mut approvals);
    proof {
        assert(entries@ =~= parts.0 + parts.1 + parts.2 + parts.3 + parts.4);
        let a = parts.0.len() as int;
        let b = a + parts.1.len();
        let c = b + parts.2.len();
        let d = c + parts.3.len();
        assert forall|i: int| 0 <= i < a implies shows_event(
            rows.events@[i],
            #[trigger] entries@[i],
        ) by {
            assert(entries@[i] == parts.0[i]);
        }
        assert forall|i: int| a <= i < b implies shows_activity(
            rows.activities@[i - a],
            #[trigger] entries@[i],
        ) by {
            assert(entries@[i] == parts.1[i - a]);
        }
        assert forall|i: int| b <= i < c implies shows_attempt(
            rows.attempts@[i - b],
            #[trigger] entries@[i],
        ) by {
            assert(entries@[i] == parts.2[i - b]);
        }
        assert forall|i: int| c <= i < d implies shows_progress(
            rows.progress@[i - c],
            #[trigger] entries@[i],
        ) by {
            assert(entries@[i] == parts.3[i - c]);
        }
        assert forall|i: int| d <= i < entries@.len() implies shows_approval(
            rows.approvals@[i - d],
            #[trigger] entries@[i],
        ) by {
            assert(entries@[i] == parts.4[i - d]);
        }
    }
    Ok(entries)
}

/// The scope of the timeline of a workflow.
pub open spec fn timeline_scope(workflow_id: int) -> Seq<char> {
    "workflow_timeline:"@ + numerals::decimal(workflow_id)
}

/// The scope of the timeline of a workflow.
pub fn scope_of(workflow_id: WorkflowId) -> (scope: String)
    ensures
        scope@ == timeline_scope(workflow_id@),
{
    join2("workflow_timeline:", workflow_id.text().as_str())
}

/// The position of an entry in a cursor.
pub open spec fn entry_position(envelope: TimelineEnvelope) -> PositionModel {
    PositionModel { timestamp: envelope.occurred_at, tie_breaker: envelope.tie_breaker@ }
}

/// Whether a page shows the first `limit` of some entries in their order, with a
/// cursor behind the last one where there are more.
pub open spec fn shows_first(
    workflow_id: int,
    sorted: Seq<TimelineEnvelope>,
    limit: u32,
    page: AdminPage<TimelineEntry>,
) -> bool {
    let n = query::at_most(sorted.len() as int, limit);
    &&& page.items@.len() == n
    &&& forall|i: int| 0 <= i < n ==> #[trigger] page.items@[i] == sorted[i].entry
    &&& text::opt_text(page.next_cursor) == query::cursor_behind(
        timeline_scope(workflow_id),
        sorted.len() as int,
        limit,
        entry_position(sorted[n - 1]),
    )
}

/// Whether some entries are others in the order of their times and keys.
pub open spec fn in_order(entries: Seq<TimelineEnvelope>, sorted: Seq<TimelineEnvelope>) -> bool {
    order::is_ranked(sorted) && sorted.to_multiset() == entries.to_multiset()
}

/// Whether the cursor of the next page, where there is one, has a length that
/// cursors may have.
pub open spec fn cursor_fits(next_cursor: Option<String>) -> bool {
    next_cursor matches Some(next) ==> 1 <= text::utf8_len(next@) <= cursor::MAX_CURSOR_BYTES
}

/// Whether a page shows the first entries of the merged rows.
pub open spec fn is_timeline_page(
    workflow_id: int,
    rows: TimelineRows,
    limit: u32,
    page: AdminPage<TimelineEntry>,
) -> bool {
    cursor_fits(page.next_cursor) && exists|
        entries: Seq<TimelineEnvelope>,
        sorted: Seq<TimelineEnvelope>,
    |
        #![trigger in_order(entries, sorted)]
        gathers(rows, entries) && in_order(entries, sorted) && shows_first(
            workflow_id,
            sorted,
            limit,
            page,
        )
}

proof fn lemma_padded_length(n: int)
    requires
        i64::MIN <= n <= i64::MAX,
    ensures
        numerals::padded_signed(n, 20).len() == 20,
        forall|i: int|
            0 <= i < 20 ==> numerals::is_digit(#[trigger] numerals::padded_signed(n, 20)[i])
                || numerals::padded_signed(n, 20)[i] == '-',
{
    reveal_with_fuel(numerals::ten_to, 21);
    assert(numerals::ten_to(20) == 100_000_000_000_000_000_000);
    assert(numerals::ten_to(19) == 10_000_000_000_000_000_000);
    if n < 0 {
        numerals::lemma_padded((-n) as nat, 19);
        let digits = numerals::padded_decimal((-n) as nat, 19);
        assert forall|i: int| 0 <= i < 20 implies numerals::is_digit(
            #[trigger] numerals::padded_signed(n, 20)[i],
        ) || numerals::padded_signed(n, 20)[i] == '-' by {
            if i > 0 {
                assert(numerals::padded_signed(n, 20)[i] == digits[i - 1]);
            }
        }
    } else {
        numerals::lemma_padded(n as nat, 20);
    }
}

/// The characters of keys.
spec fn key_char(c: char) -> bool {
    numerals::is_digit(c) || c == '-' || c == ':'
}

proof fn lemma_key_length(rank: int, numbers: Seq<int>)
    requires
        0 <= rank <= 4,
        1 <= numbers.len() <= 3,
        forall|i: int| 0 <= i < numbers.len() ==> i64::MIN <= #[trigger] numbers[i] <= i64::MAX,
    ensures
        1 <= entry_key(rank, numbers).len() <= 64,
        forall|i: int|
            0 <= i < entry_key(rank, numbers).len() ==> key_char(
                #[trigger] entry_key(rank, numbers)[i],
            ),
        cursor::tie_breaker_fits(entry_key(rank, numbers)),
        json::is_plain(entry_key(rank, numbers)),
{
    reveal_strlit(":");
    reveal_with_fuel(padded_numbers, 4);
    lemma_padded_length(numbers[0]);
    if numbers.len() > 1 {
        lemma_padded_length(numbers[1]);
    }
    if numbers.len() > 2 {
        lemma_padded_length(numbers[2]);
    }
    let key = entry_key(rank, numbers);
    let digits = numerals::decimal(rank);
    assert(digits =~= seq![numerals::digit_char(rank)]);
    if numbers.len() == 2 {
        assert(numbers.drop_last() =~= seq![numbers[0]]);
    } else if numbers.len() == 3 {
        assert(numbers.drop_last() =~= seq![numbers[0], numbers[1]]);
        assert(numbers.drop_last().drop_last() =~= seq![numbers[0]]);
    }
    assert(vstd::utf8::is_ascii_chars(key)) by {
        assert forall|i: int| 0 <= i < key.len() implies '\0' <= #[trigger] key[i] <= '\u{7f}' by {
            assert(key_char(key[i]));
        }
    }
    vstd::utf8::is_ascii_chars_encode_utf8(key);
}

proof fn lemma_gathered_keys_fit(rows: TimelineRows, entries: Seq<TimelineEnvelope>, i: int)
    requires
        gathers(rows, entries),
        0 <= i < entries.len(),
    ensures
        cursor::tie_breaker_fits(entries[i].tie_breaker@),
        json::is_plain(entries[i].tie_breaker@),
        entries[i].tie_breaker@.len() <= 64,
{
    let a = rows.events@.len() as int;
    let b = a + rows.activities@.len();
    let c = b + rows.attempts@.len();
    let d = c + rows.progress@.len();
    if i < a {
        lemma_key_length(0, seq![rows.events@[i].id as int]);
    } else if i < b {
        lemma_key_length(1, seq![rows.activities@[i - a].id as int]);
    } else if i < c {
        let row = rows.attempts@[i - b];
        lemma_key_length(2, seq![row.activity_id as int, row.attempt_number as int]);
    } else if i < d {
        let row = rows.progress@[i - c];
        lemma_key_length(
            3,
            seq![row.activity_id as int, row.attempt_number as int, row.sequence as int],
        );
    } else {
        lemma_key_length(4, seq![rows.approvals@[i - d].id as int]);
    }
}

proof fn lemma_scope_is_plain(workflow_id: int)
    requires
        i64::MIN <= workflow_id <= i64::MAX,
    ensures
        json::is_plain(timeline_scope(workflow_id)),
        timeline_scope(workflow_id).len() <= cursor::MAX_SCOPE_BYTES,
{
    reveal_strlit("workflow_timeline:");
    numerals::lemma_decimal_length(workflow_id);
    numerals::lemma_decimal_chars(workflow_id);
    let scope = timeline_scope(workflow_id);
    let prefix = "workflow_timeline:"@;
    assert forall|i: int| 0 <= i < scope.len() implies ' ' <= #[trigger] scope[i] <= '~'
        && scope[i] != '"' && scope[i] != '\\' by {
        if i >= prefix.len() {
            assert(scope[i] == numerals::decimal(workflow_id)[i - prefix.len()]);
        }
    }
}

/// The page of a workflow's timeline that shows the first `limit` of the merged
/// rows, in the order of their times and keys.
pub fn timeline_page(workflow_id: WorkflowId, rows: TimelineRows, limit: u32) -> (result: Result<
    AdminPage<TimelineEntry>,
    DurableError,
>)
    requires
        limit > 0,
    ensures
        match result {
            Ok(page) => timeline_problem(rows) is None && is_timeline_page(
                workflow_id@,
                rows,
                limit,
                page,
            ),
            Err(error) => timeline_problem(rows) == Some(error@),
        },
{
    let gathered = match gather(rows) {
        Ok(entries) => entries,
        Err(error) => return Err(error),
    };
    let ghost entries = gathered@;
    let mut kept = sort_ranked(gathered);
    let ghost sorted = kept@;
    assert(in_order(entries, sorted));
    let has_more = kept.len() > limit as usize;
    kept.truncate(limit as usize);
    let ghost n = query::at_most(sorted.len() as int, limit);
    assert(kept@ =~= sorted.take(n));
    let mut next_cursor: Option<String> = None;
    if has_more && kept.len() > 0 {
        let number: i64 = workflow_id.get();
        let last = &kept[kept.len() - 1];
        proof {
            reveal_strlit("workflow_timeline:");
            query::lemma_detail_scope("workflow_timeline:"@, number);
            assert(sorted.contains(sorted[n - 1]));
            order::lemma_same_elements(sorted, entries, sorted[n - 1]);
            let k = choose|k: int| 0 <= k < entries.len() && entries[k] == sorted[n - 1];
            lemma_gathered_keys_fit(rows, entries, k);
            lemma_scope_is_plain(number as int);
            cursor::lemma_plain_cursor_fits(
                timeline_scope(number as int),
                entry_position(sorted[n - 1]),
            );
        }
        let scope = scope_of(workflow_id);
        next_cursor = match encode_cursor(
            scope.as_str(),
            &CursorPosition {
                timestamp: last.occurred_at,
                tie_breaker: last.tie_breaker.clone(),
            },
        ) {
            Ok(cursor) => Some(cursor),
            Err(error) => return Err(error),
        };
    }
    let ghost first = kept@;
    let mut pending = reversed(kept);
    let mut items: Vec<TimelineEntry> = Vec::new();
    while pending.len() > 0
        invariant
            items@.len() + pending@.len() == first.len(),
            forall|j: int|
                0 <= j < pending@.len() ==> #[trigger] pending@[j] == first[first.len() - 1 - j],
            forall|j: int| 0 <= j < items@.len() ==> #[trigger] items@[j] == first[j].entry,
        decreases pending@.len(),
    {
        let ghost at = items@.len() as int;
        match pending.pop() {
            Some(envelope) => {
                assert(envelope == first[at]);
                items.push(envelope.entry);
            },
            None => {},
        }
    }
    let page = AdminPage { items, next_cursor };
    proof {
        assert forall|i: int| 0 <= i < n implies #[trigger] page.items@[i] == sorted[i].entry by {
            assert(first[i] == sorted[i]);
        }
        assert(shows_first(workflow_id@, sorted, limit, page));
    }
    Ok(page)
}

/// Which rows of one source come behind the place where a page begins.
#[derive(Debug, Clone, Copy, PartialEq, Eq, Structural)]
pub enum TimelineFilter {
    /// Those that are later than a time.
    Later(i64),
    /// Those that are not earlier than a time.
    NotEarlier(i64),
    /// Those that are later, or as late and have larger numbers.
    Beyond(TimelineCursor),
}

/// Which rows of the source with the given rank come behind a place.
pub open spec fn filter_for(rank: u8, place: TimelineCursor) -> TimelineFilter {
    if rank < place.rank {
        TimelineFilter::Later(place.timestamp)
    } else if rank > place.rank {
        TimelineFilter::NotEarlier(place.timestamp)
    } else {
        TimelineFilter::Beyond(place)
    }
}

/// Which rows of the source with the given rank come behind a place.
pub fn timeline_filter(rank: u8, place: &TimelineCursor) -> (filter: TimelineFilter)
    ensures
        filter == filter_for(rank, *place),
{
    if rank < place.rank {
        TimelineFilter::Later(place.timestamp)
    } else if rank > place.rank {
        TimelineFilter::NotEarlier(place.timestamp)
    } else {
        TimelineFilter::Beyond(*place)
    }
}

/// Whether a filter lets a row pass.
pub open spec fn passes(filter: TimelineFilter, row: TimelineCursor) -> bool {
    match filter {
        TimelineFilter::Later(timestamp) => row.timestamp > timestamp,
        TimelineFilter::NotEarlier(timestamp) => row.timestamp >= timestamp,
        TimelineFilter::Beyond(place) => row.timestamp > place.timestamp || (row.timestamp
            == place.timestamp && (row.id > place.id || (row.id == place.id && (row.attempt_number
            > place.attempt_number || (row.attempt_number == place.attempt_number && row.sequence
            > place.sequence))))),
    }
}

/// The numbers in the key of an entry at a place.
pub open spec fn place_numbers(place: TimelineCursor) -> Seq<int> {
    if place.rank == 2 {
        seq![place.id as int, place.attempt_number as int]
    } else if place.rank == 3 {
        seq![place.id as int, place.attempt_number as int, place.sequence as int]
    } else {
        seq![place.id as int]
    }
}

/// Whether a place is one that entries have: one of the five kinds, with as many
/// positive numbers as its kind has.
pub open spec fn is_place(place: TimelineCursor) -> bool {
    &&& place.rank <= 4
    &&& place.id > 0
    &&& if place.rank == 2 || place.rank == 3 {
        place.attempt_number > 0
    } else {
        place.attempt_number == 0
    }
    &&& if place.rank == 3 {
        place.sequence > 0
    } else {
        place.sequence == 0
    }
}

/// The key of an entry at a place.
pub open spec fn place_key(place: TimelineCursor) -> Seq<char> {
    entry_key(place.rank as int, place_numbers(place))
}

/// Whether the entry at one place comes before that at another in a timeline.
pub open spec fn place_before(a: TimelineCursor, b: TimelineCursor) -> bool {
    a.timestamp < b.timestamp || (a.timestamp == b.timestamp && text::text_before(
        place_key(a),
        place_key(b),
    ))
}

proof fn lemma_before_concat(x: Seq<char>, y: Seq<char>, s: Seq<char>, t: Seq<char>)
    requires
        x.len() == y.len(),
    ensures
        numerals::chars_before(x + s, y + t) == (if x == y {
            numerals::chars_before(s, t)
        } else {
            numerals::chars_before(x, y)
        }),
    decreases x.len(),
{
    if x.len() == 0 {
        assert(x =~= y);
        assert(x + s =~= s);
        assert(y + t =~= t);
    } else {
        let a = x.drop_first();
        let b = y.drop_first();
        lemma_before_concat(a, b, s, t);
        assert((x + s).drop_first() =~= a + s);
        assert((y + t).drop_first() =~= b + t);
        assert((x + s)[0] == x[0] && (y + t)[0] == y[0]);
        if x[0] == y[0] {
            assert(x =~= seq![x[0]] + a);
            assert(y =~= seq![y[0]] + b);
            if a == b {
                assert(x == y);
            } else {
                assert(x != y) by {
                    if x == y {
                        assert(a =~= b);
                    }
                }
            }
        }
    }
}

proof fn lemma_ascii_order(a: Seq<char>, b: Seq<char>)
    requires
        vstd::utf8::is_ascii_chars(a),
        vstd::utf8::is_ascii_chars(b),
    ensures
        text::text_before(a, b) == numerals::chars_before(a, b),
    decreases a.len(),
{
    vstd::utf8::is_ascii_chars_encode_utf8(a);
    vstd::utf8::is_ascii_chars_encode_utf8(b);
    let x = vstd::utf8::encode_utf8(a);
    let y = vstd::utf8::encode_utf8(b);
    if a.len() > 0 && b.len() > 0 {
        let c = a.drop_first();
        let d = b.drop_first();
        assert forall|i: int| 0 <= i < c.len() implies '\0' <= #[trigger] c[i] <= '\u{7f}' by {
            assert(c[i] == a[i + 1]);
        }
        assert forall|i: int| 0 <= i < d.len() implies '\0' <= #[trigger] d[i] <= '\u{7f}' by {
            assert(d[i] == b[i + 1]);
        }
        vstd::utf8::is_ascii_chars_encode_utf8(c);
        vstd::utf8::is_ascii_chars_encode_utf8(d);
        assert(x.drop_first() =~= vstd::utf8::encode_utf8(c));
        assert(y.drop_first() =~= vstd::utf8::encode_utf8(d));
        lemma_ascii_order(c, d);
        lemma_ascii_char_order(a[0], b[0]);
    }
}

proof fn lemma_ascii_char_order(a: char, b: char)
    requires
        '\0' <= a <= '\u{7f}',
        '\0' <= b <= '\u{7f}',
    ensures
        (a as u8) < (b as u8) <==> a < b,
        a as u8 == b as u8 <==> a == b,
{
}

/// The order of two padded positive numbers, and of what follows them.
proof fn lemma_padded_order(a: int, b: int, s: Seq<char>, t: Seq<char>)
    requires
        0 < a <= i64::MAX,
        0 < b <= i64::MAX,
    ensures
        numerals::chars_before(
            numerals::padded_signed(a, 20) + s,
            numerals::padded_signed(b, 20) + t,
        ) == (if a == b {
            numerals::chars_before(s, t)
        } else {
            a < b
        }),
{
    numerals::lemma_fits_twenty(a);
    numerals::lemma_fits_twenty(b);
    numerals::lemma_padded(a as nat, 20);
    numerals::lemma_padded(b as nat, 20);
    let x = numerals::padded_signed(a, 20);
    let y = numerals::padded_signed(b, 20);
    numerals::lemma_digits_order(x, y);
    lemma_before_concat(x, y, s, t);
}

/// The key of a place: its kind, its first number, and the rest.
proof fn lemma_key_parts(place: TimelineCursor) -> (rest: Seq<char>)
    requires
        is_place(place),
    ensures
        place_key(place) == seq![numerals::digit_char(place.rank as int), ':']
            + (numerals::padded_signed(place.id as int, 20) + rest),
        place.rank != 2 && place.rank != 3 ==> rest == Seq::<char>::empty(),
        place.rank == 2 ==> rest == seq![':'] + (numerals::padded_signed(
            place.attempt_number as int,
            20,
        ) + Seq::<char>::empty()),
        place.rank == 3 ==> rest == seq![':'] + (numerals::padded_signed(
            place.attempt_number as int,
            20,
        ) + (seq![':'] + (numerals::padded_signed(place.sequence as int, 20)
            + Seq::<char>::empty()))),
{
    reveal_strlit(":");
    assert(":"@ =~= seq![':']);
    reveal_with_fuel(padded_numbers, 4);
    let numbers = place_numbers(place);
    assert(numerals::decimal(place.rank as int) =~= seq![
        numerals::digit_char(place.rank as int),
    ]);
    let head = seq![numerals::digit_char(place.rank as int), ':'];
    let id = numerals::padded_signed(place.id as int, 20);
    if place.rank == 2 {
        assert(numbers.drop_last() =~= seq![place.id as int]);
        let rest = seq![':'] + (numerals::padded_signed(place.attempt_number as int, 20)
            + Seq::<char>::empty());
        assert(place_key(place) =~= head + (id + rest));
        rest
    } else if place.rank == 3 {
        assert(numbers.drop_last() =~= seq![place.id as int, place.attempt_number as int]);
        assert(numbers.drop_last().drop_last() =~= seq![place.id as int]);
        let rest = seq![':'] + (numerals::padded_signed(place.attempt_number as int, 20) + (
        seq![':'] + (numerals::padded_signed(place.sequence as int, 20) + Seq::<char>::empty())));
        assert(place_key(place) =~= head + (id + rest));
        rest
    } else {
        let rest = Seq::<char>::empty();
        assert(place_key(place) =~= head + (id + rest));
        rest
    }
}

proof fn lemma_key_is_ascii(place: TimelineCursor)
    requires
        is_place(place),
    ensures
        vstd::utf8::is_ascii_chars(place_key(place)),
{
    lemma_key_length(place.rank as int, place_numbers(place));
    let key = place_key(place);
    assert forall|i: int| 0 <= i < key.len() implies '\0' <= #[trigger] key[i] <= '\u{7f}' by {
        assert(key_char(key[i]));
    }
}

/// Whether some numbers come before others, compared from left to right.
pub open spec fn numbers_before(a: Seq<int>, b: Seq<int>) -> bool
    decreases a.len(),
{
    if a.len() == 0 || b.len() == 0 {
        a.len() < b.len()
    } else if a[0] == b[0] {
        numbers_before(a.drop_first(), b.drop_first())
    } else {
        a[0] < b[0]
    }
}

/// Padded numbers begin with the first of them.
proof fn lemma_padded_numbers_first(numbers: Seq<int>)
    requires
        numbers.len() > 1,
    ensures
        padded_numbers(numbers) == numerals::padded_signed(numbers[0], 20) + (seq![':']
            + padded_numbers(numbers.drop_first())),
    decreases numbers.len(),
{
    reveal_strlit(":");
    assert(":"@ =~= seq![':']);
    let first = numerals::padded_signed(numbers[0], 20);
    let last = numerals::padded_signed(numbers.last(), 20);
    let rest = numbers.drop_first();
    if numbers.len() == 2 {
        assert(numbers.drop_last() =~= seq![numbers[0]]);
        assert(padded_numbers(seq![numbers[0]]) == first);
        assert(rest =~= seq![numbers[1]]);
        assert(padded_numbers(rest) == last);
        assert(padded_numbers(numbers) =~= first + (seq![':'] + padded_numbers(rest)));
    } else {
        lemma_padded_numbers_first(numbers.drop_last());
        assert(numbers.drop_last().drop_first() =~= rest.drop_last());
        assert(padded_numbers(rest) == padded_numbers(rest.drop_last()) + ":"@ + last);
        assert(padded_numbers(numbers) =~= first + (seq![':'] + padded_numbers(rest)));
    }
}

/// The order of padded positive numbers, and when they are the same.
proof fn lemma_padded_numbers_order(a: Seq<int>, b: Seq<int>)
    requires
        a.len() == b.len() >= 1,
        forall|i: int| 0 <= i < a.len() ==> 0 < #[trigger] a[i] <= i64::MAX,
        forall|i: int| 0 <= i < b.len() ==> 0 < #[trigger] b[i] <= i64::MAX,
    ensures
        numerals::chars_before(padded_numbers(a), padded_numbers(b)) == numbers_before(a, b),
    decreases a.len(),
{
    let none = Seq::<char>::empty();
    let x = numerals::padded_signed(a[0], 20);
    let y = numerals::padded_signed(b[0], 20);
    let c = a.drop_first();
    let d = b.drop_first();
    if a.len() == 1 {
        lemma_padded_order(a[0], b[0], none, none);
        assert(x + none =~= x);
        assert(y + none =~= y);
        assert(!numbers_before(c, d));
    } else {
        lemma_padded_numbers_first(a);
        lemma_padded_numbers_first(b);
        let colon = seq![':'];
        lemma_padded_order(a[0], b[0], colon + padded_numbers(c), colon + padded_numbers(d));
        lemma_before_concat(colon, colon, padded_numbers(c), padded_numbers(d));
        assert forall|i: int| 0 <= i < c.len() implies 0 < #[trigger] c[i] <= i64::MAX by {
            assert(c[i] == a[i + 1]);
        }
        assert forall|i: int| 0 <= i < d.len() implies 0 < #[trigger] d[i] <= i64::MAX by {
            assert(d[i] == b[i + 1]);
        }
        lemma_padded_numbers_order(c, d);
    }
}

proof fn lemma_padded_numbers_ascii(numbers: Seq<int>)
    requires
        forall|i: int| 0 <= i < numbers.len() ==> 0 < #[trigger] numbers[i] <= i64::MAX,
    ensures
        forall|i: int|
            0 <= i < padded_numbers(numbers).len() ==> key_char(
                #[trigger] padded_numbers(numbers)[i],
            ),
    decreases numbers.len(),
{
    reveal_strlit(":");
    if numbers.len() == 1 {
        lemma_padded_length(numbers[0]);
    } else if numbers.len() > 1 {
        let front = numbers.drop_last();
        assert forall|i: int| 0 <= i < front.len() implies 0 < #[trigger] front[i] <= i64::MAX by {
            assert(front[i] == numbers[i]);
        }
        lemma_padded_numbers_ascii(front);
        lemma_padded_length(numbers.last());
        let x = padded_numbers(front);
        let y = numerals::padded_signed(numbers.last(), 20);
        let all = padded_numbers(numbers);
        assert forall|i: int| 0 <= i < all.len() implies key_char(#[trigger] all[i]) by {
            if i < x.len() {
                assert(all[i] == x[i]);
            } else if i > x.len() {
                assert(all[i] == y[i - x.len() - 1]);
            }
        }
    }
}

proof fn lemma_entry_key_ascii(rank: int, numbers: Seq<int>)
    requires
        0 <= rank <= 9,
        forall|i: int| 0 <= i < numbers.len() ==> 0 < #[trigger] numbers[i] <= i64::MAX,
    ensures
        entry_key(rank, numbers) == seq![numerals::digit_char(rank), ':'] + padded_numbers(numbers),
        vstd::utf8::is_ascii_chars(entry_key(rank, numbers)),
{
    reveal_strlit(":");
    lemma_padded_numbers_ascii(numbers);
    assert(numerals::decimal(rank) =~= seq![numerals::digit_char(rank)]);
    let key = entry_key(rank, numbers);
    let tail = padded_numbers(numbers);
    assert(key =~= seq![numerals::digit_char(rank), ':'] + tail);
    assert forall|i: int| 0 <= i < key.len() implies '\0' <= #[trigger] key[i] <= '\u{7f}' by {
        if i >= 2 {
            assert(key[i] == tail[i - 2]);
            assert(key_char(tail[i - 2]));
        }
    }
}

/// Keys order entries as numbers do: by their rank and, within a rank, by their
/// numbers from left to right; and entries with different numbers have different
/// keys. This holds of the ranks of one digit and of equally many positive
/// numbers.
pub proof fn law_keys_order_as_numbers(r: int, a: Seq<int>, s: int, b: Seq<int>)
    requires
        0 <= r <= 9,
        0 <= s <= 9,
        a.len() == b.len() >= 1,
        forall|i: int| 0 <= i < a.len() ==> 0 < #[trigger] a[i] <= i64::MAX,
        forall|i: int| 0 <= i < b.len() ==> 0 < #[trigger] b[i] <= i64::MAX,
    ensures
        text::text_before(entry_key(r, a), entry_key(s, b)) <==> (r < s || (r == s
            && numbers_before(a, b))),
        entry_key(r, a) == entry_key(s, b) <==> (r == s && a == b),
{
    lemma_entry_key_ascii(r, a);
    lemma_entry_key_ascii(s, b);
    lemma_ascii_order(entry_key(r, a), entry_key(s, b));
    lemma_ascii_order(entry_key(s, b), entry_key(r, a));
    let x = seq![numerals::digit_char(r), ':'];
    let y = seq![numerals::digit_char(s), ':'];
    lemma_before_concat(x, y, padded_numbers(a), padded_numbers(b));
    lemma_before_concat(y, x, padded_numbers(b), padded_numbers(a));
    lemma_padded_numbers_order(a, b);
    lemma_padded_numbers_order(b, a);
    if r != s {
        assert(x[0] != y[0]);
    }
    text::lemma_text_order(entry_key(r, a), entry_key(s, b));
    lemma_numbers_order(a, b);
    if r == s && a != b {
        assert(entry_key(r, a) != entry_key(s, b)) by {
            text::lemma_text_order(entry_key(r, a), entry_key(r, a));
        }
    }
}

/// Of two different lists of as many numbers, one comes before the other.
proof fn lemma_numbers_order(a: Seq<int>, b: Seq<int>)
    requires
        a.len() == b.len(),
    ensures
        !(numbers_before(a, b) && numbers_before(b, a)),
        a == b || numbers_before(a, b) || numbers_before(b, a),
        a == b ==> !numbers_before(a, b),
    decreases a.len(),
{
    if a.len() == 0 {
        assert(a =~= b);
    } else {
        lemma_numbers_order(a.drop_first(), b.drop_first());
        assert(a =~= seq![a[0]] + a.drop_first());
        assert(b =~= seq![b[0]] + b.drop_first());
    }
}

/// The keys of entries order them by their kind and, within a kind, by their
/// numbers.
pub proof fn law_keys_follow_numbers(a: TimelineCursor, b: TimelineCursor)
    requires
        is_place(a),
        is_place(b),
    ensures
        text::text_before(place_key(a), place_key(b)) <==> (a.rank < b.rank || (a.rank == b.rank
            && passes(TimelineFilter::Beyond(TimelineCursor { timestamp: b.timestamp, ..a }), b))),
{
    lemma_key_is_ascii(a);
    lemma_key_is_ascii(b);
    lemma_ascii_order(place_key(a), place_key(b));
    let s = lemma_key_parts(a);
    let t = lemma_key_parts(b);
    let x = seq![numerals::digit_char(a.rank as int), ':'];
    let y = seq![numerals::digit_char(b.rank as int), ':'];
    let p = numerals::padded_signed(a.id as int, 20) + s;
    let q = numerals::padded_signed(b.id as int, 20) + t;
    lemma_before_concat(x, y, p, q);
    if a.rank != b.rank {
        assert(x[0] != y[0]);
    } else {
        lemma_padded_order(a.id as int, b.id as int, s, t);
        let colon = seq![':'];
        let none = Seq::<char>::empty();
        if a.rank == 2 {
            let u = numerals::padded_signed(a.attempt_number as int, 20) + none;
            let v = numerals::padded_signed(b.attempt_number as int, 20) + none;
            lemma_before_concat(colon, colon, u, v);
            lemma_padded_order(a.attempt_number as int, b.attempt_number as int, none, none);
        } else if a.rank == 3 {
            let m = numerals::padded_signed(a.sequence as int, 20) + none;
            let n = numerals::padded_signed(b.sequence as int, 20) + none;
            let u = numerals::padded_signed(a.attempt_number as int, 20) + (colon + m);
            let v = numerals::padded_signed(b.attempt_number as int, 20) + (colon + n);
            lemma_before_concat(colon, colon, u, v);
            lemma_padded_order(
                a.attempt_number as int,
                b.attempt_number as int,
                colon + m,
                colon + n,
            );
            lemma_before_concat(colon, colon, m, n);
            lemma_padded_order(a.sequence as int, b.sequence as int, none, none);
        }
    }
}

/// A page of a timeline goes on where the last one ended: the rows that the
/// filter of its place lets pass are exactly the entries that come behind the
/// place in the order of the timeline.
pub proof fn law_filter_selects_what_comes_behind(place: TimelineCursor, row: TimelineCursor)
    requires
        is_place(place),
        is_place(row),
    ensures
        passes(filter_for(row.rank, place), row) <==> place_before(place, row),
{
    law_keys_follow_numbers(place, row);
}

proof fn lemma_parts_extend(s: Seq<char>, d: Seq<char>)
    requires
        forall|i: int| 0 <= i < d.len() ==> #[trigger] d[i] != ':',
    ensures
        colon_parts(s).len() > 0,
        colon_parts(s + d) == colon_parts(s).update(
            colon_parts(s).len() - 1,
            colon_parts(s).last() + d,
        ),
    decreases d.len(),
{
    lemma_some_part(s);
    let parts = colon_parts(s);
    if d.len() == 0 {
        assert(s + d =~= s);
        assert(parts.last() + d =~= parts.last());
        assert(parts.update(parts.len() - 1, parts.last()) =~= parts);
    } else {
        let front = d.drop_last();
        assert forall|i: int| 0 <= i < front.len() implies #[trigger] front[i] != ':' by {
            assert(front[i] == d[i]);
        }
        lemma_parts_extend(s, front);
        assert((s + d).drop_last() =~= s + front);
        assert(d[d.len() - 1] != ':');
        assert((parts.last() + front).push(d.last()) =~= parts.last() + d);
        assert(colon_parts(s + d) =~= parts.update(parts.len() - 1, parts.last() + d));
    }
}

proof fn lemma_parts_next(s: Seq<char>, d: Seq<char>)
    requires
        forall|i: int| 0 <= i < d.len() ==> #[trigger] d[i] != ':',
    ensures
        colon_parts(s + seq![':'] + d) == colon_parts(s).push(d),
{
    let t = s + seq![':'];
    assert(t.drop_last() =~= s);
    assert(t.last() == ':');
    assert(colon_parts(t) == colon_parts(s).push(Seq::<char>::empty()));
    lemma_parts_extend(t, d);
    assert(Seq::<char>::empty() + d =~= d);
    assert(colon_parts(t + d) =~= colon_parts(s).push(d));
}

proof fn lemma_padded_reads_back(n: int)
    requires
        0 < n <= i64::MAX,
    ensures
        numerals::bounded_value(
            numerals::padded_signed(n, 20),
            i64::MIN as int,
            i64::MAX as int,
        ) == Some(n),
        forall|i: int|
            0 <= i < numerals::padded_signed(n, 20).len() ==> #[trigger] numerals::padded_signed(
                n,
                20,
            )[i] != ':',
{
    numerals::lemma_fits_twenty(n);
    numerals::lemma_padded(n as nat, 20);
    let s = numerals::padded_signed(n, 20);
    assert(numerals::is_digit(s[0]));
    assert forall|i: int| 0 <= i < s.len() implies #[trigger] s[i] != ':' by {
        assert(numerals::is_digit(s[i]));
    }
}

proof fn lemma_rank_part(rank: int)
    requires
        0 <= rank <= 4,
    ensures
        colon_parts(numerals::decimal(rank)) == seq![numerals::decimal(rank)],
        numerals::small_value(numerals::decimal(rank)) == Some(rank),
{
    let digits = numerals::decimal(rank);
    assert(digits =~= seq![numerals::digit_char(rank)]);
    assert(digits.drop_last() =~= Seq::<char>::empty());
    reveal_with_fuel(numerals::digits_value, 3);
    assert(numerals::is_digit(digits[0]));
    assert(numerals::all_digits(digits));
    let none = Seq::<char>::empty();
    assert(none + digits =~= digits);
    lemma_parts_extend(none, digits);
    assert(colon_parts(none) =~= seq![none]);
    assert(seq![none].update(0, digits) =~= seq![digits]);
}

proof fn lemma_numbers_next(parts: Seq<Seq<char>>, numbers: Seq<int>, next: int)
    requires
        numbers_in(parts) == Some(numbers),
        0 < next <= i64::MAX,
    ensures
        numbers_in(parts.push(numerals::padded_signed(next, 20))) == Some(numbers.push(next)),
{
    lemma_padded_reads_back(next);
    let more = parts.push(numerals::padded_signed(next, 20));
    assert(more.drop_last() =~= parts);
}

/// The parts of the key of an entry: its kind and its padded numbers.
proof fn lemma_key_splits(place: TimelineCursor)
    requires
        is_place(place),
    ensures
        colon_parts(place_key(place)).len() > 0,
        colon_parts(place_key(place))[0] == numerals::decimal(place.rank as int),
        numbers_in(colon_parts(place_key(place)).drop_first()) == Some(place_numbers(place)),
{
    reveal_strlit(":");
    assert(":"@ =~= seq![':']);
    reveal_with_fuel(padded_numbers, 4);
    let rank = numerals::decimal(place.rank as int);
    lemma_rank_part(place.rank as int);
    let numbers = place_numbers(place);
    let first = numerals::padded_signed(place.id as int, 20);
    lemma_padded_reads_back(place.id as int);
    lemma_parts_next(rank, first);
    let one = rank + seq![':'] + first;
    let nothing = Seq::<Seq<char>>::empty();
    lemma_numbers_next(nothing, Seq::<int>::empty(), place.id as int);
    let key = place_key(place);
    let parts_one = nothing.push(first);
    if place.rank == 2 || place.rank == 3 {
        let second = numerals::padded_signed(place.attempt_number as int, 20);
        lemma_padded_reads_back(place.attempt_number as int);
        lemma_parts_next(one, second);
        let two = one + seq![':'] + second;
        let numbers_one = Seq::<int>::empty().push(place.id as int);
        lemma_numbers_next(parts_one, numbers_one, place.attempt_number as int);
        let parts_two = parts_one.push(second);
        let numbers_two = numbers_one.push(place.attempt_number as int);
        if place.rank == 2 {
            assert(numbers.drop_last() =~= seq![place.id as int]);
            assert(key =~= two);
            assert(colon_parts(key).drop_first() =~= parts_two);
            assert(numbers =~= numbers_two);
        } else {
            let third = numerals::padded_signed(place.sequence as int, 20);
            lemma_padded_reads_back(place.sequence as int);
            lemma_parts_next(two, third);
            assert(numbers.drop_last() =~= seq![place.id as int, place.attempt_number as int]);
            assert(numbers.drop_last().drop_last() =~= seq![place.id as int]);
            assert(key =~= two + seq![':'] + third);
            lemma_numbers_next(parts_two, numbers_two, place.sequence as int);
            assert(colon_parts(key).drop_first() =~= parts_two.push(third));
            assert(numbers =~= numbers_two.push(place.sequence as int));
        }
    } else {
        assert(key =~= one);
        assert(colon_parts(key).drop_first() =~= parts_one);
        assert(numbers =~= Seq::<int>::empty().push(place.id as int));
    }
}

/// The cursor behind an entry reads as the place of that entry.
pub proof fn law_place_reads_back(place: TimelineCursor)
    requires
        is_place(place),
    ensures
        timeline_place(
            PositionModel { timestamp: place.timestamp, tie_breaker: place_key(place) },
        ) == Ok::<TimelineCursor, ErrorModel>(place),
{
    lemma_rank_part(place.rank as int);
    lemma_key_splits(place);
    assert(all_positive(place_numbers(place)));
}

/// The place of every entry can be written into a cursor of the timeline of any
/// workflow.
pub proof fn lemma_place_fits(workflow_id: int, place: TimelineCursor)
    requires
        i64::MIN <= workflow_id <= i64::MAX,
        is_place(place),
    ensures
        cursor::encode_error(timeline_scope(workflow_id), place_key(place)) is None,
{
    reveal_strlit("workflow_timeline:");
    query::lemma_detail_scope("workflow_timeline:"@, workflow_id as i64);
    lemma_key_length(place.rank as int, place_numbers(place));
}

/// The entries of a timeline show their rows: an event what it tells, all others their
/// summary. An attempt stands at its start, an approval at its request, all others at their
/// creation.
pub proof fn law_entries_show_their_rows(
    event: EventProjection,
    activity: ActivityProjection,
    attempt: AttemptProjection,
    progress: ProgressEventRow,
    approval: ApprovalProjection,
    envelope: TimelineEnvelope,
)
    ensures
        shows_event(event, envelope) ==> {
            &&& envelope.occurred_at == event.created_at
            &&& envelope.entry matches TimelineEntry::WorkflowEvent {
                event_type,
                actor_type,
                actor_id,
                reason,
                occurred_at,
            }
            &&& event_type == event.event_type
            &&& actor_type == event.actor_type
            &&& actor_id == event.actor_id
            &&& reason == event.reason
            &&& occurred_at == event.created_at
        },
        shows_activity(activity, envelope) ==> {
            &&& envelope.occurred_at == activity.created_at
            &&& envelope.entry matches TimelineEntry::Activity(summary)
            &&& summary.id@ == activity.id
        },
        shows_attempt(attempt, envelope) ==> {
            &&& envelope.occurred_at == attempt.started_at
            &&& envelope.entry matches TimelineEntry::ActivityAttempt(summary)
            &&& summary.activity_id@ == attempt.activity_id
            &&& summary.attempt_number == attempt.attempt_number
        },
        shows_progress(progress, envelope) ==> {
            &&& envelope.occurred_at == progress.created_at
            &&& envelope.entry matches TimelineEntry::Progress(summary)
            &&& summary.activity_id@ == progress.activity_id
            &&& summary.attempt_number == progress.attempt_number
            &&& summary.sequence == progress.sequence
        },
        shows_approval(approval, envelope) ==> {
            &&& envelope.occurred_at == approval.requested_at
            &&& envelope.entry matches TimelineEntry::Approval(summary)
            &&& summary.id@ == approval.id
            &&& summary.status@ == approval.status@
        },
{
}

/// A page of a timeline shows no more than its limit. It ends where all entries were shown,
/// and otherwise its cursor names the time and the key of the last one that it shows.
pub proof fn law_timeline_page_shows_its_limit(
    workflow_id: int,
    sorted: Seq<TimelineEnvelope>,
    limit: u32,
    page: AdminPage<TimelineEntry>,
)
    requires
        shows_first(workflow_id, sorted, limit, page),
        limit > 0,
    ensures
        page.items@.len() <= limit,
        page.next_cursor is None <==> page.items@.len() == sorted.len(),
        page.next_cursor matches Some(next) ==> ({
            let last = sorted[page.items@.len() - 1];
            &&& last.entry == page.items@.last()
            &&& next@ == cursor::encoded_cursor(
                timeline_scope(workflow_id),
                PositionModel { timestamp: last.occurred_at, tie_breaker: last.tie_breaker@ },
            )
        }),
{
}

/// The timelines of different workflows have cursors of their own.
pub proof fn law_timeline_scopes_are_distinct(workflow_id: int, other: int)
    ensures
        timeline_scope(workflow_id) == timeline_scope(other) ==> workflow_id == other,
{
    let prefix = "workflow_timeline:"@;
    assert(timeline_scope(workflow_id).skip(prefix.len() as int) =~= numerals::decimal(workflow_id));
    assert(timeline_scope(other).skip(prefix.len() as int) =~= numerals::decimal(other));
    numerals::lemma_decimal_round_trip(workflow_id);
    numerals::lemma_decimal_round_trip(other);
}

} // verus!
