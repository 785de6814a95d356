//! The hours, ages and listed approvals that operators read.
use vstd::prelude::*;
use crate::admin::cursor;
use crate::admin::cursor::{decode_cursor, encode_cursor, CursorPosition, PositionModel};
use crate::admin::query;
use crate::admin::query::{approval_summary, reversed, ApprovalProjection};
use crate::admin::types::{
    AdminPage, ApprovalListFilter, ApprovalSummary, HourlyThroughputBucket,
};
use crate::error;
use crate::error::{DurableError, ErrorModel};
use crate::numerals::decimal_i64;
use crate::text;
use crate::text::same_text;

verus! {

/// The milliseconds of an hour.
pub const HOUR_MILLIS: i64 = 3_600_000;

/// How many hours the throughput of a topic is shown for.
pub const HOURLY_BUCKET_COUNT: usize = 24;

/// The hours that the throughput of a topic is shown for.
#[derive(Debug, Clone, Copy, PartialEq, Eq, Structural)]
pub struct HourlyWindow {
    pub first_hour: i64,
    pub exclusive_end: i64,
}

/// The start of the hour of a time.
pub open spec fn hour_start(timestamp: int) -> int {
    (timestamp / HOUR_MILLIS as int) * HOUR_MILLIS
}

/// The start of the hour of a time.
pub fn hour_bucket_start(timestamp: i64) -> (start: i64)
    requires
        hour_start(timestamp as int) >= i64::MIN,
    ensures
        start == hour_start(timestamp as int),
{
    if timestamp >= 0 {
        (timestamp / HOUR_MILLIS) * HOUR_MILLIS
    } else {
        let before: i64 = -(timestamp + 1);
        let hours: i64 = before / HOUR_MILLIS;
        assert(timestamp as int / HOUR_MILLIS as int == -hours - 1) by {
            assert(before as int == (hours as int) * HOUR_MILLIS + before as int % HOUR_MILLIS as int);
        }
        (-1 - hours) * HOUR_MILLIS
    }
}

/// The hours that are shown at a time: the current one and those before it.
pub open spec fn window_at(now: int) -> (int, int) {
    (
        hour_start(now) - (HOURLY_BUCKET_COUNT - 1) * HOUR_MILLIS,
        if now < i64::MAX {
            now + 1
        } else {
            i64::MAX as int
        },
    )
}

/// The hours that are shown at a time.
pub fn hourly_window(now: i64) -> (window: HourlyWindow)
    requires
        window_at(now as int).0 >= i64::MIN,
    ensures
        window.first_hour == window_at(now as int).0,
        window.exclusive_end == window_at(now as int).1,
{
    let current_hour: i64 = hour_bucket_start(now);
    HourlyWindow {
        first_hour: current_hour - 23 * HOUR_MILLIS,
        exclusive_end: if now < i64::MAX {
            now + 1
        } else {
            i64::MAX
        },
    }
}

/// The start and the end of one of the shown hours; the end is not later than
/// the end of the window.
pub open spec fn bucket_bounds(window: HourlyWindow, index: int) -> (int, int) {
    let starts_at = window.first_hour + index * HOUR_MILLIS;
    let end = if starts_at + HOUR_MILLIS > i64::MAX {
        i64::MAX as int
    } else {
        starts_at + HOUR_MILLIS
    };
    (
        starts_at,
        if end < window.exclusive_end {
            end
        } else {
            window.exclusive_end as int
        },
    )
}

/// The start and the end of one of the shown hours.
pub fn hour_bucket_bounds(window: HourlyWindow, index: usize) -> (bounds: (i64, i64))
    requires
        index < HOURLY_BUCKET_COUNT,
        window.first_hour + index * HOUR_MILLIS <= i64::MAX,
    ensures
        bounds.0 == bucket_bounds(window, index as int).0,
        bounds.1 == bucket_bounds(window, index as int).1,
{
    let starts_at: i64 = window.first_hour + index as i64 * HOUR_MILLIS;
    let end: i64 = match starts_at.checked_add(HOUR_MILLIS) {
        Some(end) => end,
        None => i64::MAX,
    };
    (
        starts_at,
        if end < window.exclusive_end {
            end
        } else {
            window.exclusive_end
        },
    )
}

/// Whether the buckets are those of the window with nothing completed.
pub open spec fn empty_buckets(window: HourlyWindow, buckets: Seq<HourlyThroughputBucket>) -> bool {
    &&& buckets.len() == HOURLY_BUCKET_COUNT
    &&& forall|i: int|
        0 <= i < buckets.len() ==> (#[trigger] buckets[i]).starts_at == bucket_bounds(window, i).0
            && buckets[i].completed_count == 0
}

/// The buckets of the window with nothing completed.
pub fn empty_hourly_throughput(window: HourlyWindow) -> (buckets: Vec<HourlyThroughputBucket>)
    requires
        window.first_hour + (HOURLY_BUCKET_COUNT - 1) * HOUR_MILLIS <= i64::MAX,
    ensures
        empty_buckets(window, buckets@),
{
    let mut buckets: Vec<HourlyThroughputBucket> = Vec::new();
    let mut index: usize = 0;
    while index < HOURLY_BUCKET_COUNT
        invariant
            index <= HOURLY_BUCKET_COUNT,
            window.first_hour + (HOURLY_BUCKET_COUNT - 1) * HOUR_MILLIS <= i64::MAX,
            buckets@.len() == index,
            forall|i: int|
                0 <= i < index ==> (#[trigger] buckets@[i]).starts_at == bucket_bounds(window, i).0
                    && buckets@[i].completed_count == 0,
        decreases HOURLY_BUCKET_COUNT - index,
    {
        buckets.push(
            HourlyThroughputBucket {
                starts_at: window.first_hour + index as i64 * HOUR_MILLIS,
                completed_count: 0,
            },
        );
        index = index + 1;
    }
    buckets
}

/// The hours of a window follow each other without gaps, cover all its time, and
/// the last one ends at its end.
pub proof fn law_buckets_partition_the_window(now: i64, time: int)
    requires
        now >= 0,
        window_at(now as int).0 <= time < window_at(now as int).1,
    ensures
        ({
            let window = HourlyWindow {
                first_hour: window_at(now as int).0 as i64,
                exclusive_end: window_at(now as int).1 as i64,
            };
            let index = (time - window.first_hour) / HOUR_MILLIS as int;
            &&& 0 <= index < HOURLY_BUCKET_COUNT
            &&& bucket_bounds(window, index).0 <= time < bucket_bounds(window, index).1
            &&& bucket_bounds(window, HOURLY_BUCKET_COUNT - 1).1 == window.exclusive_end
            &&& forall|other: int|
                0 <= other < HOURLY_BUCKET_COUNT && #[trigger] bucket_bounds(window, other).0 <= time
                    < bucket_bounds(window, other).1 ==> other == index
        }),
{
}

/// Refuses a time before 1970.
pub fn validate_now(now: i64) -> (result: Result<(), DurableError>)
    ensures
        error::result_model(result) == (if now >= 0 {
            Ok(())
        } else {
            Err(ErrorModel::InvalidDefinition("captured time cannot be negative"@))
        }),
{
    if now < 0 {
        return Err(error::invalid_definition("captured time cannot be negative"));
    }
    Ok(())
}

/// Checks a filter of approvals.
pub fn validate_approval_filter(filter: &ApprovalListFilter) -> (result: Result<(), DurableError>)
    ensures
        error::result_model(result) == (if query::bad_version(filter.version) {
            Err(ErrorModel::InvalidDefinition("approval version filter must be positive"@))
        } else {
            match (filter.requested_after, filter.requested_before) {
                (Some(after), Some(before)) => if after >= before {
                    Err(
                        ErrorModel::InvalidDefinition(
                            "requestedAfter must precede requestedBefore"@,
                        ),
                    )
                } else {
                    Ok(())
                },
                _ => Ok(()),
            }
        }),
{
    match filter.version {
        Some(version) if version <= 0 => {
            return Err(error::invalid_definition("approval version filter must be positive"));
        },
        _ => {},
    }
    match (filter.requested_after, filter.requested_before) {
        (Some(after), Some(before)) if after >= before => Err(
            error::invalid_definition("requestedAfter must precede requestedBefore"),
        ),
        _ => Ok(()),
    }
}

/// Why a count is refused.
pub open spec fn count_error(count: i64) -> Option<ErrorModel> {
    if count < 0 {
        Some(ErrorModel::InvalidState("negative aggregate count"@))
    } else {
        None
    }
}

/// A count that the database gave; refuses a negative one.
pub fn nonnegative_count(count: i64) -> (result: Result<u64, DurableError>)
    ensures
        match result {
            Ok(value) => count_error(count) is None && value == count,
            Err(error) => count_error(count) == Some(error@),
        },
{
    if count < 0 {
        return Err(error::invalid_state("negative aggregate count"));
    }
    Ok(count as u64)
}

/// How long ago a time was; a time to come was just now.
pub open spec fn age_at(now: i64, timestamp: Option<i64>) -> Option<u64> {
    match timestamp {
        Some(timestamp) => if timestamp > now {
            Some(0)
        } else if now - timestamp > i64::MAX {
            Some(i64::MAX as u64)
        } else {
            Some((now - timestamp) as u64)
        },
        None => None,
    }
}

/// How long ago a time was; a time to come was just now.
pub fn age(now: i64, timestamp: Option<i64>) -> (age: Option<u64>)
    ensures
        age == age_at(now, timestamp),
{
    match timestamp {
        Some(timestamp) => {
            if timestamp > now {
                Some(0)
            } else {
                match now.checked_sub(timestamp) {
                    Some(difference) => Some(difference as u64),
                    None => Some(i64::MAX as u64),
                }
            }
        },
        None => None,
    }
}

/// The text inside a cursor of a collection that is ordered by texts.
pub open spec fn string_position(position: Result<PositionModel, ErrorModel>) -> Result<
    Seq<char>,
    ErrorModel,
> {
    match position {
        Err(error) => Err(error),
        Ok(position) => if position.timestamp != 0 || position.tie_breaker.len() == 0 {
            Err(ErrorModel::InvalidCursor("string cursor position is invalid"@))
        } else {
            Ok(position.tie_breaker)
        },
    }
}

/// The text inside a position of a collection that is ordered by texts.
pub fn string_cursor(position: CursorPosition) -> (result: Result<String, DurableError>)
    ensures
        match result {
            Ok(key) => string_position(Ok(position@)) == Ok::<Seq<char>, ErrorModel>(key@),
            Err(error) => string_position(Ok(position@)) == Err::<Seq<char>, ErrorModel>(error@),
        },
{
    if position.timestamp != 0 || position.tie_breaker.as_str().is_empty() {
        return Err(DurableError::InvalidCursor("string cursor position is invalid".to_owned()));
    }
    Ok(position.tie_breaker)
}

/// The text inside a cursor of a collection that is ordered by texts.
pub fn decode_string_cursor(scope: &str, cursor: &str) -> (result: Result<String, DurableError>)
    ensures
        match result {
            Ok(key) => string_position(cursor::decoded_cursor(scope@, cursor@)) == Ok::<
                Seq<char>,
                ErrorModel,
            >(key@),
            Err(error) => string_position(cursor::decoded_cursor(scope@, cursor@)) == Err::<
                Seq<char>,
                ErrorModel,
            >(error@),
        },
{
    match decode_cursor(scope, cursor) {
        Ok(position) => string_cursor(position),
        Err(error) => Err(error),
    }
}

/// The cursor behind a text.
pub fn encode_string_cursor(scope: &str, value: &str) -> (result: Result<String, DurableError>)
    ensures
        match result {
            Ok(cursor) => cursor::encode_error(scope@, value@) is None && cursor@
                == cursor::encoded_cursor(
                scope@,
                PositionModel { timestamp: 0, tie_breaker: value@ },
            ),
            Err(error) => cursor::encode_error(scope@, value@) == Some(error@),
        },
{
    encode_cursor(scope, &CursorPosition { timestamp: 0, tie_breaker: value.to_owned() })
}

/// The status under which an approval is listed: a pending one that has expired
/// is shown as expired.
pub open spec fn listed_status(status: Seq<char>, expires_at: Option<i64>, now: i64) -> Seq<char> {
    if status == "pending"@ && (expires_at matches Some(expiry) && expiry <= now) {
        "expired"@
    } else {
        status
    }
}

/// The summary of an approval in a list.
pub fn listed_approval(row: ApprovalProjection, now: i64) -> (result: Result<
    ApprovalSummary,
    DurableError,
>)
    ensures
        match result {
            Ok(summary) => query::approval_problem(row) is None && query::summarizes_approval(
                row,
                listed_status(row.status@, row.expires_at, now),
                summary,
            ),
            Err(error) => query::approval_problem(row) == Some(error@),
        },
{
    let expired = match row.expires_at {
        Some(expiry) => expiry <= now,
        None => false,
    };
    let shown_as_expired = expired && same_text(row.status.as_str(), "pending");
    match approval_summary(row) {
        Ok(summary) => {
            let mut summary = summary;
            if shown_as_expired {
                summary.status = "expired".to_owned();
            }
            Ok(summary)
        },
        Err(error) => Err(error),
    }
}

/// Whether a filter of approvals by status lets an approval pass: what is listed
/// under a status passes the filter for it.
pub open spec fn status_passes(
    wanted: Seq<char>,
    status: Seq<char>,
    expires_at: Option<i64>,
    now: i64,
) -> bool {
    if wanted == "expired"@ {
        status == "expired"@ || (status == "pending"@ && (expires_at matches Some(expiry) && expiry
            <= now))
    } else if wanted == "pending"@ {
        status == "pending"@ && (expires_at matches Some(expiry) ==> expiry > now)
    } else {
        status == wanted
    }
}

/// Whether a filter of approvals by status lets an approval pass.
pub fn passes_status(wanted: &str, status: &str, expires_at: Option<i64>, now: i64) -> (passes: bool)
    ensures
        passes == status_passes(wanted@, status@, expires_at, now),
{
    let expired = match expires_at {
        Some(expiry) => expiry <= now,
        None => false,
    };
    if same_text(wanted, "expired") {
        same_text(status, "expired") || (same_text(status, "pending") && expired)
    } else if same_text(wanted, "pending") {
        same_text(status, "pending") && !expired
    } else {
        same_text(status, wanted)
    }
}

/// The filter by status and the listed status agree.
pub proof fn law_status_filter_matches_the_listed_status(
    wanted: Seq<char>,
    status: Seq<char>,
    expires_at: Option<i64>,
    now: i64,
)
    ensures
        status_passes(wanted, status, expires_at, now) <==> listed_status(status, expires_at, now)
            == wanted,
{
    reveal_strlit("pending");
    reveal_strlit("expired");
    assert("pending"@[0] != "expired"@[0]);
}

/// Whether a page lists the first of the given approvals as they stand at a time.
pub open spec fn lists_approvals(
    rows: Seq<ApprovalProjection>,
    limit: u32,
    now: i64,
    page: AdminPage<ApprovalSummary>,
) -> bool {
    let n = query::at_most(rows.len() as int, limit);
    &&& page.items@.len() == n
    &&& forall|i: int|
        0 <= i < n ==> query::summarizes_approval(
            rows[i],
            listed_status(rows[i].status@, rows[i].expires_at, now),
            #[trigger] page.items@[i],
        )
    &&& text::opt_text(page.next_cursor) == query::cursor_behind(
        "approvals"@,
        rows.len() as int,
        limit,
        query::row_position(rows[n - 1].requested_at, rows[n - 1].id),
    )
}

/// The page that lists the given approvals, one of them more than the page may
/// hold where there are more.
pub fn page_approvals(rows: Vec<ApprovalProjection>, limit: u32, now: i64) -> (result: Result<
    AdminPage<ApprovalSummary>,
    DurableError,
>)
    requires
        limit > 0,
    ensures
        ({
            let n = query::at_most(rows@.len() as int, limit);
            let problems = Seq::new(n as nat, |i: int| query::approval_problem(rows@[i]));
            match result {
                Ok(page) => query::first_error(problems) is None && lists_approvals(
                    rows@,
                    limit,
                    now,
                    page,
                ),
                Err(error) => query::first_error(problems) == Some(error@),
            }
        }),
{
    let ghost all = rows@;
    let has_more = rows.len() > limit as usize;
    let mut kept = rows;
    kept.truncate(limit as usize);
    let count: usize = kept.len();
    let ghost n = query::at_most(all.len() as int, limit);
    assert(kept@ =~= all.take(n));
    let mut next_cursor: Option<String> = None;
    if has_more && count > 0 {
        let last = &kept[count - 1];
        proof {
            query::lemma_decimal_fits(last.id);
            reveal_strlit("approvals");
            vstd::utf8::is_ascii_chars_encode_utf8("approvals"@);
        }
        next_cursor = match encode_cursor(
            "approvals",
            &CursorPosition { timestamp: last.requested_at, tie_breaker: decimal_i64(last.id) },
        ) {
            Ok(cursor) => Some(cursor),
            Err(error) => return Err(error),
        };
    }
    let ghost problems = Seq::new(count as nat, |i: int| query::approval_problem(all[i]));
    let mut pending = reversed(kept);
    let mut items: Vec<ApprovalSummary> = Vec::new();
    while pending.len() > 0
        invariant
            items@.len() + pending@.len() == count,
            count == query::at_most(all.len() as int, limit),
            all == rows@,
            problems == Seq::new(count as nat, |i: int| query::approval_problem(all[i])),
            forall|j: int| 0 <= j < pending@.len() ==> #[trigger] pending@[j] == all[count - 1 - j],
            forall|j: int|
                0 <= j < items@.len() ==> query::summarizes_approval(
                    all[j],
                    listed_status(all[j].status@, all[j].expires_at, now),
                    #[trigger] items@[j],
                ),
            forall|j: int| 0 <= j < items@.len() ==> (#[trigger] problems[j]) is None,
        decreases pending@.len(),
    {
        let ghost at = items@.len() as int;
        match pending.pop() {
            Some(row) => {
                assert(row == all[at]);
                match listed_approval(row, now) {
                    Ok(summary) => {
                        items.push(summary);
                    },
                    Err(error) => {
                        proof {
                            assert(problems[at] == Some(error@));
                            query::lemma_first_error_at(problems, at);
                        }
                        return Err(error);
                    },
                }
            },
            None => {},
        }
    }
    proof {
        query::lemma_no_first_error(problems);
    }
    Ok(AdminPage { items, next_cursor })
}

/// The hour of a time begins on the hour, not behind the time, and less than an hour before
/// it; the shown hours end with the current one and begin twenty-three hours before it.
pub proof fn law_hours_begin_on_the_hour(now: i64)
    ensures
        hour_start(now as int) % 3_600_000 == 0,
        hour_start(now as int) <= now < hour_start(now as int) + 3_600_000,
        window_at(now as int).0 == hour_start(now as int) - 23 * 3_600_000,
        now < i64::MAX ==> window_at(now as int).1 == now + 1,
{
}

/// A shown hour begins where the one before it ends, and is an hour long unless the window
/// ends before it does.
pub proof fn law_shown_hours_follow_one_another(window: HourlyWindow, index: int)
    requires
        0 <= index < 24,
        window.first_hour + (index + 1) * 3_600_000 <= i64::MAX,
    ensures
        bucket_bounds(window, 0).0 == window.first_hour,
        bucket_bounds(window, index + 1).0 == bucket_bounds(window, index).0 + 3_600_000,
        bucket_bounds(window, index).1 <= window.exclusive_end,
        bucket_bounds(window, index).1 == bucket_bounds(window, index).0 + 3_600_000
            || bucket_bounds(window, index).1 == window.exclusive_end,
        bucket_bounds(window, index + 1).0 <= window.exclusive_end ==> bucket_bounds(
            window,
            index,
        ).1 == bucket_bounds(window, index + 1).0,
{
}

/// An age is the time that went by since; a time to come has no age yet, and the age of no
/// time is not known.
pub proof fn law_age_is_the_time_gone_by(now: i64, timestamp: i64)
    ensures
        age_at(now, None) is None,
        timestamp >= now ==> age_at(now, Some(timestamp)) == Some(0u64),
        timestamp <= now && now - timestamp <= i64::MAX ==> (age_at(now, Some(timestamp)) matches
            Some(age) && timestamp + age == now),
        now - timestamp > i64::MAX ==> age_at(now, Some(timestamp)) == Some(i64::MAX as u64),
{
}

/// A count is refused exactly where it is negative.
pub proof fn law_negative_counts_are_refused(count: i64)
    ensures
        count_error(count) is Some <==> count < 0,
{
}

/// The cursor of a text reads as that text; a position with a time or without a text is
/// refused.
pub proof fn law_text_position_reads_back(position: PositionModel)
    ensures
        match string_position(Ok(position)) {
            Ok(key) => key == position.tie_breaker && key.len() > 0 && position.timestamp == 0,
            Err(_) => position.tie_breaker.len() == 0 || position.timestamp != 0,
        },
{
}

/// An approval is listed as expired from the moment of its expiry on while it is pending,
/// and otherwise under its own status.
pub proof fn law_pending_approval_expires(status: Seq<char>, expires_at: Option<i64>, now: i64)
    ensures
        status != "pending"@ ==> listed_status(status, expires_at, now) == status,
        status == "pending"@ && expires_at is None ==> listed_status(status, expires_at, now)
            == "pending"@,
        expires_at matches Some(expiry) && status == "pending"@ && now < expiry ==> listed_status(
            status,
            expires_at,
            now,
        ) == "pending"@,
        expires_at matches Some(expiry) && status == "pending"@ && now >= expiry ==> listed_status(
            status,
            expires_at,
            now,
        ) == "expired"@,
{
}

/// A page of approvals shows the first ones that were read, in their order and no more than
/// its limit. It ends where all were shown, and otherwise its cursor names the time of the
/// request and the number of the last approval that it shows.
pub proof fn law_page_of_approvals_continues(
    rows: Seq<ApprovalProjection>,
    limit: u32,
    now: i64,
    page: AdminPage<ApprovalSummary>,
    i: int,
)
    requires
        lists_approvals(rows, limit, now, page),
        limit > 0,
        0 <= i < page.items@.len(),
    ensures
        page.items@.len() <= limit,
        page.items@[i].id@ == rows[i].id,
        page.items@[i].workflow_id@ == rows[i].workflow_id,
        page.items@[i].requested_at == rows[i].requested_at,
        page.next_cursor is None <==> page.items@.len() == rows.len(),
        page.next_cursor matches Some(cursor) ==> cursor@ == cursor::encoded_cursor(
            "approvals"@,
            (PositionModel {
                timestamp: page.items@.last().requested_at,
                tie_breaker: crate::numerals::decimal(page.items@.last().id@),
            }),
        ),
{
    let last = page.items@.len() - 1;
    assert(query::summarizes_approval(
        rows[i],
        listed_status(rows[i].status@, rows[i].expires_at, now),
        page.items@[i],
    ));
    assert(query::summarizes_approval(
        rows[last],
        listed_status(rows[last].status@, rows[last].expires_at, now),
        page.items@[last],
    ));
}

/// The shown hours of a topic of which nothing is known are the twenty-four of the window,
/// one hour apart, each with nothing completed.
pub proof fn law_empty_hours_count_nothing(
    window: HourlyWindow,
    buckets: Seq<HourlyThroughputBucket>,
    i: int,
)
    requires
        empty_buckets(window, buckets),
        0 <= i < 24,
    ensures
        buckets.len() == 24,
        buckets[i].starts_at == window.first_hour + i * 3_600_000,
        buckets[i].completed_count == 0,
{
}

} // verus!
