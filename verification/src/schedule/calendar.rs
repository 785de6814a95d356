//! Cron calendars: when the occurrences of a schedule are due.
use std::str::FromStr;
use vstd::prelude::*;
use chrono::{Offset, TimeZone};
use crate::error;
use crate::error::{DurableError, ErrorModel};
use crate::text::join3;

verus! {

/// How a wall-clock time relates to the instants of its time zone.
#[derive(Debug, Clone, Copy, PartialEq, Eq, Structural)]
pub enum LocalTimeDisposition {
    Exact,
    Gap,
    AmbiguousEarlier,
}

/// The first millisecond of the calendar, in the year -262143.
pub const MIN_CALENDAR_MILLIS: i64 = -8_334_601_228_800_000;

/// The last millisecond of the calendar, in the year 262142.
pub const MAX_CALENDAR_MILLIS: i64 = 8_210_266_876_799_999;

/// The start of the year 2101, before which every cron occurrence lies.
pub const END_OF_OCCURRENCES_MILLIS: i64 = 4_133_980_800_000;

/// How many seconds behind a wall-clock time the end of its gap is looked for.
pub const MAX_GAP_SCAN_SECONDS: i64 = 86_400;

/// Whether a number of milliseconds lies in the calendar.
pub open spec fn in_calendar(millis: int) -> bool {
    MIN_CALENDAR_MILLIS <= millis <= MAX_CALENDAR_MILLIS
}

/// The nanoseconds behind its second at which a leap second begins.
pub const LEAP_NANOS: u32 = 1_000_000_000;

/// The nanoseconds of a millisecond.
pub const MILLI_NANOS: u32 = 1_000_000;

/// Whether a wall-clock time at so many milliseconds is the last second of a
/// minute, behind which a leap second can follow.
pub open spec fn ends_minute(millis: int) -> bool {
    millis % 60_000 == 59_000
}

/// A wall-clock time: the milliseconds from 1970-01-01T00:00:00 on a clock
/// whose time zone is left open, or the leap second behind the last second of a
/// minute.
#[derive(Debug, Clone, Copy, PartialEq, Eq, PartialOrd, Ord, Structural)]
pub struct LocalTime {
    millis: i64,
    leap: bool,
}

impl View for LocalTime {
    type V = int;

    closed spec fn view(&self) -> int {
        self.millis as int
    }
}

impl LocalTime {
    #[verifier::type_invariant]
    spec fn in_range(self) -> bool {
        in_calendar(self.millis as int) && (self.leap ==> ends_minute(self.millis as int))
    }

    /// Whether the time is the leap second behind its second.
    pub closed spec fn is_leap(&self) -> bool {
        self.leap
    }

    /// The wall-clock time at so many milliseconds, where the calendar has it.
    pub fn from_millis(millis: i64) -> (local: Option<LocalTime>)
        ensures
            match local {
                Some(local) => in_calendar(millis as int) && local@ == millis && !local.is_leap(),
                None => !in_calendar(millis as int),
            },
    {
        if MIN_CALENDAR_MILLIS <= millis && millis <= MAX_CALENDAR_MILLIS {
            Some(LocalTime { millis, leap: false })
        } else {
            None
        }
    }

    /// The wall-clock time at so many seconds, or the leap second behind them
    /// where `nanos` is a whole second, where the calendar has it.
    pub fn from_second(seconds: i64, nanos: u32) -> (local: Option<LocalTime>)
        ensures
            match local {
                Some(local) => is_second(seconds as int, nanos as int) && local@ == 1000 * seconds
                    && local.is_leap() == (nanos == LEAP_NANOS),
                None => !is_second(seconds as int, nanos as int),
            },
    {
        if seconds < MIN_CALENDAR_MILLIS / 1000 || seconds > (MAX_CALENDAR_MILLIS - 999) / 1000 {
            return None;
        }
        let millis: i64 = 1000 * seconds;
        if nanos == 0 {
            return Some(LocalTime { millis, leap: false });
        }
        let within: u64 = (millis - MIN_CALENDAR_MILLIS) as u64 % 60_000;
        if nanos == LEAP_NANOS && within == 59_000 {
            Some(LocalTime { millis, leap: true })
        } else {
            None
        }
    }

    /// The milliseconds from 1970-01-01T00:00:00; those of the second before it
    /// for a leap second.
    pub fn millis(self) -> (millis: i64)
        ensures
            millis == self@,
            in_calendar(millis as int),
    {
        proof {
            use_type_invariant(&self);
        }
        self.millis
    }

    /// Whether the time is the leap second behind its second.
    pub fn leap(self) -> (leap: bool)
        ensures
            leap == self.is_leap(),
            leap ==> ends_minute(self@),
    {
        proof {
            use_type_invariant(&self);
        }
        self.leap
    }

    /// The text of the time, to the second.
    fn text(self) -> (text: String)
        ensures
            text@ == shown_text(self@, self.is_leap()),
    {
        proof {
            use_type_invariant(&self);
        }
        let since: u64 = (self.millis - MIN_CALENDAR_MILLIS) as u64;
        let seconds: i64 = (since / 1000) as i64 + MIN_CALENDAR_MILLIS / 1000;
        let nanos: u32 = if self.leap {
            LEAP_NANOS
        } else {
            (since % 1000) as u32 * MILLI_NANOS
        };
        assert(seconds == self@ / 1000 && since % 1000 == self@ % 1000);
        format_local(seconds, nanos)
    }
}

/// The text of the refusal of a cron expression, where it is refused.
pub uninterp spec fn cron_refusal(cron: Seq<char>) -> Option<Seq<char>>;

/// The view of an optional text.
pub open spec fn refusal_view(refusal: Option<String>) -> Option<Seq<char>> {
    match refusal {
        Some(text) => Some(text@),
        None => None,
    }
}

/// Calls `cron::Schedule::from_str`: whether an expression is refused, and with
/// which text, is a function of the expression alone.
#[verifier::external_body]
pub(crate) fn check_cron(cron: &str) -> (refusal: Option<String>)
    ensures
        refusal_view(refusal) == cron_refusal(cron@),
{
    cron::Schedule::from_str(cron).err().map(|error| error.to_string())
}

/// The first time that a cron expression names after a wall-clock time.
pub uninterp spec fn next_tick(cron: Seq<char>, after: int) -> Option<int>;

/// The view of an optional number of milliseconds.
pub open spec fn tick_view(tick: Option<i64>) -> Option<int> {
    match tick {
        Some(millis) => Some(millis as int),
        None => None,
    }
}

/// Whether a tick is later than the time asked for, falls on a whole second, and
/// lies in the years 1970 to 2100.
pub open spec fn is_later_tick(after: int, tick: Option<i64>) -> bool {
    match tick {
        Some(millis) => after < millis && 0 <= millis < END_OF_OCCURRENCES_MILLIS && millis % 1000
            == 0,
        None => true,
    }
}

/// Whether a tick is the first one after every time from `after` up to it: the
/// expression names none in between.
pub open spec fn is_first_tick(cron: Seq<char>, after: int, tick: Option<int>) -> bool {
    match tick {
        Some(tick) => forall|between: int|
            after <= between < tick ==> #[trigger] next_tick(cron, between) == Some(tick),
        None => true,
    }
}

/// Calls `cron::Schedule::after` on an accepted expression and takes the first
/// item: it is a function of the expression and the time alone, it is later than
/// the time, and it is a whole second of one of the years 1970 to 2100, the only
/// ones that the expressions can name. It is the first such second, so the call
/// gives it for every time between the given one and it too. The call adds a
/// second to the time, so the last second of the calendar is left out.
#[verifier::external_body]
pub(crate) fn tick_after(cron: &str, after: i64) -> (tick: Option<i64>)
    requires
        cron_refusal(cron@) is None,
        in_calendar(after as int),
        after <= MAX_CALENDAR_MILLIS - 1000,
    ensures
        tick_view(tick) == next_tick(cron@, after as int),
        is_later_tick(after as int, tick),
        is_first_tick(cron@, after as int, tick_view(tick)),
{
    let schedule = cron::Schedule::from_str(cron).expect("the expression was accepted");
    let after = chrono::DateTime::from_timestamp_millis(after).expect("the time is in range");
    schedule.after(&after).next().map(|tick| tick.timestamp_millis())
}

/// Whether a text is the IANA name of a time zone.
pub uninterp spec fn known_timezone(timezone: Seq<char>) -> bool;

/// Calls `chrono_tz::Tz::from_str`: whether a name is known is a function of the
/// name alone.
#[verifier::external_body]
pub(crate) fn is_known_timezone(timezone: &str) -> (known: bool)
    ensures
        known == known_timezone(timezone@),
{
    chrono_tz::Tz::from_str(timezone).is_ok()
}

/// The seconds by which the clocks of a time zone are ahead of UTC at an instant.
pub uninterp spec fn utc_offset(timezone: Seq<char>, instant: int) -> int;

/// Calls `chrono::TimeZone::offset_from_utc_datetime` of a `chrono_tz::Tz`: the
/// offset is a function of the zone's name and the instant, and less than a day.
#[verifier::external_body]
pub(crate) fn offset_at(timezone: &str, instant: i64) -> (seconds: i64)
    requires
        known_timezone(timezone@),
        in_calendar(instant as int),
    ensures
        seconds == utc_offset(timezone@, instant as int),
        -86_400 < seconds < 86_400,
{
    let zone = chrono_tz::Tz::from_str(timezone).expect("the time zone is known");
    let instant = chrono::DateTime::from_timestamp_millis(instant).expect("the time is in range");
    i64::from(zone.offset_from_utc_datetime(&instant.naive_utc()).fix().local_minus_utc())
}

/// The instants at which clocks show a wall-clock time, in milliseconds.
#[derive(Debug, Clone, Copy, PartialEq, Eq, Structural)]
pub enum Instants {
    Never,
    Once(i64),
    Twice(i64, i64),
}

/// The mathematical content of [`Instants`].
pub enum InstantsModel {
    Never,
    Once(int),
    Twice(int, int),
}

impl View for Instants {
    type V = InstantsModel;

    open spec fn view(&self) -> InstantsModel {
        match *self {
            Instants::Never => InstantsModel::Never,
            Instants::Once(instant) => InstantsModel::Once(instant as int),
            Instants::Twice(first, second) => InstantsModel::Twice(first as int, second as int),
        }
    }
}

/// The instants at which the clocks of a time zone show a wall-clock time.
pub uninterp spec fn instants_of(timezone: Seq<char>, local: int) -> InstantsModel;

/// The wall-clock time of a time zone at an instant.
pub open spec fn local_at(timezone: Seq<char>, instant: int) -> int {
    instant + 1000 * utc_offset(timezone, instant)
}

/// Whether the clocks show the wall-clock time at each of the instants.
pub open spec fn show_time(timezone: Seq<char>, local: int, instants: Instants) -> bool {
    match instants {
        Instants::Never => true,
        Instants::Once(instant) => in_calendar(instant as int) && local_at(timezone, instant as int)
            == local,
        Instants::Twice(first, second) => in_calendar(first as int) && in_calendar(second as int)
            && local_at(timezone, first as int) == local && local_at(timezone, second as int)
            == local,
    }
}

/// Whether the clocks do not show the second behind a skipped one twice.
pub open spec fn no_fold_behind(timezone: Seq<char>, local: int, instants: Instants) -> bool {
    instants is Never && in_calendar(local + 1000) ==> !(instants_of(timezone, local + 1000)
        is Twice)
}

/// Calls `chrono::TimeZone::from_local_datetime` of a `chrono_tz::Tz`: the
/// instants are a function of the zone's name and the wall-clock time, they lie
/// in the calendar, and at each of them the zone's clocks show that time. In no
/// zone of the tables does a fold begin where a gap ends.
#[verifier::external_body]
pub(crate) fn find_instants(timezone: &str, local: i64) -> (instants: Instants)
    requires
        known_timezone(timezone@),
        in_calendar(local as int),
    ensures
        instants@ == instants_of(timezone@, local as int),
        show_time(timezone@, local as int, instants),
        no_fold_behind(timezone@, local as int, instants),
{
    let zone = chrono_tz::Tz::from_str(timezone).expect("the time zone is known");
    let local = chrono::DateTime::from_timestamp_millis(local).expect("the time is in range");
    match zone.from_local_datetime(&local.naive_utc()) {
        chrono::LocalResult::None => Instants::Never,
        chrono::LocalResult::Single(at) => Instants::Once(at.timestamp_millis()),
        chrono::LocalResult::Ambiguous(first, second) => Instants::Twice(
            first.timestamp_millis(),
            second.timestamp_millis(),
        ),
    }
}

/// Whether so many seconds and nanoseconds are a whole second of the calendar or
/// the leap second behind one.
pub open spec fn is_second(seconds: int, nanos: int) -> bool {
    MIN_CALENDAR_MILLIS <= 1000 * seconds && 1000 * seconds + 999 <= MAX_CALENDAR_MILLIS && (nanos
        == 0 || (nanos == LEAP_NANOS && ends_minute(1000 * seconds)))
}

/// The text, to the second, of the wall-clock time at so many seconds and
/// nanoseconds.
pub uninterp spec fn local_text(seconds: int, nanos: int) -> Seq<char>;

/// The text of a wall-clock time, to the second.
pub open spec fn shown_text(local: int, leap: bool) -> Seq<char> {
    local_text(
        local / 1000,
        if leap {
            LEAP_NANOS as int
        } else {
            local % 1000 * MILLI_NANOS
        },
    )
}

/// Calls `chrono::NaiveDateTime::format` with `%Y-%m-%dT%H:%M:%S`: the text is a
/// function of the time alone. A second or more of nanoseconds is the leap second
/// behind the last second of a minute.
#[verifier::external_body]
pub(crate) fn format_local(seconds: i64, nanos: u32) -> (text: String)
    requires
        in_calendar(1000 * seconds),
        nanos < LEAP_NANOS || (nanos == LEAP_NANOS && ends_minute(1000 * seconds)),
    ensures
        text@ == local_text(seconds as int, nanos as int),
{
    let local = chrono::DateTime::from_timestamp(seconds, nanos).expect("the time is in range");
    local.naive_utc().format("%Y-%m-%dT%H:%M:%S").to_string()
}

/// The seconds and nanoseconds of the wall-clock time that a text stands for, or
/// the text of the refusal.
pub uninterp spec fn parsed_local(text: Seq<char>) -> Result<(int, int), Seq<char>>;

/// The model of a wall-clock time that was read.
pub open spec fn local_model(local: Result<(i64, u32), String>) -> Result<(int, int), Seq<char>> {
    match local {
        Ok((seconds, nanos)) => Ok((seconds as int, nanos as int)),
        Err(refusal) => Err(refusal@),
    }
}

/// Whether a text that was written for a second of the years 0 to 9999, or for
/// the leap second behind one, reads as that second.
pub open spec fn reads_written_time(text: Seq<char>, local: Result<(int, int), Seq<char>>) -> bool {
    forall|seconds: int, nanos: int|
        -62_167_219_200 <= seconds < 253_402_300_800 && is_second(seconds, nanos) && text
            == #[trigger] local_text(seconds, nanos) ==> local == Ok::<(int, int), Seq<char>>(
            (seconds, nanos),
        )
}

/// Calls `chrono::NaiveDateTime::parse_from_str` with `%Y-%m-%dT%H:%M:%S`: the
/// time, or the refusal, is a function of the text alone. The time is a whole
/// second of the calendar, or the leap second behind one where the text ends in
/// `:60`. A text that was written with the same pattern for such a second of the
/// years 0 to 9999 reads as that second.
#[verifier::external_body]
pub(crate) fn parse_local(text: &str) -> (local: Result<(i64, u32), String>)
    ensures
        local_model(local) == parsed_local(text@),
        local matches Ok((seconds, nanos)) ==> is_second(seconds as int, nanos as int),
        reads_written_time(text@, local_model(local)),
{
    match chrono::NaiveDateTime::parse_from_str(text, "%Y-%m-%dT%H:%M:%S") {
        Ok(local) => Ok((local.and_utc().timestamp(), local.and_utc().timestamp_subsec_nanos())),
        Err(error) => Err(error.to_string()),
    }
}

/// One occurrence of a schedule.
#[derive(Debug, PartialEq, Eq)]
pub struct ScheduleOccurrence {
    pub local_datetime: LocalTime,
    pub local_occurrence: String,
    pub scheduled_for: i64,
    pub due_at: i64,
    pub disposition: LocalTimeDisposition,
}

impl Clone for ScheduleOccurrence {
    fn clone(&self) -> (copy: Self)
        ensures
            copy == *self,
    {
        ScheduleOccurrence {
            local_datetime: self.local_datetime,
            local_occurrence: self.local_occurrence.clone(),
            scheduled_for: self.scheduled_for,
            due_at: self.due_at,
            disposition: self.disposition,
        }
    }
}

/// The mathematical content of a [`ScheduleOccurrence`].
#[verifier::ext_equal]
pub struct OccurrenceModel {
    pub local: int,
    pub leap: bool,
    pub text: Seq<char>,
    pub scheduled_for: int,
    pub due_at: int,
    pub disposition: LocalTimeDisposition,
}

impl View for ScheduleOccurrence {
    type V = OccurrenceModel;

    open spec fn view(&self) -> OccurrenceModel {
        OccurrenceModel {
            local: self.local_datetime@,
            leap: self.local_datetime.is_leap(),
            text: self.local_occurrence@,
            scheduled_for: self.scheduled_for as int,
            due_at: self.due_at as int,
            disposition: self.disposition,
        }
    }
}

/// The occurrence at a wall-clock time that runs at an instant.
pub open spec fn occurrence_model(
    local: int,
    instant: int,
    disposition: LocalTimeDisposition,
) -> OccurrenceModel {
    OccurrenceModel {
        local,
        leap: false,
        text: shown_text(local, false),
        scheduled_for: instant,
        due_at: instant,
        disposition,
    }
}

/// The instant of the first whole second, from `offset` seconds behind a
/// wall-clock time on, that the clocks show exactly once.
pub open spec fn gap_end(timezone: Seq<char>, local: int, offset: int) -> Option<int>
    decreases MAX_GAP_SCAN_SECONDS + 1 - offset,
{
    if offset > MAX_GAP_SCAN_SECONDS || local + 1000 * offset > MAX_CALENDAR_MILLIS {
        None
    } else {
        match instants_of(timezone, local + 1000 * offset) {
            InstantsModel::Once(instant) => Some(instant),
            _ => gap_end(timezone, local, offset + 1),
        }
    }
}

/// The refusal of a gap that does not end within the scanned seconds.
pub open spec fn endless_gap(timezone: Seq<char>) -> ErrorModel {
    ErrorModel::InvalidDefinition(
        "timezone "@ + timezone + " has a local-time gap longer than the supported bound"@,
    )
}

/// The occurrence at a wall-clock time: the earlier instant where the clocks show
/// it twice, the end of the gap where they never do.
pub open spec fn resolved(timezone: Seq<char>, local: int) -> Result<OccurrenceModel, ErrorModel> {
    match instants_of(timezone, local) {
        InstantsModel::Once(instant) => Ok(
            occurrence_model(local, instant, LocalTimeDisposition::Exact),
        ),
        InstantsModel::Twice(first, second) => Ok(
            occurrence_model(
                local,
                if first <= second {
                    first
                } else {
                    second
                },
                LocalTimeDisposition::AmbiguousEarlier,
            ),
        ),
        InstantsModel::Never => match gap_end(timezone, local, 1) {
            Some(instant) => Ok(occurrence_model(local, instant, LocalTimeDisposition::Gap)),
            None => Err(endless_gap(timezone)),
        },
    }
}

/// The occurrence at a wall-clock time or at the leap second behind it, which runs
/// a second behind it where the clocks show it.
pub open spec fn resolved_at(timezone: Seq<char>, local: int, leap: bool) -> Result<
    OccurrenceModel,
    ErrorModel,
> {
    match resolved(timezone, local) {
        Ok(occurrence) => Ok(
            if leap {
                let instant = if occurrence.disposition == LocalTimeDisposition::Gap {
                    occurrence.due_at
                } else {
                    occurrence.due_at + 1000
                };
                OccurrenceModel {
                    leap,
                    text: shown_text(local, leap),
                    scheduled_for: instant,
                    due_at: instant,
                    ..occurrence
                }
            } else {
                occurrence
            },
        ),
        Err(error) => Err(error),
    }
}

/// Whether the next tick after a wall-clock time, where there is one, is later, on
/// a whole second, in the years that expressions can name, and the first one
/// after every time in between.
#[verifier::opaque]
pub open spec fn tick_is_next(cron: Seq<char>, after: int) -> bool {
    match next_tick(cron, after) {
        Some(tick) => {
            &&& after < tick
            &&& 0 <= tick < END_OF_OCCURRENCES_MILLIS
            &&& tick % 1000 == 0
            &&& is_first_tick(cron, after, Some(tick))
        },
        None => true,
    }
}

/// Whether the gap in which a wall-clock time lies, where it lies in one, ends at
/// the instant that is found for it: the clocks show that end, whole seconds
/// behind the time, and none of the seconds before it.
#[verifier::opaque]
pub open spec fn gap_is_plain(timezone: Seq<char>, local: int) -> bool {
    match (instants_of(timezone, local), gap_end(timezone, local, 1)) {
        (InstantsModel::Never, Some(instant)) => {
            let end = local_at(timezone, instant);
            &&& in_calendar(instant)
            &&& in_calendar(end)
            &&& local < end
            &&& (end - local) % 1000 == 0
            &&& instants_of(timezone, end) == InstantsModel::Once(instant)
            &&& forall|between: int|
                local < between < end && (between - local) % 1000 == 0 ==> (
                #[trigger] instants_of(timezone, between)) is Never
        },
        _ => true,
    }
}

/// Whether an occurrence is the one at its wall-clock time, on a whole second of
/// the calendar.
#[verifier::opaque]
pub open spec fn is_occurrence(timezone: Seq<char>, occurrence: OccurrenceModel) -> bool {
    &&& in_calendar(occurrence.local)
    &&& occurrence.local % 1000 == 0
    &&& resolved_at(timezone, occurrence.local, occurrence.leap) == Ok::<
        OccurrenceModel,
        ErrorModel,
    >(occurrence)
    &&& gap_is_plain(timezone, occurrence.local)
}

/// The first occurrence of a schedule after a wall-clock time.
pub open spec fn next_occurrence(cron: Seq<char>, timezone: Seq<char>, after: int) -> Result<
    OccurrenceModel,
    ErrorModel,
> {
    match next_tick(cron, after) {
        Some(local) => resolved(timezone, local),
        None => Err(ErrorModel::InvalidDefinition("schedule has no next occurrence"@)),
    }
}

/// The model of an occurrence or of the error in its place.
pub open spec fn occurrence_result(result: Result<ScheduleOccurrence, DurableError>) -> Result<
    OccurrenceModel,
    ErrorModel,
> {
    match result {
        Ok(occurrence) => Ok(occurrence@),
        Err(error) => Err(error@),
    }
}

/// Whether an occurrence in a gap runs a second or more behind its wall-clock time.
pub open spec fn gap_ends_later(timezone: Seq<char>, occurrence: OccurrenceModel) -> bool {
    occurrence.disposition == LocalTimeDisposition::Gap ==> in_calendar(occurrence.due_at)
        && local_at(timezone, occurrence.due_at) >= occurrence.local + 1000 && in_calendar(
        local_at(timezone, occurrence.due_at),
    )
}

/// A cron expression in a time zone.
#[derive(Debug)]
pub struct ScheduleCalendar {
    cron: String,
    timezone: String,
}

/// The mathematical content of a [`ScheduleCalendar`].
#[verifier::ext_equal]
pub struct CalendarModel {
    pub cron: Seq<char>,
    pub timezone: Seq<char>,
}

impl View for ScheduleCalendar {
    type V = CalendarModel;

    closed spec fn view(&self) -> CalendarModel {
        CalendarModel { cron: self.cron@, timezone: self.timezone@ }
    }
}

impl Clone for ScheduleCalendar {
    fn clone(&self) -> (copy: Self)
        ensures
            copy == *self,
    {
        proof {
            use_type_invariant(self);
        }
        ScheduleCalendar { cron: self.cron.clone(), timezone: self.timezone.clone() }
    }
}

/// Why a cron expression and a time zone make no calendar.
pub open spec fn calendar_error(cron: Seq<char>, timezone: Seq<char>) -> Option<ErrorModel> {
    match cron_refusal(cron) {
        Some(refusal) => Some(
            ErrorModel::InvalidDefinition("invalid schedule cron `"@ + cron + "`: "@ + refusal),
        ),
        None => if known_timezone(timezone) {
            None
        } else {
            Some(
                ErrorModel::InvalidDefinition(
                    "invalid schedule IANA timezone `"@ + timezone + "`"@,
                ),
            )
        },
    }
}

/// The refusal of an instant whose wall-clock time the calendar does not have.
pub open spec fn instant_error() -> ErrorModel {
    ErrorModel::InvalidDefinition("schedule deployment timestamp is invalid"@)
}

/// The wall-clock time from which the occurrences after an instant are counted,
/// where the calendar has it with a second to spare.
pub open spec fn starting_local(timezone: Seq<char>, instant: int) -> Option<int> {
    if in_calendar(instant) && in_calendar(local_at(timezone, instant)) && local_at(
        timezone,
        instant,
    ) <= MAX_CALENDAR_MILLIS - 1000 {
        Some(local_at(timezone, instant))
    } else {
        None
    }
}

/// The wall-clock time from which the occurrences behind a gap are counted: one
/// second before its end.
pub open spec fn gap_restart(timezone: Seq<char>, due_at: int) -> Result<int, ErrorModel> {
    if !in_calendar(due_at) || !in_calendar(local_at(timezone, due_at)) {
        Err(ErrorModel::InvalidState("invalid gap timestamp"@))
    } else if !in_calendar(local_at(timezone, due_at) - 1000) {
        Err(ErrorModel::InvalidState("gap timestamp underflow"@))
    } else {
        Ok(local_at(timezone, due_at) - 1000)
    }
}

/// The first occurrence from the given one on that is due by `through` and lies
/// in no gap; behind a gap the search goes on at the gap's end.
pub open spec fn runnable_from(
    cron: Seq<char>,
    timezone: Seq<char>,
    occurrence: OccurrenceModel,
    through: int,
) -> Result<Option<OccurrenceModel>, ErrorModel>
    decreases END_OF_OCCURRENCES_MILLIS - occurrence.local,
{
    if occurrence.due_at > through {
        Ok(None)
    } else if occurrence.disposition != LocalTimeDisposition::Gap {
        Ok(Some(occurrence))
    } else {
        match gap_restart(timezone, occurrence.due_at) {
            Err(error) => Err(error),
            Ok(before) => match next_occurrence(cron, timezone, before) {
                Err(error) => Err(error),
                Ok(next) => if occurrence.local < next.local < END_OF_OCCURRENCES_MILLIS {
                    runnable_from(cron, timezone, next, through)
                } else {
                    Ok(None)
                },
            },
        }
    }
}

/// The first occurrence after a wall-clock time that is due by `through` and lies
/// in no gap.
pub open spec fn next_runnable(
    cron: Seq<char>,
    timezone: Seq<char>,
    after: int,
    through: int,
) -> Result<Option<OccurrenceModel>, ErrorModel> {
    match next_occurrence(cron, timezone, after) {
        Ok(occurrence) => runnable_from(cron, timezone, occurrence, through),
        Err(error) => Err(error),
    }
}

/// The model of an optional occurrence or of the error in its place.
pub open spec fn runnable_result(
    result: Result<Option<ScheduleOccurrence>, DurableError>,
) -> Result<Option<OccurrenceModel>, ErrorModel> {
    match result {
        Ok(Some(occurrence)) => Ok(Some(occurrence@)),
        Ok(None) => Ok(None),
        Err(error) => Err(error@),
    }
}

fn occurrence(
    local_datetime: LocalTime,
    local_occurrence: String,
    scheduled_for: i64,
    disposition: LocalTimeDisposition,
) -> (occurrence: ScheduleOccurrence)
    ensures
        occurrence@ == (OccurrenceModel {
            local: local_datetime@,
            leap: local_datetime.is_leap(),
            text: local_occurrence@,
            scheduled_for: scheduled_for as int,
            due_at: scheduled_for as int,
            disposition,
        }),
{
    ScheduleOccurrence {
        local_datetime,
        local_occurrence,
        scheduled_for,
        due_at: scheduled_for,
        disposition,
    }
}

impl ScheduleCalendar {
    #[verifier::type_invariant]
    spec fn accepted(self) -> bool {
        cron_refusal(self.cron@) is None && known_timezone(self.timezone@)
    }

    /// The calendar of a cron expression, refused with `refusal`, in a time zone,
    /// which is or is not known.
    pub fn check(cron: &str, refusal: Option<String>, timezone: &str, known: bool) -> (result:
        Result<(), DurableError>)
        ensures
            match (result, refusal) {
                (Err(error), Some(refusal)) => error@ == ErrorModel::InvalidDefinition(
                    "invalid schedule cron `"@ + cron@ + "`: "@ + refusal@,
                ),
                (Err(error), None) => !known && error@ == ErrorModel::InvalidDefinition(
                    "invalid schedule IANA timezone `"@ + timezone@ + "`"@,
                ),
                (Ok(()), Some(_)) => false,
                (Ok(()), None) => known,
            },
    {
        match refusal {
            Some(refusal) => {
                let mut message = join3("invalid schedule cron `", cron, "`: ");
                message.append(refusal.as_str());
                return Err(DurableError::InvalidDefinition(message));
            },
            None => {},
        }
        if !known {
            return Err(
                DurableError::InvalidDefinition(
                    join3("invalid schedule IANA timezone `", timezone, "`"),
                ),
            );
        }
        Ok(())
    }

    /// The calendar of a cron expression in a time zone.
    pub fn new(cron: &str, timezone: &str) -> (result: Result<Self, DurableError>)
        ensures
            match result {
                Ok(calendar) => calendar_error(cron@, timezone@) is None && calendar@ == (
                CalendarModel { cron: cron@, timezone: timezone@ }),
                Err(error) => calendar_error(cron@, timezone@) == Some(error@),
            },
    {
        match ScheduleCalendar::check(
            cron,
            check_cron(cron),
            timezone,
            is_known_timezone(timezone),
        ) {
            Ok(()) => {},
            Err(error) => return Err(error),
        }
        Ok(ScheduleCalendar { cron: cron.to_owned(), timezone: timezone.to_owned() })
    }

    /// The first occurrence after an instant, in milliseconds. Refuses an instant
    /// whose wall-clock time the calendar does not have.
    pub fn next_after(&self, after: i64) -> (result: Result<ScheduleOccurrence, DurableError>)
        ensures
            occurrence_result(result) == (match starting_local(self@.timezone, after as int) {
                Some(local) => next_occurrence(self@.cron, self@.timezone, local),
                None => Err(instant_error()),
            }),
            result matches Ok(next) ==> 0 <= next@.local < END_OF_OCCURRENCES_MILLIS
                && is_occurrence(self@.timezone, next@) && gap_ends_later(self@.timezone, next@),
    {
        proof {
            use_type_invariant(self);
        }
        if after < MIN_CALENDAR_MILLIS || after > MAX_CALENDAR_MILLIS {
            return Err(error::invalid_definition("schedule deployment timestamp is invalid"));
        }
        let offset: i64 = offset_at(self.timezone.as_str(), after);
        let local: i64 = after + 1000 * offset;
        match LocalTime::from_millis(local) {
            Some(local) if local.millis() <= MAX_CALENDAR_MILLIS - 1000 => self.next_after_local(
                local,
            ),
            _ => Err(error::invalid_definition("schedule deployment timestamp is invalid")),
        }
    }

    /// The first occurrence after a wall-clock time.
    pub fn next_after_local(&self, after: LocalTime) -> (result: Result<
        ScheduleOccurrence,
        DurableError,
    >)
        requires
            after@ <= MAX_CALENDAR_MILLIS - 1000,
        ensures
            occurrence_result(result) == next_occurrence(self@.cron, self@.timezone, after@),
            result matches Ok(next) ==> after@ < next@.local && 0 <= next@.local
                < END_OF_OCCURRENCES_MILLIS && is_occurrence(self@.timezone, next@)
                && gap_ends_later(self@.timezone, next@),
            tick_is_next(self@.cron, after@),
    {
        proof {
            use_type_invariant(self);
            reveal(tick_is_next);
            reveal(is_occurrence);
        }
        match tick_after(self.cron.as_str(), after.millis()) {
            Some(candidate) => match LocalTime::from_millis(candidate) {
                Some(local) => self.occurrence_at_local(local),
                None => Err(error::invalid_definition("schedule has no next occurrence")),
            },
            None => Err(error::invalid_definition("schedule has no next occurrence")),
        }
    }

    /// The first occurrence after a wall-clock time that is due by `through` and
    /// lies in no gap.
    pub fn next_runnable_through(&self, after: LocalTime, through: i64) -> (result: Result<
        Option<ScheduleOccurrence>,
        DurableError,
    >)
        requires
            after@ <= MAX_CALENDAR_MILLIS - 1000,
        ensures
            runnable_result(result) == next_runnable(
                self@.cron,
                self@.timezone,
                after@,
                through as int,
            ),
            result matches Ok(Some(next)) ==> after@ < next@.local && 0 <= next@.local
                < END_OF_OCCURRENCES_MILLIS,
    {
        let mut next = match self.next_after_local(after) {
            Ok(next) => next,
            Err(error) => return Err(error),
        };
        while next.due_at <= through
            invariant
                after@ < next@.local,
                0 <= next@.local < END_OF_OCCURRENCES_MILLIS,
                gap_ends_later(self@.timezone, next@),
                runnable_from(self@.cron, self@.timezone, next@, through as int) == next_runnable(
                    self@.cron,
                    self@.timezone,
                    after@,
                    through as int,
                ),
            decreases END_OF_OCCURRENCES_MILLIS - next@.local,
        {
            proof {
                use_type_invariant(self);
            }
            if next.disposition != LocalTimeDisposition::Gap {
                return Ok(Some(next));
            }
            let offset: i64 = offset_at(self.timezone.as_str(), next.due_at);
            let before_gap_end: i64 = next.due_at + 1000 * offset - 1000;
            let before_gap_end = match LocalTime::from_millis(before_gap_end) {
                Some(local) => local,
                None => return Err(error::invalid_state("gap timestamp underflow")),
            };
            let following = match self.next_after_local(before_gap_end) {
                Ok(following) => following,
                Err(error) => return Err(error),
            };
            next = following;
        }
        Ok(None)
    }

    /// The occurrence at a wall-clock time.
    pub fn occurrence_at_local(&self, local_datetime: LocalTime) -> (result: Result<
        ScheduleOccurrence,
        DurableError,
    >)
        ensures
            occurrence_result(result) == resolved_at(
                self@.timezone,
                local_datetime@,
                local_datetime.is_leap(),
            ),
            result matches Ok(found) ==> found@.local == local_datetime@ && gap_ends_later(
                self@.timezone,
                found@,
            ),
            gap_is_plain(self@.timezone, local_datetime@),
    {
        proof {
            use_type_invariant(self);
            reveal(gap_is_plain);
        }
        let local: i64 = local_datetime.millis();
        let local_occurrence = local_datetime.text();
        let behind: i64 = if local_datetime.leap() {
            1000
        } else {
            0
        };
        match find_instants(self.timezone.as_str(), local) {
            Instants::Once(instant) => Ok(
                occurrence(
                    local_datetime,
                    local_occurrence,
                    instant + behind,
                    LocalTimeDisposition::Exact,
                ),
            ),
            Instants::Twice(first, second) => {
                let scheduled_for: i64 = if first <= second {
                    first
                } else {
                    second
                };
                Ok(
                    occurrence(
                        local_datetime,
                        local_occurrence,
                        scheduled_for + behind,
                        LocalTimeDisposition::AmbiguousEarlier,
                    ),
                )
            },
            Instants::Never => {
                let mut offset: i64 = 1;
                while offset <= MAX_GAP_SCAN_SECONDS && local + 1000 * offset <= MAX_CALENDAR_MILLIS
                    invariant
                        1 <= offset <= MAX_GAP_SCAN_SECONDS + 1,
                        in_calendar(local as int),
                        local == local_datetime@,
                        local_occurrence@ == shown_text(local as int, local_datetime.is_leap()),
                        instants_of(self@.timezone, local as int) is Never,
                        forall|k: int|
                            0 <= k < offset ==> (#[trigger] instants_of(
                                self@.timezone,
                                local + 1000 * k,
                            )) is Never,
                        no_fold_behind(
                            self@.timezone,
                            local + 1000 * (offset - 1),
                            Instants::Never,
                        ),
                        gap_end(self@.timezone, local as int, offset as int) == gap_end(
                            self@.timezone,
                            local as int,
                            1,
                        ),
                    decreases MAX_GAP_SCAN_SECONDS + 1 - offset,
                {
                    proof {
                        use_type_invariant(self);
                    }
                    match find_instants(self.timezone.as_str(), local + 1000 * offset) {
                        Instants::Once(instant) => {
                            assert forall|between: int|
                                local < between < local + 1000 * offset && (between - local) % 1000
                                    == 0 implies (#[trigger] instants_of(
                                self@.timezone,
                                between,
                            )) is Never by {
                                let k = (between - local) / 1000;
                                assert(between == local + 1000 * k);
                            }
                            proof {
                                reveal(gap_is_plain);
                            }
                            return Ok(
                                occurrence(
                                    local_datetime,
                                    local_occurrence,
                                    instant,
                                    LocalTimeDisposition::Gap,
                                ),
                            );
                        },
                        _ => {},
                    }
                    offset = offset + 1;
                }
                Err(
                    DurableError::InvalidDefinition(
                        join3(
                            "timezone ",
                            self.timezone.as_str(),
                            " has a local-time gap longer than the supported bound",
                        ),
                    ),
                )
            },
        }
    }
}

/// An expression and a time zone make a calendar exactly where the expression is accepted
/// and the time zone is known.
pub proof fn law_calendars_are_refused_only_for_a_reason(cron: Seq<char>, timezone: Seq<char>)
    ensures
        calendar_error(cron, timezone) is None <==> cron_refusal(cron) is None && known_timezone(
            timezone,
        ),
{
}

/// Whether the clocks show the time so many seconds behind a wall-clock time once.
pub open spec fn is_shown_behind(timezone: Seq<char>, local: int, seconds: int) -> bool {
    instants_of(timezone, local + 1000 * seconds) is Once
}

/// Whether the time so many seconds behind a wall-clock time is the first one, from `from`
/// seconds behind it on and within a day, that the clocks show once, and at which instant.
pub open spec fn is_first_shown(
    timezone: Seq<char>,
    local: int,
    from: int,
    seconds: int,
    instant: int,
) -> bool {
    &&& from <= seconds <= 86_400
    &&& instants_of(timezone, local + 1000 * seconds) == InstantsModel::Once(instant)
    &&& forall|j: int| from <= j < seconds ==> !#[trigger] is_shown_behind(timezone, local, j)
}

/// Whether an instant is the first one, from `from` seconds behind a wall-clock time on and
/// within a day, at which the clocks show a time that they show once.
pub open spec fn ends_gap(timezone: Seq<char>, local: int, from: int, instant: int) -> bool {
    exists|k: int| #[trigger] is_first_shown(timezone, local, from, k, instant)
}

/// Whether the clocks show no time once, from `from` seconds behind a wall-clock time on and
/// within a day.
pub open spec fn gap_goes_on(timezone: Seq<char>, local: int, from: int) -> bool {
    forall|j: int|
        from <= j <= 86_400 && local + 1000 * j <= MAX_CALENDAR_MILLIS
            ==> !#[trigger] is_shown_behind(timezone, local, j)
}

proof fn lemma_gap_end(timezone: Seq<char>, local: int, offset: int)
    requires
        1 <= offset,
    ensures
        match gap_end(timezone, local, offset) {
            Some(instant) => ends_gap(timezone, local, offset, instant),
            None => gap_goes_on(timezone, local, offset),
        },
    decreases MAX_GAP_SCAN_SECONDS + 1 - offset,
{
    if offset <= MAX_GAP_SCAN_SECONDS && local + 1000 * offset <= MAX_CALENDAR_MILLIS {
        match instants_of(timezone, local + 1000 * offset) {
            InstantsModel::Once(instant) => {
                assert(is_first_shown(timezone, local, offset, offset, instant));
            },
            _ => {
                lemma_gap_end(timezone, local, offset + 1);
                match gap_end(timezone, local, offset + 1) {
                    Some(instant) => {
                        let k = choose|k: int|
                            #[trigger] is_first_shown(timezone, local, offset + 1, k, instant);
                        assert(is_first_shown(timezone, local, offset, k, instant));
                    },
                    None => {},
                }
            },
        }
    }
}

/// An occurrence keeps its wall-clock time and runs when it is scheduled for. Where the
/// clocks show the time once it runs at that instant, where they show it twice at the
/// earlier one, and where they skip it at the first second of the day behind it that they
/// show once; it is refused only where there is no such second.
pub proof fn law_occurrence_runs_when_the_clocks_show_it(timezone: Seq<char>, local: int)
    ensures
        match resolved(timezone, local) {
            Ok(occurrence) => {
                &&& occurrence.local == local
                &&& !occurrence.leap
                &&& occurrence.text == shown_text(local, false)
                &&& occurrence.scheduled_for == occurrence.due_at
                &&& match instants_of(timezone, local) {
                    InstantsModel::Once(instant) => occurrence.disposition
                        == LocalTimeDisposition::Exact && occurrence.due_at == instant,
                    InstantsModel::Twice(first, second) => {
                        &&& occurrence.disposition == LocalTimeDisposition::AmbiguousEarlier
                        &&& occurrence.due_at <= first
                        &&& occurrence.due_at <= second
                        &&& occurrence.due_at == first || occurrence.due_at == second
                    },
                    InstantsModel::Never => occurrence.disposition == LocalTimeDisposition::Gap
                        && ends_gap(timezone, local, 1, occurrence.due_at),
                }
            },
            Err(_) => instants_of(timezone, local) is Never && gap_goes_on(timezone, local, 1),
        },
{
    lemma_gap_end(timezone, local, 1);
}

/// A leap second runs one second behind the second before it, or with it where the clocks
/// skip that second; all other times are resolved as they are.
pub proof fn law_leap_second_runs_behind_its_second(timezone: Seq<char>, local: int)
    ensures
        resolved_at(timezone, local, false) == resolved(timezone, local),
        match (resolved(timezone, local), resolved_at(timezone, local, true)) {
            (Ok(plain), Ok(leap)) => {
                &&& leap.local == local
                &&& leap.leap
                &&& leap.text == shown_text(local, true)
                &&& leap.disposition == plain.disposition
                &&& leap.scheduled_for == leap.due_at
                &&& plain.disposition == LocalTimeDisposition::Gap ==> leap.due_at == plain.due_at
                &&& plain.disposition != LocalTimeDisposition::Gap ==> leap.due_at == plain.due_at
                    + 1000
            },
            (Err(a), Err(b)) => a == b,
            _ => false,
        },
{
    law_occurrence_runs_when_the_clocks_show_it(timezone, local);
}

/// The first occurrence after a time stands at the first tick after it, and is that of
/// every time between the two.
pub proof fn law_next_occurrence_is_at_the_next_tick(
    cron: Seq<char>,
    timezone: Seq<char>,
    after: int,
    between: int,
)
    requires
        tick_is_next(cron, after),
    ensures
        match next_occurrence(cron, timezone, after) {
            Ok(next) => {
                &&& after < next.local
                &&& next_tick(cron, after) == Some(next.local)
                &&& resolved(timezone, next.local) == Ok::<OccurrenceModel, ErrorModel>(next)
                &&& after <= between < next.local ==> next_occurrence(cron, timezone, between)
                    == next_occurrence(cron, timezone, after)
            },
            Err(_) => match next_tick(cron, after) {
                Some(tick) => resolved(timezone, tick) is Err,
                None => true,
            },
        },
{
    reveal(tick_is_next);
    match next_tick(cron, after) {
        Some(tick) => {
            law_occurrence_runs_when_the_clocks_show_it(timezone, tick);
            if after <= between < tick {
                assert(next_tick(cron, between) == Some(tick));
            }
        },
        None => {},
    }
}

/// Where the first occurrence after a time is due and the clocks show it, it is the one to
/// run; where it is not due yet there is none; and where it lies in a gap, the search goes on
/// one second before the gap's end.
pub proof fn law_first_due_occurrence_is_runnable(
    cron: Seq<char>,
    timezone: Seq<char>,
    after: int,
    through: int,
    first: OccurrenceModel,
)
    requires
        next_occurrence(cron, timezone, after) == Ok::<OccurrenceModel, ErrorModel>(first),
    ensures
        first.due_at > through ==> next_runnable(cron, timezone, after, through) == Ok::<
            Option<OccurrenceModel>,
            ErrorModel,
        >(None),
        first.due_at <= through && first.disposition != LocalTimeDisposition::Gap
            ==> next_runnable(cron, timezone, after, through) == Ok::<
            Option<OccurrenceModel>,
            ErrorModel,
        >(Some(first)),
        ({
            let end = local_at(timezone, first.due_at);
            let behind = next_occurrence(cron, timezone, end - 1000);
            first.due_at <= through && first.disposition == LocalTimeDisposition::Gap
                && in_calendar(first.due_at) && in_calendar(end) && in_calendar(end - 1000) && (
            behind matches Ok(next) ==> first.local < next.local < END_OF_OCCURRENCES_MILLIS)
                ==> next_runnable(cron, timezone, after, through) == next_runnable(
                cron,
                timezone,
                end - 1000,
                through,
            )
        }),
{
}

proof fn lemma_runnable_from(
    cron: Seq<char>,
    timezone: Seq<char>,
    occurrence: OccurrenceModel,
    through: int,
)
    requires
        resolved(timezone, occurrence.local) == Ok::<OccurrenceModel, ErrorModel>(occurrence),
    ensures
        runnable_from(cron, timezone, occurrence, through) matches Ok(Some(found)) ==> {
            &&& found.due_at <= through
            &&& !(instants_of(timezone, found.local) is Never)
            &&& occurrence.local <= found.local
            &&& resolved(timezone, found.local) == Ok::<OccurrenceModel, ErrorModel>(found)
        },
    decreases END_OF_OCCURRENCES_MILLIS - occurrence.local,
{
    law_occurrence_runs_when_the_clocks_show_it(timezone, occurrence.local);
    if occurrence.due_at <= through && occurrence.disposition == LocalTimeDisposition::Gap {
        match gap_restart(timezone, occurrence.due_at) {
            Err(_) => {},
            Ok(before) => match next_occurrence(cron, timezone, before) {
                Err(_) => {},
                Ok(next) => {
                    law_occurrence_runs_when_the_clocks_show_it(timezone, next_tick(cron, before)->0);
                    if occurrence.local < next.local < END_OF_OCCURRENCES_MILLIS {
                        lemma_runnable_from(cron, timezone, next, through);
                    }
                },
            },
        }
    }
}

/// An occurrence that is found to run is due, and the clocks show its time.
pub proof fn law_runnable_occurrence_is_due(
    cron: Seq<char>,
    timezone: Seq<char>,
    after: int,
    through: int,
)
    ensures
        next_runnable(cron, timezone, after, through) matches Ok(Some(found)) ==> {
            &&& found.due_at <= through
            &&& !(instants_of(timezone, found.local) is Never)
            &&& resolved(timezone, found.local) == Ok::<OccurrenceModel, ErrorModel>(found)
        },
{
    match next_occurrence(cron, timezone, after) {
        Ok(first) => {
            law_occurrence_runs_when_the_clocks_show_it(timezone, next_tick(cron, after)->0);
            lemma_runnable_from(cron, timezone, first, through);
        },
        Err(_) => {},
    }
}

/// The occurrences after an instant are counted from the time that the clocks show then.
pub proof fn law_search_begins_at_the_shown_time(timezone: Seq<char>, instant: int)
    ensures
        match starting_local(timezone, instant) {
            Some(local) => local == instant + 1000 * utc_offset(timezone, instant) && in_calendar(
                instant,
            ) && in_calendar(local + 1000) && in_calendar(local),
            None => {
                let local = instant + 1000 * utc_offset(timezone, instant);
                !in_calendar(instant) || !in_calendar(local) || !in_calendar(local + 1000)
            },
        },
{
}

} // verus!
