//! Progress that a running activity reports.
use vstd::prelude::*;
use crate::error;
use crate::error::{ensure_size, DurableError, ErrorModel};
use crate::json;
use crate::json::{check_json, ShapeModel};
use crate::persistence::models::{ActivityRow, ActivityRowModel, NewProgressEventRow};
use crate::persistence::status::ActivityStatus;
use crate::text;
use crate::text::{byte_len, is_some_text};
use crate::MAX_EVENT_METADATA_BYTES;

verus! {

/// The most events that one attempt may report.
pub const MAX_PROGRESS_EVENTS_PER_ATTEMPT: i32 = 100;

/// The longest description of an event.
pub const MAX_PROGRESS_DESCRIPTION_BYTES: usize = 2_048;

/// How grave an event is.
#[derive(Debug, Clone, Copy, PartialEq, Eq, Structural)]
pub enum ProgressSeverity {
    Info,
    Warning,
    Error,
}

/// The stored name of a severity.
pub open spec fn severity_name(severity: ProgressSeverity) -> Seq<char> {
    match severity {
        ProgressSeverity::Info => "info"@,
        ProgressSeverity::Warning => "warning"@,
        ProgressSeverity::Error => "error"@,
    }
}

impl ProgressSeverity {
    /// The stored name of the severity.
    pub fn as_str(self) -> (name: &'static str)
        ensures
            name@ == severity_name(self),
    {
        match self {
            ProgressSeverity::Info => "info",
            ProgressSeverity::Warning => "warning",
            ProgressSeverity::Error => "error",
        }
    }
}

/// An event to report.
#[derive(Debug, PartialEq, Eq)]
pub struct ProgressEvent {
    pub code: String,
    pub description: String,
    pub completed_units: Option<i64>,
    pub total_units: Option<i64>,
    pub severity: ProgressSeverity,
    pub metadata_json: Option<String>,
}

impl Clone for ProgressEvent {
    fn clone(&self) -> (copy: Self)
        ensures
            copy == *self,
    {
        ProgressEvent {
            code: self.code.clone(),
            description: self.description.clone(),
            completed_units: self.completed_units,
            total_units: self.total_units,
            severity: self.severity,
            metadata_json: self.metadata_json.clone(),
        }
    }
}

impl ProgressEvent {
    /// An informational event without units and metadata.
    pub fn new(code: &str, description: &str) -> (event: Self)
        ensures
            event.code@ == code@,
            event.description@ == description@,
            event.completed_units is None,
            event.total_units is None,
            event.severity == ProgressSeverity::Info,
            event.metadata_json is None,
    {
        ProgressEvent {
            code: code.to_owned(),
            description: description.to_owned(),
            completed_units: None,
            total_units: None,
            severity: ProgressSeverity::Info,
            metadata_json: None,
        }
    }
}

/// What became of a report.
#[derive(Debug, Clone, Copy, PartialEq, Eq, Structural)]
pub enum ProgressReportOutcome {
    Persisted { sequence: u32 },
    LimitReached,
}

/// Whether a code has an allowed form.
pub open spec fn valid_code(code: Seq<char>) -> bool {
    1 <= text::utf8_len(code) <= 64 && vstd::utf8::is_ascii_chars(code)
}

/// Why metadata is refused.
pub open spec fn metadata_error(metadata: Option<Seq<char>>) -> Option<ErrorModel> {
    match metadata {
        None => None,
        Some(metadata) => match error::size_result(
            "progress metadata"@,
            metadata,
            MAX_EVENT_METADATA_BYTES as int,
        ) {
            Err(error) => Some(error),
            Ok(_) => match json::parsed_json(vstd::utf8::encode_utf8(metadata)) {
                Err(refusal) => Some(ErrorModel::Serialization(refusal)),
                Ok(_) => None,
            },
        },
    }
}

/// Whether the units of an event are those of a part of a whole.
pub open spec fn valid_units(completed: Option<i64>, total: Option<i64>) -> bool {
    &&& completed matches Some(completed) ==> completed >= 0
    &&& total matches Some(total) ==> total >= 0
    &&& match (completed, total) {
        (Some(completed), Some(total)) => completed <= total,
        _ => true,
    }
}

/// Why an event is refused.
pub open spec fn event_error(event: ProgressEvent) -> Option<ErrorModel> {
    if !valid_code(event.code@) {
        Some(ErrorModel::InvalidDefinition("progress code must be 1-64 ASCII bytes"@))
    } else {
        match error::size_result(
            "progress description"@,
            event.description@,
            MAX_PROGRESS_DESCRIPTION_BYTES as int,
        ) {
            Err(error) => Some(error),
            Ok(_) => match metadata_error(text::opt_text(event.metadata_json)) {
                Some(error) => Some(error),
                None => if valid_units(event.completed_units, event.total_units) {
                    None
                } else {
                    Some(
                        ErrorModel::InvalidDefinition(
                            "progress units must satisfy 0 <= completed <= total"@,
                        ),
                    )
                },
            },
        }
    }
}

/// Checks an event before it is reported.
pub fn validate_event(event: &ProgressEvent) -> (result: Result<(), DurableError>)
    ensures
        match result {
            Ok(_) => event_error(*event) is None,
            Err(error) => event_error(*event) == Some(error@),
        },
{
    let code_bytes: usize = byte_len(event.code.as_str());
    if code_bytes == 0 || code_bytes > 64 || !event.code.as_str().is_ascii() {
        return Err(error::invalid_definition("progress code must be 1-64 ASCII bytes"));
    }
    match ensure_size(
        "progress description",
        event.description.as_str(),
        MAX_PROGRESS_DESCRIPTION_BYTES,
    ) {
        Ok(_) => {},
        Err(error) => return Err(error),
    }
    match &event.metadata_json {
        Some(metadata) => {
            match ensure_size("progress metadata", metadata.as_str(), MAX_EVENT_METADATA_BYTES) {
                Ok(_) => {},
                Err(error) => return Err(error),
            }
            match check_json(metadata.as_str()) {
                Ok(_) => {},
                Err(refusal) => return Err(DurableError::Serialization(refusal)),
            }
        },
        None => {},
    }
    let completed_is_negative = match event.completed_units {
        Some(units) => units < 0,
        None => false,
    };
    let total_is_negative = match event.total_units {
        Some(units) => units < 0,
        None => false,
    };
    let completed_exceeds_total = match (event.completed_units, event.total_units) {
        (Some(completed), Some(total)) => completed > total,
        _ => false,
    };
    if completed_is_negative || total_is_negative || completed_exceeds_total {
        return Err(
            error::invalid_definition("progress units must satisfy 0 <= completed <= total"),
        );
    }
    Ok(())
}

/// Whether an attempt still holds the activity that it runs.
pub open spec fn is_current_attempt(
    activity: ActivityRowModel,
    attempt_number: i32,
    lease_token: Seq<char>,
) -> bool {
    &&& activity.status == ActivityStatus::Running
    &&& activity.attempt_count == attempt_number
    &&& activity.lease_token == Some(lease_token)
}

/// Why a report is refused. An attempt that lost its activity is fenced out.
pub open spec fn report_error(
    activity: Option<ActivityRowModel>,
    attempt_number: i32,
    lease_token: Seq<char>,
    last: Option<i32>,
    event: ProgressEvent,
) -> Option<ErrorModel> {
    match event_error(event) {
        Some(error) => Some(error),
        None => if !(activity matches Some(activity) && is_current_attempt(
            activity,
            attempt_number,
            lease_token,
        )) {
            Some(ErrorModel::FencedWrite)
        } else if last matches Some(last) && last < -1 {
            Some(ErrorModel::InvalidState("negative progress sequence"@))
        } else {
            None
        },
    }
}

/// What a report writes, and what becomes of it.
#[derive(Debug)]
pub struct ProgressReport {
    pub outcome: ProgressReportOutcome,
    pub row: Option<NewProgressEventRow>,
}

/// The number of the last event of an attempt.
pub open spec fn last_sequence(last: Option<i32>) -> int {
    match last {
        Some(last) => last as int,
        None => 0,
    }
}

/// Whether a row stores an event.
pub open spec fn stores_event(
    row: NewProgressEventRow,
    activity_id: i64,
    attempt_number: i32,
    sequence: int,
    event: ProgressEvent,
    now: i64,
) -> bool {
    &&& row.activity_id == activity_id
    &&& row.attempt_number == attempt_number
    &&& row.sequence == sequence
    &&& row.code == event.code
    &&& row.description == event.description
    &&& row.description_bytes == text::utf8_len(event.description@)
    &&& row.completed_units == event.completed_units
    &&& row.total_units == event.total_units
    &&& row.severity@ == severity_name(event.severity)
    &&& row.metadata_json == event.metadata_json
    &&& row.created_at == now
}

/// Reports an event of an attempt. `activity` is the locked row of the activity,
/// `last` the number of the last event that the attempt reported.
pub fn report(
    activity: Option<&ActivityRow>,
    attempt_number: i32,
    lease_token: &str,
    last: Option<i32>,
    event: ProgressEvent,
    now: i64,
) -> (result: Result<ProgressReport, DurableError>)
    ensures
        ({
            let model = match activity {
                Some(row) => Some(row@),
                None => None,
            };
            let refusal = report_error(model, attempt_number, lease_token@, last, event);
            match result {
                Ok(report) => {
                    &&& refusal is None
                    &&& if last_sequence(last) >= MAX_PROGRESS_EVENTS_PER_ATTEMPT {
                        report.outcome == ProgressReportOutcome::LimitReached && report.row is None
                    } else {
                        &&& report.outcome == (ProgressReportOutcome::Persisted {
                            sequence: (last_sequence(last) + 1) as u32,
                        })
                        &&& report.row matches Some(row)
                        &&& stores_event(
                            row,
                            model->0.id,
                            attempt_number,
                            last_sequence(last) + 1,
                            event,
                            now,
                        )
                    }
                },
                Err(error) => refusal == Some(error@),
            }
        }),
{
    match validate_event(&event) {
        Ok(_) => {},
        Err(error) => return Err(error),
    }
    let activity_id: i64 = match activity {
        Some(row) => {
            let running = match row.status {
                ActivityStatus::Running => true,
                _ => false,
            };
            if !running || row.attempt_count != attempt_number || !is_some_text(
                &row.lease_token,
                lease_token,
            ) {
                return Err(DurableError::FencedWrite);
            }
            row.id
        },
        None => return Err(DurableError::FencedWrite),
    };
    let last: i32 = match last {
        Some(last) => last,
        None => 0,
    };
    if last >= MAX_PROGRESS_EVENTS_PER_ATTEMPT {
        return Ok(ProgressReport { outcome: ProgressReportOutcome::LimitReached, row: None });
    }
    if last < -1 {
        return Err(error::invalid_state("negative progress sequence"));
    }
    let sequence: i32 = last + 1;
    let description_bytes: usize = byte_len(event.description.as_str());
    Ok(
        ProgressReport {
            outcome: ProgressReportOutcome::Persisted { sequence: sequence as u32 },
            row: Some(
                NewProgressEventRow {
                    activity_id,
                    attempt_number,
                    sequence,
                    code: event.code,
                    description: event.description,
                    description_bytes: description_bytes as i32,
                    completed_units: event.completed_units,
                    total_units: event.total_units,
                    severity: event.severity.as_str().to_owned(),
                    metadata_json: event.metadata_json,
                    created_at: now,
                },
            ),
        },
    )
}

/// An event is reported exactly where its code is one to 64 ASCII characters, its
/// description and its metadata are not too large, its metadata is JSON, and its units
/// are those of a part of a whole.
pub proof fn law_event_is_refused_only_for_a_reason(event: ProgressEvent)
    ensures
        event_error(event) is None <==> {
            &&& 1 <= text::utf8_len(event.code@) <= 64
            &&& vstd::utf8::is_ascii_chars(event.code@)
            &&& text::utf8_len(event.description@) <= 2048
            &&& event.metadata_json matches Some(metadata) ==> text::utf8_len(metadata@) <= 16 * 1024
                && json::parsed_json(vstd::utf8::encode_utf8(metadata@)) is Ok
            &&& event.completed_units matches Some(completed) ==> 0 <= completed
            &&& event.total_units matches Some(total) ==> 0 <= total
            &&& event.completed_units is Some && event.total_units is Some
                ==> event.completed_units->0 <= event.total_units->0
        },
{
}

/// A report is taken exactly from the attempt that holds the activity; any other attempt,
/// and one whose lease was taken, is fenced out, whatever it reports.
pub proof fn law_only_the_current_attempt_reports(
    activity: ActivityRowModel,
    attempt_number: i32,
    lease_token: Seq<char>,
    last: Option<i32>,
    event: ProgressEvent,
)
    requires
        event_error(event) is None,
        last matches Some(last) ==> last >= 0,
    ensures
        ({
            let refusal = report_error(Some(activity), attempt_number, lease_token, last, event);
            let holds = activity.status == ActivityStatus::Running && activity.attempt_count
                == attempt_number && activity.lease_token == Some(lease_token);
            &&& refusal is None <==> holds
            &&& !holds ==> refusal == Some(ErrorModel::FencedWrite)
        }),
        report_error(None, attempt_number, lease_token, last, event) == Some(
            ErrorModel::FencedWrite,
        ),
{
}

/// What is stored of an event is the event, each part under its own name, for the activity
/// and the attempt that reported it; severities have different names.
pub proof fn law_stored_event_is_the_reported_one(
    row: NewProgressEventRow,
    activity_id: i64,
    attempt_number: i32,
    sequence: int,
    event: ProgressEvent,
    now: i64,
)
    requires
        stores_event(row, activity_id, attempt_number, sequence, event, now),
    ensures
        row.activity_id == activity_id,
        row.attempt_number == attempt_number,
        row.sequence == sequence,
        row.code@ == event.code@,
        row.description@ == event.description@,
        row.description_bytes == text::utf8_len(event.description@),
        row.completed_units == event.completed_units,
        row.total_units == event.total_units,
        row.severity@ == "info"@ <==> event.severity == ProgressSeverity::Info,
        row.severity@ == "warning"@ <==> event.severity == ProgressSeverity::Warning,
        row.severity@ == "error"@ <==> event.severity == ProgressSeverity::Error,
        row.metadata_json == event.metadata_json,
        row.created_at == now,
{
    reveal_strlit("info");
    reveal_strlit("warning");
    reveal_strlit("error");
    assert("info"@.len() == 4 && "warning"@.len() == 7 && "error"@.len() == 5);
}

/// Events are numbered from one on, without gaps.
pub proof fn law_events_are_numbered_from_one(last: i32)
    ensures
        last_sequence(None) == 0,
        last_sequence(Some(last)) == last,
{
}

} // verus!
