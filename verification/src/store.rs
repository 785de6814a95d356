//! Starting, finding, superseding and cancelling workflows.
use vstd::prelude::*;
use crate::error::{invalid_definition, DurableError, ErrorModel};
use crate::ids::{ScheduleRunId, WorkflowId};
use crate::numerals;
use crate::numerals::{decimal_i64, decimal_u64};
use crate::payload;
use crate::payload::{check_payload, PreparedModel, PreparedWorkflowStart};
use crate::persistence::events;
use crate::persistence::events::{EventDraft, EventDraftModel};
use crate::persistence::models;
use crate::persistence::models::{
    ActivityRow, ActivityRowModel, ApprovalRow, ApprovalRowModel, NewWorkflowRow,
    NewWorkflowRowModel, WorkflowRow, WorkflowRowModel,
};
use crate::persistence::status;
use crate::persistence::status::{is_terminal, ActivityStatus, WorkflowStatus};
use crate::runtime::activity_worker::{AttemptClose, AttemptCloseModel};
use crate::runtime::lease;
use crate::text;
use crate::text::{byte_len, join3, same_text, trim};
use crate::transition::{ChildOutcome, ChildOutcomeModel, ChildWorkflowCommand};
use crate::MAX_ERROR_REASON_BYTES;

verus! {

/// How often a workflow may be activated in vain before it fails.
pub const DEFAULT_MAX_ACTIVATION_ATTEMPTS: i32 = 8;

/// The longest deduplication key, in characters.
pub const MAX_DEDUPLICATION_KEY_CHARS: usize = 191;

/// What a start of a workflow may choose. Times are UTC milliseconds.
#[derive(Debug, Clone)]
pub struct StartOptions {
    pub deduplication_key: Option<String>,
    pub available_at: Option<i64>,
    pub schedule_run_id: Option<ScheduleRunId>,
    pub root_workflow_id: Option<WorkflowId>,
    pub restarted_from_workflow_id: Option<WorkflowId>,
}

/// The mathematical content of [`StartOptions`].
#[verifier::ext_equal]
pub struct OptionsModel {
    pub deduplication_key: Option<Seq<char>>,
    pub available_at: Option<i64>,
    pub schedule_run_id: Option<int>,
    pub root_workflow_id: Option<int>,
    pub restarted_from_workflow_id: Option<int>,
}

/// The number of an optional workflow identifier.
pub open spec fn id_number(id: Option<WorkflowId>) -> Option<int> {
    match id {
        Some(value) => Some(value@),
        None => None,
    }
}

impl View for StartOptions {
    type V = OptionsModel;

    open spec fn view(&self) -> OptionsModel {
        OptionsModel {
            deduplication_key: text::opt_text(self.deduplication_key),
            available_at: self.available_at,
            schedule_run_id: match self.schedule_run_id {
                Some(id) => Some(id@),
                None => None,
            },
            root_workflow_id: id_number(self.root_workflow_id),
            restarted_from_workflow_id: id_number(self.restarted_from_workflow_id),
        }
    }
}

/// Options that choose nothing.
pub open spec fn no_options() -> OptionsModel {
    OptionsModel {
        deduplication_key: None,
        available_at: None,
        schedule_run_id: None,
        root_workflow_id: None,
        restarted_from_workflow_id: None,
    }
}

impl Default for StartOptions {
    fn default() -> (options: Self)
        ensures
            options@ == no_options(),
    {
        StartOptions {
            deduplication_key: None,
            available_at: None,
            schedule_run_id: None,
            root_workflow_id: None,
            restarted_from_workflow_id: None,
        }
    }
}

impl StartOptions {
    /// The same options with a deduplication key.
    pub fn with_deduplication_key(self, key: String) -> (options: Self)
        ensures
            options@ == (OptionsModel { deduplication_key: Some(key@), ..self@ }),
    {
        let mut options = self;
        options.deduplication_key = Some(key);
        options
    }
}

/// The workflow that a start yields, and whether this start created it.
#[derive(Debug, Clone, Copy, PartialEq, Eq, Structural)]
pub struct StartOutcome {
    pub workflow_id: WorkflowId,
    pub inserted: bool,
}

/// The outcome of a start that yielded the workflow `id`.
pub fn start_outcome(id: i64, inserted: bool) -> (result: Result<StartOutcome, DurableError>)
    ensures
        match result {
            Ok(outcome) => id > 0 && outcome.workflow_id@ == id && outcome.inserted == inserted,
            Err(error) => id <= 0 && error@ == ErrorModel::InvalidId(id as int),
        },
{
    match WorkflowId::new(id) {
        Ok(workflow_id) => Ok(StartOutcome { workflow_id, inserted }),
        Err(error) => Err(error),
    }
}

/// Refuses to start or look up an empty kind or a version that is not positive.
pub fn validate_definition(kind: &str, version: i32) -> (result: Result<(), DurableError>)
    ensures
        match result {
            Ok(()) => kind@.len() > 0 && version > 0,
            Err(error) => !(kind@.len() > 0 && version > 0) && error@
                == ErrorModel::InvalidDefinition(
                "workflow kind must be non-empty and version must be positive"@,
            ),
        },
{
    if kind.is_empty() || version <= 0 {
        return Err(
            invalid_definition("workflow kind must be non-empty and version must be positive"),
        );
    }
    Ok(())
}

/// Whether a deduplication key has an acceptable length.
pub open spec fn key_fits(key: Seq<char>) -> bool {
    1 <= key.len() <= MAX_DEDUPLICATION_KEY_CHARS
}

fn fits_key(key: &str) -> (fits: bool)
    ensures
        fits == key_fits(key@),
{
    let length: usize = key.unicode_len();
    length != 0 && length <= MAX_DEDUPLICATION_KEY_CHARS
}

/// Why options are refused.
pub open spec fn options_error(options: OptionsModel) -> Option<ErrorModel> {
    if options.deduplication_key is Some && options.restarted_from_workflow_id is Some {
        Some(
            ErrorModel::InvalidDefinition(
                "workflow start cannot set both a deduplication key and a restart source"@,
            ),
        )
    } else if options.deduplication_key matches Some(key) && !key_fits(key) {
        Some(
            ErrorModel::InvalidDefinition(
                "workflow deduplication key must contain 1 to "@ + numerals::decimal(
                    MAX_DEDUPLICATION_KEY_CHARS as int,
                ) + " characters"@,
            ),
        )
    } else {
        None
    }
}

/// Refuses options that contradict each other or whose key has a wrong length.
pub fn validate_options(options: &StartOptions) -> (result: Result<(), DurableError>)
    ensures
        match result {
            Ok(()) => options_error(options@) is None,
            Err(error) => options_error(options@) == Some(error@),
        },
{
    if options.deduplication_key.is_some() && options.restarted_from_workflow_id.is_some() {
        return Err(
            invalid_definition(
                "workflow start cannot set both a deduplication key and a restart source",
            ),
        );
    }
    match &options.deduplication_key {
        Some(key) => {
            if !fits_key(key.as_str()) {
                return Err(
                    DurableError::InvalidDefinition(
                        join3(
                            "workflow deduplication key must contain 1 to ",
                            decimal_u64(MAX_DEDUPLICATION_KEY_CHARS as u64).as_str(),
                            " characters",
                        ),
                    ),
                );
            }
            Ok(())
        },
        None => Ok(()),
    }
}

/// Refuses a lookup by a definition or a key that no start could have had.
pub fn validate_lookup(kind: &str, version: i32, deduplication_key: &str) -> (result: Result<
    (),
    DurableError,
>)
    ensures
        match result {
            Ok(()) => kind@.len() > 0 && version > 0 && key_fits(deduplication_key@),
            Err(error) => if kind@.len() > 0 && version > 0 {
                options_error(
                    OptionsModel { deduplication_key: Some(deduplication_key@), ..no_options() },
                ) == Some(error@)
            } else {
                error@ == ErrorModel::InvalidDefinition(
                    "workflow kind must be non-empty and version must be positive"@,
                )
            },
        },
{
    match validate_definition(kind, version) {
        Ok(()) => {},
        Err(error) => return Err(error),
    }
    let options = StartOptions::default().with_deduplication_key(deduplication_key.to_owned());
    validate_options(&options)
}

/// Why a start is refused before the database is asked.
pub open spec fn start_error(
    kind: Seq<char>,
    version: i32,
    input_json: Seq<char>,
    state_json: Seq<char>,
    options: OptionsModel,
) -> Option<ErrorModel> {
    if !(kind.len() > 0 && version > 0) {
        Some(
            ErrorModel::InvalidDefinition(
                "workflow kind must be non-empty and version must be positive"@,
            ),
        )
    } else {
        match options_error(options) {
            Some(error) => Some(error),
            None => payload::payload_error(input_json, state_json),
        }
    }
}

/// Checks a start and makes it ready to be stored.
pub fn prepare_start(
    kind: &str,
    version: i32,
    input_json: String,
    state_json: String,
    options: &StartOptions,
) -> (result: Result<PreparedWorkflowStart, DurableError>)
    ensures
        match result {
            Ok(prepared) => start_error(
                kind@,
                version,
                input_json@,
                state_json@,
                options@,
            ) is None && prepared@ == (PreparedModel {
                kind: kind@,
                version,
                input_json: input_json@,
                state_json: state_json@,
            }),
            Err(error) => start_error(kind@, version, input_json@, state_json@, options@) == Some(
                error@,
            ),
        },
{
    match validate_definition(kind, version) {
        Ok(()) => {},
        Err(error) => return Err(error),
    }
    match validate_options(options) {
        Ok(()) => {},
        Err(error) => return Err(error),
    }
    PreparedWorkflowStart::from_workflow(kind, version, input_json, state_json)
}

/// Checks a start that was prepared before.
pub fn check_prepared(prepared: &PreparedWorkflowStart, options: &StartOptions) -> (result: Result<
    (),
    DurableError,
>)
    ensures
        ({
            let problem = match options_error(options@) {
                Some(error) => Some(error),
                None => payload::payload_error(prepared@.input_json, prepared@.state_json),
            };
            match result {
                Ok(()) => problem is None,
                Err(error) => problem == Some(error@),
            }
        }),
{
    match validate_options(options) {
        Ok(()) => {},
        Err(error) => return Err(error),
    }
    check_payload(prepared.input_json(), prepared.state_json())
}

/// The row of a workflow that is ready to run for the first time.
pub open spec fn fresh_workflow(
    kind: Seq<char>,
    version: i32,
    input_json: Seq<char>,
    state_json: Seq<char>,
    now: i64,
) -> NewWorkflowRowModel {
    NewWorkflowRowModel {
        kind,
        version,
        input_json,
        state_json,
        state_version: 1,
        status: WorkflowStatus::Ready,
        result_json: None,
        error_category: None,
        error_message: None,
        wait_kind: None,
        wait_reference_id: None,
        available_at: now,
        activation_attempts: 0,
        max_activation_attempts: DEFAULT_MAX_ACTIVATION_ATTEMPTS,
        consecutive_continuations: 0,
        lease_owner: None,
        lease_token: None,
        lease_expires_at: None,
        deduplication_key: None,
        schedule_run_id: None,
        root_workflow_id: None,
        restarted_from_workflow_id: None,
        parent_workflow_id: None,
        parent_command_sequence: None,
        command_sequence: 0,
        delivered_event_sequence: 0,
        created_at: now,
        updated_at: now,
        completed_at: None,
    }
}

/// An identifier as the database holds it.
pub open spec fn stored_number(id: Option<int>) -> Option<i64> {
    match id {
        Some(value) => Some(value as i64),
        None => None,
    }
}

/// The row of a workflow that is started with options.
pub open spec fn started_workflow(
    prepared: PreparedModel,
    options: OptionsModel,
    now: i64,
) -> NewWorkflowRowModel {
    NewWorkflowRowModel {
        available_at: match options.available_at {
            Some(at) => at,
            None => now,
        },
        deduplication_key: options.deduplication_key,
        schedule_run_id: stored_number(options.schedule_run_id),
        root_workflow_id: stored_number(options.root_workflow_id),
        restarted_from_workflow_id: stored_number(options.restarted_from_workflow_id),
        ..fresh_workflow(
            prepared.kind,
            prepared.version,
            prepared.input_json,
            prepared.state_json,
            now,
        )
    }
}

fn fresh_row(kind: &str, version: i32, input_json: &str, state_json: &str, now: i64) -> (row:
    NewWorkflowRow)
    ensures
        row@ == fresh_workflow(kind@, version, input_json@, state_json@, now),
{
    NewWorkflowRow {
        kind: kind.to_owned(),
        version,
        input_json: input_json.to_owned(),
        state_json: state_json.to_owned(),
        state_version: 1,
        status: WorkflowStatus::Ready,
        result_json: None,
        error_category: None,
        error_message: None,
        wait_kind: None,
        wait_reference_id: None,
        available_at: now,
        activation_attempts: 0,
        max_activation_attempts: DEFAULT_MAX_ACTIVATION_ATTEMPTS,
        consecutive_continuations: 0,
        lease_owner: None,
        lease_token: None,
        lease_expires_at: None,
        deduplication_key: None,
        schedule_run_id: None,
        root_workflow_id: None,
        restarted_from_workflow_id: None,
        parent_workflow_id: None,
        parent_command_sequence: None,
        command_sequence: 0,
        delivered_event_sequence: 0,
        created_at: now,
        updated_at: now,
        completed_at: None,
    }
}

fn workflow_number(id: Option<WorkflowId>) -> (number: Option<i64>)
    ensures
        number == stored_number(id_number(id)),
{
    match id {
        Some(value) => Some(value.get()),
        None => None,
    }
}

/// The row of a workflow that is started with options.
pub fn workflow_row(prepared: &PreparedWorkflowStart, options: &StartOptions, now: i64) -> (row:
    NewWorkflowRow)
    ensures
        row@ == started_workflow(prepared@, options@, now),
{
    let mut row = fresh_row(
        prepared.kind(),
        prepared.version(),
        prepared.input_json(),
        prepared.state_json(),
        now,
    );
    row.available_at = match options.available_at {
        Some(at) => at,
        None => now,
    };
    row.deduplication_key = options.deduplication_key.clone();
    row.schedule_run_id = match options.schedule_run_id {
        Some(id) => Some(id.get()),
        None => None,
    };
    row.root_workflow_id = workflow_number(options.root_workflow_id);
    row.restarted_from_workflow_id = workflow_number(options.restarted_from_workflow_id);
    row
}

/// What a start does: it yields a workflow that was started before, or inserts one.
#[derive(Debug)]
pub enum StartPlan {
    Existing(StartOutcome),
    Insert(NewWorkflowRow),
}

/// Decides a start, where `existing` is the workflow found under the
/// deduplication key of the options.
pub fn plan_start(
    prepared: &PreparedWorkflowStart,
    options: &StartOptions,
    existing: Option<&WorkflowRow>,
    now: i64,
) -> (result: Result<StartPlan, DurableError>)
    ensures
        match (options@.deduplication_key, existing) {
            (Some(_), Some(row)) => match result {
                Ok(plan) => row@.id > 0 && (plan matches StartPlan::Existing(outcome)
                    && outcome.workflow_id@ == row@.id && !outcome.inserted),
                Err(error) => row@.id <= 0 && error@ == ErrorModel::InvalidId(row@.id as int),
            },
            _ => result matches Ok(StartPlan::Insert(row)) && row@ == started_workflow(
                prepared@,
                options@,
                now,
            ),
        },
{
    if options.deduplication_key.is_some() {
        match existing {
            Some(row) => {
                return match start_outcome(row.id, false) {
                    Ok(outcome) => Ok(StartPlan::Existing(outcome)),
                    Err(error) => Err(error),
                };
            },
            None => {},
        }
    }
    Ok(StartPlan::Insert(workflow_row(prepared, options, now)))
}

/// Why a child cannot be started or shared.
pub open spec fn child_error(
    command: ChildWorkflowCommand,
    deduplication_key: Seq<char>,
    existing: Option<WorkflowRowModel>,
) -> Option<ErrorModel> {
    if !key_fits(deduplication_key) {
        Some(
            ErrorModel::InvalidDefinition(
                "child workflow deduplication key must contain 1 to "@ + numerals::decimal(
                    MAX_DEDUPLICATION_KEY_CHARS as int,
                ) + " characters"@,
            ),
        )
    } else {
        match existing {
            Some(row) => if row.version != command.version {
                Some(
                    ErrorModel::DefinitionMismatch {
                        actual_kind: row.kind,
                        actual_version: row.version as int,
                        expected_kind: command.kind@,
                        expected_version: command.version as int,
                    },
                )
            } else if row.id <= 0 {
                Some(ErrorModel::InvalidId(row.id as int))
            } else {
                None
            },
            None => None,
        }
    }
}

/// The row of a child workflow.
pub open spec fn child_workflow(
    command: ChildWorkflowCommand,
    deduplication_key: Seq<char>,
    parent_workflow_id: i64,
    parent_command_sequence: i32,
    root_workflow_id: i64,
    now: i64,
) -> NewWorkflowRowModel {
    NewWorkflowRowModel {
        deduplication_key: Some(deduplication_key),
        root_workflow_id: Some(root_workflow_id),
        parent_workflow_id: Some(parent_workflow_id),
        parent_command_sequence: Some(parent_command_sequence),
        ..fresh_workflow(
            command.kind@,
            command.version,
            command.input_json@,
            command.state_json@,
            now,
        )
    }
}

/// Decides the start of a child inside its parent's commit, where `existing` is
/// the workflow found under the key: a commit that is repeated finds the same child.
pub fn plan_child(
    command: &ChildWorkflowCommand,
    deduplication_key: String,
    existing: Option<&WorkflowRow>,
    parent_workflow_id: i64,
    parent_command_sequence: i32,
    root_workflow_id: i64,
    now: i64,
) -> (result: Result<StartPlan, DurableError>)
    ensures
        ({
            let found = match existing {
                Some(row) => Some(row@),
                None => None,
            };
            match result {
                Ok(plan) => child_error(*command, deduplication_key@, found) is None && (match found {
                    Some(row) => plan matches StartPlan::Existing(outcome)
                        && outcome.workflow_id@ == row.id && !outcome.inserted,
                    None => plan matches StartPlan::Insert(row) && row@ == child_workflow(
                        *command,
                        deduplication_key@,
                        parent_workflow_id,
                        parent_command_sequence,
                        root_workflow_id,
                        now,
                    ),
                }),
                Err(error) => child_error(*command, deduplication_key@, found) == Some(error@),
            }
        }),
{
    if !fits_key(deduplication_key.as_str()) {
        return Err(
            DurableError::InvalidDefinition(
                join3(
                    "child workflow deduplication key must contain 1 to ",
                    decimal_u64(MAX_DEDUPLICATION_KEY_CHARS as u64).as_str(),
                    " characters",
                ),
            ),
        );
    }
    match existing {
        Some(row) => {
            if row.version != command.version {
                return Err(
                    DurableError::DefinitionMismatch {
                        actual_kind: row.kind.clone(),
                        actual_version: row.version,
                        expected_kind: command.kind.clone(),
                        expected_version: command.version,
                    },
                );
            }
            match start_outcome(row.id, false) {
                Ok(outcome) => Ok(StartPlan::Existing(outcome)),
                Err(error) => Err(error),
            }
        },
        None => {
            let mut row = fresh_row(
                command.kind.as_str(),
                command.version,
                command.input_json.as_str(),
                command.state_json.as_str(),
                now,
            );
            row.deduplication_key = Some(deduplication_key);
            row.root_workflow_id = Some(root_workflow_id);
            row.parent_workflow_id = Some(parent_workflow_id);
            row.parent_command_sequence = Some(parent_command_sequence);
            Ok(StartPlan::Insert(row))
        },
    }
}

/// The first workflow of a row's lineage of restarts.
pub open spec fn root_of(row: WorkflowRowModel) -> i64 {
    match row.root_workflow_id {
        Some(root) => root,
        None => row.id,
    }
}

/// The first workflow of a row's lineage of restarts.
pub fn lineage_root(row: &WorkflowRow) -> (root: i64)
    ensures
        root == root_of(row@),
{
    match row.root_workflow_id {
        Some(root) => root,
        None => row.id,
    }
}

/// Whether a workflow stopped in a way that a new generation can recover from.
pub open spec fn recoverable_end(status: WorkflowStatus) -> bool {
    status == WorkflowStatus::Failed || status == WorkflowStatus::Blocked
}

/// What a recoverable start does.
#[derive(Debug)]
pub enum RecoverablePlan {
    Existing(StartOutcome),
    Insert(NewWorkflowRow),
    /// Starts a successor of the last generation, whose dead letters are cancelled.
    Supersede {
        /// The last generation's next row and history entry, where it was blocked.
        cancelled: Option<(WorkflowRow, EventDraft)>,
        insert: NewWorkflowRow,
    },
}

/// The row of a blocked workflow that a successor replaces.
pub open spec fn superseded(row: WorkflowRowModel, now: i64) -> WorkflowRowModel {
    WorkflowRowModel {
        status: WorkflowStatus::Cancelled,
        updated_at: now,
        completed_at: Some(now),
        ..lease::workflow_unleased(row)
    }
}

/// The history entry of a workflow that a successor replaces.
pub open spec fn superseded_event(workflow_id: i64, now: i64) -> EventDraftModel {
    EventDraftModel {
        reason: Some("a successor recovery generation was started"@),
        ..events::history_model(workflow_id, "workflow_superseded_by_recovery"@, now)
    }
}

/// The options of the successor of the last generation.
pub open spec fn successor_options(options: OptionsModel, root: i64, latest: i64) -> OptionsModel {
    OptionsModel {
        deduplication_key: None,
        root_workflow_id: Some(root as int),
        restarted_from_workflow_id: Some(latest as int),
        ..options
    }
}

/// Decides a start that recovers a failed or blocked workflow of the same key.
///
/// `lineage` holds the workflow found under the key and the last generation of
/// its lineage.
pub fn plan_recoverable_start(
    prepared: &PreparedWorkflowStart,
    options: StartOptions,
    lineage: Option<(&WorkflowRow, WorkflowRow)>,
    now: i64,
) -> (result: Result<RecoverablePlan, DurableError>)
    ensures
        match (options@.deduplication_key, lineage) {
            (Some(_), Some((original, latest))) => if !recoverable_end(latest@.status) {
                match result {
                    Ok(plan) => latest@.id > 0 && (plan matches RecoverablePlan::Existing(outcome)
                        && outcome.workflow_id@ == latest@.id && !outcome.inserted),
                    Err(error) => latest@.id <= 0 && error@ == ErrorModel::InvalidId(
                        latest@.id as int,
                    ),
                }
            } else {
                let root = root_of(original@);
                match result {
                    Ok(plan) => root > 0 && latest@.id > 0 && (plan matches RecoverablePlan::Supersede {
                        cancelled,
                        insert,
                    } && insert@ == started_workflow(
                        prepared@,
                        successor_options(options@, root, latest@.id),
                        now,
                    ) && match cancelled {
                        Some((next, event)) => latest@.status == WorkflowStatus::Blocked && next@
                            == superseded(latest@, now) && event@ == superseded_event(
                            latest@.id,
                            now,
                        ),
                        None => latest@.status == WorkflowStatus::Failed,
                    }),
                    Err(error) => if latest@.id <= 0 && (root > 0 || latest@.status
                        == WorkflowStatus::Blocked) {
                        error@ == ErrorModel::InvalidId(latest@.id as int)
                    } else {
                        root <= 0 && error@ == ErrorModel::InvalidId(root as int)
                    },
                }
            },
            _ => result matches Ok(RecoverablePlan::Insert(row)) && row@ == started_workflow(
                prepared@,
                options@,
                now,
            ),
        },
{
    if options.deduplication_key.is_none() {
        return Ok(RecoverablePlan::Insert(workflow_row(prepared, &options, now)));
    }
    match lineage {
        None => Ok(RecoverablePlan::Insert(workflow_row(prepared, &options, now))),
        Some((original, latest)) => {
            let recovers = match latest.status {
                WorkflowStatus::Failed | WorkflowStatus::Blocked => true,
                _ => false,
            };
            if !recovers {
                return match start_outcome(latest.id, false) {
                    Ok(outcome) => Ok(RecoverablePlan::Existing(outcome)),
                    Err(error) => Err(error),
                };
            }
            if latest.status == WorkflowStatus::Blocked {
                match WorkflowId::new(latest.id) {
                    Ok(_) => {},
                    Err(error) => return Err(error),
                }
            }
            let root_id = match WorkflowId::new(lineage_root(original)) {
                Ok(id) => id,
                Err(error) => return Err(error),
            };
            let latest_id = match WorkflowId::new(latest.id) {
                Ok(id) => id,
                Err(error) => return Err(error),
            };
            let mut successor = options;
            successor.deduplication_key = None;
            successor.root_workflow_id = Some(root_id);
            successor.restarted_from_workflow_id = Some(latest_id);
            let insert = workflow_row(prepared, &successor, now);
            let cancelled = if latest.status == WorkflowStatus::Blocked {
                let mut next = latest;
                let event = EventDraft {
                    workflow_id: next.id,
                    delivery_sequence: None,
                    event_type: "workflow_superseded_by_recovery",
                    event: None,
                    actor_type: "system",
                    actor_id: None,
                    reason: Some("a successor recovery generation was started".to_owned()),
                    created_at: now,
                };
                next.status = WorkflowStatus::Cancelled;
                next.lease_owner = None;
                next.lease_token = None;
                next.lease_expires_at = None;
                next.updated_at = now;
                next.completed_at = Some(now);
                Some((next, event))
            } else {
                None
            };
            Ok(RecoverablePlan::Supersede { cancelled, insert })
        },
    }
}

/// The row of an activity that ends without a result.
pub open spec fn activity_cancelled(row: ActivityRowModel, now: i64) -> ActivityRowModel {
    ActivityRowModel {
        status: ActivityStatus::Cancelled,
        updated_at: now,
        completed_at: Some(now),
        ..lease::activity_unleased(row)
    }
}

fn cancelled_activity_row(row: ActivityRow, now: i64) -> (next: ActivityRow)
    ensures
        next@ == activity_cancelled(row@, now),
{
    let mut next = row;
    next.status = ActivityStatus::Cancelled;
    next.lease_owner = None;
    next.lease_token = None;
    next.lease_expires_at = None;
    next.updated_at = now;
    next.completed_at = Some(now);
    next
}

/// Cancels the dead letters of a superseded workflow; other activities are left alone.
pub fn cancel_dead_letter(row: ActivityRow, now: i64) -> (next: Option<ActivityRow>)
    ensures
        match next {
            Some(n) => row@.status == ActivityStatus::DeadLettered && n@ == activity_cancelled(
                row@,
                now,
            ),
            None => row@.status != ActivityStatus::DeadLettered,
        },
{
    if row.status == ActivityStatus::DeadLettered {
        Some(cancelled_activity_row(row, now))
    } else {
        None
    }
}

/// Whether a trimmed reason of so many bytes is accepted.
pub open spec fn is_reason(bytes: nat) -> bool {
    1 <= bytes <= MAX_ERROR_REASON_BYTES
}

/// Checks the reason of a cancellation and cuts off the white space around it.
pub fn cancellation_reason(reason: &str) -> (result: Result<String, DurableError>)
    ensures
        ({
            let bytes = text::utf8_len(text::trimmed(reason@));
            match result {
                Ok(cut) => is_reason(bytes) && cut@ == text::trimmed(reason@),
                Err(error) => !is_reason(bytes) && error@
                    == ErrorModel::InvalidDefinition(
                    "cancellation reason must contain 1 to "@ + numerals::decimal(
                        MAX_ERROR_REASON_BYTES as int,
                    ) + " bytes"@,
                ),
            }
        }),
{
    let cut = trim(reason);
    let bytes: usize = byte_len(cut.as_str());
    if bytes == 0 || bytes > MAX_ERROR_REASON_BYTES {
        return Err(
            DurableError::InvalidDefinition(
                join3(
                    "cancellation reason must contain 1 to ",
                    decimal_u64(MAX_ERROR_REASON_BYTES as u64).as_str(),
                    " bytes",
                ),
            ),
        );
    }
    Ok(cut)
}

/// What cancelling a workflow writes to it, and how its parents see its end.
#[derive(Debug)]
pub struct Cancellation {
    pub next: WorkflowRow,
    pub event: EventDraft,
    pub ended: ChildOutcome,
    /// The recorded end of the attempts that were running.
    pub attempt_outcome: &'static str,
}

/// The row of a cancelled workflow.
pub open spec fn workflow_cancelled(row: WorkflowRowModel, now: i64) -> WorkflowRowModel {
    WorkflowRowModel {
        status: WorkflowStatus::Cancelled,
        wait_kind: None,
        wait_reference_id: None,
        updated_at: now,
        completed_at: Some(now),
        ..lease::workflow_unleased(row)
    }
}

/// The history entry of a cancelled workflow.
pub open spec fn cancelled_event(
    workflow_id: i64,
    reason: Seq<char>,
    operator_id: Option<Seq<char>>,
    now: i64,
) -> EventDraftModel {
    EventDraftModel {
        workflow_id,
        delivery_sequence: None,
        event_type: "workflow_cancelled"@,
        event: None,
        actor_type: if operator_id is Some {
            "operator"@
        } else {
            "system"@
        },
        actor_id: operator_id,
        reason: Some(reason),
        created_at: now,
    }
}

/// Cancels a workflow that has not ended; gives nothing for one that has, so
/// that cancelling twice is the same as cancelling once.
pub fn cancel_workflow(
    workflow: WorkflowRow,
    reason: &str,
    operator_id: Option<&str>,
    now: i64,
) -> (result: Result<Option<Cancellation>, DurableError>)
    ensures
        match result {
            Ok(None) => status::workflow_ended(workflow@.status),
            Ok(Some(plan)) => {
                &&& !status::workflow_ended(workflow@.status)
                &&& workflow@.id > 0
                &&& plan.next@ == workflow_cancelled(workflow@, now)
                &&& plan.event@ == cancelled_event(
                    workflow@.id,
                    reason@,
                    text::opt_str(operator_id),
                    now,
                )
                &&& plan.ended@ == (ChildOutcomeModel::Failed {
                    category: "child_cancelled"@,
                    message: reason@,
                })
                &&& plan.attempt_outcome@ == (if operator_id is Some {
                    "operator_cancelled"@
                } else {
                    "application_cancelled"@
                })
            },
            Err(error) => !status::workflow_ended(workflow@.status) && workflow@.id <= 0 && error@
                == ErrorModel::InvalidId(workflow@.id as int),
        },
{
    if is_terminal(workflow.status) {
        return Ok(None);
    }
    match WorkflowId::new(workflow.id) {
        Ok(_) => {},
        Err(error) => return Err(error),
    }
    let event = EventDraft {
        workflow_id: workflow.id,
        delivery_sequence: None,
        event_type: "workflow_cancelled",
        event: None,
        actor_type: if operator_id.is_some() {
            "operator"
        } else {
            "system"
        },
        actor_id: text::opt_owned(operator_id),
        reason: Some(reason.to_owned()),
        created_at: now,
    };
    let mut next = workflow;
    next.status = WorkflowStatus::Cancelled;
    next.wait_kind = None;
    next.wait_reference_id = None;
    next.lease_owner = None;
    next.lease_token = None;
    next.lease_expires_at = None;
    next.updated_at = now;
    next.completed_at = Some(now);
    Ok(
        Some(
            Cancellation {
                next,
                event,
                ended: ChildOutcome::Failed {
                    category: "child_cancelled".to_owned(),
                    message: reason.to_owned(),
                },
                attempt_outcome: if operator_id.is_some() {
                    "operator_cancelled"
                } else {
                    "application_cancelled"
                },
            },
        ),
    )
}

/// What cancelling an activity writes.
#[derive(Debug)]
pub struct ActivityCancellation {
    pub next: ActivityRow,
    /// How the running attempt is closed, where there is one.
    pub attempt: Option<AttemptClose>,
}

/// Whether an activity has not ended.
pub open spec fn activity_open(status: ActivityStatus) -> bool {
    status == ActivityStatus::Pending || status == ActivityStatus::Running
}

/// How an attempt is closed that something other than its worker ends.
pub open spec fn attempt_closed(
    outcome: Seq<char>,
    reason: Seq<char>,
    now: i64,
) -> AttemptCloseModel {
    AttemptCloseModel {
        finished_at: now,
        outcome,
        error_category: Some(outcome),
        error_message: Some(reason),
        provider_result_json: None,
    }
}

/// Closes the attempt of a running activity from outside its worker.
pub fn close_attempt(activity: &ActivityRow, outcome: &'static str, reason: &str, now: i64) -> (
result: Result<AttemptClose, DurableError>)
    ensures
        match result {
            Ok(close) => activity@.lease_token is Some && close@ == attempt_closed(
                outcome@,
                reason@,
                now,
            ),
            Err(error) => activity@.lease_token is None && error@ == ErrorModel::InvalidState(
                "running activity "@ + numerals::decimal(activity@.id as int)
                    + " has no lease token"@,
            ),
        },
{
    if activity.lease_token.is_none() {
        return Err(
            DurableError::InvalidState(
                join3("running activity ", decimal_i64(activity.id).as_str(), " has no lease token"),
            ),
        );
    }
    Ok(
        AttemptClose {
            finished_at: now,
            outcome,
            error_category: Some(outcome.to_owned()),
            error_message: Some(reason.to_owned()),
            provider_result_json: None,
        },
    )
}

/// Cancels one activity of a workflow that ends; gives nothing for one that has ended.
pub fn cancel_activity(
    activity: ActivityRow,
    attempt_outcome: &'static str,
    reason: &str,
    now: i64,
) -> (result: Result<Option<ActivityCancellation>, DurableError>)
    ensures
        match result {
            Ok(None) => !activity_open(activity@.status),
            Ok(Some(plan)) => {
                &&& activity_open(activity@.status)
                &&& plan.next@ == activity_cancelled(activity@, now)
                &&& match plan.attempt {
                    Some(close) => activity@.status == ActivityStatus::Running && close@
                        == attempt_closed(attempt_outcome@, reason@, now),
                    None => activity@.status == ActivityStatus::Pending,
                }
            },
            Err(error) => activity@.status == ActivityStatus::Running && activity@.lease_token is None
                && error@ == ErrorModel::InvalidState(
                "running activity "@ + numerals::decimal(activity@.id as int)
                    + " has no lease token"@,
            ),
        },
{
    match activity.status {
        ActivityStatus::Running => match close_attempt(&activity, attempt_outcome, reason, now) {
            Ok(close) => Ok(
                Some(
                    ActivityCancellation {
                        next: cancelled_activity_row(activity, now),
                        attempt: Some(close),
                    },
                ),
            ),
            Err(error) => Err(error),
        },
        ActivityStatus::Pending => Ok(
            Some(
                ActivityCancellation { next: cancelled_activity_row(activity, now), attempt: None },
            ),
        ),
        _ => Ok(None),
    }
}

/// The row of an approval that is no longer needed.
pub open spec fn approval_cancelled(
    approval: ApprovalRowModel,
    reason: Seq<char>,
    now: i64,
) -> ApprovalRowModel {
    ApprovalRowModel {
        status: "cancelled"@,
        operator_reason: Some(reason),
        resolved_at: Some(now),
        ..approval
    }
}

/// Cancels one approval of a workflow that ends; gives nothing where it is not pending.
pub fn cancel_approval(approval: ApprovalRow, reason: &str, now: i64) -> (next: Option<ApprovalRow>)
    ensures
        match next {
            Some(n) => approval@.status == "pending"@ && n@ == approval_cancelled(
                approval@,
                reason@,
                now,
            ),
            None => approval@.status != "pending"@,
        },
{
    if !same_text(approval.status.as_str(), "pending") {
        return None;
    }
    let mut next = approval;
    next.status = "cancelled".to_owned();
    next.operator_reason = Some(reason.to_owned());
    next.resolved_at = Some(now);
    Some(next)
}

/// The stored row of an inserted workflow.
pub open spec fn inserted_workflow(new: NewWorkflowRowModel, id: i64) -> WorkflowRowModel {
    WorkflowRowModel {
        id,
        kind: new.kind,
        version: new.version,
        input_json: new.input_json,
        state_json: new.state_json,
        state_version: new.state_version,
        status: new.status,
        result_json: new.result_json,
        error_category: new.error_category,
        error_message: new.error_message,
        wait_kind: new.wait_kind,
        wait_reference_id: new.wait_reference_id,
        available_at: new.available_at,
        activation_attempts: new.activation_attempts,
        max_activation_attempts: new.max_activation_attempts,
        consecutive_continuations: new.consecutive_continuations,
        lease_owner: new.lease_owner,
        lease_token: new.lease_token,
        lease_expires_at: new.lease_expires_at,
        deduplication_key: new.deduplication_key,
        schedule_run_id: new.schedule_run_id,
        root_workflow_id: new.root_workflow_id,
        restarted_from_workflow_id: new.restarted_from_workflow_id,
        parent_workflow_id: new.parent_workflow_id,
        parent_command_sequence: new.parent_command_sequence,
        command_sequence: new.command_sequence,
        delivered_event_sequence: new.delivered_event_sequence,
        created_at: new.created_at,
        updated_at: new.updated_at,
        completed_at: new.completed_at,
    }
}

/// Whether a stored workflow is the one that a kind and deduplication key stand for.
pub open spec fn has_key(row: WorkflowRowModel, kind: Seq<char>, key: Seq<char>) -> bool {
    row.kind == kind && row.deduplication_key == Some(key)
}

/// Whether at most one stored workflow has a given kind and key.
pub open spec fn unique_keys(table: Seq<WorkflowRowModel>) -> bool {
    forall|i: int, j: int, kind: Seq<char>, key: Seq<char>|
        #![trigger has_key(table[i], kind, key), has_key(table[j], kind, key)]
        0 <= i < table.len() && 0 <= j < table.len() && has_key(table[i], kind, key) && has_key(
            table[j],
            kind,
            key,
        ) ==> i == j
}

/// Starting is idempotent: a start that inserts is found by every later start
/// of the same kind and key, and the table keeps at most one workflow per kind
/// and key. Keys and kinds are the same only character by character.
pub proof fn law_started_workflow_is_found_again(
    table: Seq<WorkflowRowModel>,
    prepared: PreparedModel,
    options: OptionsModel,
    id: i64,
    now: i64,
)
    requires
        unique_keys(table),
        options.deduplication_key is Some,
        forall|i: int|
            0 <= i < table.len() ==> !has_key(
                #[trigger] table[i],
                prepared.kind,
                options.deduplication_key->0,
            ),
    ensures
        ({
            let row = inserted_workflow(started_workflow(prepared, options, now), id);
            let grown = table.push(row);
            &&& unique_keys(grown)
            &&& has_key(grown[table.len() as int], prepared.kind, options.deduplication_key->0)
            &&& forall|i: int|
                0 <= i < grown.len() && has_key(
                    #[trigger] grown[i],
                    prepared.kind,
                    options.deduplication_key->0,
                ) ==> grown[i].id == id
        }),
{
    let key = options.deduplication_key->0;
    let row = inserted_workflow(started_workflow(prepared, options, now), id);
    let grown = table.push(row);
    let last = table.len() as int;
    assert(grown[last] == row);
    assert forall|i: int, j: int, kind: Seq<char>, other: Seq<char>|
        #![trigger has_key(grown[i], kind, other), has_key(grown[j], kind, other)]
        0 <= i < grown.len() && 0 <= j < grown.len() && has_key(grown[i], kind, other) && has_key(
            grown[j],
            kind,
            other,
        ) implies i == j by {
        if i < last && j < last {
            assert(has_key(table[i], kind, other) && has_key(table[j], kind, other));
        } else if i < last {
            assert(!has_key(table[i], prepared.kind, key));
        } else if j < last {
            assert(!has_key(table[j], prepared.kind, key));
        }
    }
    assert forall|i: int|
        0 <= i < grown.len() && has_key(#[trigger] grown[i], prepared.kind, key) implies grown[i].id
        == id by {
        if i < last {
            assert(grown[i] == table[i]);
        }
    }
}

/// A recovered lineage keeps its root: the successor belongs to the lineage of
/// the workflow that the key stands for, and it never takes the key itself.
pub proof fn law_successor_stays_in_its_lineage(
    prepared: PreparedModel,
    options: OptionsModel,
    original: WorkflowRowModel,
    latest: WorkflowRowModel,
    id: i64,
    now: i64,
)
    requires
        root_of(original) > 0,
        latest.id > 0,
    ensures
        ({
            let row = inserted_workflow(
                started_workflow(
                    prepared,
                    successor_options(options, root_of(original), latest.id),
                    now,
                ),
                id,
            );
            &&& root_of(row) == root_of(original)
            &&& row.restarted_from_workflow_id == Some(latest.id)
            &&& row.deduplication_key is None
        }),
{
}

/// The row that a start inserts carries what was prepared, each under its own name:
/// the kind, the version, the input and the initial state; and what was chosen: the
/// key, when it may run, the schedule run and the lineage. It has not run yet.
pub proof fn law_start_carries_what_was_prepared(
    prepared: PreparedModel,
    options: OptionsModel,
    id: i64,
    now: i64,
)
    ensures
        ({
            let row = inserted_workflow(started_workflow(prepared, options, now), id);
            &&& row.id == id
            &&& row.kind == prepared.kind
            &&& row.version == prepared.version
            &&& row.input_json == prepared.input_json
            &&& row.state_json == prepared.state_json
            &&& row.deduplication_key == options.deduplication_key
            &&& options.available_at matches Some(at) ==> row.available_at == at
            &&& options.available_at is None ==> row.available_at == now
            &&& row.schedule_run_id is Some <==> options.schedule_run_id is Some
            &&& options.schedule_run_id matches Some(run) ==> i64::MIN <= run <= i64::MAX
                ==> row.schedule_run_id->0 == run
            &&& row.root_workflow_id is Some <==> options.root_workflow_id is Some
            &&& options.root_workflow_id matches Some(root) ==> i64::MIN <= root <= i64::MAX
                ==> row.root_workflow_id->0 == root
            &&& row.restarted_from_workflow_id is Some
                <==> options.restarted_from_workflow_id is Some
            &&& options.restarted_from_workflow_id matches Some(from) ==> i64::MIN <= from
                <= i64::MAX ==> row.restarted_from_workflow_id->0 == from
            &&& row.parent_workflow_id is None
            &&& row.parent_command_sequence is None
            &&& is_untouched(row)
            &&& row.created_at == now
        }),
{
}

/// A workflow that nothing has happened to: ready, at the first version of its state,
/// with no command given, no event told, no attempt made and no end.
pub open spec fn is_untouched(row: WorkflowRowModel) -> bool {
    &&& row.status == WorkflowStatus::Ready
    &&& row.state_version == 1
    &&& row.command_sequence == 0
    &&& row.delivered_event_sequence == 0
    &&& row.activation_attempts == 0
    &&& row.consecutive_continuations == 0
    &&& row.wait_kind is None
    &&& row.wait_reference_id is None
    &&& row.result_json is None
    &&& row.error_category is None
    &&& row.error_message is None
    &&& row.completed_at is None
    &&& row.max_activation_attempts == 8
    &&& lease::workflow_lease_consistent(row)
}

/// The row of a child carries its command, each part under its own name, and is
/// bound to the parent's command and lineage; a child may run at once.
pub proof fn law_child_carries_its_command(
    command: ChildWorkflowCommand,
    deduplication_key: Seq<char>,
    parent_workflow_id: i64,
    parent_command_sequence: i32,
    root_workflow_id: i64,
    id: i64,
    now: i64,
)
    ensures
        ({
            let row = inserted_workflow(
                child_workflow(
                    command,
                    deduplication_key,
                    parent_workflow_id,
                    parent_command_sequence,
                    root_workflow_id,
                    now,
                ),
                id,
            );
            &&& row.id == id
            &&& row.kind == command.kind@
            &&& row.version == command.version
            &&& row.input_json == command.input_json@
            &&& row.state_json == command.state_json@
            &&& row.deduplication_key == Some(deduplication_key)
            &&& row.parent_workflow_id == Some(parent_workflow_id)
            &&& row.parent_command_sequence == Some(parent_command_sequence)
            &&& row.root_workflow_id == Some(root_workflow_id)
            &&& row.schedule_run_id is None
            &&& row.restarted_from_workflow_id is None
            &&& row.available_at == now
            &&& row.created_at == now
            &&& is_untouched(row)
        }),
{
}

/// A stored workflow has everything that its inserted row had.
pub proof fn law_insert_keeps_the_row(new: NewWorkflowRowModel, id: i64)
    ensures
        ({
            let row = inserted_workflow(new, id);
            &&& row.id == id
            &&& row.kind == new.kind && row.version == new.version
            &&& row.input_json == new.input_json && row.state_json == new.state_json
            &&& row.state_version == new.state_version && row.status == new.status
            &&& row.result_json == new.result_json
            &&& row.error_category == new.error_category
            &&& row.error_message == new.error_message
            &&& row.wait_kind == new.wait_kind && row.wait_reference_id == new.wait_reference_id
            &&& row.available_at == new.available_at
            &&& row.activation_attempts == new.activation_attempts
            &&& row.max_activation_attempts == new.max_activation_attempts
            &&& row.consecutive_continuations == new.consecutive_continuations
            &&& row.lease_owner == new.lease_owner && row.lease_token == new.lease_token
            &&& row.lease_expires_at == new.lease_expires_at
            &&& row.deduplication_key == new.deduplication_key
            &&& row.schedule_run_id == new.schedule_run_id
            &&& row.root_workflow_id == new.root_workflow_id
            &&& row.restarted_from_workflow_id == new.restarted_from_workflow_id
            &&& row.parent_workflow_id == new.parent_workflow_id
            &&& row.parent_command_sequence == new.parent_command_sequence
            &&& row.command_sequence == new.command_sequence
            &&& row.delivered_event_sequence == new.delivered_event_sequence
            &&& row.created_at == new.created_at && row.updated_at == new.updated_at
            &&& row.completed_at == new.completed_at
        }),
{
}

/// A start is accepted exactly where its kind is named, its version is positive, its
/// key, if any, has an acceptable length and does not stand beside a restart, and both
/// payloads fit.
pub proof fn law_start_is_refused_only_for_a_reason(
    kind: Seq<char>,
    version: i32,
    input_json: Seq<char>,
    state_json: Seq<char>,
    options: OptionsModel,
)
    ensures
        start_error(kind, version, input_json, state_json, options) is None <==> {
            &&& kind.len() > 0
            &&& version > 0
            &&& options.deduplication_key matches Some(key) ==> 1 <= key.len() <= 191
                && options.restarted_from_workflow_id is None
            &&& text::utf8_len(input_json) <= 256 * 1024
            &&& text::utf8_len(state_json) <= 256 * 1024
        },
{
}

/// A child is shared with an earlier one under its key only where that has the same
/// version; otherwise the two definitions are named, each on its side.
pub proof fn law_shared_child_has_the_same_version(
    command: ChildWorkflowCommand,
    deduplication_key: Seq<char>,
    found: WorkflowRowModel,
)
    requires
        1 <= deduplication_key.len() <= 191,
        found.id > 0,
    ensures
        ({
            let refusal = child_error(command, deduplication_key, Some(found));
            &&& refusal is None <==> found.version == command.version
            &&& refusal matches Some(error) ==> error == (ErrorModel::DefinitionMismatch {
                actual_kind: found.kind,
                actual_version: found.version as int,
                expected_kind: command.kind@,
                expected_version: command.version as int,
            })
            &&& child_error(command, deduplication_key, None) is None
        }),
{
}

/// A lineage is that of the first workflow: restarting a restart names the same root,
/// and a workflow that is no restart is its own root.
pub proof fn law_lineage_has_one_root(original: WorkflowRowModel, successor: WorkflowRowModel)
    requires
        successor.root_workflow_id == Some(root_of(original)),
    ensures
        root_of(successor) == root_of(original),
        original.root_workflow_id is None ==> root_of(original) == original.id,
        original.root_workflow_id matches Some(root) ==> root_of(original) == root,
{
}

/// A workflow that a successor replaces is cancelled now and no longer leased; who it
/// is, how far it came and why it was blocked stay in its row.
pub proof fn law_superseded_workflow_is_kept(row: WorkflowRowModel, now: i64)
    ensures
        ({
            let next = superseded(row, now);
            let event = superseded_event(row.id, now);
            &&& models::same_workflow(row, next)
            &&& models::same_progress(row, next)
            &&& models::same_wait(row, next)
            &&& models::same_end(row, next)
            &&& next.available_at == row.available_at
            &&& next.activation_attempts == row.activation_attempts
            &&& next.consecutive_continuations == row.consecutive_continuations
            &&& next.status == WorkflowStatus::Cancelled
            &&& next.completed_at == Some(now)
            &&& next.updated_at == now
            &&& lease::workflow_lease_consistent(next)
            &&& !recoverable_end(next.status)
            &&& event.workflow_id == row.id
            &&& event.delivery_sequence is None
            &&& event.event is None
            &&& event.created_at == now
        }),
{
}

/// A cancelled workflow has ended now, waits for nothing and is not leased; who it is,
/// how far it came and what it had produced stay in its row. It cannot be cancelled
/// again. The history names the reason and the operator, where there is one.
pub proof fn law_cancelled_workflow_is_kept(
    row: WorkflowRowModel,
    reason: Seq<char>,
    operator_id: Option<Seq<char>>,
    now: i64,
)
    ensures
        ({
            let next = workflow_cancelled(row, now);
            let event = cancelled_event(row.id, reason, operator_id, now);
            &&& models::same_workflow(row, next)
            &&& models::same_progress(row, next)
            &&& models::same_end(row, next)
            &&& next.available_at == row.available_at
            &&& next.activation_attempts == row.activation_attempts
            &&& next.consecutive_continuations == row.consecutive_continuations
            &&& next.status == WorkflowStatus::Cancelled
            &&& status::workflow_ended(next.status)
            &&& next.wait_kind is None && next.wait_reference_id is None
            &&& next.completed_at == Some(now)
            &&& next.updated_at == now
            &&& lease::workflow_lease_consistent(next)
            &&& event.workflow_id == row.id
            &&& event.delivery_sequence is None
            &&& event.event is None
            &&& event.reason == Some(reason)
            &&& event.actor_id == operator_id
            &&& event.created_at == now
        }),
        operator_id is Some ==> cancelled_event(row.id, reason, operator_id, now).actor_type
            == "operator"@,
        operator_id is None ==> cancelled_event(row.id, reason, operator_id, now).actor_type
            == "system"@,
{
}

/// A cancelled activity has ended now and is not leased; what it was asked to do, its
/// attempts and what they left stay in its row. Only activities that have not ended
/// are cancelled.
pub proof fn law_cancelled_activity_is_kept(row: ActivityRowModel, now: i64)
    ensures
        ({
            let next = activity_cancelled(row, now);
            &&& models::same_activity(row, next)
            &&& next.attempt_count == row.attempt_count
            &&& next.available_at == row.available_at
            &&& next.provider_result_json == row.provider_result_json
            &&& next.last_error_category == row.last_error_category
            &&& next.last_error_message == row.last_error_message
            &&& next.status == ActivityStatus::Cancelled
            &&& !activity_open(next.status)
            &&& next.completed_at == Some(now)
            &&& next.updated_at == now
            &&& lease::activity_lease_consistent(next)
        }),
        activity_open(row.status) <==> row.status == ActivityStatus::Pending || row.status
            == ActivityStatus::Running,
        activity_open(row.status) ==> !status::activity_ended(row.status),
{
}

/// An attempt that something other than its worker ends is closed now, under the name
/// of what ended it and with its reason, and gives no result.
pub proof fn law_closed_attempt_names_its_end(outcome: Seq<char>, reason: Seq<char>, now: i64)
    ensures
        ({
            let close = attempt_closed(outcome, reason, now);
            &&& close.finished_at == now
            &&& close.outcome == outcome
            &&& close.error_category == Some(outcome)
            &&& close.error_message == Some(reason)
            &&& close.provider_result_json is None
        }),
{
}

/// A cancelled approval says why and when; the question and its bounds stay as they
/// were, and nothing counts as decided.
pub proof fn law_cancelled_approval_is_kept(
    approval: ApprovalRowModel,
    reason: Seq<char>,
    now: i64,
)
    ensures
        ({
            let next = approval_cancelled(approval, reason, now);
            &&& models::same_approval(approval, next)
            &&& next.status == "cancelled"@
            &&& next.operator_reason == Some(reason)
            &&& next.resolved_at == Some(now)
            &&& next.decision_payload_json == approval.decision_payload_json
            &&& next.decided_by == approval.decided_by
        }),
{
}

/// A reason has 1 to 2048 bytes.
pub proof fn law_reasons_are_bounded(bytes: nat)
    ensures
        is_reason(bytes) <==> 1 <= bytes <= 2048,
{
}

/// A start without options is made at once, under no key, and as the first of its lineage.
pub proof fn law_plain_start_asks_for_nothing()
    ensures
        no_options().deduplication_key is None,
        no_options().available_at is None,
        no_options().schedule_run_id is None,
        no_options().root_workflow_id is None,
        no_options().restarted_from_workflow_id is None,
{
}

} // verus!
