//! Claiming workflows, and committing what their activation asks for.
use vstd::prelude::*;
use crate::arith;
use crate::arith::{duration_millis, limit_i32, min_i32, next_i32, saturating_sum};
use crate::duration::Duration;
use crate::error;
use crate::error::{invalid_definition, invalid_state, DurableError, ErrorModel, WorkflowError};
use crate::ids::WorkflowId;
use crate::numerals;
use crate::numerals::{decimal_i64, decimal_u64};
use crate::persistence::events;
use crate::persistence::events::{history_event, EventDraft};
use crate::persistence::models;
use crate::persistence::models::{
    ActivityRowModel, ApprovalRowModel, NewActivityRow, NewActivityRowModel, NewApprovalRow,
    NewApprovalRowModel, WorkflowEventRow, WorkflowEventRowModel, WorkflowRow, WorkflowRowModel,
};
use crate::persistence::status::{ActivityStatus, WorkflowStatus};
use crate::persistence::workflows;
use crate::policy;
use crate::policy::{deterministic_jitter_percentile, BackoffPolicy, RetryPolicy};
use crate::registry::{ActivityEntry, ActivityRegistry, WorkflowRegistry};
use crate::runtime::activity_worker;
use crate::runtime::fencing;
use crate::runtime::lease;
use crate::runtime::lease::{fresh_lease_token, has_expired, workflow_lease_expiry};
use crate::runtime::temporal;
use crate::text;
use crate::text::{join3, join5, same_text};
use crate::transition::{
    ActivityCommand, ChildOutcome, ChildOutcomeModel, ChildWorkflowCommand, StoredTransition,
    CONTINUATION_READY_AT_MILLIS,
};

verus! {

/// How many candidate rows one scan reads at a time.
pub const CLAIM_PAGE_SIZE: usize = 32;

/// The bounds that a coordinator works within.
#[derive(Debug, Clone, Copy)]
pub struct CoordinatorConfig {
    pub lease_duration: Duration,
    pub max_activation_attempts: u32,
    pub activation_retry_policy: RetryPolicy,
    pub max_consecutive_continuations: u32,
    pub continuation_delay: Duration,
}

impl Default for CoordinatorConfig {
    fn default() -> (config: Self)
        ensures
            config.lease_duration@ == 30_000_000_000,
            config.max_activation_attempts == 8,
            config.activation_retry_policy.spec_backoff() == (BackoffPolicy::Exponential {
                initial_secs: 1,
                max_secs: 60,
                jitter_percent: 20,
            }),
            config.max_consecutive_continuations == 16,
            config.continuation_delay@ == 100_000_000,
    {
        CoordinatorConfig {
            lease_duration: Duration::from_secs(30),
            max_activation_attempts: 8,
            activation_retry_policy: RetryPolicy::from_validated(
                BackoffPolicy::Exponential { initial_secs: 1, max_secs: 60, jitter_percent: 20 },
            ),
            max_consecutive_continuations: 16,
            continuation_delay: Duration::from_millis(100),
        }
    }
}

/// Refuses an empty worker name and bounds of zero.
pub fn validate_coordinator(worker_id: &str, config: &CoordinatorConfig) -> (result: Result<
    (),
    DurableError,
>)
    ensures
        ({
            let valid = worker_id@.len() > 0 && config.lease_duration@ > 0
                && config.max_activation_attempts > 0 && config.max_consecutive_continuations > 0
                && config.continuation_delay@ > 0;
            match result {
                Ok(()) => valid,
                Err(error) => !valid && error@ == ErrorModel::InvalidDefinition(
                    "coordinator identity and bounds must be non-zero"@,
                ),
            }
        }),
{
    if worker_id.is_empty() || config.lease_duration.is_zero() || config.max_activation_attempts
        == 0 || config.max_consecutive_continuations == 0 || config.continuation_delay.is_zero() {
        return Err(invalid_definition("coordinator identity and bounds must be non-zero"));
    }
    Ok(())
}

/// A workflow that a coordinator holds the lease of.
#[derive(Debug, Clone)]
pub struct WorkflowClaim {
    row: WorkflowRow,
    lease_token: String,
}

impl WorkflowClaim {
    /// The claimed row.
    pub closed spec fn spec_row(&self) -> WorkflowRowModel {
        self.row@
    }

    /// The token of the lease.
    pub closed spec fn spec_token(&self) -> Seq<char> {
        self.lease_token@
    }

    /// A claim of a row under a lease token.
    pub fn new(row: WorkflowRow, lease_token: String) -> (claim: Self)
        ensures
            claim.spec_row() == row@,
            claim.spec_token() == lease_token@,
    {
        WorkflowClaim { row, lease_token }
    }

    /// The claimed row.
    pub fn row(&self) -> (row: &WorkflowRow)
        ensures
            row@ == self.spec_row(),
    {
        &self.row
    }

    /// The identifier of the claimed workflow.
    pub fn workflow_id(&self) -> (result: Result<WorkflowId, DurableError>)
        ensures
            match result {
                Ok(id) => self.spec_row().id > 0 && id@ == self.spec_row().id,
                Err(error) => self.spec_row().id <= 0 && error@ == ErrorModel::InvalidId(
                    self.spec_row().id as int,
                ),
            },
    {
        WorkflowId::new(self.row.id)
    }

    /// The token of the lease.
    pub fn lease_token(&self) -> (token: &str)
        ensures
            token@ == self.spec_token(),
    {
        self.lease_token.as_str()
    }
}

/// Whether a running workflow's lease has run out, so that it may be recovered.
pub open spec fn recoverable(row: WorkflowRowModel, now: i64) -> bool {
    row.status == WorkflowStatus::Running && lease::lease_expired(row.lease_expires_at, now)
}

/// Whether a running workflow's lease has run out, so that it may be recovered.
pub fn is_recoverable(row: &WorkflowRow, now: i64) -> (yes: bool)
    ensures
        yes == recoverable(row@, now),
{
    row.status == WorkflowStatus::Running && has_expired(row.lease_expires_at, now)
}

/// The row of a workflow whose lease was taken away.
pub open spec fn lease_recovered(row: WorkflowRowModel, now: i64) -> WorkflowRowModel {
    WorkflowRowModel {
        status: WorkflowStatus::Ready,
        available_at: now,
        updated_at: now,
        ..lease::workflow_unleased(row)
    }
}

/// Where the page behind a page of expired leases begins, if there may be one.
pub open spec fn page_behind(page: Seq<(i64, i64)>) -> Option<(i64, i64)> {
    if page.len() < CLAIM_PAGE_SIZE {
        None
    } else {
        Some(page.last())
    }
}

/// Where the scan for leases that ran out goes on behind a page in which no row
/// could be locked: behind its last row, where the page is full.
pub fn next_expired_page(page: &Vec<(i64, i64)>) -> (after: Option<(i64, i64)>)
    ensures
        after == page_behind(page@),
{
    if page.len() < CLAIM_PAGE_SIZE {
        None
    } else {
        Some(page[page.len() - 1])
    }
}

/// Takes an expired lease away: the workflow is ready again at once.
pub fn recover_lease(row: WorkflowRow, now: i64) -> (recovered: (WorkflowRow, EventDraft))
    ensures
        recovered.0@ == lease_recovered(row@, now),
        recovered.1@ == events::history_model(row@.id, "lease_recovered"@, now),
{
    let mut next = row;
    let event = history_event(next.id, "lease_recovered", now);
    next.status = WorkflowStatus::Ready;
    next.available_at = now;
    next.lease_owner = None;
    next.lease_token = None;
    next.lease_expires_at = None;
    next.updated_at = now;
    (next, event)
}

/// Whether a workflow may be claimed now.
pub open spec fn claimable(row: WorkflowRowModel, now: i64) -> bool {
    row.status == WorkflowStatus::Ready && row.available_at <= now
}

/// Whether a workflow may be claimed now by a process that knows the given definitions.
pub fn is_claimable<H>(row: &WorkflowRow, registry: &WorkflowRegistry<H>, now: i64) -> (yes: bool)
    ensures
        yes == (claimable(row@, now) && registry@.contains_key((row@.kind, row@.version as int))),
{
    row.status == WorkflowStatus::Ready && row.available_at <= now && registry.contains(
        row.kind.as_str(),
        row.version,
    )
}

/// The row of a workflow claimed under a token until `expiry`.
pub open spec fn claimed(
    row: WorkflowRowModel,
    worker_id: Seq<char>,
    token: Seq<char>,
    expiry: i64,
    now: i64,
) -> WorkflowRowModel {
    WorkflowRowModel {
        status: WorkflowStatus::Running,
        lease_owner: Some(worker_id),
        lease_token: Some(token),
        lease_expires_at: Some(expiry),
        updated_at: now,
        ..row
    }
}

/// Claims a workflow under the given token.
pub fn claim_row(
    row: WorkflowRow,
    worker_id: &str,
    lease_token: String,
    lease_expires_at: i64,
    now: i64,
) -> (claim: WorkflowClaim)
    ensures
        claim.spec_row() == claimed(row@, worker_id@, lease_token@, lease_expires_at, now),
        claim.spec_token() == lease_token@,
{
    let mut next = row;
    next.status = WorkflowStatus::Running;
    next.lease_owner = Some(worker_id.to_owned());
    next.lease_token = Some(lease_token.clone());
    next.lease_expires_at = Some(lease_expires_at);
    next.updated_at = now;
    WorkflowClaim::new(next, lease_token)
}

/// When the lease of a workflow ends that is claimed now, or why it cannot be said.
pub open spec fn claim_expiry_of(config: CoordinatorConfig, now: i64) -> Result<i64, ErrorModel> {
    match arith::millis_of(config.lease_duration@) {
        None => Err(ErrorModel::InvalidDefinition("duration exceeds the database range"@)),
        Some(lease_millis) => if now + lease_millis > i64::MAX {
            Err(ErrorModel::InvalidDefinition("workflow lease timestamp overflow"@))
        } else {
            Ok((now + lease_millis) as i64)
        },
    }
}

/// When the lease of a workflow ends that is claimed now.
pub fn claim_expiry(config: &CoordinatorConfig, now: i64) -> (result: Result<i64, DurableError>)
    ensures
        error::result_model(result) == claim_expiry_of(*config, now),
{
    match duration_millis(config.lease_duration) {
        Ok(lease_millis) => workflow_lease_expiry(now, lease_millis),
        Err(error) => Err(error),
    }
}

/// Claims a workflow under a fresh token for the configured lease.
///
/// The row is fenced by whatever token was drawn.
pub fn claim_workflow(
    row: WorkflowRow,
    worker_id: &str,
    config: &CoordinatorConfig,
    now: i64,
) -> (result: Result<WorkflowClaim, DurableError>)
    ensures
        match claim_expiry_of(*config, now) {
            Err(refusal) => result matches Err(error) && error@ == refusal,
            Ok(expiry) => result matches Ok(claim) && claim.spec_row() == claimed(
                row@,
                worker_id@,
                claim.spec_token(),
                expiry,
                now,
            ) && claim.spec_token().len() == 36,
        },
{
    let lease_expires_at: i64 = match claim_expiry(config, now) {
        Ok(expiry) => expiry,
        Err(error) => return Err(error),
    };
    let token = fresh_lease_token();
    Ok(claim_row(row, worker_id, token, lease_expires_at, now))
}

/// The refusal to activate a workflow that has nothing to be told.
pub fn missing_event(workflow_id: WorkflowId) -> (error: DurableError)
    ensures
        error@ == ErrorModel::InvalidState(
            "claimed workflow "@ + numerals::decimal(workflow_id@) + " has no deliverable event"@,
        ),
{
    DurableError::InvalidState(
        join3("claimed workflow ", workflow_id.text().as_str(), " has no deliverable event"),
    )
}

/// Where the content of a stored event is.
#[derive(Debug)]
pub enum EventSource {
    Started,
    Continued,
    Json(String),
}

/// Whether an event is told from this source: the start and a continuation by themselves,
/// all others from what was recorded with them.
pub open spec fn is_source_of(event: WorkflowEventRowModel, source: EventSource) -> bool {
    match source {
        EventSource::Started => event.event_type == "started"@,
        EventSource::Continued => event.event_type != "started"@ && event.event_type
            == "continued"@,
        EventSource::Json(json) => event.event_type != "started"@ && event.event_type
            != "continued"@ && event.metadata_json == Some(json@),
    }
}

/// Whether nothing was recorded from which an event could be told.
pub open spec fn has_no_source(event: WorkflowEventRowModel) -> bool {
    event.event_type != "started"@ && event.event_type != "continued"@ && event.metadata_json is None
}

/// Finds the content of a stored event: its type alone, or its metadata as JSON.
pub fn decode_event(event: &WorkflowEventRow) -> (result: Result<EventSource, DurableError>)
    ensures
        match result {
            Ok(source) => is_source_of(event@, source),
            Err(error) => has_no_source(event@) && error@ == ErrorModel::InvalidState(
                "deliverable event "@ + event@.event_type + " has no metadata"@,
            ),
        },
{
    if same_text(event.event_type.as_str(), "started") {
        return Ok(EventSource::Started);
    }
    if same_text(event.event_type.as_str(), "continued") {
        return Ok(EventSource::Continued);
    }
    match &event.metadata_json {
        Some(json) => Ok(EventSource::Json(json.clone())),
        None => Err(
            DurableError::InvalidState(
                join3("deliverable event ", event.event_type.as_str(), " has no metadata"),
            ),
        ),
    }
}

/// Why a transition cannot be committed by a process with these registries.
pub open spec fn activation_problem<W, A>(
    transition: StoredTransition,
    workflows: Map<(Seq<char>, int), W>,
    activities: Map<(Seq<char>, int), ActivityEntry<A>>,
) -> Option<Seq<char>> {
    match transition {
        StoredTransition::RunChild { state_json, child } => if workflows.contains_key(
            (child.kind@, child.version as int),
        ) {
            None
        } else {
            Some(
                "child workflow "@ + child.kind@ + " v"@ + numerals::decimal(child.version as int)
                    + " is not registered"@,
            )
        },
        StoredTransition::RunActivity { state_json, activity } => {
            let key = (activity.kind@, activity.version as int);
            if !activities.contains_key(key) {
                Some(
                    "activity "@ + activity.kind@ + " v"@ + numerals::decimal(
                        activity.version as int,
                    ) + " is not registered"@,
                )
            } else if activities[key].topic@ != activity.topic@ {
                Some(
                    "activity "@ + activity.kind@ + " v"@ + numerals::decimal(
                        activity.version as int,
                    ) + " topic mismatch: command has "@ + error::debug_text(activity.topic@)
                        + ", registry has "@ + ("Some("@ + error::debug_text(activities[key].topic@)
                        + ")"@),
                )
            } else {
                None
            }
        },
        _ => None,
    }
}

/// Finds out whether a transition can be committed; otherwise says why not.
pub fn check_activation<W, A>(
    transition: &StoredTransition,
    workflows: &WorkflowRegistry<W>,
    activities: &ActivityRegistry<A>,
) -> (problem: Option<String>)
    ensures
        text::opt_text(problem) == activation_problem(*transition, workflows@, activities@),
{
    match transition {
        StoredTransition::RunChild { state_json: _, child } => {
            if workflows.contains(child.kind.as_str(), child.version) {
                None
            } else {
                Some(
                    join5(
                        "child workflow ",
                        child.kind.as_str(),
                        " v",
                        decimal_i64(child.version as i64).as_str(),
                        " is not registered",
                    ),
                )
            }
        },
        StoredTransition::RunActivity { state_json: _, activity } => {
            match activities.topic_for(activity.kind.as_str(), activity.version) {
                None => Some(
                    join5(
                        "activity ",
                        activity.kind.as_str(),
                        " v",
                        decimal_i64(activity.version as i64).as_str(),
                        " is not registered",
                    ),
                ),
                Some(topic) => {
                    if same_text(topic, activity.topic.as_str()) {
                        None
                    } else {
                        let mut message = join5(
                            "activity ",
                            activity.kind.as_str(),
                            " v",
                            decimal_i64(activity.version as i64).as_str(),
                            " topic mismatch: command has ",
                        );
                        message.append(error::quoted(activity.topic.as_str()).as_str());
                        message.append(", registry has ");
                        message.append(
                            join3("Some(", error::quoted(topic).as_str(), ")").as_str(),
                        );
                        Some(message)
                    }
                },
            }
        },
        _ => None,
    }
}

/// Whether a failed commit counts as a failed activation of the workflow; any
/// other error is handed to the supervisor.
pub fn is_activation_failure(error: &DurableError) -> (yes: bool)
    ensures
        yes == (error@ is DefinitionMismatch || error@ is InvalidDefinition),
{
    match error {
        DurableError::DefinitionMismatch {
            actual_kind: _,
            actual_version: _,
            expected_kind: _,
            expected_version: _,
        } => true,
        DurableError::InvalidDefinition(_) => true,
        _ => false,
    }
}

/// What a failed activation does to its workflow.
#[derive(Debug)]
pub struct ActivationFailure {
    pub next: WorkflowRow,
    pub event: EventDraft,
    /// How the workflow ended for its parents, where it has.
    pub ended: Option<ChildOutcome>,
}

/// The number of the activation attempt that failed.
pub open spec fn failed_attempt(row: WorkflowRowModel) -> i32 {
    arith::clamp32(row.activation_attempts + 1)
}

/// A non-negative attempt as an unsigned number; a negative one as the largest.
pub open spec fn unsigned_attempt(attempt: i32) -> u32 {
    if attempt < 0 {
        u32::MAX
    } else {
        attempt as u32
    }
}

/// Whether the failed attempt was the last one allowed.
pub open spec fn activation_exhausted(row: WorkflowRowModel, max_attempts: u32) -> bool {
    let configured = arith::clamp32(max_attempts as int);
    let limit = if row.max_activation_attempts <= configured {
        row.max_activation_attempts
    } else {
        configured
    };
    failed_attempt(row) >= limit
}

/// The row after a failed activation.
pub open spec fn activation_failed(
    row: WorkflowRowModel,
    exhausted: bool,
    delay_millis: i64,
    message: Seq<char>,
    now: i64,
) -> WorkflowRowModel {
    WorkflowRowModel {
        status: if exhausted {
            WorkflowStatus::Failed
        } else {
            WorkflowStatus::Ready
        },
        activation_attempts: failed_attempt(row),
        available_at: arith::clamp64(now + delay_millis),
        error_category: Some(
            text::utf8_prefix("activation"@, error::MAX_ERROR_CATEGORY_BYTES as nat),
        ),
        error_message: Some(text::utf8_prefix(message, crate::MAX_ERROR_REASON_BYTES as nat)),
        updated_at: now,
        completed_at: if exhausted {
            Some(now)
        } else {
            None
        },
        ..lease::workflow_unleased(row)
    }
}

/// The seed of the jitter of a failed activation.
pub open spec fn activation_seed(row: WorkflowRowModel) -> Seq<char> {
    "workflow:"@ + numerals::decimal(row.id as int) + ":activation:"@ + numerals::decimal(
        unsigned_attempt(failed_attempt(row)) as int,
    )
}

/// The delay before a failed activation is retried, in milliseconds, or why there is none.
pub open spec fn activation_delay(
    row: WorkflowRowModel,
    backoff: BackoffPolicy,
    percentile: int,
) -> Result<i64, ErrorModel> {
    let attempt = unsigned_attempt(failed_attempt(row)) as int;
    match policy::delay_error(attempt, percentile) {
        Some(text) => Err(ErrorModel::InvalidDefinition(text)),
        None => match arith::millis_of(
            (policy::delay_secs(backoff, attempt, percentile) * 1_000_000_000) as nat,
        ) {
            Some(millis) => Ok(millis),
            None => Err(ErrorModel::InvalidDefinition("duration exceeds the database range"@)),
        },
    }
}

/// What a failed activation does, at a given jitter percentile.
pub open spec fn activation_failure_is(
    failure: ActivationFailure,
    row: WorkflowRowModel,
    max_attempts: u32,
    delay_millis: i64,
    message: Seq<char>,
    now: i64,
) -> bool {
    let exhausted = activation_exhausted(row, max_attempts);
    let next = activation_failed(row, exhausted, delay_millis, message, now);
    &&& failure.next@ == next
    &&& failure.event@ == events::history_model(
        row.id,
        if exhausted {
            "activation_exhausted"@
        } else {
            "activation_failed"@
        },
        now,
    )
    &&& match failure.ended {
        Some(outcome) => exhausted && outcome@ == (ChildOutcomeModel::Failed {
            category: next.error_category->0,
            message: next.error_message->0,
        }),
        None => !exhausted,
    }
}

/// Settles a failed activation at a given jitter percentile.
pub fn fail_activation_at(
    row: WorkflowRow,
    config: &CoordinatorConfig,
    message: &str,
    percentile: u8,
    now: i64,
) -> (result: Result<ActivationFailure, DurableError>)
    ensures
        match result {
            Ok(failure) => {
                let delay = activation_delay(
                    row@,
                    config.activation_retry_policy.spec_backoff(),
                    percentile as int,
                );
                delay is Ok && activation_failure_is(
                    failure,
                    row@,
                    config.max_activation_attempts,
                    delay->Ok_0,
                    message@,
                    now,
                )
            },
            Err(error) => activation_delay(
                row@,
                config.activation_retry_policy.spec_backoff(),
                percentile as int,
            ) == Err::<i64, ErrorModel>(error@),
        },
{
    let attempt: i32 = next_i32(row.activation_attempts);
    let limit: i32 = min_i32(
        row.max_activation_attempts,
        limit_i32(config.max_activation_attempts),
    );
    let exhausted: bool = attempt >= limit;
    let attempt_number: u32 = if attempt < 0 {
        u32::MAX
    } else {
        attempt as u32
    };
    let delay = match config.activation_retry_policy.delay_for_attempt(attempt_number, percentile) {
        Ok(delay) => delay,
        Err(error) => return Err(error),
    };
    let delay_millis: i64 = match duration_millis(delay) {
        Ok(millis) => millis,
        Err(error) => return Err(error),
    };
    let error = WorkflowError::new("activation", message);
    let mut next = row;
    let event = history_event(
        next.id,
        if exhausted {
            "activation_exhausted"
        } else {
            "activation_failed"
        },
        now,
    );
    next.status = if exhausted {
        WorkflowStatus::Failed
    } else {
        WorkflowStatus::Ready
    };
    next.activation_attempts = attempt;
    next.available_at = saturating_sum(now, delay_millis);
    next.error_category = Some(error.category.clone());
    next.error_message = Some(error.message.clone());
    next.lease_owner = None;
    next.lease_token = None;
    next.lease_expires_at = None;
    next.updated_at = now;
    next.completed_at = if exhausted {
        Some(now)
    } else {
        None
    };
    let ended = if exhausted {
        Some(ChildOutcome::Failed { category: error.category, message: error.message })
    } else {
        None
    };
    Ok(ActivationFailure { next, event, ended })
}

/// Settles a failed activation: the workflow is retried after a delay, or fails
/// once its attempts are used up.
pub fn fail_activation(
    row: WorkflowRow,
    config: &CoordinatorConfig,
    message: &str,
    now: i64,
) -> (result: Result<ActivationFailure, DurableError>)
    ensures
        ({
            let digest = policy::sha256_digest(vstd::utf8::encode_utf8(activation_seed(row@)));
            let delay = activation_delay(
                row@,
                config.activation_retry_policy.spec_backoff(),
                policy::percentile_of(digest[0], digest[1]),
            );
            match result {
                Ok(failure) => delay is Ok && activation_failure_is(
                    failure,
                    row@,
                    config.max_activation_attempts,
                    delay->Ok_0,
                    message@,
                    now,
                ),
                Err(error) => delay == Err::<i64, ErrorModel>(error@),
            }
        }),
{
    let attempt: i32 = next_i32(row.activation_attempts);
    let attempt_number: u32 = if attempt < 0 {
        u32::MAX
    } else {
        attempt as u32
    };
    let mut seed = join3("workflow:", decimal_i64(row.id).as_str(), ":activation:");
    seed.append(decimal_u64(attempt_number as u64).as_str());
    assert(seed@ == activation_seed(row@));
    let percentile: u8 = deterministic_jitter_percentile(seed.as_str().as_bytes());
    fail_activation_at(row, config, message, percentile, now)
}

/// The row after an activation was committed, before what its transition adds:
/// the event counts as delivered, earlier failures are forgotten, the lease is over.
pub open spec fn committed(row: WorkflowRowModel, delivered: i32, now: i64) -> WorkflowRowModel {
    WorkflowRowModel {
        delivered_event_sequence: delivered,
        consecutive_continuations: 0,
        activation_attempts: 0,
        error_category: None,
        error_message: None,
        updated_at: now,
        ..lease::workflow_unleased(row)
    }
}

/// The row after an activation with a new workflow state was committed; `row` is
/// the claimed row, whose version of the state counts, and `stored` the row that is
/// written to.
pub open spec fn stepped(
    row: WorkflowRowModel,
    stored: WorkflowRowModel,
    state_json: Seq<char>,
    delivered: i32,
    now: i64,
) -> WorkflowRowModel {
    WorkflowRowModel {
        state_json,
        state_version: arith::clamp32(row.state_version + 1),
        ..committed(stored, delivered, now)
    }
}

/// The number of the command that follows those of a claimed row.
pub open spec fn next_command(row: WorkflowRowModel) -> i32 {
    arith::clamp32(row.command_sequence + 1)
}

/// The row of a workflow that waits for the answer to a command.
pub open spec fn waiting(
    stepped: WorkflowRowModel,
    command: i32,
    status: WorkflowStatus,
    wait_kind: Seq<char>,
    reference: Option<i64>,
) -> WorkflowRowModel {
    WorkflowRowModel {
        status,
        wait_kind: Some(wait_kind),
        wait_reference_id: reference,
        command_sequence: command,
        ..stepped
    }
}

fn commit_base(row: &WorkflowRow, delivered: i32, now: i64) -> (next: WorkflowRow)
    ensures
        next@ == committed(row@, delivered, now),
{
    let mut next = row.clone();
    next.delivered_event_sequence = delivered;
    next.consecutive_continuations = 0;
    next.activation_attempts = 0;
    next.error_category = None;
    next.error_message = None;
    next.lease_owner = None;
    next.lease_token = None;
    next.lease_expires_at = None;
    next.updated_at = now;
    next
}

fn step_base(
    row: &WorkflowRow,
    stored: &WorkflowRow,
    state_json: String,
    delivered: i32,
    now: i64,
) -> (next: WorkflowRow)
    ensures
        next@ == stepped(row@, stored@, state_json@, delivered, now),
{
    let mut next = commit_base(stored, delivered, now);
    next.state_json = state_json;
    next.state_version = next_i32(row.state_version);
    next
}

fn wait_for(
    stepped: WorkflowRow,
    command: i32,
    status: WorkflowStatus,
    wait_kind: &str,
    reference: Option<i64>,
) -> (next: WorkflowRow)
    ensures
        next@ == waiting(stepped@, command, status, wait_kind@, reference),
{
    let mut next = stepped;
    next.status = status;
    next.wait_kind = Some(wait_kind.to_owned());
    next.wait_reference_id = reference;
    next.command_sequence = command;
    next
}

/// What committing an activation writes.
///
/// For an approval, an activity and a child the reference of the wait is the
/// identifier of the row that is inserted first; see [`with_reference`].
#[derive(Debug)]
pub enum CommitPlan {
    Ready { next: WorkflowRow, event: EventDraft },
    Sleeping { next: WorkflowRow, event: EventDraft },
    Completed { next: WorkflowRow, event: EventDraft, outcome: ChildOutcome },
    Approval { insert: NewApprovalRow, next: WorkflowRow, event: EventDraft },
    Activity { activity: ActivityCommand, next: WorkflowRow, event: EventDraft },
    Child {
        child: ChildWorkflowCommand,
        deduplication_key: String,
        root_workflow_id: i64,
        next: WorkflowRow,
        event: EventDraft,
    },
}

/// When a continued workflow runs again, and its streak of continuations: after
/// too many in a row it waits, and the streak starts over.
pub open spec fn continuation(
    row: WorkflowRowModel,
    max_streak: u32,
    delay_millis: i64,
    now: i64,
) -> (i64, i32) {
    let streak = arith::clamp32(row.consecutive_continuations + 1);
    if streak >= arith::clamp32(max_streak as int) {
        (arith::clamp64(now + delay_millis), 0)
    } else {
        (now, streak)
    }
}

/// Whether a continued workflow has used up its streak of continuations.
pub open spec fn streak_used_up(row: WorkflowRowModel, max_streak: u32) -> bool {
    arith::clamp32(row.consecutive_continuations + 1) >= arith::clamp32(max_streak as int)
}

/// The event that a continued workflow is told next.
pub open spec fn continued_event(workflow_id: i64, delivered: i32, now: i64) -> events::EventDraftModel {
    events::EventDraftModel {
        workflow_id,
        delivery_sequence: Some(arith::clamp32(delivered + 1)),
        event_type: "continued"@,
        event: None,
        actor_type: "system"@,
        actor_id: None,
        reason: None,
        created_at: now,
    }
}

/// The deduplication key of a child: the command's own, or one made of the
/// parent and the position of the command.
pub open spec fn child_key(parent: WorkflowRowModel, command: ChildWorkflowCommand) -> Seq<char> {
    match command.deduplication_key {
        Some(key) => key@,
        None => "child:"@ + numerals::decimal(parent.id as int) + ":"@ + numerals::decimal(
            arith::clamp32(parent.command_sequence + 1) as int,
        ),
    }
}

/// What committing a transition writes, for every transition: `row` is the claimed
/// row, by which it is decided, and `stored` the row that is written to.
pub open spec fn commit_is(
    plan: CommitPlan,
    row: WorkflowRowModel,
    stored: WorkflowRowModel,
    delivered: i32,
    transition: StoredTransition,
    config: CoordinatorConfig,
    now: i64,
) -> bool {
    match transition {
        StoredTransition::Continue { state_json } => {
            let pause = match arith::millis_of(config.continuation_delay@) {
                Some(millis) => millis,
                None => 0i64,
            };
            let (available_at, streak) = continuation(
                row,
                config.max_consecutive_continuations,
                pause,
                now,
            );
            plan matches CommitPlan::Ready { next, event } && next@ == (WorkflowRowModel {
                status: WorkflowStatus::Ready,
                available_at,
                consecutive_continuations: streak,
                ..stepped(row, stored, state_json@, delivered, now)
            }) && event@ == continued_event(row.id, delivered, now)
        },
        StoredTransition::Complete { output_json } => plan matches CommitPlan::Completed {
            next,
            event,
            outcome,
        } && next@ == (WorkflowRowModel {
            status: WorkflowStatus::Succeeded,
            result_json: Some(output_json@),
            completed_at: Some(now),
            ..committed(stored, delivered, now)
        }) && event@ == events::history_model(row.id, "workflow_succeeded"@, now) && outcome@ == (
        ChildOutcomeModel::Succeeded { output_json: output_json@ }),
        StoredTransition::SleepUntil { state_json, wake_at_millis } => plan matches CommitPlan::Sleeping {
            next,
            event,
        } && next@ == (WorkflowRowModel {
            available_at: wake_at_millis,
            ..waiting(
                stepped(row, stored, state_json@, delivered, now),
                next_command(row),
                WorkflowStatus::Sleeping,
                "timer"@,
                Some(next_command(row) as i64),
            )
        }) && event@ == events::history_model(row.id, "timer_scheduled"@, now),
        StoredTransition::WaitForApproval { state_json, approval_json, expires_at_millis } => plan matches CommitPlan::Approval {
            insert,
            next,
            event,
        } && insert@ == (NewApprovalRowModel {
            workflow_id: row.id,
            command_sequence: next_command(row),
            kind: row.kind,
            version: row.version,
            prompt_metadata_json: approval_json@,
            validation_schema_json: "{}"@,
            validation_version: 1,
            status: "pending"@,
            requested_at: now,
            expires_at: expires_at_millis,
            decision_payload_json: None,
            decided_by: None,
            operator_reason: None,
            resolved_at: None,
        }) && next@ == waiting(
            stepped(row, stored, state_json@, delivered, now),
            next_command(row),
            WorkflowStatus::WaitingApproval,
            "approval"@,
            None,
        ) && event@ == events::history_model(row.id, "approval_requested"@, now),
        StoredTransition::RunActivity { state_json, activity } => plan matches CommitPlan::Activity {
            activity: command,
            next,
            event,
        } && command == activity && next@ == waiting(
            stepped(row, stored, state_json@, delivered, now),
            next_command(row),
            WorkflowStatus::WaitingActivity,
            "activity"@,
            None,
        ) && event@ == events::history_model(row.id, "activity_scheduled"@, now),
        StoredTransition::RunChild { state_json, child } => plan matches CommitPlan::Child {
            child: command,
            deduplication_key,
            root_workflow_id,
            next,
            event,
        } && command == child && deduplication_key@ == child_key(row, child) && root_workflow_id
            == (match row.root_workflow_id {
            Some(root) => root,
            None => row.id,
        }) && next@ == waiting(
            stepped(row, stored, state_json@, delivered, now),
            next_command(row),
            WorkflowStatus::WaitingChild,
            "child"@,
            None,
        ) && event@ == events::history_model(row.id, "child_workflow_scheduled"@, now),
    }
}

/// Why an activation cannot be committed.
pub open spec fn commit_error(
    row: WorkflowRowModel,
    event: WorkflowEventRowModel,
    transition: StoredTransition,
    config: CoordinatorConfig,
) -> Option<ErrorModel> {
    if row.id <= 0 {
        Some(ErrorModel::InvalidId(row.id as int))
    } else if event.delivery_sequence is None {
        Some(ErrorModel::InvalidState("workflow received non-deliverable history"@))
    } else if transition is Continue && streak_used_up(row, config.max_consecutive_continuations)
        && arith::millis_of(config.continuation_delay@) is None {
        Some(ErrorModel::InvalidDefinition("duration exceeds the database range"@))
    } else {
        None
    }
}

/// Decides what committing an activation writes; `stored` is the row that is written
/// to.
pub fn commit_transition(
    claim: &WorkflowClaim,
    stored: &WorkflowRow,
    event: &WorkflowEventRow,
    transition: StoredTransition,
    config: &CoordinatorConfig,
    now: i64,
) -> (result: Result<CommitPlan, DurableError>)
    ensures
        match result {
            Ok(plan) => commit_error(claim.spec_row(), event@, transition, *config) is None
                && commit_is(
                plan,
                claim.spec_row(),
                stored@,
                event@.delivery_sequence->0,
                transition,
                *config,
                now,
            ),
            Err(error) => commit_error(claim.spec_row(), event@, transition, *config) == Some(
                error@,
            ),
        },
{
    let row = claim.row();
    match claim.workflow_id() {
        Ok(_) => {},
        Err(error) => return Err(error),
    }
    let delivered: i32 = match event.delivery_sequence {
        Some(sequence) => sequence,
        None => return Err(invalid_state("workflow received non-deliverable history")),
    };
    let id: i64 = row.id;
    let command: i32 = next_i32(row.command_sequence);
    match transition {
        StoredTransition::Continue { state_json } => {
            let streak: i32 = next_i32(row.consecutive_continuations);
            let used_up: bool = streak >= limit_i32(config.max_consecutive_continuations);
            let available_at: i64 = if used_up {
                match duration_millis(config.continuation_delay) {
                    Ok(pause) => saturating_sum(now, pause),
                    Err(error) => return Err(error),
                }
            } else {
                now
            };
            let mut next = step_base(row, stored, state_json, delivered, now);
            next.status = WorkflowStatus::Ready;
            next.available_at = available_at;
            next.consecutive_continuations = if used_up {
                0
            } else {
                streak
            };
            let event = EventDraft {
                workflow_id: id,
                delivery_sequence: Some(next_i32(delivered)),
                event_type: "continued",
                event: None,
                actor_type: "system",
                actor_id: None,
                reason: None,
                created_at: now,
            };
            Ok(CommitPlan::Ready { next, event })
        },
        StoredTransition::Complete { output_json } => {
            let mut next = commit_base(stored, delivered, now);
            next.status = WorkflowStatus::Succeeded;
            next.result_json = Some(output_json.clone());
            next.completed_at = Some(now);
            Ok(
                CommitPlan::Completed {
                    next,
                    event: history_event(id, "workflow_succeeded", now),
                    outcome: ChildOutcome::Succeeded { output_json },
                },
            )
        },
        StoredTransition::SleepUntil { state_json, wake_at_millis } => {
            let base = step_base(row, stored, state_json, delivered, now);
            let mut next = wait_for(
                base,
                command,
                WorkflowStatus::Sleeping,
                "timer",
                Some(command as i64),
            );
            next.available_at = wake_at_millis;
            Ok(CommitPlan::Sleeping { next, event: history_event(id, "timer_scheduled", now) })
        },
        StoredTransition::WaitForApproval { state_json, approval_json, expires_at_millis } => {
            let insert = NewApprovalRow {
                workflow_id: id,
                command_sequence: command,
                kind: row.kind.clone(),
                version: row.version,
                prompt_metadata_json: approval_json,
                validation_schema_json: "{}".to_owned(),
                validation_version: 1,
                status: "pending".to_owned(),
                requested_at: now,
                expires_at: expires_at_millis,
                decision_payload_json: None,
                decided_by: None,
                operator_reason: None,
                resolved_at: None,
            };
            let base = step_base(row, stored, state_json, delivered, now);
            let next = wait_for(base, command, WorkflowStatus::WaitingApproval, "approval", None);
            Ok(
                CommitPlan::Approval {
                    insert,
                    next,
                    event: history_event(id, "approval_requested", now),
                },
            )
        },
        StoredTransition::RunActivity { state_json, activity } => {
            let base = step_base(row, stored, state_json, delivered, now);
            let next = wait_for(base, command, WorkflowStatus::WaitingActivity, "activity", None);
            Ok(
                CommitPlan::Activity {
                    activity,
                    next,
                    event: history_event(id, "activity_scheduled", now),
                },
            )
        },
        StoredTransition::RunChild { state_json, child } => {
            let deduplication_key = match &child.deduplication_key {
                Some(key) => key.clone(),
                None => {
                    let mut key = join3("child:", decimal_i64(id).as_str(), ":");
                    key.append(decimal_i64(command as i64).as_str());
                    key
                },
            };
            let root_workflow_id: i64 = match row.root_workflow_id {
                Some(root) => root,
                None => id,
            };
            let base = step_base(row, stored, state_json, delivered, now);
            let next = wait_for(base, command, WorkflowStatus::WaitingChild, "child", None);
            Ok(
                CommitPlan::Child {
                    child,
                    deduplication_key,
                    root_workflow_id,
                    next,
                    event: history_event(id, "child_workflow_scheduled", now),
                },
            )
        },
    }
}

/// A workflow that waits for the row with the given number.
pub open spec fn referring(row: WorkflowRowModel, reference: i64) -> WorkflowRowModel {
    WorkflowRowModel { wait_reference_id: Some(reference), ..row }
}

/// The waiting row once the identifier of what it waits for is known.
pub fn with_reference(row: WorkflowRow, reference: i64) -> (next: WorkflowRow)
    ensures
        next@ == referring(row@, reference),
{
    let mut next = row;
    next.wait_reference_id = Some(reference);
    next
}

/// Why an activity cannot be stored.
pub open spec fn activity_insert_error(command: ActivityCommand) -> Option<ErrorModel> {
    if command.max_attempts > i32::MAX {
        Some(
            ErrorModel::InvalidDefinition(
                "activity attempts exceed the database integer range"@,
            ),
        )
    } else if arith::millis_of(command.timeout@) is None || arith::millis_of(
        command.lease_duration@,
    ) is None {
        Some(ErrorModel::InvalidDefinition("duration exceeds the database range"@))
    } else {
        None
    }
}

/// The row of an activity that a workflow asked for.
pub open spec fn activity_insert(
    workflow_id: i64,
    command_sequence: i32,
    command: ActivityCommand,
    retry_policy_json: Seq<char>,
    now: i64,
) -> NewActivityRowModel {
    NewActivityRowModel {
        workflow_id,
        command_sequence,
        replacement_number: 0,
        kind: command.kind@,
        version: command.version,
        topic: command.topic@,
        payload_json: command.payload_json@,
        status: ActivityStatus::Pending,
        available_at: if command.continuation_priority {
            CONTINUATION_READY_AT_MILLIS
        } else {
            now
        },
        max_attempts: command.max_attempts as i32,
        attempt_count: 0,
        timeout_millis: arith::millis_of(command.timeout@)->0,
        lease_duration_millis: arith::millis_of(command.lease_duration@)->0,
        retry_policy_json,
        operation_key: text::opt_text(command.operation_key),
        provider_result_json: None,
        last_error_category: None,
        last_error_message: None,
        lease_owner: None,
        lease_token: None,
        lease_expires_at: None,
        root_activity_id: None,
        replaces_activity_id: None,
        created_at: now,
        updated_at: now,
        completed_at: None,
    }
}

/// The row of an activity that a workflow asked for; `retry_policy_json` is the
/// stored form of the command's retry policy.
pub fn activity_row(
    workflow_id: i64,
    command_sequence: i32,
    command: &ActivityCommand,
    retry_policy_json: String,
    now: i64,
) -> (result: Result<NewActivityRow, DurableError>)
    ensures
        match result {
            Ok(row) => activity_insert_error(*command) is None && row@ == activity_insert(
                workflow_id,
                command_sequence,
                *command,
                retry_policy_json@,
                now,
            ),
            Err(error) => activity_insert_error(*command) == Some(error@),
        },
{
    if command.max_attempts > i32::MAX as u32 {
        return Err(invalid_definition("activity attempts exceed the database integer range"));
    }
    let timeout_millis: i64 = match duration_millis(command.timeout) {
        Ok(millis) => millis,
        Err(error) => return Err(error),
    };
    let lease_duration_millis: i64 = match duration_millis(command.lease_duration) {
        Ok(millis) => millis,
        Err(error) => return Err(error),
    };
    Ok(
        NewActivityRow {
            workflow_id,
            command_sequence,
            replacement_number: 0,
            kind: command.kind.clone(),
            version: command.version,
            topic: command.topic.clone(),
            payload_json: command.payload_json.clone(),
            status: ActivityStatus::Pending,
            available_at: if command.continuation_priority {
                CONTINUATION_READY_AT_MILLIS
            } else {
                now
            },
            max_attempts: command.max_attempts as i32,
            attempt_count: 0,
            timeout_millis,
            lease_duration_millis,
            retry_policy_json,
            operation_key: command.operation_key.clone(),
            provider_result_json: None,
            last_error_category: None,
            last_error_message: None,
            lease_owner: None,
            lease_token: None,
            lease_expires_at: None,
            root_activity_id: None,
            replaces_activity_id: None,
            created_at: now,
            updated_at: now,
            completed_at: None,
        },
    )
}

/// How a child that existed before has already ended, where it has.
pub open spec fn ended_child(row: WorkflowRowModel) -> Option<ChildOutcomeModel> {
    match row.status {
        WorkflowStatus::Succeeded => Some(
            ChildOutcomeModel::Succeeded {
                output_json: match row.result_json {
                    Some(json) => json,
                    None => "null"@,
                },
            },
        ),
        WorkflowStatus::Failed => Some(
            ChildOutcomeModel::Failed {
                category: match row.error_category {
                    Some(category) => category,
                    None => "failed"@,
                },
                message: match row.error_message {
                    Some(message) => message,
                    None => "child workflow failed"@,
                },
            },
        ),
        WorkflowStatus::Cancelled => Some(
            ChildOutcomeModel::Failed {
                category: "child_cancelled"@,
                message: "child workflow was cancelled"@,
            },
        ),
        _ => None,
    }
}

/// How a child that existed before has already ended, where it has.
pub fn terminal_child_outcome(row: &WorkflowRow) -> (outcome: Option<ChildOutcome>)
    ensures
        match outcome {
            Some(o) => ended_child(row@) == Some(o@),
            None => ended_child(row@) is None,
        },
{
    match row.status {
        WorkflowStatus::Succeeded => Some(
            ChildOutcome::Succeeded { output_json: text_or(&row.result_json, "null") },
        ),
        WorkflowStatus::Failed => Some(
            ChildOutcome::Failed {
                category: text_or(&row.error_category, "failed"),
                message: text_or(&row.error_message, "child workflow failed"),
            },
        ),
        WorkflowStatus::Cancelled => Some(
            ChildOutcome::Failed {
                category: "child_cancelled".to_owned(),
                message: "child workflow was cancelled".to_owned(),
            },
        ),
        _ => None,
    }
}

fn text_or(value: &Option<String>, otherwise: &str) -> (text: String)
    ensures
        text@ == (match *value {
            Some(present) => present@,
            None => otherwise@,
        }),
{
    match value {
        Some(present) => present.clone(),
        None => otherwise.to_owned(),
    }
}

/// Every transition that carries a state stores that very state, as the next version
/// of the claimed one; only a completion leaves the stored state as it was.
pub proof fn law_commit_stores_the_state(
    plan: CommitPlan,
    row: WorkflowRowModel,
    stored: WorkflowRowModel,
    delivered: i32,
    transition: StoredTransition,
    config: CoordinatorConfig,
    now: i64,
)
    requires
        commit_is(plan, row, stored, delivered, transition, config, now),
        row.state_version < i32::MAX,
    ensures
        ({
            let next = fencing::committed_row(plan);
            match transition {
                StoredTransition::Continue { state_json }
                | StoredTransition::SleepUntil { state_json, .. }
                | StoredTransition::WaitForApproval { state_json, .. }
                | StoredTransition::RunActivity { state_json, .. }
                | StoredTransition::RunChild { state_json, .. } => next.state_json == state_json@
                    && next.state_version == row.state_version + 1,
                StoredTransition::Complete { .. } => next.state_json == stored.state_json
                    && next.state_version == stored.state_version,
            }
        }),
{
}

/// A commit leaves the workflow that it writes to what it was: only its progress, its
/// wait, its schedule and its end change. Earlier errors are forgotten, the lease is
/// over, the told event counts as told, and only a completion ends the workflow.
pub proof fn law_commit_keeps_the_workflow(
    plan: CommitPlan,
    row: WorkflowRowModel,
    stored: WorkflowRowModel,
    delivered: i32,
    transition: StoredTransition,
    config: CoordinatorConfig,
    now: i64,
)
    requires
        commit_is(plan, row, stored, delivered, transition, config, now),
    ensures
        ({
            let next = fencing::committed_row(plan);
            &&& models::same_workflow(stored, next)
            &&& next.delivered_event_sequence == delivered
            &&& next.activation_attempts == 0
            &&& next.error_category is None && next.error_message is None
            &&& next.lease_owner is None && next.lease_token is None && next.lease_expires_at is None
            &&& next.updated_at == now
            &&& transition is Complete <==> next.status == WorkflowStatus::Succeeded
            &&& transition !is Complete ==> next.result_json == stored.result_json
                && next.completed_at == stored.completed_at
            &&& transition !is Continue ==> next.consecutive_continuations == 0
            &&& transition !is Continue && transition !is SleepUntil ==> next.available_at
                == stored.available_at
        }),
{
}

/// A completed workflow has succeeded now with the very output of its transition, and
/// its parents are told that output; no command was given.
pub proof fn law_completion_stores_the_output(
    plan: CommitPlan,
    row: WorkflowRowModel,
    stored: WorkflowRowModel,
    delivered: i32,
    output_json: String,
    config: CoordinatorConfig,
    now: i64,
)
    requires
        commit_is(
            plan,
            row,
            stored,
            delivered,
            StoredTransition::Complete { output_json },
            config,
            now,
        ),
    ensures
        plan matches CommitPlan::Completed { next, event, outcome } && {
            &&& next@.status == WorkflowStatus::Succeeded
            &&& next@.result_json == Some(output_json@)
            &&& next@.completed_at == Some(now)
            &&& models::same_wait(stored, next@)
            &&& next@.command_sequence == stored.command_sequence
            &&& outcome@ == (ChildOutcomeModel::Succeeded { output_json: output_json@ })
            &&& ended_child(next@) == Some(outcome@)
            &&& event@.workflow_id == row.id
            &&& event@.event_type == "workflow_succeeded"@
            &&& event@.delivery_sequence is None
            &&& event@.created_at == now
        },
{
}

/// A continued workflow is ready again and is told so next, behind the event that it
/// was just told. It may run at once until its streak reaches the limit; from then on
/// it first waits for the configured pause, and the streak starts over.
pub proof fn law_continuation_is_told_next(
    plan: CommitPlan,
    row: WorkflowRowModel,
    stored: WorkflowRowModel,
    delivered: i32,
    state_json: String,
    config: CoordinatorConfig,
    now: i64,
)
    requires
        commit_is(
            plan,
            row,
            stored,
            delivered,
            StoredTransition::Continue { state_json },
            config,
            now,
        ),
        0 <= row.consecutive_continuations < i32::MAX,
        config.max_consecutive_continuations <= i32::MAX,
        delivered < i32::MAX,
    ensures
        plan matches CommitPlan::Ready { next, event } && {
            let streak = row.consecutive_continuations + 1;
            let pause = arith::millis_of(config.continuation_delay@);
            &&& next@.status == WorkflowStatus::Ready
            &&& models::same_wait(stored, next@)
            &&& next@.command_sequence == stored.command_sequence
            &&& streak < config.max_consecutive_continuations ==> next@.available_at == now
                && next@.consecutive_continuations == streak
            &&& streak >= config.max_consecutive_continuations ==> next@.consecutive_continuations
                == 0
            &&& streak >= config.max_consecutive_continuations && pause is Some && now + pause->0
                <= i64::MAX ==> next@.available_at == now + pause->0
            &&& event@.workflow_id == row.id
            &&& event@.event_type == "continued"@
            &&& event@.delivery_sequence matches Some(position) && position == delivered + 1
            &&& event@.event is None
            &&& event@.created_at == now
        },
{
}

/// The wait of a row for the answer to its next command: the command is one behind the
/// last one, and nothing answers it yet but what the wait names.
pub open spec fn waits_with_next_command(
    row: WorkflowRowModel,
    next: WorkflowRowModel,
    status: WorkflowStatus,
    wait_kind: Seq<char>,
) -> bool {
    &&& next.command_sequence == row.command_sequence + 1
    &&& next.status == status
    &&& next.wait_kind == Some(wait_kind)
}

/// A workflow that sleeps until a time is woken at that time and not before, and its
/// timer then answers the command that it sleeps with.
pub proof fn law_sleep_lasts_until_its_time(
    plan: CommitPlan,
    row: WorkflowRowModel,
    stored: WorkflowRowModel,
    delivered: i32,
    state_json: String,
    wake_at_millis: i64,
    config: CoordinatorConfig,
    now: i64,
    later: i64,
)
    requires
        commit_is(
            plan,
            row,
            stored,
            delivered,
            StoredTransition::SleepUntil { state_json, wake_at_millis },
            config,
            now,
        ),
        0 <= row.command_sequence < i32::MAX,
        0 <= delivered < i32::MAX,
        stored.id > 0,
    ensures
        plan matches CommitPlan::Sleeping { next, event } && {
            &&& waits_with_next_command(row, next@, WorkflowStatus::Sleeping, "timer"@)
            &&& next@.wait_reference_id matches Some(reference) && reference
                == next@.command_sequence
            &&& next@.available_at == wake_at_millis
            &&& temporal::timer_due(next@, later) <==> later >= wake_at_millis
            &&& temporal::timer_error(next@) is None
            &&& event@.workflow_id == row.id
            &&& event@.event_type == "timer_scheduled"@
            &&& event@.delivery_sequence is None
        },
{
}

/// An approval asks the very question of the transition, for the workflow's own kind
/// and version and its next command, and runs out when the transition says. Once the
/// wait names it, the workflow waits for this approval.
pub proof fn law_approval_asks_the_question(
    plan: CommitPlan,
    row: WorkflowRowModel,
    stored: WorkflowRowModel,
    delivered: i32,
    state_json: String,
    approval_json: String,
    expires_at_millis: Option<i64>,
    config: CoordinatorConfig,
    now: i64,
    approval: ApprovalRowModel,
)
    requires
        commit_is(
            plan,
            row,
            stored,
            delivered,
            StoredTransition::WaitForApproval { state_json, approval_json, expires_at_millis },
            config,
            now,
        ),
        row.command_sequence < i32::MAX,
        models::same_workflow(row, stored),
    ensures
        plan matches CommitPlan::Approval { insert, next, event } && {
            &&& waits_with_next_command(row, next@, WorkflowStatus::WaitingApproval, "approval"@)
            &&& insert@.workflow_id == row.id
            &&& insert@.command_sequence == next@.command_sequence
            &&& insert@.kind == row.kind
            &&& insert@.version == row.version
            &&& insert@.prompt_metadata_json == approval_json@
            &&& insert@.status == "pending"@
            &&& insert@.requested_at == now
            &&& insert@.expires_at == expires_at_millis
            &&& insert@.decision_payload_json is None
            &&& insert@.decided_by is None
            &&& insert@.operator_reason is None
            &&& insert@.resolved_at is None
            &&& approval.kind == insert@.kind && approval.version == insert@.version
                ==> temporal::awaits_approval(
                WorkflowRowModel { wait_reference_id: Some(approval.id), ..next@ },
                approval,
            )
            &&& event@.workflow_id == row.id
            &&& event@.event_type == "approval_requested"@
            &&& event@.delivery_sequence is None
        },
{
}

/// The very activity that a transition asks for is scheduled under the workflow's next
/// command, and once the wait names it a worker may claim it.
pub proof fn law_requested_activity_is_scheduled(
    plan: CommitPlan,
    row: WorkflowRowModel,
    stored: WorkflowRowModel,
    delivered: i32,
    state_json: String,
    activity: ActivityCommand,
    config: CoordinatorConfig,
    now: i64,
    inserted: ActivityRowModel,
)
    requires
        commit_is(
            plan,
            row,
            stored,
            delivered,
            StoredTransition::RunActivity { state_json, activity },
            config,
            now,
        ),
        row.command_sequence < i32::MAX,
        inserted.status == ActivityStatus::Pending,
        inserted.available_at <= now,
        inserted.workflow_id == stored.id,
    ensures
        plan matches CommitPlan::Activity { activity: command, next, event } && {
            &&& command == activity
            &&& waits_with_next_command(row, next@, WorkflowStatus::WaitingActivity, "activity"@)
            &&& activity_worker::activity_claimable(
                inserted,
                WorkflowRowModel { wait_reference_id: Some(inserted.id), ..next@ },
                now,
            )
            &&& event@.workflow_id == row.id
            &&& event@.event_type == "activity_scheduled"@
            &&& event@.delivery_sequence is None
        },
{
}

/// The very child that a transition asks for is started under the workflow's next
/// command, in the workflow's own lineage, and once the wait names it the workflow
/// awaits it. A key of the command's own is kept.
pub proof fn law_requested_child_is_started(
    plan: CommitPlan,
    row: WorkflowRowModel,
    stored: WorkflowRowModel,
    delivered: i32,
    state_json: String,
    child: ChildWorkflowCommand,
    config: CoordinatorConfig,
    now: i64,
    reference: i64,
)
    requires
        commit_is(
            plan,
            row,
            stored,
            delivered,
            StoredTransition::RunChild { state_json, child },
            config,
            now,
        ),
        row.command_sequence < i32::MAX,
    ensures
        plan matches CommitPlan::Child {
            child: command,
            deduplication_key,
            root_workflow_id,
            next,
            event,
        } && {
            &&& command == child
            &&& child.deduplication_key matches Some(key) ==> deduplication_key@ == key@
            &&& row.root_workflow_id matches Some(root) ==> root_workflow_id == root
            &&& row.root_workflow_id is None ==> root_workflow_id == row.id
            &&& waits_with_next_command(row, next@, WorkflowStatus::WaitingChild, "child"@)
            &&& workflows::awaits_child(
                WorkflowRowModel { wait_reference_id: Some(reference), ..next@ },
                reference,
            )
            &&& event@.workflow_id == row.id
            &&& event@.event_type == "child_workflow_scheduled"@
            &&& event@.delivery_sequence is None
        },
{
}

/// Children without a key of their own get one each: different parents, and different
/// commands of one parent, never share a child.
pub proof fn law_children_have_their_own_keys(
    parent: WorkflowRowModel,
    command: ChildWorkflowCommand,
    other_parent: WorkflowRowModel,
    other_command: ChildWorkflowCommand,
)
    requires
        command.deduplication_key is None,
        other_command.deduplication_key is None,
        parent.command_sequence < i32::MAX,
        other_parent.command_sequence < i32::MAX,
        child_key(parent, command) == child_key(other_parent, other_command),
    ensures
        parent.id == other_parent.id,
        parent.command_sequence == other_parent.command_sequence,
{
    reveal_strlit(":");
    numerals::lemma_two_numbers(
        "child:"@,
        ":"@,
        parent.id as int,
        parent.command_sequence + 1,
        other_parent.id as int,
        other_parent.command_sequence + 1,
    );
}

/// An activation is committed exactly where the workflow is known, the event was meant
/// to be told, and a pause that is needed can be stored.
pub proof fn law_commit_is_refused_only_for_a_reason(
    row: WorkflowRowModel,
    event: WorkflowEventRowModel,
    transition: StoredTransition,
    config: CoordinatorConfig,
)
    requires
        0 <= row.consecutive_continuations < i32::MAX,
        config.max_consecutive_continuations <= i32::MAX,
    ensures
        commit_error(row, event, transition, config) is None <==> {
            &&& row.id > 0
            &&& event.delivery_sequence is Some
            &&& transition is Continue && row.consecutive_continuations + 1
                >= config.max_consecutive_continuations ==> arith::millis_of(
                config.continuation_delay@,
            ) is Some
        },
{
}

/// A claim leases the workflow to its worker until the given time and changes nothing
/// else.
pub proof fn law_claim_only_leases(
    row: WorkflowRowModel,
    worker_id: Seq<char>,
    token: Seq<char>,
    expiry: i64,
    now: i64,
)
    ensures
        ({
            let next = claimed(row, worker_id, token, expiry, now);
            &&& next.status == WorkflowStatus::Running
            &&& next.lease_owner == Some(worker_id)
            &&& next.lease_token == Some(token)
            &&& next.lease_expires_at == Some(expiry)
            &&& next.updated_at == now
            &&& keeps_all_but_its_lease(row, next)
            &&& next.available_at == row.available_at
        }),
{
}

/// Whether a workflow is the same in two rows but for its status, its lease and when it
/// may run.
pub open spec fn keeps_all_but_its_lease(a: WorkflowRowModel, b: WorkflowRowModel) -> bool {
    &&& models::same_workflow(a, b)
    &&& models::same_progress(a, b)
    &&& models::same_wait(a, b)
    &&& models::same_end(a, b)
    &&& a.activation_attempts == b.activation_attempts
    &&& a.consecutive_continuations == b.consecutive_continuations
    &&& a.completed_at == b.completed_at
}

/// A workflow is claimed from the time on at which it may run, and only while it is
/// ready; a lease is taken away from its end on, and only from a running workflow.
pub proof fn law_workflows_are_taken_in_time(row: WorkflowRowModel, now: i64)
    ensures
        claimable(row, now) <==> row.status == WorkflowStatus::Ready && now >= row.available_at,
        recoverable(row, now) <==> row.status == WorkflowStatus::Running && (
        row.lease_expires_at matches Some(expiry) && now >= expiry),
{
}

/// A lease that is taken away leaves the workflow as it was before its claim, ready at
/// once: the same event is told again, and no attempt counts as failed.
pub proof fn law_recovered_workflow_is_told_again(
    row: WorkflowRowModel,
    worker_id: Seq<char>,
    token: Seq<char>,
    expiry: i64,
    claimed_at: i64,
    now: i64,
)
    ensures
        ({
            let held = claimed(row, worker_id, token, expiry, claimed_at);
            let next = lease_recovered(held, now);
            &&& keeps_all_but_its_lease(row, next)
            &&& lease::workflow_lease_consistent(next)
            &&& claimable(next, now)
            &&& next.available_at == now
            &&& next.updated_at == now
        }),
{
}

/// A lease lasts for the configured whole milliseconds from now.
pub proof fn law_lease_lasts_as_configured(config: CoordinatorConfig, now: i64)
    ensures
        match claim_expiry_of(config, now) {
            Ok(expiry) => expiry >= now && (expiry - now) * 1_000_000 <= config.lease_duration@ < (
            expiry - now + 1) * 1_000_000,
            Err(_) => (i64::MAX - now + 1) * 1_000_000 <= config.lease_duration@
                || config.lease_duration@ >= (i64::MAX + 1) * 1_000_000,
        },
{
}

/// A failed activation counts one more attempt. While fewer were made than the workflow
/// and the process both allow, the workflow is ready again after the delay; the attempt
/// that reaches the smaller of the two bounds ends it, and its parents are told the same
/// error that is stored. What it was told stays to be told.
pub proof fn law_failed_activation_is_retried_or_ends(
    failure: ActivationFailure,
    row: WorkflowRowModel,
    max_attempts: u32,
    delay_millis: i64,
    message: Seq<char>,
    now: i64,
)
    requires
        activation_failure_is(failure, row, max_attempts, delay_millis, message, now),
        row.activation_attempts < i32::MAX,
        max_attempts <= i32::MAX,
        0 <= delay_millis,
        now + delay_millis <= i64::MAX,
    ensures
        ({
            let next = failure.next@;
            let attempts = row.activation_attempts + 1;
            let last = attempts >= row.max_activation_attempts || attempts >= max_attempts;
            &&& next.activation_attempts == attempts
            &&& last ==> next.status == WorkflowStatus::Failed && next.completed_at == Some(now)
            &&& !last ==> next.status == WorkflowStatus::Ready && next.completed_at is None
                && failure.ended is None
            &&& last ==> (failure.ended matches Some(outcome) && outcome@ == (
            ChildOutcomeModel::Failed {
                category: next.error_category->0,
                message: next.error_message->0,
            }) && ended_child(next) == Some(outcome@))
            &&& next.available_at == now + delay_millis
            &&& next.error_category is Some && next.error_message is Some
            &&& text::utf8_len(message) <= 2 * 1024 ==> next.error_message == Some(message)
            &&& next.error_category == Some("activation"@)
            &&& models::same_workflow(row, next)
            &&& models::same_progress(row, next)
            &&& models::same_wait(row, next)
            &&& next.result_json == row.result_json
            &&& next.consecutive_continuations == row.consecutive_continuations
            &&& next.updated_at == now
            &&& lease::workflow_lease_consistent(next)
            &&& failure.event@.workflow_id == row.id
            &&& failure.event@.delivery_sequence is None
            &&& failure.event@.created_at == now
            &&& failure.event@.event_type == (if last {
                "activation_exhausted"@
            } else {
                "activation_failed"@
            })
        }),
{
    text::lemma_utf8_prefix(message, crate::MAX_ERROR_REASON_BYTES as nat);
    text::lemma_utf8_prefix("activation"@, error::MAX_ERROR_CATEGORY_BYTES as nat);
    assert(text::utf8_len("activation"@) <= error::MAX_ERROR_CATEGORY_BYTES) by {
        reveal_strlit("activation");
        text::lemma_ascii_length("activation"@);
    }
}

/// The delay of a failed activation is that of its policy for the attempt that failed,
/// in milliseconds.
pub proof fn law_activation_delay_follows_the_policy(
    row: WorkflowRowModel,
    backoff: BackoffPolicy,
    percentile: int,
)
    requires
        0 <= row.activation_attempts < i32::MAX,
        0 <= percentile <= 100,
    ensures
        ({
            let secs = policy::delay_secs(backoff, row.activation_attempts + 1, percentile);
            secs >= 0 && match activation_delay(row, backoff, percentile) {
                Ok(millis) => millis == secs * 1000,
                Err(_) => secs * 1000 > i64::MAX,
            }
        }),
{
}

/// Each failed activation of each workflow draws its own jitter.
pub proof fn law_activations_draw_their_own_jitter(row: WorkflowRowModel, other: WorkflowRowModel)
    requires
        0 <= row.activation_attempts < i32::MAX,
        0 <= other.activation_attempts < i32::MAX,
        activation_seed(row) == activation_seed(other),
    ensures
        row.id == other.id,
        row.activation_attempts == other.activation_attempts,
{
    reveal_strlit(":activation:");
    numerals::lemma_two_numbers(
        "workflow:"@,
        ":activation:"@,
        row.id as int,
        row.activation_attempts + 1,
        other.id as int,
        other.activation_attempts + 1,
    );
}

/// The row of a requested activity carries its command, each part under its own name,
/// for the workflow and the position that asked; lengths of time are stored as whole
/// milliseconds. It is pending, has not been tried, and may run at once, before all
/// others where the command asks for that.
pub proof fn law_activity_row_carries_its_command(
    workflow_id: i64,
    command_sequence: i32,
    command: ActivityCommand,
    retry_policy_json: Seq<char>,
    now: i64,
)
    requires
        activity_insert_error(command) is None,
    ensures
        ({
            let row = activity_insert(
                workflow_id,
                command_sequence,
                command,
                retry_policy_json,
                now,
            );
            &&& row.workflow_id == workflow_id
            &&& row.command_sequence == command_sequence
            &&& row.kind == command.kind@
            &&& row.version == command.version
            &&& row.topic == command.topic@
            &&& row.payload_json == command.payload_json@
            &&& row.max_attempts == command.max_attempts
            &&& row.timeout_millis * 1_000_000 <= command.timeout@ < (row.timeout_millis + 1)
                * 1_000_000
            &&& row.lease_duration_millis * 1_000_000 <= command.lease_duration@ < (
            row.lease_duration_millis + 1) * 1_000_000
            &&& row.retry_policy_json == retry_policy_json
            &&& row.operation_key is Some <==> command.operation_key is Some
            &&& command.operation_key matches Some(key) ==> row.operation_key == Some(key@)
            &&& row.status == ActivityStatus::Pending
            &&& row.attempt_count == 0
            &&& row.replacement_number == 0
            &&& command.continuation_priority ==> row.available_at == 0
            &&& !command.continuation_priority ==> row.available_at == now
            &&& row.provider_result_json is None
            &&& row.last_error_category is None && row.last_error_message is None
            &&& row.lease_owner is None && row.lease_token is None && row.lease_expires_at is None
            &&& row.root_activity_id is None && row.replaces_activity_id is None
            &&& row.completed_at is None
            &&& row.created_at == now && row.updated_at == now
        }),
{
}

/// A requested activity is refused only where a number does not fit the database.
pub proof fn law_activity_is_refused_only_for_numbers(command: ActivityCommand)
    ensures
        activity_insert_error(command) is None <==> command.max_attempts <= i32::MAX
            && command.timeout@ < (i64::MAX + 1) * 1_000_000 && command.lease_duration@ < (i64::MAX
            + 1) * 1_000_000,
{
}

/// A child that has ended is seen as it ended: a success with its stored result, a
/// failure with its stored error, a cancellation as a failure; any other is awaited.
pub proof fn law_ended_child_is_seen_as_it_ended(row: WorkflowRowModel)
    ensures
        match ended_child(row) {
            Some(ChildOutcomeModel::Succeeded { output_json }) => row.status
                == WorkflowStatus::Succeeded && (row.result_json matches Some(json) ==> output_json
                == json),
            Some(ChildOutcomeModel::Failed { category, message }) => (row.status
                == WorkflowStatus::Failed || row.status == WorkflowStatus::Cancelled) && (row.status
                == WorkflowStatus::Failed ==> (row.error_category matches Some(stored)
                ==> category == stored) && (row.error_message matches Some(stored) ==> message
                == stored)),
            None => row.status != WorkflowStatus::Succeeded && row.status != WorkflowStatus::Failed
                && row.status != WorkflowStatus::Cancelled,
        },
{
}

/// A transition can be committed exactly where what it asks for is registered: a child
/// under its kind and version, an activity under its kind and version with its topic.
pub proof fn law_requests_must_be_registered<W, A>(
    transition: StoredTransition,
    workflows: Map<(Seq<char>, int), W>,
    activities: Map<(Seq<char>, int), ActivityEntry<A>>,
)
    ensures
        activation_problem(transition, workflows, activities) is None <==> match transition {
            StoredTransition::RunChild { child, .. } => workflows.contains_key(
                (child.kind@, child.version as int),
            ),
            StoredTransition::RunActivity { activity, .. } => {
                &&& activities.contains_key((activity.kind@, activity.version as int))
                &&& activities[(activity.kind@, activity.version as int)].topic@ == activity.topic@
            },
            _ => true,
        },
{
}

/// An event is told from what was recorded of it: its metadata, unless it is the start or a
/// continuation; it is told from one source only, or from none.
pub proof fn law_event_is_told_from_its_record(
    event: WorkflowEventRowModel,
    source: EventSource,
    other: EventSource,
)
    ensures
        is_source_of(event, source) ==> match source {
            EventSource::Started => event.event_type == "started"@,
            EventSource::Continued => event.event_type == "continued"@,
            EventSource::Json(json) => event.metadata_json == Some(json@) && event.event_type
                != "started"@ && event.event_type != "continued"@,
        },
        has_no_source(event) ==> !is_source_of(event, source),
        is_source_of(event, source) && is_source_of(event, other) ==> match (source, other) {
            (EventSource::Started, EventSource::Started) => true,
            (EventSource::Continued, EventSource::Continued) => true,
            (EventSource::Json(a), EventSource::Json(b)) => a@ == b@,
            _ => false,
        },
{
}

/// A workflow that was given the number of what it waits for is otherwise unchanged.
pub proof fn law_reference_is_all_that_is_set(row: WorkflowRowModel, reference: i64)
    ensures
        referring(row, reference).wait_reference_id == Some(reference),
        (WorkflowRowModel {
            wait_reference_id: row.wait_reference_id,
            ..referring(row, reference)
        }) == row,
{
}

/// Expired leases are looked for page by page: behind a full page of thirty-two the search
/// goes on at its last entry, and it ends with a page that is not full.
pub proof fn law_search_for_expired_leases_goes_on(page: Seq<(i64, i64)>)
    ensures
        page.len() >= 32 ==> page_behind(page) == Some(page[page.len() - 1]),
        page.len() < 32 ==> page_behind(page) is None,
{
}

} // verus!
