//! Claiming activities, keeping their leases, and settling how they ended.
use vstd::prelude::*;
use crate::arith;
use crate::arith::{duration_millis, next_i32, saturating_sum};
use crate::duration::Duration;
use crate::error;
use crate::error::{
    invalid_definition, invalid_state, ActivityError, DurableError, ErrorModel,
};
use crate::ids::{ActivityId, WorkflowId};
use crate::numerals;
use crate::numerals::decimal_i64;
use crate::persistence::events;
use crate::persistence::events::{delivery_event, EventDraft, EventDraftModel};
use crate::persistence::models;
use crate::persistence::models::{
    ActivityAttemptRow, ActivityAttemptRowModel, ActivityRow, ActivityRowModel,
    NewActivityAttemptRow, NewActivityAttemptRowModel, WorkflowRow, WorkflowRowModel,
};
use crate::persistence::status::{ActivityStatus, WorkflowStatus};
use crate::persistence::workflows;
use crate::persistence::workflows::clear_wait;
use crate::policy;
use crate::policy::{deterministic_jitter_percentile, BackoffPolicy, RetryPolicy};
use crate::registry::ActivityRegistry;
use crate::runtime::lease;
use crate::runtime::lease::{fresh_lease_token, has_expired};
use crate::text;
use crate::text::{join2, join3};
use crate::topics::TopicRegistry;
use crate::transition::{StepResult, StepResultModel, WorkflowEvent, WorkflowEventModel};

verus! {

/// How many candidate activities one claim reads.
pub const CLAIM_CANDIDATE_SCAN_LIMIT: i64 = 32;

/// The bounds that an activity worker works within.
#[derive(Debug, Clone, Copy)]
pub struct WorkerConfig {
    pub heartbeat_interval: Duration,
    pub shutdown_grace: Duration,
}

impl Default for WorkerConfig {
    fn default() -> (config: Self)
        ensures
            config.heartbeat_interval@ == 5_000_000_000,
            config.shutdown_grace@ == 30_000_000_000,
    {
        WorkerConfig {
            heartbeat_interval: Duration::from_secs(5),
            shutdown_grace: Duration::from_secs(30),
        }
    }
}

/// Refuses to claim from a topic that is not registered.
pub fn check_topic(topics: &TopicRegistry, topic: &str) -> (result: Result<(), DurableError>)
    ensures
        match result {
            Ok(()) => topics@.contains_key(topic@),
            Err(error) => !topics@.contains_key(topic@) && error@ == ErrorModel::InvalidDefinition(
                "unregistered activity topic "@ + topic@,
            ),
        },
{
    match topics.get(topic) {
        Some(_) => Ok(()),
        None => Err(
            DurableError::InvalidDefinition(join2("unregistered activity topic ", topic)),
        ),
    }
}

/// Refuses an empty worker name and bounds of zero.
pub fn validate_worker(worker_id: &str, config: &WorkerConfig) -> (result: Result<(), DurableError>)
    ensures
        ({
            let valid = worker_id@.len() > 0 && config.heartbeat_interval@ > 0
                && config.shutdown_grace@ > 0;
            match result {
                Ok(()) => valid,
                Err(error) => !valid && error@ == ErrorModel::InvalidDefinition(
                    "activity worker identity and bounds must be non-zero"@,
                ),
            }
        }),
{
    if worker_id.is_empty() || config.heartbeat_interval.is_zero()
        || config.shutdown_grace.is_zero() {
        return Err(invalid_definition("activity worker identity and bounds must be non-zero"));
    }
    Ok(())
}

/// An activity attempt that a worker holds the lease of.
#[derive(Debug, Clone)]
pub struct ActivityClaim {
    row: ActivityRow,
    schedule_run_id: Option<i64>,
    attempt_number: i32,
    lease_token: String,
}

impl ActivityClaim {
    /// The claimed row.
    pub closed spec fn spec_row(&self) -> ActivityRowModel {
        self.row@
    }

    /// The schedule run that the activity's workflow was started for.
    pub closed spec fn spec_schedule_run(&self) -> Option<i64> {
        self.schedule_run_id
    }

    /// The number of the attempt.
    pub closed spec fn spec_attempt(&self) -> i32 {
        self.attempt_number
    }

    /// The token of the lease.
    pub closed spec fn spec_token(&self) -> Seq<char> {
        self.lease_token@
    }

    /// The claimed row.
    pub fn row(&self) -> (row: &ActivityRow)
        ensures
            row@ == self.spec_row(),
    {
        &self.row
    }

    /// The schedule run that the activity's workflow was started for.
    pub fn schedule_run_id(&self) -> (id: Option<i64>)
        ensures
            id == self.spec_schedule_run(),
    {
        self.schedule_run_id
    }

    /// The identifier of the claimed activity.
    pub fn activity_id(&self) -> (result: Result<ActivityId, DurableError>)
        ensures
            match result {
                Ok(id) => self.spec_row().id > 0 && id@ == self.spec_row().id,
                Err(error) => self.spec_row().id <= 0 && error@ == ErrorModel::InvalidId(
                    self.spec_row().id as int,
                ),
            },
    {
        ActivityId::new(self.row.id)
    }

    /// The number of the attempt.
    pub fn attempt_number(&self) -> (result: Result<u32, DurableError>)
        ensures
            match result {
                Ok(number) => number == self.spec_attempt(),
                Err(error) => self.spec_attempt() < 0 && error@ == ErrorModel::InvalidState(
                    "negative activity attempt"@,
                ),
            },
    {
        attempt_value(self.attempt_number)
    }

    /// The stored number of the attempt.
    pub fn stored_attempt(&self) -> (number: i32)
        ensures
            number == self.spec_attempt(),
    {
        self.attempt_number
    }

    /// The token of the lease.
    pub fn lease_token(&self) -> (token: &str)
        ensures
            token@ == self.spec_token(),
    {
        self.lease_token.as_str()
    }

    /// The topic of the activity.
    pub fn topic(&self) -> (topic: &str)
        ensures
            topic@ == self.spec_row().topic,
    {
        self.row.topic.as_str()
    }
}

fn attempt_value(attempt: i32) -> (result: Result<u32, DurableError>)
    ensures
        match result {
            Ok(number) => number == attempt,
            Err(error) => attempt < 0 && error@ == ErrorModel::InvalidState(
                "negative activity attempt"@,
            ),
        },
{
    if attempt < 0 {
        Err(invalid_state("negative activity attempt"))
    } else {
        Ok(attempt as u32)
    }
}

/// Whether a topic may take one more activity.
pub fn topic_has_room(in_flight: i64, max_concurrency: i32) -> (room: bool)
    ensures
        room == (in_flight < max_concurrency),
{
    in_flight < max_concurrency as i64
}

/// Whether a pending activity may be claimed now for a workflow that waits for it.
pub open spec fn activity_claimable(row: ActivityRowModel, workflow: WorkflowRowModel, now: i64) -> bool {
    &&& row.status == ActivityStatus::Pending
    &&& row.available_at <= now
    &&& workflow.id == row.workflow_id
    &&& workflow.status == WorkflowStatus::WaitingActivity
    &&& workflow.wait_reference_id == Some(row.id)
}

/// Whether a pending activity may be claimed now for a workflow that waits for it.
pub fn is_activity_claimable(row: &ActivityRow, workflow: &WorkflowRow, now: i64) -> (yes: bool)
    ensures
        yes == activity_claimable(row@, workflow@, now),
{
    row.status == ActivityStatus::Pending && row.available_at <= now && workflow.id
        == row.workflow_id && awaits_activity(workflow, row.id)
}

/// Whether a workflow waits for the given activity.
pub open spec fn waits_for_activity(workflow: WorkflowRowModel, activity_id: i64) -> bool {
    workflow.status == WorkflowStatus::WaitingActivity && workflow.wait_reference_id == Some(
        activity_id,
    )
}

fn awaits_activity(workflow: &WorkflowRow, activity_id: i64) -> (yes: bool)
    ensures
        yes == waits_for_activity(workflow@, activity_id),
{
    match workflow.wait_reference_id {
        Some(reference) => workflow.status == WorkflowStatus::WaitingActivity && reference
            == activity_id,
        None => false,
    }
}

/// Why a pending activity cannot be claimed.
pub open spec fn claim_error(row: ActivityRowModel, registered: bool, now: i64) -> Option<
    ErrorModel,
> {
    if !registered {
        Some(ErrorModel::MissingDefinition { kind: row.kind, version: row.version as int })
    } else if row.attempt_count == i32::MAX {
        Some(ErrorModel::InvalidState("activity attempt overflow"@))
    } else if row.attempt_count + 1 > row.max_attempts {
        Some(
            ErrorModel::InvalidState(
                "pending activity "@ + numerals::decimal(row.id as int)
                    + " has exhausted its attempt cap"@,
            ),
        )
    } else if row.timeout_millis <= 0 || row.lease_duration_millis <= row.timeout_millis {
        Some(
            ErrorModel::InvalidState(
                "activity "@ + numerals::decimal(row.id as int)
                    + " has invalid timeout or lease bounds"@,
            ),
        )
    } else if now + row.lease_duration_millis > i64::MAX {
        Some(ErrorModel::InvalidState("activity lease timestamp overflow"@))
    } else {
        None
    }
}

/// The row of an activity whose next attempt was claimed.
pub open spec fn activity_claimed(
    row: ActivityRowModel,
    worker_id: Seq<char>,
    token: Seq<char>,
    now: i64,
) -> ActivityRowModel {
    ActivityRowModel {
        status: ActivityStatus::Running,
        attempt_count: (row.attempt_count + 1) as i32,
        lease_owner: Some(worker_id),
        lease_token: Some(token),
        lease_expires_at: Some((now + row.lease_duration_millis) as i64),
        updated_at: now,
        ..row
    }
}

/// The row of an attempt that starts now.
pub open spec fn attempt_started(
    row: ActivityRowModel,
    worker_id: Seq<char>,
    token: Seq<char>,
    now: i64,
) -> NewActivityAttemptRowModel {
    NewActivityAttemptRowModel {
        activity_id: row.id,
        attempt_number: (row.attempt_count + 1) as i32,
        worker_id,
        lease_token: token,
        started_at: now,
        heartbeat_at: now,
        finished_at: None,
        outcome: None,
        error_category: None,
        error_message: None,
        provider_result_json: None,
    }
}

/// Whether a claim is that of the next attempt of a row.
pub open spec fn claim_is(
    claim: ActivityClaim,
    attempt: NewActivityAttemptRow,
    row: ActivityRowModel,
    schedule_run_id: Option<i64>,
    worker_id: Seq<char>,
    now: i64,
) -> bool {
    &&& claim.spec_row() == activity_claimed(row, worker_id, claim.spec_token(), now)
    &&& claim.spec_attempt() == row.attempt_count + 1
    &&& claim.spec_schedule_run() == schedule_run_id
    &&& attempt@ == attempt_started(row, worker_id, claim.spec_token(), now)
}

/// Claims the next attempt of a pending activity under the given token.
pub fn claim_attempt<H>(
    row: ActivityRow,
    schedule_run_id: Option<i64>,
    activities: &ActivityRegistry<H>,
    worker_id: &str,
    lease_token: String,
    now: i64,
) -> (result: Result<(ActivityClaim, NewActivityAttemptRow), DurableError>)
    ensures
        ({
            let registered = activities@.contains_key((row@.kind, row@.version as int));
            match result {
                Ok((claim, attempt)) => claim_error(row@, registered, now) is None && claim_is(
                    claim,
                    attempt,
                    row@,
                    schedule_run_id,
                    worker_id@,
                    now,
                ) && claim.spec_token() == lease_token@,
                Err(error) => claim_error(row@, registered, now) == Some(error@),
            }
        }),
{
    if !activities.contains(row.kind.as_str(), row.version) {
        return Err(DurableError::MissingDefinition { kind: row.kind, version: row.version });
    }
    let attempt_number: i32 = match row.attempt_count.checked_add(1) {
        Some(number) => number,
        None => return Err(invalid_state("activity attempt overflow")),
    };
    if attempt_number > row.max_attempts {
        return Err(
            DurableError::InvalidState(
                join3(
                    "pending activity ",
                    decimal_i64(row.id).as_str(),
                    " has exhausted its attempt cap",
                ),
            ),
        );
    }
    if row.timeout_millis <= 0 || row.lease_duration_millis <= row.timeout_millis {
        return Err(
            DurableError::InvalidState(
                join3(
                    "activity ",
                    decimal_i64(row.id).as_str(),
                    " has invalid timeout or lease bounds",
                ),
            ),
        );
    }
    let lease_expires_at: i64 = match now.checked_add(row.lease_duration_millis) {
        Some(expiry) => expiry,
        None => return Err(invalid_state("activity lease timestamp overflow")),
    };
    let attempt = NewActivityAttemptRow {
        activity_id: row.id,
        attempt_number,
        worker_id: worker_id.to_owned(),
        lease_token: lease_token.clone(),
        started_at: now,
        heartbeat_at: now,
        finished_at: None,
        outcome: None,
        error_category: None,
        error_message: None,
        provider_result_json: None,
    };
    let mut next = row;
    next.status = ActivityStatus::Running;
    next.attempt_count = attempt_number;
    next.lease_owner = Some(worker_id.to_owned());
    next.lease_token = Some(lease_token.clone());
    next.lease_expires_at = Some(lease_expires_at);
    next.updated_at = now;
    Ok((ActivityClaim { row: next, schedule_run_id, attempt_number, lease_token }, attempt))
}

/// Claims the next attempt of a pending activity under a fresh token.
///
/// The attempt is fenced by whatever token was drawn.
pub fn claim_candidate<H>(
    row: ActivityRow,
    schedule_run_id: Option<i64>,
    activities: &ActivityRegistry<H>,
    worker_id: &str,
    now: i64,
) -> (result: Result<(ActivityClaim, NewActivityAttemptRow), DurableError>)
    ensures
        ({
            let registered = activities@.contains_key((row@.kind, row@.version as int));
            match result {
                Ok((claim, attempt)) => claim_error(row@, registered, now) is None && claim_is(
                    claim,
                    attempt,
                    row@,
                    schedule_run_id,
                    worker_id@,
                    now,
                ) && claim.spec_token().len() == 36,
                Err(error) => claim_error(row@, registered, now) == Some(error@),
            }
        }),
{
    let token = fresh_lease_token();
    claim_attempt(row, schedule_run_id, activities, worker_id, token, now)
}

/// How many activities a batch of claims may still take.
///
/// The batch takes at most `limit` in all; of the current topic at most `wanted`.
#[derive(Debug)]
pub struct BatchBudget {
    limit: usize,
    claimed: usize,
    wanted: usize,
    claimed_of_topic: usize,
}

/// How many activities of a topic a batch may take: what the topic's limit
/// leaves, what this process may run, and what is left of the batch.
pub open spec fn batch_share(
    persisted_limit: int,
    in_flight: int,
    local: int,
    left: int,
) -> int {
    let open = if persisted_limit - in_flight < 0 {
        0
    } else {
        persisted_limit - in_flight
    };
    policy::smaller(policy::smaller(open, local), left)
}

impl BatchBudget {
    /// The most activities that the batch takes.
    pub closed spec fn spec_limit(&self) -> int {
        self.limit as int
    }

    /// How many activities were claimed.
    pub closed spec fn spec_claimed(&self) -> int {
        self.claimed as int
    }

    /// How many activities of the current topic are wanted.
    pub closed spec fn spec_wanted(&self) -> int {
        self.wanted as int
    }

    /// How many activities of the current topic were claimed.
    pub closed spec fn spec_claimed_of_topic(&self) -> int {
        self.claimed_of_topic as int
    }

    #[verifier::type_invariant]
    spec fn within_limits(self) -> bool {
        &&& self.claimed <= self.limit
        &&& self.claimed_of_topic <= self.wanted
        &&& self.wanted - self.claimed_of_topic <= self.limit - self.claimed
    }

    /// A batch of at most `limit` activities.
    pub fn new(limit: usize) -> (budget: Self)
        ensures
            budget.spec_limit() == limit,
            budget.spec_claimed() == 0,
            budget.spec_wanted() == 0,
            budget.spec_claimed_of_topic() == 0,
    {
        BatchBudget { limit, claimed: 0, wanted: 0, claimed_of_topic: 0 }
    }

    /// Turns to the next topic and gives how many of its activities are wanted.
    pub fn begin_topic(&mut self, persisted_limit: i32, in_flight: i64, local: usize) -> (wanted:
        usize)
        ensures
            wanted == batch_share(
                persisted_limit as int,
                in_flight as int,
                local as int,
                old(self).spec_limit() - old(self).spec_claimed(),
            ),
            final(self).spec_limit() == old(self).spec_limit(),
            final(self).spec_claimed() == old(self).spec_claimed(),
            final(self).spec_wanted() == wanted,
            final(self).spec_claimed_of_topic() == 0,
            final(self).spec_claimed() <= final(self).spec_limit(),
    {
        proof {
            use_type_invariant(&*self);
        }
        let open: i128 = persisted_limit as i128 - in_flight as i128;
        let left: usize = self.limit - self.claimed;
        let cap: usize = if local <= left {
            local
        } else {
            left
        };
        let wanted: usize = if open <= 0 {
            0
        } else if open < cap as i128 {
            open as usize
        } else {
            cap
        };
        *self = BatchBudget {
            limit: self.limit,
            claimed: self.claimed,
            wanted,
            claimed_of_topic: 0,
        };
        wanted
    }

    /// Whether another activity of the current topic may be claimed.
    pub fn wants_more(&self) -> (more: bool)
        ensures
            more == (self.spec_claimed() < self.spec_limit() && self.spec_claimed_of_topic()
                < self.spec_wanted()),
    {
        self.claimed < self.limit && self.claimed_of_topic < self.wanted
    }

    /// Counts one claimed activity of the current topic.
    pub fn record_claim(&mut self)
        requires
            old(self).spec_claimed() < old(self).spec_limit(),
            old(self).spec_claimed_of_topic() < old(self).spec_wanted(),
        ensures
            final(self).spec_limit() == old(self).spec_limit(),
            final(self).spec_claimed() == old(self).spec_claimed() + 1,
            final(self).spec_wanted() == old(self).spec_wanted(),
            final(self).spec_claimed_of_topic() == old(self).spec_claimed_of_topic() + 1,
            final(self).spec_claimed() <= final(self).spec_limit(),
            final(self).spec_claimed_of_topic() <= final(self).spec_wanted(),
    {
        proof {
            use_type_invariant(&*self);
        }
        *self = BatchBudget {
            limit: self.limit,
            claimed: self.claimed + 1,
            wanted: self.wanted,
            claimed_of_topic: self.claimed_of_topic + 1,
        };
    }
}

/// Whether a batch has anything to do: it may take something and some topic has
/// local room.
pub fn batch_is_open(limit: usize, local_capacities: &Vec<usize>) -> (open: bool)
    ensures
        open == (limit > 0 && exists|i: int|
            0 <= i < local_capacities@.len() && #[trigger] local_capacities@[i] > 0),
{
    if limit == 0 {
        return false;
    }
    let mut i: usize = 0;
    while i < local_capacities.len()
        invariant
            limit > 0,
            i <= local_capacities@.len(),
            forall|j: int| 0 <= j < i ==> #[trigger] local_capacities@[j] == 0,
        decreases local_capacities@.len() - i,
    {
        if local_capacities[i] > 0 {
            assert(local_capacities@[i as int] > 0);
            return true;
        }
        i = i + 1;
    }
    false
}

/// The topics that a batch goes through: those that were locked, with their limits,
/// where all registered ones could be locked at once, and otherwise none.
pub fn locked_batch(registered: usize, locked: Vec<(String, i32)>) -> (topics: Vec<(String, i32)>)
    ensures
        topics@ == (if locked@.len() == registered {
            locked@
        } else {
            Seq::empty()
        }),
{
    if locked.len() == registered {
        locked
    } else {
        Vec::new()
    }
}

/// Claims never push a topic over its limit: whatever a batch takes of a topic
/// fits beside what is in flight, unless more was in flight before.
pub proof fn law_batch_respects_topic_limit(
    persisted_limit: int,
    in_flight: int,
    local: int,
    left: int,
    claimed_of_topic: int,
)
    requires
        0 <= local,
        0 <= left,
        0 <= claimed_of_topic <= batch_share(persisted_limit, in_flight, local, left),
    ensures
        in_flight + claimed_of_topic <= persisted_limit || claimed_of_topic == 0,
        claimed_of_topic <= local,
        claimed_of_topic <= left,
{
}

/// A stored length of time; refuses negative ones.
pub fn duration_from_millis(millis: i64) -> (result: Result<Duration, DurableError>)
    ensures
        match result {
            Ok(duration) => millis >= 0 && duration@ == millis * 1_000_000,
            Err(error) => millis < 0 && error@ == ErrorModel::InvalidState(
                "stored duration cannot be negative"@,
            ),
        },
{
    if millis < 0 {
        return Err(invalid_state("stored duration cannot be negative"));
    }
    Ok(Duration::from_millis(millis as u64))
}

/// For how many nanoseconds a lease of so many milliseconds is relied on: one millisecond
/// less than it lasts.
pub open spec fn authority_nanos(lease_millis: int) -> int {
    if lease_millis == 0 {
        0
    } else {
        (lease_millis - 1) * 1_000_000
    }
}

/// How long after it was sampled a lease of `lease_millis` may be relied on: one
/// millisecond less, as stored times are not finer than that.
pub fn lease_authority(lease_millis: i64) -> (result: Result<Duration, DurableError>)
    ensures
        match result {
            Ok(authority) => lease_millis >= 0 && authority@ == authority_nanos(
                lease_millis as int,
            ),
            Err(error) => lease_millis < 0 && error@ == ErrorModel::InvalidState(
                "stored duration cannot be negative"@,
            ),
        },
{
    if lease_millis < 0 {
        return Err(invalid_state("stored duration cannot be negative"));
    }
    let reduced: u64 = if lease_millis == 0 {
        0
    } else {
        (lease_millis - 1) as u64
    };
    Ok(Duration::from_millis(reduced))
}

/// How often a lease is renewed: as configured, and at least three times per
/// lease, but not more than once a millisecond; in nanoseconds.
pub open spec fn heartbeat_nanos(configured: nat, lease_millis: int) -> int {
    let third = lease_millis * 1_000_000 / 3;
    policy::smaller(
        configured as int,
        if third < 1_000_000 {
            1_000_000
        } else {
            third
        },
    )
}

/// How often a lease is renewed, in nanoseconds.
pub fn heartbeat_interval(configured: Duration, lease_millis: i64) -> (result: Result<
    u128,
    DurableError,
>)
    ensures
        match result {
            Ok(nanos) => lease_millis >= 0 && nanos == heartbeat_nanos(
                configured@,
                lease_millis as int,
            ),
            Err(error) => lease_millis < 0 && error@ == ErrorModel::InvalidState(
                "stored duration cannot be negative"@,
            ),
        },
{
    if lease_millis < 0 {
        return Err(invalid_state("stored duration cannot be negative"));
    }
    let third: u128 = lease_millis as u128 * 1_000_000 / 3;
    let floor: u128 = if third < 1_000_000 {
        1_000_000
    } else {
        third
    };
    let chosen: u128 = configured.as_nanos();
    if chosen <= floor {
        Ok(chosen)
    } else {
        Ok(floor)
    }
}

/// The row of an activity whose lease was renewed for so many milliseconds.
pub open spec fn lease_renewed(
    stored: ActivityRowModel,
    lease_millis: i64,
    now: i64,
) -> ActivityRowModel {
    ActivityRowModel {
        lease_expires_at: Some((now + lease_millis) as i64),
        updated_at: now,
        ..stored
    }
}

/// When the lease of a claim ends that is renewed now.
pub fn renewed_expiry(claim: &ActivityClaim, now: i64) -> (result: Result<i64, DurableError>)
    ensures
        ({
            let expiry = now + claim.spec_row().lease_duration_millis;
            error::result_model(result) == (if i64::MIN <= expiry <= i64::MAX {
                Ok(expiry as i64)
            } else {
                Err(ErrorModel::InvalidState("activity lease overflow"@))
            })
        }),
{
    match now.checked_add(claim.row.lease_duration_millis) {
        Some(expiry) => Ok(expiry),
        None => Err(invalid_state("activity lease overflow")),
    }
}

/// An attempt whose handler was heard of.
pub open spec fn heartbeat_noted(attempt: ActivityAttemptRowModel, now: i64) -> ActivityAttemptRowModel {
    ActivityAttemptRowModel { heartbeat_at: now, ..attempt }
}

/// The row of the attempt whose lease was renewed.
pub fn attempt_renewed(attempt: ActivityAttemptRow, now: i64) -> (next: ActivityAttemptRow)
    ensures
        next@ == heartbeat_noted(attempt@, now),
{
    let mut next = attempt;
    next.heartbeat_at = now;
    next
}

/// Why a handler's activity could not be dispatched.
#[derive(Debug)]
pub enum ActivityDispatchError {
    Handler(ActivityError),
    Durable(DurableError),
}

/// The text that describes why an activity could not be dispatched.
pub open spec fn dispatch_error_text(error: ActivityDispatchError) -> Seq<char> {
    match error {
        ActivityDispatchError::Handler(error) => "activity handler failed: "@
            + error::activity_error_text(error),
        ActivityDispatchError::Durable(error) => "activity dispatch serialization failed: "@
            + error::error_text(error@),
    }
}

impl ActivityDispatchError {
    /// The text that describes the error.
    pub fn message(&self) -> (text: String)
        ensures
            text@ == dispatch_error_text(*self),
    {
        match self {
            ActivityDispatchError::Handler(error) => join2(
                "activity handler failed: ",
                error.message_text().as_str(),
            ),
            ActivityDispatchError::Durable(error) => join2(
                "activity dispatch serialization failed: ",
                error.message().as_str(),
            ),
        }
    }
}

/// How the execution of an activity ended.
#[derive(Debug)]
pub enum ExecutionOutcome {
    Succeeded(String),
    Retryable { category: String, message: String },
    Permanent { category: String, message: String },
}

/// The mathematical content of an [`ExecutionOutcome`].
#[verifier::ext_equal]
pub enum ExecutionOutcomeModel {
    Succeeded(Seq<char>),
    Retryable { category: Seq<char>, message: Seq<char> },
    Permanent { category: Seq<char>, message: Seq<char> },
}

impl View for ExecutionOutcome {
    type V = ExecutionOutcomeModel;

    open spec fn view(&self) -> ExecutionOutcomeModel {
        match *self {
            ExecutionOutcome::Succeeded(output) => ExecutionOutcomeModel::Succeeded(output@),
            ExecutionOutcome::Retryable { category, message } => ExecutionOutcomeModel::Retryable {
                category: category@,
                message: message@,
            },
            ExecutionOutcome::Permanent { category, message } => ExecutionOutcomeModel::Permanent {
                category: category@,
                message: message@,
            },
        }
    }
}

/// The name of an outcome in traces.
pub open spec fn outcome_name(outcome: ExecutionOutcomeModel) -> Seq<char> {
    match outcome {
        ExecutionOutcomeModel::Succeeded(_) => "succeeded"@,
        ExecutionOutcomeModel::Retryable { .. } => "retryable"@,
        ExecutionOutcomeModel::Permanent { .. } => "permanent"@,
    }
}

impl ExecutionOutcome {
    /// The name of the outcome in traces.
    pub fn trace_name(&self) -> (name: &'static str)
        ensures
            name@ == outcome_name(self@),
    {
        match self {
            ExecutionOutcome::Succeeded(_) => "succeeded",
            ExecutionOutcome::Retryable { category: _, message: _ } => "retryable",
            ExecutionOutcome::Permanent { category: _, message: _ } => "permanent",
        }
    }
}

/// An error category cut to its limit.
pub open spec fn cut_category(category: Seq<char>) -> Seq<char> {
    text::utf8_prefix(category, error::MAX_ERROR_CATEGORY_BYTES as nat)
}

/// An error message cut to its limit.
pub open spec fn cut_message(message: Seq<char>) -> Seq<char> {
    text::utf8_prefix(message, crate::MAX_ERROR_REASON_BYTES as nat)
}

/// What the result of a handler means for its activity.
pub open spec fn dispatched(result: Result<String, ActivityDispatchError>) -> ExecutionOutcomeModel {
    match result {
        Ok(output) => ExecutionOutcomeModel::Succeeded(output@),
        Err(ActivityDispatchError::Handler(ActivityError::Retryable { category, message })) =>
            ExecutionOutcomeModel::Retryable {
            category: cut_category(category@),
            message: cut_message(message@),
        },
        Err(ActivityDispatchError::Handler(ActivityError::Permanent { category, message })) =>
            ExecutionOutcomeModel::Permanent {
            category: cut_category(category@),
            message: cut_message(message@),
        },
        Err(ActivityDispatchError::Durable(error)) => ExecutionOutcomeModel::Permanent {
            category: cut_category("dispatch"@),
            message: cut_message(
                "activity dispatch serialization failed: "@ + error::error_text(error@),
            ),
        },
    }
}

/// A failure after which the activity may run again.
pub fn retryable_outcome(category: &str, message: &str) -> (outcome: ExecutionOutcome)
    ensures
        outcome@ == (ExecutionOutcomeModel::Retryable {
            category: cut_category(category@),
            message: cut_message(message@),
        }),
{
    let (category, message) = activity_error_parts(ActivityError::retryable(category, message));
    ExecutionOutcome::Retryable { category, message }
}

fn permanent_outcome(category: &str, message: &str) -> (outcome: ExecutionOutcome)
    ensures
        outcome@ == (ExecutionOutcomeModel::Permanent {
            category: cut_category(category@),
            message: cut_message(message@),
        }),
{
    let (category, message) = activity_error_parts(ActivityError::permanent(category, message));
    ExecutionOutcome::Permanent { category, message }
}

/// The category and message of an activity error.
pub fn activity_error_parts(error: ActivityError) -> (parts: (String, String))
    ensures
        match error {
            ActivityError::Retryable { category, message } => parts == (category, message),
            ActivityError::Permanent { category, message } => parts == (category, message),
        },
{
    match error {
        ActivityError::Retryable { category, message } => (category, message),
        ActivityError::Permanent { category, message } => (category, message),
    }
}

/// What the result of a handler means for its activity.
pub fn dispatch_outcome(result: Result<String, ActivityDispatchError>) -> (outcome:
    ExecutionOutcome)
    ensures
        outcome@ == dispatched(result),
{
    match result {
        Ok(output) => ExecutionOutcome::Succeeded(output),
        Err(ActivityDispatchError::Handler(ActivityError::Retryable { category, message })) => {
            retryable_outcome(category.as_str(), message.as_str())
        },
        Err(ActivityDispatchError::Handler(ActivityError::Permanent { category, message })) => {
            permanent_outcome(category.as_str(), message.as_str())
        },
        Err(ActivityDispatchError::Durable(error)) => {
            let message = join2(
                "activity dispatch serialization failed: ",
                error.message().as_str(),
            );
            permanent_outcome("dispatch", message.as_str())
        },
    }
}

/// How an attempt is closed.
#[derive(Debug)]
pub struct AttemptClose {
    pub finished_at: i64,
    pub outcome: &'static str,
    pub error_category: Option<String>,
    pub error_message: Option<String>,
    pub provider_result_json: Option<String>,
}

/// The mathematical content of an [`AttemptClose`].
#[verifier::ext_equal]
pub struct AttemptCloseModel {
    pub finished_at: i64,
    pub outcome: Seq<char>,
    pub error_category: Option<Seq<char>>,
    pub error_message: Option<Seq<char>>,
    pub provider_result_json: Option<Seq<char>>,
}

impl View for AttemptClose {
    type V = AttemptCloseModel;

    open spec fn view(&self) -> AttemptCloseModel {
        AttemptCloseModel {
            finished_at: self.finished_at,
            outcome: self.outcome@,
            error_category: text::opt_text(self.error_category),
            error_message: text::opt_text(self.error_message),
            provider_result_json: text::opt_text(self.provider_result_json),
        }
    }
}

/// The history entry of something that happened to an activity.
pub open spec fn activity_history(
    workflow_id: i64,
    event_type: Seq<char>,
    reason: Seq<char>,
    now: i64,
) -> EventDraftModel {
    EventDraftModel {
        reason: Some(reason),
        ..events::history_model(workflow_id, event_type, now)
    }
}

fn activity_event(workflow_id: i64, event_type: &'static str, reason: String, now: i64) -> (draft:
    EventDraft)
    ensures
        draft@ == activity_history(workflow_id, event_type@, reason@, now),
{
    EventDraft {
        workflow_id,
        delivery_sequence: None,
        event_type,
        event: None,
        actor_type: "system",
        actor_id: None,
        reason: Some(reason),
        created_at: now,
    }
}

/// The row of a workflow that its activity's end blocks.
pub open spec fn blocked(
    workflow: WorkflowRowModel,
    category: Seq<char>,
    message: Seq<char>,
    now: i64,
) -> WorkflowRowModel {
    WorkflowRowModel {
        status: WorkflowStatus::Blocked,
        error_category: Some(category),
        error_message: Some(message),
        updated_at: now,
        ..workflow
    }
}

fn block_workflow(workflow: WorkflowRow, category: &str, message: &str, now: i64) -> (next:
    WorkflowRow)
    ensures
        next@ == blocked(workflow@, category@, message@, now),
{
    let mut next = workflow;
    next.status = WorkflowStatus::Blocked;
    next.error_category = Some(category.to_owned());
    next.error_message = Some(message.to_owned());
    next.updated_at = now;
    next
}

/// The delay before an activity is retried, in milliseconds, or why there is none.
pub open spec fn retry_delay(
    backoff: BackoffPolicy,
    attempt: i32,
    seed: Seq<char>,
) -> Result<i64, ErrorModel> {
    let digest = policy::sha256_digest(vstd::utf8::encode_utf8(seed));
    let percentile = policy::percentile_of(digest[0], digest[1]);
    retry_delay_at(backoff, attempt, percentile)
}

/// The delay before an activity is retried at a given jitter percentile.
pub open spec fn retry_delay_at(
    backoff: BackoffPolicy,
    attempt: i32,
    percentile: int,
) -> Result<i64, ErrorModel> {
    if attempt < 0 {
        Err(ErrorModel::InvalidState("negative activity attempt"@))
    } else {
        match policy::delay_error(attempt as int, percentile) {
            Some(text) => Err(ErrorModel::InvalidDefinition(text)),
            None => match arith::millis_of(
                (policy::delay_secs(backoff, attempt as int, percentile) * 1_000_000_000) as nat,
            ) {
                Some(millis) => Ok(millis),
                None => Err(ErrorModel::InvalidDefinition("duration exceeds the database range"@)),
            },
        }
    }
}

/// The delay before an activity is retried at a given jitter percentile, in milliseconds.
pub fn delay_at(retry_policy: RetryPolicy, attempt: i32, percentile: u8) -> (result: Result<
    i64,
    DurableError,
>)
    ensures
        error::result_model(result) == retry_delay_at(
            retry_policy.spec_backoff(),
            attempt,
            percentile as int,
        ),
{
    let number: u32 = match attempt_value(attempt) {
        Ok(number) => number,
        Err(error) => return Err(error),
    };
    match retry_policy.delay_for_attempt(number, percentile) {
        Ok(delay) => duration_millis(delay),
        Err(error) => Err(error),
    }
}

/// The seed of the jitter of a retry.
pub open spec fn retry_seed(activity_id: i64, occasion: Seq<char>, attempt: i32) -> Seq<char> {
    "activity:"@ + numerals::decimal(activity_id as int) + occasion + numerals::decimal(
        attempt as int,
    )
}

/// The delay before an activity is retried, in milliseconds.
pub fn retry_delay_millis(
    retry_policy: RetryPolicy,
    activity_id: i64,
    occasion: &str,
    attempt: i32,
) -> (result: Result<i64, DurableError>)
    ensures
        error::result_model(result) == retry_delay(
            retry_policy.spec_backoff(),
            attempt,
            retry_seed(activity_id, occasion@, attempt),
        ),
{
    if attempt < 0 {
        return Err(invalid_state("negative activity attempt"));
    }
    let mut seed = join3("activity:", decimal_i64(activity_id).as_str(), occasion);
    seed.append(decimal_i64(attempt as i64).as_str());
    let percentile: u8 = deterministic_jitter_percentile(seed.as_str().as_bytes());
    delay_at(retry_policy, attempt, percentile)
}

/// Whether a running activity's lease has run out.
pub open spec fn reconcilable(row: ActivityRowModel, now: i64) -> bool {
    row.status == ActivityStatus::Running && (row.lease_expires_at is None || lease::lease_expired(
        row.lease_expires_at,
        now,
    ))
}

/// Whether a running activity's lease has run out.
pub fn is_reconcilable(row: &ActivityRow, now: i64) -> (yes: bool)
    ensures
        yes == reconcilable(row@, now),
{
    row.status == ActivityStatus::Running && (row.lease_expires_at.is_none() || has_expired(
        row.lease_expires_at,
        now,
    ))
}

/// What the end of an activity's lease does.
#[derive(Debug)]
pub struct Reconciliation {
    pub next: ActivityRow,
    pub attempt: AttemptClose,
    pub event: EventDraft,
    /// The workflow that the activity blocks, with its history entry.
    pub blocked: Option<(WorkflowRow, EventDraft)>,
}

/// The row of an activity whose lease ran out: pending again, or dead-lettered
/// once its attempts are used up.
pub open spec fn lease_lost(row: ActivityRowModel, available_at: i64, now: i64) -> ActivityRowModel {
    let exhausted = row.attempt_count >= row.max_attempts;
    ActivityRowModel {
        status: if exhausted {
            ActivityStatus::DeadLettered
        } else {
            ActivityStatus::Pending
        },
        available_at,
        last_error_category: Some("lease_expired"@),
        last_error_message: Some("activity lease expired"@),
        updated_at: now,
        completed_at: if exhausted {
            Some(now)
        } else {
            None
        },
        ..lease::activity_unleased(row)
    }
}

/// When an activity whose lease ran out may run again, or why this cannot be said.
pub open spec fn lease_lost_available(
    row: ActivityRowModel,
    stored_policy: Result<RetryPolicy, ErrorModel>,
    now: i64,
) -> Result<i64, ErrorModel> {
    if row.attempt_count >= row.max_attempts {
        Ok(now)
    } else {
        match stored_policy {
            Err(error) => Err(error),
            Ok(policy) => match retry_delay(
                policy.spec_backoff(),
                row.attempt_count,
                retry_seed(row.id, ":lease_recovery:"@, row.attempt_count),
            ) {
                Ok(delay) => Ok(arith::clamp64(now + delay)),
                Err(error) => Err(error),
            },
        }
    }
}

/// Why an expired activity cannot be settled.
pub open spec fn reconcile_error(
    row: ActivityRowModel,
    stored_policy: Result<RetryPolicy, ErrorModel>,
    now: i64,
) -> Option<ErrorModel> {
    if row.lease_token is None {
        Some(
            ErrorModel::InvalidState(
                "running activity "@ + numerals::decimal(row.id as int) + " has no lease token"@,
            ),
        )
    } else {
        match lease_lost_available(row, stored_policy, now) {
            Err(error) => Some(error),
            Ok(_) => if row.workflow_id <= 0 {
                Some(ErrorModel::InvalidId(row.workflow_id as int))
            } else {
                None
            },
        }
    }
}

/// What the end of an activity's lease writes: the attempt is closed as expired, and
/// where it was the last one the workflow that waits for it is blocked.
pub open spec fn reconciled_is(
    done: Reconciliation,
    row: ActivityRowModel,
    workflow: WorkflowRowModel,
    available_at: i64,
    now: i64,
) -> bool {
    let exhausted = row.attempt_count >= row.max_attempts;
    &&& done.next@ == lease_lost(row, available_at, now)
    &&& done.attempt@ == (AttemptCloseModel {
        finished_at: now,
        outcome: "lease_expired"@,
        error_category: Some("lease_expired"@),
        error_message: Some("activity lease expired"@),
        provider_result_json: None,
    })
    &&& done.event@ == activity_history(
        row.workflow_id,
        "activity_lease_expired"@,
        "activity lease expired"@,
        now,
    )
    &&& match done.blocked {
        Some((next, event)) => {
            &&& exhausted && waits_for_activity(workflow, row.id)
            &&& next@ == blocked(workflow, "lease_expired"@, "activity lease expired"@, now)
            &&& event@ == activity_history(
                row.workflow_id,
                "activity_dead_lettered"@,
                "activity lease expired"@,
                now,
            )
        },
        None => !(exhausted && waits_for_activity(workflow, row.id)),
    }
}

/// Settles an activity whose lease ran out.
///
/// `stored_policy` is the retry policy read from the row; it is only used where
/// the activity may run again.
pub fn reconcile_expired(
    row: ActivityRow,
    workflow: WorkflowRow,
    stored_policy: Result<RetryPolicy, DurableError>,
    now: i64,
) -> (result: Result<Reconciliation, DurableError>)
    ensures
        ({
            let policy_model = error::result_model(stored_policy);
            match result {
                Ok(done) => {
                    let available = lease_lost_available(row@, policy_model, now);
                    &&& reconcile_error(row@, policy_model, now) is None
                    &&& reconciled_is(done, row@, workflow@, available->Ok_0, now)
                },
                Err(error) => reconcile_error(row@, policy_model, now) == Some(error@),
            }
        }),
{
    if row.lease_token.is_none() {
        return Err(
            DurableError::InvalidState(
                join3("running activity ", decimal_i64(row.id).as_str(), " has no lease token"),
            ),
        );
    }
    let exhausted: bool = row.attempt_count >= row.max_attempts;
    let available_at: i64 = if exhausted {
        now
    } else {
        match stored_policy {
            Ok(retry_policy) => match retry_delay_millis(
                retry_policy,
                row.id,
                ":lease_recovery:",
                row.attempt_count,
            ) {
                Ok(delay) => saturating_sum(now, delay),
                Err(error) => return Err(error),
            },
            Err(error) => return Err(error),
        }
    };
    match WorkflowId::new(row.workflow_id) {
        Ok(_) => {},
        Err(error) => return Err(error),
    }
    let event = activity_event(
        row.workflow_id,
        "activity_lease_expired",
        "activity lease expired".to_owned(),
        now,
    );
    let attempt = AttemptClose {
        finished_at: now,
        outcome: "lease_expired",
        error_category: Some("lease_expired".to_owned()),
        error_message: Some("activity lease expired".to_owned()),
        provider_result_json: None,
    };
    let blocked = if exhausted && awaits_activity(&workflow, row.id) {
        let dead_letter = activity_event(
            row.workflow_id,
            "activity_dead_lettered",
            "activity lease expired".to_owned(),
            now,
        );
        Some((block_workflow(workflow, "lease_expired", "activity lease expired", now), dead_letter))
    } else {
        None
    };
    let mut next = row;
    next.status = if exhausted {
        ActivityStatus::DeadLettered
    } else {
        ActivityStatus::Pending
    };
    next.available_at = available_at;
    next.last_error_category = Some("lease_expired".to_owned());
    next.last_error_message = Some("activity lease expired".to_owned());
    next.lease_owner = None;
    next.lease_token = None;
    next.lease_expires_at = None;
    next.updated_at = now;
    next.completed_at = if exhausted {
        Some(now)
    } else {
        None
    };
    Ok(Reconciliation { next, attempt, event, blocked })
}

/// What the end of an attempt writes.
#[derive(Debug)]
pub struct FinishPlan {
    pub next: ActivityRow,
    pub attempt: AttemptClose,
    /// The workflow's next row, where the end of the attempt changes it.
    pub workflow: Option<WorkflowRow>,
    pub event: EventDraft,
}

/// The row of an activity that succeeded.
pub open spec fn succeeded(row: ActivityRowModel, output: Seq<char>, now: i64) -> ActivityRowModel {
    ActivityRowModel {
        status: ActivityStatus::Succeeded,
        provider_result_json: Some(output),
        last_error_category: None,
        last_error_message: None,
        updated_at: now,
        completed_at: Some(now),
        ..lease::activity_unleased(row)
    }
}

/// The row of an activity that will run again.
pub open spec fn retry_scheduled(
    row: ActivityRowModel,
    available_at: i64,
    category: Seq<char>,
    message: Seq<char>,
    now: i64,
) -> ActivityRowModel {
    ActivityRowModel {
        status: ActivityStatus::Pending,
        available_at,
        last_error_category: Some(category),
        last_error_message: Some(message),
        updated_at: now,
        ..lease::activity_unleased(row)
    }
}

/// The row of an activity that will not run again.
pub open spec fn dead_lettered(
    row: ActivityRowModel,
    category: Seq<char>,
    message: Seq<char>,
    now: i64,
) -> ActivityRowModel {
    ActivityRowModel {
        status: ActivityStatus::DeadLettered,
        last_error_category: Some(category),
        last_error_message: Some(message),
        updated_at: now,
        completed_at: Some(now),
        ..lease::activity_unleased(row)
    }
}

/// Whether a failed attempt ends its activity.
pub open spec fn ends_activity(outcome: ExecutionOutcomeModel, attempt: i32, max_attempts: i32) -> bool {
    match outcome {
        ExecutionOutcomeModel::Succeeded(_) => false,
        ExecutionOutcomeModel::Retryable { .. } => attempt >= max_attempts,
        ExecutionOutcomeModel::Permanent { .. } => true,
    }
}

/// Why the end of an attempt that ends its activity cannot be settled.
pub open spec fn end_error(
    row: ActivityRowModel,
    workflow: WorkflowRowModel,
    success: bool,
) -> Option<ErrorModel> {
    if !waits_for_activity(workflow, row.id) {
        Some(ErrorModel::FencedWrite)
    } else if row.workflow_id <= 0 {
        Some(ErrorModel::InvalidId(row.workflow_id as int))
    } else if success && row.command_sequence < 0 {
        Some(ErrorModel::InvalidState("negative activity command sequence"@))
    } else {
        None
    }
}

/// Why the retry of an activity cannot be settled.
pub open spec fn retry_error(
    row: ActivityRowModel,
    attempt: i32,
    stored_policy: Result<RetryPolicy, ErrorModel>,
) -> Option<ErrorModel> {
    match stored_policy {
        Err(error) => Some(error),
        Ok(policy) => match retry_delay(
            policy.spec_backoff(),
            attempt,
            retry_seed(row.id, ":retry:"@, attempt),
        ) {
            Err(error) => Some(error),
            Ok(_) => if row.workflow_id <= 0 {
                Some(ErrorModel::InvalidId(row.workflow_id as int))
            } else {
                None
            },
        },
    }
}

/// Why the end of an attempt cannot be settled.
pub open spec fn finish_error(
    row: ActivityRowModel,
    attempt: i32,
    workflow: WorkflowRowModel,
    outcome: ExecutionOutcomeModel,
    stored_policy: Result<RetryPolicy, ErrorModel>,
) -> Option<ErrorModel> {
    if outcome is Succeeded || ends_activity(outcome, attempt, row.max_attempts) {
        end_error(row, workflow, outcome is Succeeded)
    } else {
        retry_error(row, attempt, stored_policy)
    }
}

/// What the success of an activity writes to its stored row: its workflow is told
/// the output.
pub open spec fn success_is(
    plan: FinishPlan,
    row: ActivityRowModel,
    stored: ActivityRowModel,
    workflow: WorkflowRowModel,
    output: Seq<char>,
    now: i64,
) -> bool {
    &&& plan.next@ == succeeded(stored, output, now)
    &&& plan.attempt@ == (AttemptCloseModel {
        finished_at: now,
        outcome: "succeeded"@,
        error_category: None,
        error_message: None,
        provider_result_json: Some(output),
    })
    &&& plan.workflow matches Some(next)
    &&& next@ == workflows::wait_cleared(workflow, now)
    &&& plan.event@ == events::delivery_model(
        row.workflow_id,
        arith::clamp32(workflow.delivered_event_sequence + 1),
        "activity_succeeded"@,
        WorkflowEventModel::ActivitySucceeded {
            command_sequence: row.command_sequence as u32,
            result: StepResultModel { kind: row.kind, version: row.version, output_json: output },
        },
        now,
    )
}

/// What the final failure of an activity writes to its stored row: its workflow is
/// blocked.
pub open spec fn dead_letter_is(
    plan: FinishPlan,
    row: ActivityRowModel,
    stored: ActivityRowModel,
    workflow: WorkflowRowModel,
    category: Seq<char>,
    message: Seq<char>,
    now: i64,
) -> bool {
    &&& plan.next@ == dead_lettered(stored, category, message, now)
    &&& plan.attempt@ == (AttemptCloseModel {
        finished_at: now,
        outcome: "dead_lettered"@,
        error_category: Some(category),
        error_message: Some(message),
        provider_result_json: None,
    })
    &&& plan.workflow matches Some(next)
    &&& next@ == blocked(workflow, category, message, now)
    &&& plan.event@ == activity_history(
        row.workflow_id,
        "activity_dead_lettered"@,
        message,
        now,
    )
}

/// What a failure that is retried writes to the stored row: the workflow goes on
/// waiting.
pub open spec fn retry_is(
    plan: FinishPlan,
    row: ActivityRowModel,
    stored: ActivityRowModel,
    attempt: i32,
    retry_policy: RetryPolicy,
    category: Seq<char>,
    message: Seq<char>,
    now: i64,
) -> bool {
    let delay = retry_delay(
        retry_policy.spec_backoff(),
        attempt,
        retry_seed(row.id, ":retry:"@, attempt),
    );
    &&& plan.next@ == retry_scheduled(
        stored,
        arith::clamp64(now + delay->Ok_0),
        category,
        message,
        now,
    )
    &&& plan.attempt@ == (AttemptCloseModel {
        finished_at: now,
        outcome: "retryable_failure"@,
        error_category: Some(category),
        error_message: Some(message),
        provider_result_json: None,
    })
    &&& plan.workflow is None
    &&& plan.event@ == activity_history(
        row.workflow_id,
        "activity_retry_scheduled"@,
        message,
        now,
    )
}

/// What the end of an attempt writes, for every outcome: `row` is the claimed row,
/// by which it is decided, and `stored` the row that is written to.
pub open spec fn finish_is(
    plan: FinishPlan,
    row: ActivityRowModel,
    stored: ActivityRowModel,
    attempt: i32,
    workflow: WorkflowRowModel,
    outcome: ExecutionOutcomeModel,
    stored_policy: Result<RetryPolicy, ErrorModel>,
    now: i64,
) -> bool {
    match outcome {
        ExecutionOutcomeModel::Succeeded(output) => success_is(plan, row, stored, workflow, output, now),
        ExecutionOutcomeModel::Retryable { category, message } => if attempt >= row.max_attempts {
            dead_letter_is(plan, row, stored, workflow, category, message, now)
        } else {
            retry_is(plan, row, stored, attempt, stored_policy->Ok_0, category, message, now)
        },
        ExecutionOutcomeModel::Permanent { category, message } => dead_letter_is(
            plan,
            row,
            stored,
            workflow,
            category,
            message,
            now,
        ),
    }
}

/// Settles how a claimed attempt ended; `stored` is the row that is written to.
///
/// The write is fenced by the claim's attempt and token; a success or a final
/// failure also needs the workflow to still wait for this activity.
pub fn finish_attempt(
    claim: &ActivityClaim,
    stored: &ActivityRow,
    workflow: WorkflowRow,
    outcome: ExecutionOutcome,
    stored_policy: Result<RetryPolicy, DurableError>,
    now: i64,
) -> (result: Result<FinishPlan, DurableError>)
    ensures
        ({
            let row = claim.spec_row();
            let attempt = claim.spec_attempt();
            let policy_model = error::result_model(stored_policy);
            match result {
                Ok(plan) => finish_error(row, attempt, workflow@, outcome@, policy_model) is None
                    && finish_is(
                    plan,
                    row,
                    stored@,
                    attempt,
                    workflow@,
                    outcome@,
                    policy_model,
                    now,
                ),
                Err(error) => finish_error(row, attempt, workflow@, outcome@, policy_model)
                    == Some(error@),
            }
        }),
{
    match outcome {
        ExecutionOutcome::Succeeded(output) => finish_succeeded(claim, stored, workflow, output, now),
        ExecutionOutcome::Retryable { category, message } => {
            if claim.attempt_number >= claim.row.max_attempts {
                finish_dead_letter(claim, stored, workflow, category, message, now)
            } else {
                match stored_policy {
                    Ok(retry_policy) => finish_retry(claim, stored, retry_policy, category, message, now),
                    Err(error) => Err(error),
                }
            }
        },
        ExecutionOutcome::Permanent { category, message } => {
            finish_dead_letter(claim, stored, workflow, category, message, now)
        },
    }
}

fn finish_succeeded(
    claim: &ActivityClaim,
    stored: &ActivityRow,
    workflow: WorkflowRow,
    output: String,
    now: i64,
) -> (result: Result<FinishPlan, DurableError>)
    ensures
        match result {
            Ok(plan) => end_error(claim.spec_row(), workflow@, true) is None && success_is(
                plan,
                claim.spec_row(),
                stored@,
                workflow@,
                output@,
                now,
            ),
            Err(error) => end_error(claim.spec_row(), workflow@, true) == Some(error@),
        },
{
    let row = &claim.row;
    if !awaits_activity(&workflow, row.id) {
        return Err(DurableError::FencedWrite);
    }
    match WorkflowId::new(row.workflow_id) {
        Ok(_) => {},
        Err(error) => return Err(error),
    }
    if row.command_sequence < 0 {
        return Err(invalid_state("negative activity command sequence"));
    }
    let event = delivery_event(
        row.workflow_id,
        next_i32(workflow.delivered_event_sequence),
        "activity_succeeded",
        WorkflowEvent::ActivitySucceeded {
            command_sequence: row.command_sequence as u32,
            result: StepResult {
                kind: row.kind.clone(),
                version: row.version,
                output_json: output.clone(),
            },
        },
        now,
    );
    let mut next = stored.clone();
    next.status = ActivityStatus::Succeeded;
    next.provider_result_json = Some(output.clone());
    next.last_error_category = None;
    next.last_error_message = None;
    next.lease_owner = None;
    next.lease_token = None;
    next.lease_expires_at = None;
    next.updated_at = now;
    next.completed_at = Some(now);
    Ok(
        FinishPlan {
            next,
            attempt: AttemptClose {
                finished_at: now,
                outcome: "succeeded",
                error_category: None,
                error_message: None,
                provider_result_json: Some(output),
            },
            workflow: Some(clear_wait(workflow, now)),
            event,
        },
    )
}

fn finish_retry(
    claim: &ActivityClaim,
    stored: &ActivityRow,
    retry_policy: RetryPolicy,
    category: String,
    message: String,
    now: i64,
) -> (result: Result<FinishPlan, DurableError>)
    ensures
        ({
            let row = claim.spec_row();
            let policy_model = Ok::<RetryPolicy, ErrorModel>(retry_policy);
            match result {
                Ok(plan) => retry_error(row, claim.spec_attempt(), policy_model) is None && retry_is(
                    plan,
                    row,
                    stored@,
                    claim.spec_attempt(),
                    retry_policy,
                    category@,
                    message@,
                    now,
                ),
                Err(error) => retry_error(row, claim.spec_attempt(), policy_model) == Some(error@),
            }
        }),
{
    let row = &claim.row;
    let delay: i64 = match retry_delay_millis(
        retry_policy,
        row.id,
        ":retry:",
        claim.attempt_number,
    ) {
        Ok(delay) => delay,
        Err(error) => return Err(error),
    };
    match WorkflowId::new(row.workflow_id) {
        Ok(_) => {},
        Err(error) => return Err(error),
    }
    let event = activity_event(
        row.workflow_id,
        "activity_retry_scheduled",
        message.clone(),
        now,
    );
    let mut next = stored.clone();
    next.status = ActivityStatus::Pending;
    next.available_at = saturating_sum(now, delay);
    next.last_error_category = Some(category.clone());
    next.last_error_message = Some(message.clone());
    next.lease_owner = None;
    next.lease_token = None;
    next.lease_expires_at = None;
    next.updated_at = now;
    Ok(
        FinishPlan {
            next,
            attempt: AttemptClose {
                finished_at: now,
                outcome: "retryable_failure",
                error_category: Some(category),
                error_message: Some(message),
                provider_result_json: None,
            },
            workflow: None,
            event,
        },
    )
}

fn finish_dead_letter(
    claim: &ActivityClaim,
    stored: &ActivityRow,
    workflow: WorkflowRow,
    category: String,
    message: String,
    now: i64,
) -> (result: Result<FinishPlan, DurableError>)
    ensures
        match result {
            Ok(plan) => end_error(claim.spec_row(), workflow@, false) is None && dead_letter_is(
                plan,
                claim.spec_row(),
                stored@,
                workflow@,
                category@,
                message@,
                now,
            ),
            Err(error) => end_error(claim.spec_row(), workflow@, false) == Some(error@),
        },
{
    let row = &claim.row;
    if !awaits_activity(&workflow, row.id) {
        return Err(DurableError::FencedWrite);
    }
    match WorkflowId::new(row.workflow_id) {
        Ok(_) => {},
        Err(error) => return Err(error),
    }
    let event = activity_event(row.workflow_id, "activity_dead_lettered", message.clone(), now);
    let mut next = stored.clone();
    next.status = ActivityStatus::DeadLettered;
    next.last_error_category = Some(category.clone());
    next.last_error_message = Some(message.clone());
    next.lease_owner = None;
    next.lease_token = None;
    next.lease_expires_at = None;
    next.updated_at = now;
    next.completed_at = Some(now);
    let blocked_row = block_workflow(workflow, category.as_str(), message.as_str(), now);
    Ok(
        FinishPlan {
            next,
            attempt: AttemptClose {
                finished_at: now,
                outcome: "dead_lettered",
                error_category: Some(category),
                error_message: Some(message),
                provider_result_json: None,
            },
            workflow: Some(blocked_row),
            event,
        },
    )
}

/// The success of an activity is delivered as it was: the event carries that very
/// output, with the kind and version of the activity, and answers the command that asked
/// for it. The output is stored with the activity and with its attempt, and the workflow
/// waits no longer.
pub proof fn law_success_delivers_its_output(
    plan: FinishPlan,
    row: ActivityRowModel,
    stored: ActivityRowModel,
    attempt: i32,
    workflow: WorkflowRowModel,
    output: Seq<char>,
    stored_policy: Result<RetryPolicy, ErrorModel>,
    now: i64,
)
    requires
        finish_error(
            row,
            attempt,
            workflow,
            ExecutionOutcomeModel::Succeeded(output),
            stored_policy,
        ) is None,
        finish_is(
            plan,
            row,
            stored,
            attempt,
            workflow,
            ExecutionOutcomeModel::Succeeded(output),
            stored_policy,
            now,
        ),
    ensures
        plan.event@.event matches Some(
            WorkflowEventModel::ActivitySucceeded { command_sequence, result },
        ) && command_sequence == row.command_sequence && result.kind == row.kind && result.version
            == row.version && result.output_json == output,
        plan.event@.workflow_id == row.workflow_id,
        plan.event@.event_type == "activity_succeeded"@,
        plan.event@.created_at == now,
        workflow.delivered_event_sequence < i32::MAX ==> (plan.event@.delivery_sequence matches Some(
            position,
        ) && position == workflow.delivered_event_sequence + 1),
        plan.next@.status == ActivityStatus::Succeeded,
        plan.next@.provider_result_json == Some(output),
        plan.next@.last_error_category is None && plan.next@.last_error_message is None,
        plan.next@.completed_at == Some(now),
        keeps_its_request(stored, plan.next@),
        plan.next@.available_at == stored.available_at,
        plan.attempt@.finished_at == now,
        plan.attempt@.outcome == "succeeded"@,
        plan.attempt@.provider_result_json == Some(output),
        plan.attempt@.error_category is None && plan.attempt@.error_message is None,
        plan.workflow matches Some(next) && models::same_workflow(workflow, next@)
            && models::same_progress(workflow, next@) && models::same_end(workflow, next@)
            && next@.status == WorkflowStatus::Ready && next@.wait_kind is None
            && next@.wait_reference_id is None && next@.available_at == now,
{
}

/// Whether an activity was asked for the same in two rows, with as many attempts made,
/// and is not leased in the second.
pub open spec fn keeps_its_request(a: ActivityRowModel, b: ActivityRowModel) -> bool {
    &&& models::same_activity(a, b)
    &&& a.attempt_count == b.attempt_count
    &&& b.lease_owner is None && b.lease_token is None && b.lease_expires_at is None
}

/// A failure ends the activity where it is permanent or the attempt was the last one;
/// every other one is retried.
pub proof fn law_failures_are_retried_while_attempts_are_left(
    plan: FinishPlan,
    row: ActivityRowModel,
    stored: ActivityRowModel,
    attempt: i32,
    workflow: WorkflowRowModel,
    outcome: ExecutionOutcomeModel,
    stored_policy: Result<RetryPolicy, ErrorModel>,
    now: i64,
)
    requires
        finish_is(plan, row, stored, attempt, workflow, outcome, stored_policy, now),
    ensures
        plan.next@.status == ActivityStatus::Succeeded <==> outcome is Succeeded,
        plan.next@.status == ActivityStatus::DeadLettered <==> outcome is Permanent || (
        outcome is Retryable && attempt >= row.max_attempts),
        plan.next@.status == ActivityStatus::Pending <==> outcome is Retryable && attempt
            < row.max_attempts,
        ends_activity(outcome, attempt, row.max_attempts) <==> plan.next@.status
            == ActivityStatus::DeadLettered,
{
}

/// The final failure of an activity is stored as it was, with the activity and with its
/// attempt, and its workflow is blocked with the same category and message: it goes on
/// waiting for this activity. Nothing is told to the workflow.
pub proof fn law_final_failure_blocks_the_workflow(
    plan: FinishPlan,
    row: ActivityRowModel,
    stored: ActivityRowModel,
    attempt: i32,
    workflow: WorkflowRowModel,
    category: Seq<char>,
    message: Seq<char>,
    stored_policy: Result<RetryPolicy, ErrorModel>,
    now: i64,
)
    requires
        finish_is(
            plan,
            row,
            stored,
            attempt,
            workflow,
            ExecutionOutcomeModel::Permanent { category, message },
            stored_policy,
            now,
        ) || (attempt >= row.max_attempts && finish_is(
            plan,
            row,
            stored,
            attempt,
            workflow,
            ExecutionOutcomeModel::Retryable { category, message },
            stored_policy,
            now,
        )),
    ensures
        plan.next@.status == ActivityStatus::DeadLettered,
        plan.next@.last_error_category == Some(category),
        plan.next@.last_error_message == Some(message),
        plan.next@.completed_at == Some(now),
        plan.next@.updated_at == now,
        plan.next@.provider_result_json == stored.provider_result_json,
        plan.next@.available_at == stored.available_at,
        keeps_its_request(stored, plan.next@),
        plan.attempt@.finished_at == now,
        plan.attempt@.outcome == "dead_lettered"@,
        plan.attempt@.error_category == Some(category),
        plan.attempt@.error_message == Some(message),
        plan.attempt@.provider_result_json is None,
        plan.workflow matches Some(next) && is_blocked_with(workflow, next@, category, message)
            && next@.updated_at == now,
        plan.event@.workflow_id == row.workflow_id,
        plan.event@.event_type == "activity_dead_lettered"@,
        plan.event@.reason == Some(message),
        plan.event@.delivery_sequence is None && plan.event@.event is None,
        plan.event@.created_at == now,
{
}

/// Whether a workflow is blocked with an error and is otherwise as it was.
pub open spec fn is_blocked_with(
    before: WorkflowRowModel,
    after: WorkflowRowModel,
    category: Seq<char>,
    message: Seq<char>,
) -> bool {
    &&& after.status == WorkflowStatus::Blocked
    &&& after.error_category == Some(category)
    &&& after.error_message == Some(message)
    &&& models::same_workflow(before, after)
    &&& models::same_progress(before, after)
    &&& models::same_wait(before, after)
    &&& after.result_json == before.result_json
    &&& after.available_at == before.available_at
    &&& after.activation_attempts == before.activation_attempts
    &&& after.consecutive_continuations == before.consecutive_continuations
    &&& after.completed_at == before.completed_at
    &&& after.lease_owner == before.lease_owner && after.lease_token == before.lease_token
    &&& after.lease_expires_at == before.lease_expires_at
}

/// A retried activity is pending again after its delay, with the failure stored as it
/// was; its workflow is not touched and goes on waiting.
pub proof fn law_retry_waits_for_its_delay(
    plan: FinishPlan,
    row: ActivityRowModel,
    stored: ActivityRowModel,
    attempt: i32,
    workflow: WorkflowRowModel,
    category: Seq<char>,
    message: Seq<char>,
    policy: RetryPolicy,
    now: i64,
)
    requires
        attempt < row.max_attempts,
        finish_error(
            row,
            attempt,
            workflow,
            ExecutionOutcomeModel::Retryable { category, message },
            Ok(policy),
        ) is None,
        finish_is(
            plan,
            row,
            stored,
            attempt,
            workflow,
            ExecutionOutcomeModel::Retryable { category, message },
            Ok(policy),
            now,
        ),
    ensures
        plan.next@.status == ActivityStatus::Pending,
        plan.next@.last_error_category == Some(category),
        plan.next@.last_error_message == Some(message),
        plan.next@.provider_result_json == stored.provider_result_json,
        plan.next@.completed_at == stored.completed_at,
        plan.next@.updated_at == now,
        keeps_its_request(stored, plan.next@),
        plan.next@.available_at >= now,
        ({
            let delay = retry_delay(
                policy.spec_backoff(),
                attempt,
                retry_seed(row.id, ":retry:"@, attempt),
            );
            delay matches Ok(millis) && (now + millis <= i64::MAX ==> plan.next@.available_at == now
                + millis)
        }),
        plan.attempt@.finished_at == now,
        plan.attempt@.outcome == "retryable_failure"@,
        plan.attempt@.error_category == Some(category),
        plan.attempt@.error_message == Some(message),
        plan.attempt@.provider_result_json is None,
        plan.workflow is None,
        plan.event@.workflow_id == row.workflow_id,
        plan.event@.event_type == "activity_retry_scheduled"@,
        plan.event@.reason == Some(message),
        plan.event@.delivery_sequence is None && plan.event@.event is None,
        plan.event@.created_at == now,
{
}

/// The end of an attempt is settled exactly where the workflow still waits for the
/// activity and the numbers are in range; a retry needs its policy instead of the wait.
pub proof fn law_attempt_is_refused_only_for_a_reason(
    row: ActivityRowModel,
    attempt: i32,
    workflow: WorkflowRowModel,
    outcome: ExecutionOutcomeModel,
    stored_policy: Result<RetryPolicy, ErrorModel>,
)
    ensures
        ({
            let refusal = finish_error(row, attempt, workflow, outcome, stored_policy);
            let waits = workflow.status == WorkflowStatus::WaitingActivity
                && workflow.wait_reference_id == Some(row.id);
            if outcome is Retryable && attempt < row.max_attempts {
                refusal is None <==> {
                    &&& row.workflow_id > 0
                    &&& stored_policy matches Ok(policy) && retry_delay(
                        policy.spec_backoff(),
                        attempt,
                        retry_seed(row.id, ":retry:"@, attempt),
                    ) is Ok
                }
            } else {
                &&& !waits ==> refusal == Some(ErrorModel::FencedWrite)
                &&& refusal is None <==> waits && row.workflow_id > 0 && (outcome is Succeeded
                    ==> row.command_sequence >= 0)
            }
        }),
{
}

/// An activity whose lease ran out is tried again while attempts are left, at the time
/// that its policy gives; the attempt that was the last one ends it and blocks the
/// workflow that waits for it. Either way the attempt is closed as expired.
pub proof fn law_expired_activity_is_retried_or_ends(
    done: Reconciliation,
    row: ActivityRowModel,
    workflow: WorkflowRowModel,
    available_at: i64,
    now: i64,
)
    requires
        reconciled_is(done, row, workflow, available_at, now),
    ensures
        keeps_its_request(row, done.next@),
        done.next@.provider_result_json == row.provider_result_json,
        done.next@.available_at == available_at,
        done.next@.last_error_category == Some("lease_expired"@),
        done.next@.last_error_message == Some("activity lease expired"@),
        done.next@.updated_at == now,
        row.attempt_count < row.max_attempts ==> done.next@.status == ActivityStatus::Pending
            && done.next@.completed_at is None && done.blocked is None,
        row.attempt_count >= row.max_attempts ==> done.next@.status == ActivityStatus::DeadLettered
            && done.next@.completed_at == Some(now),
        row.attempt_count >= row.max_attempts && workflow.status == WorkflowStatus::WaitingActivity
            && workflow.wait_reference_id == Some(row.id) ==> (done.blocked matches Some((
            next,
            event,
        )) && is_blocked_with(workflow, next@, "lease_expired"@, "activity lease expired"@)
            && next@.updated_at == now && event@.workflow_id == row.workflow_id
            && event@.event_type == "activity_dead_lettered"@),
        done.blocked is Some ==> workflow.status == WorkflowStatus::WaitingActivity
            && workflow.wait_reference_id == Some(row.id),
        done.attempt@.finished_at == now,
        done.attempt@.outcome == "lease_expired"@,
        done.attempt@.provider_result_json is None,
        done.event@.workflow_id == row.workflow_id,
        done.event@.event_type == "activity_lease_expired"@,
        done.event@.delivery_sequence is None && done.event@.event is None,
{
}

/// An expired activity that ends may be seen at once; one that is tried again waits for
/// the delay of its policy, and never runs before now.
pub proof fn law_expired_activity_waits_for_its_delay(
    row: ActivityRowModel,
    stored_policy: Result<RetryPolicy, ErrorModel>,
    now: i64,
)
    ensures
        match lease_lost_available(row, stored_policy, now) {
            Ok(at) => at >= now && (row.attempt_count >= row.max_attempts ==> at == now) && (
            row.attempt_count < row.max_attempts ==> stored_policy is Ok && {
                let delay = retry_delay(
                    stored_policy->Ok_0.spec_backoff(),
                    row.attempt_count,
                    retry_seed(row.id, ":lease_recovery:"@, row.attempt_count),
                );
                delay matches Ok(millis) && (now + millis <= i64::MAX ==> at == now + millis)
            }),
            Err(_) => row.attempt_count < row.max_attempts,
        },
        reconcile_error(row, stored_policy, now) is None <==> row.lease_token is Some
            && row.workflow_id > 0 && lease_lost_available(row, stored_policy, now) is Ok,
{
}

/// A lease that was not renewed is settled from its end on and not before; a running
/// activity without an end of its lease is settled at once, and only running ones are.
pub proof fn law_leases_are_settled_in_time(row: ActivityRowModel, now: i64)
    ensures
        reconcilable(row, now) ==> row.status == ActivityStatus::Running,
        row.status == ActivityStatus::Running ==> (reconcilable(row, now) <==> match row.lease_expires_at {
            Some(expiry) => now >= expiry,
            None => true,
        }),
{
}

/// The delay of a retry is that of its policy for the attempt that failed, in
/// milliseconds.
pub proof fn law_retry_delay_follows_the_policy(backoff: BackoffPolicy, attempt: i32, percentile: int)
    requires
        1 <= attempt,
        0 <= percentile <= 100,
    ensures
        ({
            let secs = policy::delay_secs(backoff, attempt as int, percentile);
            secs >= 0 && match retry_delay_at(backoff, attempt, percentile) {
                Ok(millis) => millis == secs * 1000,
                Err(_) => secs * 1000 > i64::MAX,
            }
        }),
{
}

/// Each attempt of each activity draws its own jitter, whether it failed or lost its
/// lease.
pub proof fn law_attempts_draw_their_own_jitter(
    activity_id: i64,
    attempt: i32,
    other_id: i64,
    other_attempt: i32,
)
    ensures
        retry_seed(activity_id, ":retry:"@, attempt) == retry_seed(
            other_id,
            ":retry:"@,
            other_attempt,
        ) ==> activity_id == other_id && attempt == other_attempt,
        retry_seed(activity_id, ":lease_recovery:"@, attempt) == retry_seed(
            other_id,
            ":lease_recovery:"@,
            other_attempt,
        ) ==> activity_id == other_id && attempt == other_attempt,
{
    reveal_strlit(":retry:");
    reveal_strlit(":lease_recovery:");
    if retry_seed(activity_id, ":retry:"@, attempt) == retry_seed(
        other_id,
        ":retry:"@,
        other_attempt,
    ) {
        numerals::lemma_two_numbers(
            "activity:"@,
            ":retry:"@,
            activity_id as int,
            attempt as int,
            other_id as int,
            other_attempt as int,
        );
    }
    if retry_seed(activity_id, ":lease_recovery:"@, attempt) == retry_seed(
        other_id,
        ":lease_recovery:"@,
        other_attempt,
    ) {
        numerals::lemma_two_numbers(
            "activity:"@,
            ":lease_recovery:"@,
            activity_id as int,
            attempt as int,
            other_id as int,
            other_attempt as int,
        );
    }
}

/// A claim makes the next attempt, leased to its worker for the activity's own lease
/// from now on, under the token that its claim holds. The attempt is recorded under the
/// same number, worker and token, as begun now and not ended. What the activity was
/// asked to do stays as it was.
pub proof fn law_claim_makes_the_next_attempt(
    claim: ActivityClaim,
    attempt: NewActivityAttemptRow,
    row: ActivityRowModel,
    schedule_run_id: Option<i64>,
    worker_id: Seq<char>,
    registered: bool,
    now: i64,
)
    requires
        claim_error(row, registered, now) is None,
        claim_is(claim, attempt, row, schedule_run_id, worker_id, now),
    ensures
        ({
            let next = claim.spec_row();
            &&& models::same_activity(row, next)
            &&& next.status == ActivityStatus::Running
            &&& next.attempt_count == row.attempt_count + 1
            &&& next.attempt_count <= row.max_attempts
            &&& next.lease_owner == Some(worker_id)
            &&& next.lease_token == Some(claim.spec_token())
            &&& next.lease_expires_at matches Some(expiry) && expiry == now
                + row.lease_duration_millis && expiry > now + row.timeout_millis
            &&& next.updated_at == now
            &&& next.available_at == row.available_at
            &&& next.provider_result_json == row.provider_result_json
            &&& next.last_error_category == row.last_error_category
            &&& next.last_error_message == row.last_error_message
            &&& next.completed_at == row.completed_at
            &&& claim.spec_attempt() == next.attempt_count
            &&& claim.spec_schedule_run() == schedule_run_id
            &&& attempt@.activity_id == row.id
            &&& attempt@.attempt_number == next.attempt_count
            &&& attempt@.worker_id == worker_id
            &&& attempt@.lease_token == claim.spec_token()
            &&& attempt@.started_at == now
            &&& attempt@.heartbeat_at == now
            &&& attempt@.finished_at is None
            &&& attempt@.outcome is None
            &&& attempt@.error_category is None
            &&& attempt@.error_message is None
            &&& attempt@.provider_result_json is None
        }),
{
}

/// A pending activity is claimed exactly where its definition is registered, an attempt
/// is left, its lease outlasts its timeout, and the end of the lease can be stored.
pub proof fn law_claim_is_refused_only_for_a_reason(
    row: ActivityRowModel,
    registered: bool,
    now: i64,
)
    ensures
        claim_error(row, registered, now) is None <==> {
            &&& registered
            &&& row.attempt_count < row.max_attempts
            &&& 0 < row.timeout_millis < row.lease_duration_millis
            &&& now + row.lease_duration_millis <= i64::MAX
        },
{
}

/// An activity is claimed from the time on at which it may run, only while it is pending,
/// and only for the workflow that waits for this very activity.
pub proof fn law_activities_are_claimed_in_time(
    row: ActivityRowModel,
    workflow: WorkflowRowModel,
    now: i64,
)
    ensures
        activity_claimable(row, workflow, now) <==> {
            &&& row.status == ActivityStatus::Pending
            &&& now >= row.available_at
            &&& row.workflow_id == workflow.id
            &&& workflow.status == WorkflowStatus::WaitingActivity
            &&& workflow.wait_reference_id == Some(row.id)
        },
        waits_for_activity(workflow, row.id) <==> workflow.status
            == WorkflowStatus::WaitingActivity && workflow.wait_reference_id == Some(row.id),
{
}

/// Renewing a lease moves its end to the given time from now, and nothing else.
pub proof fn law_renewal_only_moves_the_end(stored: ActivityRowModel, lease_millis: i64, now: i64)
    requires
        i64::MIN <= now + lease_millis <= i64::MAX,
    ensures
        ({
            let next = lease_renewed(stored, lease_millis, now);
            &&& models::same_activity(stored, next)
            &&& next.lease_expires_at matches Some(expiry) && expiry == now + lease_millis
            &&& next.updated_at == now
            &&& next.status == stored.status
            &&& next.attempt_count == stored.attempt_count
            &&& next.available_at == stored.available_at
            &&& next.provider_result_json == stored.provider_result_json
            &&& next.last_error_category == stored.last_error_category
            &&& next.last_error_message == stored.last_error_message
            &&& next.lease_owner == stored.lease_owner
            &&& next.lease_token == stored.lease_token
            &&& next.completed_at == stored.completed_at
        }),
{
}

/// A batch takes all that there is room for: it stops only at the topic's limit, at what
/// this process may run, or at the end of the batch.
pub proof fn law_batch_uses_its_room(persisted_limit: int, in_flight: int, local: int, left: int)
    requires
        0 <= local,
        0 <= left,
    ensures
        ({
            let share = batch_share(persisted_limit, in_flight, local, left);
            &&& 0 <= share
            &&& share == local || share == left || in_flight + share >= persisted_limit
        }),
{
}

/// A lease is renewed at least as often as configured, and at least three times while it
/// lasts, where it lasts three milliseconds or longer; never without a pause.
pub proof fn law_heartbeats_keep_the_lease(configured: nat, lease_millis: int)
    requires
        0 <= lease_millis,
    ensures
        ({
            let nanos = heartbeat_nanos(configured, lease_millis);
            &&& 0 <= nanos <= configured
            &&& configured > 0 ==> nanos > 0
            &&& lease_millis >= 3 ==> 3 * nanos <= lease_millis * 1_000_000
            &&& nanos == configured || nanos >= 1_000_000
            &&& nanos < configured && lease_millis >= 3 ==> 3 * (nanos + 1) > lease_millis
                * 1_000_000
        }),
{
}

/// What a handler gave is what its activity ends with: its very output, or its error with
/// the category and message as they are, where they fit. A retryable error stays
/// retryable and a permanent one permanent; what could not be dispatched is permanent.
pub proof fn law_outcome_is_what_the_handler_gave(result: Result<String, ActivityDispatchError>)
    ensures
        match result {
            Ok(output) => dispatched(result) == ExecutionOutcomeModel::Succeeded(output@),
            Err(ActivityDispatchError::Handler(ActivityError::Retryable { category, message })) =>
                dispatched(result) matches ExecutionOutcomeModel::Retryable {
                category: kept_category,
                message: kept_message,
            } && is_kept(category@, kept_category, 64) && is_kept(message@, kept_message, 2048),
            Err(ActivityDispatchError::Handler(ActivityError::Permanent { category, message })) =>
                dispatched(result) matches ExecutionOutcomeModel::Permanent {
                category: kept_category,
                message: kept_message,
            } && is_kept(category@, kept_category, 64) && is_kept(message@, kept_message, 2048),
            Err(ActivityDispatchError::Durable(error)) => dispatched(
                result,
            ) matches ExecutionOutcomeModel::Permanent { category, .. } && is_kept(
                "dispatch"@,
                category,
                64,
            ),
        },
{
    match result {
        Err(ActivityDispatchError::Handler(ActivityError::Retryable { category, message }))
        | Err(ActivityDispatchError::Handler(ActivityError::Permanent { category, message })) => {
            text::lemma_utf8_prefix(category@, error::MAX_ERROR_CATEGORY_BYTES as nat);
            text::lemma_utf8_prefix(message@, crate::MAX_ERROR_REASON_BYTES as nat);
        },
        _ => {
            text::lemma_utf8_prefix("dispatch"@, error::MAX_ERROR_CATEGORY_BYTES as nat);
        },
    }
}

/// Whether a text is kept: whole where it takes at most so many bytes, and otherwise the
/// part in front that does.
pub open spec fn is_kept(text: Seq<char>, kept: Seq<char>, max_bytes: nat) -> bool {
    &&& kept.len() <= text.len() && kept == text.take(kept.len() as int)
    &&& text::utf8_len(kept) <= max_bytes
    &&& text::utf8_len(text) <= max_bytes ==> kept == text
}

/// A worker stops relying on a lease before it runs out.
pub proof fn law_authority_ends_before_the_lease(lease_millis: int)
    requires
        lease_millis > 0,
    ensures
        0 <= authority_nanos(lease_millis) < lease_millis * 1_000_000,
        authority_nanos(lease_millis) + 1_000_000 == lease_millis * 1_000_000,
        authority_nanos(0) == 0,
{
}

/// How an attempt ended is told by a name of its own for each of the three ends.
pub proof fn law_outcomes_are_told_apart(a: ExecutionOutcomeModel, b: ExecutionOutcomeModel)
    ensures
        outcome_name(a) == outcome_name(b) <==> match (a, b) {
            (ExecutionOutcomeModel::Succeeded(_), ExecutionOutcomeModel::Succeeded(_)) => true,
            (ExecutionOutcomeModel::Retryable { .. }, ExecutionOutcomeModel::Retryable { .. }) =>
                true,
            (ExecutionOutcomeModel::Permanent { .. }, ExecutionOutcomeModel::Permanent { .. }) =>
                true,
            _ => false,
        },
        a is Succeeded ==> outcome_name(a) == "succeeded"@,
        a is Retryable ==> outcome_name(a) == "retryable"@,
        a is Permanent ==> outcome_name(a) == "permanent"@,
{
    reveal_strlit("succeeded");
    reveal_strlit("retryable");
    reveal_strlit("permanent");
    assert("succeeded"@[0] != "retryable"@[0]);
    assert("succeeded"@[0] != "permanent"@[0]);
    assert("retryable"@[0] != "permanent"@[0]);
}

/// The text of a failed dispatch tells an error of the handler from one of the engine.
pub proof fn law_dispatch_error_text_tells_the_error(error: ActivityDispatchError)
    ensures
        match error {
            ActivityDispatchError::Handler(inner) => dispatch_error_text(error)
                == "activity handler failed: "@ + error::activity_error_text(inner),
            ActivityDispatchError::Durable(inner) => dispatch_error_text(error)
                == "activity dispatch serialization failed: "@ + error::error_text(inner@),
        },
{
}

} // verus!
