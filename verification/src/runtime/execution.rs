//! The course of one activity attempt: what each signal does to it and when it
//! is settled.
//!
//! While an attempt runs its lease is kept by a heartbeat. The attempt is settled
//! only once the heartbeat has stopped, and only once.
use vstd::prelude::*;
use crate::duration::Duration;
use crate::error::ActivityError;
use crate::text;
use crate::runtime::activity_worker;
use crate::runtime::activity_worker::{
    dispatch_outcome, retryable_outcome, ActivityDispatchError, ExecutionOutcome,
    ExecutionOutcomeModel,
};

verus! {

/// What can happen while an attempt runs.
#[derive(Debug)]
pub enum ExecutionSignal {
    /// The runtime gives the attempt up without waiting for it.
    ForcedCancellation,
    /// The runtime asks the attempt to end.
    Cancellation,
    /// The time for cleaning up is over.
    GraceElapsed,
    /// The attempt ran longer than its activity allows.
    TimedOut,
    /// The heartbeat ended as asked.
    HeartbeatStopped,
    /// The handler returned.
    HandlerReturned(Result<String, ActivityDispatchError>),
}

/// What the runtime does about a signal.
#[derive(Debug, Clone, Copy, PartialEq, Eq, Structural)]
pub struct Reaction {
    pub cancel_handler: bool,
    pub stop_heartbeat: bool,
    /// Whether the time for cleaning up starts now.
    pub start_grace: bool,
    /// Whether the handler of a timed-out attempt was given up.
    pub cleanup_abandoned: bool,
}

/// What the runtime does next with an attempt.
#[derive(Debug)]
pub enum NextStep {
    Wait,
    /// Leaves the attempt to the recovery of its lease.
    Abandon,
    Settle(ExecutionOutcome),
}

/// The state of a running attempt.
#[derive(Debug)]
pub struct Execution {
    shutdown_requested: bool,
    forced: bool,
    heartbeat_stopped: bool,
    handler_returned: bool,
    cleanup_pending: bool,
    outcome: Option<ExecutionOutcome>,
}

/// The mathematical content of an [`Execution`].
#[verifier::ext_equal]
pub struct ExecutionModel {
    /// The attempt was asked to end, so its grace is running.
    pub shutdown_requested: bool,
    /// The runtime gave the attempt up.
    pub forced: bool,
    pub heartbeat_stopped: bool,
    pub handler_returned: bool,
    /// The attempt timed out and its handler may still clean up.
    pub cleanup_pending: bool,
    /// How the attempt will be settled.
    pub outcome: Option<ExecutionOutcomeModel>,
}

impl View for Execution {
    type V = ExecutionModel;

    closed spec fn view(&self) -> ExecutionModel {
        ExecutionModel {
            shutdown_requested: self.shutdown_requested,
            forced: self.forced,
            heartbeat_stopped: self.heartbeat_stopped,
            handler_returned: self.handler_returned,
            cleanup_pending: self.cleanup_pending,
            outcome: match self.outcome {
                Some(outcome) => Some(outcome@),
                None => None,
            },
        }
    }
}

/// The state at the start of an attempt.
pub open spec fn execution_started() -> ExecutionModel {
    ExecutionModel {
        shutdown_requested: false,
        forced: false,
        heartbeat_stopped: false,
        handler_returned: false,
        cleanup_pending: false,
        outcome: None,
    }
}

/// Whether a signal is listened to in a state.
pub open spec fn listens(state: ExecutionModel, signal: ExecutionSignal) -> bool {
    match signal {
        ExecutionSignal::ForcedCancellation => !state.forced,
        ExecutionSignal::Cancellation => !state.shutdown_requested,
        ExecutionSignal::GraceElapsed => (state.shutdown_requested && state.outcome is None)
            || state.cleanup_pending,
        ExecutionSignal::TimedOut => state.outcome is None,
        ExecutionSignal::HeartbeatStopped => !state.heartbeat_stopped,
        ExecutionSignal::HandlerReturned(_) => !state.handler_returned,
    }
}

/// The outcome of an attempt that did not end within its grace.
pub open spec fn grace_outcome() -> ExecutionOutcomeModel {
    ExecutionOutcomeModel::Retryable {
        category: activity_worker::cut_category("cancelled"@),
        message: activity_worker::cut_message("activity worker shutdown grace elapsed"@),
    }
}

/// The outcome of an attempt that ran too long.
pub open spec fn timeout_outcome() -> ExecutionOutcomeModel {
    ExecutionOutcomeModel::Retryable {
        category: activity_worker::cut_category("timeout"@),
        message: activity_worker::cut_message("activity execution exceeded its configured timeout"@),
    }
}

/// The state after a signal.
pub open spec fn after_signal(state: ExecutionModel, signal: ExecutionSignal) -> ExecutionModel {
    match signal {
        ExecutionSignal::ForcedCancellation => ExecutionModel { forced: true, ..state },
        ExecutionSignal::Cancellation => ExecutionModel { shutdown_requested: true, ..state },
        ExecutionSignal::GraceElapsed => ExecutionModel {
            cleanup_pending: false,
            outcome: if state.outcome is None {
                Some(grace_outcome())
            } else {
                state.outcome
            },
            ..state
        },
        ExecutionSignal::TimedOut => ExecutionModel {
            shutdown_requested: true,
            cleanup_pending: true,
            outcome: Some(timeout_outcome()),
            ..state
        },
        ExecutionSignal::HeartbeatStopped => ExecutionModel { heartbeat_stopped: true, ..state },
        ExecutionSignal::HandlerReturned(result) => ExecutionModel {
            handler_returned: true,
            cleanup_pending: false,
            outcome: if state.outcome is None && !state.forced {
                Some(activity_worker::dispatched(result))
            } else {
                state.outcome
            },
            ..state
        },
    }
}

/// What the runtime does about a signal.
pub open spec fn reaction(state: ExecutionModel, signal: ExecutionSignal) -> Reaction {
    match signal {
        ExecutionSignal::ForcedCancellation => Reaction {
            cancel_handler: true,
            stop_heartbeat: true,
            start_grace: false,
            cleanup_abandoned: false,
        },
        ExecutionSignal::Cancellation => Reaction {
            cancel_handler: true,
            stop_heartbeat: false,
            start_grace: true,
            cleanup_abandoned: false,
        },
        ExecutionSignal::GraceElapsed => Reaction {
            cancel_handler: false,
            stop_heartbeat: true,
            start_grace: false,
            cleanup_abandoned: state.cleanup_pending,
        },
        ExecutionSignal::TimedOut => Reaction {
            cancel_handler: true,
            stop_heartbeat: false,
            start_grace: !state.shutdown_requested,
            cleanup_abandoned: false,
        },
        ExecutionSignal::HeartbeatStopped => Reaction {
            cancel_handler: false,
            stop_heartbeat: false,
            start_grace: false,
            cleanup_abandoned: false,
        },
        ExecutionSignal::HandlerReturned(_) => Reaction {
            cancel_handler: false,
            stop_heartbeat: true,
            start_grace: false,
            cleanup_abandoned: false,
        },
    }
}

/// Whether the attempt is settled next.
pub open spec fn settles(state: ExecutionModel) -> bool {
    state.heartbeat_stopped && !state.forced && !state.cleanup_pending && state.outcome is Some
}

/// How many nanoseconds the handler of a revoked attempt may still clean up: the
/// smaller of its grace and the last confirmed lease, and none once it returned.
pub open spec fn cleanup_nanos(
    state: ExecutionModel,
    grace: nat,
    grace_left: nat,
    lease_left: nat,
) -> nat {
    let allowed = if state.shutdown_requested {
        grace_left
    } else {
        grace
    };
    if state.handler_returned {
        0
    } else if allowed <= lease_left {
        allowed
    } else {
        lease_left
    }
}

impl Execution {
    /// The state at the start of an attempt.
    pub fn start() -> (execution: Self)
        ensures
            execution@ == execution_started(),
    {
        Execution {
            shutdown_requested: false,
            forced: false,
            heartbeat_stopped: false,
            handler_returned: false,
            cleanup_pending: false,
            outcome: None,
        }
    }

    /// Whether the runtime's forced cancellation is listened to.
    pub fn listens_to_force(&self) -> (yes: bool)
        ensures
            yes == listens(self@, ExecutionSignal::ForcedCancellation),
    {
        !self.forced
    }

    /// Whether the runtime's cancellation is listened to.
    pub fn listens_to_cancellation(&self) -> (yes: bool)
        ensures
            yes == listens(self@, ExecutionSignal::Cancellation),
    {
        !self.shutdown_requested
    }

    /// Whether the end of the grace is listened to.
    pub fn listens_to_grace(&self) -> (yes: bool)
        ensures
            yes == listens(self@, ExecutionSignal::GraceElapsed),
    {
        (self.shutdown_requested && self.outcome.is_none()) || self.cleanup_pending
    }

    /// Whether the timeout is listened to.
    pub fn listens_to_timeout(&self) -> (yes: bool)
        ensures
            yes == listens(self@, ExecutionSignal::TimedOut),
    {
        self.outcome.is_none()
    }

    /// Whether the heartbeat is listened to.
    pub fn listens_to_heartbeat(&self) -> (yes: bool)
        ensures
            yes == listens(self@, ExecutionSignal::HeartbeatStopped),
    {
        !self.heartbeat_stopped
    }

    /// Whether the handler is listened to.
    pub fn listens_to_handler(&self) -> (yes: bool)
        ensures
            yes == !self@.handler_returned,
    {
        !self.handler_returned
    }

    /// How long the handler may still clean up after its lease was revoked: until
    /// its grace is over, and no longer than the last confirmed lease. `grace_left`
    /// is what is left of a grace that is already running.
    pub fn cleanup_left(&self, grace: Duration, grace_left: Duration, lease_left: Duration) -> (left:
        Option<Duration>)
        ensures
            match left {
                Some(left) => cleanup_nanos(self@, grace@, grace_left@, lease_left@) == left@ && left@
                    > 0,
                None => cleanup_nanos(self@, grace@, grace_left@, lease_left@) == 0,
            },
    {
        if self.handler_returned {
            return None;
        }
        let grace = if self.shutdown_requested {
            grace_left
        } else {
            grace
        };
        let left = if grace.as_nanos() <= lease_left.as_nanos() {
            grace
        } else {
            lease_left
        };
        if left.is_zero() {
            None
        } else {
            Some(left)
        }
    }

    /// Takes a signal that is listened to and says what the runtime does about it.
    pub fn receive(&mut self, signal: ExecutionSignal) -> (act: Reaction)
        requires
            listens(old(self)@, signal),
        ensures
            final(self)@ == after_signal(old(self)@, signal),
            act == reaction(old(self)@, signal),
    {
        match signal {
            ExecutionSignal::ForcedCancellation => {
                self.forced = true;
                Reaction {
                    cancel_handler: true,
                    stop_heartbeat: true,
                    start_grace: false,
                    cleanup_abandoned: false,
                }
            },
            ExecutionSignal::Cancellation => {
                self.shutdown_requested = true;
                Reaction {
                    cancel_handler: true,
                    stop_heartbeat: false,
                    start_grace: true,
                    cleanup_abandoned: false,
                }
            },
            ExecutionSignal::GraceElapsed => {
                let cleanup_abandoned = self.cleanup_pending;
                self.cleanup_pending = false;
                if self.outcome.is_none() {
                    self.outcome = Some(
                        retryable_outcome("cancelled", "activity worker shutdown grace elapsed"),
                    );
                }
                Reaction {
                    cancel_handler: false,
                    stop_heartbeat: true,
                    start_grace: false,
                    cleanup_abandoned,
                }
            },
            ExecutionSignal::TimedOut => {
                let start_grace = !self.shutdown_requested;
                self.shutdown_requested = true;
                self.cleanup_pending = true;
                self.outcome = Some(
                    retryable_outcome(
                        "timeout",
                        "activity execution exceeded its configured timeout",
                    ),
                );
                Reaction {
                    cancel_handler: true,
                    stop_heartbeat: false,
                    start_grace,
                    cleanup_abandoned: false,
                }
            },
            ExecutionSignal::HeartbeatStopped => {
                self.heartbeat_stopped = true;
                Reaction {
                    cancel_handler: false,
                    stop_heartbeat: false,
                    start_grace: false,
                    cleanup_abandoned: false,
                }
            },
            ExecutionSignal::HandlerReturned(result) => {
                self.handler_returned = true;
                self.cleanup_pending = false;
                if self.outcome.is_none() && !self.forced {
                    self.outcome = Some(dispatch_outcome(result));
                }
                Reaction {
                    cancel_handler: false,
                    stop_heartbeat: true,
                    start_grace: false,
                    cleanup_abandoned: false,
                }
            },
        }
    }

    /// What the runtime does next; a settled outcome is handed out once.
    pub fn next_step(&mut self) -> (step: NextStep)
        ensures
            match step {
                NextStep::Abandon => old(self)@.heartbeat_stopped && old(self)@.forced
                    && final(self)@ == old(self)@,
                NextStep::Settle(outcome) => settles(old(self)@) && old(self)@.outcome == Some(
                    outcome@,
                ) && final(self)@ == (ExecutionModel { outcome: None, ..old(self)@ }),
                NextStep::Wait => !(old(self)@.heartbeat_stopped && old(self)@.forced) && !settles(
                    old(self)@,
                ) && final(self)@ == old(self)@,
            },
    {
        if self.heartbeat_stopped {
            if self.forced {
                return NextStep::Abandon;
            }
            if !self.cleanup_pending {
                match self.outcome.take() {
                    Some(outcome) => return NextStep::Settle(outcome),
                    None => {},
                }
            }
        }
        NextStep::Wait
    }
}

/// Once it is known how an attempt will be settled, no signal that is listened
/// to changes it: a late result of a timed-out handler is dropped.
pub proof fn law_first_outcome_stands(state: ExecutionModel, signal: ExecutionSignal)
    requires
        state.outcome is Some,
        listens(state, signal),
    ensures
        after_signal(state, signal).outcome == state.outcome,
{
}

/// An attempt that the runtime gave up is never settled, whatever happens next.
pub proof fn law_forced_attempt_is_never_settled(state: ExecutionModel, signal: ExecutionSignal)
    requires
        state.forced,
    ensures
        !settles(state),
        after_signal(state, signal).forced,
{
}

/// An attempt is settled or abandoned only after its heartbeat has stopped, so that
/// no renewal can follow: a stopped heartbeat is not listened to again, and no signal
/// starts it anew.
pub proof fn law_settling_follows_the_heartbeat(state: ExecutionModel, signal: ExecutionSignal)
    ensures
        settles(state) ==> state.heartbeat_stopped,
        state.heartbeat_stopped ==> after_signal(state, signal).heartbeat_stopped && !listens(
            state,
            ExecutionSignal::HeartbeatStopped,
        ),
{
}

/// Every signal that leads to an outcome either stops the heartbeat or starts the
/// grace whose end stops it.
pub proof fn law_outcomes_stop_the_heartbeat(state: ExecutionModel, signal: ExecutionSignal)
    requires
        listens(state, signal),
        state.outcome is None,
        after_signal(state, signal).outcome is Some,
    ensures
        reaction(state, signal).stop_heartbeat || (after_signal(state, signal).cleanup_pending
            && listens(after_signal(state, signal), ExecutionSignal::GraceElapsed)),
{
}

/// An attempt that was asked to end and whose handler does not return is settled
/// as retryable when its grace is over.
pub proof fn law_grace_settles_the_attempt(state: ExecutionModel)
    requires
        state.shutdown_requested,
        state.outcome is None,
        !state.forced,
    ensures
        listens(state, ExecutionSignal::GraceElapsed),
        reaction(state, ExecutionSignal::GraceElapsed).stop_heartbeat,
        ({
            let elapsed = after_signal(state, ExecutionSignal::GraceElapsed);
            let stopped = after_signal(elapsed, ExecutionSignal::HeartbeatStopped);
            settles(stopped) && stopped.outcome == Some(grace_outcome())
        }),
{
}

/// Cleanup after a revoked lease never outlives the lease or the grace.
pub proof fn law_cleanup_stays_within_the_lease(
    state: ExecutionModel,
    grace: nat,
    grace_left: nat,
    lease_left: nat,
)
    requires
        grace_left <= grace,
    ensures
        cleanup_nanos(state, grace, grace_left, lease_left) <= lease_left,
        cleanup_nanos(state, grace, grace_left, lease_left) <= grace,
{
}

/// What a heartbeat does next.
#[derive(Debug, Clone, Copy, PartialEq, Eq, Structural)]
pub enum HeartbeatStep {
    /// Waits until it is stopped, the lease ends or the next renewal is due,
    /// whichever is first in this order.
    Wait,
    /// Renews the lease, unless the lease ends first.
    Renew,
    /// Ends as asked.
    Finish,
    /// Ends because the lease is lost.
    Fence,
    /// Ends with the error of the renewal.
    Fail,
}

/// What happened to a heartbeat.
#[derive(Debug, Clone, Copy, PartialEq, Eq, Structural)]
pub enum HeartbeatEvent {
    Stopped,
    LeaseEnded,
    RenewalDue,
    Renewed,
    RenewalFailed,
}

/// What a heartbeat does after an event.
pub open spec fn heartbeat_after(event: HeartbeatEvent) -> HeartbeatStep {
    match event {
        HeartbeatEvent::Stopped => HeartbeatStep::Finish,
        HeartbeatEvent::LeaseEnded => HeartbeatStep::Fence,
        HeartbeatEvent::RenewalDue => HeartbeatStep::Renew,
        HeartbeatEvent::Renewed => HeartbeatStep::Wait,
        HeartbeatEvent::RenewalFailed => HeartbeatStep::Fail,
    }
}

/// What a heartbeat does after an event. It begins with [`HeartbeatStep::Wait`].
pub fn heartbeat_step(event: HeartbeatEvent) -> (step: HeartbeatStep)
    ensures
        step == heartbeat_after(event),
{
    match event {
        HeartbeatEvent::Stopped => HeartbeatStep::Finish,
        HeartbeatEvent::LeaseEnded => HeartbeatStep::Fence,
        HeartbeatEvent::RenewalDue => HeartbeatStep::Renew,
        HeartbeatEvent::Renewed => HeartbeatStep::Wait,
        HeartbeatEvent::RenewalFailed => HeartbeatStep::Fail,
    }
}

/// What a handler returns settles its attempt as it is, where nothing settled it before and
/// the runtime did not give it up: an output succeeds with that very output, a retryable
/// error is retryable, and a permanent one permanent.
pub proof fn law_handler_settles_its_attempt(
    state: ExecutionModel,
    result: Result<String, activity_worker::ActivityDispatchError>,
)
    ensures
        ({
            let after = after_signal(state, ExecutionSignal::HandlerReturned(result));
            &&& after.handler_returned
            &&& !after.cleanup_pending
            &&& reaction(state, ExecutionSignal::HandlerReturned(result)).stop_heartbeat
            &&& state.outcome is None && !state.forced ==> match result {
                Ok(output) => after.outcome == Some(ExecutionOutcomeModel::Succeeded(output@)),
                Err(activity_worker::ActivityDispatchError::Handler(ActivityError::Retryable { .. })) =>
                    after.outcome matches Some(ExecutionOutcomeModel::Retryable { .. }),
                Err(_) => after.outcome matches Some(ExecutionOutcomeModel::Permanent { .. }),
            }
            &&& state.outcome is None && state.forced ==> after.outcome is None
            &&& after.forced == state.forced
            &&& after.heartbeat_stopped == state.heartbeat_stopped
            &&& after.shutdown_requested == state.shutdown_requested
        }),
{
}

/// An attempt that runs too long is retryable as a timeout; its handler is cancelled and
/// may clean up for its grace, which starts now where it was not running.
pub proof fn law_timeout_is_retryable(state: ExecutionModel)
    ensures
        ({
            let after = after_signal(state, ExecutionSignal::TimedOut);
            let act = reaction(state, ExecutionSignal::TimedOut);
            &&& after.outcome matches Some(ExecutionOutcomeModel::Retryable { category, .. })
                && activity_worker::is_kept("timeout"@, category, 64)
            &&& after.shutdown_requested && after.cleanup_pending
            &&& act.cancel_handler && !act.stop_heartbeat && !act.cleanup_abandoned
            &&& act.start_grace == !state.shutdown_requested
            &&& !settles(after)
            &&& listens(state, ExecutionSignal::TimedOut) == (state.outcome is None)
        }),
{
    text::lemma_utf8_prefix("timeout"@, 64);
}

/// A cancelled attempt cancels its handler and gives it its grace, once; what it ends with
/// is still open. An attempt that is forced to end cancels its handler and stops its
/// heartbeat at once, and ends with nothing new.
pub proof fn law_cancellation_gives_a_grace(state: ExecutionModel)
    ensures
        ({
            let asked = after_signal(state, ExecutionSignal::Cancellation);
            let act = reaction(state, ExecutionSignal::Cancellation);
            &&& asked == (ExecutionModel { shutdown_requested: true, ..state })
            &&& !listens(asked, ExecutionSignal::Cancellation)
            &&& listens(state, ExecutionSignal::Cancellation) == !state.shutdown_requested
            &&& act.cancel_handler && act.start_grace && !act.stop_heartbeat
        }),
        ({
            let forced = after_signal(state, ExecutionSignal::ForcedCancellation);
            let act = reaction(state, ExecutionSignal::ForcedCancellation);
            &&& forced == (ExecutionModel { forced: true, ..state })
            &&& !listens(forced, ExecutionSignal::ForcedCancellation)
            &&& act.cancel_handler && act.stop_heartbeat && !act.start_grace
        }),
{
}

/// The end of the grace ends the cleanup, and ends an open attempt as cancelled, which is
/// retryable; an outcome that stands is kept.
pub proof fn law_grace_ends_the_cleanup(state: ExecutionModel)
    ensures
        ({
            let after = after_signal(state, ExecutionSignal::GraceElapsed);
            let act = reaction(state, ExecutionSignal::GraceElapsed);
            &&& !after.cleanup_pending
            &&& state.outcome is Some ==> after.outcome == state.outcome
            &&& state.outcome is None ==> (after.outcome matches Some(
                ExecutionOutcomeModel::Retryable { category, .. },
            ) && activity_worker::is_kept("cancelled"@, category, 64))
            &&& act.stop_heartbeat && !act.cancel_handler && !act.start_grace
            &&& act.cleanup_abandoned == state.cleanup_pending
        }),
{
    text::lemma_utf8_prefix("cancelled"@, 64);
}

/// An attempt is settled exactly once its heartbeat has stopped, its outcome stands, its
/// handler no longer cleans up, and the runtime did not give it up.
pub proof fn law_attempts_are_settled_when_done(state: ExecutionModel)
    ensures
        settles(state) <==> state.heartbeat_stopped && state.outcome is Some
            && !state.cleanup_pending && !state.forced,
        !settles(execution_started()),
        forall|signal: ExecutionSignal|
            signal !is GraceElapsed ==> #[trigger] listens(execution_started(), signal),
{
}

/// A revoked handler may clean up for as long as both its grace and its lease last, and not
/// at all once it returned; a grace that is running counts with what is left of it.
pub proof fn law_cleanup_uses_the_grace(
    state: ExecutionModel,
    grace: nat,
    grace_left: nat,
    lease_left: nat,
)
    ensures
        ({
            let left = cleanup_nanos(state, grace, grace_left, lease_left);
            let allowed = if state.shutdown_requested {
                grace_left
            } else {
                grace
            };
            &&& state.handler_returned ==> left == 0
            &&& !state.handler_returned ==> left <= allowed && left <= lease_left && (left == allowed
                || left == lease_left)
        }),
{
}

/// A heartbeat ends when it is stopped, when its lease is lost and when a renewal fails,
/// each in its own way; only a due renewal is made, and after it the heartbeat waits again.
pub proof fn law_heartbeat_ends_for_a_reason(event: HeartbeatEvent)
    ensures
        heartbeat_after(event) == HeartbeatStep::Finish <==> event == HeartbeatEvent::Stopped,
        heartbeat_after(event) == HeartbeatStep::Fence <==> event == HeartbeatEvent::LeaseEnded,
        heartbeat_after(event) == HeartbeatStep::Fail <==> event == HeartbeatEvent::RenewalFailed,
        heartbeat_after(event) == HeartbeatStep::Renew <==> event == HeartbeatEvent::RenewalDue,
        heartbeat_after(event) == HeartbeatStep::Wait <==> event == HeartbeatEvent::Renewed,
{
}

} // verus!
