//! The decisions of the loop that claims activities and starts their executions.
use vstd::prelude::*;
use crate::duration::Duration;
use crate::runtime::executions::{ExecutionSnapshot, RuntimeTaskFailure};
use crate::runtime::supervisor;
use crate::runtime::supervisor::{
    after_sweep, dispatch_capacity, dispatch_room, jittered_idle_delay, local_topic_capacity,
    TopicWorkerLimits,
};
use crate::topics::TopicDefinition;

verus! {

/// What the loop of a dispatcher does next.
#[derive(Debug)]
pub enum DispatchAction {
    /// Looks whether the runtime is cancelled.
    CheckCancelled,
    /// Takes a failure of its executions.
    TakeFailure,
    /// Counts the running executions, unless the runtime is cancelled first.
    TakeSnapshot,
    /// Waits until the executions change or the runtime is cancelled.
    AwaitChange,
    /// Claims at most `room` activities, of each topic at most its local room.
    Claim { room: usize, local: Vec<(String, usize)> },
    /// Waits for a while, until the executions change or the runtime is cancelled.
    Idle(Duration),
    /// Starts an execution for each claim.
    StartClaims,
    /// Ends the loop.
    Stop,
    /// Ends the loop with a failure.
    Fail(RuntimeTaskFailure),
}

/// What came of an action.
#[derive(Debug)]
pub enum DispatchEvent {
    /// Whether the runtime is cancelled.
    Cancelled(bool),
    /// The failure that was taken, if any.
    Failure(Option<RuntimeTaskFailure>),
    /// The running executions; none where the runtime was cancelled first.
    Snapshot(Option<ExecutionSnapshot>),
    /// How many activities were claimed.
    Claimed(usize),
    /// The waiting is over.
    Waited,
    /// The executions are started.
    Started,
}

/// A dispatcher: the topics with their limits, and how many looks in a row found
/// nothing to claim.
#[derive(Debug)]
pub struct Dispatcher<'a> {
    definitions: Vec<TopicDefinition>,
    default_limit: u32,
    limits: &'a TopicWorkerLimits,
    runtime_id: &'a str,
    capacity: usize,
    empty_sweeps: usize,
}

/// The mathematical content of a [`Dispatcher`].
#[verifier::ext_equal]
pub struct DispatcherModel {
    pub definitions: Seq<TopicDefinition>,
    pub default_limit: u32,
    pub limits: TopicWorkerLimits,
    pub runtime_id: Seq<char>,
    pub empty_sweeps: usize,
}

impl<'a> View for Dispatcher<'a> {
    type V = DispatcherModel;

    closed spec fn view(&self) -> DispatcherModel {
        DispatcherModel {
            definitions: self.definitions@,
            default_limit: self.default_limit,
            limits: *self.limits,
            runtime_id: self.runtime_id@,
            empty_sweeps: self.empty_sweeps,
        }
    }
}

/// How many executions a dispatcher runs at most: the sum of the local limits, or
/// what a machine word holds.
pub open spec fn capacity_bound(dispatcher: DispatcherModel) -> int {
    let sum = supervisor::capacity_of(
        dispatcher.definitions,
        dispatcher.default_limit,
        dispatcher.limits,
    );
    if sum > usize::MAX {
        usize::MAX as int
    } else {
        sum
    }
}

/// Whether an action claims what running executions leave room for.
pub open spec fn claims_room(
    dispatcher: DispatcherModel,
    snapshot: ExecutionSnapshot,
    action: DispatchAction,
) -> bool {
    match action {
        DispatchAction::Claim { room, local } => {
            &&& room > 0
            &&& snapshot.total + room == capacity_bound(dispatcher)
            &&& local@.len() == dispatcher.definitions.len()
            &&& forall|i: int|
                0 <= i < local@.len() ==> (#[trigger] local@[i]).0 == dispatcher.definitions[i].key
                    && local@[i].1 == supervisor::local_room(
                    dispatcher.definitions[i],
                    dispatcher.default_limit,
                    dispatcher.limits,
                    snapshot,
                )
        },
        DispatchAction::AwaitChange => snapshot.total >= capacity_bound(dispatcher),
        _ => false,
    }
}

/// Whether an action is the one that follows an event: a round looks for a
/// cancellation, then for a failure, then for room, claims, and starts what was
/// claimed, or waits where there is no room or nothing to claim.
pub open spec fn follows(
    dispatcher: DispatcherModel,
    event: DispatchEvent,
    action: DispatchAction,
) -> bool {
    match event {
        DispatchEvent::Cancelled(cancelled) => action == (if cancelled {
            DispatchAction::Stop
        } else {
            DispatchAction::TakeFailure
        }),
        DispatchEvent::Failure(Some(failure)) => action == DispatchAction::Fail(failure),
        DispatchEvent::Failure(None) => action == DispatchAction::TakeSnapshot,
        DispatchEvent::Snapshot(None) => action == DispatchAction::Stop,
        DispatchEvent::Snapshot(Some(snapshot)) => claims_room(dispatcher, snapshot, action),
        DispatchEvent::Claimed(count) => if count > 0 {
            action == DispatchAction::StartClaims
        } else {
            action matches DispatchAction::Idle(delay) && delay@ == supervisor::idle_nanos(
                dispatcher.empty_sweeps as int,
                dispatcher.runtime_id,
            )
        },
        DispatchEvent::Waited | DispatchEvent::Started => action == DispatchAction::CheckCancelled,
    }
}

/// A dispatcher after an event: only a look at what can be claimed changes it.
pub open spec fn after_event(
    dispatcher: DispatcherModel,
    event: DispatchEvent,
) -> DispatcherModel {
    match event {
        DispatchEvent::Claimed(count) => DispatcherModel {
            empty_sweeps: if count > 0 {
                0
            } else if dispatcher.empty_sweeps == usize::MAX {
                usize::MAX
            } else {
                (dispatcher.empty_sweeps + 1) as usize
            },
            ..dispatcher
        },
        _ => dispatcher,
    }
}

impl<'a> Dispatcher<'a> {
    #[verifier::type_invariant]
    spec fn knows_capacity(self) -> bool {
        self.capacity == capacity_bound(self@)
    }

    /// A dispatcher of some topics that has not looked for activities yet.
    pub fn new(
        definitions: Vec<TopicDefinition>,
        default_limit: u32,
        limits: &'a TopicWorkerLimits,
        runtime_id: &'a str,
    ) -> (dispatcher: Self)
        ensures
            dispatcher@ == (DispatcherModel {
                definitions: definitions@,
                default_limit,
                limits: *limits,
                runtime_id: runtime_id@,
                empty_sweeps: 0,
            }),
    {
        let capacity: usize = match dispatch_capacity(&definitions, default_limit, limits) {
            Some(capacity) => capacity,
            None => usize::MAX,
        };
        Dispatcher { definitions, default_limit, limits, runtime_id, capacity, empty_sweeps: 0 }
    }

    /// What the loop does after an event. It begins with
    /// [`DispatchAction::CheckCancelled`].
    pub fn next(self, event: DispatchEvent) -> (result: (Self, DispatchAction))
        ensures
            result.0@ == after_event(self@, event),
            follows(self@, event, result.1),
    {
        proof {
            use_type_invariant(&self);
        }
        match event {
            DispatchEvent::Cancelled(true) => (self, DispatchAction::Stop),
            DispatchEvent::Cancelled(false) => (self, DispatchAction::TakeFailure),
            DispatchEvent::Failure(Some(failure)) => (self, DispatchAction::Fail(failure)),
            DispatchEvent::Failure(None) => (self, DispatchAction::TakeSnapshot),
            DispatchEvent::Snapshot(None) => (self, DispatchAction::Stop),
            DispatchEvent::Snapshot(Some(snapshot)) => {
                let room: usize = dispatch_room(self.capacity, &snapshot);
                if room == 0 {
                    return (self, DispatchAction::AwaitChange);
                }
                let local = local_topic_capacity(
                    &self.definitions,
                    self.default_limit,
                    self.limits,
                    &snapshot,
                );
                (self, DispatchAction::Claim { room, local })
            },
            DispatchEvent::Claimed(count) => {
                let action = if count > 0 {
                    DispatchAction::StartClaims
                } else {
                    DispatchAction::Idle(jittered_idle_delay(self.empty_sweeps, self.runtime_id))
                };
                let next = Dispatcher {
                    definitions: self.definitions,
                    default_limit: self.default_limit,
                    limits: self.limits,
                    runtime_id: self.runtime_id,
                    capacity: self.capacity,
                    empty_sweeps: after_sweep(self.empty_sweeps, count),
                };
                (next, action)
            },
            DispatchEvent::Waited | DispatchEvent::Started => (
                self,
                DispatchAction::CheckCancelled,
            ),
        }
    }
}

/// A dispatcher never runs more executions than its capacity: those that run and
/// those that a claim makes room for do not exceed it, and none are claimed where
/// nothing is left.
pub proof fn law_claims_stay_within_capacity(
    dispatcher: DispatcherModel,
    snapshot: ExecutionSnapshot,
    action: DispatchAction,
    claimed: int,
)
    requires
        follows(dispatcher, DispatchEvent::Snapshot(Some(snapshot)), action),
    ensures
        match action {
            DispatchAction::Claim { room, .. } => 0 <= claimed <= room ==> snapshot.total + claimed
                <= capacity_bound(dispatcher),
            _ => snapshot.total >= capacity_bound(dispatcher),
        },
{
}

/// A dispatcher claims only after it has looked, in the same round, whether the
/// runtime is cancelled and whether an execution failed: the only event that a
/// claim follows is a snapshot, which only a look without a failure asks for, and
/// that look only a round that is not cancelled.
pub proof fn law_claims_follow_the_checks(
    dispatcher: DispatcherModel,
    event: DispatchEvent,
    action: DispatchAction,
)
    requires
        follows(dispatcher, event, action),
    ensures
        action is Claim ==> event matches DispatchEvent::Snapshot(Some(_)),
        action is TakeSnapshot ==> event == DispatchEvent::Failure(None),
        action is TakeFailure ==> event == DispatchEvent::Cancelled(false),
        action is StartClaims ==> event is Claimed,
{
}

/// A round of a dispatcher goes on as it must: a cancelled runtime stops it, a failure ends
/// it with that failure, room is claimed whole and for each topic its own, no room waits
/// for a change, claims are started, and without claims it waits before the next round.
pub proof fn law_dispatcher_rounds(
    dispatcher: DispatcherModel,
    event: DispatchEvent,
    action: DispatchAction,
)
    requires
        follows(dispatcher, event, action),
    ensures
        match event {
            DispatchEvent::Cancelled(true) => action is Stop,
            DispatchEvent::Cancelled(false) => action is TakeFailure,
            DispatchEvent::Failure(Some(failure)) => action == DispatchAction::Fail(failure),
            DispatchEvent::Failure(None) => action is TakeSnapshot,
            DispatchEvent::Snapshot(None) => action is Stop,
            DispatchEvent::Snapshot(Some(snapshot)) => if snapshot.total < capacity_bound(
                dispatcher,
            ) {
                action matches DispatchAction::Claim { room, local } && room == capacity_bound(
                    dispatcher,
                ) - snapshot.total && local@.len() == dispatcher.definitions.len()
            } else {
                action is AwaitChange
            },
            DispatchEvent::Claimed(count) => (count > 0 ==> action is StartClaims) && (count == 0
                ==> action is Idle),
            DispatchEvent::Waited | DispatchEvent::Started => action is CheckCancelled,
        },
{
}

/// A look that finds nothing is counted, one that finds something starts the count over,
/// and nothing else touches the dispatcher.
pub proof fn law_empty_looks_are_counted(dispatcher: DispatcherModel, event: DispatchEvent)
    requires
        dispatcher.empty_sweeps < usize::MAX,
    ensures
        ({
            let after = after_event(dispatcher, event);
            &&& after.definitions == dispatcher.definitions
            &&& after.default_limit == dispatcher.default_limit
            &&& after.limits == dispatcher.limits
            &&& after.runtime_id == dispatcher.runtime_id
            &&& match event {
                DispatchEvent::Claimed(count) => if count > 0 {
                    after.empty_sweeps == 0
                } else {
                    after.empty_sweeps == dispatcher.empty_sweeps + 1
                },
                _ => after.empty_sweeps == dispatcher.empty_sweeps,
            }
        }),
{
}

} // verus!
