//! The tasks of a runtime and how they are kept running.
use vstd::prelude::*;
use crate::admin::topic_metrics;
use crate::duration;
use crate::duration::{Duration, MAX_DURATION_NANOS};
use crate::error;
use crate::error::{DurableError, ErrorModel};
use crate::numerals;
use crate::numerals::decimal_u64;
use crate::observability::HealthScannerConfig;
use crate::policy::BackoffPolicy;
use crate::runtime::activity_worker::WorkerConfig;
use crate::runtime::coordinator::CoordinatorConfig;
use crate::runtime::executions;
use crate::runtime::executions::{failure, ExecutionSnapshot, RuntimeTaskFailure};
use crate::runtime::schedule_materializer::ScheduleMaterializationReport;
use crate::text;
use crate::text::{join2, join3, same_text};
use crate::topics::{TopicDefinition, TopicRegistry};

verus! {

/// The longest time between two looks at due work, in nanoseconds.
pub const MAX_TEMPORAL_POLL_NANOS: u128 = 60_000_000_000;

/// The bounds of a runtime.
#[derive(Debug, Clone, Copy)]
pub struct RuntimeConfig {
    pub coordinator: CoordinatorConfig,
    pub worker: WorkerConfig,
    pub idle_delay: Duration,
    pub restart_backoff: Duration,
    pub forced_shutdown_timeout: Duration,
    pub max_task_restarts: u32,
    pub max_workers_per_topic: u32,
    pub health_scan_interval: Duration,
    pub health_stale_after: Duration,
    pub max_health_alerts_per_kind: u32,
    pub timer_poll_interval: Duration,
    pub approval_expiry_poll_interval: Duration,
    pub schedule_poll_interval: Duration,
}

impl Default for RuntimeConfig {
    fn default() -> (config: Self)
        ensures
            config.coordinator.lease_duration@ == 30_000_000_000,
            config.coordinator.max_activation_attempts == 8,
            config.coordinator.activation_retry_policy.spec_backoff() == (
            BackoffPolicy::Exponential { initial_secs: 1, max_secs: 60, jitter_percent: 20 }),
            config.coordinator.max_consecutive_continuations == 16,
            config.coordinator.continuation_delay@ == 100_000_000,
            config.worker.heartbeat_interval@ == 5_000_000_000,
            config.worker.shutdown_grace@ == 30_000_000_000,
            config.idle_delay@ == 2_000_000_000,
            config.restart_backoff@ == 1_000_000_000,
            config.forced_shutdown_timeout@ == 5_000_000_000,
            config.max_task_restarts == 8,
            config.max_workers_per_topic == 4,
            config.health_scan_interval@ == 60_000_000_000,
            config.health_stale_after@ == 300_000_000_000,
            config.max_health_alerts_per_kind == 25,
            config.timer_poll_interval@ == 10_000_000_000,
            config.approval_expiry_poll_interval@ == 10_000_000_000,
            config.schedule_poll_interval@ == 10_000_000_000,
    {
        RuntimeConfig {
            coordinator: CoordinatorConfig::default(),
            worker: WorkerConfig::default(),
            idle_delay: Duration::from_secs(2),
            restart_backoff: Duration::from_secs(1),
            forced_shutdown_timeout: Duration::from_secs(5),
            max_task_restarts: 8,
            max_workers_per_topic: 4,
            health_scan_interval: Duration::from_secs(60),
            health_stale_after: Duration::from_secs(300),
            max_health_alerts_per_kind: 25,
            timer_poll_interval: Duration::from_secs(10),
            approval_expiry_poll_interval: Duration::from_secs(10),
            schedule_poll_interval: Duration::from_secs(10),
        }
    }
}

/// Whether a time between two looks at due work is allowed.
pub open spec fn valid_poll(nanos: nat) -> bool {
    0 < nanos <= MAX_TEMPORAL_POLL_NANOS
}

/// Whether a time between two looks at due work is allowed.
pub fn valid_temporal_poll_interval(interval: Duration) -> (valid: bool)
    ensures
        valid == valid_poll(interval@),
{
    !interval.is_zero() && interval.as_nanos() <= MAX_TEMPORAL_POLL_NANOS
}

/// Whether a runtime may run under a name with the given bounds.
pub open spec fn valid_runtime(runtime_id: Seq<char>, config: RuntimeConfig) -> bool {
    &&& runtime_id.len() > 0
    &&& config.idle_delay@ > 0
    &&& config.restart_backoff@ > 0
    &&& config.forced_shutdown_timeout@ > 0
    &&& config.max_task_restarts > 0
    &&& config.max_workers_per_topic > 0
    &&& config.health_scan_interval@ > 0
    &&& config.health_stale_after@ > 0
    &&& 1 <= config.max_health_alerts_per_kind <= 100
    &&& valid_poll(config.timer_poll_interval@)
    &&& valid_poll(config.approval_expiry_poll_interval@)
    &&& valid_poll(config.schedule_poll_interval@)
}

/// Checks the name and the bounds of a runtime.
pub fn validate_runtime(runtime_id: &str, config: &RuntimeConfig) -> (result: Result<
    (),
    DurableError,
>)
    ensures
        error::result_model(result) == (if valid_runtime(runtime_id@, *config) {
            Ok(())
        } else {
            Err(
                ErrorModel::InvalidDefinition(
                    "durable runtime identity and bounds must be non-zero"@,
                ),
            )
        }),
{
    if runtime_id.is_empty() || config.idle_delay.is_zero() || config.restart_backoff.is_zero()
        || config.forced_shutdown_timeout.is_zero() || config.max_task_restarts == 0
        || config.max_workers_per_topic == 0 || config.health_scan_interval.is_zero()
        || config.health_stale_after.is_zero() || config.max_health_alerts_per_kind == 0
        || config.max_health_alerts_per_kind > 100 || !valid_temporal_poll_interval(
        config.timer_poll_interval,
    ) || !valid_temporal_poll_interval(config.approval_expiry_poll_interval)
        || !valid_temporal_poll_interval(config.schedule_poll_interval) {
        return Err(
            error::invalid_definition("durable runtime identity and bounds must be non-zero"),
        );
    }
    let scanner = HealthScannerConfig {
        stale_after: config.health_stale_after,
        max_alerts_per_kind: config.max_health_alerts_per_kind,
    };
    scanner.validate()
}

/// An error of a task of a runtime.
#[derive(Debug, PartialEq, Eq)]
pub struct RuntimeTaskError {
    pub task: String,
    pub message: String,
    pub panicked: bool,
}

/// The mathematical content of a [`RuntimeTaskError`].
#[verifier::ext_equal]
pub struct TaskErrorModel {
    pub task: Seq<char>,
    pub message: Seq<char>,
    pub panicked: bool,
}

impl View for RuntimeTaskError {
    type V = TaskErrorModel;

    open spec fn view(&self) -> TaskErrorModel {
        TaskErrorModel { task: self.task@, message: self.message@, panicked: self.panicked }
    }
}

impl Clone for RuntimeTaskError {
    fn clone(&self) -> (copy: Self)
        ensures
            copy == *self,
    {
        RuntimeTaskError {
            task: self.task.clone(),
            message: self.message.clone(),
            panicked: self.panicked,
        }
    }
}

/// The contents of some errors.
pub open spec fn task_errors(errors: Seq<RuntimeTaskError>) -> Seq<TaskErrorModel> {
    Seq::new(errors.len(), |i: int| errors[i]@)
}

/// The errors with which a runtime stopped.
#[derive(Debug)]
pub struct RuntimeShutdownError {
    pub errors: Vec<RuntimeTaskError>,
}

impl RuntimeShutdownError {
    /// The text that describes the error.
    pub fn message(&self) -> (text: String)
        ensures
            text@ == "durable runtime stopped with "@ + numerals::decimal(self.errors@.len() as int)
                + " task error(s)"@,
    {
        join3(
            "durable runtime stopped with ",
            decimal_u64(self.errors.len() as u64).as_str(),
            " task error(s)",
        )
    }
}

/// A task of a runtime.
#[derive(Debug, PartialEq, Eq)]
pub enum TaskSpec {
    ActivityExecutionManager,
    Coordinator,
    Health,
    Timer,
    ApprovalExpiry,
    Schedule { key: String },
    ActivityDispatcher,
}

/// The mathematical content of a [`TaskSpec`].
#[verifier::ext_equal]
pub enum SpecModel {
    ActivityExecutionManager,
    Coordinator,
    Health,
    Timer,
    ApprovalExpiry,
    Schedule { key: Seq<char> },
    ActivityDispatcher,
}

impl View for TaskSpec {
    type V = SpecModel;

    open spec fn view(&self) -> SpecModel {
        match self {
            TaskSpec::ActivityExecutionManager => SpecModel::ActivityExecutionManager,
            TaskSpec::Coordinator => SpecModel::Coordinator,
            TaskSpec::Health => SpecModel::Health,
            TaskSpec::Timer => SpecModel::Timer,
            TaskSpec::ApprovalExpiry => SpecModel::ApprovalExpiry,
            TaskSpec::Schedule { key } => SpecModel::Schedule { key: key@ },
            TaskSpec::ActivityDispatcher => SpecModel::ActivityDispatcher,
        }
    }
}

impl Clone for TaskSpec {
    fn clone(&self) -> (copy: Self)
        ensures
            copy == *self,
    {
        match self {
            TaskSpec::ActivityExecutionManager => TaskSpec::ActivityExecutionManager,
            TaskSpec::Coordinator => TaskSpec::Coordinator,
            TaskSpec::Health => TaskSpec::Health,
            TaskSpec::Timer => TaskSpec::Timer,
            TaskSpec::ApprovalExpiry => TaskSpec::ApprovalExpiry,
            TaskSpec::Schedule { key } => TaskSpec::Schedule { key: key.clone() },
            TaskSpec::ActivityDispatcher => TaskSpec::ActivityDispatcher,
        }
    }
}

/// The name of a task.
pub open spec fn task_name(task: SpecModel) -> Seq<char> {
    match task {
        SpecModel::ActivityExecutionManager => "activity-execution-manager"@,
        SpecModel::Coordinator => "coordinator"@,
        SpecModel::Health => "health"@,
        SpecModel::Timer => "timer"@,
        SpecModel::ApprovalExpiry => "approval-expiry"@,
        SpecModel::Schedule { key } => "schedule:"@ + key,
        SpecModel::ActivityDispatcher => "activity-dispatcher"@,
    }
}

impl TaskSpec {
    /// The name of the task.
    pub fn name(&self) -> (name: String)
        ensures
            name@ == task_name(self@),
    {
        match self {
            TaskSpec::ActivityExecutionManager => "activity-execution-manager".to_owned(),
            TaskSpec::Coordinator => "coordinator".to_owned(),
            TaskSpec::Health => "health".to_owned(),
            TaskSpec::Timer => "timer".to_owned(),
            TaskSpec::ApprovalExpiry => "approval-expiry".to_owned(),
            TaskSpec::Schedule { key } => join2("schedule:", key.as_str()),
            TaskSpec::ActivityDispatcher => "activity-dispatcher".to_owned(),
        }
    }

    fn same(&self, other: &TaskSpec) -> (same: bool)
        ensures
            same == (self@ == other@),
    {
        match (self, other) {
            (TaskSpec::ActivityExecutionManager, TaskSpec::ActivityExecutionManager) => true,
            (TaskSpec::Coordinator, TaskSpec::Coordinator) => true,
            (TaskSpec::Health, TaskSpec::Health) => true,
            (TaskSpec::Timer, TaskSpec::Timer) => true,
            (TaskSpec::ApprovalExpiry, TaskSpec::ApprovalExpiry) => true,
            (TaskSpec::Schedule { key: a }, TaskSpec::Schedule { key: b }) => same_text(
                a.as_str(),
                b.as_str(),
            ),
            (TaskSpec::ActivityDispatcher, TaskSpec::ActivityDispatcher) => true,
            _ => false,
        }
    }
}

/// The tasks that a runtime starts with: one for each schedule between the
/// pollers and the dispatcher.
pub open spec fn initial_specs(schedule_keys: Seq<Seq<char>>) -> Seq<SpecModel> {
    seq![
        SpecModel::ActivityExecutionManager,
        SpecModel::Coordinator,
        SpecModel::Health,
        SpecModel::Timer,
        SpecModel::ApprovalExpiry,
    ] + Seq::new(schedule_keys.len(), |i: int| SpecModel::Schedule { key: schedule_keys[i] })
        + seq![SpecModel::ActivityDispatcher]
}

/// The tasks that a runtime starts with.
pub fn initial_tasks(schedule_keys: &Vec<String>) -> (tasks: Vec<TaskSpec>)
    ensures
        Seq::new(tasks@.len(), |i: int| tasks@[i]@) == initial_specs(text::texts(schedule_keys@)),
{
    let mut tasks: Vec<TaskSpec> = Vec::new();
    tasks.push(TaskSpec::ActivityExecutionManager);
    tasks.push(TaskSpec::Coordinator);
    tasks.push(TaskSpec::Health);
    tasks.push(TaskSpec::Timer);
    tasks.push(TaskSpec::ApprovalExpiry);
    let ghost keys = text::texts(schedule_keys@);
    let mut i: usize = 0;
    while i < schedule_keys.len()
        invariant
            i <= schedule_keys@.len(),
            keys == text::texts(schedule_keys@),
            tasks@.len() == 5 + i,
            tasks@[0]@ == SpecModel::ActivityExecutionManager,
            tasks@[1]@ == SpecModel::Coordinator,
            tasks@[2]@ == SpecModel::Health,
            tasks@[3]@ == SpecModel::Timer,
            tasks@[4]@ == SpecModel::ApprovalExpiry,
            forall|j: int|
                0 <= j < i ==> (#[trigger] tasks@[5 + j])@ == (SpecModel::Schedule { key: keys[j] }),
        decreases schedule_keys@.len() - i,
    {
        let ghost before = tasks@;
        tasks.push(TaskSpec::Schedule { key: schedule_keys[i].clone() });
        proof {
            assert forall|j: int| 0 <= j < i + 1 implies (#[trigger] tasks@[5 + j])@ == (
            SpecModel::Schedule { key: keys[j] }) by {
                if j < i {
                    assert(before[5 + j]@ == (SpecModel::Schedule { key: keys[j] }));
                }
            }
        }
        i = i + 1;
    }
    tasks.push(TaskSpec::ActivityDispatcher);
    proof {
        let models = Seq::new(tasks@.len(), |i: int| tasks@[i]@);
        let expected = initial_specs(keys);
        assert(models.len() == expected.len());
        assert forall|j: int| 0 <= j < expected.len() implies models[j] == expected[j] by {
            if 5 <= j < 5 + keys.len() {
                assert(tasks@[5 + (j - 5)]@ == (SpecModel::Schedule { key: keys[j - 5] }));
            }
        }
        assert(models =~= expected);
    }
    tasks
}

/// The tasks that run, how often each was restarted and what went wrong.
#[derive(Debug)]
pub struct Supervision {
    tasks: Vec<(String, TaskSpec)>,
    restarts: Vec<(TaskSpec, u32)>,
    errors: Vec<RuntimeTaskError>,
}

spec fn task_at(tasks: Seq<(String, TaskSpec)>, id: Seq<char>) -> Option<SpecModel>
    decreases tasks.len(),
{
    if tasks.len() == 0 {
        None
    } else if tasks.last().0@ == id {
        Some(tasks.last().1@)
    } else {
        task_at(tasks.drop_last(), id)
    }
}

spec fn without(tasks: Seq<(String, TaskSpec)>, id: Seq<char>) -> Seq<(String, TaskSpec)>
    decreases tasks.len(),
{
    if tasks.len() == 0 {
        tasks
    } else if tasks.last().0@ == id {
        without(tasks.drop_last(), id)
    } else {
        without(tasks.drop_last(), id).push(tasks.last())
    }
}

proof fn lemma_without(tasks: Seq<(String, TaskSpec)>, id: Seq<char>, other: Seq<char>)
    ensures
        task_at(without(tasks, id), other) == (if other == id {
            None
        } else {
            task_at(tasks, other)
        }),
    decreases tasks.len(),
{
    if tasks.len() > 0 {
        lemma_without(tasks.drop_last(), id, other);
        if tasks.last().0@ != id {
            let rest = without(tasks.drop_last(), id);
            assert(rest.push(tasks.last()).drop_last() =~= rest);
        }
    }
}

spec fn restarts_in(restarts: Seq<(TaskSpec, u32)>, task: SpecModel) -> u32
    decreases restarts.len(),
{
    if restarts.len() == 0 {
        0
    } else if restarts.last().0@ == task {
        restarts.last().1
    } else {
        restarts_in(restarts.drop_last(), task)
    }
}

/// What the end of a task asks for: that the whole runtime stops, that the
/// activity executions are shut down, that the task is started again.
#[derive(Debug, PartialEq, Eq)]
pub struct SupervisorStep {
    pub cancel: bool,
    pub shut_down_executions: bool,
    pub restart: Option<TaskSpec>,
}

/// The error that the end of a task is.
pub open spec fn end_error(task: SpecModel, end: Result<(), executions::FailureModel>) -> TaskErrorModel {
    match end {
        Ok(_) => TaskErrorModel {
            task: task_name(task),
            message: "task stopped unexpectedly"@,
            panicked: false,
        },
        Err(failure) => TaskErrorModel {
            task: task_name(task),
            message: failure.message,
            panicked: failure.panicked,
        },
    }
}

/// The content of the end of a task.
pub open spec fn end_model(end: Result<(), RuntimeTaskFailure>) -> Result<
    (),
    executions::FailureModel,
> {
    match end {
        Ok(_) => Ok(()),
        Err(failure) => Err(failure@),
    }
}

/// One more restart.
pub open spec fn one_more(count: u32) -> u32 {
    if count == u32::MAX {
        count
    } else {
        (count + 1) as u32
    }
}

/// Whether the end of the task under a name leaves this state and asks for this step.
pub open spec fn task_joined(
    before: Supervision,
    id: Seq<char>,
    end: Result<(), executions::FailureModel>,
    cancelled: bool,
    max_task_restarts: u32,
    after: Supervision,
    step: SupervisorStep,
) -> bool {
    &&& after.watched(id) is None
    &&& forall|other: Seq<char>|
        other != id ==> #[trigger] after.watched(other) == before.watched(other)
    &&& match before.watched(id) {
        None => {
            &&& step.cancel && !step.shut_down_executions && step.restart is None
            &&& after.spec_errors() == before.spec_errors().push(
                TaskErrorModel {
                    task: "supervisor"@,
                    message: "completed task "@ + id + " had no supervision record"@,
                    panicked: false,
                },
            )
            &&& forall|task: SpecModel|
                #[trigger] after.restarts(task) == before.restarts(task)
        },
        Some(task) => if cancelled {
            &&& !step.cancel && step.restart is None
            &&& step.shut_down_executions == (task == SpecModel::ActivityDispatcher)
            &&& after.spec_errors() == (if end is Err {
                before.spec_errors().push(end_error(task, end))
            } else {
                before.spec_errors()
            })
            &&& forall|task: SpecModel|
                #[trigger] after.restarts(task) == before.restarts(task)
        } else {
            &&& after.spec_errors() == before.spec_errors().push(
                end_error(task, end),
            )
            &&& if task == SpecModel::ActivityExecutionManager {
                &&& step.cancel && !step.shut_down_executions && step.restart is None
                &&& forall|other: SpecModel|
                    #[trigger] after.restarts(other) == before.restarts(other)
            } else {
                let count = one_more(before.restarts(task));
                &&& after.restarts(task) == count
                &&& forall|other: SpecModel|
                    other != task ==> #[trigger] after.restarts(other) == before.restarts(other)
                &&& step.cancel == (count > max_task_restarts)
                &&& step.shut_down_executions == (step.cancel && task
                    == SpecModel::ActivityDispatcher)
                &&& match step.restart {
                    Some(restarted) => !step.cancel && restarted@ == task,
                    None => step.cancel,
                }
            }
        },
    }
}

impl Supervision {
    /// The task that runs under a name.
    pub closed spec fn watched(&self, id: Seq<char>) -> Option<SpecModel> {
        task_at(self.tasks@, id)
    }

    /// How often a task was restarted.
    pub closed spec fn restarts(&self, task: SpecModel) -> u32 {
        restarts_in(self.restarts@, task)
    }

    /// What went wrong.
    pub closed spec fn spec_errors(&self) -> Seq<TaskErrorModel> {
        task_errors(self.errors@)
    }

    /// Nothing runs and nothing went wrong.
    pub fn new() -> (supervision: Self)
        ensures
            forall|id: Seq<char>| (#[trigger] supervision.watched(id)) is None,
            forall|task: SpecModel| #[trigger] supervision.restarts(task) == 0,
            supervision.spec_errors() == Seq::<TaskErrorModel>::empty(),
    {
        Supervision { tasks: Vec::new(), restarts: Vec::new(), errors: Vec::new() }
    }

    /// The task that runs under a name.
    pub fn find(&self, id: &str) -> (task: Option<&TaskSpec>)
        ensures
            match task {
                Some(task) => self.watched(id@) == Some(task@),
                None => self.watched(id@) is None,
            },
    {
        let mut i: usize = self.tasks.len();
        assert(self.tasks@.take(i as int) =~= self.tasks@);
        while i > 0
            invariant
                i <= self.tasks@.len(),
                task_at(self.tasks@.take(i as int), id@) == task_at(self.tasks@, id@),
            decreases i,
        {
            i = i - 1;
            assert(self.tasks@.take(i + 1).drop_last() =~= self.tasks@.take(i as int));
            assert(self.tasks@.take(i + 1).last() == self.tasks@[i as int]);
            if same_text(self.tasks[i].0.as_str(), id) {
                return Some(&self.tasks[i].1);
            }
        }
        None
    }

    /// Records a task that was started under a name.
    pub fn watch(&mut self, id: &str, task: TaskSpec)
        ensures
            final(self).watched(id@) == Some(task@),
            forall|other: Seq<char>|
                other != id@ ==> #[trigger] final(self).watched(other) == old(self).watched(other),
            forall|task: SpecModel|
                #[trigger] final(self).restarts(task) == old(self).restarts(task),
            final(self).spec_errors() == old(self).spec_errors(),
    {
        let ghost before = self.tasks@;
        self.tasks.push((id.to_owned(), task));
        assert(self.tasks@.drop_last() =~= before);
    }

    fn forget(&mut self, id: &str)
        ensures
            final(self).watched(id@) is None,
            forall|other: Seq<char>|
                other != id@ ==> #[trigger] final(self).watched(other) == old(self).watched(other),
            forall|task: SpecModel|
                #[trigger] final(self).restarts(task) == old(self).restarts(task),
            final(self).spec_errors() == old(self).spec_errors(),
    {
        let ghost before = self.tasks@;
        let mut kept: Vec<(String, TaskSpec)> = Vec::new();
        let mut i: usize = 0;
        while i < self.tasks.len()
            invariant
                i <= self.tasks@.len(),
                *self == *old(self),
                kept@ == without(self.tasks@.take(i as int), id@),
            decreases self.tasks@.len() - i,
        {
            assert(self.tasks@.take(i + 1).drop_last() =~= self.tasks@.take(i as int));
            assert(self.tasks@.take(i + 1).last() == self.tasks@[i as int]);
            if !same_text(self.tasks[i].0.as_str(), id) {
                kept.push((self.tasks[i].0.clone(), self.tasks[i].1.clone()));
            }
            i = i + 1;
        }
        assert(self.tasks@.take(i as int) =~= self.tasks@);
        self.tasks = kept;
        proof {
            lemma_without(before, id@, id@);
            assert forall|other: Seq<char>| other != id@ implies #[trigger] self.watched(other)
                == old(self).watched(other) by {
                lemma_without(before, id@, other);
            }
        }
    }

    fn count_restarts(&self, task: &TaskSpec) -> (count: u32)
        ensures
            count == self.restarts(task@),
    {
        let mut i: usize = self.restarts.len();
        assert(self.restarts@.take(i as int) =~= self.restarts@);
        while i > 0
            invariant
                i <= self.restarts@.len(),
                restarts_in(self.restarts@.take(i as int), task@) == restarts_in(
                    self.restarts@,
                    task@,
                ),
            decreases i,
        {
            i = i - 1;
            assert(self.restarts@.take(i + 1).drop_last() =~= self.restarts@.take(i as int));
            assert(self.restarts@.take(i + 1).last() == self.restarts@[i as int]);
            if self.restarts[i].0.same(task) {
                return self.restarts[i].1;
            }
        }
        0
    }

    fn note_restart(&mut self, task: &TaskSpec, count: u32)
        ensures
            final(self).restarts(task@) == count,
            forall|other: SpecModel|
                other != task@ ==> #[trigger] final(self).restarts(other) == old(self).restarts(
                    other,
                ),
            forall|id: Seq<char>| #[trigger] final(self).watched(id) == old(self).watched(id),
            final(self).spec_errors() == old(self).spec_errors(),
    {
        let ghost earlier = self.restarts@;
        self.restarts.push((task.clone(), count));
        assert(self.restarts@.drop_last() =~= earlier);
    }

    fn push_error(&mut self, task: &str, message: &str, panicked: bool)
        ensures
            final(self).spec_errors() == old(self).spec_errors().push(
                TaskErrorModel { task: task@, message: message@, panicked },
            ),
            forall|id: Seq<char>| #[trigger] final(self).watched(id) == old(self).watched(id),
            forall|task: SpecModel|
                #[trigger] final(self).restarts(task) == old(self).restarts(task),
    {
        let ghost before = self.spec_errors();
        self.errors.push(
            RuntimeTaskError { task: task.to_owned(), message: message.to_owned(), panicked },
        );
        assert(self.spec_errors() =~= before.push(
            TaskErrorModel { task: task@, message: message@, panicked },
        ));
    }

    /// The end of the task under a name, while the runtime stops (`cancelled`) or
    /// not. A task that stops on its own is an error and is started again, up to
    /// `max_task_restarts` times; the activity executions are not started again.
    /// While the runtime stops only failures are errors, and the end of the
    /// dispatcher shuts the activity executions down.
    pub fn joined(
        &mut self,
        id: &str,
        end: Result<(), RuntimeTaskFailure>,
        cancelled: bool,
        max_task_restarts: u32,
    ) -> (step: SupervisorStep)
        ensures
            task_joined(
                *old(self),
                id@,
                end_model(end),
                cancelled,
                max_task_restarts,
                *final(self),
                step,
            ),
    {
        let task = match self.find(id) {
            Some(task) => task.clone(),
            None => {
                let message = join3("completed task ", id, " had no supervision record");
                self.push_error("supervisor", message.as_str(), false);
                return SupervisorStep { cancel: true, shut_down_executions: false, restart: None };
            },
        };
        self.forget(id);
        let name = task.name();
        let is_dispatcher = task.same(&TaskSpec::ActivityDispatcher);
        match end {
            Ok(_) => {
                if !cancelled {
                    self.push_error(name.as_str(), "task stopped unexpectedly", false);
                }
            },
            Err(failure) => {
                self.push_error(name.as_str(), failure.message.as_str(), failure.panicked);
            },
        }
        if cancelled {
            return SupervisorStep {
                cancel: false,
                shut_down_executions: is_dispatcher,
                restart: None,
            };
        }
        if task.same(&TaskSpec::ActivityExecutionManager) {
            return SupervisorStep { cancel: true, shut_down_executions: false, restart: None };
        }
        let count: u32 = self.count_restarts(&task);
        let next: u32 = if count == u32::MAX {
            count
        } else {
            count + 1
        };
        self.note_restart(&task, next);
        if next > max_task_restarts {
            SupervisorStep { cancel: true, shut_down_executions: is_dispatcher, restart: None }
        } else {
            SupervisorStep { cancel: false, shut_down_executions: false, restart: Some(task) }
        }
    }

    /// Records that the activity executions could not be shut down.
    pub fn record_shutdown_failure(&mut self, failure: RuntimeTaskFailure)
        ensures
            final(self).spec_errors() == old(self).spec_errors().push(
                TaskErrorModel {
                    task: "activity-execution-manager"@,
                    message: failure.message@,
                    panicked: failure.panicked,
                },
            ),
            forall|id: Seq<char>| #[trigger] final(self).watched(id) == old(self).watched(id),
            forall|task: SpecModel|
                #[trigger] final(self).restarts(task) == old(self).restarts(task),
    {
        self.push_error("activity-execution-manager", failure.message.as_str(), failure.panicked);
    }

    /// What went wrong.
    pub fn into_errors(self) -> (errors: Vec<RuntimeTaskError>)
        ensures
            task_errors(errors@) == self.spec_errors(),
    {
        let Supervision { tasks: _, restarts: _, errors } = self;
        errors
    }
}

/// How many tasks of a topic a runtime runs at most, by override.
#[derive(Debug)]
pub struct TopicWorkerLimits {
    overrides: Vec<(String, u32)>,
}

/// How many tasks of a topic run locally at most: the override or else the
/// default, within the global limit.
pub open spec fn local_limit(
    topic: Seq<char>,
    global_limit: u32,
    default_local_limit: u32,
    limits: TopicWorkerLimits,
) -> int {
    let local = match limits.limit_of(topic) {
        Some(limit) => limit,
        None => default_local_limit,
    };
    if global_limit < local {
        global_limit as int
    } else {
        local as int
    }
}

impl TopicWorkerLimits {
    /// The override for a topic.
    pub closed spec fn limit_of(&self, topic: Seq<char>) -> Option<u32> {
        topic_metrics::last_of(self.overrides@, topic)
    }

    /// No overrides.
    pub fn new() -> (limits: Self)
        ensures
            forall|topic: Seq<char>| (#[trigger] limits.limit_of(topic)) is None,
    {
        TopicWorkerLimits { overrides: Vec::new() }
    }

    /// Overrides the local limit of a registered topic; the global limit still
    /// applies.
    pub fn with_topic_worker_limit(self, topics: &TopicRegistry, topic: &str, limit: u32) -> (result:
        Result<Self, DurableError>)
        ensures
            match result {
                Ok(limits) => {
                    &&& limit > 0 && topics@.contains_key(topic@)
                    &&& limits.limit_of(topic@) == Some(limit)
                    &&& forall|other: Seq<char>|
                        other != topic@ ==> #[trigger] limits.limit_of(other) == self.limit_of(other)
                },
                Err(error) => {
                    &&& limit == 0 || !topics@.contains_key(topic@)
                    &&& error@ == ErrorModel::InvalidDefinition(
                        "local worker limit requires a registered topic and non-zero capacity"@,
                    )
                },
            },
    {
        if limit == 0 || topics.get(topic).is_none() {
            return Err(
                error::invalid_definition(
                    "local worker limit requires a registered topic and non-zero capacity",
                ),
            );
        }
        let TopicWorkerLimits { mut overrides } = self;
        let ghost before = overrides@;
        overrides.push((topic.to_owned(), limit));
        assert(overrides@.drop_last() =~= before);
        Ok(TopicWorkerLimits { overrides })
    }

    fn find(&self, topic: &str) -> (limit: Option<u32>)
        ensures
            limit == self.limit_of(topic@),
    {
        topic_metrics::find_last(&self.overrides, topic)
    }
}

/// How many tasks of a topic run locally at most.
pub fn local_topic_limit(
    topic: &str,
    global_limit: u32,
    default_local_limit: u32,
    overrides: &TopicWorkerLimits,
) -> (limit: usize)
    ensures
        limit == local_limit(topic@, global_limit, default_local_limit, *overrides),
{
    let local: u32 = match overrides.find(topic) {
        Some(limit) => limit,
        None => default_local_limit,
    };
    if global_limit < local {
        global_limit as usize
    } else {
        local as usize
    }
}

/// How many tasks of all topics run locally at most.
pub open spec fn capacity_of(
    definitions: Seq<TopicDefinition>,
    default_local_limit: u32,
    overrides: TopicWorkerLimits,
) -> int
    decreases definitions.len(),
{
    if definitions.len() == 0 {
        0
    } else {
        capacity_of(definitions.drop_last(), default_local_limit, overrides) + local_limit(
            definitions.last().key@,
            definitions.last().max_concurrency,
            default_local_limit,
            overrides,
        )
    }
}

/// How many tasks of all topics run locally at most, where the number fits.
pub fn dispatch_capacity(
    definitions: &Vec<TopicDefinition>,
    default_local_limit: u32,
    overrides: &TopicWorkerLimits,
) -> (capacity: Option<usize>)
    ensures
        match capacity {
            Some(capacity) => capacity == capacity_of(definitions@, default_local_limit, *overrides),
            None => capacity_of(definitions@, default_local_limit, *overrides) > usize::MAX,
        },
{
    let mut total: u128 = 0;
    let mut i: usize = 0;
    while i < definitions.len()
        invariant
            i <= definitions@.len(),
            total <= i * 0x1_0000_0000,
            total == capacity_of(definitions@.take(i as int), default_local_limit, *overrides),
        decreases definitions@.len() - i,
    {
        assert(definitions@.take(i + 1).drop_last() =~= definitions@.take(i as int));
        let limit: usize = local_topic_limit(
            definitions[i].key.as_str(),
            definitions[i].max_concurrency,
            default_local_limit,
            overrides,
        );
        total = total + limit as u128;
        i = i + 1;
    }
    assert(definitions@.take(i as int) =~= definitions@);
    if total > usize::MAX as u128 {
        None
    } else {
        Some(total as usize)
    }
}

/// How many executions may be started: the capacity without what runs.
pub fn dispatch_room(capacity: usize, snapshot: &ExecutionSnapshot) -> (room: usize)
    ensures
        room == (if snapshot.total < capacity {
            capacity - snapshot.total
        } else {
            0
        }),
{
    if snapshot.total < capacity {
        capacity - snapshot.total
    } else {
        0
    }
}

/// How many executions of a topic a snapshot counts.
pub open spec fn active_in(snapshot: ExecutionSnapshot, topic: Seq<char>) -> int {
    match topic_metrics::last_of(snapshot.active_by_topic@, topic) {
        Some(active) => active as int,
        None => 0,
    }
}

/// How many executions of a topic may be started.
pub open spec fn local_room(
    definition: TopicDefinition,
    default_local_limit: u32,
    overrides: TopicWorkerLimits,
    snapshot: ExecutionSnapshot,
) -> int {
    let limit = local_limit(
        definition.key@,
        definition.max_concurrency,
        default_local_limit,
        overrides,
    );
    let active = active_in(snapshot, definition.key@);
    if active < limit {
        limit - active
    } else {
        0
    }
}

/// How many executions of each topic may be started.
pub fn local_topic_capacity(
    definitions: &Vec<TopicDefinition>,
    default_local_limit: u32,
    overrides: &TopicWorkerLimits,
    snapshot: &ExecutionSnapshot,
) -> (capacities: Vec<(String, usize)>)
    ensures
        capacities@.len() == definitions@.len(),
        forall|i: int|
            0 <= i < definitions@.len() ==> (#[trigger] capacities@[i]).0 == definitions@[i].key
                && capacities@[i].1 == local_room(
                definitions@[i],
                default_local_limit,
                *overrides,
                *snapshot,
            ),
{
    let mut capacities: Vec<(String, usize)> = Vec::new();
    let mut i: usize = 0;
    while i < definitions.len()
        invariant
            i <= definitions@.len(),
            capacities@.len() == i,
            forall|j: int|
                0 <= j < i ==> (#[trigger] capacities@[j]).0 == definitions@[j].key
                    && capacities@[j].1 == local_room(
                    definitions@[j],
                    default_local_limit,
                    *overrides,
                    *snapshot,
                ),
        decreases definitions@.len() - i,
    {
        let topic = definitions[i].key.as_str();
        let limit: usize = local_topic_limit(
            topic,
            definitions[i].max_concurrency,
            default_local_limit,
            overrides,
        );
        let active: usize = match topic_metrics::find_last(&snapshot.active_by_topic, topic) {
            Some(active) => active,
            None => 0,
        };
        let room: usize = if active < limit {
            limit - active
        } else {
            0
        };
        capacities.push((definitions[i].key.clone(), room));
        i = i + 1;
    }
    capacities
}

/// Executions that are started within the local room never exceed the local
/// limit of their topic.
pub proof fn law_local_room_keeps_the_limit(
    definition: TopicDefinition,
    default_local_limit: u32,
    overrides: TopicWorkerLimits,
    snapshot: ExecutionSnapshot,
    started: int,
)
    requires
        0 <= started <= local_room(definition, default_local_limit, overrides, snapshot),
        active_in(snapshot, definition.key@) <= local_limit(
            definition.key@,
            definition.max_concurrency,
            default_local_limit,
            overrides,
        ),
    ensures
        active_in(snapshot, definition.key@) + started <= local_limit(
            definition.key@,
            definition.max_concurrency,
            default_local_limit,
            overrides,
        ),
        active_in(snapshot, definition.key@) + started <= definition.max_concurrency,
{
}

/// The hash of a name by which runtimes spread their looks at the database.
pub open spec fn spread_hash(bytes: Seq<u8>) -> u64
    decreases bytes.len(),
{
    if bytes.len() == 0 {
        0
    } else {
        u64::wrapping_add(
            u64::wrapping_mul(spread_hash(bytes.drop_last()), 31),
            bytes.last() as u64,
        )
    }
}

fn hash_name(name: &str) -> (hash: u64)
    ensures
        hash == spread_hash(vstd::utf8::encode_utf8(name@)),
{
    let bytes = name.as_bytes();
    let mut hash: u64 = 0;
    let mut i: usize = 0;
    assert(bytes@.take(0) =~= Seq::<u8>::empty());
    while i < bytes.len()
        invariant
            i <= bytes@.len(),
            hash == spread_hash(bytes@.take(i as int)),
        decreases bytes@.len() - i,
    {
        assert(bytes@.take(i + 1).drop_last() =~= bytes@.take(i as int));
        hash = hash.wrapping_mul(31).wrapping_add(bytes[i] as u64);
        i = i + 1;
    }
    assert(bytes@.take(i as int) =~= bytes@);
    hash
}

/// The seconds between two looks at the database after so many looks in a row
/// that found nothing.
pub open spec fn idle_secs(empty_sweeps: int) -> int {
    if empty_sweeps == 0 {
        1
    } else if empty_sweeps == 1 {
        2
    } else if empty_sweeps == 2 {
        5
    } else {
        10
    }
}

/// The time between two looks at the database, in nanoseconds: nine tenths of
/// the interval, and up to a tenth more by the name of the runtime.
pub open spec fn idle_nanos(empty_sweeps: int, runtime_id: Seq<char>) -> int {
    idle_secs(empty_sweeps) * (900 + spread_hash(vstd::utf8::encode_utf8(runtime_id)) % 101)
        * 1_000_000
}

/// The time between two looks at the database after so many looks in a row that
/// found nothing.
pub fn jittered_idle_delay(empty_sweeps: usize, runtime_id: &str) -> (delay: Duration)
    ensures
        delay@ == idle_nanos(empty_sweeps as int, runtime_id@),
{
    let secs: u64 = if empty_sweeps == 0 {
        1
    } else if empty_sweeps == 1 {
        2
    } else if empty_sweeps == 2 {
        5
    } else {
        10
    };
    let permille: u64 = 900 + hash_name(runtime_id) % 101;
    assert(0 < secs * permille <= 10 * 1000) by (nonlinear_arith)
        requires
            0 < secs <= 10,
            0 < permille <= 1000,
    ;
    Duration::from_millis(secs * permille)
}

/// The number of looks in a row that found nothing, after one more.
pub fn after_sweep(empty_sweeps: usize, claimed: usize) -> (next: usize)
    ensures
        next == (if claimed > 0 {
            0
        } else if empty_sweeps == usize::MAX {
            usize::MAX as int
        } else {
            empty_sweeps + 1
        }),
{
    if claimed > 0 {
        0
    } else if empty_sweeps == usize::MAX {
        usize::MAX
    } else {
        empty_sweeps + 1
    }
}

/// The time between two looks lies in the last tenth of its interval.
pub proof fn law_idle_delay_stays_in_its_interval(empty_sweeps: int, runtime_id: Seq<char>)
    ensures
        idle_secs(empty_sweeps) * 900_000_000 <= idle_nanos(empty_sweeps, runtime_id) <= idle_secs(
            empty_sweeps,
        ) * 1_000_000_000,
{
    let permille = 900 + spread_hash(vstd::utf8::encode_utf8(runtime_id)) % 101;
    let secs = idle_secs(empty_sweeps);
    assert(secs * 900 <= secs * permille <= secs * 1000) by (nonlinear_arith)
        requires
            0 < secs,
            900 <= permille <= 1000,
    ;
}

/// How long a polling task waits after a look that found work or not.
pub open spec fn poll_pause(task: SpecModel, config: RuntimeConfig, found_work: bool) -> Option<nat> {
    match task {
        SpecModel::Health => Some(config.health_scan_interval@),
        SpecModel::Coordinator => if found_work {
            None
        } else {
            Some(config.idle_delay@)
        },
        SpecModel::Timer => if found_work {
            None
        } else {
            Some(config.timer_poll_interval@)
        },
        SpecModel::ApprovalExpiry => if found_work {
            None
        } else {
            Some(config.approval_expiry_poll_interval@)
        },
        SpecModel::Schedule { key: _ } => if found_work {
            None
        } else {
            Some(config.schedule_poll_interval@)
        },
        _ => None,
    }
}

/// How long a polling task waits after a look that found work or not; the health
/// task always waits.
pub fn pause_after(task: &TaskSpec, config: &RuntimeConfig, found_work: bool) -> (pause: Option<
    Duration,
>)
    ensures
        match pause {
            Some(pause) => poll_pause(task@, *config, found_work) == Some(pause@),
            None => poll_pause(task@, *config, found_work) is None,
        },
{
    match task {
        TaskSpec::Health => Some(config.health_scan_interval),
        TaskSpec::Coordinator => if found_work {
            None
        } else {
            Some(config.idle_delay)
        },
        TaskSpec::Timer => if found_work {
            None
        } else {
            Some(config.timer_poll_interval)
        },
        TaskSpec::ApprovalExpiry => if found_work {
            None
        } else {
            Some(config.approval_expiry_poll_interval)
        },
        TaskSpec::Schedule { key: _ } => if found_work {
            None
        } else {
            Some(config.schedule_poll_interval)
        },
        _ => None,
    }
}

/// Whether a tick of a schedule found work.
pub fn tick_found_work(report: &ScheduleMaterializationReport) -> (found: bool)
    ensures
        found == (report.inspected > 0 || report.started > 0 || report.queued > 0),
{
    !(report.inspected == 0 && report.started == 0 && report.queued == 0)
}

/// Whether a failed tick of a schedule ends its task, which is then started
/// again; the task goes on after other errors.
pub open spec fn is_retryable(error: ErrorModel) -> bool {
    error is Database || error is Pool || error is PoolCheckout || error is Serialization
}

/// Whether a failed tick of a schedule ends its task.
pub fn schedule_error_is_retryable(error: &DurableError) -> (retryable: bool)
    ensures
        retryable == is_retryable(error@),
{
    match error {
        DurableError::Database(_) => true,
        DurableError::Pool(_) => true,
        DurableError::PoolCheckout(_) => true,
        DurableError::Serialization(_) => true,
        _ => false,
    }
}

/// The failure that an error is.
pub fn failure_of(error: &DurableError) -> (failure: RuntimeTaskFailure)
    ensures
        failure@ == executions::plain_failure(error::error_text(error@)),
{
    RuntimeTaskFailure { message: error.message(), panicked: false }
}

/// What a schedule task does after a failed tick: it ends with the failure, or
/// goes on after a pause.
pub open spec fn after_failed_tick(
    key: Seq<char>,
    registered: bool,
    error: ErrorModel,
) -> Option<executions::FailureModel> {
    if !registered {
        Some(
            executions::plain_failure(
                error::error_text(
                    ErrorModel::NotFound { resource: "schedule definition"@, identifier: key },
                ),
            ),
        )
    } else if is_retryable(error) {
        Some(executions::plain_failure(error::error_text(error)))
    } else {
        None
    }
}

/// What a schedule task does after a failed tick.
pub fn schedule_failure(key: &str, registered: bool, error: &DurableError) -> (failure: Option<
    RuntimeTaskFailure,
>)
    ensures
        match failure {
            Some(failure) => after_failed_tick(key@, registered, error@) == Some(failure@),
            None => after_failed_tick(key@, registered, error@) is None,
        },
{
    if !registered {
        let missing = DurableError::NotFound {
            resource: "schedule definition",
            identifier: key.to_owned(),
        };
        return Some(failure_of(&missing));
    }
    if schedule_error_is_retryable(error) {
        return Some(failure_of(error));
    }
    None
}

/// The name under which the coordinator of a runtime holds leases.
pub fn coordinator_owner(runtime_id: &str) -> (owner: String)
    ensures
        owner@ == runtime_id@ + ":coordinator"@,
{
    join2(runtime_id, ":coordinator")
}

/// The name under which the dispatcher of a runtime holds leases.
pub fn dispatcher_owner(runtime_id: &str) -> (owner: String)
    ensures
        owner@ == runtime_id@ + ":dispatcher"@,
{
    join2(runtime_id, ":dispatcher")
}

/// The failure of a task that is not started like the others.
pub fn not_restartable() -> (failed: RuntimeTaskFailure)
    ensures
        failed@ == executions::plain_failure(
            "activity execution manager cannot be started as a restartable task"@,
        ),
{
    failure("activity execution manager cannot be started as a restartable task")
}

/// How the supervisor of a runtime ended within a time: with the errors of the
/// tasks, with a failure of its own, or not at all.
#[derive(Debug)]
pub enum SupervisorEnd {
    Finished(Vec<RuntimeTaskError>),
    Failed(RuntimeTaskFailure),
    TimedOut,
}

/// The error of the supervisor with the given text.
pub open spec fn supervisor_error(message: Seq<char>, panicked: bool) -> TaskErrorModel {
    TaskErrorModel { task: "supervisor"@, message, panicked }
}

fn supervisor_error_of(message: &str, panicked: bool) -> (error: RuntimeTaskError)
    ensures
        error@ == supervisor_error(message@, panicked),
{
    RuntimeTaskError { task: "supervisor".to_owned(), message: message.to_owned(), panicked }
}

/// The errors of a runtime that stopped within its deadline; nothing where the
/// deadline elapsed.
pub fn errors_in_time(end: SupervisorEnd) -> (errors: Option<Vec<RuntimeTaskError>>)
    ensures
        match end {
            SupervisorEnd::Finished(found) => errors == Some(found),
            SupervisorEnd::Failed(failure) => errors matches Some(errors) && task_errors(errors@)
                == seq![supervisor_error(failure.message@, failure.panicked)],
            SupervisorEnd::TimedOut => errors is None,
        },
{
    match end {
        SupervisorEnd::Finished(errors) => Some(errors),
        SupervisorEnd::Failed(failure) => {
            let mut errors: Vec<RuntimeTaskError> = Vec::new();
            errors.push(supervisor_error_of(failure.message.as_str(), failure.panicked));
            assert(task_errors(errors@) =~= seq![
                supervisor_error(failure.message@, failure.panicked),
            ]);
            Some(errors)
        },
        SupervisorEnd::TimedOut => None,
    }
}

/// The errors of a runtime whose deadline elapsed and that was then forced to
/// stop.
pub open spec fn forced_errors(deadline: nat, forced_timeout: nat, end: SupervisorEnd) -> Seq<
    TaskErrorModel,
> {
    let elapsed = supervisor_error(
        "shutdown deadline elapsed after "@ + duration::debug_nanos(deadline),
        false,
    );
    match end {
        SupervisorEnd::Finished(errors) => task_errors(errors@).push(elapsed),
        SupervisorEnd::Failed(failure) => seq![
            elapsed,
            supervisor_error(failure.message@, failure.panicked),
        ],
        SupervisorEnd::TimedOut => seq![
            elapsed,
            supervisor_error(
                "forced shutdown did not reach a safe point after "@ + duration::debug_nanos(
                    forced_timeout,
                ),
                false,
            ),
        ],
    }
}

/// The errors of a runtime whose deadline elapsed and that was then forced to
/// stop.
pub fn errors_after_deadline(
    deadline: Duration,
    forced_timeout: Duration,
    end: SupervisorEnd,
) -> (errors: Vec<RuntimeTaskError>)
    requires
        deadline@ <= MAX_DURATION_NANOS,
        forced_timeout@ <= MAX_DURATION_NANOS,
    ensures
        task_errors(errors@) == forced_errors(deadline@, forced_timeout@, end),
{
    let message = join2("shutdown deadline elapsed after ", deadline.display().as_str());
    let elapsed = supervisor_error_of(message.as_str(), false);
    match end {
        SupervisorEnd::Finished(found) => {
            let mut errors = found;
            errors.push(elapsed);
            assert(task_errors(errors@) =~= forced_errors(deadline@, forced_timeout@, end));
            errors
        },
        SupervisorEnd::Failed(failure) => {
            let mut errors: Vec<RuntimeTaskError> = Vec::new();
            errors.push(elapsed);
            errors.push(supervisor_error_of(failure.message.as_str(), failure.panicked));
            assert(task_errors(errors@) =~= forced_errors(deadline@, forced_timeout@, end));
            errors
        },
        SupervisorEnd::TimedOut => {
            let mut errors: Vec<RuntimeTaskError> = Vec::new();
            errors.push(elapsed);
            let forced = join2(
                "forced shutdown did not reach a safe point after ",
                forced_timeout.display().as_str(),
            );
            errors.push(supervisor_error_of(forced.as_str(), false));
            assert(task_errors(errors@) =~= forced_errors(deadline@, forced_timeout@, end));
            errors
        },
    }
}

/// How a runtime stopped: well only where there are no errors.
pub fn shutdown_result(errors: Vec<RuntimeTaskError>) -> (result: Result<(), RuntimeShutdownError>)
    ensures
        match result {
            Ok(_) => errors@.len() == 0,
            Err(error) => errors@.len() > 0 && error.errors == errors,
        },
{
    if errors.len() == 0 {
        Ok(())
    } else {
        Err(RuntimeShutdownError { errors })
    }
}

/// A topic runs at most as many tasks locally as its override says, or else the default,
/// and never more than the topic allows.
pub proof fn law_local_limit_is_the_smaller_one(
    topic: Seq<char>,
    global_limit: u32,
    default_local_limit: u32,
    limits: TopicWorkerLimits,
)
    ensures
        ({
            let limit = local_limit(topic, global_limit, default_local_limit, limits);
            let local = match limits.limit_of(topic) {
                Some(limit) => limit,
                None => default_local_limit,
            };
            limit <= global_limit && limit <= local && (limit == global_limit || limit == local)
        }),
{
}

/// The capacity is the sum of the local limits: one topic more adds its own limit.
pub proof fn law_capacity_adds_up(
    definitions: Seq<TopicDefinition>,
    definition: TopicDefinition,
    default_local_limit: u32,
    overrides: TopicWorkerLimits,
)
    ensures
        capacity_of(Seq::empty(), default_local_limit, overrides) == 0,
        capacity_of(definitions.push(definition), default_local_limit, overrides) == capacity_of(
            definitions,
            default_local_limit,
            overrides,
        ) + local_limit(
            definition.key@,
            definition.max_concurrency,
            default_local_limit,
            overrides,
        ),
{
    assert(definitions.push(definition).drop_last() =~= definitions);
}

/// The local room of a topic is all that its limit leaves beside what runs, and none where
/// as many run.
pub proof fn law_local_room_uses_the_limit(
    definition: TopicDefinition,
    default_local_limit: u32,
    overrides: TopicWorkerLimits,
    snapshot: ExecutionSnapshot,
)
    ensures
        ({
            let room = local_room(definition, default_local_limit, overrides, snapshot);
            let active = active_in(snapshot, definition.key@);
            let limit = local_limit(
                definition.key@,
                definition.max_concurrency,
                default_local_limit,
                overrides,
            );
            &&& 0 <= room
            &&& active < limit ==> active + room == limit
            &&& active >= limit ==> room == 0
        }),
{
}

/// A runtime waits longer the more looks in a row found nothing: one second, then two, then
/// five, and ten from then on.
pub proof fn law_idle_runtime_waits_longer(earlier: int, later: int)
    requires
        0 <= earlier <= later,
    ensures
        idle_secs(earlier) <= idle_secs(later),
        idle_secs(0) == 1,
        idle_secs(1) == 2,
        idle_secs(2) == 5,
        later >= 3 ==> idle_secs(later) == 10,
{
}

/// A polling task looks again at once where it found work, and otherwise after its own
/// configured time; health is always looked at in its own rhythm.
pub proof fn law_polling_tasks_wait_their_own_time(config: RuntimeConfig, key: Seq<char>, found_work: bool)
    ensures
        poll_pause(SpecModel::Health, config, found_work) == Some(config.health_scan_interval@),
        poll_pause(SpecModel::Coordinator, config, false) == Some(config.idle_delay@),
        poll_pause(SpecModel::Timer, config, false) == Some(config.timer_poll_interval@),
        poll_pause(SpecModel::ApprovalExpiry, config, false) == Some(
            config.approval_expiry_poll_interval@,
        ),
        poll_pause(SpecModel::Schedule { key }, config, false) == Some(
            config.schedule_poll_interval@,
        ),
        poll_pause(SpecModel::Coordinator, config, true) is None,
        poll_pause(SpecModel::Timer, config, true) is None,
        poll_pause(SpecModel::ApprovalExpiry, config, true) is None,
        poll_pause(SpecModel::Schedule { key }, config, true) is None,
{
}

/// A schedule task ends with the error of its tick where its schedule is not registered or
/// the error is one of the database or of stored data, and goes on after every other.
pub proof fn law_schedule_task_ends_for_a_reason(
    key: Seq<char>,
    registered: bool,
    error: ErrorModel,
)
    ensures
        ({
            let end = after_failed_tick(key, registered, error);
            let passing = error is Database || error is Pool || error is PoolCheckout
                || error is Serialization;
            &&& end is Some <==> !registered || passing
            &&& registered && passing ==> end->0.message == error::error_text(error)
            &&& end is Some ==> !end->0.panicked
        }),
{
}

/// A task that ends is an error under its own name: with what it failed with, or as one
/// that stopped unexpectedly.
pub proof fn law_ended_task_is_named(task: SpecModel, failure: executions::FailureModel)
    ensures
        end_error(task, Ok(())).task == task_name(task),
        !end_error(task, Ok(())).panicked,
        end_error(task, Ok(())).message == "task stopped unexpectedly"@,
        end_error(task, Err(failure)).task == task_name(task),
        end_error(task, Err(failure)).message == failure.message,
        end_error(task, Err(failure)).panicked == failure.panicked,
{
}

/// A runtime starts one task of each kind and one for every schedule, with the execution
/// manager first and the dispatcher last.
pub proof fn law_every_schedule_has_a_task(schedule_keys: Seq<Seq<char>>, i: int)
    ensures
        ({
            let tasks = initial_specs(schedule_keys);
            &&& tasks.len() == schedule_keys.len() + 6
            &&& tasks[0] == SpecModel::ActivityExecutionManager
            &&& tasks[1] == SpecModel::Coordinator
            &&& tasks[2] == SpecModel::Health
            &&& tasks[3] == SpecModel::Timer
            &&& tasks[4] == SpecModel::ApprovalExpiry
            &&& 0 <= i < schedule_keys.len() ==> tasks[5 + i] == (SpecModel::Schedule {
                key: schedule_keys[i],
            })
            &&& tasks.last() == SpecModel::ActivityDispatcher
        }),
{
}

/// A runtime that missed its deadline says so in any case, beside the errors of its tasks,
/// the failure of its supervisor, or that it could not be forced to stop.
pub proof fn law_missed_deadline_is_reported(deadline: nat, forced_timeout: nat, end: SupervisorEnd)
    ensures
        ({
            let errors = forced_errors(deadline, forced_timeout, end);
            let elapsed = TaskErrorModel {
                task: "supervisor"@,
                message: "shutdown deadline elapsed after "@ + duration::debug_nanos(deadline),
                panicked: false,
            };
            &&& errors.contains(elapsed)
            &&& match end {
                SupervisorEnd::Finished(found) => errors.len() == found@.len() + 1 && forall|i: int|
                    0 <= i < found@.len() ==> errors[i] == (#[trigger] found@[i])@,
                SupervisorEnd::Failed(failure) => errors.len() == 2 && errors[1].message
                    == failure.message@ && errors[1].panicked == failure.panicked && errors[1].task
                    == "supervisor"@,
                SupervisorEnd::TimedOut => errors.len() == 2 && errors[1].message
                    == "forced shutdown did not reach a safe point after "@ + duration::debug_nanos(
                    forced_timeout,
                ) && errors[1].task == "supervisor"@,
            }
        }),
{
    let errors = forced_errors(deadline, forced_timeout, end);
    match end {
        SupervisorEnd::Finished(found) => {
            assert(errors[found@.len() as int].task == "supervisor"@);
        },
        _ => {
            assert(errors[0].task == "supervisor"@);
        },
    }
}

/// A runtime runs only under a name and with bounds that are not zero, shows one to a
/// hundred alerts of a kind, and looks at due work at least every minute.
pub proof fn law_runtime_is_refused_only_for_a_reason(runtime_id: Seq<char>, config: RuntimeConfig)
    ensures
        valid_runtime(runtime_id, config) <==> {
            &&& runtime_id.len() > 0
            &&& config.idle_delay@ > 0
            &&& config.restart_backoff@ > 0
            &&& config.forced_shutdown_timeout@ > 0
            &&& config.max_task_restarts > 0
            &&& config.max_workers_per_topic > 0
            &&& config.health_scan_interval@ > 0
            &&& config.health_stale_after@ > 0
            &&& 1 <= config.max_health_alerts_per_kind <= 100
            &&& 0 < config.timer_poll_interval@ <= 60_000_000_000
            &&& 0 < config.approval_expiry_poll_interval@ <= 60_000_000_000
            &&& 0 < config.schedule_poll_interval@ <= 60_000_000_000
        },
{
}

/// A task that stops on its own is started again until it was restarted as often as allowed;
/// the next time the runtime stops. The executions of activities are never started again,
/// and while the runtime stops no task is.
pub proof fn law_stopped_task_is_restarted(
    before: Supervision,
    id: Seq<char>,
    end: Result<(), executions::FailureModel>,
    cancelled: bool,
    max_task_restarts: u32,
    after: Supervision,
    step: SupervisorStep,
    task: SpecModel,
)
    requires
        task_joined(before, id, end, cancelled, max_task_restarts, after, step),
        before.watched(id) == Some(task),
        before.restarts(task) < u32::MAX,
    ensures
        after.watched(id) is None,
        step.restart is Some <==> !cancelled && task != SpecModel::ActivityExecutionManager
            && before.restarts(task) < max_task_restarts,
        step.restart matches Some(restarted) ==> restarted@ == task && after.restarts(task)
            == before.restarts(task) + 1,
        step.cancel <==> !cancelled && step.restart is None,
        step.shut_down_executions <==> task == SpecModel::ActivityDispatcher && (cancelled
            || step.cancel),
{
}

/// The end of a task is told as an error under its name, with the message and the kind of
/// its failure; a task that merely ends while the runtime stops is none.
pub proof fn law_task_errors_are_told(
    before: Supervision,
    id: Seq<char>,
    end: Result<(), executions::FailureModel>,
    cancelled: bool,
    max_task_restarts: u32,
    after: Supervision,
    step: SupervisorStep,
    task: SpecModel,
)
    requires
        task_joined(before, id, end, cancelled, max_task_restarts, after, step),
        before.watched(id) == Some(task),
    ensures
        cancelled && end is Ok ==> after.spec_errors() == before.spec_errors(),
        !cancelled || end is Err ==> {
            &&& after.spec_errors().drop_last() == before.spec_errors()
            &&& after.spec_errors().len() == before.spec_errors().len() + 1
            &&& after.spec_errors().last().task == task_name(task)
            &&& match end {
                Ok(()) => after.spec_errors().last().message == "task stopped unexpectedly"@
                    && !after.spec_errors().last().panicked,
                Err(failure) => after.spec_errors().last().message == failure.message
                    && after.spec_errors().last().panicked == failure.panicked,
            }
        },
{
}

/// The end of a task that nobody watches stops the runtime, and the end of one task leaves
/// the others alone.
pub proof fn law_unknown_task_stops_the_runtime(
    before: Supervision,
    id: Seq<char>,
    end: Result<(), executions::FailureModel>,
    cancelled: bool,
    max_task_restarts: u32,
    after: Supervision,
    step: SupervisorStep,
    other: Seq<char>,
)
    requires
        task_joined(before, id, end, cancelled, max_task_restarts, after, step),
    ensures
        before.watched(id) is None ==> step.cancel && step.restart is None
            && after.spec_errors().len() == before.spec_errors().len() + 1,
        other != id ==> after.watched(other) == before.watched(other),
{
}

} // verus!
