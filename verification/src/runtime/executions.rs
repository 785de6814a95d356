//! The activity executions that run side by side.
use vstd::prelude::*;
use crate::numerals;
use crate::numerals::decimal_u64;
use crate::text;
use crate::text::{join2, join3, join5, same_text};

verus! {

/// Why a task of a runtime failed.
#[derive(Debug, PartialEq, Eq)]
pub struct RuntimeTaskFailure {
    pub message: String,
    pub panicked: bool,
}

/// The mathematical content of a [`RuntimeTaskFailure`].
#[verifier::ext_equal]
pub struct FailureModel {
    pub message: Seq<char>,
    pub panicked: bool,
}

impl View for RuntimeTaskFailure {
    type V = FailureModel;

    open spec fn view(&self) -> FailureModel {
        FailureModel { message: self.message@, panicked: self.panicked }
    }
}

/// A failure with the given text that is no panic.
pub open spec fn plain_failure(message: Seq<char>) -> FailureModel {
    FailureModel { message, panicked: false }
}

/// A failure with the given text that is no panic.
pub fn failure(message: &str) -> (failure: RuntimeTaskFailure)
    ensures
        failure@ == plain_failure(message@),
{
    RuntimeTaskFailure { message: message.to_owned(), panicked: false }
}

/// How an execution ended: it ran to its end, with or without an error of its
/// own, or its task died with the given text.
#[derive(Debug, PartialEq, Eq)]
pub enum ExecutionEnd {
    Completed,
    Failed,
    Died { message: String, panicked: bool },
}

/// A running execution: the name of its task, its topic and the dispatcher that
/// started it.
#[derive(Debug, PartialEq, Eq)]
pub struct ExecutionTask {
    pub id: String,
    pub topic: String,
    pub dispatcher: u64,
}

/// The mathematical content of an [`ExecutionTask`].
#[verifier::ext_equal]
pub struct TaskModel {
    pub id: Seq<char>,
    pub topic: Seq<char>,
    pub dispatcher: u64,
}

impl View for ExecutionTask {
    type V = TaskModel;

    open spec fn view(&self) -> TaskModel {
        TaskModel { id: self.id@, topic: self.topic@, dispatcher: self.dispatcher }
    }
}

/// How many executions run, in all and by topic. A topic stays listed once an
/// execution of it was started.
#[derive(Debug, PartialEq, Eq)]
pub struct ExecutionSnapshot {
    pub total: usize,
    pub active_by_topic: Vec<(String, usize)>,
}

/// The running executions and the failures that nobody has taken yet.
#[derive(Debug)]
pub struct ActivityExecutions {
    tasks: Vec<ExecutionTask>,
    topics: Vec<String>,
    failed_dispatchers: Vec<u64>,
    failures: Vec<RuntimeTaskFailure>,
    supplemental: Vec<RuntimeTaskFailure>,
    shutting_down: bool,
}

/// The mathematical content of an [`ActivityExecutions`].
#[verifier::ext_equal]
pub struct ExecutionsModel {
    pub tasks: Seq<TaskModel>,
    pub topics: Seq<Seq<char>>,
    pub failed_dispatchers: Seq<u64>,
    pub failures: Seq<FailureModel>,
    pub supplemental: Seq<FailureModel>,
    pub shutting_down: bool,
}

/// The contents of some failures.
pub open spec fn failure_models(failures: Seq<RuntimeTaskFailure>) -> Seq<FailureModel> {
    Seq::new(failures.len(), |i: int| failures[i]@)
}

impl View for ActivityExecutions {
    type V = ExecutionsModel;

    closed spec fn view(&self) -> ExecutionsModel {
        ExecutionsModel {
            tasks: Seq::new(self.tasks@.len(), |i: int| self.tasks@[i]@),
            topics: text::texts(self.topics@),
            failed_dispatchers: self.failed_dispatchers@,
            failures: failure_models(self.failures@),
            supplemental: failure_models(self.supplemental@),
            shutting_down: self.shutting_down,
        }
    }
}

/// Whether a task with the given name runs at the given place.
pub open spec fn runs_at(tasks: Seq<TaskModel>, id: Seq<char>, at: int) -> bool {
    0 <= at < tasks.len() && tasks[at].id == id
}

/// Whether a task with the given name runs.
pub open spec fn runs(tasks: Seq<TaskModel>, id: Seq<char>) -> bool {
    exists|at: int| #[trigger] runs_at(tasks, id, at)
}

/// How many of the tasks belong to a topic.
pub open spec fn active_of(tasks: Seq<TaskModel>, topic: Seq<char>) -> nat
    decreases tasks.len(),
{
    if tasks.len() == 0 {
        0
    } else {
        active_of(tasks.drop_last(), topic) + (if tasks.last().topic == topic {
            1nat
        } else {
            0
        })
    }
}

/// Whether a snapshot counts the running tasks.
pub open spec fn counts_tasks(model: ExecutionsModel, snapshot: ExecutionSnapshot) -> bool {
    &&& snapshot.total == model.tasks.len()
    &&& snapshot.active_by_topic@.len() == model.topics.len()
    &&& forall|i: int|
        0 <= i < model.topics.len() ==> (#[trigger] snapshot.active_by_topic@[i]).0@
            == model.topics[i] && snapshot.active_by_topic@[i].1 == active_of(
            model.tasks,
            model.topics[i],
        )
}

/// The topics after an execution of a topic was started.
pub open spec fn topics_with(topics: Seq<Seq<char>>, topic: Seq<char>) -> Seq<Seq<char>> {
    if topics.contains(topic) {
        topics
    } else {
        topics.push(topic)
    }
}

/// Several failures as one: the first, with the number of the others, and a
/// panic where one of them is.
pub open spec fn merged_failure(failures: Seq<FailureModel>) -> FailureModel {
    let additional = failures.len() - 1;
    FailureModel {
        message: if additional == 0 {
            failures[0].message
        } else {
            failures[0].message + "; "@ + numerals::decimal(additional)
                + " additional activity execution "@ + (if additional == 1 {
                "task"@
            } else {
                "tasks"@
            }) + " failed"@
        },
        panicked: exists|i: int| 0 <= i < failures.len() && (#[trigger] failures[i]).panicked,
    }
}

/// What the end of an execution changes.
pub open spec fn after_end(
    before: ExecutionsModel,
    at: int,
    end: ExecutionEnd,
) -> ExecutionsModel {
    let dispatcher = before.tasks[at].dispatcher;
    let left = ExecutionsModel { tasks: before.tasks.remove(at), ..before };
    match end {
        ExecutionEnd::Died { message, panicked } => {
            let failure = FailureModel {
                message: "activity execution task failed: "@ + message@,
                panicked,
            };
            if before.failed_dispatchers.contains(dispatcher) {
                ExecutionsModel { supplemental: before.supplemental.push(failure), ..left }
            } else {
                ExecutionsModel {
                    failed_dispatchers: before.failed_dispatchers.push(dispatcher),
                    failures: before.failures.push(failure),
                    ..left
                }
            }
        },
        _ => left,
    }
}

impl ActivityExecutions {
    /// No executions.
    pub fn new() -> (executions: Self)
        ensures
            executions@ == (ExecutionsModel {
                tasks: Seq::empty(),
                topics: Seq::empty(),
                failed_dispatchers: Seq::empty(),
                failures: Seq::empty(),
                supplemental: Seq::empty(),
                shutting_down: false,
            }),
    {
        ActivityExecutions {
            tasks: Vec::new(),
            topics: Vec::new(),
            failed_dispatchers: Vec::new(),
            failures: Vec::new(),
            supplemental: Vec::new(),
            shutting_down: false,
        }
    }

    fn position(&self, id: &str) -> (found: Option<usize>)
        ensures
            match found {
                Some(at) => runs_at(self@.tasks, id@, at as int) && forall|j: int|
                    0 <= j < at ==> (#[trigger] self@.tasks[j]).id != id@,
                None => !runs(self@.tasks, id@),
            },
    {
        let mut i: usize = 0;
        while i < self.tasks.len()
            invariant
                i <= self.tasks@.len(),
                forall|j: int| 0 <= j < i ==> (#[trigger] self@.tasks[j]).id != id@,
            decreases self.tasks@.len() - i,
        {
            assert(self@.tasks[i as int] == self.tasks@[i as int]@);
            if same_text(self.tasks[i].id.as_str(), id) {
                return Some(i);
            }
            i = i + 1;
        }
        None
    }

    /// Whether the execution with the given task runs.
    pub fn is_running(&self, id: &str) -> (running: bool)
        ensures
            running == runs(self@.tasks, id@),
    {
        self.position(id).is_some()
    }

    fn lists_topic(&self, topic: &str) -> (known: bool)
        ensures
            known == self@.topics.contains(topic@),
    {
        let mut i: usize = 0;
        while i < self.topics.len()
            invariant
                i <= self.topics@.len(),
                forall|j: int| 0 <= j < i ==> #[trigger] self@.topics[j] != topic@,
            decreases self.topics@.len() - i,
        {
            assert(self@.topics[i as int] == self.topics@[i as int]@);
            if same_text(self.topics[i].as_str(), topic) {
                return true;
            }
            i = i + 1;
        }
        false
    }

    /// Refuses to start an execution during a shutdown.
    pub fn check_open(&self) -> (result: Result<(), RuntimeTaskFailure>)
        ensures
            match result {
                Ok(_) => !self@.shutting_down,
                Err(failure) => self@.shutting_down && failure@ == plain_failure(
                    "activity execution manager is shutting down"@,
                ),
            },
    {
        if self.shutting_down {
            return Err(failure("activity execution manager is shutting down"));
        }
        Ok(())
    }

    /// Records an execution that was started.
    pub fn spawn(&mut self, id: &str, topic: &str, dispatcher: u64)
        requires
            !old(self)@.shutting_down,
            !runs(old(self)@.tasks, id@),
        ensures
            final(self)@ == (ExecutionsModel {
                tasks: old(self)@.tasks.push(TaskModel { id: id@, topic: topic@, dispatcher }),
                topics: topics_with(old(self)@.topics, topic@),
                ..old(self)@
            }),
    {
        let ghost before = self@;
        let known = self.lists_topic(topic);
        if !known {
            self.topics.push(topic.to_owned());
        }
        self.tasks.push(
            ExecutionTask { id: id.to_owned(), topic: topic.to_owned(), dispatcher },
        );
        proof {
            assert(self@.tasks =~= before.tasks.push(
                TaskModel { id: id@, topic: topic@, dispatcher },
            ));
            assert(self@.topics =~= topics_with(before.topics, topic@));
        }
    }

    fn count_topic(&self, topic: &str) -> (count: usize)
        ensures
            count == active_of(self@.tasks, topic@),
    {
        let mut count: usize = 0;
        let mut i: usize = 0;
        while i < self.tasks.len()
            invariant
                i <= self.tasks@.len(),
                count <= i,
                count == active_of(self@.tasks.take(i as int), topic@),
            decreases self.tasks@.len() - i,
        {
            proof {
                assert(self@.tasks.take(i + 1).drop_last() =~= self@.tasks.take(i as int));
                assert(self@.tasks.take(i + 1).last() == self.tasks@[i as int]@);
            }
            if same_text(self.tasks[i].topic.as_str(), topic) {
                count = count + 1;
            }
            i = i + 1;
        }
        assert(self@.tasks.take(i as int) =~= self@.tasks);
        count
    }

    /// How many executions run.
    pub fn snapshot(&self) -> (snapshot: ExecutionSnapshot)
        ensures
            counts_tasks(self@, snapshot),
    {
        let mut active_by_topic: Vec<(String, usize)> = Vec::new();
        let mut i: usize = 0;
        while i < self.topics.len()
            invariant
                i <= self.topics@.len(),
                active_by_topic@.len() == i,
                forall|j: int|
                    0 <= j < i ==> (#[trigger] active_by_topic@[j]).0@ == self@.topics[j]
                        && active_by_topic@[j].1 == active_of(self@.tasks, self@.topics[j]),
            decreases self.topics@.len() - i,
        {
            let count: usize = self.count_topic(self.topics[i].as_str());
            active_by_topic.push((self.topics[i].clone(), count));
            i = i + 1;
        }
        ExecutionSnapshot { total: self.tasks.len(), active_by_topic }
    }

    fn has_failed(&self, dispatcher: u64) -> (failed: bool)
        ensures
            failed == self@.failed_dispatchers.contains(dispatcher),
    {
        let mut i: usize = 0;
        while i < self.failed_dispatchers.len()
            invariant
                i <= self.failed_dispatchers@.len(),
                forall|j: int|
                    0 <= j < i ==> #[trigger] self.failed_dispatchers@[j] != dispatcher,
            decreases self.failed_dispatchers@.len() - i,
        {
            if self.failed_dispatchers[i] == dispatcher {
                return true;
            }
            i = i + 1;
        }
        false
    }

    /// Records the end of an execution. Only the first task of a dispatcher that
    /// dies is a failure to take; the others are kept for the end.
    pub fn finish(&mut self, id: &str, end: ExecutionEnd) -> (result: Result<
        (),
        RuntimeTaskFailure,
    >)
        ensures
            match result {
                Ok(_) => exists|at: int|
                    {
                        &&& #[trigger] runs_at(old(self)@.tasks, id@, at)
                        &&& forall|j: int| 0 <= j < at ==> (#[trigger] old(self)@.tasks[j]).id != id@
                        &&& final(self)@ == after_end(old(self)@, at, end)
                    },
                Err(failure) => {
                    &&& !runs(old(self)@.tasks, id@)
                    &&& final(self)@ == old(self)@
                    &&& failure@ == plain_failure(
                        "activity execution task "@ + id@ + " had no topic record"@,
                    )
                },
            },
    {
        let ghost before = self@;
        let at: usize = match self.position(id) {
            Some(at) => at,
            None => {
                let message = join3("activity execution task ", id, " had no topic record");
                return Err(failure(message.as_str()));
            },
        };
        let task = self.tasks.remove(at);
        proof {
            assert(self@.tasks =~= before.tasks.remove(at as int));
            assert(task@ == before.tasks[at as int]);
        }
        match end {
            ExecutionEnd::Died { message, panicked } => {
                let failure = RuntimeTaskFailure {
                    message: join2("activity execution task failed: ", message.as_str()),
                    panicked,
                };
                if self.has_failed(task.dispatcher) {
                    self.supplemental.push(failure);
                    assert(self@.supplemental =~= before.supplemental.push(failure@));
                } else {
                    self.failed_dispatchers.push(task.dispatcher);
                    self.failures.push(failure);
                    assert(self@.failures =~= before.failures.push(failure@));
                }
            },
            _ => {},
        }
        assert(self@ =~= after_end(before, at as int, end));
        assert(runs_at(before.tasks, id@, at as int));
        Ok(())
    }

    /// Takes all failures as one.
    pub fn take_failure(&mut self) -> (taken: Option<RuntimeTaskFailure>)
        ensures
            match taken {
                Some(failure) => old(self)@.failures.len() > 0 && failure@ == merged_failure(
                    old(self)@.failures,
                ) && final(self)@ == (ExecutionsModel { failures: Seq::empty(), ..old(self)@ }),
                None => old(self)@.failures.len() == 0 && final(self)@ == old(self)@,
            },
    {
        let ghost before = self@;
        if self.failures.len() == 0 {
            return None;
        }
        let mut failures: Vec<RuntimeTaskFailure> = Vec::new();
        core::mem::swap(&mut failures, &mut self.failures);
        assert(self@.failures =~= Seq::empty());
        let mut panicked = false;
        let mut i: usize = 0;
        while i < failures.len()
            invariant
                i <= failures@.len(),
                before.failures == failure_models(failures@),
                panicked == exists|j: int|
                    0 <= j < i && (#[trigger] before.failures[j]).panicked,
            decreases failures@.len() - i,
        {
            let ghost earlier = panicked;
            panicked = panicked || failures[i].panicked;
            proof {
                assert(before.failures[i as int] == failures@[i as int]@);
                if failures@[i as int].panicked {
                    assert(before.failures[i as int].panicked);
                } else if panicked {
                    let j = choose|j: int| 0 <= j < i && (#[trigger] before.failures[j]).panicked;
                    assert(before.failures[j].panicked);
                }
            }
            i = i + 1;
        }
        let additional: usize = failures.len() - 1;
        let first = failures.remove(0);
        assert(before.failures[0] == first@);
        let message = if additional == 0 {
            first.message
        } else {
            let suffix = if additional == 1 {
                "task"
            } else {
                "tasks"
            };
            let counted = join5(
                first.message.as_str(),
                "; ",
                decimal_u64(additional as u64).as_str(),
                " additional activity execution ",
                suffix,
            );
            join2(counted.as_str(), " failed")
        };
        let merged = RuntimeTaskFailure { message, panicked };
        assert(merged@ =~= merged_failure(before.failures));
        Some(merged)
    }

    /// Gives a failure back that nobody received.
    pub fn requeue(&mut self, failure: RuntimeTaskFailure)
        ensures
            final(self)@ == (ExecutionsModel {
                failures: seq![failure@] + old(self)@.failures,
                ..old(self)@
            }),
    {
        let ghost before = self@;
        self.failures.insert(0, failure);
        assert(self@.failures =~= seq![failure@] + before.failures);
    }

    /// Stops to accept executions.
    pub fn begin_shutdown(&mut self)
        ensures
            final(self)@ == (ExecutionsModel { shutting_down: true, ..old(self)@ }),
    {
        self.shutting_down = true;
    }

    /// Whether a shutdown has nothing left to wait for.
    pub fn is_drained(&self) -> (drained: bool)
        ensures
            drained == (self@.shutting_down && self@.tasks.len() == 0),
    {
        self.shutting_down && self.tasks.len() == 0
    }

    /// How the executions ended in all: with the first failure that nobody has
    /// taken, where there is one.
    pub fn conclude(self) -> (result: Result<(), RuntimeTaskFailure>)
        ensures
            ({
                let all = self@.failures + self@.supplemental;
                match result {
                    Ok(_) => all.len() == 0,
                    Err(failure) => all.len() > 0 && failure@ == all[0],
                }
            }),
    {
        let ghost model = self@;
        let ActivityExecutions { tasks: _, topics: _, failed_dispatchers: _, failures, supplemental, shutting_down: _ } = self;
        let mut failures = failures;
        let mut supplemental = supplemental;
        proof {
            assert(model.failures == failure_models(failures@));
            assert(model.supplemental == failure_models(supplemental@));
        }
        if failures.len() > 0 {
            let first = failures.remove(0);
            assert((model.failures + model.supplemental)[0] == first@);
            return Err(first);
        }
        if supplemental.len() > 0 {
            let first = supplemental.remove(0);
            assert((model.failures + model.supplemental)[0] == first@);
            return Err(first);
        }
        Ok(())
    }
}

/// The end of an execution gives its place back, in all and in its topic alone.
pub proof fn law_end_releases_capacity(before: ExecutionsModel, at: int, end: ExecutionEnd, topic: Seq<char>)
    requires
        0 <= at < before.tasks.len(),
    ensures
        after_end(before, at, end).tasks.len() == before.tasks.len() - 1,
        active_of(after_end(before, at, end).tasks, topic) == active_of(before.tasks, topic) - (
        if before.tasks[at].topic == topic {
            1int
        } else {
            0
        }),
{
    lemma_active_remove(before.tasks, at, topic);
}

proof fn lemma_active_remove(tasks: Seq<TaskModel>, at: int, topic: Seq<char>)
    requires
        0 <= at < tasks.len(),
    ensures
        active_of(tasks, topic) == active_of(tasks.remove(at), topic) + (if tasks[at].topic == topic {
            1nat
        } else {
            0
        }),
    decreases tasks.len(),
{
    if at == tasks.len() - 1 {
        assert(tasks.remove(at) =~= tasks.drop_last());
    } else {
        lemma_active_remove(tasks.drop_last(), at, topic);
        assert(tasks.remove(at).drop_last() =~= tasks.drop_last().remove(at));
        assert(tasks.remove(at).last() == tasks.last());
    }
}

/// However many tasks of one dispatcher die, at most one failure of them waits
/// to be taken, and none is lost.
pub proof fn law_one_incident_per_dispatcher(before: ExecutionsModel, at: int, end: ExecutionEnd)
    requires
        0 <= at < before.tasks.len(),
        before.failed_dispatchers.contains(before.tasks[at].dispatcher),
    ensures
        after_end(before, at, end).failures == before.failures,
        end is Died ==> after_end(before, at, end).supplemental.len() == before.supplemental.len()
            + 1,
        after_end(before, at, end).failed_dispatchers == before.failed_dispatchers,
{
}

/// A failure that was taken and given back can be taken again.
pub proof fn law_returned_failure_is_taken_again(failures: Seq<FailureModel>)
    requires
        failures.len() > 0,
    ensures
        merged_failure(seq![merged_failure(failures)]) == merged_failure(failures),
{
    let again = seq![merged_failure(failures)];
    assert(again[0] == merged_failure(failures));
    assert(merged_failure(again).panicked == merged_failure(failures).panicked);
}

/// The end of an execution takes that execution away and keeps every other, with the topics
/// and whether the runtime shuts down; only one that died leaves a failure, which names what
/// happened and whether it panicked.
pub proof fn law_end_takes_one_execution_away(
    before: ExecutionsModel,
    at: int,
    end: ExecutionEnd,
    i: int,
)
    requires
        0 <= at < before.tasks.len(),
    ensures
        ({
            let after = after_end(before, at, end);
            &&& after.tasks.len() == before.tasks.len() - 1
            &&& 0 <= i < at ==> after.tasks[i] == before.tasks[i]
            &&& at < i < before.tasks.len() ==> after.tasks[i - 1] == before.tasks[i]
            &&& after.topics == before.topics
            &&& after.shutting_down == before.shutting_down
            &&& match end {
                ExecutionEnd::Died { message, panicked } => {
                    let failure = FailureModel {
                        message: "activity execution task failed: "@ + message@,
                        panicked,
                    };
                    let dispatcher = before.tasks[at].dispatcher;
                    &&& after.failed_dispatchers.contains(dispatcher)
                    &&& before.failed_dispatchers.contains(dispatcher) ==> after.supplemental
                        == before.supplemental.push(failure) && after.failures == before.failures
                    &&& !before.failed_dispatchers.contains(dispatcher) ==> after.failures
                        == before.failures.push(failure) && after.supplemental
                        == before.supplemental
                },
                _ => after.failures == before.failures && after.supplemental == before.supplemental
                    && after.failed_dispatchers == before.failed_dispatchers,
            }
        }),
{
    let dispatcher = before.tasks[at].dispatcher;
    if end is Died && !before.failed_dispatchers.contains(dispatcher) {
        let grown = before.failed_dispatchers.push(dispatcher);
        assert(grown[before.failed_dispatchers.len() as int] == dispatcher);
    }
}

/// Several failures as one name the first and count the others, and are a panic exactly
/// where one of them is; one alone stays as it is.
pub proof fn law_merged_failure_names_the_first(failures: Seq<FailureModel>, i: int)
    requires
        0 <= i < failures.len(),
    ensures
        failures.len() == 1 ==> merged_failure(failures).message == failures[0].message
            && merged_failure(failures).panicked == failures[0].panicked,
        failures.len() == 2 ==> merged_failure(failures).message == failures[0].message + "; "@
            + numerals::decimal(1) + " additional activity execution "@ + "task"@ + " failed"@,
        failures.len() > 2 ==> merged_failure(failures).message == failures[0].message + "; "@
            + numerals::decimal(failures.len() - 1) + " additional activity execution "@ + "tasks"@
            + " failed"@,
        failures[i].panicked ==> merged_failure(failures).panicked,
        (forall|k: int| 0 <= k < failures.len() ==> !(#[trigger] failures[k]).panicked)
            ==> !merged_failure(failures).panicked,
{
}

/// A started execution counts for its own topic and for no other, and its topic is listed
/// from then on, once.
pub proof fn law_executions_count_for_their_topic(
    tasks: Seq<TaskModel>,
    topics: Seq<Seq<char>>,
    task: TaskModel,
    topic: Seq<char>,
)
    ensures
        active_of(tasks.push(task), topic) == active_of(tasks, topic) + (if task.topic == topic {
            1int
        } else {
            0
        }),
        active_of(Seq::<TaskModel>::empty(), topic) == 0,
        topics_with(topics, topic).contains(topic),
        topics.contains(topic) ==> topics_with(topics, topic) == topics,
        !topics.contains(topic) ==> topics_with(topics, topic) == topics.push(topic),
{
    assert(tasks.push(task).drop_last() =~= tasks);
    assert(tasks.push(task).last() == task);
    if !topics.contains(topic) {
        assert(topics.push(topic)[topics.len() as int] == topic);
    }
}

/// A snapshot counts all running executions, and those of each topic under that topic.
pub proof fn law_snapshot_counts_what_runs(
    model: ExecutionsModel,
    snapshot: ExecutionSnapshot,
    i: int,
)
    requires
        counts_tasks(model, snapshot),
        0 <= i < model.topics.len(),
    ensures
        snapshot.total == model.tasks.len(),
        snapshot.active_by_topic@.len() == model.topics.len(),
        snapshot.active_by_topic@[i].0@ == model.topics[i],
        snapshot.active_by_topic@[i].1 == active_of(model.tasks, model.topics[i]),
{
}

} // verus!
