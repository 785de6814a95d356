//! Durable flows: control flow replayed deterministically over a persisted step journal.
//!
//! A flow runs from the top on every activation. Completed steps are recorded in
//! a [`FlowJournal`]; a request through [`WfCtx`] either replays the recorded
//! result of its position or suspends at the first unresolved step, which becomes
//! exactly one engine transition. Replay holds each requested step against the
//! recorded entry and fails closed on a mismatch.
use vstd::prelude::*;
use crate::error;
use crate::error::{DurableError, ErrorModel, WorkflowError};
use crate::ids::WorkflowId;
use crate::numerals;
use crate::numerals::{decimal_i64, decimal_u128, decimal_u64};
use crate::persistence::models::{ActivityRowModel, WorkflowRowModel};
use crate::persistence::workflows;
use crate::persistence::workflows::ParentWake;
use crate::policy::RetryPolicy;
use crate::runtime::activity_worker;
use crate::runtime::activity_worker::{ExecutionOutcomeModel, FinishPlan};
use crate::runtime::temporal;
use crate::runtime::temporal::Wake;
use crate::text;
use crate::text::{join2, join3, join5, same_text};
use crate::transition::{
    ActivityCommand, ChildOutcomeModel, ChildWorkflowCommand, StepResultModel, WorkflowEvent,
    WorkflowEventModel,
};

verus! {

/// How a completed step ended.
#[derive(Debug, PartialEq, Eq)]
pub enum StepOutcome {
    Succeeded { result_json: String },
    Failed { category: String, message: String },
}

impl Clone for StepOutcome {
    fn clone(&self) -> (copy: Self)
        ensures
            copy == *self,
    {
        match self {
            StepOutcome::Succeeded { result_json } => StepOutcome::Succeeded {
                result_json: result_json.clone(),
            },
            StepOutcome::Failed { category, message } => StepOutcome::Failed {
                category: category.clone(),
                message: message.clone(),
            },
        }
    }
}

/// The mathematical content of a [`StepOutcome`].
#[verifier::ext_equal]
pub enum OutcomeModel {
    Succeeded { result_json: Seq<char> },
    Failed { category: Seq<char>, message: Seq<char> },
}

impl View for StepOutcome {
    type V = OutcomeModel;

    open spec fn view(&self) -> OutcomeModel {
        match *self {
            StepOutcome::Succeeded { result_json } => OutcomeModel::Succeeded {
                result_json: result_json@,
            },
            StepOutcome::Failed { category, message } => OutcomeModel::Failed {
                category: category@,
                message: message@,
            },
        }
    }
}

/// One completed step in a flow's replay journal.
///
/// Timers have no version.
#[derive(Debug, Clone, PartialEq, Eq)]
pub struct JournalEntry {
    pub step_kind: String,
    pub step_version: Option<i32>,
    pub outcome: StepOutcome,
}

/// The mathematical content of a [`JournalEntry`].
#[verifier::ext_equal]
pub struct EntryModel {
    pub step_kind: Seq<char>,
    pub step_version: Option<i32>,
    pub outcome: OutcomeModel,
}

impl View for JournalEntry {
    type V = EntryModel;

    open spec fn view(&self) -> EntryModel {
        EntryModel {
            step_kind: self.step_kind@,
            step_version: self.step_version,
            outcome: self.outcome@,
        }
    }
}

/// The durable state of a flow: the ordered results of every completed step.
#[derive(Debug, Clone, PartialEq, Eq)]
pub struct FlowJournal {
    pub steps: Vec<JournalEntry>,
}

/// The views of a sequence of journal entries.
pub open spec fn entries(steps: Seq<JournalEntry>) -> Seq<EntryModel> {
    steps.map_values(|entry: JournalEntry| entry@)
}

impl View for FlowJournal {
    type V = Seq<EntryModel>;

    open spec fn view(&self) -> Seq<EntryModel> {
        entries(self.steps@)
    }
}

impl Default for FlowJournal {
    fn default() -> (journal: Self)
        ensures
            journal@ == Seq::<EntryModel>::empty(),
    {
        let journal = FlowJournal { steps: Vec::new() };
        assert(journal@ =~= Seq::<EntryModel>::empty());
        journal
    }
}

/// Errors surfaced to and from flow code.
///
/// `Suspended` marks a suspension at an unresolved step; flow code must hand it
/// on rather than swallow it.
#[derive(Debug)]
pub enum WfError {
    Suspended,
    ChildFailed { kind: String, category: String, message: String },
    Definition(String),
    Domain { category: String, message: String },
}

/// The mathematical content of a [`WfError`].
#[verifier::ext_equal]
pub enum WfErrorModel {
    Suspended,
    ChildFailed { kind: Seq<char>, category: Seq<char>, message: Seq<char> },
    Definition(Seq<char>),
    Domain { category: Seq<char>, message: Seq<char> },
}

impl View for WfError {
    type V = WfErrorModel;

    open spec fn view(&self) -> WfErrorModel {
        match *self {
            WfError::Suspended => WfErrorModel::Suspended,
            WfError::ChildFailed { kind, category, message } => WfErrorModel::ChildFailed {
                kind: kind@,
                category: category@,
                message: message@,
            },
            WfError::Definition(message) => WfErrorModel::Definition(message@),
            WfError::Domain { category, message } => WfErrorModel::Domain {
                category: category@,
                message: message@,
            },
        }
    }
}

/// The text that describes a flow error.
pub open spec fn wf_error_text(error: WfErrorModel) -> Seq<char> {
    match error {
        WfErrorModel::Suspended => "flow suspended at a durable step"@,
        WfErrorModel::ChildFailed { kind, category, message } => "child workflow "@ + kind
            + " failed: "@ + category + ": "@ + message,
        WfErrorModel::Definition(message) => "flow definition error: "@ + message,
        WfErrorModel::Domain { category, message } => category + ": "@ + message,
    }
}

impl WfError {
    /// A domain error raised by flow code.
    pub fn new(category: &str, message: &str) -> (error: Self)
        ensures
            error@ == (WfErrorModel::Domain { category: category@, message: message@ }),
    {
        WfError::Domain { category: category.to_owned(), message: message.to_owned() }
    }

    /// A durable error seen by flow code.
    pub fn from_durable(error: &DurableError) -> (converted: Self)
        ensures
            converted@ == WfErrorModel::Definition(error::error_text(error@)),
    {
        WfError::Definition(error.message())
    }

    /// The text that describes the error.
    pub fn message(&self) -> (text: String)
        ensures
            text@ == wf_error_text(self@),
    {
        match self {
            WfError::Suspended => "flow suspended at a durable step".to_owned(),
            WfError::ChildFailed { kind, category, message } => {
                let mut text = join5(
                    "child workflow ",
                    kind.as_str(),
                    " failed: ",
                    category.as_str(),
                    ": ",
                );
                text.append(message.as_str());
                text
            },
            WfError::Definition(message) => join2("flow definition error: ", message.as_str()),
            WfError::Domain { category, message } => join3(
                category.as_str(),
                ": ",
                message.as_str(),
            ),
        }
    }
}

/// The step at which a flow is suspended.
#[derive(Debug)]
pub enum PendingStep {
    Activity(ActivityCommand),
    Child(ChildWorkflowCommand),
    Sleep { wake_at_millis: i64 },
}

/// The execution context handed to a flow on every activation.
#[derive(Debug)]
pub struct WfCtx<'a, C> {
    application: &'a C,
    workflow_id: Option<WorkflowId>,
    steps: Vec<JournalEntry>,
    cursor: usize,
    pending: Option<PendingStep>,
}

/// The mathematical content of a [`WfCtx`]: the journal, the number of replayed
/// steps, and the step at which the flow is suspended.
pub struct CtxModel {
    pub workflow_id: Option<WorkflowId>,
    pub steps: Seq<EntryModel>,
    pub cursor: int,
    pub pending: Option<PendingStep>,
}

impl<'a, C> View for WfCtx<'a, C> {
    type V = CtxModel;

    closed spec fn view(&self) -> CtxModel {
        CtxModel {
            workflow_id: self.workflow_id,
            steps: entries(self.steps@),
            cursor: self.cursor as int,
            pending: self.pending,
        }
    }
}

/// What `{:?}` renders of an optional version.
pub open spec fn debug_version(version: Option<i32>) -> Seq<char> {
    match version {
        Some(number) => "Some("@ + numerals::decimal(number as int) + ")"@,
        None => "None"@,
    }
}

fn version_text(version: Option<i32>) -> (text: String)
    ensures
        text@ == debug_version(version),
{
    match version {
        Some(number) => join3("Some(", decimal_i64(number as i64).as_str(), ")"),
        None => "None".to_owned(),
    }
}

/// Why the recorded entry does not answer the requested step.
pub open spec fn replay_mismatch(
    ctx: CtxModel,
    step_kind: Seq<char>,
    step_version: Option<i32>,
) -> Option<WfErrorModel> {
    let entry = ctx.steps[ctx.cursor];
    let position = numerals::decimal(ctx.cursor + 1);
    if entry.step_kind != step_kind {
        Some(
            WfErrorModel::Definition(
                "nondeterministic flow: step "@ + position + " requested "@ + step_kind
                    + " but the journal recorded "@ + entry.step_kind,
            ),
        )
    } else if entry.step_version != step_version {
        Some(
            WfErrorModel::Definition(
                "nondeterministic flow: step "@ + position + " requested "@ + step_kind
                    + " version "@ + debug_version(step_version)
                    + " but the journal recorded version "@ + debug_version(entry.step_version),
            ),
        )
    } else {
        None
    }
}

/// What the next position of the journal answers to a requested step: the
/// recorded outcome, nothing where the position is unresolved, or a refusal.
pub open spec fn replayed(
    ctx: CtxModel,
    step_kind: Seq<char>,
    step_version: Option<i32>,
) -> Result<Option<OutcomeModel>, WfErrorModel> {
    if ctx.pending is Some {
        Err(WfErrorModel::Suspended)
    } else if ctx.cursor >= ctx.steps.len() {
        Ok(None)
    } else {
        match replay_mismatch(ctx, step_kind, step_version) {
            Some(error) => Err(error),
            None => Ok(Some(ctx.steps[ctx.cursor].outcome)),
        }
    }
}

/// The context after a step was requested: one position further where an outcome was replayed.
pub open spec fn after_replay(
    ctx: CtxModel,
    step_kind: Seq<char>,
    step_version: Option<i32>,
) -> CtxModel {
    if replayed(ctx, step_kind, step_version) matches Ok(Some(_)) {
        CtxModel { cursor: ctx.cursor + 1, ..ctx }
    } else {
        ctx
    }
}

/// What an activity step gets: its recorded result, nothing where it has to
/// run, or a refusal.
pub open spec fn activity_answer(ctx: CtxModel, kind: Seq<char>, version: i32) -> Result<
    Option<Seq<char>>,
    WfErrorModel,
> {
    match replayed(ctx, "activity:"@ + kind, Some(version)) {
        Ok(Some(OutcomeModel::Succeeded { result_json })) => Ok(Some(result_json)),
        Ok(Some(OutcomeModel::Failed { category, message })) => Err(
            WfErrorModel::Definition(
                "recorded "@ + ("activity:"@ + kind) + " result is a failure ("@ + category + ": "@
                    + message + "); activities never journal failures"@,
            ),
        ),
        Ok(None) => Ok(None),
        Err(error) => Err(error),
    }
}

/// What a child step gets: its recorded result, nothing where the child has to
/// run, or a refusal; the child's failure is a typed error.
pub open spec fn child_answer(ctx: CtxModel, kind: Seq<char>, version: i32) -> Result<
    Option<Seq<char>>,
    WfErrorModel,
> {
    match replayed(ctx, "child:"@ + kind, Some(version)) {
        Ok(Some(OutcomeModel::Succeeded { result_json })) => Ok(Some(result_json)),
        Ok(Some(OutcomeModel::Failed { category, message })) => Err(
            WfErrorModel::ChildFailed { kind, category, message },
        ),
        Ok(None) => Ok(None),
        Err(error) => Err(error),
    }
}

/// What a timer gets: it has fired, or a refusal; an unresolved timer suspends.
pub open spec fn timer_answer(ctx: CtxModel) -> Result<(), WfErrorModel> {
    match replayed(ctx, "timer"@, None) {
        Ok(Some(OutcomeModel::Succeeded { .. })) => Ok(()),
        Ok(Some(OutcomeModel::Failed { category, message })) => Err(
            WfErrorModel::Definition(
                "recorded timer result is a failure ("@ + category + ": "@ + message + ")"@,
            ),
        ),
        Ok(None) => Err(WfErrorModel::Suspended),
        Err(error) => Err(error),
    }
}

/// The model of an optional text result.
pub open spec fn answer_model(answer: Result<Option<String>, WfError>) -> Result<
    Option<Seq<char>>,
    WfErrorModel,
> {
    match answer {
        Ok(value) => Ok(text::opt_text(value)),
        Err(error) => Err(error@),
    }
}

impl<'a, C> WfCtx<'a, C> {
    #[verifier::type_invariant]
    spec fn cursor_in_journal(self) -> bool {
        self.cursor <= self.steps@.len()
    }

    /// The application state.
    pub closed spec fn spec_application(&self) -> &'a C {
        self.application
    }

    /// A context at the start of a journal.
    pub fn new(application: &'a C, workflow_id: Option<WorkflowId>, journal: FlowJournal) -> (ctx:
        Self)
        ensures
            ctx.spec_application() == application,
            ctx@ == (CtxModel { workflow_id, steps: journal@, cursor: 0, pending: None }),
    {
        WfCtx { application, workflow_id, steps: journal.steps, cursor: 0, pending: None }
    }

    /// The application state.
    pub fn application(&self) -> (application: &'a C)
        ensures
            application == self.spec_application(),
    {
        self.application
    }

    /// The workflow, where one is known.
    pub fn workflow_id(&self) -> (workflow_id: Option<WorkflowId>)
        ensures
            workflow_id == self@.workflow_id,
    {
        self.workflow_id
    }

    /// Answers a requested step from the journal.
    ///
    /// Once a step is pending every later request suspends too, so that only the
    /// first unresolved step is taken.
    pub fn replay(&mut self, step_kind: &str, step_version: Option<i32>) -> (result: Result<
        Option<StepOutcome>,
        WfError,
    >)
        ensures
            final(self).spec_application() == old(self).spec_application(),
            final(self)@ == after_replay(old(self)@, step_kind@, step_version),
            match result {
                Ok(Some(outcome)) => replayed(old(self)@, step_kind@, step_version) == Ok::<
                    Option<OutcomeModel>,
                    WfErrorModel,
                >(Some(outcome@)),
                Ok(None) => replayed(old(self)@, step_kind@, step_version) == Ok::<
                    Option<OutcomeModel>,
                    WfErrorModel,
                >(None),
                Err(error) => replayed(old(self)@, step_kind@, step_version) == Err::<
                    Option<OutcomeModel>,
                    WfErrorModel,
                >(error@),
            },
    {
        if self.pending.is_some() {
            return Err(WfError::Suspended);
        }
        if self.cursor >= self.steps.len() {
            return Ok(None);
        }
        let entry = &self.steps[self.cursor];
        assert(entries(self.steps@)[self.cursor as int] == entry@);
        if !same_text(entry.step_kind.as_str(), step_kind) {
            let mut message = join5(
                "nondeterministic flow: step ",
                decimal_u128(self.cursor as u128 + 1).as_str(),
                " requested ",
                step_kind,
                " but the journal recorded ",
            );
            message.append(entry.step_kind.as_str());
            return Err(WfError::Definition(message));
        }
        let same_version = match (entry.step_version, step_version) {
            (Some(recorded), Some(requested)) => recorded == requested,
            (None, None) => true,
            _ => false,
        };
        if !same_version {
            let mut message = join5(
                "nondeterministic flow: step ",
                decimal_u128(self.cursor as u128 + 1).as_str(),
                " requested ",
                step_kind,
                " version ",
            );
            message.append(version_text(step_version).as_str());
            message.append(" but the journal recorded version ");
            message.append(version_text(entry.step_version).as_str());
            return Err(WfError::Definition(message));
        }
        let outcome = entry.outcome.clone();
        self.cursor = self.cursor + 1;
        Ok(Some(outcome))
    }

    /// The key that makes the side effects of the next step deduplicable:
    /// `wf:{workflow_id}:step:{position}`, where the workflow is known.
    pub fn auto_operation_key(&self) -> (key: Option<String>)
        ensures
            text::opt_text(key) == (match self@.workflow_id {
                Some(id) => Some(operation_key(id@, self@.cursor + 1)),
                None => None,
            }),
    {
        match self.workflow_id {
            Some(workflow_id) => {
                let mut key = join3("wf:", workflow_id.text().as_str(), ":step:");
                key.append(decimal_u128(self.cursor as u128 + 1).as_str());
                Some(key)
            },
            None => None,
        }
    }

    /// Requests an activity step: gives the recorded result, or nothing where
    /// the caller has to suspend at the activity.
    pub fn request_activity(&mut self, kind: &str, version: i32) -> (answer: Result<
        Option<String>,
        WfError,
    >)
        ensures
            answer_model(answer) == activity_answer(old(self)@, kind@, version),
            final(self)@ == after_replay(old(self)@, "activity:"@ + kind@, Some(version)),
            final(self).spec_application() == old(self).spec_application(),
    {
        let step_kind = join2("activity:", kind);
        match self.replay(step_kind.as_str(), Some(version)) {
            Ok(Some(StepOutcome::Succeeded { result_json })) => Ok(Some(result_json)),
            Ok(Some(StepOutcome::Failed { category, message })) => {
                let mut text = join5(
                    "recorded ",
                    step_kind.as_str(),
                    " result is a failure (",
                    category.as_str(),
                    ": ",
                );
                text.append(message.as_str());
                text.append("); activities never journal failures");
                Err(WfError::Definition(text))
            },
            Ok(None) => Ok(None),
            Err(error) => Err(error),
        }
    }

    /// Requests a child step: gives the recorded result, or nothing where the
    /// caller has to suspend at the child.
    pub fn request_child(&mut self, kind: &str, version: i32) -> (answer: Result<
        Option<String>,
        WfError,
    >)
        ensures
            answer_model(answer) == child_answer(old(self)@, kind@, version),
            final(self)@ == after_replay(old(self)@, "child:"@ + kind@, Some(version)),
            final(self).spec_application() == old(self).spec_application(),
    {
        let step_kind = join2("child:", kind);
        match self.replay(step_kind.as_str(), Some(version)) {
            Ok(Some(StepOutcome::Succeeded { result_json })) => Ok(Some(result_json)),
            Ok(Some(StepOutcome::Failed { category, message })) => Err(
                WfError::ChildFailed { kind: kind.to_owned(), category, message },
            ),
            Ok(None) => Ok(None),
            Err(error) => Err(error),
        }
    }

    /// Suspends the flow at a step.
    pub fn suspend(&mut self, step: PendingStep) -> (error: WfError)
        ensures
            error@ == WfErrorModel::Suspended,
            final(self)@ == (CtxModel { pending: Some(step), ..old(self)@ }),
            final(self).spec_application() == old(self).spec_application(),
    {
        proof {
            use_type_invariant(&*self);
        }
        self.pending = Some(step);
        WfError::Suspended
    }

    /// Sleeps durably until the given UTC millisecond timestamp.
    pub fn sleep_until(&mut self, wake_at_millis: i64) -> (result: Result<(), WfError>)
        ensures
            match result {
                Ok(()) => timer_answer(old(self)@) == Ok::<(), WfErrorModel>(()),
                Err(error) => timer_answer(old(self)@) == Err::<(), WfErrorModel>(error@),
            },
            final(self)@ == (if replayed(old(self)@, "timer"@, None) == Ok::<
                Option<OutcomeModel>,
                WfErrorModel,
            >(None) {
                CtxModel { pending: Some(PendingStep::Sleep { wake_at_millis }), ..old(self)@ }
            } else {
                after_replay(old(self)@, "timer"@, None)
            }),
            final(self).spec_application() == old(self).spec_application(),
    {
        match self.replay("timer", None) {
            Ok(Some(StepOutcome::Succeeded { result_json: _ })) => Ok(()),
            Ok(Some(StepOutcome::Failed { category, message })) => {
                let text = join5(
                    "recorded timer result is a failure (",
                    category.as_str(),
                    ": ",
                    message.as_str(),
                    ")",
                );
                Err(WfError::Definition(text))
            },
            Ok(None) => {
                proof {
                    use_type_invariant(&*self);
                }
                self.pending = Some(PendingStep::Sleep { wake_at_millis });
                Err(WfError::Suspended)
            },
            Err(error) => Err(error),
        }
    }
}

/// The refusal of a recorded result that no longer decodes.
pub fn undecodable_result(step_kind: &str, decode_error: &str) -> (error: WfError)
    ensures
        error@ == WfErrorModel::Definition(
            "recorded "@ + step_kind@ + " result no longer decodes: "@ + decode_error@,
        ),
{
    let mut text = join3("recorded ", step_kind, " result no longer decodes: ");
    text.append(decode_error);
    WfError::Definition(text)
}

/// The engine transition that one run of a flow amounts to.
#[derive(Debug)]
pub enum FlowTransition<O> {
    RunActivity { state: FlowJournal, activity: ActivityCommand },
    RunChild { state: FlowJournal, child: ChildWorkflowCommand },
    SleepUntil { state: FlowJournal, wake_at_millis: i64 },
    Complete { output: O },
}

/// A workflow failure as its category and message, each cut to its limit.
pub open spec fn failure(category: Seq<char>, message: Seq<char>) -> (Seq<char>, Seq<char>) {
    (
        text::utf8_prefix(category, error::MAX_ERROR_CATEGORY_BYTES as nat),
        text::utf8_prefix(message, crate::MAX_ERROR_REASON_BYTES as nat),
    )
}

/// The category and message of a workflow failure.
pub open spec fn failure_view(error: WorkflowError) -> (Seq<char>, Seq<char>) {
    (error.category@, error.message@)
}

/// The failure that a flow error ends a workflow with.
pub open spec fn flow_failure(error: WfErrorModel) -> (Seq<char>, Seq<char>) {
    match error {
        WfErrorModel::Suspended => failure("flow"@, "flow suspended without a pending step"@),
        WfErrorModel::ChildFailed { kind, category, message } => failure(
            "child_failed"@,
            "child workflow "@ + kind + " failed: "@ + category + ": "@ + message,
        ),
        WfErrorModel::Definition(message) => failure("flow_definition"@, message),
        WfErrorModel::Domain { category, message } => failure(category, message),
    }
}

/// Whether an outcome is what the result of one run comes to.
pub open spec fn concludes<O>(
    ctx: CtxModel,
    result: Result<O, WfError>,
    outcome: Result<FlowTransition<O>, WorkflowError>,
) -> bool {
    match result {
        Ok(output) => if ctx.cursor == ctx.steps.len() {
            outcome == Ok::<FlowTransition<O>, WorkflowError>(FlowTransition::Complete { output })
        } else {
            outcome matches Err(e) && failure_view(e) == failure(
                "flow_definition"@,
                "flow completed without replaying "@ + numerals::decimal(
                    ctx.steps.len() - ctx.cursor,
                ) + " recorded journal step(s)"@,
            )
        },
        Err(WfError::Suspended) => match ctx.pending {
            Some(PendingStep::Activity(command)) => outcome matches Ok(
                FlowTransition::RunActivity { state, activity },
            ) && state@ == ctx.steps && activity == command,
            Some(PendingStep::Child(command)) => outcome matches Ok(
                FlowTransition::RunChild { state, child },
            ) && state@ == ctx.steps && child == command,
            Some(PendingStep::Sleep { wake_at_millis: wake }) => outcome matches Ok(
                FlowTransition::SleepUntil { state, wake_at_millis },
            ) && state@ == ctx.steps && wake_at_millis == wake,
            None => outcome matches Err(e) && failure_view(e) == flow_failure(
                WfErrorModel::Suspended,
            ),
        },
        Err(error) => outcome matches Err(e) && failure_view(e) == flow_failure(error@),
    }
}

/// Turns the result of one run into the engine transition or the workflow's failure.
///
/// A suspended run keeps the whole journal; a completed run must have replayed it all.
pub fn conclude<'a, C, O>(ctx: WfCtx<'a, C>, result: Result<O, WfError>) -> (outcome: Result<
    FlowTransition<O>,
    WorkflowError,
>)
    ensures
        concludes(ctx@, result, outcome),
{
    proof {
        use_type_invariant(&ctx);
    }
    match result {
        Ok(output) => {
            if ctx.cursor != ctx.steps.len() {
                let skipped: u64 = (ctx.steps.len() - ctx.cursor) as u64;
                let message = join3(
                    "flow completed without replaying ",
                    decimal_u64(skipped).as_str(),
                    " recorded journal step(s)",
                );
                return Err(WorkflowError::new("flow_definition", message.as_str()));
            }
            Ok(FlowTransition::Complete { output })
        },
        Err(WfError::Suspended) => {
            let WfCtx { application: _, workflow_id: _, steps, cursor: _, pending } = ctx;
            let state = FlowJournal { steps };
            match pending {
                Some(PendingStep::Activity(activity)) => Ok(
                    FlowTransition::RunActivity { state, activity },
                ),
                Some(PendingStep::Child(child)) => Ok(FlowTransition::RunChild { state, child }),
                Some(PendingStep::Sleep { wake_at_millis }) => Ok(
                    FlowTransition::SleepUntil { state, wake_at_millis },
                ),
                None => Err(WorkflowError::new("flow", "flow suspended without a pending step")),
            }
        },
        Err(WfError::ChildFailed { kind, category, message }) => {
            let mut text = join5(
                "child workflow ",
                kind.as_str(),
                " failed: ",
                category.as_str(),
                ": ",
            );
            text.append(message.as_str());
            Err(WorkflowError::new("child_failed", text.as_str()))
        },
        Err(WfError::Definition(message)) => Err(
            WorkflowError::new("flow_definition", message.as_str()),
        ),
        Err(WfError::Domain { category, message }) => Err(
            WorkflowError::new(category.as_str(), message.as_str()),
        ),
    }
}

/// The journal entry that an event records, with the command it answers.
pub open spec fn event_entry(event: WorkflowEventModel) -> Option<(int, EntryModel)> {
    match event {
        WorkflowEventModel::ActivitySucceeded { command_sequence, result } => Some(
            (
                command_sequence as int,
                EntryModel {
                    step_kind: "activity:"@ + result.kind,
                    step_version: Some(result.version),
                    outcome: OutcomeModel::Succeeded { result_json: result.output_json },
                },
            ),
        ),
        WorkflowEventModel::ChildSucceeded { command_sequence, result } => Some(
            (
                command_sequence as int,
                EntryModel {
                    step_kind: "child:"@ + result.kind,
                    step_version: Some(result.version),
                    outcome: OutcomeModel::Succeeded { result_json: result.output_json },
                },
            ),
        ),
        WorkflowEventModel::ChildFailed { command_sequence, kind, version, category, message } =>
            Some(
            (
                command_sequence as int,
                EntryModel {
                    step_kind: "child:"@ + kind,
                    step_version: Some(version),
                    outcome: OutcomeModel::Failed { category, message },
                },
            ),
        ),
        WorkflowEventModel::TimerFired { command_sequence } => Some(
            (
                command_sequence as int,
                EntryModel {
                    step_kind: "timer"@,
                    step_version: None,
                    outcome: OutcomeModel::Succeeded { result_json: "null"@ },
                },
            ),
        ),
        _ => None,
    }
}

/// The journal after an event was delivered, or the failure.
pub open spec fn applied_event(journal: Seq<EntryModel>, event: WorkflowEventModel) -> Result<
    Seq<EntryModel>,
    (Seq<char>, Seq<char>),
> {
    let expected = journal.len() + 1;
    if expected > u32::MAX {
        Err(failure("flow"@, "flow journal length overflow"@))
    } else {
        match event {
            WorkflowEventModel::Started | WorkflowEventModel::Continued => Ok(journal),
            WorkflowEventModel::ApprovalResolved { .. } | WorkflowEventModel::ApprovalExpired {
                ..
            } => Err(failure("flow"@, "flows do not support approval waits"@)),
            _ => {
                let (sequence, entry) = event_entry(event)->0;
                if sequence == expected {
                    Ok(journal.push(entry))
                } else {
                    Err(
                        failure(
                            "flow"@,
                            "flow received step result "@ + numerals::decimal(sequence)
                                + " but the journal expects "@ + numerals::decimal(expected as int),
                        ),
                    )
                }
            },
        }
    }
}

/// Refuses a step result that does not answer the expected command.
pub fn ensure_sequence(actual: u32, expected: u32) -> (result: Result<(), WorkflowError>)
    ensures
        match result {
            Ok(()) => actual == expected,
            Err(e) => actual != expected && failure_view(e) == failure(
                "flow"@,
                "flow received step result "@ + numerals::decimal(actual as int)
                    + " but the journal expects "@ + numerals::decimal(expected as int),
            ),
        },
{
    if actual == expected {
        return Ok(());
    }
    let mut message = join3(
        "flow received step result ",
        decimal_u64(actual as u64).as_str(),
        " but the journal expects ",
    );
    message.append(decimal_u64(expected as u64).as_str());
    Err(WorkflowError::new("flow", message.as_str()))
}

/// Records a delivered event in the journal; a refused event changes nothing.
pub fn apply_event(journal: &mut FlowJournal, event: WorkflowEvent) -> (result: Result<
    (),
    WorkflowError,
>)
    ensures
        match result {
            Ok(()) => applied_event(old(journal)@, event@) == Ok::<
                Seq<EntryModel>,
                (Seq<char>, Seq<char>),
            >(final(journal)@),
            Err(e) => applied_event(old(journal)@, event@) == Err::<
                Seq<EntryModel>,
                (Seq<char>, Seq<char>),
            >(failure_view(e)) && final(journal)@ == old(journal)@,
        },
{
    let count: usize = journal.steps.len();
    if count as u128 + 1 > 0xffff_ffff {
        return Err(WorkflowError::new("flow", "flow journal length overflow"));
    }
    let expected: u32 = (count + 1) as u32;
    let ghost before = journal@;
    let (sequence, entry): (u32, JournalEntry) = match event {
        WorkflowEvent::Started | WorkflowEvent::Continued => return Ok(()),
        WorkflowEvent::ActivitySucceeded { command_sequence, result } => (
            command_sequence,
            JournalEntry {
                step_kind: join2("activity:", result.kind.as_str()),
                step_version: Some(result.version),
                outcome: StepOutcome::Succeeded { result_json: result.output_json },
            },
        ),
        WorkflowEvent::ChildSucceeded { command_sequence, result } => (
            command_sequence,
            JournalEntry {
                step_kind: join2("child:", result.kind.as_str()),
                step_version: Some(result.version),
                outcome: StepOutcome::Succeeded { result_json: result.output_json },
            },
        ),
        WorkflowEvent::ChildFailed { command_sequence, kind, version, category, message } => (
            command_sequence,
            JournalEntry {
                step_kind: join2("child:", kind.as_str()),
                step_version: Some(version),
                outcome: StepOutcome::Failed { category, message },
            },
        ),
        WorkflowEvent::TimerFired { command_sequence } => (
            command_sequence,
            JournalEntry {
                step_kind: "timer".to_owned(),
                step_version: None,
                outcome: StepOutcome::Succeeded { result_json: "null".to_owned() },
            },
        ),
        WorkflowEvent::ApprovalResolved { command_sequence: _, result: _ } => return Err(WorkflowError::new("flow", "flows do not support approval waits")),
        WorkflowEvent::ApprovalExpired { command_sequence: _ } => return Err(
            WorkflowError::new("flow", "flows do not support approval waits"),
        ),
    };
    match ensure_sequence(sequence, expected) {
        Ok(()) => {},
        Err(error) => return Err(error),
    }
    journal.steps.push(entry);
    assert(journal@ =~= before.push(entry@));
    Ok(())
}

/// A context in which every one of the first steps of the journal was replayed.
pub open spec fn replayed_through(
    workflow_id: Option<WorkflowId>,
    journal: Seq<EntryModel>,
    cursor: int,
) -> CtxModel {
    CtxModel { workflow_id, steps: journal, cursor, pending: None }
}

/// Delivering the result of a step makes exactly the position at which the flow
/// was suspended resolved, with that result, and leaves every earlier position
/// as it was. So a step whose result was delivered never runs again.
pub proof fn law_delivered_result_is_replayed(
    workflow_id: Option<WorkflowId>,
    journal: Seq<EntryModel>,
    event: WorkflowEventModel,
)
    requires
        event_entry(event) is Some,
        (event_entry(event)->0).0 == journal.len() + 1,
        journal.len() < u32::MAX,
    ensures
        applied_event(journal, event) is Ok,
        applied_event(journal, event)->Ok_0.len() == journal.len() + 1,
        applied_event(journal, event)->Ok_0.take(journal.len() as int) == journal,
        ({
            let entry = (event_entry(event)->0).1;
            let next = applied_event(journal, event)->Ok_0;
            replayed(
                replayed_through(workflow_id, next, journal.len() as int),
                entry.step_kind,
                entry.step_version,
            ) == Ok::<Option<OutcomeModel>, WfErrorModel>(Some(entry.outcome))
        }),
{
    let next = applied_event(journal, event)->Ok_0;
    assert(next.take(journal.len() as int) =~= journal);
}

/// While a step is pending every request suspends and changes nothing: a flow
/// suspends at its first unresolved step only.
pub proof fn law_first_unresolved_step_wins(
    ctx: CtxModel,
    step_kind: Seq<char>,
    step_version: Option<i32>,
)
    requires
        ctx.pending is Some,
    ensures
        replayed(ctx, step_kind, step_version) == Err::<Option<OutcomeModel>, WfErrorModel>(
            WfErrorModel::Suspended,
        ),
        after_replay(ctx, step_kind, step_version) == ctx,
{
}

/// A recorded position never suspends: it is answered from the journal or
/// refused, so a flow only ever suspends at the end of its journal.
pub proof fn law_recorded_steps_never_suspend(
    ctx: CtxModel,
    step_kind: Seq<char>,
    step_version: Option<i32>,
)
    requires
        ctx.pending is None,
        0 <= ctx.cursor < ctx.steps.len(),
    ensures
        match replayed(ctx, step_kind, step_version) {
            Ok(answer) => answer == Some(ctx.steps[ctx.cursor].outcome),
            Err(error) => error is Definition,
        },
{
}

/// Replaying the same journal twice gives the same answers: what a request gets
/// depends on the journal and the position alone.
pub proof fn law_replay_is_deterministic(
    first: CtxModel,
    second: CtxModel,
    step_kind: Seq<char>,
    step_version: Option<i32>,
)
    requires
        first.steps == second.steps,
        first.cursor == second.cursor,
        first.pending is None,
        second.pending is None,
    ensures
        replayed(first, step_kind, step_version) == replayed(second, step_kind, step_version),
        after_replay(first, step_kind, step_version).cursor == after_replay(
            second,
            step_kind,
            step_version,
        ).cursor,
{
}

/// The key that makes the side effects of a step of a workflow deduplicable.
pub open spec fn operation_key(workflow_id: int, step: int) -> Seq<char> {
    "wf:"@ + numerals::decimal(workflow_id) + ":step:"@ + numerals::decimal(step)
}

/// Different steps, and the steps of different workflows, have different keys.
pub proof fn law_operation_keys_are_distinct(
    workflow: int,
    step: int,
    other_workflow: int,
    other_step: int,
)
    requires
        operation_key(workflow, step) == operation_key(other_workflow, other_step),
    ensures
        workflow == other_workflow,
        step == other_step,
{
    reveal_strlit(":step:");
    numerals::lemma_two_numbers("wf:"@, ":step:"@, workflow, step, other_workflow, other_step);
}

/// A request is answered with a recorded outcome only where the entry at the
/// cursor has exactly the requested kind and exactly the requested version, and
/// the answer is then that entry's outcome and the cursor moves past it. Any other
/// request at a recorded position is a definition error and moves nothing.
pub proof fn law_only_the_recorded_step_is_answered(
    ctx: CtxModel,
    step_kind: Seq<char>,
    step_version: Option<i32>,
)
    requires
        ctx.pending is None,
        0 <= ctx.cursor < ctx.steps.len(),
    ensures
        ({
            let entry = ctx.steps[ctx.cursor];
            let answer = replayed(ctx, step_kind, step_version);
            let after = after_replay(ctx, step_kind, step_version);
            &&& (answer matches Ok(Some(_))) <==> (entry.step_kind == step_kind
                && entry.step_version == step_version)
            &&& answer matches Ok(outcome) ==> outcome == Some(entry.outcome) && after.cursor
                == ctx.cursor + 1
            &&& answer matches Err(error) ==> error is Definition && after.cursor == ctx.cursor
            &&& after.steps == ctx.steps
            &&& after.pending == ctx.pending
            &&& after.workflow_id == ctx.workflow_id
        }),
{
}

/// Behind the last recorded step every request is unresolved, and asking again
/// asks the same: the cursor stays until a result was recorded.
pub proof fn law_unrecorded_step_is_unresolved(
    ctx: CtxModel,
    step_kind: Seq<char>,
    step_version: Option<i32>,
)
    requires
        ctx.pending is None,
        ctx.cursor >= ctx.steps.len(),
    ensures
        replayed(ctx, step_kind, step_version) == Ok::<Option<OutcomeModel>, WfErrorModel>(None),
        after_replay(ctx, step_kind, step_version) == ctx,
{
}

/// The refusal of a step says which step was asked for and which was recorded, so
/// that two refusals at one position with different texts stand for different steps.
pub proof fn law_refusal_names_both_steps(
    ctx: CtxModel,
    step_kind: Seq<char>,
    step_version: Option<i32>,
)
    requires
        ctx.pending is None,
        0 <= ctx.cursor < ctx.steps.len(),
        replayed(ctx, step_kind, step_version) is Err,
    ensures
        ({
            let entry = ctx.steps[ctx.cursor];
            let prefix = "nondeterministic flow: step "@ + numerals::decimal(ctx.cursor + 1)
                + " requested "@ + step_kind;
            let text = replayed(ctx, step_kind, step_version)->Err_0->Definition_0;
            if entry.step_kind != step_kind {
                text == prefix + " but the journal recorded "@ + entry.step_kind
            } else {
                text == prefix + " version "@ + debug_version(step_version)
                    + " but the journal recorded version "@ + debug_version(entry.step_version)
            }
        }),
{
}

/// The kind of a step tells activities, children and timers apart, and under one
/// prefix it is the command's own kind: results are never mixed up.
pub proof fn law_step_kinds_are_distinct(kind: Seq<char>, other: Seq<char>)
    ensures
        "activity:"@ + kind == "activity:"@ + other ==> kind == other,
        "child:"@ + kind == "child:"@ + other ==> kind == other,
        "activity:"@ + kind != "child:"@ + other,
        "activity:"@ + kind != "timer"@,
        "child:"@ + kind != "timer"@,
{
    reveal_strlit("activity:");
    reveal_strlit("child:");
    reveal_strlit("timer");
    let a = "activity:"@;
    let c = "child:"@;
    assert((a + kind)[0] == 'a');
    assert((c + other)[0] == 'c');
    assert((c + kind)[0] == 'c');
    assert("timer"@[0] == 't');
    if a + kind == a + other {
        assert((a + kind).skip(a.len() as int) =~= kind);
        assert((a + other).skip(a.len() as int) =~= other);
    }
    if c + kind == c + other {
        assert((c + kind).skip(c.len() as int) =~= kind);
        assert((c + other).skip(c.len() as int) =~= other);
    }
}

/// The context of a flow that has replayed a journal up to the step that an event
/// answers, where the event was taken.
pub open spec fn at_delivered_step(
    ctx: CtxModel,
    journal: Seq<EntryModel>,
    event: WorkflowEventModel,
) -> bool {
    &&& applied_event(journal, event) == Ok::<Seq<EntryModel>, (Seq<char>, Seq<char>)>(ctx.steps)
    &&& ctx.cursor == journal.len()
    &&& ctx.pending is None
}

/// An activity that is asked for again after its success was delivered gets the
/// very output that was delivered; an activity of another kind or version, a
/// child and a timer get nothing from it.
pub proof fn law_activity_gets_its_output(
    ctx: CtxModel,
    journal: Seq<EntryModel>,
    command_sequence: u32,
    result: StepResultModel,
    kind: Seq<char>,
    version: i32,
)
    requires
        at_delivered_step(
            ctx,
            journal,
            WorkflowEventModel::ActivitySucceeded { command_sequence, result },
        ),
    ensures
        match activity_answer(ctx, kind, version) {
            Ok(answer) => kind == result.kind && version == result.version && answer == Some(
                result.output_json,
            ),
            Err(error) => !(kind == result.kind && version == result.version) && error is Definition,
        },
        child_answer(ctx, kind, version) matches Err(error) && error is Definition,
        timer_answer(ctx) matches Err(error) && error is Definition,
{
    law_step_kinds_are_distinct(kind, result.kind);
    law_step_kinds_are_distinct(result.kind, kind);
}

/// A child that is asked for again after its success was delivered gives the very
/// output that was delivered, and to no other request.
pub proof fn law_child_gives_its_output(
    ctx: CtxModel,
    journal: Seq<EntryModel>,
    command_sequence: u32,
    result: StepResultModel,
    kind: Seq<char>,
    version: i32,
)
    requires
        at_delivered_step(
            ctx,
            journal,
            WorkflowEventModel::ChildSucceeded { command_sequence, result },
        ),
    ensures
        match child_answer(ctx, kind, version) {
            Ok(answer) => kind == result.kind && version == result.version && answer == Some(
                result.output_json,
            ),
            Err(error) => !(kind == result.kind && version == result.version) && error is Definition,
        },
        activity_answer(ctx, kind, version) matches Err(error) && error is Definition,
        timer_answer(ctx) matches Err(error) && error is Definition,
{
    law_step_kinds_are_distinct(kind, result.kind);
    law_step_kinds_are_distinct(result.kind, kind);
}

/// A child that is asked for again after its failure was delivered fails the step
/// with the kind of the child and the very category and message that were delivered.
pub proof fn law_child_gives_its_failure(
    ctx: CtxModel,
    journal: Seq<EntryModel>,
    command_sequence: u32,
    failed_kind: Seq<char>,
    failed_version: i32,
    category: Seq<char>,
    message: Seq<char>,
    kind: Seq<char>,
    version: i32,
)
    requires
        at_delivered_step(
            ctx,
            journal,
            WorkflowEventModel::ChildFailed {
                command_sequence,
                kind: failed_kind,
                version: failed_version,
                category,
                message,
            },
        ),
    ensures
        ({
            let answer = child_answer(ctx, kind, version);
            if kind == failed_kind && version == failed_version {
                answer == Err::<Option<Seq<char>>, WfErrorModel>(
                    WfErrorModel::ChildFailed { kind, category, message },
                )
            } else {
                answer matches Err(error) && error is Definition
            }
        }),
        activity_answer(ctx, kind, version) matches Err(error) && error is Definition,
        timer_answer(ctx) matches Err(error) && error is Definition,
{
    law_step_kinds_are_distinct(kind, failed_kind);
    law_step_kinds_are_distinct(failed_kind, kind);
}

/// A timer that is asked for again after it fired has fired; no activity and no
/// child is answered by it.
pub proof fn law_fired_timer_has_fired(
    ctx: CtxModel,
    journal: Seq<EntryModel>,
    command_sequence: u32,
    kind: Seq<char>,
    version: i32,
)
    requires
        at_delivered_step(ctx, journal, WorkflowEventModel::TimerFired { command_sequence }),
    ensures
        timer_answer(ctx) == Ok::<(), WfErrorModel>(()),
        activity_answer(ctx, kind, version) matches Err(error) && error is Definition,
        child_answer(ctx, kind, version) matches Err(error) && error is Definition,
{
    law_step_kinds_are_distinct(kind, kind);
}

/// The result of a step is taken exactly where it answers the command behind the
/// last recorded one: a result that is delivered twice, too early or too late is
/// refused, and a flow takes no approval.
pub proof fn law_results_are_taken_in_order(journal: Seq<EntryModel>, event: WorkflowEventModel)
    requires
        journal.len() < u32::MAX,
    ensures
        match event {
            WorkflowEventModel::Started | WorkflowEventModel::Continued => applied_event(
                journal,
                event,
            ) == Ok::<Seq<EntryModel>, (Seq<char>, Seq<char>)>(journal),
            WorkflowEventModel::ActivitySucceeded { command_sequence, .. }
            | WorkflowEventModel::ChildSucceeded { command_sequence, .. }
            | WorkflowEventModel::ChildFailed { command_sequence, .. }
            | WorkflowEventModel::TimerFired { command_sequence } => {
                let taken = applied_event(journal, event);
                &&& taken is Ok <==> command_sequence == journal.len() + 1
                &&& taken matches Ok(next) ==> next.len() == journal.len() + 1 && next.take(
                    journal.len() as int,
                ) == journal && applied_event(next, event) is Err
            },
            WorkflowEventModel::ApprovalResolved { .. } | WorkflowEventModel::ApprovalExpired {
                ..
            } => applied_event(journal, event) is Err,
        },
{
    if applied_event(journal, event) is Ok {
        let next = applied_event(journal, event)->Ok_0;
        assert(next.take(journal.len() as int) =~= journal);
    }
}

/// The failure of a flow says what went wrong: a domain error that fits the
/// limits ends the workflow with its own category and message.
pub proof fn law_domain_error_ends_the_workflow(category: Seq<char>, message: Seq<char>)
    requires
        text::utf8_len(category) <= error::MAX_ERROR_CATEGORY_BYTES,
        text::utf8_len(message) <= crate::MAX_ERROR_REASON_BYTES,
    ensures
        flow_failure(WfErrorModel::Domain { category, message }) == (category, message),
        flow_failure(WfErrorModel::Definition(message)).1 == message,
{
    text::lemma_utf8_prefix(category, error::MAX_ERROR_CATEGORY_BYTES as nat);
    text::lemma_utf8_prefix(message, crate::MAX_ERROR_REASON_BYTES as nat);
}

/// The success of an activity reaches its flow: once its event is taken, the flow that
/// asks for the activity again gets the very output that the activity ended with.
pub proof fn law_finished_activity_answers_its_flow(
    ctx: CtxModel,
    journal: Seq<EntryModel>,
    plan: FinishPlan,
    row: ActivityRowModel,
    stored: ActivityRowModel,
    attempt: i32,
    workflow: WorkflowRowModel,
    output: Seq<char>,
    stored_policy: Result<RetryPolicy, ErrorModel>,
    now: i64,
)
    requires
        activity_worker::finish_error(
            row,
            attempt,
            workflow,
            ExecutionOutcomeModel::Succeeded(output),
            stored_policy,
        ) is None,
        activity_worker::finish_is(
            plan,
            row,
            stored,
            attempt,
            workflow,
            ExecutionOutcomeModel::Succeeded(output),
            stored_policy,
            now,
        ),
        row.command_sequence == journal.len() + 1,
        ctx.pending is None,
        ctx.cursor == journal.len(),
        ctx.steps == applied_event(journal, plan.event@.event->0)->Ok_0,
    ensures
        applied_event(journal, plan.event@.event->0) is Ok,
        activity_answer(ctx, row.kind, row.version) == Ok::<Option<Seq<char>>, WfErrorModel>(
            Some(output),
        ),
{
    activity_worker::law_success_delivers_its_output(
        plan,
        row,
        stored,
        attempt,
        workflow,
        output,
        stored_policy,
        now,
    );
    let event = plan.event@.event->0;
    law_activity_gets_its_output(
        ctx,
        journal,
        event->ActivitySucceeded_command_sequence,
        event->ActivitySucceeded_result,
        row.kind,
        row.version,
    );
}

/// The end of a child reaches its parent's flow: once its event is taken, the flow that
/// asks for the child again gets the very output of its success, or fails with the very
/// category and message of its failure.
pub proof fn law_ended_child_answers_its_flow(
    ctx: CtxModel,
    journal: Seq<EntryModel>,
    wake: ParentWake,
    parent: WorkflowRowModel,
    child_kind: Seq<char>,
    child_version: i32,
    outcome: ChildOutcomeModel,
    now: i64,
)
    requires
        workflows::wake_error(parent) is None,
        workflows::wake_is(wake, parent, child_kind, child_version, outcome, now),
        parent.command_sequence == journal.len() + 1,
        ctx.pending is None,
        ctx.cursor == journal.len(),
        ctx.steps == applied_event(journal, wake.event@.event->0)->Ok_0,
    ensures
        applied_event(journal, wake.event@.event->0) is Ok,
        child_answer(ctx, child_kind, child_version) == (match outcome {
            ChildOutcomeModel::Succeeded { output_json } => Ok::<
                Option<Seq<char>>,
                WfErrorModel,
            >(Some(output_json)),
            ChildOutcomeModel::Failed { category, message } => Err(
                WfErrorModel::ChildFailed { kind: child_kind, category, message },
            ),
        }),
{
    workflows::law_parent_is_told_how_its_child_ended(
        wake,
        parent,
        child_kind,
        child_version,
        outcome,
        now,
    );
}

/// A timer reaches its flow: once its event is taken, the flow that sleeps again at the
/// same step goes on.
pub proof fn law_woken_flow_goes_on(
    ctx: CtxModel,
    journal: Seq<EntryModel>,
    wake: Wake,
    workflow: WorkflowRowModel,
    now: i64,
)
    requires
        temporal::timer_due(workflow, now),
        temporal::timer_error(workflow) is None,
        temporal::fired_is(wake, workflow, now),
        workflow.command_sequence == journal.len() + 1,
        ctx.pending is None,
        ctx.cursor == journal.len(),
        ctx.steps == applied_event(journal, wake.event@.event->0)->Ok_0,
    ensures
        applied_event(journal, wake.event@.event->0) is Ok,
        timer_answer(ctx) == Ok::<(), WfErrorModel>(()),
{
    temporal::law_fired_timer_answers_its_command(wake, workflow, now);
}

/// A run that returns its output completes the workflow with that very output exactly where
/// every step of its journal was replayed; otherwise it fails.
pub proof fn law_replayed_run_completes_with_its_output<O>(
    ctx: CtxModel,
    result: Result<O, WfError>,
    outcome: Result<FlowTransition<O>, WorkflowError>,
    output: O,
)
    requires
        concludes(ctx, result, outcome),
        result == Ok::<O, WfError>(output),
    ensures
        ctx.cursor == ctx.steps.len() ==> outcome == Ok::<FlowTransition<O>, WorkflowError>(
            FlowTransition::Complete { output },
        ),
        ctx.cursor != ctx.steps.len() ==> outcome is Err,
{
}

/// A run that waits for a step asks for that very step, and keeps the whole journal.
pub proof fn law_suspended_run_asks_for_its_step<O>(
    ctx: CtxModel,
    result: Result<O, WfError>,
    outcome: Result<FlowTransition<O>, WorkflowError>,
)
    requires
        concludes(ctx, result, outcome),
        result matches Err(WfError::Suspended),
    ensures
        match outcome {
            Ok(FlowTransition::RunActivity { state, activity }) => state@ == ctx.steps
                && ctx.pending == Some(PendingStep::Activity(activity)),
            Ok(FlowTransition::RunChild { state, child }) => state@ == ctx.steps && ctx.pending
                == Some(PendingStep::Child(child)),
            Ok(FlowTransition::SleepUntil { state, wake_at_millis }) => state@ == ctx.steps
                && ctx.pending == Some(PendingStep::Sleep { wake_at_millis }),
            Ok(FlowTransition::Complete { .. }) => false,
            Err(_) => ctx.pending is None,
        },
{
}

/// A run that fails fails the workflow: with its own category and message, as a failed
/// child, or for its definition.
pub proof fn law_failed_run_fails_the_workflow<O>(
    ctx: CtxModel,
    result: Result<O, WfError>,
    outcome: Result<FlowTransition<O>, WorkflowError>,
    error: WfError,
)
    requires
        concludes(ctx, result, outcome),
        result == Err::<O, WfError>(error),
        !(error is Suspended),
    ensures
        outcome matches Err(failed) && match error {
            WfError::Domain { category, message } => failure_view(failed) == failure(
                category@,
                message@,
            ),
            WfError::Definition(message) => failure_view(failed) == failure(
                "flow_definition"@,
                message@,
            ),
            WfError::ChildFailed { kind, category, message } => failure_view(failed) == failure(
                "child_failed"@,
                "child workflow "@ + kind@ + " failed: "@ + category@ + ": "@ + message@,
            ),
            WfError::Suspended => false,
        },
{
}

/// The text of a flow's error names what failed and why: a child by its kind, its category
/// and its message, a domain error by its category and its message, a definition by its
/// message.
pub proof fn law_error_text_tells_the_error(
    kind: Seq<char>,
    category: Seq<char>,
    message: Seq<char>,
)
    ensures
        wf_error_text(WfErrorModel::ChildFailed { kind, category, message }) == "child workflow "@
            + kind + " failed: "@ + category + ": "@ + message,
        wf_error_text(WfErrorModel::Definition(message)) == "flow definition error: "@ + message,
        wf_error_text(WfErrorModel::Domain { category, message }) == category + ": "@ + message,
{
}

} // verus!
