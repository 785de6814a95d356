//! Definition keys and the contexts handed to handlers.
use vstd::prelude::*;
use crate::duration::Duration;
use crate::ids::{ActivityId, WorkflowId};
use crate::policy::RetryPolicy;

verus! {

/// The definition of a workflow: its kind and version.
pub trait DurableWorkflow: Send + Sync + 'static {
    const KIND: &'static str;

    const VERSION: i32;
}

/// The definition of an activity: its kind and version, its queue, and how often
/// and how long it may be tried.
pub trait DurableActivity: Send + Sync + 'static {
    type Topic: ActivityTopic;

    const KIND: &'static str;

    const VERSION: i32;

    const MAX_ATTEMPTS: u32;

    const TIMEOUT: Duration;

    const LEASE_DURATION: Duration;

    /// The queue.
    fn topic() -> Self::Topic;

    /// How long to wait between attempts.
    fn retry_policy() -> RetryPolicy;
}

/// A logical activity queue. Its key matches `[a-z0-9][a-z0-9._-]*`.
pub trait ActivityTopic: Copy + Send + Sync + 'static {
    /// The name of the queue.
    fn key(self) -> &'static str;

    /// How many of its activities may run at once.
    fn max_concurrency(self) -> u32;
}

/// A definition's kind and version.
#[derive(Debug, PartialEq, Eq, PartialOrd, Ord, Hash)]
pub struct DefinitionKey {
    pub kind: String,
    pub version: i32,
}

impl Clone for DefinitionKey {
    fn clone(&self) -> (copy: Self)
        ensures
            copy == *self,
    {
        DefinitionKey { kind: self.kind.clone(), version: self.version }
    }
}

impl View for DefinitionKey {
    type V = (Seq<char>, int);

    open spec fn view(&self) -> (Seq<char>, int) {
        (self.kind@, self.version as int)
    }
}

impl DefinitionKey {
    /// The key of a kind and version.
    pub fn new(kind: &str, version: i32) -> (key: Self)
        ensures
            key@ == (kind@, version as int),
    {
        DefinitionKey { kind: kind.to_owned(), version }
    }
}

/// What a workflow handler sees of its surroundings.
#[derive(Debug, Clone, Copy)]
pub struct WorkflowContext<'a, C> {
    application: &'a C,
    workflow_id: Option<WorkflowId>,
}

impl<'a, C> WorkflowContext<'a, C> {
    /// The application state.
    pub closed spec fn spec_application(&self) -> &'a C {
        self.application
    }

    /// The workflow, where one is known.
    pub closed spec fn spec_workflow_id(&self) -> Option<WorkflowId> {
        self.workflow_id
    }

    /// A context without a workflow.
    pub fn new(application: &'a C) -> (context: Self)
        ensures
            context.spec_application() == application,
            context.spec_workflow_id() is None,
    {
        WorkflowContext { application, workflow_id: None }
    }

    /// The same context for a known workflow.
    pub fn with_workflow_id(self, workflow_id: WorkflowId) -> (context: Self)
        ensures
            context.spec_application() == self.spec_application(),
            context.spec_workflow_id() == Some(workflow_id),
    {
        WorkflowContext { application: self.application, workflow_id: Some(workflow_id) }
    }

    /// The application state.
    pub fn application(&self) -> (application: &'a C)
        ensures
            application == self.spec_application(),
    {
        self.application
    }

    /// The workflow, where one is known.
    pub fn workflow_id(&self) -> (workflow_id: Option<WorkflowId>)
        ensures
            workflow_id == self.spec_workflow_id(),
    {
        self.workflow_id
    }
}

/// What an activity handler sees of the claim that it runs under.
#[derive(Debug, Clone)]
pub struct ActivityContext<'a, C> {
    application: &'a C,
    activity_id: Option<ActivityId>,
    attempt_number: Option<u32>,
    lease_token: Option<&'a str>,
    operation_key: Option<&'a str>,
}

impl<'a, C> ActivityContext<'a, C> {
    /// The application state.
    pub closed spec fn spec_application(&self) -> &'a C {
        self.application
    }

    /// The activity, where one is known.
    pub closed spec fn spec_activity_id(&self) -> Option<ActivityId> {
        self.activity_id
    }

    /// The attempt, where one is known.
    pub closed spec fn spec_attempt_number(&self) -> Option<u32> {
        self.attempt_number
    }

    /// The lease token of the attempt, where one is known.
    pub closed spec fn spec_lease_token(&self) -> Option<&'a str> {
        self.lease_token
    }

    /// The operation key, where the activity has one.
    pub closed spec fn spec_operation_key(&self) -> Option<&'a str> {
        self.operation_key
    }

    /// A context outside any claim.
    pub fn new(application: &'a C) -> (context: Self)
        ensures
            context.spec_application() == application,
            context.spec_activity_id() is None,
            context.spec_attempt_number() is None,
            context.spec_lease_token() is None,
            context.spec_operation_key() is None,
    {
        ActivityContext {
            application,
            activity_id: None,
            attempt_number: None,
            lease_token: None,
            operation_key: None,
        }
    }

    /// The context of one claimed attempt.
    pub fn for_execution(
        application: &'a C,
        activity_id: ActivityId,
        attempt_number: u32,
        lease_token: &'a str,
        operation_key: Option<&'a str>,
    ) -> (context: Self)
        ensures
            context.spec_application() == application,
            context.spec_activity_id() == Some(activity_id),
            context.spec_attempt_number() == Some(attempt_number),
            context.spec_lease_token() == Some(lease_token),
            context.spec_operation_key() == operation_key,
    {
        ActivityContext {
            application,
            activity_id: Some(activity_id),
            attempt_number: Some(attempt_number),
            lease_token: Some(lease_token),
            operation_key,
        }
    }

    /// The application state.
    pub fn application(&self) -> (application: &'a C)
        ensures
            application == self.spec_application(),
    {
        self.application
    }

    /// The activity, where one is known.
    pub fn activity_id(&self) -> (activity_id: Option<ActivityId>)
        ensures
            activity_id == self.spec_activity_id(),
    {
        self.activity_id
    }

    /// The attempt, where one is known.
    pub fn attempt_number(&self) -> (attempt_number: Option<u32>)
        ensures
            attempt_number == self.spec_attempt_number(),
    {
        self.attempt_number
    }

    /// The lease token of the attempt, where one is known.
    pub fn lease_token(&self) -> (lease_token: Option<&'a str>)
        ensures
            lease_token == self.spec_lease_token(),
    {
        self.lease_token
    }

    /// The operation key, where the activity has one.
    pub fn operation_key(&self) -> (operation_key: Option<&'a str>)
        ensures
            operation_key == self.spec_operation_key(),
    {
        self.operation_key
    }
}

} // verus!
