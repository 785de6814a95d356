//! Positive identifiers of durable rows.
use vstd::prelude::*;
use crate::error::{DurableError, ErrorModel};
use crate::numerals;
use crate::numerals::decimal_i64;

verus! {

/// The positive identifier of a workflow.
#[derive(Debug, Clone, Copy, PartialEq, Eq, PartialOrd, Ord, Hash, Structural)]
pub struct WorkflowId(i64);

impl View for WorkflowId {
    type V = int;

    closed spec fn view(&self) -> int {
        self.0 as int
    }
}

impl WorkflowId {
    #[verifier::type_invariant]
    spec fn positive(self) -> bool {
        self.0 > 0
    }

    /// The identifier `value`; refuses values that are not positive.
    pub fn new(value: i64) -> (result: Result<Self, DurableError>)
        ensures
            match result {
                Ok(id) => value > 0 && id@ == value,
                Err(error) => value <= 0 && error@ == ErrorModel::InvalidId(value as int),
            },
    {
        if value <= 0 {
            return Err(DurableError::InvalidId(value));
        }
        Ok(WorkflowId(value))
    }

    /// The number of the identifier.
    pub fn get(self) -> (value: i64)
        ensures
            value == self@,
            value > 0,
    {
        proof {
            use_type_invariant(&self);
        }
        self.0
    }

    /// The decimal text of the identifier.
    pub fn text(self) -> (text: String)
        ensures
            text@ == numerals::decimal(self@),
    {
        decimal_i64(self.0)
    }
}

/// Identifiers with the same number are the same.
pub proof fn lemma_workflow_id_unique(a: WorkflowId, b: WorkflowId)
    requires
        a@ == b@,
    ensures
        a == b,
{
}

/// The positive identifier of an activity.
#[derive(Debug, Clone, Copy, PartialEq, Eq, PartialOrd, Ord, Hash, Structural)]
pub struct ActivityId(i64);

impl View for ActivityId {
    type V = int;

    closed spec fn view(&self) -> int {
        self.0 as int
    }
}

impl ActivityId {
    #[verifier::type_invariant]
    spec fn positive(self) -> bool {
        self.0 > 0
    }

    /// The identifier `value`; refuses values that are not positive.
    pub fn new(value: i64) -> (result: Result<Self, DurableError>)
        ensures
            match result {
                Ok(id) => value > 0 && id@ == value,
                Err(error) => value <= 0 && error@ == ErrorModel::InvalidId(value as int),
            },
    {
        if value <= 0 {
            return Err(DurableError::InvalidId(value));
        }
        Ok(ActivityId(value))
    }

    /// The number of the identifier.
    pub fn get(self) -> (value: i64)
        ensures
            value == self@,
            value > 0,
    {
        proof {
            use_type_invariant(&self);
        }
        self.0
    }

    /// The decimal text of the identifier.
    pub fn text(self) -> (text: String)
        ensures
            text@ == numerals::decimal(self@),
    {
        decimal_i64(self.0)
    }
}

/// Identifiers with the same number are the same.
pub proof fn lemma_activity_id_unique(a: ActivityId, b: ActivityId)
    requires
        a@ == b@,
    ensures
        a == b,
{
}

/// The positive identifier of an approval.
#[derive(Debug, Clone, Copy, PartialEq, Eq, PartialOrd, Ord, Hash, Structural)]
pub struct ApprovalId(i64);

impl View for ApprovalId {
    type V = int;

    closed spec fn view(&self) -> int {
        self.0 as int
    }
}

impl ApprovalId {
    #[verifier::type_invariant]
    spec fn positive(self) -> bool {
        self.0 > 0
    }

    /// The identifier `value`; refuses values that are not positive.
    pub fn new(value: i64) -> (result: Result<Self, DurableError>)
        ensures
            match result {
                Ok(id) => value > 0 && id@ == value,
                Err(error) => value <= 0 && error@ == ErrorModel::InvalidId(value as int),
            },
    {
        if value <= 0 {
            return Err(DurableError::InvalidId(value));
        }
        Ok(ApprovalId(value))
    }

    /// The number of the identifier.
    pub fn get(self) -> (value: i64)
        ensures
            value == self@,
            value > 0,
    {
        proof {
            use_type_invariant(&self);
        }
        self.0
    }

    /// The decimal text of the identifier.
    pub fn text(self) -> (text: String)
        ensures
            text@ == numerals::decimal(self@),
    {
        decimal_i64(self.0)
    }
}

/// Identifiers with the same number are the same.
pub proof fn lemma_approval_id_unique(a: ApprovalId, b: ApprovalId)
    requires
        a@ == b@,
    ensures
        a == b,
{
}

/// The positive identifier of a schedule run.
#[derive(Debug, Clone, Copy, PartialEq, Eq, PartialOrd, Ord, Hash, Structural)]
pub struct ScheduleRunId(i64);

impl View for ScheduleRunId {
    type V = int;

    closed spec fn view(&self) -> int {
        self.0 as int
    }
}

impl ScheduleRunId {
    #[verifier::type_invariant]
    spec fn positive(self) -> bool {
        self.0 > 0
    }

    /// The identifier `value`; refuses values that are not positive.
    pub fn new(value: i64) -> (result: Result<Self, DurableError>)
        ensures
            match result {
                Ok(id) => value > 0 && id@ == value,
                Err(error) => value <= 0 && error@ == ErrorModel::InvalidId(value as int),
            },
    {
        if value <= 0 {
            return Err(DurableError::InvalidId(value));
        }
        Ok(ScheduleRunId(value))
    }

    /// The number of the identifier.
    pub fn get(self) -> (value: i64)
        ensures
            value == self@,
            value > 0,
    {
        proof {
            use_type_invariant(&self);
        }
        self.0
    }

    /// The decimal text of the identifier.
    pub fn text(self) -> (text: String)
        ensures
            text@ == numerals::decimal(self@),
    {
        decimal_i64(self.0)
    }
}

/// Identifiers with the same number are the same.
pub proof fn lemma_schedule_run_id_unique(a: ScheduleRunId, b: ScheduleRunId)
    requires
        a@ == b@,
    ensures
        a == b,
{
}

} // verus!
