//! The statuses of workflows and activities and their stored names.
use vstd::prelude::*;
use crate::error::{DurableError, ErrorModel};
use crate::text::{join2, same_text};

verus! {

/// Where a workflow stands.
#[derive(Debug, Clone, Copy, PartialEq, Eq, Structural)]
pub enum WorkflowStatus {
    Ready,
    Running,
    WaitingActivity,
    WaitingChild,
    Sleeping,
    WaitingApproval,
    Paused,
    Blocked,
    Succeeded,
    Failed,
    Cancelled,
}

/// The stored name of a workflow status.
pub open spec fn workflow_status_name(status: WorkflowStatus) -> Seq<char> {
    match status {
        WorkflowStatus::Ready => "ready"@,
        WorkflowStatus::Running => "running"@,
        WorkflowStatus::WaitingActivity => "waiting_activity"@,
        WorkflowStatus::WaitingChild => "waiting_child"@,
        WorkflowStatus::Sleeping => "sleeping"@,
        WorkflowStatus::WaitingApproval => "waiting_approval"@,
        WorkflowStatus::Paused => "paused"@,
        WorkflowStatus::Blocked => "blocked"@,
        WorkflowStatus::Succeeded => "succeeded"@,
        WorkflowStatus::Failed => "failed"@,
        WorkflowStatus::Cancelled => "cancelled"@,
    }
}

/// The status with the given stored name.
pub open spec fn workflow_status_named(name: Seq<char>) -> Option<WorkflowStatus> {
    if name == "ready"@ {
        Some(WorkflowStatus::Ready)
    } else if name == "running"@ {
        Some(WorkflowStatus::Running)
    } else if name == "waiting_activity"@ {
        Some(WorkflowStatus::WaitingActivity)
    } else if name == "waiting_child"@ {
        Some(WorkflowStatus::WaitingChild)
    } else if name == "sleeping"@ {
        Some(WorkflowStatus::Sleeping)
    } else if name == "waiting_approval"@ {
        Some(WorkflowStatus::WaitingApproval)
    } else if name == "paused"@ {
        Some(WorkflowStatus::Paused)
    } else if name == "blocked"@ {
        Some(WorkflowStatus::Blocked)
    } else if name == "succeeded"@ {
        Some(WorkflowStatus::Succeeded)
    } else if name == "failed"@ {
        Some(WorkflowStatus::Failed)
    } else if name == "cancelled"@ {
        Some(WorkflowStatus::Cancelled)
    } else {
        None
    }
}

impl WorkflowStatus {
    /// The stored name of the status.
    pub fn as_str(self) -> (name: &'static str)
        ensures
            name@ == workflow_status_name(self),
    {
        match self {
            WorkflowStatus::Ready => "ready",
            WorkflowStatus::Running => "running",
            WorkflowStatus::WaitingActivity => "waiting_activity",
            WorkflowStatus::WaitingChild => "waiting_child",
            WorkflowStatus::Sleeping => "sleeping",
            WorkflowStatus::WaitingApproval => "waiting_approval",
            WorkflowStatus::Paused => "paused",
            WorkflowStatus::Blocked => "blocked",
            WorkflowStatus::Succeeded => "succeeded",
            WorkflowStatus::Failed => "failed",
            WorkflowStatus::Cancelled => "cancelled",
        }
    }

    /// The status with the given stored name; refuses unknown names.
    pub fn parse(value: &str) -> (result: Result<Self, DurableError>)
        ensures
            match result {
                Ok(status) => workflow_status_named(value@) == Some(status),
                Err(error) => workflow_status_named(value@) is None && error@
                    == ErrorModel::InvalidState("unknown WorkflowStatus status "@ + value@),
            },
    {
        if same_text(value, "ready") {
            Ok(WorkflowStatus::Ready)
        } else if same_text(value, "running") {
            Ok(WorkflowStatus::Running)
        } else if same_text(value, "waiting_activity") {
            Ok(WorkflowStatus::WaitingActivity)
        } else if same_text(value, "waiting_child") {
            Ok(WorkflowStatus::WaitingChild)
        } else if same_text(value, "sleeping") {
            Ok(WorkflowStatus::Sleeping)
        } else if same_text(value, "waiting_approval") {
            Ok(WorkflowStatus::WaitingApproval)
        } else if same_text(value, "paused") {
            Ok(WorkflowStatus::Paused)
        } else if same_text(value, "blocked") {
            Ok(WorkflowStatus::Blocked)
        } else if same_text(value, "succeeded") {
            Ok(WorkflowStatus::Succeeded)
        } else if same_text(value, "failed") {
            Ok(WorkflowStatus::Failed)
        } else if same_text(value, "cancelled") {
            Ok(WorkflowStatus::Cancelled)
        } else {
            Err(DurableError::InvalidState(join2("unknown WorkflowStatus status ", value)))
        }
    }
}

/// Reading a stored status name gives the status back.
pub proof fn law_workflow_status_name_round_trip(status: WorkflowStatus)
    ensures
        workflow_status_named(workflow_status_name(status)) == Some(status),
{
    reveal_strlit("ready");
    assert("ready"@.len() == 5);
    reveal_strlit("running");
    assert("running"@.len() == 7);
    reveal_strlit("waiting_activity");
    assert("waiting_activity"@.len() == 16);
    reveal_strlit("waiting_child");
    assert("waiting_child"@.len() == 13);
    reveal_strlit("sleeping");
    assert("sleeping"@.len() == 8);
    reveal_strlit("waiting_approval");
    assert("waiting_approval"@.len() == 16);
    reveal_strlit("paused");
    assert("paused"@.len() == 6);
    reveal_strlit("blocked");
    assert("blocked"@.len() == 7);
    reveal_strlit("succeeded");
    assert("succeeded"@.len() == 9);
    reveal_strlit("failed");
    assert("failed"@.len() == 6);
    reveal_strlit("cancelled");
    assert("cancelled"@.len() == 9);
    let name = workflow_status_name(status);
    assert("running"@[0] != "blocked"@[0]);
    assert("waiting_activity"@[9] != "waiting_approval"@[9]);
    assert("paused"@[0] != "failed"@[0]);
    assert("succeeded"@[0] != "cancelled"@[0]);
}

/// Where an activity stands.
#[derive(Debug, Clone, Copy, PartialEq, Eq, Structural)]
pub enum ActivityStatus {
    Pending,
    Running,
    Succeeded,
    DeadLettered,
    Cancelled,
}

/// The stored name of an activity status.
pub open spec fn activity_status_name(status: ActivityStatus) -> Seq<char> {
    match status {
        ActivityStatus::Pending => "pending"@,
        ActivityStatus::Running => "running"@,
        ActivityStatus::Succeeded => "succeeded"@,
        ActivityStatus::DeadLettered => "dead_lettered"@,
        ActivityStatus::Cancelled => "cancelled"@,
    }
}

/// The status with the given stored name.
pub open spec fn activity_status_named(name: Seq<char>) -> Option<ActivityStatus> {
    if name == "pending"@ {
        Some(ActivityStatus::Pending)
    } else if name == "running"@ {
        Some(ActivityStatus::Running)
    } else if name == "succeeded"@ {
        Some(ActivityStatus::Succeeded)
    } else if name == "dead_lettered"@ {
        Some(ActivityStatus::DeadLettered)
    } else if name == "cancelled"@ {
        Some(ActivityStatus::Cancelled)
    } else {
        None
    }
}

impl ActivityStatus {
    /// The stored name of the status.
    pub fn as_str(self) -> (name: &'static str)
        ensures
            name@ == activity_status_name(self),
    {
        match self {
            ActivityStatus::Pending => "pending",
            ActivityStatus::Running => "running",
            ActivityStatus::Succeeded => "succeeded",
            ActivityStatus::DeadLettered => "dead_lettered",
            ActivityStatus::Cancelled => "cancelled",
        }
    }

    /// The status with the given stored name; refuses unknown names.
    pub fn parse(value: &str) -> (result: Result<Self, DurableError>)
        ensures
            match result {
                Ok(status) => activity_status_named(value@) == Some(status),
                Err(error) => activity_status_named(value@) is None && error@
                    == ErrorModel::InvalidState("unknown ActivityStatus status "@ + value@),
            },
    {
        if same_text(value, "pending") {
            Ok(ActivityStatus::Pending)
        } else if same_text(value, "running") {
            Ok(ActivityStatus::Running)
        } else if same_text(value, "succeeded") {
            Ok(ActivityStatus::Succeeded)
        } else if same_text(value, "dead_lettered") {
            Ok(ActivityStatus::DeadLettered)
        } else if same_text(value, "cancelled") {
            Ok(ActivityStatus::Cancelled)
        } else {
            Err(DurableError::InvalidState(join2("unknown ActivityStatus status ", value)))
        }
    }
}

/// Reading a stored status name gives the status back.
pub proof fn law_activity_status_name_round_trip(status: ActivityStatus)
    ensures
        activity_status_named(activity_status_name(status)) == Some(status),
{
    reveal_strlit("pending");
    assert("pending"@.len() == 7);
    reveal_strlit("running");
    assert("running"@.len() == 7);
    reveal_strlit("succeeded");
    assert("succeeded"@.len() == 9);
    reveal_strlit("dead_lettered");
    assert("dead_lettered"@.len() == 13);
    reveal_strlit("cancelled");
    assert("cancelled"@.len() == 9);
    let name = activity_status_name(status);
    assert("pending"@[0] != "running"@[0]);
    assert("succeeded"@[0] != "cancelled"@[0]);
}

/// Whether a workflow in this status has ended.
pub open spec fn workflow_ended(status: WorkflowStatus) -> bool {
    ||| status == WorkflowStatus::Succeeded
    ||| status == WorkflowStatus::Failed
    ||| status == WorkflowStatus::Cancelled
}

/// Whether a workflow in this status has ended.
pub fn is_terminal(status: WorkflowStatus) -> (ended: bool)
    ensures
        ended == workflow_ended(status),
{
    match status {
        WorkflowStatus::Succeeded | WorkflowStatus::Failed | WorkflowStatus::Cancelled => true,
        _ => false,
    }
}

/// Whether an activity in this status has ended.
pub open spec fn activity_ended(status: ActivityStatus) -> bool {
    ||| status == ActivityStatus::Succeeded
    ||| status == ActivityStatus::DeadLettered
    ||| status == ActivityStatus::Cancelled
}

/// A workflow has ended when it succeeded, failed or was cancelled, an activity when it
/// succeeded, was given up or was cancelled; what waits, runs or is paused has not.
pub proof fn law_ended_means_settled(workflow: WorkflowStatus, activity: ActivityStatus)
    ensures
        workflow_ended(workflow) <==> match workflow {
            WorkflowStatus::Succeeded => true,
            WorkflowStatus::Failed => true,
            WorkflowStatus::Cancelled => true,
            _ => false,
        },
        activity_ended(activity) <==> match activity {
            ActivityStatus::Succeeded => true,
            ActivityStatus::DeadLettered => true,
            ActivityStatus::Cancelled => true,
            _ => false,
        },
{
}

} // verus!
