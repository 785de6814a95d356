//! Leases: who may write to a claimed row, and until when.
use vstd::prelude::*;
use crate::error::{invalid_definition, DurableError, ErrorModel};
use crate::persistence::models::{ActivityRowModel, WorkflowRowModel};
use crate::persistence::status::{ActivityStatus, WorkflowStatus};

verus! {

/// Calls `uuid::Uuid::new_v4` and `to_string`: a fresh random identifier in its
/// hyphenated form of 36 characters. Which identifier comes back is left to chance.
#[verifier::external_body]
pub(crate) fn fresh_lease_token() -> (token: String)
    ensures
        token@.len() == 36,
{
    uuid::Uuid::new_v4().to_string()
}

/// Whether the holder of `token` may write to a claimed workflow.
pub open spec fn workflow_fenced(row: WorkflowRowModel, token: Seq<char>) -> bool {
    row.status == WorkflowStatus::Running && row.lease_token == Some(token)
}

/// Whether the holder of `token` may write to a claimed activity.
pub open spec fn activity_fenced(row: ActivityRowModel, token: Seq<char>) -> bool {
    row.status == ActivityStatus::Running && row.lease_token == Some(token)
}

/// Whether a workflow is leased exactly while it runs.
pub open spec fn workflow_lease_consistent(row: WorkflowRowModel) -> bool {
    if row.status == WorkflowStatus::Running {
        row.lease_owner is Some && row.lease_token is Some && row.lease_expires_at is Some
    } else {
        row.lease_owner is None && row.lease_token is None && row.lease_expires_at is None
    }
}

/// Whether an activity is leased exactly while it runs.
pub open spec fn activity_lease_consistent(row: ActivityRowModel) -> bool {
    if row.status == ActivityStatus::Running {
        row.lease_owner is Some && row.lease_token is Some && row.lease_expires_at is Some
    } else {
        row.lease_owner is None && row.lease_token is None && row.lease_expires_at is None
    }
}

/// The workflow without a lease.
pub open spec fn workflow_unleased(row: WorkflowRowModel) -> WorkflowRowModel {
    WorkflowRowModel { lease_owner: None, lease_token: None, lease_expires_at: None, ..row }
}

/// The activity without a lease.
pub open spec fn activity_unleased(row: ActivityRowModel) -> ActivityRowModel {
    ActivityRowModel { lease_owner: None, lease_token: None, lease_expires_at: None, ..row }
}

/// Whether a lease has run out.
pub open spec fn lease_expired(lease_expires_at: Option<i64>, now: i64) -> bool {
    lease_expires_at matches Some(expiry) && expiry <= now
}

/// Whether a lease has run out.
pub fn has_expired(lease_expires_at: Option<i64>, now: i64) -> (expired: bool)
    ensures
        expired == lease_expired(lease_expires_at, now),
{
    match lease_expires_at {
        Some(expiry) => expiry <= now,
        None => false,
    }
}

/// The end of a workflow lease that starts now.
pub fn workflow_lease_expiry(now: i64, lease_millis: i64) -> (result: Result<i64, DurableError>)
    ensures
        match result {
            Ok(expiry) => expiry == now + lease_millis,
            Err(error) => !(i64::MIN <= now + lease_millis <= i64::MAX) && error@
                == ErrorModel::InvalidDefinition("workflow lease timestamp overflow"@),
        },
{
    match now.checked_add(lease_millis) {
        Some(expiry) => Ok(expiry),
        None => Err(invalid_definition("workflow lease timestamp overflow")),
    }
}

} // verus!
