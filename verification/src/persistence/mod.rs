//! Stored rows, their statuses, and the events appended to a workflow's history.
pub mod events;
pub mod models;
pub mod status;
pub mod workflows;
