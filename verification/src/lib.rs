//! Durable workflows: the decisions of an engine that keeps the state of long
//! running work in database rows.
//!
//! Every step of the engine is a function from the rows it has locked, the time
//! and what happened, to the rows that replace them, the events to append and
//! the error to return. Reading and writing the rows, running handlers and
//! keeping time is left to the caller.
//!
//! * `definition`, `metadata`, `signature`, `registry`, `topics`: what an
//!   application defines and registers.
//! * `flow`, `transition`, `payload`: how a workflow is replayed and what it
//!   asks for.
//! * `persistence`, `store`: the rows, and starting and cancelling workflows.
//! * `runtime`: claiming, leases, fencing, execution, supervision, timers and
//!   schedules.
//! * `schedule`: calendars and persisted schedule state.
//! * `admin`, `observability`, `readiness`, `progress`: what operators see and
//!   do.
//! * `text`, `numerals`, `order`, `digest`, `json`, `arith`: what the rest is
//!   built from.
use vstd::prelude::*;

pub mod admin;
pub mod arith;
pub mod definition;
pub mod digest;
pub mod duration;
pub mod error;
pub mod flow;
pub mod ids;
pub mod json;
pub mod metadata;
pub mod naming;
pub mod numerals;
pub mod observability;
pub mod order;
pub mod payload;
pub mod persistence;
pub mod policy;
pub mod progress;
pub mod readiness;
pub mod registry;
pub mod runtime;
pub mod schedule;
pub mod signature;
pub mod store;
pub mod text;
pub mod topics;
pub mod transition;

verus! {

/// The largest workflow input, state or activity payload, in bytes.
pub const MAX_INPUT_STATE_PAYLOAD_BYTES: usize = 256 * 1024;

/// The largest workflow or activity output, in bytes.
pub const MAX_OUTPUT_BYTES: usize = 64 * 1024;

/// The largest event metadata, in bytes.
pub const MAX_EVENT_METADATA_BYTES: usize = 16 * 1024;

/// The largest error message or operator reason, in bytes.
pub const MAX_ERROR_REASON_BYTES: usize = 2 * 1024;

/// The database that the engine stores its rows in.
#[derive(Debug, Clone, Copy, PartialEq, Eq, Structural)]
pub enum BackendKind {
    Mysql,
    Postgres,
}

} // verus!
