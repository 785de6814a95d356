//! The decisions of the engine's loops: claiming, activating, executing and waking.
pub mod activity_worker;
pub mod coordinator;
pub mod dispatcher;
pub mod execution;
pub mod executions;
pub mod fencing;
pub mod lease;
pub mod schedule_materializer;
pub mod supervisor;
pub mod temporal;
