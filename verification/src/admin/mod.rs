//! The administrative side: what operators read and what they may change.
pub mod control;
pub mod cursor;
pub mod metrics;
pub mod query;
pub mod schedules;
pub mod timeline;
pub mod timeline_pages;
pub mod topic_metrics;
pub mod types;
