//! Cron schedules: their calendars and their definitions.
pub mod calendar;
pub mod registry;
