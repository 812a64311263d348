//! Scheduling core of a reminder tool: normalising time and recurrence
//! expressions, the reminder state machine, the in-memory store and the
//! decisions of the polling daemon.

pub mod calendar;
pub mod commands;
pub mod cron_parser;
pub mod daemon;
pub mod ident;
pub mod listing;
pub mod logger;
pub mod reminder;
pub mod storage;
pub mod tags;
pub mod text;
pub mod time_parser;
