//! Break reminders for long work sessions, and time accounting over the
//! work log that the reminder keeps.
//!
//! The monitor is a state machine over ticks and cancellation
//! ([`session`]); every finished session becomes one line of the work log
//! ([`logfile`]). The accounting engine ([`statistics`]) reads that log back
//! and answers how many seconds of work fall into a range of time.

pub mod timestamp;

pub mod interval;

pub mod localtime;

pub mod text;

pub mod decimal;

pub mod logfile;

pub mod statistics;

pub mod location;

pub mod session;

pub mod presence;

pub mod reminder;

pub mod plugin;

pub mod interactive;

pub mod request;
