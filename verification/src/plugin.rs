//! What the monitor hands to plugins at its hook points.

use crate::localtime::local_now;
use crate::logfile::{timestamp_text, write_timestamp};
use crate::session::HookPoint;
use crate::timestamp::LocalTimestamp;
use vstd::prelude::*;
use vstd::string::StringExecFns;

verus! {

/// What a hook is told: a message, the local time at which the context was
/// made, written as `YYYY-MM-DD HH:MM:SS`, and the seconds of work that the
/// hook is about.
#[derive(Clone, Debug)]
pub struct PluginContext {
    pub message: String,
    pub timestamp: String,
    pub work_duration: u64,
}

/// The name of the function that a plugin defines for a hook point.
pub open spec fn hook_name_of(point: HookPoint) -> Seq<char> {
    match point {
        HookPoint::Init => "on_init"@,
        HookPoint::WorkStart => "on_work_start"@,
        HookPoint::BreakReminder => "on_break_reminder"@,
    }
}

/// The message that a hook point passes on.
pub open spec fn hook_message_of(point: HookPoint) -> Seq<char> {
    match point {
        HookPoint::Init => "Rest Reminder initialized"@,
        HookPoint::WorkStart => "Work session started"@,
        HookPoint::BreakReminder => "Time to take a break!"@,
    }
}

/// The time of a context made at `now`: the wall-clock reading as text,
/// or no text for a time outside the years that can be written.
pub open spec fn context_time(now: LocalTimestamp) -> Seq<char> {
    match timestamp_text(now) {
        Some(text) => text,
        None => Seq::empty(),
    }
}

/// The name of the function that a plugin defines for `point`.
pub fn hook_name(point: HookPoint) -> (name: &'static str)
    ensures
        name@ == hook_name_of(point),
{
    match point {
        HookPoint::Init => "on_init",
        HookPoint::WorkStart => "on_work_start",
        HookPoint::BreakReminder => "on_break_reminder",
    }
}

/// The message that `point` passes on.
pub fn hook_message(point: HookPoint) -> (message: &'static str)
    ensures
        message@ == hook_message_of(point),
{
    match point {
        HookPoint::Init => "Rest Reminder initialized",
        HookPoint::WorkStart => "Work session started",
        HookPoint::BreakReminder => "Time to take a break!",
    }
}

impl PluginContext {
    /// The context with the given message and duration, made at `now`.
    pub fn at(message: &str, now: LocalTimestamp, work_duration: u64) -> (context: PluginContext)
        ensures
            context.message@ == message@,
            context.timestamp@ == context_time(now),
            context.work_duration == work_duration,
    {
        let timestamp = match write_timestamp(now) {
            Some(text) => text,
            None => String::new(),
        };
        PluginContext { message: String::from_str(message), timestamp, work_duration }
    }

    /// The context with the given message and duration, made now.
    pub fn new(message: &str, work_duration: u64) -> (context: PluginContext)
        ensures
            context.message@ == message@,
            context.work_duration == work_duration,
            exists|now: LocalTimestamp| context.timestamp@ == #[trigger] context_time(now),
    {
        let now = local_now();
        let context = PluginContext::at(message, now, work_duration);
        assert(context.timestamp@ == context_time(now));
        context
    }

    /// The context for the hook at `point`, made at `now`.
    pub fn for_hook(point: HookPoint, now: LocalTimestamp, work_duration: u64) -> (context:
        PluginContext)
        ensures
            context.message@ == hook_message_of(point),
            context.timestamp@ == context_time(now),
            context.work_duration == work_duration,
    {
        PluginContext::at(hook_message(point), now, work_duration)
    }
}

} // verus!
