//! The work-session monitor as a state machine.
//!
//! The monitor waits for ticks and for cancellation, one event at a time.
//! This module decides what each event does to the session and which
//! effects it asks for, in which order. Whoever runs the monitor waits for
//! the events, hands them to [`step`] and carries out the actions.

use crate::interval::WorkInterval;
use crate::timestamp::LocalTimestamp;
use vstd::prelude::*;

verus! {

/// Where the monitor stands.
#[derive(Clone, Copy, Debug, PartialEq, Eq, Structural)]
pub enum Phase {
    /// No watched process is being timed.
    Idle,
    /// A watched process has been present since `start`; the steady clock
    /// showed `clock_start` seconds then.
    Working { start: LocalTimestamp, clock_start: u64 },
    /// The monitor was cancelled.
    Stopped,
}

/// The state of one run of the monitor.
#[derive(Clone, Copy, Debug, PartialEq, Eq, Structural)]
pub struct SessionState {
    pub phase: Phase,
    /// Whether the last presence check found a watched process. While it
    /// did, the notice that the user is resting is not shown.
    pub last_found: bool,
}

/// What the monitor waits for.
#[derive(Clone, Copy, Debug, PartialEq, Eq, Structural)]
pub enum Event {
    /// The periodic presence check while idle. `present` is false where
    /// the processes could not be listed.
    PresenceTick { present: bool, now: LocalTimestamp, clock: u64 },
    /// The periodic check while working.
    Heartbeat { present: bool, now: LocalTimestamp, clock: u64 },
    /// The timer of the notice that the user is resting.
    NoticeTick,
    /// The user asked the monitor to stop.
    Cancel { now: LocalTimestamp },
}

/// How a work session came to its end.
#[derive(Clone, Copy, Debug, PartialEq, Eq, Structural)]
pub enum WorkSessionResult {
    CtrlCPressed,
    TimeReached,
    ProcessEnded,
}

/// The points at which plugins are called.
#[derive(Clone, Copy, Debug, PartialEq, Eq, Structural)]
pub enum HookPoint {
    Init,
    WorkStart,
    BreakReminder,
}

/// What the monitor tells the user on its output.
#[derive(Clone, Copy, Debug, PartialEq, Eq, Structural)]
pub enum Notice {
    WorkDetected,
    NeedBreak,
    ProcessEnded,
    Stopped,
    Resting,
}

/// An effect that the monitor asks for.
#[derive(Clone, Copy, Debug, PartialEq, Eq, Structural)]
pub enum Action {
    /// Call the plugins' hook for `point`, with `work_duration` seconds in
    /// the context.
    Hook { point: HookPoint, work_duration: u64 },
    /// Print a notice.
    Announce(Notice),
    /// Start the timer of the resting notice anew.
    ResetNoticeTimer,
    /// Show the reminder to take a break after `seconds` of work.
    Remind { seconds: u64 },
    /// Append the interval to the log.
    WriteInterval(WorkInterval),
    /// Leave the loop.
    Stop,
}

/// Seconds on the steady clock since `clock_start`; none if the clock
/// reads less than it did then.
pub open spec fn elapsed(clock_start: u64, clock: u64) -> int {
    if clock >= clock_start {
        clock - clock_start
    } else {
        0
    }
}

/// The state in which a run begins.
pub open spec fn initial_state() -> SessionState {
    SessionState { phase: Phase::Idle, last_found: false }
}

/// What a heartbeat means for the session that is running: the process is
/// gone, or the time is up, or the session goes on.
pub open spec fn heartbeat_verdict(present: bool, elapsed: int, threshold: u64) -> Option<
    WorkSessionResult,
> {
    if !present {
        Some(WorkSessionResult::ProcessEnded)
    } else if elapsed >= threshold {
        Some(WorkSessionResult::TimeReached)
    } else {
        None
    }
}

/// The effects of a session that ran from `start` to `now` and ended with
/// `result`. The interval is written in every case. The reminder, with its
/// hook first, comes before the interval is written.
pub open spec fn closing_actions(
    result: WorkSessionResult,
    start: LocalTimestamp,
    now: LocalTimestamp,
    threshold: u64,
) -> Seq<Action> {
    let written = Action::WriteInterval(WorkInterval { start, end: now });
    match result {
        WorkSessionResult::CtrlCPressed => seq![
            written,
            Action::Announce(Notice::Stopped),
            Action::Stop,
        ],
        WorkSessionResult::TimeReached => seq![
            Action::Announce(Notice::NeedBreak),
            Action::Hook { point: HookPoint::BreakReminder, work_duration: threshold },
            Action::Remind { seconds: threshold },
            written,
        ],
        WorkSessionResult::ProcessEnded => seq![written, Action::Announce(Notice::ProcessEnded)],
    }
}

/// The state after a session has ended with `result`.
pub open spec fn closed_state(result: WorkSessionResult) -> SessionState {
    match result {
        WorkSessionResult::CtrlCPressed => SessionState { phase: Phase::Stopped, last_found: true },
        WorkSessionResult::TimeReached => SessionState { phase: Phase::Idle, last_found: true },
        WorkSessionResult::ProcessEnded => SessionState { phase: Phase::Idle, last_found: false },
    }
}

/// The state after `event`, and the effects that it asks for, in order.
///
/// While idle, a presence check that finds a watched process starts a
/// session, and cancellation stops the monitor with nothing written. While
/// working, a heartbeat ends the session when the process is gone or the
/// threshold is reached, and cancellation ends it too; the interval up to
/// now is written each time. An event that the phase does not wait for
/// changes nothing.
pub open spec fn transition(state: SessionState, event: Event, threshold: u64) -> (
    SessionState,
    Seq<Action>,
) {
    match (state.phase, event) {
        (Phase::Idle, Event::PresenceTick { present, now, clock }) => if present {
            (
                SessionState {
                    phase: Phase::Working { start: now, clock_start: clock },
                    last_found: true,
                },
                seq![
                    Action::Announce(Notice::WorkDetected),
                    Action::Hook { point: HookPoint::WorkStart, work_duration: 0 },
                ],
            )
        } else {
            (
                SessionState { phase: Phase::Idle, last_found: false },
                if state.last_found {
                    seq![Action::ResetNoticeTimer]
                } else {
                    Seq::empty()
                },
            )
        },
        (Phase::Idle, Event::NoticeTick) => (
            state,
            if state.last_found {
                Seq::empty()
            } else {
                seq![Action::Announce(Notice::Resting)]
            },
        ),
        (Phase::Idle, Event::Cancel { now }) => (
            SessionState { phase: Phase::Stopped, last_found: state.last_found },
            seq![Action::Announce(Notice::Stopped), Action::Stop],
        ),
        (Phase::Working { start, clock_start }, Event::Heartbeat { present, now, clock }) => {
            match heartbeat_verdict(present, elapsed(clock_start, clock), threshold) {
                Some(result) => (
                    closed_state(result),
                    closing_actions(result, start, now, threshold),
                ),
                None => (state, Seq::empty()),
            }
        },
        (Phase::Working { start, clock_start }, Event::Cancel { now }) => (
            closed_state(WorkSessionResult::CtrlCPressed),
            closing_actions(WorkSessionResult::CtrlCPressed, start, now, threshold),
        ),
        _ => (state, Seq::empty()),
    }
}

/// The effects of a whole run: those of each event in turn, each from the
/// state that the events before it have led to.
pub open spec fn run_actions(state: SessionState, events: Seq<Event>, threshold: u64) -> Seq<Action>
    decreases events.len(),
{
    if events.len() == 0 {
        Seq::empty()
    } else {
        let (next, actions) = transition(state, events.first(), threshold);
        actions + run_actions(next, events.drop_first(), threshold)
    }
}

/// The state at the end of a whole run.
pub open spec fn run_state(state: SessionState, events: Seq<Event>, threshold: u64) -> SessionState
    decreases events.len(),
{
    if events.len() == 0 {
        state
    } else {
        run_state(transition(state, events.first(), threshold).0, events.drop_first(), threshold)
    }
}

/// The state in which a run begins, and what is to be done first: the
/// plugins' hook for initialization.
pub fn start_session() -> (r: (SessionState, Vec<Action>))
    ensures
        r.0 == initial_state(),
        r.1@ == seq![Action::Hook { point: HookPoint::Init, work_duration: 0 }],
{
    (
        SessionState { phase: Phase::Idle, last_found: false },
        vec![Action::Hook { point: HookPoint::Init, work_duration: 0 }],
    )
}

/// Decides on a heartbeat whether the running session ends, and how.
pub fn monitor_work_session(present: bool, clock_start: u64, clock: u64, threshold: u64) -> (r:
    Option<WorkSessionResult>)
    ensures
        r == heartbeat_verdict(present, elapsed(clock_start, clock), threshold),
{
    if !present {
        Some(WorkSessionResult::ProcessEnded)
    } else if clock >= clock_start && clock - clock_start >= threshold {
        Some(WorkSessionResult::TimeReached)
    } else if clock < clock_start && threshold == 0 {
        Some(WorkSessionResult::TimeReached)
    } else {
        None
    }
}

/// The effects of a session that ended with `result`, and the state after
/// it.
pub fn close_session(
    result: WorkSessionResult,
    start: LocalTimestamp,
    now: LocalTimestamp,
    threshold: u64,
) -> (r: (SessionState, Vec<Action>))
    ensures
        r.0 == closed_state(result),
        r.1@ == closing_actions(result, start, now, threshold),
{
    let written = Action::WriteInterval(WorkInterval { start, end: now });
    match result {
        WorkSessionResult::CtrlCPressed => (
            SessionState { phase: Phase::Stopped, last_found: true },
            vec![written, Action::Announce(Notice::Stopped), Action::Stop],
        ),
        WorkSessionResult::TimeReached => (
            SessionState { phase: Phase::Idle, last_found: true },
            vec![
                Action::Announce(Notice::NeedBreak),
                Action::Hook { point: HookPoint::BreakReminder, work_duration: threshold },
                Action::Remind { seconds: threshold },
                written,
            ],
        ),
        WorkSessionResult::ProcessEnded => (
            SessionState { phase: Phase::Idle, last_found: false },
            vec![written, Action::Announce(Notice::ProcessEnded)],
        ),
    }
}

/// Takes one event: returns the state after it and the effects that it
/// asks for, in the order in which they are to be carried out.
pub fn step(state: SessionState, event: Event, threshold: u64) -> (r: (SessionState, Vec<Action>))
    ensures
        r.0 == transition(state, event, threshold).0,
        r.1@ == transition(state, event, threshold).1,
{
    match (state.phase, event) {
        (Phase::Idle, Event::PresenceTick { present, now, clock }) => {
            if present {
                (
                    SessionState {
                        phase: Phase::Working { start: now, clock_start: clock },
                        last_found: true,
                    },
                    vec![
                        Action::Announce(Notice::WorkDetected),
                        Action::Hook { point: HookPoint::WorkStart, work_duration: 0 },
                    ],
                )
            } else if state.last_found {
                (
                    SessionState { phase: Phase::Idle, last_found: false },
                    vec![Action::ResetNoticeTimer],
                )
            } else {
                (SessionState { phase: Phase::Idle, last_found: false }, Vec::new())
            }
        },
        (Phase::Idle, Event::NoticeTick) => {
            if state.last_found {
                (state, Vec::new())
            } else {
                (state, vec![Action::Announce(Notice::Resting)])
            }
        },
        (Phase::Idle, Event::Cancel { now }) => (
            SessionState { phase: Phase::Stopped, last_found: state.last_found },
            vec![Action::Announce(Notice::Stopped), Action::Stop],
        ),
        (Phase::Working { start, clock_start }, Event::Heartbeat { present, now, clock }) => {
            match monitor_work_session(present, clock_start, clock, threshold) {
                Some(result) => close_session(result, start, now, threshold),
                None => (state, Vec::new()),
            }
        },
        (Phase::Working { start, clock_start }, Event::Cancel { now }) => close_session(
            WorkSessionResult::CtrlCPressed,
            start,
            now,
            threshold,
        ),
        _ => (state, Vec::new()),
    }
}

/// Takes a sequence of events, one after the other, from `state`: returns
/// the state at the end and all the effects, in order.
pub fn replay(state: SessionState, events: &Vec<Event>, threshold: u64) -> (r: (
    SessionState,
    Vec<Action>,
))
    ensures
        r.0 == run_state(state, events@, threshold),
        r.1@ == run_actions(state, events@, threshold),
{
    let mut current = state;
    let mut actions: Vec<Action> = Vec::new();
    let mut i: usize = 0;
    assert(events@.skip(0) =~= events@);
    assert(actions@ + run_actions(state, events@, threshold) =~= run_actions(
        state,
        events@,
        threshold,
    ));
    while i < events.len()
        invariant
            i <= events.len(),
            run_state(state, events@, threshold) == run_state(
                current,
                events@.skip(i as int),
                threshold,
            ),
            run_actions(state, events@, threshold) == actions@ + run_actions(
                current,
                events@.skip(i as int),
                threshold,
            ),
        decreases events.len() - i,
    {
        let (next, mut more) = step(current, events[i], threshold);
        proof {
            let rest = events@.skip(i as int);
            assert(rest.first() == events@[i as int]);
            assert(rest.drop_first() =~= events@.skip(i + 1));
            assert(actions@ + (more@ + run_actions(next, events@.skip(i + 1), threshold)) =~= (
            actions@ + more@) + run_actions(next, events@.skip(i + 1), threshold));
        }
        actions.append(&mut more);
        current = next;
        i = i + 1;
    }
    assert(actions@ + Seq::<Action>::empty() =~= actions@);
    (current, actions)
}

/// A heartbeat that finds the process present before the threshold is
/// reached.
pub open spec fn is_quiet_heartbeat(event: Event, clock_start: u64, threshold: u64) -> bool {
    event matches Event::Heartbeat { present, clock, .. } && present && elapsed(clock_start, clock)
        < threshold
}

/// Heartbeats that find the process present before the threshold is
/// reached change nothing and ask for nothing.
pub proof fn lemma_quiet_heartbeats(
    state: SessionState,
    quiet: Seq<Event>,
    rest: Seq<Event>,
    threshold: u64,
)
    requires
        state.phase is Working,
        forall|i: int|
            0 <= i < quiet.len() ==> is_quiet_heartbeat(
                #[trigger] quiet[i],
                state.phase->clock_start,
                threshold,
            ),
    ensures
        run_actions(state, quiet + rest, threshold) == run_actions(state, rest, threshold),
        run_state(state, quiet + rest, threshold) == run_state(state, rest, threshold),
    decreases quiet.len(),
{
    if quiet.len() == 0 {
        assert(quiet + rest =~= rest);
    } else {
        let all = quiet + rest;
        assert(all.first() == quiet[0]);
        assert(all.drop_first() =~= quiet.drop_first() + rest);
        assert(transition(state, quiet[0], threshold) == (state, Seq::<Action>::empty()));
        assert forall|i: int| 0 <= i < quiet.drop_first().len() implies is_quiet_heartbeat(
            #[trigger] quiet.drop_first()[i],
            state.phase->clock_start,
            threshold,
        ) by {
            assert(quiet.drop_first()[i] == quiet[i + 1]);
        }
        lemma_quiet_heartbeats(state, quiet.drop_first(), rest, threshold);
        assert(Seq::<Action>::empty() + run_actions(state, all.drop_first(), threshold)
            =~= run_actions(state, all.drop_first(), threshold));
    }
}

/// A session that reaches the threshold while the process is still
/// present: from the presence check that finds the process, over any
/// number of heartbeats before the threshold, to the heartbeat at which
/// the threshold is reached. The hook of the break reminder is called
/// once, then the reminder is shown, then one interval is written, from
/// the time of the first event to the time of the last; the monitor is
/// idle again.
pub proof fn lemma_session_reaches_threshold(
    found_at: LocalTimestamp,
    clock_start: u64,
    quiet: Seq<Event>,
    reached_at: LocalTimestamp,
    clock: u64,
    threshold: u64,
)
    requires
        forall|i: int|
            0 <= i < quiet.len() ==> is_quiet_heartbeat(#[trigger] quiet[i], clock_start, threshold),
        elapsed(clock_start, clock) >= threshold,
    ensures
        ({
            let events = seq![
                Event::PresenceTick { present: true, now: found_at, clock: clock_start },
            ] + quiet + seq![Event::Heartbeat { present: true, now: reached_at, clock }];
            let written = Action::WriteInterval(WorkInterval { start: found_at, end: reached_at });
            &&& run_actions(initial_state(), events, threshold) == seq![
                Action::Announce(Notice::WorkDetected),
                Action::Hook { point: HookPoint::WorkStart, work_duration: 0 },
                Action::Announce(Notice::NeedBreak),
                Action::Hook { point: HookPoint::BreakReminder, work_duration: threshold },
                Action::Remind { seconds: threshold },
                written,
            ]
            &&& run_state(initial_state(), events, threshold).phase == Phase::Idle
        }),
{
    let first = Event::PresenceTick { present: true, now: found_at, clock: clock_start };
    let last = Event::Heartbeat { present: true, now: reached_at, clock };
    let events = seq![first] + quiet + seq![last];
    let working = SessionState {
        phase: Phase::Working { start: found_at, clock_start },
        last_found: true,
    };
    assert(events.first() == first);
    assert(events.drop_first() =~= quiet + seq![last]);
    lemma_quiet_heartbeats(working, quiet, seq![last], threshold);
    lemma_single_event(working, last, threshold);
    assert(transition(initial_state(), first, threshold).0 == working);
}

/// A session that ends because the process disappears before the
/// threshold is reached: one interval is written, from the time at which
/// the process was found to the time at which it was missed, and neither
/// the hook of the break reminder is called nor the reminder shown.
pub proof fn lemma_session_process_ends(
    found_at: LocalTimestamp,
    clock_start: u64,
    quiet: Seq<Event>,
    missed_at: LocalTimestamp,
    clock: u64,
    threshold: u64,
)
    requires
        forall|i: int|
            0 <= i < quiet.len() ==> is_quiet_heartbeat(#[trigger] quiet[i], clock_start, threshold),
    ensures
        ({
            let events = seq![
                Event::PresenceTick { present: true, now: found_at, clock: clock_start },
            ] + quiet + seq![Event::Heartbeat { present: false, now: missed_at, clock }];
            let written = Action::WriteInterval(WorkInterval { start: found_at, end: missed_at });
            &&& run_actions(initial_state(), events, threshold) == seq![
                Action::Announce(Notice::WorkDetected),
                Action::Hook { point: HookPoint::WorkStart, work_duration: 0 },
                written,
                Action::Announce(Notice::ProcessEnded),
            ]
            &&& run_state(initial_state(), events, threshold) == initial_state()
        }),
{
    let first = Event::PresenceTick { present: true, now: found_at, clock: clock_start };
    let last = Event::Heartbeat { present: false, now: missed_at, clock };
    let events = seq![first] + quiet + seq![last];
    let working = SessionState {
        phase: Phase::Working { start: found_at, clock_start },
        last_found: true,
    };
    assert(events.first() == first);
    assert(events.drop_first() =~= quiet + seq![last]);
    lemma_quiet_heartbeats(working, quiet, seq![last], threshold);
    lemma_single_event(working, last, threshold);
    assert(transition(initial_state(), first, threshold).0 == working);
}

/// A run of one event is that event's transition.
pub proof fn lemma_single_event(state: SessionState, event: Event, threshold: u64)
    ensures
        run_actions(state, seq![event], threshold) == transition(state, event, threshold).1,
        run_state(state, seq![event], threshold) == transition(state, event, threshold).0,
{
    let events = seq![event];
    assert(events.first() == event);
    assert(events.drop_first() =~= Seq::<Event>::empty());
    let (next, actions) = transition(state, event, threshold);
    assert(actions + run_actions(next, events.drop_first(), threshold) =~= actions);
    assert(run_state(next, events.drop_first(), threshold) == next);
}

/// Cancellation while idle stops the monitor and writes nothing.
pub proof fn lemma_cancel_while_idle(state: SessionState, now: LocalTimestamp, threshold: u64)
    requires
        state.phase == Phase::Idle,
    ensures
        transition(state, Event::Cancel { now }, threshold).0.phase == Phase::Stopped,
        transition(state, Event::Cancel { now }, threshold).1 == seq![
            Action::Announce(Notice::Stopped),
            Action::Stop,
        ],
{
}

/// Cancellation while working writes the interval up to now before the
/// monitor stops.
pub proof fn lemma_cancel_while_working(
    start: LocalTimestamp,
    clock_start: u64,
    last_found: bool,
    now: LocalTimestamp,
    threshold: u64,
)
    ensures
        ({
            let state = SessionState { phase: Phase::Working { start, clock_start }, last_found };
            &&& transition(state, Event::Cancel { now }, threshold).0.phase == Phase::Stopped
            &&& transition(state, Event::Cancel { now }, threshold).1 == seq![
                Action::WriteInterval(WorkInterval { start, end: now }),
                Action::Announce(Notice::Stopped),
                Action::Stop,
            ]
        }),
{
}

/// Once the monitor has stopped, no event changes anything or asks for
/// anything.
pub proof fn lemma_stopped_is_final(state: SessionState, events: Seq<Event>, threshold: u64)
    requires
        state.phase == Phase::Stopped,
    ensures
        run_state(state, events, threshold) == state,
        run_actions(state, events, threshold) == Seq::<Action>::empty(),
    decreases events.len(),
{
    if events.len() > 0 {
        lemma_stopped_is_final(state, events.drop_first(), threshold);
        assert(Seq::<Action>::empty() + Seq::<Action>::empty() =~= Seq::<Action>::empty());
    }
}

/// The words of a notice.
pub open spec fn notice_words(notice: Notice) -> Seq<char> {
    match notice {
        Notice::WorkDetected => "Process(es) detected, you are about to start working..."@,
        Notice::NeedBreak => "Process(es) still running, you need a break!"@,
        Notice::ProcessEnded => "Process(es) ended, you finally decide to rest..."@,
        Notice::Stopped => "Stopped monitoring"@,
        Notice::Resting => "No processes detected, you are resting..."@,
    }
}

/// The words to print for `notice`.
pub fn notice_text(notice: Notice) -> (words: &'static str)
    ensures
        words@ == notice_words(notice),
{
    match notice {
        Notice::WorkDetected => "Process(es) detected, you are about to start working...",
        Notice::NeedBreak => "Process(es) still running, you need a break!",
        Notice::ProcessEnded => "Process(es) ended, you finally decide to rest...",
        Notice::Stopped => "Stopped monitoring",
        Notice::Resting => "No processes detected, you are resting...",
    }
}

} // verus!
