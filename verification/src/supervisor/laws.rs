//! What holds of every watch, whatever happens and whatever the machine
//! answers.

use vstd::prelude::*;

use crate::log::LogView;
use crate::supervisor::{
    active_turn_run, step_run, Call, Got, Hold, Panel, StartError, Want, Watch,
};
use crate::text::decimal;
use crate::time::Duration;
use crate::watch::{control_after, Event, State};

verus! {

/// A watch after one answer of the event source after another.
pub open spec fn watch_run(w: Watch, o: Seq<Call>, answers: Seq<Got>) -> Watch
    decreases answers.len(),
{
    if answers.len() == 0 {
        w
    } else {
        step_run(watch_run(w, o, answers.drop_last()), o, answers.last()).1
    }
}

/// Whether a log that keeps its lines ends with this one.
pub open spec fn ends_with(log: LogView, line: Seq<char>) -> bool {
    !log.silent ==> log.lines.len() > 0 && log.lines.last() == line
}

/// Whether a call stands where it belongs, by the calls before it. A session is
/// held as was asked for, right after it was started; it is started on the one
/// display that was found right before; the display is looked for only after it
/// was said not to be released, and KANALI is started only after it was.
pub open spec fn call_in_place(
    calls: Seq<Call>,
    i: int,
    interval: Duration,
    verbose: bool,
) -> bool {
    match calls[i] {
        Call::HoldSession { interval: held, verbose: told, given, .. } => {
            &&& held == interval
            &&& told == verbose
            &&& ends_with(
                given,
                "holding: ping every "@ + decimal(interval as nat / 1_000_000) + " ms"@,
            )
            &&& i >= 2
            &&& calls[i - 1] == Call::Report { state: State::Active }
            &&& calls[i - 2] matches Call::StartSession { outcome, .. }
            &&& outcome is Ok
        },
        Call::StartSession { path, .. } => {
            &&& i >= 2
            &&& calls[i - 1] == Call::Report { state: State::Connecting }
            &&& calls[i - 2] matches Call::FindPanel { found }
            &&& found matches Ok(Panel::One(one))
            &&& one@ == path
        },
        Call::FindPanel { .. } => i >= 1 && calls[i - 1] == Call::SetReleased { released: false },
        Call::StartKanali { .. } => i >= 1 && calls[i - 1] == Call::SetReleased { released: true },
        Call::SetReleased { .. } => i >= 1 && calls[i - 1] is ClearInterrupt,
        Call::Report { state } => match state {
            State::Active => i >= 1 && calls[i - 1] is StartSession,
            State::NoDisplay => i >= 1 && calls[i - 1] is FindPanel,
            State::Connecting => i >= 1 && (calls[i - 1] is FindPanel || calls[i - 1]
                is HoldSession),
            State::Paused | State::WaitingForKanali => i >= 1 && (calls[i - 1]
                == Call::SetReleased { released: true } || calls[i - 1] is StartKanali),
            State::Quitting => true,
            State::Starting => false,
        },
        _ => true,
    }
}

/// Whether a call is followed by what it calls for: a display that was found by
/// a session start, a started session by its hold, and what keeps the watcher
/// from holding one by the state that says so.
pub open spec fn call_followed(calls: Seq<Call>, i: int) -> bool {
    match calls[i] {
        Call::FindPanel { found } => match found {
            Ok(Panel::One(_)) => i + 2 < calls.len() && calls[i + 2] is StartSession,
            Ok(_) => i + 1 < calls.len() && calls[i + 1] == Call::Report {
                state: State::NoDisplay,
            },
            Err(_) => i + 1 < calls.len() && calls[i + 1] == Call::Report {
                state: State::Connecting,
            },
        },
        Call::StartSession { outcome, .. } => outcome is Ok ==> i + 2 < calls.len()
            && calls[i + 2] is HoldSession,
        Call::HoldSession { hold, .. } => hold is Lost ==> i + 1 < calls.len() && calls[i + 1]
            == Call::Report { state: State::Connecting },
        Call::SetReleased { released } => !released ==> i + 1 < calls.len() && calls[i + 1]
            is FindPanel,
        _ => true,
    }
}

/// Whether every call from `from` on stands where it belongs and is followed by
/// what it calls for.
pub open spec fn calls_in_order(
    calls: Seq<Call>,
    from: int,
    interval: Duration,
    verbose: bool,
) -> bool {
    forall|i: int|
        from <= i < calls.len() ==> #[trigger] call_in_place(calls, i, interval, verbose)
            && call_followed(calls, i)
}

/// What a step keeps, and which calls it adds.
pub open spec fn step_keeps(w: Watch, end: Watch) -> bool {
    &&& end.interval == w.interval
    &&& end.verbose == w.verbose
    &&& end.reconnect.unit == w.reconnect.unit
    &&& w.calls.is_prefix_of(end.calls)
    &&& calls_in_order(end.calls, w.calls.len() as int, w.interval, w.verbose)
}

proof fn lemma_step_keeps(w: Watch, o: Seq<Call>, got: Got)
    ensures
        step_keeps(w, step_run(w, o, got).1),
{
    let end = step_run(w, o, got).1;
    assert(w.calls.is_prefix_of(end.calls));
}

proof fn lemma_keeps_on(w: Watch, mid: Watch, end: Watch)
    requires
        step_keeps(w, mid),
        step_keeps(mid, end),
    ensures
        step_keeps(w, end),
{
    assert forall|i: int| w.calls.len() <= i < end.calls.len() implies #[trigger] call_in_place(
        end.calls,
        i,
        w.interval,
        w.verbose,
    ) && call_followed(end.calls, i) by {
        if i < mid.calls.len() {
            assert(call_in_place(mid.calls, i, w.interval, w.verbose));
            assert(forall|k: int| 0 <= k < mid.calls.len() ==> mid.calls[k] == end.calls[k]);
        } else {
            assert(call_in_place(end.calls, i, mid.interval, mid.verbose));
        }
    }
}

/// However a watch runs, each session that it holds is held with the interval
/// and the verbosity that the watch was made with, right after it was started,
/// on the one display that was found right before; and every call stands where
/// it belongs.
pub proof fn sessions_are_held_as_asked(w: Watch, o: Seq<Call>, answers: Seq<Got>)
    ensures
        step_keeps(w, watch_run(w, o, answers)),
    decreases answers.len(),
{
    if answers.len() > 0 {
        let earlier = watch_run(w, o, answers.drop_last());
        sessions_are_held_as_asked(w, o, answers.drop_last());
        lemma_step_keeps(earlier, o, answers.last());
        lemma_keeps_on(w, earlier, watch_run(w, o, answers));
    }
}

/// What a turn waits for goes by its last call. Without a display, or released,
/// the watcher waits for as long as it takes; after a failed look, a failed
/// start or a lost session it waits until the next attempt; after a session was
/// released, or a launch or a start came to nothing, it goes on at once.
pub proof fn turns_wait_for_what_is_missing(w: Watch, o: Seq<Call>)
    requires
        w.phase is Polling,
    ensures
        ({
            let (want, end) = step_run(w, o, Got::Nothing);
            &&& end.calls.len() >= w.calls.len() + 3
            &&& match end.calls.last() {
                Call::Report { state } => match state {
                    State::NoDisplay | State::Paused | State::WaitingForKanali => want is Wait,
                    State::Connecting => want is WaitFor,
                    _ => want is Done && state is Quitting,
                },
                Call::StartSession { outcome, .. } => outcome is Err && want is WaitFor,
                Call::StopRequested { stop } => !stop && want is Poll,
                _ => false,
            }
            &&& want is Done <==> end.phase is Over
            &&& want is Poll <==> end.phase is Polling
        }),
{
}

/// A look for the display that fails is made again after what the retry schedule
/// says, and moves the schedule on by one.
pub proof fn failed_looks_back_off(w: Watch, o: Seq<Call>)
    requires
        w.called(Call::SetReleased { released: false }).next(o)->found is Err,
    ensures
        active_turn_run(w, o).0 == Some(Want::WaitFor(w.delay() as u128)),
        active_turn_run(w, o).1.reconnect == w.counted().reconnect,
{
}

/// With the usual schedule the attempts are three, six, twelve and twenty-four
/// seconds apart, and thirty from there on; any other schedule has the same
/// proportions.
pub proof fn attempts_move_apart(w: Watch)
    ensures
        w.reconnect.unit == crate::watch::RECONNECT_INITIAL ==> {
            &&& w.reconnect.attempt == 0 ==> w.delay() == 3_000_000_000
            &&& w.reconnect.attempt == 1 ==> w.delay() == 6_000_000_000
            &&& w.reconnect.attempt == 2 ==> w.delay() == 12_000_000_000
            &&& w.reconnect.attempt == 3 ==> w.delay() == 24_000_000_000
            &&& w.reconnect.attempt >= 4 ==> w.delay() == 30_000_000_000
        },
        w.reconnect.attempt == 0 ==> w.delay() == w.reconnect.unit,
        w.reconnect.attempt < 3 && 2 * w.delay() <= u128::MAX ==> w.counted().delay() == 2
            * w.delay(),
        w.delay() <= w.counted().delay(),
        w.reconnect.attempt >= 4 ==> w.counted().delay() == w.delay(),
{
    let unit = w.reconnect.unit as int;
    assert(unit * 1 == unit && unit * 2 == 2 * unit && unit * 4 == 4 * unit && unit * 8 == 8 * unit
        && unit * 10 == 10 * unit);
}

/// A pause is obeyed by the next turn: the display is said to be released, it is
/// left alone, and the watcher waits for as long as it takes.
pub proof fn pauses_are_obeyed(w: Watch, o: Seq<Call>)
    requires
        w.phase is Polling,
    ensures
        ({
            let (asked, told) = step_run(w, o, Got::Event(Event::Pause));
            let (want, end) = step_run(told, o, Got::Nothing);
            &&& asked is Poll
            &&& want is Wait
            &&& end.calls == w.calls.push(Call::ClearInterrupt).push(
                Call::SetReleased { released: true },
            ).push(Call::Report { state: State::Paused })
        }),
{
}

/// A resume is obeyed by the next turn: the display is taken back and looked
/// for.
pub proof fn resumes_are_obeyed(w: Watch, o: Seq<Call>)
    requires
        w.phase is Polling,
    ensures
        ({
            let (asked, told) = step_run(w, o, Got::Event(Event::Resume));
            let end = step_run(told, o, Got::Nothing).1;
            let n = w.calls.len() as int;
            &&& asked is Poll
            &&& end.calls.len() > n + 2
            &&& end.calls[n] is ClearInterrupt
            &&& end.calls[n + 1] == Call::SetReleased { released: false }
            &&& end.calls[n + 2] is FindPanel
        }),
{
}

/// A request for KANALI is obeyed by the next turn: the display is released
/// before KANALI is started, and if that succeeds the watcher waits until KANALI
/// has exited, after which the display is looked for again.
pub proof fn kanali_is_handed_the_display(w: Watch, o: Seq<Call>)
    requires
        w.phase is Polling,
    ensures
        ({
            let (asked, told) = step_run(w, o, Got::Event(Event::OpenKanali));
            let (want, end) = step_run(told, o, Got::Nothing);
            let n = w.calls.len() as int;
            &&& asked is Poll
            &&& end.calls.len() > n + 2
            &&& end.calls[n] is ClearInterrupt
            &&& end.calls[n + 1] == Call::SetReleased { released: true }
            &&& end.calls[n + 2] matches Call::StartKanali { started, .. }
            &&& !started ==> !end.control.paused
            &&& started ==> {
                &&& want is Wait
                &&& end.phase is Waiting
                &&& end.calls.len() == n + 4
                &&& end.calls[n + 3] == Call::Report { state: State::WaitingForKanali }
                &&& control_after(end.control, Event::KanaliClosed).paused == false
                &&& control_after(end.control, Event::Pause).paused
            }
        }),
{
}

/// While nothing asks for a pause the watcher is after the display: each turn
/// looks for it, and starts a session when there is exactly one.
pub proof fn unpaused_turns_look_for_the_display(w: Watch, o: Seq<Call>)
    requires
        w.phase is Polling,
        !w.control.paused,
    ensures
        ({
            let end = step_run(w, o, Got::Nothing).1;
            let n = w.calls.len() as int;
            &&& end.calls.len() > n + 2
            &&& end.calls[n + 1] == Call::SetReleased { released: false }
            &&& end.calls[n + 2] is FindPanel
            &&& forall|i: int| n <= i < end.calls.len() ==> (#[trigger] end.calls[i]) !is StartKanali
        }),
{
}

// ---------------------------------------------------------------------------
// What the log says.
// ---------------------------------------------------------------------------

/// The word for something that is turned on or off.
pub open spec fn switch_word(on: bool) -> Seq<char> {
    if on {
        "on"@
    } else {
        "off"@
    }
}

/// The log says what each event asks for, before anything is done about it.
pub proof fn events_are_logged_as_they_are(w: Watch, o: Seq<Call>, event: Event)
    requires
        w.phase is Polling,
        event !is Quit,
        !w.log.silent,
    ensures
        step_run(w, o, Got::Event(event)).1.log.lines == w.log.lines.push(
            match event {
                Event::Arrived(path) => "panel arrived: "@ + path@,
                Event::Removed(path) => "panel removed: "@ + path@,
                Event::Pause => "pause requested"@,
                Event::Resume => "resume requested"@,
                Event::OpenKanali => "KANALI requested"@,
                Event::KanaliClosed => "KANALI has exited"@,
                Event::StartupSet { enabled, result } => match result {
                    Ok(true) => "start with Windows turned "@ + switch_word(enabled),
                    Ok(false) => "start with Windows was already "@ + switch_word(enabled),
                    Err(reason) => "start with Windows not changed: "@ + reason@,
                },
                Event::Quit => "stop requested"@,
            },
        ),
{
}

/// A watch that is told to quit logs that, and that it stops.
pub proof fn quits_are_logged(w: Watch, o: Seq<Call>)
    requires
        w.phase !is Over,
        !w.log.silent,
    ensures
        step_run(w, o, Got::Event(Event::Quit)).1.log.lines == w.log.lines.push(
            "stop requested"@,
        ).push("watch stopping"@),
{
}

/// The log says what a turn waits for: a display, exactly one display, a resume
/// or KANALI's exit, each of the latter once; and after a failure, what failed
/// and in how many seconds it is tried again.
pub proof fn waits_are_logged(w: Watch, o: Seq<Call>)
    requires
        w.phase is Polling,
        !w.log.silent,
    ensures
        ({
            let (want, end) = step_run(w, o, Got::Nothing);
            let n = w.calls.len() as int;
            let seconds = decimal((want->WaitFor_0 / 1_000_000_000) as nat);
            &&& end.calls.last() == Call::Report { state: State::NoDisplay }
                ==> end.log.lines == w.log.lines.push(
                match end.calls[n + 2]->found {
                    Ok(Panel::Several(count)) => decimal(count as nat)
                        + " panels present; waiting for exactly one"@,
                    _ => "panel not present; waiting"@,
                },
            )
            &&& end.calls.last() == Call::Report { state: State::Paused } && end.calls.len() == n + 3
                ==> end.log.lines == if w.announced == Some(State::Paused) {
                w.log.lines
            } else {
                w.log.lines.push("paused: the panel is released until resume"@)
            }
            &&& end.calls.last() == Call::Report { state: State::WaitingForKanali } ==> (
            w.announced != Some(State::WaitingForKanali) ==> ends_with(
                end.log,
                "paused until KANALI exits"@,
            ))
            &&& end.calls.len() == n + 4 && end.calls[n + 2] is FindPanel && end.calls[n + 2]->found
                is Err ==> end.log.lines == w.log.lines.push(
                "discovery failed: "@ + end.calls[n + 2]->found->Err_0@,
            )
            &&& end.calls.last() matches Call::StartSession { outcome, log, .. } ==> outcome matches Err(
                StartError::Failed(reason),
            ) && end.log == log.with(reason@ + "; retrying in "@ + seconds + " s"@)
            &&& end.calls.last() == Call::Report { state: State::Connecting } && end.calls.len() > n
                + 4 ==> (end.calls[end.calls.len() - 2] matches Call::HoldSession { hold, log, .. }
                && hold matches Hold::Lost { pings, error } && end.log == log.with(
                "session lost after "@ + decimal(pings as nat) + " pings: "@ + error.text()
                    + "; retrying in "@ + seconds + " s"@,
            ))
        }),
{
}

/// A session that was released on request is logged with its count of Pings.
pub proof fn releases_are_logged(w: Watch, o: Seq<Call>)
    ensures
        ({
            let (want, end) = crate::supervisor::holding_run(w, o);
            want is None ==> (end.calls.last() matches Call::HoldSession { hold, log, .. }
                && hold matches Hold::Stopped { pings } && end.log == log.with(
                "session released after "@ + decimal(pings as nat) + " pings"@,
            ))
        }),
{
}

} // verus!
