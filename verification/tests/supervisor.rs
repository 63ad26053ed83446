//! The supervisor on a scripted machine.

use ezrama::log::Logger;
use ezrama::session::SessionError;
use ezrama::supervisor::testing::ScriptedBackend;
use ezrama::supervisor::{describe_event, Got, Hold, Panel, StartError, Supervisor, Want};
use ezrama::time::{from_millis, Duration};
use ezrama::transport::ReadError;
use ezrama::watch::{Event, Reconnect, State};

/// A scripted machine under construction.
struct Script {
    backend: ScriptedBackend,
}

impl Script {
    fn new() -> Self {
        Self { backend: ScriptedBackend::new() }
    }

    fn panel(mut self, panel: Result<Panel, String>) -> Self {
        self.backend.panels.push_back(panel);
        self
    }

    fn start(mut self, outcome: Result<(), StartError>) -> Self {
        self.backend.starts.push_back(outcome);
        self
    }

    fn hold(mut self, outcome: Hold) -> Self {
        self.backend.holds.push_back(outcome);
        self
    }

    fn launch(mut self, started: bool) -> Self {
        self.backend.launches.push_back(started);
        self
    }

    /// Events sent when the next state is reported.
    fn bring(mut self, events: Vec<Event>) -> Self {
        self.backend.on_report.push_back(events);
        self
    }
}

/// The release flag with consecutive repeats collapsed.
fn release_changes(backend: &ScriptedBackend) -> Vec<bool> {
    let mut changes: Vec<bool> = Vec::new();
    for &flag in &backend.released {
        if changes.last() != Some(&flag) {
            changes.push(flag);
        }
    }
    changes
}

const INTERVAL: Duration = 4_500_000_000;

/// Runs a watch to its end; `idle` is what an event source without events gives
/// when it is waited for without a limit.
fn run_logged(fake: Script, idle: Got, log: Logger) -> (ScriptedBackend, Vec<String>) {
    let quick = Reconnect::with_unit(from_millis(1));
    let mut supervisor = Supervisor::with_reconnect(fake.backend, log, INTERVAL, false, quick);
    let mut want = supervisor.round();
    loop {
        let queued = supervisor.backend.queued.pop_front();
        let got = match (want, queued) {
            (Want::Done, None) => break,
            (Want::Done, Some(event)) => panic!("{event:?} was not handled"),
            (_, Some(event)) => Got::Event(event),
            (Want::Wait, None) => match idle {
                Got::Gone => Got::Gone,
                _ => panic!("nothing is left to wake the watch"),
            },
            (_, None) => Got::Nothing,
        };
        want = supervisor.step(got);
    }
    let lines = supervisor.log.take();
    (supervisor.backend, lines)
}

fn run_with(fake: Script, idle: Got) -> ScriptedBackend {
    run_logged(fake, idle, Logger::silent()).0
}

fn run(fake: Script) -> ScriptedBackend {
    run_with(fake, Got::Nothing)
}

fn one() -> Result<Panel, String> {
    Ok(Panel::One("panel".into()))
}

fn lost(pings: u64) -> Hold {
    Hold::Lost {
        pings,
        error: SessionError::Read(ReadError::Lost("unplugged".into())),
    }
}

#[test]
fn holds_the_panel_until_asked_to_stop() {
    let fake = Script::new()
        .panel(one())
        .start(Ok(()))
        .bring(vec![])
        .bring(vec![Event::Quit])
        .hold(Hold::Stopped { pings: 3 });
    let fake = run(fake);
    assert_eq!(fake.states, [State::Connecting, State::Active, State::Quitting]);
    assert_eq!(fake.asked, ["find", "start panel", "hold 4500"]);
    assert_eq!(release_changes(&fake), [false]);
}

#[test]
fn a_lost_session_is_retried_and_a_failed_start_backs_off() {
    let fake = Script::new()
        .panel(one())
        .start(Ok(()))
        .hold(lost(7))
        .panel(one())
        .start(Err(StartError::Failed("session start failed".into())))
        .panel(one())
        .start(Ok(()))
        .bring(vec![])
        .bring(vec![])
        .bring(vec![])
        .bring(vec![])
        .bring(vec![])
        .bring(vec![Event::Quit])
        .hold(Hold::Stopped { pings: 1 });
    let fake = run(fake);
    assert_eq!(
        fake.states,
        [
            State::Connecting,
            State::Active,
            State::Connecting,
            State::Connecting,
            State::Connecting,
            State::Active,
            State::Quitting
        ]
    );
    assert_eq!(
        fake.asked,
        ["find", "start panel", "hold 4500", "find", "start panel", "find", "start panel", "hold 4500"]
    );
}

#[test]
fn a_pause_releases_and_a_resume_reconnects() {
    let fake = Script::new()
        .panel(one())
        .start(Ok(()))
        .bring(vec![])
        .bring(vec![Event::Pause])
        .hold(Hold::Stopped { pings: 2 })
        .bring(vec![Event::Resume])
        .panel(one())
        .start(Ok(()))
        .bring(vec![])
        .bring(vec![Event::Quit])
        .hold(Hold::Stopped { pings: 0 });
    let fake = run(fake);
    assert_eq!(
        fake.states,
        [State::Connecting, State::Active, State::Paused, State::Connecting, State::Active, State::Quitting]
    );
    assert_eq!(release_changes(&fake), [false, true, false]);
    assert!(!fake.asked.contains(&"launch".to_string()));
}

#[test]
fn open_kanali_launches_once_and_resumes_when_it_closes() {
    let fake = Script::new()
        .panel(one())
        .start(Ok(()))
        .bring(vec![])
        .bring(vec![Event::OpenKanali])
        .hold(Hold::Stopped { pings: 5 })
        .launch(true)
        .bring(vec![Event::KanaliClosed])
        .panel(one())
        .start(Ok(()))
        .bring(vec![])
        .bring(vec![Event::Quit])
        .hold(Hold::Stopped { pings: 0 });
    let fake = run(fake);
    assert_eq!(
        fake.states,
        [
            State::Connecting,
            State::Active,
            State::WaitingForKanali,
            State::Connecting,
            State::Active,
            State::Quitting
        ]
    );
    assert_eq!(fake.asked.iter().filter(|call| *call == "launch").count(), 1);
    assert_eq!(release_changes(&fake), [false, true, false]);
}

#[test]
fn a_failed_launch_resumes_at_once() {
    let fake = Script::new()
        .panel(one())
        .start(Ok(()))
        .bring(vec![])
        .bring(vec![Event::OpenKanali])
        .hold(Hold::Stopped { pings: 5 })
        .launch(false)
        .panel(one())
        .start(Ok(()))
        .bring(vec![])
        .bring(vec![Event::Quit])
        .hold(Hold::Stopped { pings: 0 });
    let fake = run(fake);
    assert_eq!(
        fake.states,
        [State::Connecting, State::Active, State::Connecting, State::Active, State::Quitting]
    );
    assert_eq!(release_changes(&fake), [false, true, false]);
}

#[test]
fn a_manual_pause_during_the_wait_outlives_the_close() {
    let fake = Script::new()
        .panel(one())
        .start(Ok(()))
        .bring(vec![])
        .bring(vec![Event::OpenKanali])
        .hold(Hold::Stopped { pings: 5 })
        .launch(true)
        .bring(vec![Event::Pause])
        .bring(vec![Event::KanaliClosed])
        .bring(vec![Event::Quit]);
    let fake = run(fake);
    assert_eq!(
        fake.states,
        [
            State::Connecting,
            State::Active,
            State::WaitingForKanali,
            State::Paused,
            State::Paused,
            State::Quitting
        ]
    );
    assert_eq!(fake.asked.len(), 4, "no reconnect after the close");
}

#[test]
fn an_absent_or_ambiguous_panel_waits_for_an_event() {
    let fake = Script::new()
        .panel(Ok(Panel::Absent))
        .bring(vec![Event::Arrived("panel".into())])
        .panel(Ok(Panel::Several(2)))
        .bring(vec![Event::Removed("other".into())])
        .panel(one())
        .start(Ok(()))
        .bring(vec![])
        .bring(vec![Event::Quit])
        .hold(Hold::Stopped { pings: 0 });
    let fake = run(fake);
    assert_eq!(
        fake.states,
        [State::NoDisplay, State::NoDisplay, State::Connecting, State::Active, State::Quitting]
    );
    assert_eq!(fake.asked, ["find", "find", "find", "start panel", "hold 4500"]);
}

#[test]
fn an_interrupted_start_is_not_a_failure() {
    let fake = Script::new()
        .panel(one())
        .bring(vec![Event::Pause])
        .start(Err(StartError::Interrupted))
        .bring(vec![Event::Resume])
        .panel(one())
        .start(Ok(()))
        .bring(vec![])
        .bring(vec![Event::Quit])
        .hold(Hold::Stopped { pings: 0 });
    let fake = run(fake);
    assert_eq!(
        fake.states,
        [State::Connecting, State::Paused, State::Connecting, State::Active, State::Quitting]
    );
    assert_eq!(fake.asked, ["find", "start panel", "find", "start panel", "hold 4500"]);
}

#[test]
fn a_startup_change_is_only_logged_and_changes_no_mode() {
    let set = |enabled: bool, result: Result<bool, String>| Event::StartupSet { enabled, result };
    let fake = Script::new()
        .panel(one())
        .start(Ok(()))
        .bring(vec![])
        .bring(vec![
            set(false, Ok(true)),
            set(true, Ok(false)),
            set(true, Err("denied".into())),
            Event::Quit,
        ])
        .hold(Hold::Stopped { pings: 1 });
    let fake = run(fake);
    assert_eq!(fake.states, [State::Connecting, State::Active, State::Quitting]);
    assert_eq!(fake.asked, ["find", "start panel", "hold 4500"]);
}

#[test]
fn a_discovery_error_is_retried_after_a_pause() {
    let fake = Script::new()
        .panel(Err("enumeration failed".into()))
        .panel(one())
        .start(Ok(()))
        .bring(vec![])
        .bring(vec![])
        .bring(vec![Event::Quit])
        .hold(Hold::Stopped { pings: 0 });
    let fake = run(fake);
    assert_eq!(fake.states, [State::Connecting, State::Connecting, State::Active, State::Quitting]);
}

#[test]
fn a_stop_from_the_console_ends_the_run_before_anything_else() {
    let mut fake = Script::new();
    fake.backend.stop = true;
    let fake = run(fake);
    assert_eq!(fake.states, [State::Quitting]);
    assert!(fake.asked.is_empty());
}

#[test]
fn a_vanished_event_source_counts_as_a_quit() {
    let fake = Script::new().panel(Ok(Panel::Absent));
    let fake = run_with(fake, Got::Gone);
    assert_eq!(fake.states, [State::NoDisplay, State::Quitting]);
}

#[test]
fn a_watch_logs_what_it_does() {
    let fake = Script::new()
        .panel(Err("enumeration failed".into()))
        .panel(one())
        .start(Ok(()))
        .bring(vec![])
        .bring(vec![])
        .bring(vec![Event::Quit])
        .hold(lost(7));
    let (_, lines) = run_logged(fake, Got::Nothing, Logger::new());
    assert!(lines.iter().any(|line| line.contains("enumeration failed")), "{lines:?}");
    assert_eq!(lines.last().map(String::as_str), Some("watch stopping"));
}

#[test]
fn every_event_has_its_own_words() {
    let set = |enabled: bool, result: Result<bool, String>| Event::StartupSet { enabled, result };
    let lines: Vec<String> = [
        Event::Arrived("p".into()),
        Event::Removed("p".into()),
        Event::Pause,
        Event::Resume,
        Event::OpenKanali,
        Event::KanaliClosed,
        set(true, Ok(true)),
        set(false, Ok(true)),
        set(true, Err("denied".into())),
        Event::Quit,
    ]
    .iter()
    .map(describe_event)
    .collect();
    for (i, a) in lines.iter().enumerate() {
        assert!(!a.is_empty());
        assert!(lines[i + 1..].iter().all(|b| a != b), "{a}");
    }
}

#[test]
fn start_errors_render() {
    assert_eq!(StartError::Interrupted.describe(), "session start interrupted");
    assert_eq!(StartError::Failed("x".into()).describe(), "x");
}
