//! The probe, the watcher's setting up, and the ends of an installation.

use ezrama::cli::probe::{Probe, ProbeAction, ProbeEvent, CHECK_WAIT};
use ezrama::cli::report::{
    watch_begins, watch_ends, watch_prepared, Line, LoopEnd, Output, WatchFacts,
};
use ezrama::cli::setup::{install_plan, Uninstall};
use ezrama::cli::{EXIT_ALREADY_RUNNING, EXIT_BUSY, EXIT_FAILURE, EXIT_SEVERAL, EXIT_SUCCESS};
use ezrama::log::Logger;
use ezrama::overlapped::Disarm;
use ezrama::time::{from_millis, from_secs};
use ezrama::transport::ReadError;
use ezrama::usbprint::{Discovery, OpenError, WinError};

fn out(text: &str) -> Line {
    Line::Out(text.to_string())
}

fn problem(text: &str) -> Line {
    Line::Problem(text.to_string())
}

fn one() -> ProbeEvent {
    ProbeEvent::Found(Ok(Discovery::One("p".to_string())))
}

fn opened() -> ProbeEvent {
    ProbeEvent::Opened(None, String::new())
}

#[test]
fn a_plain_probe_opens_and_closes() {
    let mut output = Output::new();
    let (action, mut probe) = Probe::start(false, false);
    assert_eq!(action, ProbeAction::Find);
    assert_eq!(probe.next(one(), &mut output), ProbeAction::Open("p".to_string()));
    assert_eq!(probe.next(opened(), &mut output), ProbeAction::Close);
    assert_eq!(
        probe.next(ProbeEvent::Closed, &mut output),
        ProbeAction::Finish(EXIT_SUCCESS)
    );
    assert_eq!(
        output.lines,
        [out("Panorama SE: p"), out("opened for exclusive use"), out("closed")]
    );
}

#[test]
fn a_full_probe_checks_everything() {
    let mut output = Output::new();
    let (action, mut probe) = Probe::start(true, true);
    assert_eq!(action, ProbeAction::List);
    let list = ProbeEvent::Listed(Ok(vec!["a".to_string(), "p".to_string()]));
    assert_eq!(probe.next(list, &mut output), ProbeAction::Find);
    assert_eq!(probe.next(one(), &mut output), ProbeAction::Open("p".to_string()));
    assert_eq!(probe.next(opened(), &mut output), ProbeAction::OpenAgain);
    let busy = OpenError::Busy(WinError { call: "CreateFileW", code: 5 });
    let refused = ProbeEvent::OpenedAgain(Some(busy), String::new());
    assert_eq!(probe.next(refused, &mut output), ProbeAction::Read(CHECK_WAIT));
    assert_eq!(CHECK_WAIT, from_millis(300));
    let quiet = ProbeEvent::Read(Ok(vec![7]), from_millis(301), true);
    assert_eq!(probe.next(quiet, &mut output), ProbeAction::Disarm);
    let disarmed = ProbeEvent::Disarmed(Disarm::Cancelled(from_millis(2)), false, None);
    assert_eq!(probe.next(disarmed, &mut output), ProbeAction::Close);
    assert_eq!(
        probe.next(ProbeEvent::Closed, &mut output),
        ProbeAction::Finish(EXIT_SUCCESS)
    );
    assert_eq!(
        output.lines,
        [
            out("printer-class interfaces present: 2"),
            out("  a"),
            out("  p"),
            out("Panorama SE: p"),
            out("opened for exclusive use"),
            out("second open refused while held: CreateFileW failed with Windows error 5"),
            out("armed a read; 1 unsolicited bytes arrived"),
            out("read still armed: true"),
            out("cancelled and reaped in 2 ms"),
            out("read still armed: false"),
            out("closed"),
        ]
    );
}

#[test]
fn a_probe_ends_where_it_fails() {
    let mut output = Output::new();
    let (_, mut probe) = Probe::start(true, false);
    let failed = ProbeEvent::Listed(Err("e".to_string()));
    assert_eq!(probe.next(failed, &mut output), ProbeAction::Finish(EXIT_FAILURE));

    let (_, mut probe) = Probe::start(false, false);
    let several = Discovery::Several(vec!["a".to_string(), "b".to_string()]);
    assert_eq!(
        probe.next(ProbeEvent::Found(Ok(several)), &mut output),
        ProbeAction::Finish(EXIT_SEVERAL)
    );

    for (error, code) in [
        (OpenError::Busy(WinError { call: "c", code: 5 }), EXIT_BUSY),
        (OpenError::Gone(WinError { call: "c", code: 2 }), EXIT_FAILURE),
    ] {
        let (_, mut probe) = Probe::start(false, true);
        probe.next(one(), &mut output);
        assert_eq!(
            probe.next(ProbeEvent::Opened(Some(error), String::new()), &mut output),
            ProbeAction::Finish(code)
        );
    }
    assert_eq!(output.lines[0], problem("probe failed: e"));
}

#[test]
fn probe_closes_what_it_opens() {
    let ends = [
        ProbeEvent::Read(Err(ReadError::Failed("x".to_string())), 0, false),
        ProbeEvent::Read(Ok(Vec::new()), 0, true),
    ];
    for end in ends {
        let mut output = Output::new();
        let (_, mut probe) = Probe::start(false, true);
        probe.next(one(), &mut output);
        assert_eq!(probe.next(opened(), &mut output), ProbeAction::Read(CHECK_WAIT));
        if probe.next(end, &mut output) == ProbeAction::Disarm {
            let abandoned =
                ProbeEvent::Disarmed(Disarm::Abandoned, false, Some("gone".to_string()));
            assert_eq!(probe.next(abandoned, &mut output), ProbeAction::Close);
        }
        assert_eq!(
            probe.next(ProbeEvent::Closed, &mut output),
            ProbeAction::Finish(EXIT_FAILURE)
        );
        assert_eq!(output.lines.last(), Some(&out("closed")));
    }
}

#[test]
fn a_lost_transport_fails_the_check() {
    let mut output = Output::new();
    let (_, mut probe) = Probe::start(false, true);
    probe.next(one(), &mut output);
    probe.next(opened(), &mut output);
    probe.next(ProbeEvent::Read(Ok(Vec::new()), 0, true), &mut output);
    let lost = ProbeEvent::Disarmed(Disarm::NotArmed, false, Some("gone".to_string()));
    assert_eq!(probe.next(lost, &mut output), ProbeAction::Close);
    assert_eq!(
        probe.next(ProbeEvent::Closed, &mut output),
        ProbeAction::Finish(EXIT_FAILURE)
    );
    assert_eq!(
        output.lines[output.lines.len() - 2..],
        [problem("transport lost: gone"), out("closed")]
    );
}

#[test]
fn only_one_watcher_runs() {
    let mut log = Logger::new();
    assert_eq!(watch_begins(Some(12), "1.0", from_secs(2), &mut log), Err(EXIT_ALREADY_RUNNING));
    assert_eq!(watch_begins(None, "1.0", from_secs(2), &mut log), Ok(()));
    assert_eq!(
        log.take(),
        [
            "a watcher is already running as process 12; nothing to do",
            "watch starting: ezrama 1.0, ping interval 2000 ms",
        ]
    );
}

#[test]
fn a_watcher_logs_what_it_lacks() {
    let mut log = Logger::new();
    let bare = WatchFacts {
        handler_installed: false,
        confirmation: Some("a".to_string()),
        kanali: None,
        icon: Some("b".to_string()),
    };
    watch_prepared(&bare, &mut log);
    assert_eq!(
        log.take(),
        [
            "console stop handler unavailable",
            "pause confirmation unavailable: a",
            "KANALI not found; the menu cannot start it",
            "notification icon unavailable: b",
        ]
    );
    let full = WatchFacts {
        handler_installed: true,
        confirmation: None,
        kanali: Some("k".to_string()),
        icon: None,
    };
    watch_prepared(&full, &mut log);
    assert_eq!(log.take(), ["KANALI found at k"]);
}

#[test]
fn a_watcher_logs_how_its_loop_ended() {
    let mut log = Logger::new();
    assert_eq!(watch_ends(&LoopEnd::Quit, &mut log), EXIT_SUCCESS);
    assert_eq!(watch_ends(&LoopEnd::Failed("x".to_string()), &mut log), EXIT_SUCCESS);
    assert_eq!(watch_ends(&LoopEnd::Broken, &mut log), EXIT_SUCCESS);
    assert_eq!(
        log.take(),
        ["device notifications failed: x", "device notification thread failed"]
    );
}

#[test]
fn an_installation_needs_two_places() {
    let mut output = Output::new();
    let directory = Some("C:\\L\\ezrama".to_string());
    let source = Some("C:\\D\\ezrama.exe".to_string());
    assert_eq!(install_plan(None, source.clone(), &mut output), Err(EXIT_FAILURE));
    assert_eq!(install_plan(directory.clone(), None, &mut output), Err(EXIT_FAILURE));
    assert_eq!(
        output.lines,
        [
            problem("LOCALAPPDATA is not set; cannot choose an installation directory"),
            problem("cannot locate this program's own directory"),
        ]
    );
    let plan = install_plan(directory, source, &mut output).unwrap();
    assert_eq!(plan.destination, "C:\\L\\ezrama\\ezrama.exe");
}

#[test]
fn an_uninstallation_says_where_the_log_is() {
    let mut output = Output::new();
    let mut uninstall = Uninstall::new();
    assert_eq!(uninstall.no_directory(&mut output), EXIT_FAILURE);
    assert_eq!(uninstall.end(&Some("l".to_string()), &mut output), EXIT_SUCCESS);
    uninstall.failed = true;
    assert_eq!(uninstall.end(&None, &mut output), EXIT_FAILURE);
    assert_eq!(
        output.lines,
        [problem("LOCALAPPDATA is not set; nothing to delete"), out("log kept at l")]
    );
}
