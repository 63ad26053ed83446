//! The command line.

use ezrama::cli::report::{
    activate, already_running, check_end, control, disarm_outcome, holding, info, interfaces,
    kanali_found, locate, open_failed, read_outcome, second_open, start_session, still_armed,
    watch_starting, Line, Output, RunReport,
};
use ezrama::cli::setup::{
    not_exited, note_kanali_entries, status, BinaryFacts, InstallPlan, InstallStep, Outcome,
    StatusFacts, Uninstall, UninstallStep, WatcherFacts,
};
use ezrama::cli::{
    dispatch, interval_argument, interval_text, is_option_value, show, Action, WatcherRequest,
    EXIT_BUSY, EXIT_FAILURE, EXIT_SEVERAL, EXIT_SUCCESS, USAGE,
};
use ezrama::frame::encode;
use ezrama::hold::{HoldEvent, KEEPALIVE_INTERVAL};
use ezrama::install::RunEntry;
use ezrama::overlapped::Disarm;
use ezrama::pb::Message;
use ezrama::session::testing::FakeClock;
use ezrama::session::{OptionalReply, Session, SessionError};
use ezrama::time::{from_millis, from_secs, Duration};
use ezrama::transport::{MockTransport, ReadError, WriteError};
use ezrama::usbprint::{Discovery, OpenError, WinError};
use ezrama::watch::State;
use ezrama::wire::{self, field};

/// The ping interval that the arguments ask for.
fn interval(args: &[String]) -> Result<Duration, String> {
    let found = interval_text(args);
    let parsed = match &found {
        ezrama::cli::IntervalText::Given(value) => match value.parse::<f64>() {
            Ok(seconds) if (0.1..=3600.0).contains(&seconds) => {
                Some(std::time::Duration::from_secs_f64(seconds).as_nanos())
            }
            _ => None,
        },
        _ => None,
    };
    interval_argument(&found, parsed)
}

fn args(list: &[&str]) -> Vec<String> {
    list.iter().map(|s| s.to_string()).collect()
}

#[test]
fn interval_defaults_and_parses() {
    assert_eq!(interval(&args(&["run"])), Ok(KEEPALIVE_INTERVAL));
    assert_eq!(
        interval(&args(&["run", "--interval", "2"])),
        Ok(from_secs(2))
    );
    assert_eq!(
        interval(&args(&["--interval", "0.5", "run"])),
        Ok(from_millis(500))
    );
    assert!(interval(&args(&["run", "--interval"])).is_err());
    assert!(interval(&args(&["run", "--interval", "0"])).is_err());
    assert!(interval(&args(&["run", "--interval", "abc"])).is_err());
}

#[test]
fn option_values_are_not_commands() {
    let list = args(&["--interval", "4", "watch"]);
    assert!(is_option_value(&list, 1));
    assert!(!is_option_value(&list, 2));
    assert!(!is_option_value(&list, 0));
}

#[test]
fn show_marks_empty_strings() {
    assert_eq!(show(""), "(empty)");
    assert_eq!(show("PASE"), "PASE");
}

fn out(text: &str) -> Line {
    Line::Out(text.to_string())
}

fn problem(text: &str) -> Line {
    Line::Problem(text.to_string())
}

#[test]
fn interval_faults_are_told_apart() {
    assert_eq!(
        interval(&args(&["run", "--interval"])),
        Err("--interval needs a value in seconds".to_string())
    );
    assert_eq!(
        interval(&args(&["run", "--interval", "abc"])),
        Err("--interval must be between 0.1 and 3600 seconds, not abc".to_string())
    );
    assert_eq!(interval(&args(&["--interval", "2", "--interval", "9"])), Ok(from_secs(2)));
}

fn asked(list: &[&str]) -> Action {
    let list = args(list);
    dispatch(&list, interval(&list))
}

#[test]
fn every_command_is_known() {
    assert_eq!(asked(&["probe"]), Action::Probe { verbose: false, io_check: false });
    assert_eq!(asked(&["-v", "probe", "--io"]), Action::Probe { verbose: true, io_check: true });
    assert_eq!(asked(&["info"]), Action::Info);
    assert_eq!(asked(&["activate"]), Action::Activate);
    assert_eq!(asked(&["run"]), Action::Run { verbose: false, interval: KEEPALIVE_INTERVAL });
    assert_eq!(
        asked(&["--interval", "4", "watch", "--verbose"]),
        Action::Watch { verbose: true, interval: from_secs(4) }
    );
    assert_eq!(asked(&["pause"]), Action::Control(WatcherRequest::Pause));
    assert_eq!(asked(&["resume"]), Action::Control(WatcherRequest::Resume));
    assert_eq!(asked(&["kanali"]), Action::Control(WatcherRequest::OpenKanali));
    assert_eq!(asked(&["stop"]), Action::Control(WatcherRequest::Stop));
    assert_eq!(asked(&["install"]), Action::Install);
    assert_eq!(asked(&["uninstall"]), Action::Uninstall);
    assert_eq!(asked(&["status"]), Action::Status);
    assert_eq!(asked(&["version"]), Action::Version);
    assert_eq!(asked(&["help"]), Action::Help);
}

#[test]
fn the_rest_is_a_usage_error() {
    assert_eq!(asked(&["dance"]), Action::UsageError("unknown command: dance".to_string()));
    assert_eq!(asked(&["", "probe"]), Action::UsageError("unknown command: ".to_string()));
    assert_eq!(asked(&[]), Action::Usage);
    assert_eq!(asked(&["-v"]), Action::Usage);
    assert_eq!(asked(&["-V"]), Action::Version);
    assert_eq!(asked(&["-h", "--version"]), Action::Version);
    assert_eq!(asked(&["--help"]), Action::Help);
    assert_eq!(
        asked(&["run", "--interval", "0"]),
        Action::UsageError("--interval must be between 0.1 and 3600 seconds, not 0".to_string())
    );
    assert_eq!(asked(&["info", "--interval", "0"]), Action::Info);
}

#[test]
fn the_usage_names_every_command() {
    for command in [
        "probe", "info", "activate", "run", "watch", "pause", "resume", "kanali", "stop", "install",
        "uninstall", "status", "help", "version",
    ] {
        assert!(USAGE.contains(&format!("\n  {command} ")), "{command}");
    }
    assert!(USAGE.starts_with("Usage: ezrama <command> [options]\n\nCommands:\n"));
    assert!(USAGE.ends_with("(default 4.5)\n"));
}

#[test]
fn locating_says_why_it_failed() {
    let located = |found| {
        let mut output = Output::new();
        (locate(found, &mut output), output.lines)
    };
    assert_eq!(
        located(Ok(Discovery::One("p".to_string()))),
        (Ok("p".to_string()), vec![out("Panorama SE: p")])
    );
    assert_eq!(
        located(Ok(Discovery::Absent)),
        (Err(EXIT_FAILURE), vec![problem("no Panorama SE printer interface is present")])
    );
    assert_eq!(
        located(Ok(Discovery::Several(vec!["a".to_string(), "b".to_string()]))),
        (
            Err(EXIT_SEVERAL),
            vec![problem("2 Panorama SE printer interfaces are present:"), problem("  a"), problem("  b")]
        )
    );
    assert_eq!(
        located(Err("x".to_string())),
        (Err(EXIT_FAILURE), vec![problem("discovery failed: x")])
    );
}

#[test]
fn opening_exits_with_its_own_code_when_busy() {
    let error = WinError { call: "CreateFileW", code: 5 };
    let mut output = Output::new();
    assert_eq!(open_failed(&OpenError::Busy(error), "", &mut output), EXIT_BUSY);
    assert_eq!(open_failed(&OpenError::Other(error), "", &mut output), EXIT_FAILURE);
    second_open(&Some(OpenError::Busy(error)), "", &mut output);
    second_open(&Some(OpenError::Gone(error)), "m", &mut output);
    second_open(&None, "", &mut output);
    interfaces(&vec!["a".to_string()], &mut output);
    assert_eq!(
        output.lines,
        vec![
            problem("another program holds the device (CreateFileW failed with Windows error 5)"),
            problem("CreateFileW failed with Windows error 5"),
            out("second open refused while held: CreateFileW failed with Windows error 5"),
            out("second open failed: the device is not available (CreateFileW failed: m (Windows error 5))"),
            out("second open succeeded; the driver does not enforce exclusivity"),
            out("printer-class interfaces present: 1"),
            out("  a"),
        ]
    );
}

#[test]
fn the_transfer_check_reports_each_step() {
    let mut output = Output::new();
    assert!(read_outcome(&Ok(Vec::new()), from_millis(301), &mut output));
    assert!(read_outcome(&Ok(vec![1, 2]), 0, &mut output));
    assert!(!read_outcome(&Err(ReadError::Failed("x".to_string())), 0, &mut output));
    still_armed(true, &mut output);
    assert!(disarm_outcome(&Disarm::Cancelled(from_millis(3)), &mut output));
    assert!(disarm_outcome(&Disarm::Completed(7), &mut output));
    assert!(disarm_outcome(&Disarm::NotArmed, &mut output));
    assert!(!disarm_outcome(&Disarm::Abandoned, &mut output));
    still_armed(false, &mut output);
    assert_eq!(check_end(&None, &mut output), EXIT_SUCCESS);
    assert_eq!(check_end(&Some("gone".to_string()), &mut output), EXIT_FAILURE);
    let armed = match &output.lines[0] {
        Line::Out(text) => text.clone(),
        other => panic!("{other:?}"),
    };
    assert!(armed.starts_with("armed a ") && armed.ends_with(" KiB read; nothing arrived within 301 ms"));
    assert_eq!(
        output.lines[1..],
        [
            out("armed a read; 2 unsolicited bytes arrived"),
            problem("read failed: read failed: x"),
            out("read still armed: true"),
            out("cancelled and reaped in 3 ms"),
            out("read had completed with 7 bytes before cancel"),
            out("no read was armed"),
            problem("cancellation did not complete; buffer abandoned"),
            out("read still armed: false"),
            problem("transport lost: gone"),
        ]
    );
}

fn reply(header: Message, number: u32, body: Message) -> Vec<u8> {
    let message = Message::new().message(field::HEADER, &header).message(number, &body);
    encode(message.as_bytes()).unwrap()
}

/// A transport that answers the bootstrap.
fn answering() -> MockTransport {
    let header = || Message::new().uint(1, 1);
    let device = Message::new()
        .bytes(1, b"Linux")
        .bytes(2, b"5.10")
        .bytes(3, b"1.2.3")
        .bytes(4, b"PASE")
        .bytes(8, b"SN42")
        .uint(9, 1);
    let mut mock = MockTransport::new();
    mock.queue_after_write(reply(header(), field::DEVICE_INFORMATION, device))
        .queue_after_write(reply(header(), field::SYSTEM_CONFIGURATION, Message::new()))
        .queue_after_write(reply(
            header(),
            field::DEVICE_AUTHENTICATION,
            Message::new().bytes(1, b"token"),
        ));
    mock
}

fn configuration(track: u64) -> Vec<u8> {
    let work = Message::new().uint(1, 9).uint(2, 1).bytes(3, b"wall.mp4").uint(7, 4);
    let display = Message::new().uint(1, 1).uint(2, 75).uint(4, 90).uint(5, 180);
    let body = Message::new()
        .message(2, &Message::new().uint(1, 1).bytes(2, b"idle.mp4"))
        .message(3, &work)
        .message(5, &display);
    reply(Message::new().uint(1, 1).uint(2, track), field::USER_CONFIGURATION, body)
}

fn seeded(mock: MockTransport) -> Session<MockTransport, FakeClock> {
    let mut session = Session::with_clock(mock, FakeClock::new());
    session.seed_track_ids(41);
    session
}

#[test]
fn info_prints_the_device_and_its_configuration() {
    let mut mock = answering();
    mock.queue_after_write(configuration(41));
    let mut session = seeded(mock);
    let mut output = Output::new();
    assert_eq!(info(&mut session, &mut output), EXIT_SUCCESS);
    assert_eq!(
        output.lines,
        vec![
            out("session started in 0 ms after 1 DeviceInfo attempt(s)"),
            out("Device"),
            out("  product:    PASE"),
            out("  os:         Linux 5.10"),
            out("  firmware:   1.2.3"),
            out("  app:        (empty)"),
            out("  serial:     SN42 (locked)"),
            out("  chip id:    (empty)"),
            out("  auth:       token"),
            out("Configuration"),
            out("  power-on:   not reported"),
            out("  standby:    enabled, media idle.mp4"),
            out("  work mode:  unknown (9), loop all"),
            out("  single:     wall.mp4"),
            out("  dual:       left (empty), right (empty)"),
            out("  kaleido:    (empty) (source 4)"),
            out("  backlight:  on, brightness 75"),
            out("  rotation:   ui 90, media 180, mirror flag false"),
        ]
    );
    let writes = session.into_transport().writes;
    assert_eq!(
        writes,
        vec![
            encode(&wire::device_information_query()).unwrap(),
            encode(&wire::system_configuration_query()).unwrap(),
            encode(&wire::device_authentication_query()).unwrap(),
            encode(&wire::user_configuration_query(41)).unwrap(),
        ]
    );
}

#[test]
fn info_says_which_step_failed() {
    let mut mock = MockTransport::new();
    mock.queue_write_result(Err(WriteError::Lost("gone".to_string())));
    let mut output = Output::new();
    assert_eq!(info(&mut seeded(mock), &mut output), EXIT_FAILURE);
    assert_eq!(output.lines, vec![problem("session start failed: device lost: gone")]);
    let mut output = Output::new();
    assert_eq!(info(&mut seeded(answering()), &mut output), EXIT_FAILURE);
    assert_eq!(
        output.lines.last(),
        Some(&problem("configuration query failed: timed out waiting for the matching response"))
    );
}

#[test]
fn activate_says_what_the_panel_shows() {
    let mut mock = answering();
    mock.queue_wait_for_write()
        .queue_timeout()
        .queue_wait_for_write()
        .queue_timeout()
        .queue_after_write(configuration(42));
    let mut session = seeded(mock);
    let mut output = Output::new();
    assert_eq!(activate(&mut session, &mut output), EXIT_SUCCESS);
    assert_eq!(
        output.lines,
        vec![
            out("session started in 0 ms: PASE firmware 1.2.3"),
            out("activation trigger sent; no reply within the window"),
            out("ping sent; no reply within the window"),
            out("panel is configured to show wall.mp4"),
        ]
    );
}

#[test]
fn a_failed_start_is_said_once() {
    let mut mock = MockTransport::new();
    mock.queue_read_error(ReadError::Interrupted);
    let mut output = Output::new();
    assert_eq!(start_session(&mut seeded(mock), &mut output), Err(EXIT_FAILURE));
    assert_eq!(output.lines, vec![problem("session start interrupted")]);
}

#[test]
fn run_reports_pings_retries_and_its_end() {
    let mut output = Output::new();
    holding(false, from_millis(4500), &mut output);
    let mut report = RunReport::new(true);
    let ping = HoldEvent::Pinged { reply: OptionalReply::Acknowledged, drained: 3, gap: from_millis(4501) };
    report.note(&ping, &mut output);
    let retry = HoldEvent::Retrying { attempt: 2, error: SessionError::Timeout };
    report.note(&retry, &mut output);
    report.note(&HoldEvent::Stopped, &mut output);
    assert_eq!(report.end(&Ok(()), &mut output), EXIT_SUCCESS);
    let interrupted = Err(SessionError::Read(ReadError::Interrupted));
    assert_eq!(report.end(&interrupted, &mut output), EXIT_SUCCESS);
    assert_eq!(report.end(&Err(SessionError::Closed), &mut output), EXIT_FAILURE);
    assert_eq!(
        output.lines,
        vec![
            problem("could not install the console stop handler; use the task manager to stop"),
            out("holding the session: ping every 4500 ms; press Ctrl+C to stop"),
            out("ping 1: acknowledged; 4501 ms since the last; 3 unasked frames drained so far"),
            out("ping retry 2 of 3: timed out waiting for the matching response"),
            out("stop requested after 1 pings"),
            out("session released"),
            out("stop requested after 1 pings; session released"),
            problem("session lost after 1 pings: the session is closed"),
        ]
    );
    let mut output = Output::new();
    let mut quiet = RunReport::new(false);
    quiet.note(&ping, &mut output);
    assert_eq!((quiet.pings, output.lines), (1, vec![]));
}

#[test]
fn requests_to_the_watcher_are_confirmed() {
    let asked = |request, sent, confirmed: Result<bool, String>| {
        let mut output = Output::new();
        let code = control(request, sent, &confirmed, &mut output);
        assert_eq!(output.lines.len(), 1);
        (code, output.lines.remove(0))
    };
    let unused = || Err(String::new());
    assert_eq!(
        asked(WatcherRequest::Stop, false, unused()),
        (EXIT_FAILURE, problem("no ezrama watcher is running"))
    );
    assert_eq!(
        asked(WatcherRequest::Pause, true, Ok(true)),
        (EXIT_SUCCESS, out("watcher paused; the panel is released"))
    );
    assert_eq!(
        asked(WatcherRequest::Pause, true, Ok(false)),
        (EXIT_FAILURE, problem("watcher did not confirm the pause within 5 s"))
    );
    assert_eq!(
        asked(WatcherRequest::Pause, true, Err("x".to_string())),
        (EXIT_FAILURE, problem("pause requested, but there is no confirmation to wait for: x"))
    );
    assert_eq!(asked(WatcherRequest::Resume, true, unused()), (EXIT_SUCCESS, out("watcher resumed")));
    assert_eq!(
        asked(WatcherRequest::OpenKanali, true, unused()),
        (EXIT_SUCCESS, out("watcher asked to start KANALI"))
    );
    assert_eq!(asked(WatcherRequest::Stop, true, unused()), (EXIT_SUCCESS, out("watcher asked to stop")));
}

#[test]
fn the_watcher_introduces_itself() {
    assert_eq!(already_running(7), "a watcher is already running as process 7; nothing to do");
    assert_eq!(
        watch_starting("1.2.3", from_millis(4500)),
        "watch starting: ezrama 1.2.3, ping interval 4500 ms"
    );
    assert_eq!(kanali_found(&Some("k".to_string())), "KANALI found at k");
    assert_eq!(kanali_found(&None), "KANALI not found; the menu cannot start it");
    assert_eq!(not_exited(), "the watcher has not exited within 30 s");
}

fn plan() -> InstallPlan {
    InstallPlan {
        directory: "D".to_string(),
        source: "S".to_string(),
        destination: "T".to_string(),
    }
}

#[test]
fn an_installation_says_every_step() {
    let mut output = Output::new();
    let mut step = InstallStep::StopWatcher;
    let mut steps = 1;
    assert!(step.report(&plan(), &Outcome::Done("x".to_string()), &mut output));
    while let Some(next) = step.next() {
        step = next;
        steps += 1;
        assert!(step.report(&plan(), &Outcome::Done("x".to_string()), &mut output));
    }
    assert_eq!(steps, 9);
    assert_eq!(
        output.lines,
        vec![
            out("stopped the running watcher"),
            out("copied ezrama.exe to D (x bytes)"),
            out("wrote x"),
            out("wrote x"),
            out("Start Menu entry x"),
            out("logon entry ezrama: x"),
            out("Settings entry x"),
            out("added D to the search path"),
            out("started the installed watcher (process x)"),
        ]
    );
}

#[test]
fn an_installation_ends_at_the_first_failure() {
    let failed = Outcome::Failed("why".to_string());
    let mut output = Output::new();
    assert!(InstallStep::StopWatcher.report(&plan(), &failed, &mut output));
    assert!(!InstallStep::CopyProgram.report(&plan(), &failed, &mut output));
    assert!(!InstallStep::StartWatcher.report(&plan(), &failed, &mut output));
    assert!(InstallStep::CopyProgram.report(&plan(), &Outcome::Unneeded, &mut output));
    assert!(InstallStep::StartMenu.report(&plan(), &Outcome::Unneeded, &mut output));
    assert!(InstallStep::StopWatcher.report(&plan(), &Outcome::Unneeded, &mut output));
    assert_eq!(
        output.lines,
        vec![
            problem("why"),
            out("stopped the running watcher"),
            problem("cannot copy S to T: why"),
            problem("installed, but could not start the watcher now: why"),
            out("already running from D"),
            out("APPDATA is not set; no Start Menu entry"),
        ]
    );
}

#[test]
fn kanali_startup_entries_are_noted() {
    let mut output = Output::new();
    let entry = RunEntry { name: "K".to_string(), command: "k.exe".to_string() };
    note_kanali_entries(&Ok(vec![]), &mut output);
    assert!(output.lines.is_empty());
    note_kanali_entries(&Ok(vec![entry]), &mut output);
    note_kanali_entries(&Err("x".to_string()), &mut output);
    assert_eq!(output.lines[0], out("note: a KANALI startup entry named K is still enabled: k.exe"));
    assert_eq!(output.lines[2], out("could not check for KANALI startup entries: x"));
}

#[test]
fn an_uninstallation_goes_on_and_remembers() {
    let mut output = Output::new();
    let mut uninstall = Uninstall::new();
    let failed = Outcome::Failed("why".to_string());
    let done = Outcome::Done(String::new());
    assert!(uninstall.report(UninstallStep::StopWatcher, "", &done, &mut output));
    assert!(uninstall.report(UninstallStep::LogonEntry, "", &Outcome::Unneeded, &mut output));
    assert_eq!(uninstall.exit_code(), EXIT_SUCCESS);
    assert!(uninstall.report(UninstallStep::DeleteIcon, "I", &failed, &mut output));
    assert!(uninstall.report(UninstallStep::DeleteProgram, "P", &done, &mut output));
    assert_eq!(uninstall.exit_code(), EXIT_FAILURE);
    assert!(!uninstall.report(UninstallStep::LogonEntry, "", &failed, &mut output));
    assert_eq!(
        output.lines,
        vec![
            out("stopped the running watcher"),
            out("no logon entry was registered"),
            problem("cannot delete I: why"),
            out("deleted P"),
            problem("cannot remove the logon entry: why"),
        ]
    );
    let mut files = Vec::new();
    let mut step = Some(UninstallStep::StopWatcher);
    while let Some(current) = step {
        files.extend(current.file());
        step = current.next();
    }
    assert_eq!(files, ["ezrama.exe", "ezramaw.exe", "ezrama.ico"]);
}

#[test]
fn status_reports_what_is_known() {
    let binary = |name: &str, exists| BinaryFacts {
        name: name.to_string(),
        path: format!("D\\{name}"),
        exists,
    };
    let mut output = Output::new();
    status(
        &StatusFacts {
            binaries: Some(vec![binary("ezrama.exe", true), binary("ezramaw.exe", false)]),
            logon: Ok(Some("c".to_string())),
            start_menu: None,
            kanali: Ok(vec![RunEntry { name: "K".to_string(), command: "k.exe".to_string() }]),
            watcher: WatcherFacts::Answering(State::Paused),
            panel: Ok(Discovery::Several(vec!["a".to_string(), "b".to_string()])),
        },
        &mut output,
    );
    status(
        &StatusFacts {
            binaries: None,
            logon: Err("x".to_string()),
            start_menu: Some("link".to_string()),
            kanali: Ok(vec![]),
            watcher: WatcherFacts::Silent,
            panel: Ok(Discovery::One("p".to_string())),
        },
        &mut output,
    );
    assert_eq!(
        output.lines,
        vec![
            out("ezrama.exe   installed at D\\ezrama.exe"),
            out("ezramaw.exe  not installed"),
            out("logon entry  c"),
            out("start menu   none"),
            out("kanali       startup entry K: k.exe"),
            out("watcher      running: Paused"),
            out("panel        2 present"),
            out("install dir  unknown (LOCALAPPDATA is not set)"),
            out("logon entry  unreadable: x"),
            out("start menu   link"),
            out("kanali       no startup entry"),
            out("watcher      running, not answering"),
            out("panel        present at p"),
        ]
    );
}
