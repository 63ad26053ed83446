//! Installing and uninstalling as a whole.

use ezrama::cli::report::Output;
use ezrama::cli::setup::{install_plan, InstallStep, Outcome, Uninstall, UninstallStep};
use ezrama::cli::{Action, EXIT_FAILURE, EXIT_SUCCESS, EXIT_USAGE};
use ezrama::install::{file_in, install_dir, path_with, path_without};
use ezrama::log::{default_log_path, LOG_FILE};

#[test]
fn actions_that_only_print_have_their_exit_code() {
    assert_eq!(Action::Version.exit_code(), Some(EXIT_SUCCESS));
    assert_eq!(Action::Help.exit_code(), Some(EXIT_SUCCESS));
    assert_eq!(Action::Usage.exit_code(), Some(EXIT_USAGE));
    assert_eq!(Action::UsageError("x".to_string()).exit_code(), Some(EXIT_USAGE));
    assert_eq!(Action::Status.exit_code(), None);
    assert_eq!(Action::Info.exit_code(), None);
}

#[test]
fn an_installation_exits_by_its_steps() {
    assert_eq!(InstallStep::StopWatcher.after(true), Ok(InstallStep::CopyProgram));
    assert_eq!(InstallStep::WriteIcon.after(false), Err(EXIT_FAILURE));
    assert_eq!(InstallStep::StartWatcher.after(false), Err(EXIT_FAILURE));
    assert_eq!(InstallStep::StartWatcher.after(true), Err(EXIT_SUCCESS));
}

/// What an installation step puts on the machine.
fn added(step: InstallStep) -> Option<&'static str> {
    match step {
        InstallStep::StopWatcher => None,
        InstallStep::CopyProgram => Some("ezrama.exe"),
        InstallStep::WriteWatcher => Some("ezramaw.exe"),
        InstallStep::WriteIcon => Some("ezrama.ico"),
        InstallStep::StartMenu => Some("start menu"),
        InstallStep::LogonEntry => Some("logon"),
        InstallStep::AppsEntry => Some("apps"),
        InstallStep::SearchPath => Some("path"),
        InstallStep::StartWatcher => Some("watcher"),
    }
}

/// What an uninstallation step takes away.
fn removed(step: UninstallStep) -> &'static str {
    match (step, step.file()) {
        (_, Some(file)) => file,
        (UninstallStep::StopWatcher, _) => "watcher",
        (UninstallStep::LogonEntry, _) => "logon",
        (UninstallStep::AppsEntry, _) => "apps",
        (UninstallStep::SearchPath, _) => "path",
        _ => "start menu",
    }
}

#[test]
fn uninstalling_undoes_installing() {
    let mut output = Output::new();
    let plan =
        install_plan(Some("d".to_string()), Some("s".to_string()), &mut output).unwrap();
    let mut machine = vec![LOG_FILE];
    let mut step = InstallStep::StopWatcher;
    let code = loop {
        machine.extend(added(step));
        let go_on = step.report(&plan, &Outcome::Done("x".to_string()), &mut output);
        match step.after(go_on) {
            Ok(next) => step = next,
            Err(code) => break code,
        }
    };
    assert_eq!(code, EXIT_SUCCESS);
    assert_eq!(machine.len(), 9);

    let mut uninstall = Uninstall::new();
    let mut step = UninstallStep::StopWatcher;
    loop {
        machine.retain(|piece| *piece != removed(step));
        assert!(uninstall.report(step, "p", &Outcome::Done(String::new()), &mut output));
        match step.next() {
            Some(next) => step = next,
            None => break,
        }
    }
    assert_eq!(machine, [LOG_FILE]);
    assert_eq!(uninstall.exit_code(), EXIT_SUCCESS);
}

#[test]
fn a_bare_drive_gets_no_separator() {
    assert_eq!(install_dir("C:"), "C:ezrama");
    assert_eq!(install_dir("C:\\"), "C:\\ezrama");
    assert_eq!(install_dir("C:\\L"), "C:\\L\\ezrama");
    assert_eq!(file_in("1:", "f"), "1:\\f");
    assert_eq!(file_in("", "f"), "f");
}

#[test]
fn removing_after_adding_leaves_the_entries() {
    let added = path_with("a;; ;b;;", "C:\\x").unwrap();
    assert_eq!(added, "a;; ;b;C:\\x");
    assert_eq!(path_without(&added, "c:\\X\\").unwrap(), "a;b");
    let added = path_with(";;", "d").unwrap();
    assert_eq!(added, "d");
    assert_eq!(path_without(&added, "d").unwrap(), "");
}

#[test]
fn the_log_stands_next_to_the_program() {
    assert_eq!(default_log_path("C:\\L"), "C:\\L\\ezrama\\ezrama.log");
}
