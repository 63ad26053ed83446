//! Device notifications.

use ezrama::devnotify::{
    broadcast_path, window_procedure, Interrupt, Pump, PumpAction, PumpEvent, Reaction, WM_STOP_WATCH,
};
use ezrama::usbprint::{is_panorama_path, WinError};
use ezrama::watch::Event;
use ezrama::win::{
    DBT_DEVICEARRIVAL, DBT_DEVICEREMOVECOMPLETE, DBT_DEVTYP_DEVICEINTERFACE, WM_CLOSE, WM_DESTROY,
    WM_DEVICECHANGE, WM_ENDSESSION, WM_QUERYENDSESSION,
};

/// A broadcast structure as the system delivers it.
fn broadcast(device_type: u32, name: &str) -> Vec<u8> {
    let units: Vec<u16> = name.encode_utf16().chain(std::iter::once(0)).collect();
    let byte_len = 28 + units.len() * 2;
    let mut bytes = vec![0u8; byte_len.div_ceil(4) * 4];
    bytes[..4].copy_from_slice(&(byte_len as u32).to_le_bytes());
    bytes[4..8].copy_from_slice(&device_type.to_le_bytes());
    for (index, unit) in units.iter().enumerate() {
        bytes[28 + index * 2..30 + index * 2].copy_from_slice(&unit.to_le_bytes());
    }
    bytes
}

#[test]
fn broadcast_path_is_decoded_from_the_structure() {
    let path = r"\\?\USB#VID_391A&PID_1021#abc#{28d78fad-5a12-11d1-ae5b-0000f803a8c2}";
    let bytes = broadcast(DBT_DEVTYP_DEVICEINTERFACE, path);
    let decoded = broadcast_path(&bytes);
    assert_eq!(decoded.as_deref(), Some(path));
    assert!(is_panorama_path(decoded.as_deref().unwrap()));
}

#[test]
fn non_interface_broadcasts_are_ignored() {
    let bytes = broadcast(2, "ignored");
    assert_eq!(broadcast_path(&bytes), None);
    assert_eq!(broadcast_path(&[]), None);
}

#[test]
fn interrupt_flag_round_trips() {
    let mut flag = Interrupt::new();
    flag.clear_interrupt();
    assert!(!flag.interrupted());
    flag.interrupt();
    assert!(flag.interrupted());
    flag.clear_interrupt();
    assert!(!flag.interrupted());
}

#[test]
fn only_the_display_becomes_an_event() {
    let path = r"\\?\usb#vid_391a&pid_1021#one";
    let ours = broadcast(DBT_DEVTYP_DEVICEINTERFACE, path);
    let other = broadcast(DBT_DEVTYP_DEVICEINTERFACE, r"\\?\usb#vid_04b8&pid_0005#printer");
    let react = window_procedure;
    assert_eq!(
        react(WM_DEVICECHANGE, DBT_DEVICEARRIVAL, &ours),
        Reaction::Send(Event::Arrived(path.to_string()))
    );
    assert_eq!(
        react(WM_DEVICECHANGE, DBT_DEVICEREMOVECOMPLETE, &ours),
        Reaction::Send(Event::Removed(path.to_string()))
    );
    assert_eq!(react(WM_DEVICECHANGE, DBT_DEVICEARRIVAL, &other), Reaction::Answer(1));
    assert_eq!(react(WM_DEVICECHANGE, 7, &ours), Reaction::Answer(1));
    assert_eq!(react(WM_STOP_WATCH, 0, &[]), Reaction::Quit);
    assert_eq!(react(WM_CLOSE, 0, &[]), Reaction::Quit);
    assert_eq!(react(WM_QUERYENDSESSION, 0, &[]), Reaction::Answer(1));
    assert_eq!(react(WM_ENDSESSION, 0, &[]), Reaction::Answer(0));
    assert_eq!(react(WM_ENDSESSION, 1, &[]), Reaction::Quit);
    assert_eq!(react(WM_DESTROY, 0, &[]), Reaction::Answer(0));
    assert_eq!(react(0x1234, 0, &[]), Reaction::Default);
}

/// Runs a message loop on scripted answers.
fn pumped(events: &[PumpEvent]) -> (Vec<PumpAction>, Pump) {
    let (first, mut pump) = Pump::start();
    let mut actions = vec![first];
    for &event in events {
        actions.push(pump.next(event));
    }
    (actions, pump)
}

#[test]
fn a_message_loop_quits_and_cleans_up() {
    let (actions, pump) = pumped(&[
        PumpEvent::Registered(false, 1410),
        PumpEvent::Created(true, 0),
        PumpEvent::Subscribed(true, 0),
        PumpEvent::Message(1),
        PumpEvent::Done,
        PumpEvent::Message(0),
        PumpEvent::Done,
        PumpEvent::Done,
        PumpEvent::Done,
    ]);
    assert_eq!(
        actions,
        [
            PumpAction::RegisterClass,
            PumpAction::CreateWindow,
            PumpAction::Subscribe,
            PumpAction::GetMessage,
            PumpAction::Dispatch,
            PumpAction::GetMessage,
            PumpAction::Unsubscribe,
            PumpAction::DestroyWindow,
            PumpAction::SendQuit,
            PumpAction::Finish(Ok(())),
        ]
    );
    assert_eq!(pump, Pump::Over);
}

#[test]
fn a_message_loop_that_cannot_start_says_which_call_failed() {
    let failed = |call, code| PumpAction::Finish(Err(WinError { call, code }));
    let (actions, pump) = pumped(&[PumpEvent::Registered(false, 5), PumpEvent::Done]);
    assert_eq!(actions[1..], [PumpAction::SendQuit, failed("RegisterClassW", 5)]);
    assert_eq!(pump, Pump::Over);
    let (actions, _) = pumped(&[
        PumpEvent::Registered(true, 0),
        PumpEvent::Created(false, 6),
        PumpEvent::Done,
    ]);
    assert_eq!(actions[2..], [PumpAction::SendQuit, failed("CreateWindowExW", 6)]);
    let (actions, _) = pumped(&[
        PumpEvent::Registered(true, 0),
        PumpEvent::Created(true, 0),
        PumpEvent::Subscribed(false, 7),
        PumpEvent::Done,
        PumpEvent::Done,
    ]);
    assert_eq!(
        actions[3..],
        [
            PumpAction::DestroyWindow,
            PumpAction::SendQuit,
            failed("RegisterDeviceNotificationW", 7),
        ]
    );
}
