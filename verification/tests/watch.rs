//! Modes, states, and reconnect delays.

use ezrama::time::as_millis;
use ezrama::watch::{Control, Directive, Event, Reconnect, State, RECONNECT_INITIAL};

#[test]
fn reconnect_delays_double_and_cap() {
    let mut reconnect = Reconnect::new();
    let delays: Vec<u64> = (0..7).map(|_| as_millis(reconnect.next_delay()) as u64).collect();
    assert_eq!(delays, [3000, 6000, 12_000, 24_000, 30_000, 30_000, 30_000]);
    assert_eq!(reconnect.attempts(), 7);
    reconnect.reset();
    assert_eq!(reconnect.attempts(), 0);
    assert_eq!(reconnect.next_delay(), RECONNECT_INITIAL);
}

#[test]
fn control_tracks_pause_and_resume() {
    let mut control = Control::new();
    assert!(!control.paused());
    assert_eq!(control.apply(&Event::Arrived("a".into())), Directive::Continue);
    assert!(!control.paused());
    assert_eq!(control.apply(&Event::Pause), Directive::Continue);
    assert!(control.paused());
    assert_eq!(control.paused_state(), State::Paused);
    assert_eq!(control.apply(&Event::Removed("a".into())), Directive::Continue);
    assert!(control.paused());
    assert_eq!(control.apply(&Event::Pause), Directive::Continue);
    assert!(control.paused());
    assert_eq!(control.apply(&Event::Resume), Directive::Continue);
    assert!(!control.paused());
    assert_eq!(control.apply(&Event::Quit), Directive::Quit);
}

#[test]
fn a_launch_pauses_once_and_resumes_when_kanali_closes() {
    let mut control = Control::new();
    assert!(!control.take_launch());
    assert_eq!(control.apply(&Event::OpenKanali), Directive::Continue);
    assert!(control.paused());
    assert!(control.waiting_for_kanali());
    assert_eq!(control.paused_state(), State::WaitingForKanali);
    assert!(control.take_launch());
    assert!(!control.take_launch());
    assert_eq!(control.apply(&Event::KanaliClosed), Directive::Continue);
    assert!(!control.paused());
    assert!(!control.waiting_for_kanali());
}

#[test]
fn a_manual_pause_or_resume_outlives_the_launch() {
    let mut control = Control::new();
    control.apply(&Event::OpenKanali);
    control.apply(&Event::Pause);
    assert!(control.paused());
    assert!(!control.waiting_for_kanali());
    assert!(!control.take_launch());
    control.apply(&Event::KanaliClosed);
    assert!(control.paused(), "a manual pause is not ended by KANALI closing");

    let mut control = Control::new();
    control.apply(&Event::OpenKanali);
    control.take_launch();
    control.apply(&Event::Resume);
    assert!(!control.paused());
    control.apply(&Event::KanaliClosed);
    assert!(!control.paused());

    let mut control = Control::new();
    control.apply(&Event::KanaliClosed);
    assert!(!control.paused(), "a stray close changes nothing");
}

#[test]
fn states_round_trip_through_their_codes_and_have_labels() {
    for code in 0..=6u8 {
        let state = State::from_code(code).unwrap();
        assert_eq!(state as u8, code);
        assert!(!state.label().is_empty());
    }
    assert_eq!(State::from_code(7), None);
    assert!(State::Paused.released());
    assert!(State::WaitingForKanali.released());
    assert!(!State::Active.released());
    assert_eq!(State::WaitingForKanali.label(), "Waiting for KANALI");
}

#[test]
fn codes_and_discriminants_agree() {
    for code in 0..=6u8 {
        assert_eq!(State::from_code(code).unwrap().code(), code);
    }
}

#[test]
fn notices_change_no_mode() {
    let mut control = Control::new();
    control.apply(&Event::OpenKanali);
    let before = control.clone();
    control.apply(&Event::StartupSet { enabled: true, result: Ok(true) });
    control.apply(&Event::Arrived("a".into()));
    control.apply(&Event::Removed("a".into()));
    assert_eq!(control, before);
}

#[test]
fn a_shorter_unit_scales_every_delay() {
    let mut reconnect = Reconnect::with_unit(10);
    let delays: Vec<u128> = (0..6).map(|_| reconnect.next_delay()).collect();
    assert_eq!(delays, [10, 20, 40, 80, 100, 100]);
}
