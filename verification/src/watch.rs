//! Policy for the resident watcher: what the events mean, what state it
//! reports, and how long to wait before trying again after a lost session.

use vstd::prelude::*;

use crate::time::{self, Duration};

verus! {

/// First pause before retrying a session start after a loss.
pub const RECONNECT_INITIAL: Duration = 3_000_000_000;

/// Longest pause between session start attempts.
pub const RECONNECT_MAX: Duration = 30_000_000_000;

/// A change in the display's presence, or a control request.
#[derive(Debug, PartialEq, Eq)]
pub enum Event {
    /// The display's printer interface appeared at this path.
    Arrived(String),
    /// The display's printer interface at this path went away.
    Removed(String),
    /// Release the display and stay idle until resumed.
    Pause,
    /// Take the display back after a pause.
    Resume,
    /// Release the display, start KANALI, and take the display back once
    /// KANALI has exited.
    OpenKanali,
    /// The KANALI started on request has exited.
    KanaliClosed,
    /// Starting with Windows was turned on or off; whether that changed
    /// anything, or why it could not be done.
    StartupSet { enabled: bool, result: Result<bool, String> },
    /// The watcher should release the display and exit.
    Quit,
}

impl Clone for Event {
    fn clone(&self) -> (copy: Self)
        ensures
            copy == *self,
    {
        match self {
            Event::Arrived(path) => Event::Arrived(path.clone()),
            Event::Removed(path) => Event::Removed(path.clone()),
            Event::Pause => Event::Pause,
            Event::Resume => Event::Resume,
            Event::OpenKanali => Event::OpenKanali,
            Event::KanaliClosed => Event::KanaliClosed,
            Event::StartupSet { enabled, result } => Event::StartupSet {
                enabled: *enabled,
                result: match result {
                    Ok(changed) => Ok(*changed),
                    Err(reason) => Err(reason.clone()),
                },
            },
            Event::Quit => Event::Quit,
        }
    }
}

/// What the supervisor should do after handling an event.
#[derive(Debug, Clone, Copy, PartialEq, Eq, Structural)]
pub enum Directive {
    /// Carry on with the current mode.
    Continue,
    /// Release everything and exit.
    Quit,
}

/// What the watcher is doing, as shown to the user.
#[derive(Debug, Clone, Copy, PartialEq, Eq, Structural)]
pub enum State {
    /// Not yet looked for the display.
    Starting,
    /// A session is up and the display shows its media.
    Active,
    /// The display is present and a session is being started.
    Connecting,
    /// Released on request; idle until resumed.
    Paused,
    /// Released while a KANALI started on request runs.
    WaitingForKanali,
    /// No display, or more than one, is present.
    NoDisplay,
    /// Releasing everything before exit.
    Quitting,
}

/// The number of a state.
pub open spec fn state_code(state: State) -> u8 {
    match state {
        State::Starting => 0,
        State::Active => 1,
        State::Connecting => 2,
        State::Paused => 3,
        State::WaitingForKanali => 4,
        State::NoDisplay => 5,
        State::Quitting => 6,
    }
}

/// The wording of a state.
pub open spec fn state_label(state: State) -> Seq<char> {
    match state {
        State::Starting => "Starting"@,
        State::Active => "Active"@,
        State::Connecting => "Connecting"@,
        State::Paused => "Paused"@,
        State::WaitingForKanali => "Waiting for KANALI"@,
        State::NoDisplay => "No display found"@,
        State::Quitting => "Quitting"@,
    }
}

impl State {
    /// The wording shown in the menu and the tooltip.
    pub fn label(self) -> (label: &'static str)
        ensures
            label@ == state_label(self),
    {
        match self {
            State::Starting => "Starting",
            State::Active => "Active",
            State::Connecting => "Connecting",
            State::Paused => "Paused",
            State::WaitingForKanali => "Waiting for KANALI",
            State::NoDisplay => "No display found",
            State::Quitting => "Quitting",
        }
    }

    /// Whether the display has been released on request.
    pub fn released(self) -> (released: bool)
        ensures
            released == (self is Paused || self is WaitingForKanali),
    {
        match self {
            State::Paused => true,
            State::WaitingForKanali => true,
            _ => false,
        }
    }

    /// The state's number.
    pub fn code(self) -> (code: u8)
        ensures
            code == state_code(self),
    {
        match self {
            State::Starting => 0,
            State::Active => 1,
            State::Connecting => 2,
            State::Paused => 3,
            State::WaitingForKanali => 4,
            State::NoDisplay => 5,
            State::Quitting => 6,
        }
    }

    /// The state with this number.
    pub fn from_code(code: u8) -> (state: Option<State>)
        ensures
            match state {
                Some(state) => state_code(state) == code,
                None => code > 6,
            },
    {
        match code {
            0 => Some(State::Starting),
            1 => Some(State::Active),
            2 => Some(State::Connecting),
            3 => Some(State::Paused),
            4 => Some(State::WaitingForKanali),
            5 => Some(State::NoDisplay),
            6 => Some(State::Quitting),
            _ => None,
        }
    }
}

/// The watcher's control state: whether it may hold the display, and
/// whether a KANALI launch is owed.
#[derive(Debug, Clone, Copy, PartialEq, Eq, Structural)]
pub struct Control {
    pub paused: bool,
    pub launched: bool,
    pub launch_pending: bool,
}

/// The control state a watcher starts with: holding, no launch.
pub open spec fn initial_control() -> Control {
    Control { paused: false, launched: false, launch_pending: false }
}

/// The control state after an event.
pub open spec fn control_after(control: Control, event: Event) -> Control {
    match event {
        Event::Pause => Control { paused: true, launched: false, launch_pending: false },
        Event::Resume => Control { paused: false, launched: false, launch_pending: false },
        Event::OpenKanali => Control { paused: true, launched: true, launch_pending: true },
        Event::KanaliClosed => Control {
            paused: control.paused && !control.launched,
            launched: false,
            launch_pending: false,
        },
        _ => control,
    }
}

/// Whether an event ends the watch.
pub open spec fn directive_for(event: Event) -> Directive {
    if event is Quit {
        Directive::Quit
    } else {
        Directive::Continue
    }
}

/// The state to report while paused.
pub open spec fn state_when_paused(control: Control) -> State {
    if control.launched {
        State::WaitingForKanali
    } else {
        State::Paused
    }
}

impl Default for Control {
    fn default() -> (control: Self)
        ensures
            control == initial_control(),
    {
        Control { paused: false, launched: false, launch_pending: false }
    }
}

impl Control {
    /// The control state a watcher starts with.
    pub fn new() -> (control: Self)
        ensures
            control == initial_control(),
    {
        Control { paused: false, launched: false, launch_pending: false }
    }

    /// Whether the watcher has been asked to leave the display alone.
    pub fn paused(&self) -> (paused: bool)
        ensures
            paused == self.paused,
    {
        self.paused
    }

    /// Whether the pause is on behalf of a KANALI started on request.
    pub fn waiting_for_kanali(&self) -> (waiting: bool)
        ensures
            waiting == self.launched,
    {
        self.launched
    }

    /// The state to report while paused.
    pub fn paused_state(&self) -> (state: State)
        ensures
            state == state_when_paused(*self),
    {
        if self.launched {
            State::WaitingForKanali
        } else {
            State::Paused
        }
    }

    /// Whether KANALI should be started now; asks once per request.
    pub fn take_launch(&mut self) -> (launch: bool)
        ensures
            launch == old(self).launch_pending,
            *final(self) == (Control { launch_pending: false, ..*old(self) }),
    {
        let launch = self.launch_pending;
        self.launch_pending = false;
        launch
    }

    /// Applies one event and says whether to keep going.
    pub fn apply(&mut self, event: &Event) -> (directive: Directive)
        ensures
            *final(self) == control_after(*old(self), *event),
            directive == directive_for(*event),
    {
        match event {
            Event::Pause => {
                self.paused = true;
                self.launched = false;
                self.launch_pending = false;
            },
            Event::Resume => {
                self.paused = false;
                self.launched = false;
                self.launch_pending = false;
            },
            Event::OpenKanali => {
                self.paused = true;
                self.launched = true;
                self.launch_pending = true;
            },
            Event::KanaliClosed => {
                if self.launched {
                    self.paused = false;
                    self.launched = false;
                }
                self.launch_pending = false;
            },
            Event::Quit => return Directive::Quit,
            Event::Arrived(_) | Event::Removed(_) | Event::StartupSet { .. } => {},
        }
        Directive::Continue
    }
}

/// Grows the pause between session start attempts while the display stays
/// present but the session keeps failing.
#[derive(Debug, Clone, Copy, PartialEq, Eq, Structural)]
pub struct Reconnect {
    /// Attempts made since the last reset.
    pub attempt: u32,
    /// The first pause.
    pub unit: Duration,
}

/// How many units the pause after `attempt` attempts lasts: 1, 2, 4, 8, then
/// 10.
pub open spec fn reconnect_units(attempt: u32) -> int {
    if attempt == 0 {
        1
    } else if attempt == 1 {
        2
    } else if attempt == 2 {
        4
    } else if attempt == 3 {
        8
    } else {
        10
    }
}

impl Default for Reconnect {
    fn default() -> (reconnect: Self)
        ensures
            reconnect == (Reconnect { attempt: 0, unit: RECONNECT_INITIAL }),
    {
        Reconnect { attempt: 0, unit: RECONNECT_INITIAL }
    }
}

impl Reconnect {
    /// A schedule that starts with [`RECONNECT_INITIAL`].
    pub fn new() -> (reconnect: Self)
        ensures
            reconnect == (Reconnect { attempt: 0, unit: RECONNECT_INITIAL }),
    {
        Reconnect { attempt: 0, unit: RECONNECT_INITIAL }
    }

    /// A schedule that starts with `unit` and stops growing at ten times that.
    pub fn with_unit(unit: Duration) -> (reconnect: Self)
        ensures
            reconnect == (Reconnect { attempt: 0, unit }),
    {
        Reconnect { attempt: 0, unit }
    }

    /// The pause before the next attempt: 3, 6, 12, 24, then 30 s.
    pub fn next_delay(&mut self) -> (delay: Duration)
        ensures
            delay == time::scaled(old(self).unit as int, reconnect_units(old(self).attempt)),
            final(self).unit == old(self).unit,
            final(self).attempt == if old(self).attempt == u32::MAX {
                u32::MAX
            } else {
                (old(self).attempt + 1) as u32
            },
    {
        let units: u32 = match self.attempt {
            0 => 1,
            1 => 2,
            2 => 4,
            3 => 8,
            _ => 10,
        };
        self.attempt = self.attempt.saturating_add(1);
        time::scale(self.unit, units)
    }

    /// Attempts made since the last reset.
    pub fn attempts(&self) -> (attempts: u32)
        ensures
            attempts == self.attempt,
    {
        self.attempt
    }

    /// Forgets the failures after a session has been established.
    pub fn reset(&mut self)
        ensures
            *final(self) == (Reconnect { attempt: 0, ..*old(self) }),
    {
        self.attempt = 0;
    }
}

// ---------------------------------------------------------------------------
// Laws.
// ---------------------------------------------------------------------------

/// A state's number identifies it.
pub proof fn state_codes_are_distinct(a: State, b: State)
    ensures
        state_code(a) <= 6,
        state_code(a) == state_code(b) ==> a == b,
{
}

/// A launch is owed only while the watcher is paused for it; events keep that
/// so.
pub proof fn launches_are_owed_only_while_paused(control: Control, event: Event)
    requires
        control.launch_pending ==> control.launched,
        control.launched ==> control.paused,
    ensures
        ({
            let after = control_after(control, event);
            &&& after.launch_pending ==> after.launched
            &&& after.launched ==> after.paused
        }),
{
}

/// A manual pause is not ended by KANALI closing, and neither is a resume
/// undone by it; a pause made for KANALI is ended by it.
pub proof fn manual_pause_outlives_the_close(control: Control)
    ensures
        control_after(control_after(control, Event::Pause), Event::KanaliClosed).paused,
        !control_after(control_after(control, Event::Resume), Event::KanaliClosed).paused,
        !control_after(control_after(control, Event::OpenKanali), Event::KanaliClosed).paused,
        control_after(initial_control(), Event::KanaliClosed) == initial_control(),
{
}

/// Presence changes and startup changes alter no mode.
pub proof fn notices_change_no_mode(control: Control, event: Event)
    requires
        event is Arrived || event is Removed || event is StartupSet,
    ensures
        control_after(control, event) == control,
        directive_for(event) == Directive::Continue,
{
}

/// The pauses double from three seconds and stop growing at thirty; a reset
/// starts them afresh.
pub proof fn reconnect_delays_double_and_cap(attempt: u32)
    ensures
        time::scaled(RECONNECT_INITIAL as int, reconnect_units(attempt)) <= RECONNECT_MAX,
        time::scaled(RECONNECT_INITIAL as int, reconnect_units(0)) == RECONNECT_INITIAL,
        attempt >= 4 ==> time::scaled(RECONNECT_INITIAL as int, reconnect_units(attempt))
            == RECONNECT_MAX,
        attempt < 3 ==> reconnect_units((attempt + 1) as u32) == 2 * reconnect_units(attempt),
{
}

/// A state's wording identifies it.
pub proof fn state_labels_are_distinct(a: State, b: State)
    ensures
        state_label(a) == state_label(b) ==> a == b,
{
    reveal_strlit("Starting");
    reveal_strlit("Active");
    reveal_strlit("Connecting");
    reveal_strlit("Paused");
    reveal_strlit("Waiting for KANALI");
    reveal_strlit("No display found");
    reveal_strlit("Quitting");
    assert("Starting"@[0] == 'S' && "Active"@[0] == 'A' && "Connecting"@[0] == 'C' && "Paused"@[0]
        == 'P' && "Waiting for KANALI"@[0] == 'W' && "No display found"@[0] == 'N' && "Quitting"@[0]
        == 'Q');
}

/// Each state is shown by its own words and told by its own number.
pub proof fn states_are_shown_as_they_are(state: State)
    ensures
        state is Starting <==> state_label(state) == "Starting"@,
        state is Active <==> state_label(state) == "Active"@,
        state is Connecting <==> state_label(state) == "Connecting"@,
        state is Paused <==> state_label(state) == "Paused"@,
        state is WaitingForKanali <==> state_label(state) == "Waiting for KANALI"@,
        state is NoDisplay <==> state_label(state) == "No display found"@,
        state is Quitting <==> state_label(state) == "Quitting"@,
{
    state_labels_are_distinct(state, State::Starting);
    state_labels_are_distinct(state, State::Active);
    state_labels_are_distinct(state, State::Connecting);
    state_labels_are_distinct(state, State::Paused);
    state_labels_are_distinct(state, State::WaitingForKanali);
    state_labels_are_distinct(state, State::NoDisplay);
    state_labels_are_distinct(state, State::Quitting);
}

/// A request takes effect whatever came before it: a pause pauses without
/// KANALI, a resume ends any pause, and a request for KANALI pauses for it and
/// owes one launch. Without any, the watcher is not paused.
pub proof fn requests_take_effect(control: Control)
    ensures
        control_after(control, Event::Pause).paused,
        state_when_paused(control_after(control, Event::Pause)) is Paused,
        !control_after(control, Event::Pause).launch_pending,
        !control_after(control, Event::Resume).paused,
        !control_after(control, Event::Resume).launch_pending,
        control_after(control, Event::OpenKanali).paused,
        control_after(control, Event::OpenKanali).launch_pending,
        state_when_paused(control_after(control, Event::OpenKanali)) is WaitingForKanali,
        !control_after(control, Event::KanaliClosed).launch_pending,
        control_after(control, Event::KanaliClosed).paused ==> control.paused && !control.launched,
        control.paused && !control.launched ==> control_after(control, Event::KanaliClosed).paused,
        directive_for(Event::Quit) is Quit,
        !initial_control().paused && !initial_control().launched
            && !initial_control().launch_pending,
{
}

} // verus!
