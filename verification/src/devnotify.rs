//! Device arrival and removal notifications: what a window message about a
//! device says, how the window answers, and the flag by which a blocking
//! holding loop notices that an event has arrived.

use vstd::prelude::*;

use crate::pb;
use crate::usbprint;
use crate::usbprint::WinError;
use crate::utf16;
use crate::watch::Event;
use crate::win::{
    DBT_DEVICEARRIVAL, DBT_DEVICEREMOVECOMPLETE, DBT_DEVTYP_DEVICEINTERFACE,
    ERROR_CLASS_ALREADY_EXISTS, WM_CLOSE, WM_DESTROY, WM_DEVICECHANGE, WM_ENDSESSION,
    WM_QUERYENDSESSION,
};

verus! {

/// Private message that asks the loop to quit.
pub const WM_STOP_WATCH: u32 = 0x8001;

/// Where the interface path starts in a device-interface broadcast.
pub const BROADCAST_NAME_OFFSET: usize = 28;

/// Whether an event has arrived that has not been handled yet.
#[derive(Debug, Clone, Copy, PartialEq, Eq)]
pub struct Interrupt {
    pub raised: bool,
}

impl Interrupt {
    pub fn new() -> (flag: Self)
        ensures
            !flag.raised,
    {
        Interrupt { raised: false }
    }

    /// Whether an event has arrived since the flag was last cleared.
    pub fn interrupted(&self) -> (raised: bool)
        ensures
            raised == self.raised,
    {
        self.raised
    }

    /// Clears the flag once the pending events have been handled.
    pub fn clear_interrupt(&mut self)
        ensures
            !final(self).raised,
    {
        self.raised = false;
    }

    /// Raises the flag without an event, for a stop from elsewhere.
    pub fn interrupt(&mut self)
        ensures
            final(self).raised,
    {
        self.raised = true;
    }
}

/// The interface path in a broadcast, if it is about a device interface.
pub open spec fn broadcast_name(bytes: Seq<u8>) -> Option<Seq<char>> {
    if bytes.len() < BROADCAST_NAME_OFFSET || pb::le32(bytes.skip(4))
        != DBT_DEVTYP_DEVICEINTERFACE {
        None
    } else {
        Some(
            utf16::utf16_text(utf16::units_until_nul(bytes.skip(BROADCAST_NAME_OFFSET as int))),
        )
    }
}

/// Reads the NUL-terminated interface path from a device-interface
/// broadcast: the structure's bytes, its type in the second word.
pub fn broadcast_path(bytes: &[u8]) -> (path: Option<String>)
    ensures
        match path {
            Some(path) => broadcast_name(bytes@) == Some(path@),
            None => broadcast_name(bytes@) is None,
        },
{
    if bytes.len() < BROADCAST_NAME_OFFSET {
        return None;
    }
    let kind: u32 = bytes[4] as u32 + bytes[5] as u32 * 0x100 + bytes[6] as u32 * 0x1_0000
        + bytes[7] as u32 * 0x100_0000;
    assert(kind == pb::le32(bytes@.skip(4)));
    if kind != DBT_DEVTYP_DEVICEINTERFACE {
        return None;
    }
    Some(utf16::decode(utf16::read_units(bytes, BROADCAST_NAME_OFFSET).as_slice()))
}

/// How the window answers a message.
#[derive(Debug, PartialEq, Eq)]
pub enum Reaction {
    /// Send the event, raise the interrupt flag, and answer 1.
    Send(Event),
    /// Answer this and do nothing else.
    Answer(isize),
    /// Leave the message loop and answer 0.
    Quit,
    /// Leave the message to the system.
    Default,
}

/// Whether `reaction` is how the window answers a message; `broadcast` is the
/// structure that came with it.
pub open spec fn reacts(message: u32, wparam: usize, broadcast: Seq<u8>, reaction: Reaction) -> bool {
    if message == WM_DEVICECHANGE {
        let name = broadcast_name(broadcast);
        let ours = name is Some && usbprint::is_panorama(name->Some_0);
        if wparam == DBT_DEVICEARRIVAL && ours {
            reaction matches Reaction::Send(Event::Arrived(path)) && path@ == name->Some_0
        } else if wparam == DBT_DEVICEREMOVECOMPLETE && ours {
            reaction matches Reaction::Send(Event::Removed(path)) && path@ == name->Some_0
        } else {
            reaction == Reaction::Answer(1)
        }
    } else if message == WM_STOP_WATCH || message == WM_CLOSE {
        reaction == Reaction::Quit
    } else if message == WM_QUERYENDSESSION {
        reaction == Reaction::Answer(1)
    } else if message == WM_ENDSESSION {
        reaction == if wparam != 0 {
            Reaction::Quit
        } else {
            Reaction::Answer(0)
        }
    } else if message == WM_DESTROY {
        reaction == Reaction::Answer(0)
    } else {
        reaction == Reaction::Default
    }
}

/// How the window answers a message. Arrivals and removals of the display's
/// printer interface become events; those of other devices are only
/// acknowledged.
pub fn window_procedure(message: u32, wparam: usize, broadcast: &[u8]) -> (reaction: Reaction)
    ensures
        reacts(message, wparam, broadcast@, reaction),
{
    if message == WM_DEVICECHANGE {
        if wparam == DBT_DEVICEARRIVAL || wparam == DBT_DEVICEREMOVECOMPLETE {
            match broadcast_path(broadcast) {
                Some(path) => {
                    if usbprint::is_panorama_path(path.as_str()) {
                        if wparam == DBT_DEVICEARRIVAL {
                            return Reaction::Send(Event::Arrived(path));
                        }
                        return Reaction::Send(Event::Removed(path));
                    }
                },
                None => {},
            }
        }
        return Reaction::Answer(1);
    }
    if message == WM_STOP_WATCH || message == WM_CLOSE {
        return Reaction::Quit;
    }
    if message == WM_QUERYENDSESSION {
        return Reaction::Answer(1);
    }
    if message == WM_ENDSESSION {
        if wparam != 0 {
            return Reaction::Quit;
        }
        return Reaction::Answer(0);
    }
    if message == WM_DESTROY {
        return Reaction::Answer(0);
    }
    Reaction::Default
}

// ---------------------------------------------------------------------------
// The message loop.
// ---------------------------------------------------------------------------

/// What the message loop does next.
#[derive(Debug, Clone, Copy, PartialEq, Eq)]
pub enum PumpAction {
    /// Register the window class.
    RegisterClass,
    /// Create the window.
    CreateWindow,
    /// Register for notifications about printer interfaces.
    Subscribe,
    /// Wait for a message.
    GetMessage,
    /// Dispatch the message to the window.
    Dispatch,
    /// Unregister the notifications.
    Unsubscribe,
    /// Destroy the window.
    DestroyWindow,
    /// Send [`Event::Quit`].
    SendQuit,
    /// The loop is over.
    Finish(Result<(), WinError>),
}

/// How what was done last has ended: whether a call succeeded, and the error
/// code if it did not.
#[derive(Debug, Clone, Copy, PartialEq, Eq)]
pub enum PumpEvent {
    Registered(bool, u32),
    Created(bool, u32),
    Subscribed(bool, u32),
    /// What waiting for a message came back with.
    Message(i32),
    /// What had no result to report was done.
    Done,
}

/// How far the message loop has come.
#[derive(Debug, Clone, Copy, PartialEq, Eq)]
pub enum Pump {
    Registering,
    Creating,
    Subscribing,
    Waiting,
    Dispatching,
    Unsubscribing,
    /// The window is being destroyed; the failure that ended the loop, if one
    /// did.
    Destroying(Option<WinError>),
    /// [`Event::Quit`] is being sent; the failure that ended the loop, if one
    /// did.
    Announcing(Option<WinError>),
    Over,
}

/// Whether an event is one that is waited for.
pub open spec fn pump_awaits(pump: Pump, event: PumpEvent) -> bool {
    match pump {
        Pump::Registering => event is Registered,
        Pump::Creating => event is Created,
        Pump::Subscribing => event is Subscribed,
        Pump::Waiting => event is Message,
        Pump::Over => false,
        _ => event is Done,
    }
}

/// What follows an event.
pub open spec fn pump_next(pump: Pump, event: PumpEvent) -> (PumpAction, Pump) {
    match event {
        PumpEvent::Registered(ok, code) => if ok || code == ERROR_CLASS_ALREADY_EXISTS {
            (PumpAction::CreateWindow, Pump::Creating)
        } else {
            (
                PumpAction::SendQuit,
                Pump::Announcing(Some(WinError { call: "RegisterClassW", code })),
            )
        },
        PumpEvent::Created(ok, code) => if ok {
            (PumpAction::Subscribe, Pump::Subscribing)
        } else {
            (
                PumpAction::SendQuit,
                Pump::Announcing(Some(WinError { call: "CreateWindowExW", code })),
            )
        },
        PumpEvent::Subscribed(ok, code) => if ok {
            (PumpAction::GetMessage, Pump::Waiting)
        } else {
            (
                PumpAction::DestroyWindow,
                Pump::Destroying(Some(WinError { call: "RegisterDeviceNotificationW", code })),
            )
        },
        PumpEvent::Message(result) => if result <= 0 {
            (PumpAction::Unsubscribe, Pump::Unsubscribing)
        } else {
            (PumpAction::Dispatch, Pump::Dispatching)
        },
        PumpEvent::Done => match pump {
            Pump::Dispatching => (PumpAction::GetMessage, Pump::Waiting),
            Pump::Unsubscribing => (PumpAction::DestroyWindow, Pump::Destroying(None)),
            Pump::Destroying(failure) => (PumpAction::SendQuit, Pump::Announcing(failure)),
            Pump::Announcing(Some(error)) => (PumpAction::Finish(Err(error)), Pump::Over),
            _ => (PumpAction::Finish(Ok(())), Pump::Over),
        },
    }
}

impl Pump {
    /// Starts the message loop. However it ends, it sends [`Event::Quit`] before
    /// it is over.
    pub fn start() -> (started: (PumpAction, Self))
        ensures
            started == (PumpAction::RegisterClass, Pump::Registering),
    {
        (PumpAction::RegisterClass, Pump::Registering)
    }

    /// What follows an event. A second loop in the same process finds the
    /// class already registered.
    pub fn next(&mut self, event: PumpEvent) -> (action: PumpAction)
        requires
            pump_awaits(*old(self), event),
        ensures
            (action, *final(self)) == pump_next(*old(self), event),
    {
        match event {
            PumpEvent::Registered(ok, code) => {
                if ok || code == ERROR_CLASS_ALREADY_EXISTS {
                    *self = Pump::Creating;
                    PumpAction::CreateWindow
                } else {
                    *self = Pump::Announcing(Some(WinError { call: "RegisterClassW", code }));
                    PumpAction::SendQuit
                }
            },
            PumpEvent::Created(ok, code) => {
                if ok {
                    *self = Pump::Subscribing;
                    PumpAction::Subscribe
                } else {
                    *self = Pump::Announcing(Some(WinError { call: "CreateWindowExW", code }));
                    PumpAction::SendQuit
                }
            },
            PumpEvent::Subscribed(ok, code) => {
                if ok {
                    *self = Pump::Waiting;
                    PumpAction::GetMessage
                } else {
                    *self =
                    Pump::Destroying(
                        Some(WinError { call: "RegisterDeviceNotificationW", code }),
                    );
                    PumpAction::DestroyWindow
                }
            },
            PumpEvent::Message(result) => {
                if result <= 0 {
                    *self = Pump::Unsubscribing;
                    PumpAction::Unsubscribe
                } else {
                    *self = Pump::Dispatching;
                    PumpAction::Dispatch
                }
            },
            PumpEvent::Done => match *self {
                Pump::Dispatching => {
                    *self = Pump::Waiting;
                    PumpAction::GetMessage
                },
                Pump::Unsubscribing => {
                    *self = Pump::Destroying(None);
                    PumpAction::DestroyWindow
                },
                Pump::Destroying(failure) => {
                    *self = Pump::Announcing(failure);
                    PumpAction::SendQuit
                },
                Pump::Announcing(Some(error)) => {
                    *self = Pump::Over;
                    PumpAction::Finish(Err(error))
                },
                _ => {
                    *self = Pump::Over;
                    PumpAction::Finish(Ok(()))
                },
            },
        }
    }
}

// ---------------------------------------------------------------------------
// Laws.
// ---------------------------------------------------------------------------

/// An event is only ever sent for an interface path that names the display.
pub proof fn only_the_display_sends_events(
    message: u32,
    wparam: usize,
    broadcast: Seq<u8>,
    reaction: Reaction,
)
    requires
        reacts(message, wparam, broadcast, reaction),
        reaction is Send,
    ensures
        message == WM_DEVICECHANGE,
        match reaction->Send_0 {
            Event::Arrived(path) => wparam == DBT_DEVICEARRIVAL && usbprint::is_panorama(path@),
            Event::Removed(path) => wparam == DBT_DEVICEREMOVECOMPLETE && usbprint::is_panorama(
                path@,
            ),
            _ => false,
        },
{
}

/// Whether a window exists.
pub open spec fn has_window(pump: Pump) -> bool {
    !(pump is Registering || pump is Creating || pump is Announcing || pump is Over)
}

/// The loop never ends with its window still there, and it ends, well or not,
/// only after it has sent [`Event::Quit`].
pub proof fn loop_cleans_up_and_says_quit(pump: Pump, event: PumpEvent)
    requires
        pump_awaits(pump, event),
    ensures
        has_window(pump) && !has_window(pump_next(pump, event).1) ==> pump is Destroying,
        pump_next(pump, event).0 is Finish ==> pump is Announcing,
        pump_next(pump, event).0 is Finish <==> pump_next(pump, event).1 is Over,
        pump_next(pump, event).0 is SendQuit <==> pump_next(pump, event).1 is Announcing,
        pump_next(pump, event).0 == PumpAction::Finish(Ok::<(), WinError>(())) <==> pump
            == Pump::Announcing(None),
{
}

/// What a loop does in answer to `events`, from its start on, and how far it
/// comes.
pub open spec fn pump_run(events: Seq<PumpEvent>) -> (Seq<PumpAction>, Pump)
    decreases events.len(),
{
    if events.len() == 0 {
        (seq![PumpAction::RegisterClass], Pump::Registering)
    } else {
        let (actions, pump) = pump_run(events.drop_last());
        let (action, next) = pump_next(pump, events.last());
        (actions.push(action), next)
    }
}

/// Whether every event is one that the loop waits for when it comes.
pub open spec fn pump_accepts(events: Seq<PumpEvent>) -> bool
    decreases events.len(),
{
    events.len() == 0 || (pump_accepts(events.drop_last()) && pump_awaits(
        pump_run(events.drop_last()).1,
        events.last(),
    ))
}

/// However a loop ends, it has sent [`Event::Quit`] just before, once, and has
/// dispatched no message since.
pub proof fn quit_is_sent_last(events: Seq<PumpEvent>)
    requires
        pump_accepts(events),
    ensures
        ({
            let (actions, pump) = pump_run(events);
            let n = actions.len();
            &&& n == events.len() + 1
            &&& pump is Over ==> n >= 2 && actions[n - 1] is Finish && actions[n - 2] is SendQuit
                && forall|i: int| 0 <= i < n - 2 ==> !(#[trigger] actions[i] is SendQuit)
            &&& pump is Announcing ==> actions[n - 1] is SendQuit && forall|i: int|
                0 <= i < n - 1 ==> !(#[trigger] actions[i] is SendQuit)
            &&& !(pump is Over || pump is Announcing) ==> forall|i: int|
                0 <= i < n ==> !(#[trigger] actions[i] is SendQuit)
        }),
    decreases events.len(),
{
    if events.len() > 0 {
        quit_is_sent_last(events.drop_last());
        loop_cleans_up_and_says_quit(pump_run(events.drop_last()).1, events.last());
    }
}

/// Every arrival and every removal of the display becomes an event with its
/// path, and no other message about devices does.
pub proof fn the_display_always_sends_events(
    wparam: usize,
    broadcast: Seq<u8>,
    path: Seq<char>,
    reaction: Reaction,
)
    requires
        broadcast_name(broadcast) == Some(path),
        reacts(0x0219, wparam, broadcast, reaction),
    ensures
        usbprint::is_panorama(path) && wparam == 0x8000 <==> (reaction matches Reaction::Send(
            Event::Arrived(told),
        ) && told@ == path),
        usbprint::is_panorama(path) && wparam == 0x8004 <==> (reaction matches Reaction::Send(
            Event::Removed(told),
        ) && told@ == path),
        reaction is Send || reaction == Reaction::Answer(1),
{
}

/// The window leaves its loop exactly when it is asked to stop, when it is
/// closed, and when the user's session ends for good; it never stands in the way
/// of that, and leaves what it does not know to the system.
pub proof fn windows_quit_when_asked(
    message: u32,
    wparam: usize,
    broadcast: Seq<u8>,
    reaction: Reaction,
)
    requires
        reacts(message, wparam, broadcast, reaction),
    ensures
        reaction is Quit <==> message == 0x8001 || message == 0x0010 || (message == 0x0016 && wparam
            != 0),
        message == 0x0011 ==> reaction == Reaction::Answer(1),
        message == 0x0016 && wparam == 0 ==> reaction == Reaction::Answer(0),
        message == 0x0002 ==> reaction == Reaction::Answer(0),
        reaction is Default <==> message != 0x0219 && message != 0x8001 && message != 0x0010
            && message != 0x0011 && message != 0x0016 && message != 0x0002,
{
}

} // verus!
