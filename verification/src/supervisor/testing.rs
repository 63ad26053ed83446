//! A scripted machine for the supervisor.

use std::collections::VecDeque;

use vstd::prelude::*;

use crate::log::Logger;
use crate::supervisor::{Backend, Call, Hold, Panel, StartError};
use crate::text;
use crate::time::{self, Duration};
use crate::watch::{Event, State};

verus! {

/// A scripted machine. Each queue answers the calls of one kind in order;
/// `on_report` queues events each time a state is reported, which is how a
/// test drives the supervisor along.
pub struct ScriptedBackend {
    /// The answers to looks for the display; absent when there are none left.
    pub panels: VecDeque<Result<Panel, String>>,
    /// The outcomes of session starts; interrupted when there are none left.
    pub starts: VecDeque<Result<(), StartError>>,
    /// The ends of held sessions; stopped when there are none left.
    pub holds: VecDeque<Hold>,
    /// Whether launches succeed; not when there are none left.
    pub launches: VecDeque<bool>,
    /// The events that each reported state brings.
    pub on_report: VecDeque<Vec<Event>>,
    /// The events that have been brought and not yet taken.
    pub queued: VecDeque<Event>,
    /// Whether a stop is asked for.
    pub stop: bool,
    /// The states that were reported.
    pub states: Vec<State>,
    /// The calls that touch the display or KANALI, in words.
    pub asked: Vec<String>,
    /// The release flags that were set.
    pub released: Vec<bool>,
    /// Every call made so far.
    pub calls: Ghost<Seq<Call>>,
}

impl ScriptedBackend {
    /// A machine with nothing scripted.
    pub fn new() -> (backend: Self)
        ensures
            backend.panels@.len() == 0,
            backend.starts@.len() == 0,
            backend.holds@.len() == 0,
            backend.launches@.len() == 0,
            backend.on_report@.len() == 0,
            backend.queued@.len() == 0,
            !backend.stop,
            backend.states@.len() == 0,
            backend.asked@.len() == 0,
            backend.released@.len() == 0,
            backend.calls() == Seq::<Call>::empty(),
    {
        ScriptedBackend {
            panels: VecDeque::new(),
            starts: VecDeque::new(),
            holds: VecDeque::new(),
            launches: VecDeque::new(),
            on_report: VecDeque::new(),
            queued: VecDeque::new(),
            stop: false,
            states: Vec::new(),
            asked: Vec::new(),
            released: Vec::new(),
            calls: Ghost(Seq::empty()),
        }
    }
}

impl Backend for ScriptedBackend {
    open spec fn calls(&self) -> Seq<Call> {
        self.calls@
    }

    fn stop_requested(&mut self) -> (stop: bool)
        ensures
            stop == old(self).stop,
    {
        proof {
            self.calls@ = self.calls@.push(Call::StopRequested { stop: self.stop });
        }
        self.stop
    }

    fn clear_interrupt(&mut self) {
        proof {
            self.calls@ = self.calls@.push(Call::ClearInterrupt);
        }
    }

    fn set_released(&mut self, released: bool)
        ensures
            final(self).released@ == old(self).released@.push(released),
    {
        self.released.push(released);
        proof {
            self.calls@ = self.calls@.push(Call::SetReleased { released });
        }
    }

    fn report(&mut self, state: State)
        ensures
            final(self).states@ == old(self).states@.push(state),
            final(self).queued@ == if old(self).on_report@.len() == 0 {
                old(self).queued@
            } else {
                old(self).queued@ + old(self).on_report@[0]@
            },
    {
        self.states.push(state);
        if let Some(events) = self.on_report.pop_front() {
            let ghost start = self.queued@;
            let mut i: usize = 0;
            while i < events.len()
                invariant
                    i <= events@.len(),
                    self.queued@ == start + events@.take(i as int),
                    self.states@ == old(self).states@.push(state),
                    self.calls@ == old(self).calls@,
                decreases events@.len() - i,
            {
                self.queued.push_back(events[i].clone());
                i = i + 1;
                assert(events@.take(i as int) == events@.take(i - 1).push(events@[i - 1]));
            }
            assert(events@.take(i as int) == events@);
        }
        proof {
            self.calls@ = self.calls@.push(Call::Report { state });
        }
    }

    fn find_panel(&mut self) -> (found: Result<Panel, String>)
        ensures
            old(self).panels@.len() > 0 ==> found == old(self).panels@[0],
            old(self).panels@.len() == 0 ==> found == Ok::<Panel, String>(Panel::Absent),
    {
        self.asked.push("find".to_owned());
        let found = match self.panels.pop_front() {
            Some(found) => found,
            None => Ok(Panel::Absent),
        };
        proof {
            self.calls@ = self.calls@.push(Call::FindPanel { found });
        }
        found
    }

    fn start_session(&mut self, path: &str, log: &mut Logger) -> (outcome: Result<(), StartError>)
        ensures
            old(self).starts@.len() > 0 ==> outcome == old(self).starts@[0],
            old(self).starts@.len() == 0 ==> outcome == Err::<(), StartError>(
                StartError::Interrupted,
            ),
    {
        self.asked.push(text::join("start ", path));
        let outcome = match self.starts.pop_front() {
            Some(outcome) => outcome,
            None => Err(StartError::Interrupted),
        };
        proof {
            self.calls@ =
            self.calls@.push(Call::StartSession { path: path@, outcome, given: old(log)@, log: log@ });
        }
        outcome
    }

    fn hold_session(&mut self, interval: Duration, verbose: bool, log: &mut Logger) -> (hold: Hold)
        ensures
            old(self).holds@.len() > 0 ==> hold == old(self).holds@[0],
            old(self).holds@.len() == 0 ==> hold == (Hold::Stopped { pings: 0 }),
    {
        self.asked.push(text::join("hold ", text::number(time::as_millis(interval)).as_str()));
        let hold = match self.holds.pop_front() {
            Some(hold) => hold,
            None => Hold::Stopped { pings: 0 },
        };
        proof {
            self.calls@ =
            self.calls@.push(Call::HoldSession { interval, verbose, hold, given: old(log)@, log: log@ });
        }
        hold
    }

    fn start_kanali(&mut self, log: &mut Logger) -> (started: bool)
        ensures
            old(self).launches@.len() > 0 ==> started == old(self).launches@[0],
            old(self).launches@.len() == 0 ==> !started,
    {
        self.asked.push("launch".to_owned());
        let started = match self.launches.pop_front() {
            Some(started) => started,
            None => false,
        };
        proof {
            self.calls@ = self.calls@.push(Call::StartKanali { started, given: old(log)@, log: log@ });
        }
        started
    }
}

} // verus!
