//! The event loop of a device thread as a machine of steps.
//!
//! The thread performs one `RunAction` after another. After each it tells the
//! machine the `RunOutcome`, and gets the next action, until that is to return.

use vstd::prelude::*;
use crate::epoll_helper::ControlOperation;
use crate::epoll_helper::EpollEvent;
use crate::epoll_helper::EpollHelper;
use crate::epoll_helper::EpollHelperError;
use crate::epoll_helper::control_call;
use crate::epoll_helper::EpollControl;
use crate::epoll_helper::EPOLL_HELPER_EVENT_KILL;
use crate::epoll_helper::EPOLL_HELPER_EVENT_PAUSE;
use crate::errors::io_error_interrupted;
use crate::errors::is_interrupted;

verus! {

/// What the thread is to do next.
#[derive(Debug)]
pub enum RunAction {
    /// Read the flag that tells whether the device is paused.
    LoadPaused,
    /// Park the thread until it is woken.
    Park,
    /// Wait for events.
    Wait { timeout: i32 },
    /// Call the handler's `handle_timeout`.
    HandleTimeout,
    /// Call the handler's `event_list` with the events of this batch.
    EventList,
    /// Call the handler's `handle_event`.
    HandleEvent(EpollEvent),
    /// Call the handler's `quiesce_waits_for_epoll_events`.
    AskQuiesceWaits,
    /// Change the epoll set.
    Control(EpollControl),
    /// Call the handler's `quiesce`.
    Quiesce,
    /// Acknowledge the pause at the barrier that the pausing thread waits at.
    Acknowledge,
    /// Read the pause event, so that it is no longer active.
    DrainPause,
    /// Leave the loop.
    Return(Result<(), EpollHelperError>),
}

/// What came of an action.
#[derive(Debug)]
pub enum RunOutcome {
    /// The flag was read: whether the device is paused.
    Paused(bool),
    /// The thread was woken.
    Unparked,
    /// The wait gave these events, or failed.
    Waited(Result<Vec<EpollEvent>, std::io::Error>),
    /// The handler has handled a timeout, a list of events or an event.
    Handled(Result<(), EpollHelperError>),
    /// The handler answered whether its `quiesce` waits for events.
    QuiesceWaits(bool),
    /// The epoll set was changed, or could not be.
    Controlled(Result<(), std::io::Error>),
    /// The handler has quiesced, or failed to.
    Quiesced(Result<(), EpollHelperError>),
    /// The barrier was passed.
    Acknowledged,
    /// The pause event was read.
    Drained,
}

/// Which action the machine has asked for last.
#[derive(Clone, Copy, Debug, PartialEq, Eq, Structural)]
pub enum RunStage {
    /// Reading the paused flag before the first wait.
    EntryCheck,
    /// Parked before the first wait.
    EntryParked,
    /// Waiting for events.
    Waiting,
    /// The handler handles a timeout.
    Timeout,
    /// The handler looks at the list of events.
    Listing,
    /// The handler handles the current event.
    Handling,
    /// A pause was requested: asking the handler how it quiesces.
    Asking,
    /// Taking the pause event out of the set.
    Removing,
    /// The handler quiesces.
    Quiescing,
    /// At the barrier.
    Acknowledging,
    /// Reading the paused flag after the barrier.
    PausedCheck,
    /// Parked after the barrier.
    Parked,
    /// Reading the pause event.
    Draining,
    /// Putting the pause event back into the set.
    Rearming,
    /// The loop has ended.
    Finished,
}

/// What the machine knows.
pub struct RunView {
    /// The epoll set that is served.
    pub helper: EpollHelper,
    /// The timeout of every wait.
    pub timeout: i32,
    /// Whether the handler is shown the events of a wait as a list.
    pub enable_event_list: bool,
    /// Whether the loop ends when no event is active.
    pub until_idle: bool,
    /// What was asked for last.
    pub stage: RunStage,
    /// The events of the last wait that had any, while they are worked on.
    pub events: Seq<EpollEvent>,
    /// The current event.
    pub index: int,
    /// Whether the pause event is out of the set.
    pub pause_removed: bool,
}

impl RunView {
    /// Whether the machine is in order: where it is at work on an event, there is
    /// such an event.
    pub open spec fn wf(self) -> bool {
        &&& 0 <= self.index <= self.events.len()
        &&& self.at_event() ==> self.index < self.events.len()
        &&& self.stage is Listing ==> self.index == 0
    }

    /// Whether the machine is at work on the current event.
    pub open spec fn at_event(self) -> bool {
        self.stage is Handling || self.in_pause()
    }

    /// Whether the machine is at work on a pause event.
    pub open spec fn in_pause(self) -> bool {
        ||| self.stage is Asking
        ||| self.stage is Removing
        ||| self.stage is Quiescing
        ||| self.stage is Acknowledging
        ||| self.stage is PausedCheck
        ||| self.stage is Parked
        ||| self.stage is Draining
        ||| self.stage is Rearming
    }

    /// Whether `outcome` can come of the action that was asked for.
    pub open spec fn accepts(self, outcome: RunOutcome) -> bool {
        match outcome {
            RunOutcome::Paused(_) => self.stage is EntryCheck || self.stage is PausedCheck,
            RunOutcome::Unparked => self.stage is EntryParked || self.stage is Parked,
            RunOutcome::Waited(_) => self.stage is Waiting,
            RunOutcome::Handled(_) => self.stage is Timeout || self.stage is Listing
                || self.stage is Handling,
            RunOutcome::QuiesceWaits(_) => self.stage is Asking,
            RunOutcome::Controlled(_) => self.stage is Removing || self.stage is Rearming,
            RunOutcome::Quiesced(_) => self.stage is Quiescing,
            RunOutcome::Acknowledged => self.stage is Acknowledging,
            RunOutcome::Drained => self.stage is Draining,
        }
    }

    /// The call that takes the pause event out of the set.
    pub open spec fn remove_pause(self) -> EpollControl {
        control_call(
            self.helper.spec_epoll_fd(),
            ControlOperation::Delete,
            self.helper.spec_pause_fd(),
            EPOLL_HELPER_EVENT_PAUSE,
            0x001,
        )
    }

    /// The call that puts the pause event into the set.
    pub open spec fn add_pause(self) -> EpollControl {
        control_call(
            self.helper.spec_epoll_fd(),
            ControlOperation::Add,
            self.helper.spec_pause_fd(),
            EPOLL_HELPER_EVENT_PAUSE,
            0x001,
        )
    }

    /// Goes on with `stage`, whose action is `action`.
    pub open spec fn at(self, stage: RunStage, action: RunAction) -> (RunView, RunAction) {
        (RunView { stage, ..self }, action)
    }

    /// Leaves the loop with `result`.
    pub open spec fn finish(self, result: Result<(), EpollHelperError>) -> (RunView, RunAction) {
        self.at(RunStage::Finished, RunAction::Return(result))
    }

    /// Waits, with no batch of events at hand.
    pub open spec fn wait(self) -> (RunView, RunAction) {
        (
            RunView {
                stage: RunStage::Waiting,
                events: Seq::empty(),
                index: 0,
                pause_removed: false,
                ..self
            },
            RunAction::Wait { timeout: self.timeout },
        )
    }

    /// Takes up event `index` of the batch: the kill event ends the loop, the
    /// pause event starts a pause, and every other event is the handler's. After
    /// the last event comes the next wait.
    pub open spec fn dispatch(self, index: int) -> (RunView, RunAction) {
        let next = RunView { index, ..self };
        if index >= self.events.len() {
            self.wait()
        } else if self.events[index].id() == EPOLL_HELPER_EVENT_KILL {
            next.finish(Ok(()))
        } else if self.events[index].id() == EPOLL_HELPER_EVENT_PAUSE {
            next.at(RunStage::Asking, RunAction::AskQuiesceWaits)
        } else {
            next.at(RunStage::Handling, RunAction::HandleEvent(self.events[index]))
        }
    }

    /// What follows a wait that failed.
    pub open spec fn wait_failed(self, error: std::io::Error, interrupted: bool) -> (
        RunView,
        RunAction,
    ) {
        if interrupted {
            self.wait()
        } else {
            self.finish(Err(EpollHelperError::Wait(error)))
        }
    }

    /// What follows a wait that gave `events`.
    pub open spec fn waited(self, events: Seq<EpollEvent>) -> (RunView, RunAction) {
        let batch = RunView { events, index: 0, ..self };
        if events.len() == 0 {
            if self.until_idle {
                self.finish(Ok(()))
            } else {
                self.at(RunStage::Timeout, RunAction::HandleTimeout)
            }
        } else if self.enable_event_list {
            batch.at(RunStage::Listing, RunAction::EventList)
        } else {
            batch.dispatch(0)
        }
    }

    /// What follows the handler's work: its failure ends the loop.
    pub open spec fn handled(self, result: Result<(), EpollHelperError>) -> (RunView, RunAction) {
        if result is Err {
            self.finish(result)
        } else if self.stage is Timeout {
            self.wait()
        } else if self.stage is Listing {
            self.dispatch(0)
        } else {
            self.dispatch(self.index + 1)
        }
    }

    /// What follows `outcome`, which the machine accepts.
    pub open spec fn step(self, outcome: RunOutcome) -> (RunView, RunAction) {
        match outcome {
            RunOutcome::Paused(paused) => if self.stage is EntryCheck {
                if paused {
                    self.at(RunStage::EntryParked, RunAction::Park)
                } else {
                    self.wait()
                }
            } else {
                if paused {
                    self.at(RunStage::Parked, RunAction::Park)
                } else {
                    self.at(RunStage::Draining, RunAction::DrainPause)
                }
            },
            RunOutcome::Unparked => if self.stage is EntryParked {
                self.at(RunStage::EntryCheck, RunAction::LoadPaused)
            } else {
                self.at(RunStage::PausedCheck, RunAction::LoadPaused)
            },
            RunOutcome::Waited(Ok(events)) => self.waited(events@),
            RunOutcome::Waited(Err(error)) => self.wait_failed(error, io_error_interrupted(error)),
            RunOutcome::Handled(result) => self.handled(result),
            RunOutcome::QuiesceWaits(waits) => if waits {
                self.at(RunStage::Removing, RunAction::Control(self.remove_pause()))
            } else {
                self.at(RunStage::Quiescing, RunAction::Quiesce)
            },
            RunOutcome::Controlled(result) => if self.stage is Removing {
                if result is Ok {
                    (RunView { pause_removed: true, ..self }).at(
                        RunStage::Quiescing,
                        RunAction::Quiesce,
                    )
                } else {
                    self.at(RunStage::Acknowledging, RunAction::Acknowledge)
                }
            } else {
                match result {
                    Ok(_) => self.wait(),
                    Err(error) => self.finish(Err(EpollHelperError::Ctl(error))),
                }
            },
            RunOutcome::Quiesced(_) => self.at(RunStage::Acknowledging, RunAction::Acknowledge),
            RunOutcome::Acknowledged => self.at(RunStage::PausedCheck, RunAction::LoadPaused),
            RunOutcome::Drained => if self.pause_removed {
                self.at(RunStage::Rearming, RunAction::Control(self.add_pause()))
            } else {
                self.dispatch(self.index + 1)
            },
        }
    }
}

/// The start of the loop: nothing is waited for before the device is known not
/// to be paused.
pub open spec fn run_start(helper: EpollHelper, timeout: i32, enable_event_list: bool) -> (
    RunView,
    RunAction,
) {
    (
        RunView {
            helper,
            timeout,
            enable_event_list,
            until_idle: false,
            stage: RunStage::EntryCheck,
            events: Seq::empty(),
            index: 0,
            pause_removed: false,
        },
        RunAction::LoadPaused,
    )
}

/// The start of the loop whose waits last until there is an event, and which shows
/// no list.
pub open spec fn run_start_blocking(helper: EpollHelper) -> (RunView, RunAction) {
    run_start(helper, (-1) as i32, false)
}

/// The start of the loop that ends when no event is active.
pub open spec fn run_start_until_idle(helper: EpollHelper) -> (RunView, RunAction) {
    (
        RunView {
            helper,
            timeout: 0,
            enable_event_list: false,
            until_idle: true,
            stage: RunStage::Waiting,
            events: Seq::empty(),
            index: 0,
            pause_removed: false,
        },
        RunAction::Wait { timeout: 0 },
    )
}

/// The event loop of a device thread.
#[derive(Debug)]
pub struct EpollRun {
    helper: EpollHelper,
    timeout: i32,
    enable_event_list: bool,
    until_idle: bool,
    stage: RunStage,
    events: Vec<EpollEvent>,
    index: usize,
    pause_removed: bool,
}

impl View for EpollRun {
    type V = RunView;

    closed spec fn view(&self) -> RunView {
        RunView {
            helper: self.helper,
            timeout: self.timeout,
            enable_event_list: self.enable_event_list,
            until_idle: self.until_idle,
            stage: self.stage,
            events: self.events@,
            index: self.index as int,
            pause_removed: self.pause_removed,
        }
    }
}

impl EpollRun {
    /// Whether the loop is in order. Every loop that was started is, and every
    /// step keeps it so.
    pub open spec fn wf(&self) -> bool {
        self@.wf()
    }

    pub(crate) fn start(helper: EpollHelper, timeout: i32, enable_event_list: bool) -> (started: (
        Self,
        RunAction,
    ))
        ensures
            started.0.wf(),
            (started.0@, started.1) == run_start(helper, timeout, enable_event_list),
    {
        let run = EpollRun {
            helper,
            timeout,
            enable_event_list,
            until_idle: false,
            stage: RunStage::EntryCheck,
            events: Vec::new(),
            index: 0,
            pause_removed: false,
        };
        (run, RunAction::LoadPaused)
    }

    pub(crate) fn start_until_idle(helper: EpollHelper) -> (started: (Self, RunAction))
        ensures
            started.0.wf(),
            (started.0@, started.1) == run_start_until_idle(helper),
    {
        let run = EpollRun {
            helper,
            timeout: 0,
            enable_event_list: false,
            until_idle: true,
            stage: RunStage::Waiting,
            events: Vec::new(),
            index: 0,
            pause_removed: false,
        };
        (run, RunAction::Wait { timeout: 0 })
    }

    /// The events that are being worked on.
    pub fn events(&self) -> (events: &Vec<EpollEvent>)
        ensures
            events@ == self@.events,
    {
        &self.events
    }

    /// The action that was asked for last, as a stage.
    pub fn stage(&self) -> (stage: RunStage)
        ensures
            stage == self@.stage,
    {
        self.stage
    }

    /// Whether `outcome` can come of the action that was asked for last.
    pub fn accepts(&self, outcome: &RunOutcome) -> (accepted: bool)
        ensures
            accepted == self@.accepts(*outcome),
    {
        match outcome {
            RunOutcome::Paused(_) => self.stage == RunStage::EntryCheck || self.stage
                == RunStage::PausedCheck,
            RunOutcome::Unparked => self.stage == RunStage::EntryParked || self.stage
                == RunStage::Parked,
            RunOutcome::Waited(_) => self.stage == RunStage::Waiting,
            RunOutcome::Handled(_) => self.stage == RunStage::Timeout || self.stage
                == RunStage::Listing || self.stage == RunStage::Handling,
            RunOutcome::QuiesceWaits(_) => self.stage == RunStage::Asking,
            RunOutcome::Controlled(_) => self.stage == RunStage::Removing || self.stage
                == RunStage::Rearming,
            RunOutcome::Quiesced(_) => self.stage == RunStage::Quiescing,
            RunOutcome::Acknowledged => self.stage == RunStage::Acknowledging,
            RunOutcome::Drained => self.stage == RunStage::Draining,
        }
    }

    /// Takes the outcome of the last action and gives the next one.
    pub fn step(&mut self, outcome: RunOutcome) -> (action: RunAction)
        requires
            old(self).wf(),
            old(self)@.accepts(outcome),
        ensures
            final(self).wf(),
            (final(self)@, action) == old(self)@.step(outcome),
    {
        match outcome {
            RunOutcome::Paused(paused) => {
                if self.stage == RunStage::EntryCheck {
                    if paused {
                        self.stage = RunStage::EntryParked;
                        RunAction::Park
                    } else {
                        self.wait()
                    }
                } else if paused {
                    self.stage = RunStage::Parked;
                    RunAction::Park
                } else {
                    self.stage = RunStage::Draining;
                    RunAction::DrainPause
                }
            },
            RunOutcome::Unparked => {
                if self.stage == RunStage::EntryParked {
                    self.stage = RunStage::EntryCheck;
                } else {
                    self.stage = RunStage::PausedCheck;
                }
                RunAction::LoadPaused
            },
            RunOutcome::Waited(waited) => match waited {
                Ok(events) => self.waited(events),
                Err(error) => {
                    let interrupted: bool = is_interrupted(&error);
                    self.wait_failed(error, interrupted)
                },
            },
            RunOutcome::Handled(result) => self.handled(result),
            RunOutcome::QuiesceWaits(waits) => {
                if waits {
                    let control = self.helper.remove_pause_event();
                    self.stage = RunStage::Removing;
                    RunAction::Control(control)
                } else {
                    self.stage = RunStage::Quiescing;
                    RunAction::Quiesce
                }
            },
            RunOutcome::Controlled(result) => {
                if self.stage == RunStage::Removing {
                    if result.is_ok() {
                        self.pause_removed = true;
                        self.stage = RunStage::Quiescing;
                        RunAction::Quiesce
                    } else {
                        // The handler would wait among events that the pause
                        // event keeps waking: acknowledge without quiescing.
                        self.stage = RunStage::Acknowledging;
                        RunAction::Acknowledge
                    }
                } else {
                    match EpollHelper::control_result(result) {
                        // The handler may have consumed the other events of this
                        // batch while it quiesced: wait for them anew.
                        Ok(_) => self.wait(),
                        Err(error) => self.finish(Err(error)),
                    }
                }
            },
            RunOutcome::Quiesced(_) => {
                // Whether or not the handler has quiesced, the thread that pauses
                // the device waits at the barrier.
                self.stage = RunStage::Acknowledging;
                RunAction::Acknowledge
            },
            RunOutcome::Acknowledged => {
                self.stage = RunStage::PausedCheck;
                RunAction::LoadPaused
            },
            RunOutcome::Drained => {
                if self.pause_removed {
                    let control = self.helper.add_pause_event();
                    self.stage = RunStage::Rearming;
                    RunAction::Control(control)
                } else {
                    assert(self.index < self.events.len());
                    let next: usize = self.index + 1;
                    self.dispatch(next)
                }
            },
        }
    }

    /// Takes the failure of a wait, where `interrupted` tells whether it was an
    /// interruption: an interrupted wait is repeated.
    pub fn wait_failed(&mut self, error: std::io::Error, interrupted: bool) -> (action: RunAction)
        requires
            old(self).wf(),
        ensures
            final(self).wf(),
            (final(self)@, action) == old(self)@.wait_failed(error, interrupted),
    {
        if interrupted {
            self.wait()
        } else {
            self.finish(Err(EpollHelperError::Wait(error)))
        }
    }

    fn waited(&mut self, events: Vec<EpollEvent>) -> (action: RunAction)
        requires
            old(self).wf(),
            old(self)@.stage is Waiting,
        ensures
            final(self).wf(),
            (final(self)@, action) == old(self)@.waited(events@),
    {
        if events.len() == 0 {
            if self.until_idle {
                self.finish(Ok(()))
            } else {
                self.stage = RunStage::Timeout;
                RunAction::HandleTimeout
            }
        } else {
            self.events = events;
            self.index = 0;
            if self.enable_event_list {
                self.stage = RunStage::Listing;
                RunAction::EventList
            } else {
                self.dispatch(0)
            }
        }
    }

    fn handled(&mut self, result: Result<(), EpollHelperError>) -> (action: RunAction)
        requires
            old(self).wf(),
            old(self)@.stage is Timeout || old(self)@.stage is Listing || old(self)@.stage
                is Handling,
        ensures
            final(self).wf(),
            (final(self)@, action) == old(self)@.handled(result),
    {
        if result.is_err() {
            self.finish(result)
        } else if self.stage == RunStage::Timeout {
            self.wait()
        } else if self.stage == RunStage::Listing {
            self.dispatch(0)
        } else {
            assert(self.index < self.events.len());
            let next: usize = self.index + 1;
            self.dispatch(next)
        }
    }

    fn dispatch(&mut self, index: usize) -> (action: RunAction)
        requires
            index <= old(self)@.events.len(),
        ensures
            final(self).wf(),
            (final(self)@, action) == old(self)@.dispatch(index as int),
    {
        if index >= self.events.len() {
            return self.wait();
        }
        self.index = index;
        let event: EpollEvent = self.events[index];
        let event_type: u16 = event.event_type();
        if event_type == EPOLL_HELPER_EVENT_KILL {
            self.finish(Ok(()))
        } else if event_type == EPOLL_HELPER_EVENT_PAUSE {
            self.stage = RunStage::Asking;
            RunAction::AskQuiesceWaits
        } else {
            self.stage = RunStage::Handling;
            RunAction::HandleEvent(event)
        }
    }

    fn wait(&mut self) -> (action: RunAction)
        ensures
            final(self).wf(),
            (final(self)@, action) == old(self)@.wait(),
    {
        self.stage = RunStage::Waiting;
        self.events = Vec::new();
        self.index = 0;
        self.pause_removed = false;
        RunAction::Wait { timeout: self.timeout }
    }

    fn finish(&mut self, result: Result<(), EpollHelperError>) -> (action: RunAction)
        requires
            old(self)@.index <= old(self)@.events.len(),
        ensures
            final(self).wf(),
            (final(self)@, action) == old(self)@.finish(result),
    {
        self.stage = RunStage::Finished;
        RunAction::Return(result)
    }
}

} // verus!
