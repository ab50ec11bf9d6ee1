//! The epoll set of a device thread, and the loop that serves it.
//!
//! `EpollHelper` says how file descriptors are registered. `EpollRun` decides
//! what the thread does next: every step takes the outcome of the previous
//! action and gives the next action to perform.

use vstd::prelude::*;
use crate::epoll_run::EpollRun;
use crate::epoll_run::RunAction;
use crate::epoll_run::run_start;
use crate::epoll_run::run_start_blocking;
use crate::epoll_run::run_start_until_idle;
use crate::errors::io_error_interrupted;
use crate::errors::is_interrupted;

verus! {

/// The id of the event that asks the thread to pause.
pub const EPOLL_HELPER_EVENT_PAUSE: u16 = 0;

/// The id of the event that asks the thread to stop.
pub const EPOLL_HELPER_EVENT_KILL: u16 = 1;

/// The last id that is reserved; a device numbers its own events from the next.
pub const EPOLL_HELPER_EVENT_LAST: u16 = 15;

/// How many events one wait can return.
pub const EPOLL_EVENTS_LEN: usize = 100;

/// Why the event loop, or a handler that it called, failed.
#[derive(Debug)]
pub enum EpollHelperError {
    /// Failed to create the epoll file descriptor.
    CreateFd(std::io::Error),
    /// Failed to change the epoll set.
    Ctl(std::io::Error),
    /// I/O error.
    IoError(std::io::Error),
    /// Failed to wait for events.
    Wait(std::io::Error),
    /// Failed to get a virtio queue index.
    QueueRingIndex(virtio_queue::Error),
    /// Failed to handle a device event.
    HandleEvent(anyhow::Error),
    /// Failed to handle a timeout.
    HandleTimeout(anyhow::Error),
}

/// A readiness event: the events bit mask and the registered data.
#[derive(Clone, Copy, Debug, PartialEq, Eq, Structural)]
pub struct EpollEvent {
    pub events: u32,
    pub data: u64,
}

/// What to do to the epoll set.
#[derive(Clone, Copy, Debug, PartialEq, Eq, Structural)]
pub enum ControlOperation {
    Add,
    Modify,
    Delete,
}

/// An `epoll_ctl` call.
#[derive(Clone, Copy, Debug, PartialEq, Eq, Structural)]
pub struct EpollControl {
    pub epoll_fd: i32,
    pub operation: ControlOperation,
    pub fd: i32,
    pub event: EpollEvent,
}

/// What the users of the loop implement. `H` is the helper that the loop hands
/// to its handler.
pub trait EpollHelperHandler<H> {
    /// Handles one event. The loop calls this for each event that was returned,
    /// in order.
    fn handle_event(&mut self, helper: &mut H, event: &EpollEvent) -> Result<(), EpollHelperError>;

    /// Called when a wait with a timeout ended without any event. By default
    /// there is nothing to do.
    fn handle_timeout(&mut self, helper: &mut H) -> (result: Result<(), EpollHelperError>)
        default_ensures
            result == Ok::<(), EpollHelperError>(()),
            *final(helper) == *old(helper),
            &*final(self) == &*old(self),
    {
        Ok(())
    }

    /// Called with all the events of a wait before they are handled one by one,
    /// when the loop was asked for it. By default there is nothing to do.
    fn event_list(&mut self, helper: &mut H, events: &[EpollEvent]) -> (result: Result<
        (),
        EpollHelperError,
    >)
        default_ensures
            result == Ok::<(), EpollHelperError>(()),
            *final(helper) == *old(helper),
            &*final(self) == &*old(self),
    {
        Ok(())
    }

    /// Called when the thread was asked to pause, before the pause is
    /// acknowledged: work that is still in flight is to be brought to an end, so
    /// that the device can be saved in a consistent state. By default there is
    /// nothing to quiesce.
    fn quiesce(&mut self, helper: &mut H) -> (result: Result<(), EpollHelperError>)
        default_ensures
            result == Ok::<(), EpollHelperError>(()),
            *final(helper) == *old(helper),
            &*final(self) == &*old(self),
    {
        Ok(())
    }

    /// Whether `quiesce` waits for events of the helper's epoll set. The pause
    /// event is then taken out of the set while the handler quiesces: it stays
    /// readable, and would wake every wait at once.
    fn quiesce_waits_for_epoll_events(&self) -> (waits: bool)
        default_ensures
            !waits,
    {
        false
    }
}

/// The bits of `epoll::Events::EPOLLIN`: the file is ready for reading. The mask
/// is 1 on Linux.
#[verifier::external_body]
fn epollin() -> (bits: u32)
    ensures
        bits == 0x001,
{
    epoll::Events::EPOLLIN.bits()
}

impl EpollEvent {
    /// The id that the event was registered with: the low 16 bits of its data.
    pub open spec fn id(self) -> u16 {
        (self.data % 0x1_0000) as u16
    }

    /// Whether the event is for the device, and not for the loop itself.
    pub open spec fn is_ordinary(self) -> bool {
        self.id() != EPOLL_HELPER_EVENT_KILL && self.id() != EPOLL_HELPER_EVENT_PAUSE
    }

    /// The id that the event was registered with.
    pub fn event_type(&self) -> (id: u16)
        ensures
            id == self.id(),
    {
        let data: u64 = self.data;
        assert(data as u16 == (data % 0x1_0000) as u16) by (bit_vector);
        #[verifier::truncate]
        (data as u16)
    }
}

/// The file descriptors of a device thread's epoll set: the set itself, and the
/// pause event that the thread listens to.
#[derive(Clone, Copy, Debug)]
pub struct EpollHelper {
    epoll_fd: i32,
    pause_fd: i32,
}

/// The call that does `operation` to `fd` in the set `epoll_fd`, with `id` as the
/// data of its event.
pub open spec fn control_call(
    epoll_fd: i32,
    operation: ControlOperation,
    fd: i32,
    id: u16,
    events: u32,
) -> EpollControl {
    EpollControl { epoll_fd, operation, fd, event: EpollEvent { events, data: id as u64 } }
}

/// The calls that register the kill event and the pause event in the set
/// `epoll_fd`.
pub open spec fn setup_calls(epoll_fd: i32, kill_fd: i32, pause_fd: i32) -> Seq<EpollControl> {
    seq![
        control_call(epoll_fd, ControlOperation::Add, kill_fd, EPOLL_HELPER_EVENT_KILL, 0x001),
        control_call(epoll_fd, ControlOperation::Add, pause_fd, EPOLL_HELPER_EVENT_PAUSE, 0x001),
    ]
}

/// What follows a wait.
#[derive(Debug)]
pub enum WaitStep {
    /// Wait again.
    Retry,
    /// Return this.
    Return(Result<usize, EpollHelperError>),
}

/// What a change of the epoll set comes to for its caller.
pub open spec fn control_outcome(outcome: Result<(), std::io::Error>) -> Result<
    (),
    EpollHelperError,
> {
    match outcome {
        Ok(_) => Ok(()),
        Err(error) => Err(EpollHelperError::Ctl(error)),
    }
}

/// What the creation of an epoll set comes to for its caller.
pub open spec fn create_outcome(outcome: Result<i32, std::io::Error>) -> Result<
    i32,
    EpollHelperError,
> {
    match outcome {
        Ok(fd) => Ok(fd),
        Err(error) => Err(EpollHelperError::CreateFd(error)),
    }
}

/// What follows a wait that gave `outcome`, where `interrupted` tells whether a
/// failure was an interruption: an interrupted wait is repeated, every other
/// outcome is returned.
pub open spec fn wait_step_spec(outcome: Result<usize, std::io::Error>, interrupted: bool) -> WaitStep {
    match outcome {
        Ok(count) => WaitStep::Return(Ok(count)),
        Err(error) => if interrupted {
            WaitStep::Retry
        } else {
            WaitStep::Return(Err(EpollHelperError::Wait(error)))
        },
    }
}

/// Whether a wait failed because it was interrupted.
pub open spec fn wait_interrupted(outcome: Result<usize, std::io::Error>) -> bool {
    match outcome {
        Ok(count) => false,
        Err(error) => io_error_interrupted(error),
    }
}

impl EpollHelper {
    /// The descriptor of the epoll set.
    pub closed spec fn spec_epoll_fd(&self) -> i32 {
        self.epoll_fd
    }

    /// The descriptor of the pause event.
    pub closed spec fn spec_pause_fd(&self) -> i32 {
        self.pause_fd
    }

    /// The call that registers `fd` for `events`.
    pub open spec fn add_call(&self, fd: i32, id: u16, events: u32) -> EpollControl {
        control_call(self.spec_epoll_fd(), ControlOperation::Add, fd, id, events)
    }

    /// The call that changes what `fd` is registered for to `events`.
    pub open spec fn modify_call(&self, fd: i32, id: u16, events: u32) -> EpollControl {
        control_call(self.spec_epoll_fd(), ControlOperation::Modify, fd, id, events)
    }

    /// The call that removes `fd`, registered for `events`.
    pub open spec fn delete_call(&self, fd: i32, id: u16, events: u32) -> EpollControl {
        control_call(self.spec_epoll_fd(), ControlOperation::Delete, fd, id, events)
    }

    /// A helper for the epoll set `epoll_fd`, and the calls that register the
    /// kill event and the pause event in it, in that order.
    pub fn new(epoll_fd: i32, kill_fd: i32, pause_fd: i32) -> (created: (Self, Vec<EpollControl>))
        ensures
            created.0.spec_epoll_fd() == epoll_fd,
            created.0.spec_pause_fd() == pause_fd,
            created.1@ == setup_calls(epoll_fd, kill_fd, pause_fd),
    {
        let helper = EpollHelper { epoll_fd, pause_fd };
        let mut controls: Vec<EpollControl> = Vec::new();
        controls.push(helper.add_event(kill_fd, EPOLL_HELPER_EVENT_KILL));
        controls.push(helper.add_event(helper.pause_fd, EPOLL_HELPER_EVENT_PAUSE));
        (helper, controls)
    }

    /// The call that registers `fd` to be told when it can be read.
    pub fn add_event(&self, fd: i32, id: u16) -> (control: EpollControl)
        ensures
            control == self.add_call(fd, id, 0x001),
    {
        self.add_event_custom(fd, id, epollin())
    }

    /// The call that registers `fd` for `evts`.
    pub fn add_event_custom(&self, fd: i32, id: u16, evts: u32) -> (control: EpollControl)
        ensures
            control == self.add_call(fd, id, evts),
    {
        EpollControl {
            epoll_fd: self.epoll_fd,
            operation: ControlOperation::Add,
            fd,
            event: EpollEvent { events: evts, data: id as u64 },
        }
    }

    /// The call that changes what `fd` is registered for.
    pub fn mod_event_custom(&self, fd: i32, id: u16, evts: u32) -> (control: EpollControl)
        ensures
            control == self.modify_call(fd, id, evts),
    {
        EpollControl {
            epoll_fd: self.epoll_fd,
            operation: ControlOperation::Modify,
            fd,
            event: EpollEvent { events: evts, data: id as u64 },
        }
    }

    /// The call that removes `fd` from the set.
    pub fn del_event_custom(&self, fd: i32, id: u16, evts: u32) -> (control: EpollControl)
        ensures
            control == self.delete_call(fd, id, evts),
    {
        EpollControl {
            epoll_fd: self.epoll_fd,
            operation: ControlOperation::Delete,
            fd,
            event: EpollEvent { events: evts, data: id as u64 },
        }
    }

    /// The call that takes the pause event out of the set.
    pub(crate) fn remove_pause_event(&self) -> (control: EpollControl)
        ensures
            control == control_call(
                self.spec_epoll_fd(),
                ControlOperation::Delete,
                self.spec_pause_fd(),
                EPOLL_HELPER_EVENT_PAUSE,
                0x001,
            ),
    {
        self.del_event_custom(self.pause_fd, EPOLL_HELPER_EVENT_PAUSE, epollin())
    }

    /// The call that puts the pause event into the set.
    pub(crate) fn add_pause_event(&self) -> (control: EpollControl)
        ensures
            control == control_call(
                self.spec_epoll_fd(),
                ControlOperation::Add,
                self.spec_pause_fd(),
                EPOLL_HELPER_EVENT_PAUSE,
                0x001,
            ),
    {
        self.add_event(self.pause_fd, EPOLL_HELPER_EVENT_PAUSE)
    }

    /// What a change of the epoll set returns to its caller.
    pub fn control_result(outcome: Result<(), std::io::Error>) -> (result: Result<
        (),
        EpollHelperError,
    >)
        ensures
            result == control_outcome(outcome),
    {
        match outcome {
            Ok(_) => Ok(()),
            Err(error) => Err(EpollHelperError::Ctl(error)),
        }
    }

    /// What a caller who waits for events does after a wait that gave `outcome`:
    /// an interrupted wait is repeated.
    pub fn wait_for_events(outcome: Result<usize, std::io::Error>) -> (step: WaitStep)
        ensures
            step == wait_step_spec(outcome, wait_interrupted(outcome)),
    {
        let interrupted: bool = match &outcome {
            Ok(_) => false,
            Err(error) => is_interrupted(error),
        };
        Self::wait_step(outcome, interrupted)
    }

    /// What follows a wait that gave `outcome`, where `interrupted` tells whether
    /// a failure was an interruption.
    pub fn wait_step(outcome: Result<usize, std::io::Error>, interrupted: bool) -> (step: WaitStep)
        ensures
            step == wait_step_spec(outcome, interrupted),
    {
        match outcome {
            Ok(count) => WaitStep::Return(Ok(count)),
            Err(error) => if interrupted {
                WaitStep::Retry
            } else {
                WaitStep::Return(Err(EpollHelperError::Wait(error)))
            },
        }
    }

    /// What the creation of an epoll set returns to its caller.
    pub fn create_result(outcome: Result<i32, std::io::Error>) -> (result: Result<
        i32,
        EpollHelperError,
    >)
        ensures
            result == create_outcome(outcome),
    {
        match outcome {
            Ok(fd) => Ok(fd),
            Err(error) => Err(EpollHelperError::CreateFd(error)),
        }
    }

    /// Starts the loop without a timeout and without event lists: a wait lasts
    /// until there is an event.
    pub fn run(&self) -> (started: (EpollRun, RunAction))
        ensures
            started.0.wf(),
            (started.0@, started.1) == run_start_blocking(*self),
    {
        self.run_with_timeout(-1, false)
    }

    /// Starts the loop, and gives its first action. `timeout` goes to every wait,
    /// and with `enable_event_list` the handler is shown all the events of a wait
    /// before it handles them.
    pub fn run_with_timeout(&self, timeout: i32, enable_event_list: bool) -> (started: (
        EpollRun,
        RunAction,
    ))
        ensures
            started.0.wf(),
            (started.0@, started.1) == run_start(*self, timeout, enable_event_list),
    {
        EpollRun::start(*self, timeout, enable_event_list)
    }

    /// Starts the loop in the form that fuzzing uses: it does not look whether
    /// the device is paused at first, no wait blocks, and the loop ends when no
    /// event is active.
    pub fn run_until_idle(&self) -> (started: (EpollRun, RunAction))
        ensures
            started.0.wf(),
            (started.0@, started.1) == run_start_until_idle(*self),
    {
        EpollRun::start_until_idle(*self)
    }

    /// The descriptor of the epoll set.
    pub fn as_raw_fd(&self) -> (fd: i32)
        ensures
            fd == self.spec_epoll_fd(),
    {
        self.epoll_fd
    }
}

/// What an event was registered with comes back with it: the id from its data, for
/// every id, and the file, the set and the mask as they were given.
pub proof fn law_registered_id_comes_back(
    epoll_fd: i32,
    operation: ControlOperation,
    fd: i32,
    id: u16,
    events: u32,
)
    ensures
        ({
            let control = control_call(epoll_fd, operation, fd, id, events);
            &&& control.epoll_fd == epoll_fd
            &&& control.operation == operation
            &&& control.fd == fd
            &&& control.event.events == events
            &&& control.event.data == id
            &&& control.event.id() == id
        }),
{
}

/// The id of an event is the low 16 bits of its data, whatever stands above them.
pub proof fn law_id_is_the_low_bits(event: EpollEvent, other: EpollEvent)
    ensures
        event.data == event.id() + 0x1_0000 * (event.data / 0x1_0000),
        event.data % 0x1_0000 == other.data % 0x1_0000 <==> event.id() == other.id(),
        event.is_ordinary() <==> event.data % 0x1_0000 > 1,
{
}

/// A new set is told when the kill event or the pause event can be read, each under
/// its own id.
pub proof fn law_new_set_hears_kill_and_pause(epoll_fd: i32, kill_fd: i32, pause_fd: i32)
    ensures
        ({
            let calls = setup_calls(epoll_fd, kill_fd, pause_fd);
            &&& calls.len() == 2
            &&& forall|i: int|
                0 <= i < 2 ==> {
                    &&& (#[trigger] calls[i]).epoll_fd == epoll_fd
                    &&& calls[i].operation is Add
                    &&& calls[i].event.events == 1
                }
            &&& calls[0].fd == kill_fd
            &&& calls[0].event.data == 1
            &&& calls[1].fd == pause_fd
            &&& calls[1].event.data == 0
        }),
{
}

/// A wait is repeated exactly where it was interrupted, and is returned otherwise:
/// with its count, or with its error.
pub proof fn law_wait_ends_unless_interrupted(
    outcome: Result<usize, std::io::Error>,
    interrupted: bool,
)
    ensures
        wait_step_spec(outcome, interrupted) is Retry <==> outcome is Err && interrupted,
        outcome matches Ok(count) ==> wait_step_spec(outcome, interrupted) == WaitStep::Return(
            Ok(count),
        ),
        outcome matches Err(error) ==> (!interrupted ==> wait_step_spec(outcome, interrupted)
            == WaitStep::Return(Err(EpollHelperError::Wait(error)))),
        wait_interrupted(outcome) <==> (outcome matches Err(error) && io_error_interrupted(error)),
{
}

/// The errors of a failed creation and of a failed change of a set are told apart and
/// carried on, and a success stays one.
pub proof fn law_errors_tell_what_failed(
    created: Result<i32, std::io::Error>,
    changed: Result<(), std::io::Error>,
)
    ensures
        create_outcome(created) is Ok <==> created is Ok,
        created matches Ok(fd) ==> create_outcome(created) == Ok::<i32, EpollHelperError>(fd),
        created matches Err(error) ==> create_outcome(created) == Err::<i32, EpollHelperError>(
            EpollHelperError::CreateFd(error),
        ),
        control_outcome(changed) is Ok <==> changed is Ok,
        changed matches Err(error) ==> control_outcome(changed) == Err::<(), EpollHelperError>(
            EpollHelperError::Ctl(error),
        ),
{
}

/// A file is added to the set of the helper, changed in it or removed from it, as
/// was asked: each call has its own operation and all that it was given.
pub proof fn law_each_change_is_what_was_asked(helper: EpollHelper, fd: i32, id: u16, events: u32)
    ensures
        helper.add_call(fd, id, events).operation is Add,
        helper.modify_call(fd, id, events).operation is Modify,
        helper.delete_call(fd, id, events).operation is Delete,
        is_change_of(helper, helper.add_call(fd, id, events), fd, id, events),
        is_change_of(helper, helper.modify_call(fd, id, events), fd, id, events),
        is_change_of(helper, helper.delete_call(fd, id, events), fd, id, events),
{
}

/// Whether `control` is about `fd` in the set of `helper`, with `id` and `events`.
pub open spec fn is_change_of(
    helper: EpollHelper,
    control: EpollControl,
    fd: i32,
    id: u16,
    events: u32,
) -> bool {
    &&& control.epoll_fd == helper.spec_epoll_fd()
    &&& control.fd == fd
    &&& control.event.data == id
    &&& control.event.events == events
}

/// The ids up to the last reserved one are the loop's, and an event that a device
/// registers under a later id is the device's.
pub proof fn law_device_ids_are_not_reserved(helper: EpollHelper, fd: i32, id: u16, events: u32)
    requires
        id > EPOLL_HELPER_EVENT_LAST,
    ensures
        helper.add_call(fd, id, events).event.is_ordinary(),
        EPOLL_HELPER_EVENT_LAST == 15,
        EPOLL_HELPER_EVENT_PAUSE < EPOLL_HELPER_EVENT_KILL <= EPOLL_HELPER_EVENT_LAST,
{
}

/// One wait has room for a hundred events, and so for the two of the loop itself.
pub proof fn law_wait_has_room()
    ensures
        EPOLL_EVENTS_LEN == 100,
{
}

} // verus!
