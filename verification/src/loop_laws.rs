//! What the event loop asks for next, told from what it has asked for and what came
//! of it alone: from the actions and outcomes of a run, not from the machine's state.

use vstd::prelude::*;
use crate::epoll_helper::ControlOperation;
use crate::epoll_helper::EpollControl;
use crate::epoll_helper::EpollEvent;
use crate::epoll_helper::EpollHelper;
use crate::epoll_helper::EpollHelperError;
use crate::epoll_laws::action_after;
use crate::epoll_laws::delivered;
use crate::epoll_laws::is_start;
use crate::epoll_laws::lemma_delivery;
use crate::epoll_laws::lemma_take_up_one;
use crate::epoll_laws::ordinary;
use crate::epoll_laws::run_accepts;
use crate::epoll_laws::run_after;
use crate::epoll_run::run_start;
use crate::epoll_run::run_start_blocking;
use crate::epoll_run::run_start_until_idle;
use crate::epoll_run::RunAction;
use crate::epoll_run::RunOutcome;
use crate::epoll_run::RunStage;
use crate::epoll_run::RunView;
use crate::errors::io_error_interrupted;

verus! {

/// How a loop is started.
pub struct LoopSettings {
    /// The epoll set that is served.
    pub helper: EpollHelper,
    /// The timeout of every wait.
    pub timeout: i32,
    /// Whether the handler is shown the events of a wait as a list.
    pub enable_event_list: bool,
    /// Whether the loop ends when no event is active.
    pub until_idle: bool,
}

impl LoopSettings {
    /// Whether a loop can be started so: the one that ends when idle does not block
    /// and shows no list.
    pub open spec fn wf(self) -> bool {
        self.until_idle ==> self.timeout == 0 && !self.enable_event_list
    }

    /// The start of the loop.
    pub open spec fn start(self) -> (RunView, RunAction) {
        if self.until_idle {
            run_start_until_idle(self.helper)
        } else {
            run_start(self.helper, self.timeout, self.enable_event_list)
        }
    }

    /// Whether `outcomes` are those of a run, each of the action before it.
    pub open spec fn allows(self, outcomes: Seq<RunOutcome>) -> bool {
        &&& self.wf()
        &&& run_accepts(self.start().0, outcomes)
    }

    /// The action that is asked for after `outcomes`, before any of them the first.
    pub open spec fn asked(self, outcomes: Seq<RunOutcome>) -> RunAction {
        if outcomes.len() == 0 {
            self.start().1
        } else {
            action_after(self.start().0, outcomes)
        }
    }

    /// The action that the last of `outcomes` came of.
    pub open spec fn answered(self, outcomes: Seq<RunOutcome>) -> RunAction
        recommends
            outcomes.len() > 0,
    {
        self.asked(outcomes.drop_last())
    }

    /// Whether the pause event is in the epoll set, as the successful changes of the
    /// set leave it. It is when the loop starts.
    pub open spec fn is_armed(self, outcomes: Seq<RunOutcome>) -> bool
        decreases outcomes.len(),
    {
        if outcomes.len() == 0 {
            true
        } else {
            match (self.answered(outcomes), outcomes.last()) {
                (RunAction::Control(control), RunOutcome::Controlled(Ok(_))) => control.operation
                    is Add,
                _ => self.is_armed(outcomes.drop_last()),
            }
        }
    }

    /// How many events of the present batch were taken up: handed to the handler, or
    /// answered by a pause.
    pub open spec fn taken(self, outcomes: Seq<RunOutcome>) -> int
        decreases outcomes.len(),
    {
        if outcomes.len() == 0 {
            0
        } else {
            let action = self.asked(outcomes);
            self.taken_before(outcomes) + if action is HandleEvent || action is AskQuiesceWaits {
                1int
            } else {
                0int
            }
        }
    }

    /// How many events of the present batch were taken up before the last of
    /// `outcomes` was answered. A wait starts a new batch.
    pub open spec fn taken_before(self, outcomes: Seq<RunOutcome>) -> int
        recommends
            outcomes.len() > 0,
        decreases outcomes.len(), 0int,
        when outcomes.len() > 0
    {
        if outcomes.last() is Waited {
            0
        } else {
            self.taken(outcomes.drop_last())
        }
    }

    /// The call that changes how the pause event stands in the set.
    pub open spec fn pause_control(self, operation: ControlOperation) -> EpollControl {
        EpollControl {
            epoll_fd: self.helper.spec_epoll_fd(),
            operation,
            fd: self.helper.spec_pause_fd(),
            event: EpollEvent { events: 1, data: 0 },
        }
    }

    /// What is asked for where event `index` of `events` comes next: the kill event
    /// ends the loop, the pause event starts a pause, every other event is the
    /// handler's, and after the last comes a wait.
    pub open spec fn next_of(self, events: Seq<EpollEvent>, index: int) -> RunAction {
        if index >= events.len() {
            RunAction::Wait { timeout: self.timeout }
        } else if events[index].data % 0x1_0000 == 1 {
            RunAction::Return(Ok(()))
        } else if events[index].data % 0x1_0000 == 0 {
            RunAction::AskQuiesceWaits
        } else {
            RunAction::HandleEvent(events[index])
        }
    }
}

/// The events that the last wait gave.
pub open spec fn batch(outcomes: Seq<RunOutcome>) -> Seq<EpollEvent>
    decreases outcomes.len(),
{
    if outcomes.len() == 0 {
        Seq::empty()
    } else {
        match outcomes.last() {
            RunOutcome::Waited(Ok(events)) => events@,
            RunOutcome::Waited(Err(_)) => Seq::empty(),
            _ => batch(outcomes.drop_last()),
        }
    }
}

/// Whether a wait has ended.
pub open spec fn has_waited(outcomes: Seq<RunOutcome>) -> bool
    decreases outcomes.len(),
{
    outcomes.len() > 0 && (outcomes.last() is Waited || has_waited(outcomes.drop_last()))
}

/// Whether `outcome` is an outcome of `action`.
pub open spec fn answers(action: RunAction, outcome: RunOutcome) -> bool {
    match action {
        RunAction::LoadPaused => outcome is Paused,
        RunAction::Park => outcome is Unparked,
        RunAction::Wait { .. } => outcome is Waited,
        RunAction::HandleTimeout => outcome is Handled,
        RunAction::EventList => outcome is Handled,
        RunAction::HandleEvent(_) => outcome is Handled,
        RunAction::AskQuiesceWaits => outcome is QuiesceWaits,
        RunAction::Control(_) => outcome is Controlled,
        RunAction::Quiesce => outcome is Quiesced,
        RunAction::Acknowledge => outcome is Acknowledged,
        RunAction::DrainPause => outcome is Drained,
        RunAction::Return(_) => false,
    }
}

/// Whether `action` is what a machine in the state of `run` has asked for.
spec fn is_asked_at(settings: LoopSettings, run: RunView, action: RunAction) -> bool {
    match run.stage {
        RunStage::EntryCheck | RunStage::PausedCheck => action is LoadPaused,
        RunStage::EntryParked | RunStage::Parked => action is Park,
        RunStage::Waiting => action == (RunAction::Wait { timeout: settings.timeout }),
        RunStage::Timeout => action is HandleTimeout,
        RunStage::Listing => action is EventList,
        RunStage::Handling => action == RunAction::HandleEvent(run.events[run.index]),
        RunStage::Asking => action is AskQuiesceWaits,
        RunStage::Removing => action == RunAction::Control(
            settings.pause_control(ControlOperation::Delete),
        ),
        RunStage::Quiescing => action is Quiesce,
        RunStage::Acknowledging => action is Acknowledge,
        RunStage::Draining => action is DrainPause,
        RunStage::Rearming => action == RunAction::Control(
            settings.pause_control(ControlOperation::Add),
        ),
        RunStage::Finished => action is Return,
    }
}

/// The machine's state and what has been seen of it agree.
proof fn lemma_seen(settings: LoopSettings, outcomes: Seq<RunOutcome>)
    requires
        settings.allows(outcomes),
    ensures
        ({
            let run = run_after(settings.start().0, outcomes);
            &&& run.wf()
            &&& run.helper == settings.helper
            &&& run.timeout == settings.timeout
            &&& run.enable_event_list == settings.enable_event_list
            &&& run.until_idle == settings.until_idle
            &&& is_asked_at(settings, run, settings.asked(outcomes))
            &&& run.at_event() ==> {
                &&& run.events == batch(outcomes)
                &&& settings.taken(outcomes) == run.index + 1
                &&& has_waited(outcomes)
            }
            &&& run.stage is Listing ==> {
                &&& run.events == batch(outcomes)
                &&& settings.taken(outcomes) == 0
                &&& outcomes.len() > 0
                &&& outcomes.last() is Waited
            }
            &&& run.stage is EntryCheck || run.stage is EntryParked ==> !has_waited(outcomes)
            &&& settings.is_armed(outcomes) == !run.pause_removed
            &&& run.pause_removed ==> !(run.stage is Waiting || run.stage is Asking
                || run.stage is Removing || run.stage is Handling || run.stage is Listing
                || run.stage is Timeout || run.stage is EntryCheck || run.stage is EntryParked)
            &&& run.stage is Rearming ==> run.pause_removed
        }),
    decreases outcomes.len(),
{
    if outcomes.len() > 0 {
        lemma_seen(settings, outcomes.drop_last());
    }
}

/// A loop begins by reading the paused flag; the one that ends when idle begins with
/// a wait that does not block.
pub proof fn law_first_action(settings: LoopSettings)
    requires
        settings.wf(),
    ensures
        settings.asked(Seq::empty()) == (if settings.until_idle {
            RunAction::Wait { timeout: 0 }
        } else {
            RunAction::LoadPaused
        }),
{
}

/// The plain loop waits for as long as it takes, shows no list and does not end when
/// idle.
pub proof fn law_plain_loop_blocks(helper: EpollHelper, outcomes: Seq<RunOutcome>)
    requires
        outcomes.len() > 0,
        run_accepts(run_start_blocking(helper).0, outcomes),
    ensures
        run_start_blocking(helper).1 is LoadPaused,
        action_after(run_start_blocking(helper).0, outcomes) matches RunAction::Wait { timeout }
            ==> timeout == -1,
        !(action_after(run_start_blocking(helper).0, outcomes) is EventList),
        outcomes.last() matches RunOutcome::Waited(Ok(events)) ==> (events@.len() == 0
            ==> action_after(run_start_blocking(helper).0, outcomes) is HandleTimeout),
{
    let settings = LoopSettings {
        helper,
        timeout: (-1) as i32,
        enable_event_list: false,
        until_idle: false,
    };
    lemma_seen(settings, outcomes);
    lemma_seen(settings, outcomes.drop_last());
}

/// The loop takes what came of the action that it asked for, all of it and nothing
/// else.
pub proof fn law_outcome_answers_the_action(
    settings: LoopSettings,
    outcomes: Seq<RunOutcome>,
    outcome: RunOutcome,
)
    requires
        settings.allows(outcomes),
    ensures
        settings.allows(outcomes.push(outcome)) <==> answers(settings.asked(outcomes), outcome),
{
    lemma_seen(settings, outcomes);
    assert(outcomes.push(outcome).drop_last() =~= outcomes);
}

/// Every wait, the first included, is for as long as the loop was started with.
pub proof fn law_wait_is_as_long_as_was_asked(settings: LoopSettings, outcomes: Seq<RunOutcome>)
    requires
        settings.allows(outcomes),
    ensures
        settings.asked(outcomes) matches RunAction::Wait { timeout } ==> timeout
            == settings.timeout,
{
    lemma_seen(settings, outcomes);
}

/// A pause is acknowledged right after the handler has quiesced, well or not, or,
/// without quiescing, after the pause event could not be taken out of the set; and
/// never otherwise.
pub proof fn law_pause_is_acknowledged_after_quiesce(
    settings: LoopSettings,
    outcomes: Seq<RunOutcome>,
)
    requires
        settings.allows(outcomes),
        outcomes.len() > 0,
    ensures
        settings.asked(outcomes) is Acknowledge <==> {
            ||| settings.answered(outcomes) is Quiesce
            ||| {
                &&& settings.answered(outcomes) == RunAction::Control(
                    settings.pause_control(ControlOperation::Delete),
                )
                &&& outcomes.last() matches RunOutcome::Controlled(Err(_))
            }
        },
        settings.answered(outcomes) is Quiesce <==> outcomes.last() is Quiesced,
{
    lemma_seen(settings, outcomes);
    lemma_seen(settings, outcomes.drop_last());
}

/// The handler is asked to quiesce right after it has said that it does not wait for
/// events, or after the pause event was taken out of the set; and never otherwise.
pub proof fn law_quiesce_follows_the_answer(settings: LoopSettings, outcomes: Seq<RunOutcome>)
    requires
        settings.allows(outcomes),
        outcomes.len() > 0,
    ensures
        settings.asked(outcomes) is Quiesce <==> {
            ||| outcomes.last() == RunOutcome::QuiesceWaits(false)
            ||| {
                &&& settings.answered(outcomes) == RunAction::Control(
                    settings.pause_control(ControlOperation::Delete),
                )
                &&& outcomes.last() matches RunOutcome::Controlled(Ok(_))
            }
        },
{
    lemma_seen(settings, outcomes);
    lemma_seen(settings, outcomes.drop_last());
}

/// The set is changed for two reasons only. The pause event is taken out of it right
/// after the handler has said that it waits for events, and is put back right after
/// it was read while it was out.
pub proof fn law_changes_of_the_set(settings: LoopSettings, outcomes: Seq<RunOutcome>)
    requires
        settings.allows(outcomes),
        outcomes.len() > 0,
    ensures
        settings.asked(outcomes) is Control <==> {
            ||| outcomes.last() == RunOutcome::QuiesceWaits(true)
            ||| outcomes.last() is Drained && !settings.is_armed(outcomes)
        },
        outcomes.last() == RunOutcome::QuiesceWaits(true) ==> settings.asked(outcomes)
            == RunAction::Control(settings.pause_control(ControlOperation::Delete)),
        outcomes.last() is Drained && !settings.is_armed(outcomes) ==> settings.asked(outcomes)
            == RunAction::Control(settings.pause_control(ControlOperation::Add)),
{
    lemma_seen(settings, outcomes);
    lemma_seen(settings, outcomes.drop_last());
}

/// Between the question to the handler and the acknowledgement of a pause, the
/// handler has quiesced, unless it waits for events and the pause event could not be
/// taken out of the set.
pub proof fn law_pause_quiesces(settings: LoopSettings, outcomes: Seq<RunOutcome>)
    requires
        settings.allows(outcomes),
        settings.asked(outcomes) is Acknowledge,
    ensures
        outcomes.len() >= 2,
        ({
            let n = outcomes.len() as int;
            let one_back = settings.asked(outcomes.take(n - 1));
            let two_back = settings.asked(outcomes.take(n - 2));
            ||| {
                &&& two_back is AskQuiesceWaits
                &&& outcomes[n - 2] == RunOutcome::QuiesceWaits(false)
                &&& one_back is Quiesce
            }
            ||| {
                &&& two_back is AskQuiesceWaits
                &&& outcomes[n - 2] == RunOutcome::QuiesceWaits(true)
                &&& one_back == RunAction::Control(settings.pause_control(ControlOperation::Delete))
                &&& outcomes[n - 1] matches RunOutcome::Controlled(Err(_))
            }
            ||| {
                &&& n >= 3
                &&& settings.asked(outcomes.take(n - 3)) is AskQuiesceWaits
                &&& outcomes[n - 3] == RunOutcome::QuiesceWaits(true)
                &&& two_back == RunAction::Control(settings.pause_control(ControlOperation::Delete))
                &&& outcomes[n - 2] matches RunOutcome::Controlled(Ok(_))
                &&& one_back is Quiesce
            }
        }),
{
    let n = outcomes.len() as int;
    reveal_with_fuel(run_accepts, 4);
    lemma_seen(settings, outcomes);
    assert(n > 0);
    let one = outcomes.drop_last();
    assert(one =~= outcomes.take(n - 1));
    lemma_seen(settings, one);
    assert(one.len() > 0);
    let two = one.drop_last();
    assert(two =~= outcomes.take(n - 2));
    lemma_seen(settings, two);
    if two.len() > 0 {
        assert(two.drop_last() =~= outcomes.take(n - 3));
        lemma_seen(settings, two.drop_last());
    }
}

/// A device that is paused parks until it is woken, and then the flag is read again.
/// Once it is not paused, a thread that has yet to wait does so, and one that was
/// stopped by a pause event reads that event.
pub proof fn law_parked_while_paused(settings: LoopSettings, outcomes: Seq<RunOutcome>)
    requires
        settings.allows(outcomes),
        outcomes.len() > 0,
    ensures
        settings.asked(outcomes) is Park <==> outcomes.last() == RunOutcome::Paused(true),
        settings.asked(outcomes) is LoadPaused <==> (outcomes.last() is Unparked || outcomes.last()
            is Acknowledged),
        settings.asked(outcomes) is DrainPause <==> (outcomes.last() == RunOutcome::Paused(false)
            && has_waited(outcomes)),
        outcomes.last() == RunOutcome::Paused(false) && !has_waited(outcomes) ==> settings.asked(
            outcomes,
        ) == (RunAction::Wait { timeout: settings.timeout }),
{
    lemma_seen(settings, outcomes);
    lemma_seen(settings, outcomes.drop_last());
}

/// Putting the pause event back leads to a wait, and a failure to do so ends the
/// loop with the error of the change.
pub proof fn law_failed_change_ends_the_loop(settings: LoopSettings, outcomes: Seq<RunOutcome>)
    requires
        settings.allows(outcomes),
        outcomes.len() > 0,
        settings.answered(outcomes) == RunAction::Control(
            settings.pause_control(ControlOperation::Add),
        ),
    ensures
        match outcomes.last() {
            RunOutcome::Controlled(Ok(_)) => settings.asked(outcomes) == (RunAction::Wait {
                timeout: settings.timeout,
            }),
            RunOutcome::Controlled(Err(error)) => settings.asked(outcomes) == RunAction::Return(
                Err(EpollHelperError::Ctl(error)),
            ),
            _ => false,
        },
{
    lemma_seen(settings, outcomes);
    lemma_seen(settings, outcomes.drop_last());
}

/// What a wait leads to: repeated where a signal interrupted it, the loop's error
/// where it failed otherwise; with no event a timeout, or the end of the loop that
/// ends when idle; and with events the list of them, where the handler has one, or
/// the first of them.
pub proof fn law_what_follows_a_wait(settings: LoopSettings, outcomes: Seq<RunOutcome>)
    requires
        settings.allows(outcomes),
        outcomes.len() > 0,
    ensures
        match outcomes.last() {
            RunOutcome::Waited(Err(error)) => settings.asked(outcomes) == (if io_error_interrupted(
                error,
            ) {
                RunAction::Wait { timeout: settings.timeout }
            } else {
                RunAction::Return(Err(EpollHelperError::Wait(error)))
            }),
            RunOutcome::Waited(Ok(events)) => settings.asked(outcomes) == (if events@.len() == 0 {
                if settings.until_idle {
                    RunAction::Return(Ok(()))
                } else {
                    RunAction::HandleTimeout
                }
            } else if settings.enable_event_list {
                RunAction::EventList
            } else {
                settings.next_of(events@, 0)
            }),
            _ => !(settings.asked(outcomes) is HandleTimeout) && !(settings.asked(outcomes)
                is EventList),
        },
{
    lemma_seen(settings, outcomes);
    lemma_seen(settings, outcomes.drop_last());
}

/// The list that the handler is shown is what the last wait gave.
pub proof fn law_list_is_the_batch(settings: LoopSettings, outcomes: Seq<RunOutcome>)
    requires
        settings.allows(outcomes),
        settings.asked(outcomes) is EventList,
    ensures
        run_after(settings.start().0, outcomes).events == batch(outcomes),
{
    lemma_seen(settings, outcomes);
}

/// What the handler's work leads to: its error ends the loop and is what the loop
/// returns; after a timeout comes a wait, and after the list or an event the next
/// event of the batch.
pub proof fn law_what_follows_the_handler(settings: LoopSettings, outcomes: Seq<RunOutcome>)
    requires
        settings.allows(outcomes),
        outcomes.len() > 0,
    ensures
        match outcomes.last() {
            RunOutcome::Handled(Err(error)) => settings.asked(outcomes) == RunAction::Return(
                Err(error),
            ),
            RunOutcome::Handled(Ok(_)) => settings.asked(outcomes) == (if settings.answered(
                outcomes,
            ) is HandleTimeout {
                RunAction::Wait { timeout: settings.timeout }
            } else {
                settings.next_of(batch(outcomes), settings.taken_before(outcomes))
            }),
            _ => true,
        },
{
    lemma_seen(settings, outcomes);
    lemma_seen(settings, outcomes.drop_last());
}

/// After a pause that left the pause event in the set, the next event of the same
/// batch follows.
pub proof fn law_batch_goes_on_after_a_pause(settings: LoopSettings, outcomes: Seq<RunOutcome>)
    requires
        settings.allows(outcomes),
        outcomes.len() > 0,
        outcomes.last() is Drained,
        settings.is_armed(outcomes),
    ensures
        settings.asked(outcomes) == settings.next_of(
            batch(outcomes),
            settings.taken_before(outcomes),
        ),
{
    lemma_seen(settings, outcomes);
    lemma_seen(settings, outcomes.drop_last());
}

/// The events of a batch are taken up one by one, from the first to the last: the one
/// that is handed to the handler, or that starts a pause, is the next of them.
pub proof fn law_events_are_taken_up_one_by_one(settings: LoopSettings, outcomes: Seq<RunOutcome>)
    requires
        settings.allows(outcomes),
        outcomes.len() > 0,
        settings.asked(outcomes) is HandleEvent || settings.asked(outcomes) is AskQuiesceWaits,
    ensures
        ({
            let index = settings.taken_before(outcomes);
            &&& 0 <= index < batch(outcomes).len()
            &&& settings.asked(outcomes) == settings.next_of(batch(outcomes), index)
        }),
{
    lemma_seen(settings, outcomes);
    lemma_seen(settings, outcomes.drop_last());
}

proof fn lemma_is_start(settings: LoopSettings)
    requires
        settings.wf(),
    ensures
        is_start(settings.start().0, settings.helper),
{
    if !settings.until_idle {
        let start = run_start(settings.helper, settings.timeout, settings.enable_event_list).0;
        assert(start == settings.start().0);
    }
}

/// A batch is worked off whole: where the loop goes on to a wait, other than after
/// putting the pause event back, the handler was handed all events of the last batch
/// but the pause events, and the batch held no kill event.
pub proof fn law_batch_is_worked_off_whole(settings: LoopSettings, outcomes: Seq<RunOutcome>)
    requires
        settings.allows(outcomes),
        outcomes.len() > 0,
        settings.asked(outcomes) is Wait,
        !(settings.answered(outcomes) is Control),
    ensures
        delivered(settings.start().0, outcomes) == batch(outcomes).filter(
            |event: EpollEvent| event.data % 0x1_0000 > 1,
        ),
        delivered(settings.start().0, outcomes) == ordinary(batch(outcomes)),
        forall|i: int|
            0 <= i < batch(outcomes).len() ==> (#[trigger] batch(outcomes)[i]).data % 0x1_0000 != 1,
{
    let start = settings.start().0;
    let before = outcomes.drop_last();
    let run = run_after(start, before);
    lemma_seen(settings, outcomes);
    lemma_seen(settings, before);
    lemma_is_start(settings);
    lemma_delivery(start, settings.helper, before);
    if run.at_event() {
        lemma_take_up_one(run.events, run.index);
        assert(run.events.take(run.index + 1) =~= run.events);
        assert(batch(outcomes) == batch(before));
    } else {
        lemma_no_batch(settings, outcomes);
    }
    lemma_ordinary_is_filter(batch(outcomes));
}

/// Outside a batch there is none.
proof fn lemma_no_batch(settings: LoopSettings, outcomes: Seq<RunOutcome>)
    requires
        settings.allows(outcomes),
    ensures
        ({
            let stage = run_after(settings.start().0, outcomes).stage;
            &&& stage is EntryCheck || stage is EntryParked || stage is Timeout ==> {
                &&& batch(outcomes) == Seq::<EpollEvent>::empty()
                &&& delivered(settings.start().0, outcomes) == Seq::<EpollEvent>::empty()
            }
            &&& outcomes.len() > 0 && stage is Waiting && !run_after(
                settings.start().0,
                outcomes.drop_last(),
            ).at_event() ==> {
                &&& batch(outcomes) == Seq::<EpollEvent>::empty()
                &&& delivered(settings.start().0, outcomes) == Seq::<EpollEvent>::empty()
            }
            &&& stage is Listing ==> run_after(settings.start().0, outcomes).events.len() > 0
        }),
    decreases outcomes.len(),
{
    if outcomes.len() > 0 {
        lemma_no_batch(settings, outcomes.drop_last());
        lemma_seen(settings, outcomes.drop_last());
        lemma_seen(settings, outcomes);
        match outcomes.last() {
            RunOutcome::Waited(Ok(events)) => {
                assert(events@.len() == 0 ==> events@ =~= Seq::<EpollEvent>::empty());
            },
            _ => {},
        }
    }
}

proof fn lemma_ordinary_is_filter(events: Seq<EpollEvent>)
    ensures
        ordinary(events) == events.filter(|event: EpollEvent| event.data % 0x1_0000 > 1),
    decreases events.len(),
{
    reveal(Seq::filter);
    if events.len() > 0 {
        lemma_ordinary_is_filter(events.drop_last());
    }
}

/// The loop ends without an error where the kill event comes next in the batch, or,
/// in the loop that ends when idle, where a wait gives no event. It ends with an error
/// where the handler, a wait that was not interrupted or the return of the pause event
/// to the set fails. It ends for no other reason.
pub proof fn law_reasons_to_end(settings: LoopSettings, outcomes: Seq<RunOutcome>)
    requires
        settings.allows(outcomes),
        outcomes.len() > 0,
        settings.asked(outcomes) is Return,
    ensures
        match outcomes.last() {
            RunOutcome::Handled(Err(error)) => settings.asked(outcomes) == RunAction::Return(
                Err(error),
            ),
            RunOutcome::Waited(Err(error)) => {
                &&& !io_error_interrupted(error)
                &&& settings.asked(outcomes) == RunAction::Return(
                    Err(EpollHelperError::Wait(error)),
                )
            },
            RunOutcome::Controlled(Err(error)) => {
                &&& settings.answered(outcomes) == RunAction::Control(
                    settings.pause_control(ControlOperation::Add),
                )
                &&& settings.asked(outcomes) == RunAction::Return(Err(EpollHelperError::Ctl(error)))
            },
            _ => {
                &&& settings.asked(outcomes) == RunAction::Return(Ok(()))
                &&& {
                    ||| {
                        &&& settings.until_idle
                        &&& outcomes.last() is Waited
                        &&& batch(outcomes).len() == 0
                    }
                    ||| {
                        &&& settings.taken_before(outcomes) < batch(outcomes).len()
                        &&& batch(outcomes)[settings.taken_before(outcomes)].data % 0x1_0000 == 1
                    }
                }
            },
        },
{
    lemma_seen(settings, outcomes);
    lemma_seen(settings, outcomes.drop_last());
}

} // verus!
