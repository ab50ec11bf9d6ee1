//! What holds of every run of the event loop, whatever comes of its actions.

use vstd::prelude::*;
use crate::epoll_helper::EpollControl;
use crate::epoll_helper::EpollEvent;
use crate::epoll_helper::EpollHelper;
use crate::epoll_helper::EpollHelperError;
use crate::epoll_helper::EPOLL_HELPER_EVENT_KILL;
use crate::errors::io_error_interrupted;
use crate::epoll_run::run_start;
use crate::epoll_run::run_start_until_idle;
use crate::epoll_run::RunAction;
use crate::epoll_run::RunOutcome;
use crate::epoll_run::RunView;

verus! {

/// The machine after `outcomes`, one after the other.
pub open spec fn run_after(start: RunView, outcomes: Seq<RunOutcome>) -> RunView
    decreases outcomes.len(),
{
    if outcomes.len() == 0 {
        start
    } else {
        run_after(start, outcomes.drop_last()).step(outcomes.last()).0
    }
}

/// The action that the last of `outcomes` leads to.
pub open spec fn action_after(start: RunView, outcomes: Seq<RunOutcome>) -> RunAction
    recommends
        outcomes.len() > 0,
{
    run_after(start, outcomes.drop_last()).step(outcomes.last()).1
}

/// Whether each of `outcomes` can come of the action before it.
pub open spec fn run_accepts(start: RunView, outcomes: Seq<RunOutcome>) -> bool
    decreases outcomes.len(),
{
    outcomes.len() > 0 ==> {
        &&& run_accepts(start, outcomes.drop_last())
        &&& run_after(start, outcomes.drop_last()).accepts(outcomes.last())
    }
}

/// Whether `start` is how a loop on `helper` starts.
pub open spec fn is_start(start: RunView, helper: EpollHelper) -> bool {
    ||| start == run_start_until_idle(helper).0
    ||| exists|timeout: i32, list: bool| start == #[trigger] run_start(helper, timeout, list).0
}

/// The change of the epoll set that the machine has asked for and not yet heard
/// of.
pub open spec fn pending_control(run: RunView) -> Option<EpollControl> {
    if run.stage is Removing {
        Some(run.remove_pause())
    } else if run.stage is Rearming {
        Some(run.add_pause())
    } else {
        None
    }
}

/// Whether the pause event is in the epoll set after `outcomes`, as the
/// successful changes of the set leave it. It is when the loop starts.
pub open spec fn pause_registered(start: RunView, outcomes: Seq<RunOutcome>) -> bool
    decreases outcomes.len(),
{
    if outcomes.len() == 0 {
        true
    } else {
        let before = pause_registered(start, outcomes.drop_last());
        match (
            pending_control(run_after(start, outcomes.drop_last())),
            outcomes.last(),
        ) {
            (Some(control), RunOutcome::Controlled(Ok(_))) => control.operation
                is Add,
            _ => before,
        }
    }
}

/// The events that were handed to the handler out of the present batch.
pub open spec fn delivered(start: RunView, outcomes: Seq<RunOutcome>) -> Seq<EpollEvent>
    decreases outcomes.len(),
{
    if outcomes.len() == 0 {
        Seq::empty()
    } else {
        let before = if outcomes.last() is Waited {
            Seq::empty()
        } else {
            delivered(start, outcomes.drop_last())
        };
        match action_after(start, outcomes) {
            RunAction::HandleEvent(event) => before.push(event),
            _ => before,
        }
    }
}

/// The events of `events` that are for the device.
pub open spec fn ordinary(events: Seq<EpollEvent>) -> Seq<EpollEvent>
    decreases events.len(),
{
    if events.len() == 0 {
        Seq::empty()
    } else if events.last().is_ordinary() {
        ordinary(events.drop_last()).push(events.last())
    } else {
        ordinary(events.drop_last())
    }
}

/// The part of the batch that was taken up: all before the current event, and the
/// current event itself when the handler has it.
pub open spec fn taken_up(run: RunView) -> Seq<EpollEvent> {
    if run.stage is Handling {
        run.events.take(run.index + 1)
    } else {
        run.events.take(run.index)
    }
}

proof fn lemma_registration(start: RunView, helper: EpollHelper, outcomes: Seq<RunOutcome>)
    requires
        is_start(start, helper),
        run_accepts(start, outcomes),
    ensures
        run_after(start, outcomes).wf(),
        run_after(start, outcomes).helper == helper,
        pause_registered(start, outcomes) == !run_after(start, outcomes).pause_removed,
        run_after(start, outcomes).pause_removed ==> {
            let stage = run_after(start, outcomes).stage;
            ||| stage is Quiescing
            ||| stage is Acknowledging
            ||| stage is PausedCheck
            ||| stage is Parked
            ||| stage is Draining
            ||| stage is Rearming
            ||| stage is Finished
        },
        run_after(start, outcomes).stage is Rearming ==> run_after(start, outcomes).pause_removed,
    decreases outcomes.len(),
{
    if outcomes.len() > 0 {
        lemma_registration(start, helper, outcomes.drop_last());
    }
}

/// Whenever the thread waits for events, the pause event is in its epoll set: a
/// pause that took it out has put it back.
pub proof fn law_pause_event_is_armed_at_every_wait(
    start: RunView,
    helper: EpollHelper,
    outcomes: Seq<RunOutcome>,
)
    requires
        is_start(start, helper),
        outcomes.len() > 0,
        run_accepts(start, outcomes),
        action_after(start, outcomes) is Wait,
    ensures
        pause_registered(start, outcomes),
{
    lemma_registration(start, helper, outcomes);
}

/// A handler that quiesces by waiting for events does so only while the pause
/// event is out of the set: `quiesce` is called right after the handler has said
/// that it does not wait, or with the pause event removed.
pub proof fn law_quiesce_is_not_woken_by_the_pause_event(
    start: RunView,
    helper: EpollHelper,
    outcomes: Seq<RunOutcome>,
)
    requires
        is_start(start, helper),
        outcomes.len() > 0,
        run_accepts(start, outcomes),
        action_after(start, outcomes) is Quiesce,
    ensures
        outcomes.last() == RunOutcome::QuiesceWaits(false) || !pause_registered(start, outcomes),
{
    lemma_registration(start, helper, outcomes);
}

/// Once a pause event was taken up the barrier is reached, after at most three
/// outcomes and whatever they are: neither a failure to take the pause event out
/// of the set nor a failure to quiesce keeps the pausing thread waiting.
pub proof fn law_pause_is_always_acknowledged(run: RunView, outcomes: Seq<RunOutcome>)
    requires
        run.wf(),
        run.stage is Asking,
        outcomes.len() == 3,
        run_accepts(run, outcomes),
    ensures
        exists|n: int|
            1 <= n <= 3 && #[trigger] action_after(run, outcomes.take(n)) is Acknowledge,
{
    let one = outcomes.take(1);
    let two = outcomes.take(2);
    assert(outcomes.take(3) =~= outcomes);
    assert(outcomes.drop_last() =~= two);
    assert(two.drop_last() =~= one);
    assert(one.drop_last() =~= Seq::empty());
    reveal_with_fuel(run_after, 4);
    reveal_with_fuel(run_accepts, 4);
    if action_after(run, one) is Acknowledge {
    } else if action_after(run, two) is Acknowledge {
    } else {
        assert(action_after(run, outcomes.take(3)) is Acknowledge);
    }
}

/// Between the barrier and the moment the device is seen to be resumed, the
/// thread only reads the paused flag and parks, however often it is woken.
pub proof fn law_paused_device_does_nothing(run: RunView, outcomes: Seq<RunOutcome>)
    requires
        run.stage is Acknowledging,
        outcomes.len() > 0,
        run_accepts(run, outcomes),
        forall|i: int| 0 <= i < outcomes.len() ==> outcomes[i] != RunOutcome::Paused(false),
    ensures
        action_after(run, outcomes) is LoadPaused || action_after(run, outcomes) is Park,
        run_after(run, outcomes).stage is PausedCheck || run_after(run, outcomes).stage is Parked,
    decreases outcomes.len(),
{
    let before = outcomes.drop_last();
    assert(outcomes.last() == outcomes[outcomes.len() - 1]);
    if before.len() > 0 {
        assert forall|i: int| 0 <= i < before.len() implies before[i] != RunOutcome::Paused(false) by {
            assert(before[i] == outcomes[i]);
        }
        law_paused_device_does_nothing(run, before);
    }
}

/// A device that is paused when its thread starts is not served before it is
/// resumed: until then the thread only reads the paused flag and parks.
pub proof fn law_paused_device_is_not_started(
    helper: EpollHelper,
    timeout: i32,
    list: bool,
    outcomes: Seq<RunOutcome>,
)
    requires
        outcomes.len() > 0,
        run_accepts(run_start(helper, timeout, list).0, outcomes),
        forall|i: int| 0 <= i < outcomes.len() ==> outcomes[i] != RunOutcome::Paused(false),
    ensures
        ({
            let start = run_start(helper, timeout, list).0;
            &&& action_after(start, outcomes) is LoadPaused || action_after(start, outcomes) is Park
            &&& run_after(start, outcomes).stage is EntryCheck || run_after(
                start,
                outcomes,
            ).stage is EntryParked
        }),
    decreases outcomes.len(),
{
    let before = outcomes.drop_last();
    assert(outcomes.last() == outcomes[outcomes.len() - 1]);
    if before.len() > 0 {
        assert forall|i: int| 0 <= i < before.len() implies before[i] != RunOutcome::Paused(false) by {
            assert(before[i] == outcomes[i]);
        }
        law_paused_device_is_not_started(helper, timeout, list, before);
    }
}

/// After the device was resumed the pause event is drained first. Then, if it was
/// out of the set, it is put back and the rest of the batch is given up for a new
/// wait; if it was not, the next event of the same batch follows.
pub proof fn law_after_a_pause(run: RunView)
    requires
        run.wf(),
        run.stage is PausedCheck,
    ensures
        ({
            let (draining, drain) = run.step(RunOutcome::Paused(false));
            let (next, action) = draining.step(RunOutcome::Drained);
            &&& drain is DrainPause
            &&& run.pause_removed ==> {
                let (waiting, wait) = next.step(RunOutcome::Controlled(Ok(())));
                &&& action == RunAction::Control(run.add_pause())
                &&& wait == (RunAction::Wait { timeout: run.timeout })
                &&& waiting.events.len() == 0
            }
            &&& !run.pause_removed ==> (next, action) == run.dispatch(run.index + 1)
        }),
{
}

pub(crate) proof fn lemma_take_up_one(events: Seq<EpollEvent>, index: int)
    requires
        0 <= index < events.len(),
    ensures
        ordinary(events.take(index + 1)) == (if events[index].is_ordinary() {
            ordinary(events.take(index)).push(events[index])
        } else {
            ordinary(events.take(index))
        }),
{
    assert(events.take(index + 1).drop_last() =~= events.take(index));
    assert(events.take(index + 1).last() == events[index]);
}

/// Whether the machine is at work outside any batch of events.
pub(crate) open spec fn has_no_batch(run: RunView) -> bool {
    ||| run.stage is EntryCheck
    ||| run.stage is EntryParked
    ||| run.stage is Waiting
    ||| run.stage is Timeout
}

pub(crate) proof fn lemma_delivery(start: RunView, helper: EpollHelper, outcomes: Seq<RunOutcome>)
    requires
        is_start(start, helper),
        run_accepts(start, outcomes),
    ensures
        run_after(start, outcomes).wf(),
        delivered(start, outcomes) == ordinary(taken_up(run_after(start, outcomes)))
            || run_after(start, outcomes).stage is Waiting || run_after(start, outcomes).stage
            is Finished,
        has_no_batch(run_after(start, outcomes)) ==> run_after(start, outcomes).events.len() == 0,
        forall|i: int|
            0 <= i < run_after(start, outcomes).index ==> (#[trigger] run_after(
                start,
                outcomes,
            ).events[i]).id() != EPOLL_HELPER_EVENT_KILL,
        run_after(start, outcomes).at_event() ==> run_after(
            start,
            outcomes,
        ).events[run_after(start, outcomes).index].id() != EPOLL_HELPER_EVENT_KILL,
        run_after(start, outcomes).stage is Handling ==> run_after(
            start,
            outcomes,
        ).events[run_after(start, outcomes).index].is_ordinary(),
        run_after(start, outcomes).in_pause() ==> !run_after(
            start,
            outcomes,
        ).events[run_after(start, outcomes).index].is_ordinary(),
    decreases outcomes.len(),
{
    if outcomes.len() > 0 {
        lemma_delivery(start, helper, outcomes.drop_last());
        let before = run_after(start, outcomes.drop_last());
        let run = run_after(start, outcomes);
        if before.at_event() {
            lemma_take_up_one(before.events, before.index);
        }
        if run.at_event() {
            lemma_take_up_one(run.events, run.index);
        }
        assert(run.index == 0 ==> run.events.take(0) =~= Seq::empty());
    } else {
        assert(start.events.take(0) =~= Seq::empty());
    }
}

/// While a batch is worked on, the handler has been handed the device's events in
/// the order of the batch, each once and none skipped, up to the current event;
/// the kill event is never passed over.
pub proof fn law_events_are_delivered_in_order(
    start: RunView,
    helper: EpollHelper,
    outcomes: Seq<RunOutcome>,
)
    requires
        is_start(start, helper),
        run_accepts(start, outcomes),
        !(run_after(start, outcomes).stage is Waiting),
        !(run_after(start, outcomes).stage is Finished),
    ensures
        delivered(start, outcomes) == ordinary(taken_up(run_after(start, outcomes))),
        forall|i: int|
            0 <= i < taken_up(run_after(start, outcomes)).len() ==> (#[trigger] taken_up(
                run_after(start, outcomes),
            )[i]).id() != EPOLL_HELPER_EVENT_KILL,
{
    lemma_delivery(start, helper, outcomes);
    let run = run_after(start, outcomes);
    assert forall|i: int| 0 <= i < taken_up(run).len() implies (#[trigger] taken_up(run)[i]).id()
        != EPOLL_HELPER_EVENT_KILL by {
        assert(taken_up(run)[i] == run.events[i]);
    }
}

/// Leaving the loop hands nothing more to the handler, and nothing follows it.
pub proof fn law_return_is_final(start: RunView, outcomes: Seq<RunOutcome>, outcome: RunOutcome)
    requires
        outcomes.len() > 0,
        run_accepts(start, outcomes),
        action_after(start, outcomes) is Return,
    ensures
        !run_after(start, outcomes).accepts(outcome),
        !(outcomes.last() is Waited) ==> delivered(start, outcomes) == delivered(
            start,
            outcomes.drop_last(),
        ),
        outcomes.last() is Waited ==> delivered(start, outcomes).len() == 0,
{
}

/// The loop ends without an error exactly when the kill event becomes the current
/// event, or, in the loop that runs until it is idle, when a wait gives no event.
/// Before the first event the handler may yet look at the list, and fail.
pub proof fn law_ends_well_on_the_kill_event(
    start: RunView,
    helper: EpollHelper,
    outcomes: Seq<RunOutcome>,
)
    requires
        is_start(start, helper),
        outcomes.len() > 0,
        run_accepts(start, outcomes),
    ensures
        ({
            let run = run_after(start, outcomes);
            let killed = run.index < run.events.len() && run.events[run.index].id()
                == EPOLL_HELPER_EVENT_KILL;
            let idle = start.until_idle && (outcomes.last() matches RunOutcome::Waited(Ok(events))
                && events@.len() == 0);
            let listed = action_after(start, outcomes) is EventList;
            let failed = outcomes.last() matches RunOutcome::Handled(Err(_));
            action_after(start, outcomes) == RunAction::Return(Ok(())) <==> (killed && !listed
                && !failed) || idle
        }),
{
    lemma_delivery(start, helper, outcomes.drop_last());
    lemma_delivery(start, helper, outcomes);
    lemma_settings_are_kept(start, outcomes.drop_last());
}

proof fn lemma_settings_are_kept(start: RunView, outcomes: Seq<RunOutcome>)
    requires
        run_accepts(start, outcomes),
    ensures
        run_after(start, outcomes).until_idle == start.until_idle,
        run_after(start, outcomes).timeout == start.timeout,
        run_after(start, outcomes).enable_event_list == start.enable_event_list,
    decreases outcomes.len(),
{
    if outcomes.len() > 0 {
        lemma_settings_are_kept(start, outcomes.drop_last());
    }
}

/// Every wait of a run has the timeout that the run was started with.
pub proof fn law_every_wait_has_the_same_timeout(start: RunView, outcomes: Seq<RunOutcome>)
    requires
        outcomes.len() > 0,
        run_accepts(start, outcomes),
        action_after(start, outcomes) is Wait,
    ensures
        action_after(start, outcomes) == (RunAction::Wait { timeout: start.timeout }),
{
    lemma_settings_are_kept(start, outcomes.drop_last());
}

/// With event lists, every batch is shown to the handler whole before any of its
/// events is handled; without, no list is ever shown.
pub proof fn law_list_comes_before_the_events(
    start: RunView,
    outcomes: Seq<RunOutcome>,
    events: Vec<EpollEvent>,
)
    requires
        outcomes.len() > 0,
        run_accepts(start, outcomes),
    ensures
        action_after(start, outcomes) is EventList ==> start.enable_event_list && delivered(
            start,
            outcomes,
        ).len() == 0,
        start.enable_event_list && events@.len() > 0 && outcomes.last() == RunOutcome::Waited(
            Ok(events),
        ) ==> action_after(start, outcomes) is EventList && run_after(start, outcomes).events
            == events@,
{
    lemma_settings_are_kept(start, outcomes.drop_last());
}

/// The handler's `handle_timeout` is called exactly when a wait of a loop that
/// does not end when idle gave no event.
pub proof fn law_timeout_means_no_event(start: RunView, outcomes: Seq<RunOutcome>)
    requires
        outcomes.len() > 0,
        run_accepts(start, outcomes),
    ensures
        action_after(start, outcomes) is HandleTimeout <==> (!start.until_idle && (outcomes.last()
            matches RunOutcome::Waited(Ok(events)) && events@.len() == 0)),
{
    lemma_settings_are_kept(start, outcomes.drop_last());
}

/// An error of the handler, other than one of its `quiesce`, ends the loop and is
/// what the loop returns.
pub proof fn law_handler_error_is_returned(run: RunView, error: EpollHelperError)
    requires
        run.accepts(RunOutcome::Handled(Err(error))),
    ensures
        run.step(RunOutcome::Handled(Err(error))).1 == RunAction::Return(Err(error)),
{
}

/// An interrupted wait is repeated, and is no error.
pub proof fn law_interrupted_wait_is_repeated(run: RunView, error: std::io::Error)
    requires
        run.stage is Waiting,
        io_error_interrupted(error),
    ensures
        run.step(RunOutcome::Waited(Err(error))).1 == (RunAction::Wait { timeout: run.timeout }),
        run.step(RunOutcome::Waited(Err(error))).0.stage is Waiting,
{
}

/// A wait that failed is repeated where it was interrupted, with nothing at hand of a
/// batch before it; otherwise its error ends the loop.
pub proof fn law_failed_wait(run: RunView, error: std::io::Error, interrupted: bool)
    ensures
        ({
            let (after, action) = run.wait_failed(error, interrupted);
            &&& interrupted ==> {
                &&& action == (RunAction::Wait { timeout: run.timeout })
                &&& after.stage is Waiting
                &&& after.events.len() == 0
            }
            &&& !interrupted ==> {
                &&& action == RunAction::Return(Err(EpollHelperError::Wait(error)))
                &&& after.stage is Finished
            }
            &&& after.helper == run.helper
            &&& after.timeout == run.timeout
            &&& after.enable_event_list == run.enable_event_list
            &&& after.until_idle == run.until_idle
        }),
{
}

} // verus!
