use vmm_core::epoll_helper::{
    ControlOperation, EpollControl, EpollEvent, EpollHelper, EpollHelperError, EpollHelperHandler,
    WaitStep, EPOLL_EVENTS_LEN, EPOLL_HELPER_EVENT_KILL, EPOLL_HELPER_EVENT_LAST,
    EPOLL_HELPER_EVENT_PAUSE,
};
use vmm_core::epoll_run::{EpollRun, RunAction, RunOutcome, RunStage};

const EPOLL_FD: i32 = 3;
const KILL_FD: i32 = 4;
const PAUSE_FD: i32 = 5;
const COMPLETION_FD: i32 = 6;

const TEST_COMPLETION_EVENT: u16 = EPOLL_HELPER_EVENT_LAST + 1;

/// A level-triggered epoll set and the event counters that it watches.
struct Kernel {
    set: Vec<(i32, EpollEvent)>,
    counters: Vec<(i32, u64)>,
}

impl Kernel {
    fn new() -> Self {
        Kernel { set: Vec::new(), counters: Vec::new() }
    }

    fn control(&mut self, control: EpollControl) -> Result<(), std::io::Error> {
        assert_eq!(control.epoll_fd, EPOLL_FD);
        let known = self.set.iter().position(|(fd, _)| *fd == control.fd);
        match (control.operation, known) {
            (ControlOperation::Add, None) => self.set.push((control.fd, control.event)),
            (ControlOperation::Modify, Some(i)) => self.set[i].1 = control.event,
            (ControlOperation::Delete, Some(i)) => {
                self.set.remove(i);
            }
            (ControlOperation::Add, Some(_)) => {
                return Err(std::io::Error::from_raw_os_error(libc::EEXIST));
            }
            _ => return Err(std::io::Error::from_raw_os_error(libc::ENOENT)),
        }
        Ok(())
    }

    fn write(&mut self, fd: i32) {
        self.counters.push((fd, 1));
    }

    fn read(&mut self, fd: i32) -> bool {
        let active = self.is_active(fd);
        self.counters.retain(|(other, _)| *other != fd);
        active
    }

    fn is_active(&self, fd: i32) -> bool {
        self.counters.iter().any(|(other, _)| *other == fd)
    }

    fn wait(&self, capacity: usize) -> Vec<EpollEvent> {
        let ready = self.set.iter().filter(|(fd, _)| self.is_active(*fd));
        ready.map(|(_, event)| *event).take(capacity).collect()
    }
}

struct QuiescingHandler {
    quiesce_count: usize,
    handled: usize,
}

impl EpollHelperHandler<Kernel> for QuiescingHandler {
    fn handle_event(
        &mut self,
        helper: &mut Kernel,
        event: &EpollEvent,
    ) -> Result<(), EpollHelperError> {
        if event.event_type() != TEST_COMPLETION_EVENT {
            return Err(EpollHelperError::IoError(std::io::Error::other("unexpected test event")));
        }
        assert!(helper.read(COMPLETION_FD));
        self.handled += 1;
        Ok(())
    }

    fn quiesce(&mut self, helper: &mut Kernel) -> Result<(), EpollHelperError> {
        // The pausing thread lets the outstanding work complete.
        helper.write(COMPLETION_FD);
        let events = helper.wait(1);
        let count = match EpollHelper::wait_for_events(Ok(events.len())) {
            WaitStep::Return(result) => result?,
            WaitStep::Retry => unreachable!(),
        };
        if count != 1 || events[0].event_type() != TEST_COMPLETION_EVENT {
            return Err(EpollHelperError::IoError(std::io::Error::other(
                "completion event did not wake quiesce",
            )));
        }
        assert!(helper.read(COMPLETION_FD));
        self.quiesce_count += 1;
        Ok(())
    }

    fn quiesce_waits_for_epoll_events(&self) -> bool {
        true
    }
}

fn armed() -> (EpollHelper, Kernel) {
    let mut kernel = Kernel::new();
    let (helper, controls) = EpollHelper::new(EPOLL_FD, KILL_FD, PAUSE_FD);
    for control in controls {
        EpollHelper::control_result(kernel.control(control)).unwrap();
    }
    (helper, kernel)
}

#[test]
fn test_pause_quiesce_uses_epoll_and_rearms_pause_event() {
    let (helper, mut kernel) = armed();
    let control = helper.add_event(COMPLETION_FD, TEST_COMPLETION_EVENT);
    EpollHelper::control_result(kernel.control(control)).unwrap();
    let mut handler = QuiescingHandler { quiesce_count: 0, handled: 0 };

    let mut paused = false;
    let mut cycles = 0usize;
    let (mut run, mut action) = helper.run();
    let result = loop {
        let outcome = match action {
            RunAction::LoadPaused => RunOutcome::Paused(paused),
            RunAction::Park => {
                paused = false;
                RunOutcome::Unparked
            }
            RunAction::Wait { timeout } => {
                assert_eq!(timeout, -1);
                if kernel.wait(EPOLL_EVENTS_LEN).is_empty() {
                    // What the pausing thread does: an event to show that the
                    // worker runs, then two pauses, then the kill event.
                    if handler.handled == cycles {
                        kernel.write(COMPLETION_FD);
                    } else if cycles < 2 {
                        paused = true;
                        kernel.write(PAUSE_FD);
                    } else {
                        kernel.write(KILL_FD);
                    }
                }
                RunOutcome::Waited(Ok(kernel.wait(EPOLL_EVENTS_LEN)))
            }
            RunAction::HandleTimeout => RunOutcome::Handled(handler.handle_timeout(&mut kernel)),
            RunAction::EventList => {
                RunOutcome::Handled(handler.event_list(&mut kernel, run.events()))
            }
            RunAction::HandleEvent(event) => {
                RunOutcome::Handled(handler.handle_event(&mut kernel, &event))
            }
            RunAction::AskQuiesceWaits => {
                let handler: &dyn EpollHelperHandler<Kernel> = &handler;
                RunOutcome::QuiesceWaits(handler.quiesce_waits_for_epoll_events())
            }
            RunAction::Control(control) => RunOutcome::Controlled(kernel.control(control)),
            RunAction::Quiesce => RunOutcome::Quiesced(handler.quiesce(&mut kernel)),
            RunAction::Acknowledge => {
                cycles += 1;
                assert_eq!(handler.quiesce_count, cycles);
                RunOutcome::Acknowledged
            }
            RunAction::DrainPause => {
                assert!(!paused);
                assert!(kernel.read(PAUSE_FD));
                RunOutcome::Drained
            }
            RunAction::Return(result) => break result,
        };
        assert!(run.accepts(&outcome));
        action = run.step(outcome);
    };
    result.unwrap();
    assert_eq!(cycles, 2);
    assert_eq!(handler.handled, 3);
    assert_eq!(kernel.set.len(), 3);
}

fn event(id: u16) -> EpollEvent {
    EpollEvent { events: 1, data: id as u64 }
}

fn waited(ids: &[u16]) -> RunOutcome {
    RunOutcome::Waited(Ok(ids.iter().map(|id| event(*id)).collect()))
}

fn failure(text: &str) -> EpollHelperError {
    EpollHelperError::IoError(std::io::Error::other(text.to_string()))
}

fn waiting(timeout: i32, list: bool) -> EpollRun {
    let helper = EpollHelper::new(EPOLL_FD, KILL_FD, PAUSE_FD).0;
    let (mut run, action) = helper.run_with_timeout(timeout, list);
    assert!(matches!(action, RunAction::LoadPaused));
    assert!(matches!(step(&mut run, RunOutcome::Paused(false)), RunAction::Wait { .. }));
    run
}

fn step(run: &mut EpollRun, outcome: RunOutcome) -> RunAction {
    assert!(run.accepts(&outcome));
    run.step(outcome)
}

#[test]
fn registration_is_for_reading() {
    let (helper, controls) = EpollHelper::new(EPOLL_FD, KILL_FD, PAUSE_FD);
    assert_eq!(helper.as_raw_fd(), EPOLL_FD);
    let epollin = epoll::Events::EPOLLIN.bits();
    assert_eq!(
        controls,
        vec![
            EpollControl {
                epoll_fd: EPOLL_FD,
                operation: ControlOperation::Add,
                fd: KILL_FD,
                event: EpollEvent { events: epollin, data: 1 },
            },
            EpollControl {
                epoll_fd: EPOLL_FD,
                operation: ControlOperation::Add,
                fd: PAUSE_FD,
                event: EpollEvent { events: epollin, data: 0 },
            },
        ]
    );
    let out = epoll::Events::EPOLLOUT.bits();
    let control = helper.mod_event_custom(9, u16::MAX, out);
    assert_eq!(control.operation, ControlOperation::Modify);
    assert_eq!(control.fd, 9);
    assert_eq!(control.event, EpollEvent { events: out, data: 0xffff });
    assert_eq!(helper.add_event_custom(9, 16, out).operation, ControlOperation::Add);
    assert_eq!(helper.del_event_custom(9, 16, out).operation, ControlOperation::Delete);
}

#[test]
fn id_is_the_low_half_word() {
    assert_eq!(EpollEvent { events: 0, data: 0x1234_5678_9abc_0010 }.event_type(), 0x10);
    assert_eq!(EpollEvent { events: 0, data: u64::MAX }.event_type(), u16::MAX);
    assert_eq!(EPOLL_HELPER_EVENT_PAUSE, 0);
    assert_eq!(EPOLL_HELPER_EVENT_KILL, 1);
    assert_eq!(EPOLL_HELPER_EVENT_LAST, 15);
}

#[test]
fn interrupted_wait_is_repeated() {
    let interrupted = || std::io::Error::from_raw_os_error(libc::EINTR);
    let refused = || std::io::Error::from_raw_os_error(libc::EBADF);
    assert!(matches!(EpollHelper::wait_for_events(Err(interrupted())), WaitStep::Retry));
    assert!(matches!(
        EpollHelper::wait_for_events(Err(refused())),
        WaitStep::Return(Err(EpollHelperError::Wait(_)))
    ));
    assert!(matches!(EpollHelper::wait_for_events(Ok(3)), WaitStep::Return(Ok(3))));
    assert!(matches!(EpollHelper::wait_step(Err(refused()), true), WaitStep::Retry));

    let mut run = waiting(250, false);
    let action = step(&mut run, RunOutcome::Waited(Err(interrupted())));
    assert!(matches!(action, RunAction::Wait { timeout: 250 }));
    match step(&mut run, RunOutcome::Waited(Err(refused()))) {
        RunAction::Return(Err(EpollHelperError::Wait(error))) => {
            assert_eq!(error.raw_os_error(), Some(libc::EBADF));
        }
        other => panic!("{:?}", other),
    }
    assert_eq!(run.stage(), RunStage::Finished);
    assert!(!run.accepts(&RunOutcome::Drained));

    let mut run = waiting(250, false);
    assert!(matches!(run.wait_failed(refused(), true), RunAction::Wait { timeout: 250 }));
    let action = run.wait_failed(interrupted(), false);
    assert!(matches!(action, RunAction::Return(Err(EpollHelperError::Wait(_)))));
}

#[test]
fn errors_of_calls_are_told_apart() {
    let refused = || std::io::Error::from_raw_os_error(libc::EPERM);
    assert!(matches!(
        EpollHelper::create_result(Err(refused())),
        Err(EpollHelperError::CreateFd(_))
    ));
    assert_eq!(EpollHelper::create_result(Ok(3)).unwrap(), 3);
    assert!(matches!(EpollHelper::control_result(Err(refused())), Err(EpollHelperError::Ctl(_))));
    assert!(EpollHelper::control_result(Ok(())).is_ok());
}

#[test]
fn paused_device_is_not_started() {
    let helper = EpollHelper::new(EPOLL_FD, KILL_FD, PAUSE_FD).0;
    let (mut run, action) = helper.run();
    assert!(matches!(action, RunAction::LoadPaused));
    for _ in 0..3 {
        assert!(matches!(step(&mut run, RunOutcome::Paused(true)), RunAction::Park));
        assert!(matches!(step(&mut run, RunOutcome::Unparked), RunAction::LoadPaused));
    }
    let action = step(&mut run, RunOutcome::Paused(false));
    assert!(matches!(action, RunAction::Wait { timeout: -1 }));
}

#[test]
fn events_are_handled_in_order() {
    let mut run = waiting(-1, false);
    let mut action = step(&mut run, waited(&[17, 16, 18]));
    for id in [17, 16, 18] {
        match action {
            RunAction::HandleEvent(handed) => assert_eq!(handed, event(id)),
            other => panic!("{:?}", other),
        }
        action = step(&mut run, RunOutcome::Handled(Ok(())));
    }
    assert!(matches!(action, RunAction::Wait { .. }));
    assert!(run.events().is_empty());
}

#[test]
fn kill_event_ends_the_batch() {
    let mut run = waiting(-1, false);
    step(&mut run, waited(&[16, 1, 17]));
    let action = step(&mut run, RunOutcome::Handled(Ok(())));
    assert!(matches!(action, RunAction::Return(Ok(()))));
}

#[test]
fn list_comes_before_the_events() {
    let mut run = waiting(-1, true);
    assert!(matches!(step(&mut run, waited(&[16, 17])), RunAction::EventList));
    assert_eq!(run.events(), &vec![event(16), event(17)]);
    let action = step(&mut run, RunOutcome::Handled(Ok(())));
    assert!(matches!(action, RunAction::HandleEvent(_)));

    let mut run = waiting(-1, true);
    step(&mut run, waited(&[1]));
    let action = step(&mut run, RunOutcome::Handled(Err(failure("list"))));
    assert!(matches!(action, RunAction::Return(Err(EpollHelperError::IoError(_)))));
}

#[test]
fn timeout_goes_to_the_handler() {
    let mut run = waiting(10, false);
    assert!(matches!(step(&mut run, waited(&[])), RunAction::HandleTimeout));
    let action = step(&mut run, RunOutcome::Handled(Ok(())));
    assert!(matches!(action, RunAction::Wait { timeout: 10 }));
    step(&mut run, waited(&[]));
    let action = step(&mut run, RunOutcome::Handled(Err(failure("timeout"))));
    assert!(matches!(action, RunAction::Return(Err(EpollHelperError::IoError(_)))));
}

#[test]
fn handler_error_is_returned() {
    let mut run = waiting(-1, false);
    step(&mut run, waited(&[16, 17]));
    let error = EpollHelperError::HandleEvent(anyhow::Error::msg("broken ring"));
    match step(&mut run, RunOutcome::Handled(Err(error))) {
        RunAction::Return(Err(EpollHelperError::HandleEvent(error))) => {
            assert_eq!(error.to_string(), "broken ring");
        }
        other => panic!("{:?}", other),
    }
}

#[test]
fn pause_without_waiting_goes_on_with_the_batch() {
    let mut run = waiting(-1, false);
    assert!(matches!(step(&mut run, waited(&[0, 17])), RunAction::AskQuiesceWaits));
    assert!(matches!(step(&mut run, RunOutcome::QuiesceWaits(false)), RunAction::Quiesce));
    let action = step(&mut run, RunOutcome::Quiesced(Err(failure("quiesce"))));
    assert!(matches!(action, RunAction::Acknowledge));
    assert!(matches!(step(&mut run, RunOutcome::Acknowledged), RunAction::LoadPaused));
    for _ in 0..2 {
        assert!(matches!(step(&mut run, RunOutcome::Paused(true)), RunAction::Park));
        assert!(matches!(step(&mut run, RunOutcome::Unparked), RunAction::LoadPaused));
    }
    assert!(matches!(step(&mut run, RunOutcome::Paused(false)), RunAction::DrainPause));
    match step(&mut run, RunOutcome::Drained) {
        RunAction::HandleEvent(handed) => assert_eq!(handed, event(17)),
        other => panic!("{:?}", other),
    }
}

#[test]
fn pause_that_waits_gives_the_batch_up() {
    let mut run = waiting(-1, false);
    step(&mut run, waited(&[0, 17]));
    match step(&mut run, RunOutcome::QuiesceWaits(true)) {
        RunAction::Control(control) => {
            assert_eq!(control.operation, ControlOperation::Delete);
            assert_eq!(control.fd, PAUSE_FD);
        }
        other => panic!("{:?}", other),
    }
    assert!(matches!(step(&mut run, RunOutcome::Controlled(Ok(()))), RunAction::Quiesce));
    step(&mut run, RunOutcome::Quiesced(Ok(())));
    step(&mut run, RunOutcome::Acknowledged);
    step(&mut run, RunOutcome::Paused(false));
    match step(&mut run, RunOutcome::Drained) {
        RunAction::Control(control) => {
            assert_eq!(control.operation, ControlOperation::Add);
            assert_eq!(control.fd, PAUSE_FD);
            assert_eq!(control.event, EpollEvent { events: 1, data: 0 });
        }
        other => panic!("{:?}", other),
    }
    let action = step(&mut run, RunOutcome::Controlled(Ok(())));
    assert!(matches!(action, RunAction::Wait { .. }));
    assert!(run.events().is_empty());
}

#[test]
fn failure_to_remove_the_pause_event_skips_quiescing() {
    let refused = || std::io::Error::from_raw_os_error(libc::ENOENT);
    let mut run = waiting(-1, false);
    step(&mut run, waited(&[0, 17]));
    step(&mut run, RunOutcome::QuiesceWaits(true));
    let action = step(&mut run, RunOutcome::Controlled(Err(refused())));
    assert!(matches!(action, RunAction::Acknowledge));
    step(&mut run, RunOutcome::Acknowledged);
    step(&mut run, RunOutcome::Paused(false));
    assert!(matches!(step(&mut run, RunOutcome::Drained), RunAction::HandleEvent(_)));
}

#[test]
fn failure_to_rearm_the_pause_event_is_an_error() {
    let mut run = waiting(-1, false);
    step(&mut run, waited(&[0]));
    step(&mut run, RunOutcome::QuiesceWaits(true));
    step(&mut run, RunOutcome::Controlled(Ok(())));
    step(&mut run, RunOutcome::Quiesced(Ok(())));
    step(&mut run, RunOutcome::Acknowledged);
    step(&mut run, RunOutcome::Paused(false));
    step(&mut run, RunOutcome::Drained);
    let refused = std::io::Error::from_raw_os_error(libc::ENOSPC);
    match step(&mut run, RunOutcome::Controlled(Err(refused))) {
        RunAction::Return(Err(EpollHelperError::Ctl(error))) => {
            assert_eq!(error.raw_os_error(), Some(libc::ENOSPC));
        }
        other => panic!("{:?}", other),
    }
}

#[test]
fn idle_loop_ends() {
    let helper = EpollHelper::new(EPOLL_FD, KILL_FD, PAUSE_FD).0;
    let (mut run, action) = helper.run_until_idle();
    assert!(matches!(action, RunAction::Wait { timeout: 0 }));
    assert!(matches!(step(&mut run, waited(&[16])), RunAction::HandleEvent(_)));
    let action = step(&mut run, RunOutcome::Handled(Ok(())));
    assert!(matches!(action, RunAction::Wait { timeout: 0 }));
    assert!(matches!(step(&mut run, waited(&[])), RunAction::Return(Ok(()))));
}

#[test]
fn handlers_do_nothing_by_default() {
    struct Plain {
        count: u32,
    }
    impl EpollHelperHandler<u8> for Plain {
        fn handle_event(
            &mut self,
            _helper: &mut u8,
            _event: &EpollEvent,
        ) -> Result<(), EpollHelperError> {
            self.count += 1;
            Ok(())
        }
    }
    let mut helper = 7u8;
    let mut plain = Plain { count: 5 };
    assert!(plain.handle_timeout(&mut helper).is_ok());
    assert!(plain.event_list(&mut helper, &[event(16)]).is_ok());
    assert!(plain.quiesce(&mut helper).is_ok());
    assert!(!plain.quiesce_waits_for_epoll_events());
    assert_eq!(helper, 7);
    assert_eq!(plain.count, 5);
}
