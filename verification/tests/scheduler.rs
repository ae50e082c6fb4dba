use ghostos::scheduler::{ProcessState, Scheduler, SchedulerError, MAX_PROCESSES};
use ghostos::syscall::UserContext;
use ghostos::time::Duration;

fn context(entry: u64) -> UserContext {
    UserContext::new(entry, 0x7fff_ffff_eff8, 0x23, 0x1b)
}

#[test]
fn processes_run_round_robin() {
    let mut s = Scheduler::new();
    assert_eq!(s.add(context(0x1000)), Ok(0));
    assert_eq!(s.add(context(0x2000)), Ok(1));
    assert_eq!(s.add(context(0x3000)), Ok(2));
    let now = Duration::new(0, 0);
    let mut order = Vec::new();
    for _ in 0..5 {
        let (slot, ctx) = s.prepare_next(now).unwrap();
        assert_eq!(s.running(), Some(slot));
        assert_eq!(s.state(slot), ProcessState::Running);
        order.push((slot, ctx.instruction_pointer));
        s.yield_running();
        assert_eq!(s.running(), None);
        assert_eq!(s.state(slot), ProcessState::Ready);
    }
    assert_eq!(order, vec![(0, 0x1000), (1, 0x2000), (2, 0x3000), (0, 0x1000), (1, 0x2000)]);
}

#[test]
fn sleeping_processes_wake_at_their_deadline() {
    let mut s = Scheduler::new();
    s.add(context(0x1000)).unwrap();
    s.add(context(0x2000)).unwrap();
    let (first, _) = s.prepare_next(Duration::new(0, 0)).unwrap();
    assert_eq!(first, 0);
    s.sleep_running(Duration::new(5, 0));
    assert_eq!(s.state(0), ProcessState::Sleeping(Duration::new(5, 0)));
    let (second, _) = s.prepare_next(Duration::new(1, 0)).unwrap();
    assert_eq!(second, 1);
    s.sleep_running(Duration::new(9, 0));
    assert_eq!(s.prepare_next(Duration::new(4, 999_999_999)), None);
    assert_eq!(s.running(), None);
    let (third, _) = s.prepare_next(Duration::new(5, 0)).unwrap();
    assert_eq!(third, 0);
    assert_eq!(s.state(1), ProcessState::Sleeping(Duration::new(9, 0)));
}

#[test]
fn capture_running_saves_registers() {
    let mut s = Scheduler::new();
    s.add(context(0x1000)).unwrap();
    let (slot, mut ctx) = s.prepare_next(Duration::new(0, 0)).unwrap();
    ctx.rax = 77;
    assert_eq!(s.capture_running(ctx.clone()), slot);
    s.yield_running();
    let (_, again) = s.prepare_next(Duration::new(0, 0)).unwrap();
    assert_eq!(again.rax, 77);
}

#[test]
fn at_most_max_processes() {
    let mut s = Scheduler::new();
    for i in 0..MAX_PROCESSES {
        assert_eq!(s.add(context(i as u64)), Ok(i));
    }
    assert_eq!(s.add(context(0)), Err(SchedulerError::ProcessLimitReached));
    assert_eq!(s.process_count(), MAX_PROCESSES);
}

#[test]
fn transition_running_records_the_new_state() {
    let mut s = Scheduler::new();
    s.add(context(0x1000)).unwrap();
    s.prepare_next(Duration::new(0, 0)).unwrap();
    s.transition_running(ProcessState::Sleeping(Duration::new(1, 0)));
    assert_eq!(s.state(0), ProcessState::Sleeping(Duration::new(1, 0)));
    assert_eq!(s.running(), None);
}
