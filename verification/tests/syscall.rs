use ghostos::input::{InputState, KeyboardState, MouseState};
use ghostos::syscall::{
    dispatch, prepare_kernel_syscall, KernelSyscall, SyscallDisposition, SyscallNumber,
    UnknownSyscallNumber, UserContext,
};
use ghostos::time::Duration;

fn frame(rax: u64, rdi: u64) -> UserContext {
    let mut f = UserContext::new(0x40_1000, 0x7fff_ffff_eff8, 0x23, 0x1b);
    f.rax = rax;
    f.rdi = rdi;
    f
}

#[test]
fn syscall_numbers_round_trip() {
    for n in 0..6u64 {
        assert_eq!(SyscallNumber::try_from(n).unwrap().value(), n);
    }
    assert_eq!(SyscallNumber::try_from(6), Err(UnknownSyscallNumber(6)));
    assert_eq!(UnknownSyscallNumber(42).raw(), 42);
    assert_eq!(SyscallNumber::try_from(2), Ok(SyscallNumber::SleepUntil));
}

#[test]
fn new_context_starts_with_interrupts_enabled() {
    let c = UserContext::new(0x40_1000, 0x7fff_ffff_eff8, 0x23, 0x1b);
    assert_eq!(c.instruction_pointer, 0x40_1000);
    assert_eq!(c.stack_pointer, 0x7fff_ffff_eff8);
    assert_eq!(c.code_segment, 0x23);
    assert_eq!(c.stack_segment, 0x1b);
    assert_eq!(c.flags, 0x202);
    assert_eq!(c.rax, 0);
}

#[test]
fn yield_enters_the_kernel_loop() {
    let mut f = frame(1, 0);
    let before = f.clone();
    let out = dispatch(&mut f, Duration::new(1, 0), InputState::new(KeyboardState::new(), MouseState::new()));
    assert_eq!(out.disposition, SyscallDisposition::EnterKernel);
    assert_eq!(out.log_byte, None);
    assert_eq!(f, before);
}

#[test]
fn sleep_until_a_past_deadline_returns_at_once() {
    let input = InputState::new(KeyboardState::new(), MouseState::new());
    let mut f = frame(2, 1_000_000_000);
    let out = dispatch(&mut f, Duration::new(1, 0), input);
    assert_eq!(out.disposition, SyscallDisposition::ReturnToUser);
    assert_eq!(f.rax, 0);
    let mut g = frame(2, 1_000_000_001);
    let out = dispatch(&mut g, Duration::new(1, 0), input);
    assert_eq!(out.disposition, SyscallDisposition::EnterKernel);
    assert_eq!(g.rax, 2);
}

#[test]
fn time_now_returns_nanoseconds() {
    let input = InputState::new(KeyboardState::new(), MouseState::new());
    let mut f = frame(3, 0);
    dispatch(&mut f, Duration::new(2, 5), input);
    assert_eq!(f.rax, 2_000_000_005);
    let mut g = frame(3, 0);
    dispatch(&mut g, Duration::new(u64::MAX, 0), input);
    assert_eq!(g.rax, u64::MAX);
}

#[test]
fn input_state_returns_three_words() {
    let mut keyboard = KeyboardState::new();
    keyboard.set_key(1, true);
    keyboard.set_key(65, true);
    let mut mouse = MouseState::new();
    mouse.set_position(3, 4);
    let mut f = frame(4, 0);
    let out = dispatch(&mut f, Duration::new(0, 0), InputState::new(keyboard, mouse));
    assert_eq!(out.disposition, SyscallDisposition::ReturnToUser);
    assert_eq!((f.rax, f.rdx, f.rcx), (2, 2, 0x0004_0003));
}

#[test]
fn debug_log_byte_hands_out_the_low_byte() {
    let input = InputState::new(KeyboardState::new(), MouseState::new());
    let mut f = frame(5, 0x1_41);
    let out = dispatch(&mut f, Duration::new(0, 0), input);
    assert_eq!(out.log_byte, Some(0x41));
    assert_eq!(f.rax, 0);
}

#[test]
fn kernel_loop_finishes_yield_and_sleep() {
    let mut f = frame(1, 0);
    assert_eq!(prepare_kernel_syscall(&mut f), KernelSyscall::Yield);
    assert_eq!(f.rax, 0);
    let mut g = frame(2, 3_000_000_007);
    assert_eq!(prepare_kernel_syscall(&mut g), KernelSyscall::SleepUntil(Duration::new(3, 7)));
    assert_eq!(g.rax, 1);
}
