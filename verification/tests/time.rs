use ghostos::io::PortOp;
use ghostos::time::{init, now, Duration};

#[test]
fn timer_init_programs_channel_0() {
    assert_eq!(
        init(),
        vec![
            PortOp::WriteU8 { port: 0x43, value: 0x34 },
            PortOp::WriteU8 { port: 0x40, value: 0xA9 },
            PortOp::WriteU8 { port: 0x40, value: 0x04 },
        ]
    );
}

#[test]
fn now_counts_reload_periods_of_the_input_clock() {
    assert_eq!(now(0), Duration::new(0, 0));
    assert_eq!(now(1), Duration::new(0, 999_847));
    assert_eq!(now(1000), Duration::new(0, 999_847_466));
    assert_eq!(now(1001), Duration::new(1, 847_314));
    assert_eq!(now(5_000_000), Duration::new(4999, 237_333_449));
}

#[test]
fn now_handles_the_largest_tick_count() {
    let t = now(u64::MAX);
    let cycles = u64::MAX as u128 * 1193;
    assert_eq!(t.as_secs() as u128, cycles / 1_193_182);
    assert!(t.subsec_nanos() < 1_000_000_000);
}

#[test]
fn duration_arithmetic() {
    let d = Duration::from_nanos(3_500_000_001);
    assert_eq!(d.as_secs(), 3);
    assert_eq!(d.subsec_nanos(), 500_000_001);
    assert_eq!(d.as_nanos(), 3_500_000_001);
    assert_eq!(d.as_nanos_saturated(), 3_500_000_001);
    let big = Duration::new(u64::MAX, 999_999_999);
    assert_eq!(big.as_nanos_saturated(), u64::MAX);
    assert!(d.le(big));
    assert!(!big.le(d));
    assert!(d.le(d));
}
