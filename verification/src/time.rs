//! Time: the programmable interval timer and the clock it drives.
use crate::io::PortOp;
use vstd::arithmetic::div_mod::{lemma_div_is_ordered, lemma_fundamental_div_mod, lemma_mod_bound};
use vstd::prelude::*;

verus! {

/// Timer interrupts per second.
pub const TIMER_FREQUENCY_HZ: u64 = 1_000;

/// The frequency of the timer's input clock.
pub const PIT_INPUT_FREQUENCY_HZ: u64 = 1_193_182;

/// The reload value that divides the input clock down to the timer
/// frequency.
pub const PIT_RELOAD_VALUE: u16 = 1193;

/// Channel 0 data port.
pub const PIT_CHANNEL_0: u16 = 0x40;

/// Mode/command port.
pub const PIT_COMMAND: u16 = 0x43;

/// Nanoseconds per second.
pub const NANOS_PER_SECOND: u64 = 1_000_000_000;

/// A span of time: whole seconds and the nanoseconds beyond them.
#[derive(Debug, Clone, Copy, PartialEq, Eq, Structural)]
pub struct Duration {
    seconds: u64,
    nanoseconds: u32,
}

impl Duration {
    #[verifier::type_invariant]
    closed spec fn inv(self) -> bool {
        self.nanoseconds < NANOS_PER_SECOND
    }

    pub closed spec fn spec_seconds(self) -> u64 {
        self.seconds
    }

    pub closed spec fn spec_subsec_nanos(self) -> u32 {
        self.nanoseconds
    }

    /// The whole span in nanoseconds.
    pub open spec fn nanos(self) -> int {
        self.spec_seconds() as int * NANOS_PER_SECOND + self.spec_subsec_nanos() as int
    }

    /// `seconds` and `nanoseconds` below one second.
    pub fn new(seconds: u64, nanoseconds: u32) -> (r: Self)
        requires
            nanoseconds < NANOS_PER_SECOND,
        ensures
            r.spec_seconds() == seconds,
            r.spec_subsec_nanos() == nanoseconds,
    {
        Self { seconds, nanoseconds }
    }

    pub fn from_nanos(nanoseconds: u64) -> (r: Self)
        ensures
            r.nanos() == nanoseconds,
            r.spec_subsec_nanos() < NANOS_PER_SECOND,
    {
        Self {
            seconds: nanoseconds / NANOS_PER_SECOND,
            nanoseconds: (nanoseconds % NANOS_PER_SECOND) as u32,
        }
    }

    #[verifier::when_used_as_spec(spec_seconds)]
    pub fn as_secs(self) -> (r: u64)
        ensures
            r == self.spec_seconds(),
    {
        self.seconds
    }

    #[verifier::when_used_as_spec(spec_subsec_nanos)]
    pub fn subsec_nanos(self) -> (r: u32)
        ensures
            r == self.spec_subsec_nanos(),
            r < NANOS_PER_SECOND,
    {
        proof {
            use_type_invariant(self);
        }
        self.nanoseconds
    }

    /// The whole span in nanoseconds.
    pub fn as_nanos(self) -> (r: u128)
        ensures
            r == self.nanos(),
    {
        proof {
            use_type_invariant(self);
            let s = self.seconds as int;
            assert(s * 1_000_000_000 <= u64::MAX as int * 1_000_000_000) by (nonlinear_arith)
                requires
                    0 <= s <= u64::MAX,
            ;
        }
        self.seconds as u128 * NANOS_PER_SECOND as u128 + self.nanoseconds as u128
    }

    /// The span in nanoseconds, or `u64::MAX` when it does not fit.
    pub fn as_nanos_saturated(self) -> (r: u64)
        ensures
            r == if self.nanos() > u64::MAX {
                u64::MAX as int
            } else {
                self.nanos()
            },
    {
        let nanos = self.as_nanos();
        if nanos > u64::MAX as u128 {
            u64::MAX
        } else {
            nanos as u64
        }
    }

    /// Whether this span is at most `other`.
    pub fn le(self, other: Self) -> (r: bool)
        ensures
            r == (self.nanos() <= other.nanos()),
    {
        self.as_nanos() <= other.as_nanos()
    }
}

/// The mode command and the two halves of the reload value that start the
/// timer: channel 0, low then high byte, rate generator, binary.
pub fn init() -> (ops: Vec<PortOp>)
    ensures
        ops@ == seq![
            PortOp::WriteU8 { port: PIT_COMMAND, value: 0x34 },
            PortOp::WriteU8 { port: PIT_CHANNEL_0, value: 0xA9 },
            PortOp::WriteU8 { port: PIT_CHANNEL_0, value: 0x04 },
        ],
{
    let mut ops = Vec::new();
    ops.push(PortOp::WriteU8 { port: PIT_COMMAND, value: 0x30 | 0x04 });
    ops.push(PortOp::WriteU8 { port: PIT_CHANNEL_0, value: PIT_RELOAD_VALUE as u8 });
    ops.push(PortOp::WriteU8 { port: PIT_CHANNEL_0, value: (PIT_RELOAD_VALUE >> 8u16) as u8 });
    assert(0x30u8 | 0x04u8 == 0x34u8 && 1193u16 as u8 == 0xA9u8 && (1193u16 >> 8u16) as u8 == 4u8)
        by (bit_vector);
    ops
}

/// The time after `ticks` timer interrupts, in nanoseconds: each tick is
/// one reload period of the input clock; whole seconds and the nanoseconds
/// beyond them are each rounded down.
pub open spec fn clock_nanos(ticks: int) -> int {
    (ticks * PIT_RELOAD_VALUE) / PIT_INPUT_FREQUENCY_HZ as int * NANOS_PER_SECOND + ((ticks
        * PIT_RELOAD_VALUE) % PIT_INPUT_FREQUENCY_HZ as int) * NANOS_PER_SECOND
        / PIT_INPUT_FREQUENCY_HZ as int
}

/// The clock never runs backwards: more ticks never give an earlier time.
pub proof fn lemma_clock_monotonic(t1: int, t2: int)
    requires
        0 <= t1 <= t2,
    ensures
        clock_nanos(t1) <= clock_nanos(t2),
{
    let f = PIT_INPUT_FREQUENCY_HZ as int;
    let c1 = t1 * 1193;
    let c2 = t2 * 1193;
    assert(c1 <= c2) by (nonlinear_arith)
        requires
            c1 == t1 * 1193,
            c2 == t2 * 1193,
            t1 <= t2,
    ;
    let q1 = c1 / f;
    let q2 = c2 / f;
    let r1 = c1 % f;
    let r2 = c2 % f;
    lemma_div_is_ordered(c1, c2, f);
    lemma_fundamental_div_mod(c1, f);
    lemma_fundamental_div_mod(c2, f);
    lemma_mod_bound(c1, f);
    lemma_mod_bound(c2, f);
    if q1 == q2 {
        assert(r1 <= r2);
        assert(r1 * 1_000_000_000 <= r2 * 1_000_000_000) by (nonlinear_arith)
            requires
                r1 <= r2,
        ;
        lemma_div_is_ordered(r1 * 1_000_000_000, r2 * 1_000_000_000, f);
    } else {
        assert(r1 * 1_000_000_000 / f < 1_000_000_000) by (nonlinear_arith)
            requires
                0 <= r1 < f,
                f == 1_193_182,
        ;
        assert(q1 * 1_000_000_000 + 1_000_000_000 <= q2 * 1_000_000_000) by (nonlinear_arith)
            requires
                q1 < q2,
        ;
        assert(r2 * 1_000_000_000 / f >= 0) by (nonlinear_arith)
            requires
                r2 >= 0,
                f > 0,
        ;
    }
}

/// The time since the timer started, after `ticks` timer interrupts: each
/// tick is one reload period of the input clock. Seconds and nanoseconds
/// are rounded down.
pub fn now(ticks: u64) -> (r: Duration)
    ensures
        r.spec_seconds() == (ticks as int * PIT_RELOAD_VALUE) / PIT_INPUT_FREQUENCY_HZ as int,
        r.spec_subsec_nanos() == ((ticks as int * PIT_RELOAD_VALUE) % PIT_INPUT_FREQUENCY_HZ as int)
            * NANOS_PER_SECOND / PIT_INPUT_FREQUENCY_HZ as int,
        r.nanos() == clock_nanos(ticks as int),
{
    let ticks = ticks as u128;
    let pit_cycles = ticks * PIT_RELOAD_VALUE as u128;
    let frequency = PIT_INPUT_FREQUENCY_HZ as u128;
    let seconds = pit_cycles / frequency;
    let remainder = pit_cycles % frequency;
    assert(remainder * 1_000_000_000 < frequency * 1_000_000_000) by (nonlinear_arith)
        requires
            remainder < frequency,
    ;
    let nanoseconds = remainder * 1_000_000_000 / frequency;
    assert(nanoseconds < 1_000_000_000) by (nonlinear_arith)
        requires
            nanoseconds as int == (remainder * 1_000_000_000) as int / frequency as int,
            remainder < frequency,
            frequency > 0,
    ;
    assert(seconds <= u64::MAX) by (nonlinear_arith)
        requires
            seconds == pit_cycles / frequency,
            pit_cycles == ticks * 1193,
            ticks <= u64::MAX,
            frequency == 1_193_182,
    ;
    Duration::new(seconds as u64, nanoseconds as u32)
}

} // verus!
