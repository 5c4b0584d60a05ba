//! Programmable interval timer: the tick counter and the time derived from it.

use vstd::prelude::*;

verus! {

/// PIT base frequency in Hz.
pub const PIT_FREQUENCY: u32 = 1193182;

/// Timer interrupts per second.
pub const TIMER_FREQUENCY: u32 = 100;

/// PIT channel 0 data port.
pub const PIT_CHANNEL0: u16 = 0x40;

/// PIT command port.
pub const PIT_COMMAND: u16 = 0x43;

/// The tick counter, advanced by each timer interrupt.
pub struct Timer {
    pub ticks: u64,
}

impl Timer {
    /// A counter at zero.
    pub fn new() -> (t: Timer)
        ensures
            t.ticks == 0,
    {
        Timer { ticks: 0 }
    }
}

/// The divisor that makes the PIT fire `TIMER_FREQUENCY` times a second.
pub open spec fn pit_divisor() -> u16 {
    (PIT_FREQUENCY / TIMER_FREQUENCY) as u16
}

/// The port writes that program channel 0 as a square-wave generator at
/// `TIMER_FREQUENCY`: the command byte, then the divisor's low and high bytes.
pub fn init() -> (writes: Vec<(u16, u8)>)
    ensures
        writes@ == seq![
            (PIT_COMMAND, 0x36u8),
            (PIT_CHANNEL0, (pit_divisor() & 0xFF) as u8),
            (PIT_CHANNEL0, ((pit_divisor() >> 8) & 0xFF) as u8),
        ],
{
    let divisor: u16 = (PIT_FREQUENCY / TIMER_FREQUENCY) as u16;
    let mut writes: Vec<(u16, u8)> = Vec::new();
    writes.push((PIT_COMMAND, 0x36));
    writes.push((PIT_CHANNEL0, (divisor & 0xFF) as u8));
    writes.push((PIT_CHANNEL0, ((divisor >> 8) & 0xFF) as u8));
    writes
}

/// Count one timer interrupt (the counter wraps, as an atomic add does).
pub fn tick(timer: &mut Timer)
    ensures
        final(timer).ticks == old(timer).ticks.wrapping_add(1),
{
    timer.ticks = timer.ticks.wrapping_add(1);
}

/// The number of timer interrupts so far.
pub fn ticks(timer: &Timer) -> (n: u64)
    ensures
        n == timer.ticks,
{
    timer.ticks
}

/// Milliseconds since boot: each tick is `1000 / TIMER_FREQUENCY` ms.
pub fn uptime_ms(timer: &Timer) -> (ms: u64)
    requires
        timer.ticks * 10 <= u64::MAX,
    ensures
        ms == timer.ticks * 10,
{
    ticks(timer) * (1000 / TIMER_FREQUENCY as u64)
}

/// Whole seconds since boot.
pub fn uptime_secs(timer: &Timer) -> (s: u64)
    requires
        timer.ticks * 10 <= u64::MAX,
    ensures
        s == timer.ticks * 10 / 1000,
{
    uptime_ms(timer) / 1000
}

/// Start a busy-wait of `ms` milliseconds: the uptime, in ms, at which it ends.
pub fn sleep_ms(timer: &Timer, ms: u64) -> (deadline: u64)
    requires
        timer.ticks * 10 + ms <= u64::MAX,
    ensures
        deadline == timer.ticks * 10 + ms,
{
    uptime_ms(timer) + ms
}

/// Whether a busy-wait that ends at `deadline` is over.
pub fn sleep_elapsed(timer: &Timer, deadline: u64) -> (done: bool)
    requires
        timer.ticks * 10 <= u64::MAX,
    ensures
        done == (timer.ticks * 10 >= deadline),
{
    uptime_ms(timer) >= deadline
}

} // verus!
