//! The local APIC timer: its registers and the tick count kept from its
//! interrupts.
use vstd::prelude::*;

verus! {

/// The counter's largest value; counting starts there.
pub const COUNT_MAX: u32 = 0xffffffff;

/// The timer's registers: the local vector table entry, the initial and
/// current counts and the divide configuration.
#[derive(Debug, Clone, Copy, PartialEq, Eq, Structural)]
pub struct LapicTimer {
    pub lvt_timer: u32,
    pub initial_count: u32,
    pub current_count: u32,
    pub divide_config: u32,
}

/// The local vector table entry `init` writes: periodic, not masked, on
/// interrupt vector `vector`.
pub open spec fn spec_lvt_timer_value(vector: u8) -> u32 {
    (0b010u32 << 16u32) | (vector as u32)
}

/// Sets the timer up: divide by 1, periodic on interrupt vector `vector`,
/// an initial count of 0x1000000.
pub fn init(timer: &mut LapicTimer, vector: u8)
    ensures
        final(timer).divide_config == 0b1011,
        final(timer).lvt_timer == spec_lvt_timer_value(vector),
        final(timer).initial_count == 0x1000000,
        final(timer).current_count == old(timer).current_count,
{
    timer.divide_config = 0b1011;
    timer.lvt_timer = (0b010u32 << 16u32) | (vector as u32);
    timer.initial_count = 0x1000000;
}

/// Starts counting down from the largest count.
pub fn start(timer: &mut LapicTimer)
    ensures
        *final(timer) == (LapicTimer { initial_count: COUNT_MAX, ..*old(timer) }),
{
    timer.initial_count = COUNT_MAX;
}

/// Ticks counted since `start`: the largest count less the current one.
pub fn elapsed(timer: &LapicTimer) -> (r: u32)
    ensures
        r == COUNT_MAX - timer.current_count,
{
    COUNT_MAX - timer.current_count
}

/// Stops the timer.
pub fn stop(timer: &mut LapicTimer)
    ensures
        *final(timer) == (LapicTimer { initial_count: 0, ..*old(timer) }),
{
    timer.initial_count = 0;
}

/// Counts the timer interrupts seen.
#[derive(Debug)]
pub struct TimerManager {
    tick: u64,
}

impl TimerManager {
    /// No tick counted yet.
    pub fn new() -> (r: TimerManager)
        ensures
            r.spec_tick() == 0,
    {
        TimerManager { tick: 0 }
    }

    /// The ticks counted, modulo 2^64.
    pub closed spec fn spec_tick(&self) -> u64 {
        self.tick
    }

    /// The ticks counted, modulo 2^64.
    pub fn current_tick(&self) -> (r: u64)
        ensures
            r == self.spec_tick(),
    {
        self.tick
    }

    /// Counts `count` more ticks, wrapping around.
    pub fn tick(&mut self, count: u64)
        ensures
            final(self).spec_tick() == ((old(self).spec_tick() + count) % 0x1_0000_0000_0000_0000) as u64,
    {
        self.tick = self.tick.wrapping_add(count);
    }
}


/// Counting `a` ticks and then `b` is counting `a + b`, modulo 2^64.
pub proof fn law_tick_adds(t: u64, a: u64, b: u64)
    ensures
        ((((t + a) % 0x1_0000_0000_0000_0000) as u64 + b) % 0x1_0000_0000_0000_0000) as u64 == ((t + (a
            + b)) % 0x1_0000_0000_0000_0000) as u64,
{
    let m: int = 0x1_0000_0000_0000_0000;
    vstd::arithmetic::div_mod::lemma_small_mod(b as nat, m as nat);
    vstd::arithmetic::div_mod::lemma_add_mod_noop(t + a, b as int, m);
    assert(((t + a) % m + b) % m == (t + a + b) % m);
}

} // verus!
