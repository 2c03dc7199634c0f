use vstd::prelude::*;
use std::sync::atomic::{AtomicU8, Ordering};

verus! {

/// The delay and sound counters, shared between the execution engine and
/// the timer clock.
///
/// Both sides reach them through atomic operations only, so neither ever
/// waits for the other; what a load returns is whatever the other side
/// left there.
pub struct Timers {
    dt: AtomicU8,
    st: AtomicU8,
}

/// What the clock asks of the tone output after one period.
#[derive(Debug, Clone, Copy, PartialEq, Eq, Structural)]
pub enum ToneEdge {
    Start,
    Stop,
    Hold,
}

/// The value a counter should take after one period, given the value
/// observed at the start of it: one less, unless it is already zero.
pub fn countdown(observed: u8) -> (r: Option<u8>)
    ensures
        observed == 0 ==> r is None,
        observed > 0 ==> r == Some((observed - 1) as u8),
{
    if observed > 0 {
        Some(observed - 1)
    } else {
        None
    }
}

/// The counter's value after a period in which `observed` was read and,
/// when that was not zero, a compare-and-set to one less was tried with
/// outcome `swap`: one less where the swap took, else the value that the
/// other side had put there (the decrement is skipped, not retried).
pub fn settle(observed: u8, swap: Option<Result<u8, u8>>) -> (level: u8)
    requires
        swap is Some ==> observed > 0,
    ensures
        swap is None ==> level == observed,
        swap matches Some(Ok(_)) ==> level == observed - 1,
        swap matches Some(Err(actual)) ==> level == actual,
{
    match swap {
        None => observed,
        Some(Ok(_)) => observed - 1,
        Some(Err(actual)) => actual,
    }
}

/// The tone follows the sound counter: it starts when the counter is above
/// one and the tone is off, and stops when the counter is one or less and
/// the tone is on.
pub fn tone_edge(level: u8, active: bool) -> (r: ToneEdge)
    ensures
        r == (if level <= 1 && active {
            ToneEdge::Stop
        } else if level > 1 && !active {
            ToneEdge::Start
        } else {
            ToneEdge::Hold
        }),
{
    if level <= 1 && active {
        ToneEdge::Stop
    } else if level > 1 && !active {
        ToneEdge::Start
    } else {
        ToneEdge::Hold
    }
}

/// Whether the tone counts as on after `edge` was asked for; `delivered`
/// says whether the sound output could be reached this period. Where it
/// could not, nothing changes and the edge comes again next period.
pub fn tone_after(active: bool, edge: ToneEdge, delivered: bool) -> (r: bool)
    ensures
        r == (if !delivered {
            active
        } else {
            match edge {
                ToneEdge::Start => true,
                ToneEdge::Stop => false,
                ToneEdge::Hold => active,
            }
        }),
{
    if !delivered {
        active
    } else {
        match edge {
            ToneEdge::Start => true,
            ToneEdge::Stop => false,
            ToneEdge::Hold => active,
        }
    }
}

/// One counter's step in a clock period: read it, and if it is above zero
/// try to replace what was read by one less.
fn step_counter(counter: &AtomicU8) -> (level: u8) {
    let observed = counter.load(Ordering::Relaxed);
    let swap = match countdown(observed) {
        Some(next) => Some(counter.compare_exchange(observed, next, Ordering::Relaxed, Ordering::Relaxed)),
        None => None,
    };
    settle(observed, swap)
}

impl Timers {
    pub fn new() -> Self {
        Timers { dt: AtomicU8::new(0), st: AtomicU8::new(0) }
    }

    pub fn delay(&self) -> u8 {
        self.dt.load(Ordering::Relaxed)
    }

    pub fn sound(&self) -> u8 {
        self.st.load(Ordering::Relaxed)
    }

    pub fn set_delay(&self, value: u8) {
        self.dt.store(value, Ordering::Relaxed)
    }

    pub fn set_sound(&self, value: u8) {
        self.st.store(value, Ordering::Relaxed)
    }

    /// One period of the timer clock: counts the delay counter and then
    /// the sound counter down by one each, where above zero and not
    /// changed meanwhile. Returns the sound counter's level afterwards,
    /// from which the tone is decided.
    pub fn clock_tick(&self) -> u8 {
        step_counter(&self.dt);
        step_counter(&self.st)
    }
}

} // verus!
