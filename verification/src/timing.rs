//! Frame timing: when the last tick was, how long the viewer has run, and
//! a counter that marks every hundredth tick for diagnostics.
//!
//! Timestamps are nanoseconds on a clock that the caller reads.

use vstd::prelude::*;

verus! {

/// The counter starts over when it reaches this value.
pub const TICK_PERIOD: u32 = 100;

/// `later - earlier`, or zero where the clock ran backwards.
pub open spec fn since(earlier: u64, later: u64) -> u64 {
    if later >= earlier {
        (later - earlier) as u64
    } else {
        0
    }
}

/// Whether a tick that finds the counter at `tick` is one for diagnostics.
pub open spec fn diagnostic_due(tick: u32) -> bool {
    tick % TICK_PERIOD == 0
}

/// The counter after a tick that found it at `tick`: one more, counted
/// from one again where a diagnostic was due.
pub open spec fn next_tick(tick: u32) -> int {
    if diagnostic_due(tick) {
        2
    } else {
        tick + 1
    }
}

/// What a `FrameTiming` holds, as a plain value.
pub struct TimingView {
    /// When the viewer started.
    pub start: u64,
    /// When the last tick was.
    pub last_tick: u64,
    /// The diagnostics counter.
    pub tick: u32,
}

impl TimingView {
    /// Time from the start to the last tick.
    pub open spec fn elapsed(self) -> u64 {
        since(self.start, self.last_tick)
    }
}

/// What one tick reports.
#[derive(Clone, Copy, Debug, PartialEq, Eq, Structural)]
pub struct Tick {
    /// Nanoseconds since the tick before.
    pub delta: u64,
    /// Nanoseconds since the start.
    pub elapsed: u64,
    /// Whether this tick is one for diagnostics.
    pub diagnostic: bool,
}

/// Nanoseconds in a microsecond.
pub const NANOS_PER_MICRO: u64 = 1_000;

impl Tick {
    /// Whole microseconds since the start.
    pub fn elapsed_micros(&self) -> (micros: u64)
        ensures
            micros == self.elapsed / NANOS_PER_MICRO,
    {
        self.elapsed / NANOS_PER_MICRO
    }
}

/// The timing state of the frame loop.
pub struct FrameTiming {
    start: u64,
    last_tick: u64,
    tick: u32,
}

impl View for FrameTiming {
    type V = TimingView;

    closed spec fn view(&self) -> TimingView {
        TimingView { start: self.start, last_tick: self.last_tick, tick: self.tick }
    }
}

impl FrameTiming {
    #[verifier::type_invariant]
    spec fn counter_bounded(self) -> bool {
        self.tick <= TICK_PERIOD
    }

    /// Timing that starts at `start`, with no tick yet.
    pub fn new(start: u64) -> (timing: FrameTiming)
        ensures
            timing@ == (TimingView { start, last_tick: start, tick: 0 }),
    {
        FrameTiming { start, last_tick: start, tick: 0 }
    }

    /// One tick at time `now`: reports the time since the tick before and
    /// since the start, notes `now` as the last tick and counts.
    pub fn advance(&mut self, now: u64) -> (tick: Tick)
        ensures
            tick.delta == since(old(self)@.last_tick, now),
            tick.elapsed == since(old(self)@.start, now),
            tick.diagnostic == diagnostic_due(old(self)@.tick),
            final(self)@.start == old(self)@.start,
            final(self)@.last_tick == now,
            final(self)@.tick == next_tick(old(self)@.tick),
            final(self)@.elapsed() == tick.elapsed,
    {
        proof {
            use_type_invariant(&*self);
        }
        let delta = if now >= self.last_tick {
            now - self.last_tick
        } else {
            0
        };
        let elapsed = if now >= self.start {
            now - self.start
        } else {
            0
        };
        let diagnostic = self.tick % TICK_PERIOD == 0;
        let counted: u32 = if diagnostic {
            2
        } else {
            self.tick + 1
        };
        self.last_tick = now;
        self.tick = counted;
        Tick { delta, elapsed, diagnostic }
    }

    /// When the viewer started.
    pub fn start(&self) -> (start: u64)
        ensures
            start == self@.start,
    {
        self.start
    }

    /// When the last tick was.
    pub fn last_tick(&self) -> (last: u64)
        ensures
            last == self@.last_tick,
    {
        self.last_tick
    }

    /// Nanoseconds from the start to the last tick.
    pub fn elapsed(&self) -> (elapsed: u64)
        ensures
            elapsed == self@.elapsed(),
    {
        if self.last_tick >= self.start {
            self.last_tick - self.start
        } else {
            0
        }
    }

    /// The diagnostics counter. It never passes `TICK_PERIOD`.
    pub fn tick(&self) -> (tick: u32)
        ensures
            tick == self@.tick,
            tick <= TICK_PERIOD,
    {
        proof {
            use_type_invariant(self);
        }
        self.tick
    }
}

/// From the second tick on the counter runs from 2 to `TICK_PERIOD` and
/// starts over, so a diagnostic is due once in `TICK_PERIOD - 1` ticks.
pub proof fn lemma_counter_cycles(tick: u32)
    requires
        tick <= TICK_PERIOD,
    ensures
        2 <= next_tick(tick) <= TICK_PERIOD,
        diagnostic_due(tick) <==> tick == 0 || tick == TICK_PERIOD,
{
}

} // verus!
