use vstd::prelude::*;

verus! {

/// Nanoseconds in one second: the unit of elapsed host time.
pub const NANOS_PER_SECOND: u64 = 1_000_000_000;

/// Rate at which both timers count down, per second.
pub const TIMER_HZ: u64 = 60;

/// Value of a countdown timer started at `v` after `n` ticks: it stops at 0.
pub open spec fn after_ticks(v: nat, n: nat) -> nat {
    if n >= v { 0 } else { (v - n) as nat }
}

/// The delay and sound timers.
pub struct Timers {
    pub delay: u8,
    pub sound: u8,
}

impl Timers {
    /// Both timers at 0.
    pub fn new() -> (r: Timers)
        ensures
            r.delay == 0,
            r.sound == 0,
    {
        Timers { delay: 0, sound: 0 }
    }

    /// One tick: each timer that is not 0 goes down by one.
    pub fn tick(&mut self)
        ensures
            final(self).delay == after_ticks(old(self).delay as nat, 1),
            final(self).sound == after_ticks(old(self).sound as nat, 1),
    {
        if let Some(d) = self.delay.checked_sub(1) {
            self.delay = d;
        }
        if let Some(s) = self.sound.checked_sub(1) {
            self.sound = s;
        }
    }

    /// `n` ticks in a row.
    pub fn tick_many(&mut self, n: u64)
        ensures
            final(self).delay == after_ticks(old(self).delay as nat, n as nat),
            final(self).sound == after_ticks(old(self).sound as nat, n as nat),
    {
        let mut i: u64 = 0;
        while i < n
            invariant
                i <= n,
                self.delay == after_ticks(old(self).delay as nat, i as nat),
                self.sound == after_ticks(old(self).sound as nat, i as nat),
            decreases n - i,
        {
            if self.delay == 0 && self.sound == 0 {
                return;
            }
            self.tick();
            i += 1;
        }
    }
}

/// Ticks at 0 leave a timer at 0, and a timer started at `v` has gone down
/// exactly `min(v, n)` times after `n` ticks.
pub proof fn lemma_timer_saturates(v: nat, n: nat)
    ensures
        after_ticks(0, n) == 0,
        v - after_ticks(v, n) == if n <= v { n } else { v },
{
}

/// A fixed-step accumulator: it turns elapsed host time into a number of
/// events at `rate` per second, carrying the fraction of a period over.
pub struct Pacer {
    rate: u64,
    carry: u64,
}

/// Events produced, and the carry left, when `elapsed` nanoseconds are added
/// to `carry` at `rate` events per second.
pub open spec fn pace(carry: nat, rate: nat, elapsed: nat) -> (nat, nat) {
    let t = carry + elapsed * rate;
    (t / 1_000_000_000, t % 1_000_000_000)
}

/// Events produced over a run of frames, each given by its elapsed time.
pub open spec fn events_over(carry: nat, rate: nat, frames: Seq<nat>) -> nat
    decreases frames.len(),
{
    if frames.len() == 0 {
        0
    } else {
        let (n, c) = pace(carry, rate, frames[0]);
        n + events_over(c, rate, frames.drop_first())
    }
}

/// Sum of the elapsed times of a run of frames.
pub open spec fn total_time(frames: Seq<nat>) -> nat
    decreases frames.len(),
{
    if frames.len() == 0 {
        0
    } else {
        frames[0] + total_time(frames.drop_first())
    }
}

impl Pacer {
    /// Events per second.
    pub closed spec fn rate(&self) -> nat {
        self.rate as nat
    }

    /// The carried-over part of a period, in units of 1/(10^9 * rate) s.
    pub closed spec fn carry(&self) -> nat {
        self.carry as nat
    }

    pub open spec fn wf(&self) -> bool {
        self.carry() < 1_000_000_000 && self.rate() <= 1_000_000_000
    }

    /// A pacer at `rate` events per second, with nothing carried. At most
    /// one event per nanosecond keeps every count within `u64`.
    pub fn new(rate: u64) -> (r: Pacer)
        requires
            rate <= NANOS_PER_SECOND,
        ensures
            r.wf(),
            r.rate() == rate,
            r.carry() == 0,
    {
        Pacer { rate, carry: 0 }
    }

    /// Adds `elapsed` nanoseconds and returns how many whole periods are due.
    pub fn advance(&mut self, elapsed: u64) -> (n: u64)
        requires
            old(self).wf(),
        ensures
            final(self).wf(),
            final(self).rate() == old(self).rate(),
            (n as nat, final(self).carry()) == pace(old(self).carry(), old(self).rate(), elapsed as nat),
    {
        assert((elapsed as u128) * (self.rate as u128) <= u64::MAX as u128 * 1_000_000_000) by (nonlinear_arith)
            requires
                self.rate <= 1_000_000_000,
        ;
        let t: u128 = self.carry as u128 + (elapsed as u128) * (self.rate as u128);
        let n = t / (NANOS_PER_SECOND as u128);
        proof {
            assert(t / 1_000_000_000 <= u64::MAX) by (nonlinear_arith)
                requires
                    t == self.carry + elapsed * self.rate,
                    self.carry < 1_000_000_000,
                    self.rate <= 1_000_000_000,
                    elapsed <= u64::MAX,
            ;
        }
        self.carry = (t % (NANOS_PER_SECOND as u128)) as u64;
        n as u64
    }
}

/// Over a run of frames, a pacer that starts with nothing carried produces
/// exactly `floor(T * rate)` events, where `T` is the total elapsed time in
/// seconds, whatever the lengths of the single frames.
pub proof fn lemma_pacer_total(rate: nat, frames: Seq<nat>)
    ensures
        events_over(0, rate, frames) == total_time(frames) * rate / 1_000_000_000,
{
    lemma_events_from(0, rate, frames);
}

/// Over a run of frames that lasts `T` seconds in all, a timer started at `v`
/// goes down exactly `min(v, floor(T * 60))` times and never below 0.
pub proof fn lemma_timer_over_frames(v: nat, frames: Seq<nat>)
    ensures
        v - after_ticks(v, events_over(0, TIMER_HZ as nat, frames)) == if total_time(frames) * 60
            / 1_000_000_000 <= v {
            total_time(frames) * 60 / 1_000_000_000
        } else {
            v
        },
{
    lemma_pacer_total(TIMER_HZ as nat, frames);
}

proof fn lemma_events_from(carry: nat, rate: nat, frames: Seq<nat>)
    requires
        carry < 1_000_000_000,
    ensures
        events_over(carry, rate, frames) == (carry + total_time(frames) * rate) / 1_000_000_000,
    decreases frames.len(),
{
    if frames.len() > 0 {
        let rest = frames.drop_first();
        let t = carry + frames[0] * rate;
        lemma_events_from(t % 1_000_000_000, rate, rest);
        let d: int = 1_000_000_000;
        let r = t % 1_000_000_000;
        let q = t / 1_000_000_000;
        let s = total_time(rest) * rate;
        vstd::arithmetic::div_mod::lemma_fundamental_div_mod(t as int, d);
        assert(carry + total_time(frames) * rate == q * d + (r + s)) by (nonlinear_arith)
            requires
                t == carry + frames[0] * rate,
                t == d * q + r,
                total_time(frames) == frames[0] + total_time(rest),
                s == total_time(rest) * rate,
        ;
        vstd::arithmetic::div_mod::lemma_hoist_over_denominator((r + s) as int, q as int, 1_000_000_000);
        assert(pace(carry, rate, frames[0]) == (q, r));
        assert(events_over(carry, rate, frames) == q + events_over(r, rate, rest));
        assert(events_over(r, rate, rest) == (r + s) / 1_000_000_000);
        assert((r + s) / 1_000_000_000 + q == ((r + s) + q * 1_000_000_000) / 1_000_000_000);
        assert(((r + s) + q * 1_000_000_000) == carry + total_time(frames) * rate);
    } else {
        assert(total_time(frames) == 0);
        assert(total_time(frames) * rate == 0);
        assert(carry / 1_000_000_000 == 0);
    }
}

} // verus!
