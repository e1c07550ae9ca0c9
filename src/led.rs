//! The actuator controller: blinks an output at a configurable period.
//!
//! The output level is held here; the board code drives the pin from it after
//! each call. Instants are ticks of a 1 MHz monotonic timer.
use vstd::prelude::*;

verus! {

/// The blink period, in milliseconds, that a new controller starts with.
pub const DEFAULT_RATE: u64 = 500;

/// The largest number of ticks by which a later instant may lead an earlier one.
pub const MAX_LEAD: u64 = 0x7fff_ffff_ffff_ffff;

/// Ticks from `earlier` to `now`, counted modulo the timer's range.
pub open spec fn ticks_between(now: u64, earlier: u64) -> int {
    (now - earlier) % 0x1_0000_0000_0000_0000
}

/// `now` is not earlier than `earlier` on the wrapping timer.
pub open spec fn not_before(now: u64, earlier: u64) -> bool {
    ticks_between(now, earlier) <= MAX_LEAD
}

/// Whole milliseconds from `earlier` to `now`.
pub open spec fn millis_between_spec(now: u64, earlier: u64) -> int {
    ticks_between(now, earlier) / 1000
}

/// Relies on fugit: subtracting two `TimerInstantU64<1_000_000>` values, which
/// panics when `earlier` is later than `now`, and `to_millis` of the difference.
#[verifier::external_body]
fn millis_between(now: u64, earlier: u64) -> (r: u64)
    requires
        not_before(now, earlier),
    ensures
        r == millis_between_spec(now, earlier),
{
    let now = fugit::TimerInstantU64::<1_000_000>::from_ticks(now);
    let earlier = fugit::TimerInstantU64::<1_000_000>::from_ticks(earlier);
    (now - earlier).to_millis()
}

#[derive(Clone, Copy, Debug)]
pub struct Led {
    /// Whether the output is on.
    pub lit: bool,
    /// Blink period in milliseconds; 0 keeps the output off.
    pub rate: u64,
    /// The instant of the last toggle.
    pub last: u64,
}

impl Led {
    /// The controller after `run(now)`.
    pub open spec fn advance(self, now: u64) -> Led {
        if self.rate > 0 {
            if millis_between_spec(now, self.last) > self.rate {
                Led { lit: !self.lit, last: now, ..self }
            } else {
                self
            }
        } else {
            Led { lit: false, ..self }
        }
    }

    /// A controller whose output is off, blinking at the default rate from `last`.
    pub fn new(last: u64) -> (r: Led)
        ensures
            r.lit == false,
            r.rate == DEFAULT_RATE,
            r.last == last,
    {
        Led { lit: false, rate: DEFAULT_RATE, last }
    }

    /// Advances the blinking to the instant `now`.
    pub fn run(&mut self, now: &u64)
        requires
            not_before(*now, old(self).last),
        ensures
            *final(self) == old(self).advance(*now),
    {
        let now: u64 = *now;
        if self.rate > 0 {
            if millis_between(now, self.last) > self.rate {
                self.toggle();
                self.last = now;
            }
        } else {
            self.off();
        }
    }

    fn on(&mut self)
        ensures
            *final(self) == (Led { lit: true, ..*old(self) }),
    {
        self.lit = true;
    }

    /// Switches the output off.
    pub fn off(&mut self)
        ensures
            *final(self) == (Led { lit: false, ..*old(self) }),
    {
        self.lit = false;
    }

    /// Whether the output is on.
    pub fn is_on(&self) -> (r: bool)
        ensures
            r == self.lit,
    {
        self.lit
    }

    /// Sets the output to the opposite of its current level.
    pub fn toggle(&mut self)
        ensures
            *final(self) == (Led { lit: !old(self).lit, ..*old(self) }),
    {
        if self.is_on() {
            self.off()
        } else {
            self.on()
        }
    }
}

/// Running the controller twice at the same instant does what running it
/// once does.
pub proof fn lemma_run_idempotent(led: Led, now: u64)
    ensures
        led.advance(now).advance(now) == led.advance(now),
{
}

/// After a toggle, the output does not toggle again until more than `rate`
/// milliseconds have passed.
pub proof fn lemma_one_toggle_per_period(led: Led, t1: u64, t2: u64)
    requires
        led.advance(t1).lit != led.lit,
        millis_between_spec(t2, t1) <= led.rate,
    ensures
        led.advance(t1).advance(t2) == led.advance(t1),
{
}

/// With rate 0 every run leaves the output off, and an output that is
/// already off is left exactly as it was.
pub proof fn lemma_rate_zero_keeps_off(led: Led, now: u64)
    requires
        led.rate == 0,
    ensures
        !led.advance(now).lit,
        led.advance(now).rate == 0,
        !led.lit ==> led.advance(now) == led,
{
}

} // verus!
