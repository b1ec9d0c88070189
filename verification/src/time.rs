//! Clocks and cooldowns. Instants are nanoseconds from the Unix epoch,
//! negative before it.
use vstd::prelude::*;

verus! {

/// Reads the system clock (`SystemTime::now`) against the Unix epoch: the
/// first part tells whether the clock is before the epoch, the second is
/// the distance from the epoch in nanoseconds. Nothing is promised of the
/// values: they are whatever the clock says.
#[verifier::external_body]
fn clock_reading() -> (bool, u128) {
    match std::time::SystemTime::now().duration_since(std::time::UNIX_EPOCH) {
        Ok(d) => (false, d.as_nanos()),
        Err(e) => (true, e.duration().as_nanos()),
    }
}

/// The current time, in nanoseconds from the Unix epoch (negative before
/// it). Every instant a system clock can show lies far inside the range of
/// `i128`; a reading beyond it would be taken as the nearest end.
pub(crate) fn clock_nanos() -> i128 {
    let (before, distance) = clock_reading();
    let limit: u128 = 0x7fff_ffff_ffff_ffff_ffff_ffff_ffff_ffff;
    let d: u128 = if distance > limit {
        limit
    } else {
        distance
    };
    if before {
        -(d as i128)
    } else {
        d as i128
    }
}

/// The time from `then` to `now`, or zero when `now` is earlier.
pub open spec fn elapsed(then: int, now: int) -> nat {
    if now >= then {
        (now - then) as nat
    } else {
        0
    }
}

/// Whether a cooldown last reset at `last` is over at `now`, for a
/// cooldown of `millis` milliseconds.
pub open spec fn cooldown_over(last: int, millis: nat, now: int) -> bool {
    elapsed(last, now) / 1_000_000 >= millis
}

/// The time from `then` to `now` in nanoseconds, zero when `now` is earlier.
fn nanos_between(then: i128, now: i128) -> (r: u128)
    ensures
        r == elapsed(then as int, now as int),
{
    if now < then {
        0
    } else if then >= 0 || now < 0 {
        (now - then) as u128
    } else {
        (now as u128) + ((-(then + 1)) as u128) + 1
    }
}

/// A stored instant. A timer is not copied: a program that shares one
/// holds it behind a lock.
pub struct Timer {
    time: i128,
}

impl Timer {
    pub closed spec fn time(&self) -> int {
        self.time as int
    }

    /// A timer set to the current time.
    pub fn new() -> (r: Timer) {
        Timer { time: clock_nanos() }
    }

    pub fn new_time(time: i128) -> (r: Timer)
        ensures
            r.time() == time,
    {
        Timer { time }
    }

    /// The time from the stored instant to `time`, zero if `time` is earlier.
    pub fn since(&self, time: i128) -> (r: u128)
        ensures
            r == elapsed(self.time(), time as int),
    {
        nanos_between(self.time, time)
    }

    /// The time from the stored instant to now.
    pub fn since_now(&self) -> (r: u128)
        ensures
            exists|now: i128| r == elapsed(self.time(), now as int),
    {
        let now = clock_nanos();
        self.since(now)
    }

    pub fn update_time(&mut self, time: i128)
        ensures
            final(self).time() == time,
    {
        self.time = time;
    }

    /// Sets the stored instant to now.
    pub fn update_time_now(&mut self) {
        self.time = clock_nanos();
    }
}

/// A cooldown: it is over once enough time has passed since it was last
/// reset. A new cooldown was last reset at the Unix epoch. A cooldown is
/// not copied: a program that shares one holds it behind a lock.
pub struct Cooldown {
    timer: Timer,
}

impl Cooldown {
    /// The instant of the last reset.
    pub closed spec fn last(&self) -> int {
        self.timer.time()
    }

    pub fn new() -> (r: Cooldown)
        ensures
            r.last() == 0,
    {
        Cooldown { timer: Timer::new_time(0) }
    }

    /// Whether a cooldown of `time` milliseconds is over at `now`.
    pub fn is_done_at(&self, time: u128, now: i128) -> (r: bool)
        ensures
            r == cooldown_over(self.last(), time as nat, now as int),
    {
        self.timer.since(now) / 1_000_000 >= time
    }

    /// Whether a cooldown of `time` milliseconds is over now.
    pub fn is_done(&self, time: u128) -> (r: bool)
        ensures
            exists|now: i128| r == cooldown_over(self.last(), time as nat, now as int),
    {
        let now = clock_nanos();
        self.is_done_at(time, now)
    }

    /// Resets the cooldown at `now`.
    pub fn update_time_at(&mut self, now: i128)
        ensures
            final(self).last() == now,
    {
        self.timer.update_time(now);
    }

    /// Resets the cooldown now.
    pub fn update_time(&mut self) {
        self.timer.update_time_now();
    }

    /// If a cooldown of `time` milliseconds is over at `now`, resets it at
    /// `now` and answers true; otherwise leaves it as it is and answers false.
    pub fn cooldown_passed_at(&mut self, time: u128, now: i128) -> (r: bool)
        ensures
            r == cooldown_over(old(self).last(), time as nat, now as int),
            final(self).last() == (if r {
                now as int
            } else {
                old(self).last()
            }),
    {
        if self.is_done_at(time, now) {
            self.update_time_at(now);
            true
        } else {
            false
        }
    }

    /// `cooldown_passed_at` at the current time (the clock is read once).
    pub fn cooldown_passed(&mut self, time: u128) -> (r: bool)
        ensures
            exists|now: i128|
                {
                    &&& r == cooldown_over(old(self).last(), time as nat, now as int)
                    &&& final(self).last() == (if r {
                        now as int
                    } else {
                        old(self).last()
                    })
                },
    {
        let now = clock_nanos();
        self.cooldown_passed_at(time, now)
    }
}

impl Default for Cooldown {
    fn default() -> (r: Cooldown)
        ensures
            r.last() == 0,
    {
        Cooldown::new()
    }
}

/// Two resets of a cooldown of `millis` milliseconds (`millis > 0`) lie at
/// least `millis` milliseconds apart: once it passed at `first`, it passes
/// again at `second` only if `second` is that much later.
pub proof fn lemma_cooldown_spacing(millis: nat, first: int, second: int)
    requires
        millis > 0,
        cooldown_over(first, millis, second),
    ensures
        second >= first + millis * 1_000_000,
{
    let e = elapsed(first, second);
    assert(e >= millis * 1_000_000) by (nonlinear_arith)
        requires
            e / 1_000_000 >= millis,
    ;
}

/// A cooldown of `millis` milliseconds reset at `first` is over again at
/// every instant at least that long after it.
pub proof fn lemma_cooldown_passes_again(millis: nat, first: int, second: int)
    requires
        second >= first + millis * 1_000_000,
    ensures
        cooldown_over(first, millis, second),
{
    let e = elapsed(first, second);
    assert(e / 1_000_000 >= millis) by (nonlinear_arith)
        requires
            e >= millis * 1_000_000,
    ;
}

/// Right after it passes, a cooldown of positive length is not over at the
/// same instant.
pub proof fn lemma_cooldown_not_over_at_reset(millis: nat, now: int)
    requires
        millis > 0,
    ensures
        !cooldown_over(now, millis, now),
{
}

/// A cooldown of zero milliseconds is always over.
pub proof fn lemma_zero_cooldown_always_over(last: int, now: int)
    ensures
        cooldown_over(last, 0, now),
{
}

} // verus!
