//! Where the broker reads the time.
use crate::arith::wrap_u64;
use crate::sched::policy::Micros;
use vstd::prelude::*;

verus! {

/// A monotonic clock, in microseconds since some fixed base.
pub trait Clock: Send + Sync {
    /// Whether the clock may show `t` when it is read.
    spec fn may_read(&self, t: Micros) -> bool;

    /// Reads the clock.
    fn now_us(&self) -> (t: Micros)
        ensures
            self.may_read(t),
    ;
}

/// A clock that moves only when told to.
#[derive(Debug)]
pub struct ManualClock {
    now: u64,
}

impl ManualClock {
    /// The time that the clock shows.
    pub closed spec fn shows(&self) -> Micros {
        self.now
    }

    /// Moves the clock by `d`, past the largest number to the smallest.
    pub fn advance_us(&mut self, d: Micros)
        ensures
            final(self).shows() == (old(self).shows() + d) % 0x1_0000_0000_0000_0000,
    {
        self.now = self.now.wrapping_add(d);
    }
}

impl Default for ManualClock {
    fn default() -> (c: Self)
        ensures
            c.shows() == 0,
    {
        ManualClock { now: 0 }
    }
}

impl Clock for ManualClock {
    open spec fn may_read(&self, t: Micros) -> bool {
        t == self.shows()
    }

    fn now_us(&self) -> (t: Micros) {
        self.now
    }
}

/// An instant of the machine's monotonic clock.
#[verifier::external_type_specification]
#[verifier::external_body]
pub struct ExInstant(std::time::Instant);

/// `std::time::Instant::now`: the present instant. Nothing is claimed of it.
pub assume_specification[ std::time::Instant::now ]() -> (i: std::time::Instant);

/// `std::time::Instant::elapsed`: the time since the instant. It depends on the machine's
/// clock, so nothing is claimed of it.
pub assume_specification[ std::time::Instant::elapsed ](
    i: &std::time::Instant,
) -> (d: std::time::Duration);

/// `std::time::Duration::as_micros`: the whole microseconds of the duration. What a duration
/// holds has no name here: the only one in use is the time that has passed, which depends on
/// the machine's clock.
pub assume_specification[ std::time::Duration::as_micros ](d: &std::time::Duration) -> (us: u128);

/// The machine's monotonic clock, from the moment the value was made.
#[derive(Debug)]
pub struct MonotonicClock {
    base: std::time::Instant,
}

impl MonotonicClock {
    /// The instant from which the clock counts.
    pub closed spec fn start(&self) -> std::time::Instant {
        self.base
    }
}

impl Default for MonotonicClock {
    fn default() -> (c: Self)
        ensures
            call_ensures(std::time::Instant::now, (), c.start()),
    {
        MonotonicClock { base: std::time::Instant::now() }
    }
}

impl Clock for MonotonicClock {
    /// The machine's clock shows the whole microseconds of a time that may have passed since its
    /// start, in 64 bits.
    open spec fn may_read(&self, t: Micros) -> bool {
        exists|d: std::time::Duration, us: u128| #[trigger]
            call_ensures(std::time::Instant::elapsed, (&self.start(),), d) && #[trigger] call_ensures(
                std::time::Duration::as_micros,
                (&d,),
                us,
            ) && t == wrap_u64(us as int)
    }

    fn now_us(&self) -> (t: Micros) {
        let d = self.base.elapsed();
        assert(call_ensures(std::time::Instant::elapsed, (&self.start(),), d));
        let us: u128 = d.as_micros();
        assert(call_ensures(std::time::Duration::as_micros, (&d,), us));
        crate::arith::low_u64(us)
    }
}

/// A clock that is moved by hand shows the time that it was moved by in all, from zero on.
pub proof fn law_manual_clock(
    fresh: ManualClock,
    c: &mut ManualClock,
    d: Micros,
    t: Micros,
)
    requires
        call_ensures(<ManualClock as Default>::default, (), fresh),
        call_ensures(ManualClock::advance_us, (c, d), ()),
        old(c).shows() + d <= u64::MAX,
        final(c).may_read(t),
    ensures
        fresh.shows() == 0,
        t == old(c).shows() + d,
{
}

} // verus!
