//! Delays between attempts at something that keeps failing.
use backoff::backoff::Backoff;
use backoff::ExponentialBackoff;
use std::time::Duration;
use vstd::prelude::*;

verus! {

/// The longest interval, in nanoseconds, on which the arithmetic of the policy
/// is exact.
pub const MAX_INTERVAL_NANOS: u64 = 1_000_000_000_000;

/// `ExponentialBackoff::default().initial_interval`, half a second.
#[verifier::external_body]
fn default_initial_interval() -> (nanos: u64)
    ensures
        nanos == 500_000_000,
{
    ExponentialBackoff::default().initial_interval.as_nanos() as u64
}

/// `ExponentialBackoff::next_backoff` of a policy with the given intervals, its
/// other settings the default ones, and the policy's current interval after the
/// call. The delay is drawn at random from the interval's half to one and a half
/// times it. The interval grows by half, up to the longest one. Without a bound
/// on the elapsed time, which a policy made anew for each call could not keep,
/// there always is a delay.
#[verifier::external_body]
fn next_delay(current: u64, max_interval: u64, max_elapsed: Option<u64>) -> (r: (
    Option<u64>,
    u64,
))
    requires
        current <= MAX_INTERVAL_NANOS,
        max_interval <= MAX_INTERVAL_NANOS,
    ensures
        max_elapsed is None ==> r.0 is Some,
        r.0 matches Some(delay) ==> current / 2 <= delay <= current * 3 / 2 + 1,
        max_elapsed is None ==> r.1 == next_interval(current as nat, max_interval as nat),
{
    let mut policy = ExponentialBackoff {
        current_interval: Duration::from_nanos(current),
        max_interval: Duration::from_nanos(max_interval),
        max_elapsed_time: max_elapsed.map(Duration::from_nanos),
        ..Default::default()
    };
    let delay = match policy.next_backoff() {
        Some(delay) => Some(delay.as_nanos() as u64),
        None => None,
    };
    (delay, policy.current_interval.as_nanos() as u64)
}

/// A retry policy that never gives up. Its delays are drawn around an interval
/// that grows, and none is longer than a longest one.
pub struct RetryBackoff {
    current: u64,
    max_interval: u64,
}

/// The interval, in nanoseconds, that a policy starts with.
pub open spec fn initial_interval() -> nat {
    500_000_000
}

/// The interval after one of `current`, up to `max_interval`.
pub open spec fn next_interval(current: nat, max_interval: nat) -> nat {
    if current * 3 >= max_interval * 2 {
        max_interval
    } else {
        current * 3 / 2
    }
}

impl RetryBackoff {
    /// The interval that the next delay is drawn around, in nanoseconds.
    pub closed spec fn interval(&self) -> nat {
        self.current as nat
    }

    /// The longest delay, in nanoseconds.
    pub closed spec fn longest(&self) -> nat {
        self.max_interval as nat
    }

    /// The intervals are ones that the policy can compute with.
    pub closed spec fn wf(&self) -> bool {
        &&& self.current <= MAX_INTERVAL_NANOS
        &&& self.max_interval <= MAX_INTERVAL_NANOS
    }

    /// A policy whose delays are up to `max_interval` nanoseconds.
    pub fn new(max_interval: u64) -> (r: Self)
        requires
            max_interval <= MAX_INTERVAL_NANOS,
        ensures
            r.wf(),
            r.interval() == initial_interval(),
            r.interval() == 500_000_000,
            r.longest() == max_interval,
    {
        RetryBackoff { current: default_initial_interval(), max_interval }
    }

    /// Starts again with the first interval.
    pub fn reset(&mut self)
        requires
            old(self).wf(),
        ensures
            final(self).wf(),
            final(self).interval() == initial_interval(),
            final(self).interval() == 500_000_000,
            final(self).longest() == old(self).longest(),
    {
        self.current = default_initial_interval();
    }

    /// How long to wait, in nanoseconds, before the next attempt. There always is
    /// a next attempt. A delay that was drawn longer than the longest one, as from
    /// a first interval above it, is cut to that.
    pub fn next_backoff(&mut self) -> (r: Option<u64>)
        requires
            old(self).wf(),
        ensures
            final(self).wf(),
            final(self).longest() == old(self).longest(),
            final(self).interval() == next_interval(old(self).interval(), old(self).longest()),
            old(self).interval() * 3 >= old(self).longest() * 2 ==> final(self).interval() == old(
                self,
            ).longest(),
            old(self).interval() * 3 < old(self).longest() * 2 ==> final(self).interval() == old(
                self,
            ).interval() * 3 / 2,
            r matches Some(delay) && {
                &&& delay <= old(self).longest()
                &&& delay <= old(self).interval() * 3 / 2 + 1
                &&& old(self).interval() / 2 <= delay || delay == old(self).longest()
            },
    {
        let (delay, current) = next_delay(self.current, self.max_interval, None);
        self.current = current;
        match delay {
            Some(delay) => Some(
                if delay <= self.max_interval {
                    delay
                } else {
                    self.max_interval
                },
            ),
            None => None,
        }
    }
}

/// An interval grows by half, or to the longest if that is less.
pub proof fn law_intervals_grow_by_half(current: nat, max_interval: nat)
    ensures
        next_interval(current, max_interval) == max_interval || {
            &&& 2 * next_interval(current, max_interval) <= 3 * current
            &&& 3 * current < 2 * next_interval(current, max_interval) + 2
        },
        2 * max_interval <= 3 * current ==> next_interval(current, max_interval) == max_interval,
        3 * current < 2 * max_interval ==> next_interval(current, max_interval) * 2 <= 3 * current,
        initial_interval() == 500_000_000,
{
}

/// After the first one no interval is longer than the longest, and intervals up
/// to the longest never shrink.
pub proof fn law_intervals_grow_to_the_longest(current: nat, max_interval: nat)
    ensures
        next_interval(current, max_interval) <= max_interval,
        current <= max_interval ==> current <= next_interval(current, max_interval),
{
}

} // verus!
