//! When a mixer pulls from its sources, and how much.
use crate::scratch::{BUFFER_BYTES, FRAMESIZE};
use vstd::prelude::*;

verus! {

/// The samples per second of every source and of the voice codec.
pub const SAMPLERATE: usize = 22050;

/// The time that has passed, none when the clock went back.
pub open spec fn elapsed(last: u128, now: u128) -> u128 {
    if now > last {
        (now - last) as u128
    } else {
        0
    }
}

/// Keeps pulls at least one frame apart. Times are in nanoseconds.
pub struct PullTimer {
    last_pull: u128,
    delay: u128,
}

impl PullTimer {
    /// The time of the last pull.
    pub closed spec fn last(&self) -> u128 {
        self.last_pull
    }

    /// The time that has to pass between pulls.
    pub closed spec fn delay(&self) -> u128 {
        self.delay
    }

    /// A timer that counts from `now`.
    pub fn new(now: u128, delay: u128) -> (timer: PullTimer)
        ensures
            timer.last() == now,
            timer.delay() == delay,
    {
        PullTimer { last_pull: now, delay }
    }

    /// When a pull is due, starts counting anew and returns the time that has
    /// passed since the last one.
    pub fn tick(&mut self, now: u128) -> (passed: Option<u128>)
        ensures
            final(self).delay() == old(self).delay(),
            elapsed(old(self).last(), now) >= old(self).delay() ==> passed == Some(
                elapsed(old(self).last(), now),
            ) && final(self).last() == now,
            elapsed(old(self).last(), now) < old(self).delay() ==> passed is None
                && final(self).last() == old(self).last(),
    {
        let passed: u128 = if now > self.last_pull { now - self.last_pull } else { 0 };
        if passed >= self.delay {
            self.last_pull = now;
            Some(passed)
        } else {
            None
        }
    }
}

/// Pulls are at least the delay apart.
pub proof fn law_pulls_are_apart(last: u128, now: u128, delay: u128)
    requires
        0 < delay <= elapsed(last, now),
    ensures
        now >= last + delay,
{
}

/// The bytes to pull when `scaled` would make up for the time that has passed:
/// at least one frame, at most two, and whole samples.
pub open spec fn pull_size(scaled: nat) -> nat {
    let at_least = if scaled < FRAMESIZE * 2 {
        (FRAMESIZE * 2) as nat
    } else {
        scaled
    };
    let at_most = if at_least > BUFFER_BYTES {
        BUFFER_BYTES as nat
    } else {
        at_least
    };
    at_most + at_most % 2
}

/// The bytes to pull of each source when `scaled` would make up for the time
/// that has passed.
pub fn poll_size(scaled: usize) -> (size: usize)
    ensures
        size == pull_size(scaled as nat),
{
    let at_least: usize = if scaled < FRAMESIZE * 2 { FRAMESIZE * 2 } else { scaled };
    let mut size: usize = if at_least > BUFFER_BYTES { BUFFER_BYTES } else { at_least };
    if size % 2 == 1 {
        size = size + 1;
    }
    size
}

/// A pull is between one and two frames of whole samples, so it always fits
/// the buffers, and a longer wait never makes it smaller.
pub proof fn law_pull_size_is_sound(scaled: nat, longer: nat)
    requires
        scaled <= longer,
    ensures
        FRAMESIZE * 2 <= pull_size(scaled) <= BUFFER_BYTES,
        pull_size(scaled) % 2 == 0,
        pull_size(scaled) <= pull_size(longer),
{
}

/// Time is what the clock went forward.
pub proof fn law_time_is_the_difference(last: u128, now: u128)
    ensures
        now >= last ==> last + elapsed(last, now) == now,
        now < last ==> elapsed(last, now) == 0,
{
}

/// In numbers: a pull is 1024 bytes when less would do, 2048 when more would be
/// needed, and otherwise what is needed, with one byte more when that is odd.
pub proof fn law_pull_size_in_numbers(scaled: nat)
    ensures
        scaled <= 1024 ==> pull_size(scaled) == 1024,
        1024 <= scaled <= 2048 && scaled % 2 == 0 ==> pull_size(scaled) == scaled,
        1024 <= scaled <= 2048 && scaled % 2 == 1 ==> pull_size(scaled) == scaled + 1,
        scaled >= 2048 ==> pull_size(scaled) == 2048,
{
}

} // verus!
