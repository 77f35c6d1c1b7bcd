//! Allocator statistics are refreshed at most once a second, however often they are read.
use vstd::prelude::*;

verus! {

#[verifier::external_type_specification]
#[verifier::external_body]
pub struct ExInstant(std::time::Instant);

/// The current instant.
///
/// Wraps `Instant::now`; the result depends on the clock, so nothing is claimed of it.
#[verifier::external_body]
fn instant_now() -> std::time::Instant {
    std::time::Instant::now()
}

/// The nanoseconds from `earlier` to `now`, or 0 when `earlier` is later.
///
/// Wraps the subtraction of instants, documented to saturate at zero; the value depends on
/// the clock, so nothing is claimed of it.
#[verifier::external_body]
fn nanos_since(now: std::time::Instant, earlier: std::time::Instant) -> u128 {
    (now - earlier).as_nanos()
}

/// The refresh interval: one second, in nanoseconds.
pub const DEBOUNCE_NANOS: u128 = 1000000000;

/// Whether a refresh is due `elapsed` nanoseconds after the last one: strictly more than a
/// second has passed.
pub fn debounce_due(elapsed: u128) -> (r: bool)
    ensures
        r == (elapsed > DEBOUNCE_NANOS),
{
    elapsed > DEBOUNCE_NANOS
}

/// A function that runs at most once a second.
pub struct Debounced<F> {
    function: F,
    loaded: std::time::Instant,
}

impl<F: FnMut()> Debounced<F> {
    /// The wrapped function.
    pub closed spec fn spec_function(&self) -> F {
        self.function
    }

    /// Wraps `function`; the clock starts now, so the first call runs it only once a second
    /// has passed.
    pub fn new(function: F) -> (r: Debounced<F>)
        ensures
            r.spec_function() == function,
    {
        Debounced { function, loaded: instant_now() }
    }

    /// When the function last ran, or when the wrapper was made.
    pub closed spec fn spec_loaded(&self) -> std::time::Instant {
        self.loaded
    }

    /// At `now`, `elapsed` nanoseconds after the function last ran: runs it and restarts the
    /// clock when more than a second has passed, and otherwise leaves everything as it was.
    /// Returns whether it ran.
    pub fn call_if_due(&mut self, now: std::time::Instant, elapsed: u128) -> (ran: bool)
        requires
            call_requires(old(self).spec_function(), ()),
        ensures
            ran == (elapsed > DEBOUNCE_NANOS),
            !ran ==> *final(self) == *old(self),
            ran ==> call_ensures(old(self).spec_function(), (), ()) && final(self).spec_loaded() == now,
    {
        if debounce_due(elapsed) {
            (self.function)();
            self.loaded = now;
            true
        } else {
            false
        }
    }

    /// Runs the function if more than a second has passed since it last ran (or since the
    /// wrapper was made), and then restarts the clock.
    pub fn call_debounced(&mut self)
        requires
            call_requires(old(self).spec_function(), ()),
        ensures
            *final(self) == *old(self) || call_ensures(old(self).spec_function(), (), ()),
    {
        let now = instant_now();
        let elapsed = nanos_since(now, self.loaded);
        self.call_if_due(now, elapsed);
    }
}
} // verus!
