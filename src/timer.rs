use vstd::prelude::*;

verus! {

/// Nanoseconds in `n` sixtieths of a second, rounded down.
pub open spec fn sixtieths_in_nanos(n: nat) -> nat {
    n * 1_000_000_000 / 60
}

/// The value that a timer shows with `nanos` nanoseconds left: the whole
/// milliseconds left, in sixtieths of a second rounded up, at most 255.
pub open spec fn ticks_left(nanos: nat) -> nat {
    let t = (nanos / 1_000_000 * 60 + 999) / 1000;
    if t > 255 {
        255
    } else {
        t
    }
}

/// `a - b`, or zero where `b` exceeds `a`.
pub open spec fn saturating_sub(a: nat, b: nat) -> nat {
    if a > b {
        (a - b) as nat
    } else {
        0
    }
}

/// A 60 Hz down-counter, kept as the time that it has left in nanoseconds.
pub struct Timer {
    remaining: u64,
}

impl View for Timer {
    type V = nat;

    closed spec fn view(&self) -> nat {
        self.remaining as nat
    }
}

impl Timer {
    pub fn new() -> (r: Timer)
        ensures
            r@ == 0,
    {
        Timer { remaining: 0 }
    }

    /// The number of sixtieths of a second left, rounded up, at most 255.
    pub fn get(&self) -> (r: u8)
        ensures
            r == ticks_left(self@),
    {
        let t: u64 = (self.remaining / 1_000_000 * 60 + 999) / 1000;
        if t > 255 {
            255
        } else {
            t as u8
        }
    }

    /// Starts the timer at `nn` sixtieths of a second.
    pub fn set(&mut self, nn: u8)
        ensures
            final(self)@ == sixtieths_in_nanos(nn as nat),
    {
        self.remaining = nn as u64 * 1_000_000_000 / 60;
    }

    /// Lets `elapsed_nanos` nanoseconds pass, stopping at zero.
    pub fn tick(&mut self, elapsed_nanos: u64)
        ensures
            final(self)@ == saturating_sub(old(self)@, elapsed_nanos as nat),
    {
        self.remaining = self.remaining.saturating_sub(elapsed_nanos);
    }
}

/// Letting time pass never raises the value a timer shows: with no `set` in
/// between, successive ticks give values that never increase.
pub proof fn lemma_tick_never_raises(nanos: nat, elapsed: nat)
    ensures
        ticks_left(saturating_sub(nanos, elapsed)) <= ticks_left(nanos),
{
    let after = saturating_sub(nanos, elapsed);
    assert(after <= nanos);
    vstd::arithmetic::div_mod::lemma_div_is_ordered(after as int, nanos as int, 1_000_000);
    let (a, b) = (after / 1_000_000 * 60 + 999, nanos / 1_000_000 * 60 + 999);
    assert(a <= b);
    vstd::arithmetic::div_mod::lemma_div_is_ordered(a as int, b as int, 1000);
}

} // verus!
