use vstd::prelude::*;

verus! {

/// A counter of ticks that wraps around after 255.
pub struct Ticker(u8);

impl View for Ticker {
    type V = u8;

    closed spec fn view(&self) -> u8 {
        self.0
    }
}

impl Ticker {
    /// A counter at zero.
    pub fn new() -> (r: Self)
        ensures
            r@ == 0,
    {
        Ticker(0)
    }

    /// Advances the counter by one, wrapping from 255 to 0.
    pub fn tick(&mut self)
        ensures
            final(self)@ as int == (old(self)@ as int + 1) % 256,
    {
        self.0 = self.0.wrapping_add(1);
    }

    /// The current count.
    pub fn value(&self) -> (r: u8)
        ensures
            r == self@,
    {
        self.0
    }
}

} // verus!
