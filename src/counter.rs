use vstd::prelude::*;

verus! {

/// An accumulation-only counter: it can be read and increased, never
/// decreased or reset.
pub struct CountCell {
    value: u64,
}

impl View for CountCell {
    type V = nat;

    closed spec fn view(&self) -> nat {
        self.value as nat
    }
}

impl CountCell {
    /// A counter that starts at zero.
    pub fn new() -> (r: CountCell)
        ensures
            r@ == 0,
    {
        CountCell { value: 0 }
    }

    /// The value always fits in a `u64`.
    pub proof fn lemma_fits(&self)
        ensures
            self@ <= u64::MAX,
    {
    }

    /// The current value.
    pub fn get(&self) -> (r: u64)
        ensures
            r as nat == self@,
    {
        self.value
    }

    /// Adds `i` to the counter.
    pub fn add(&mut self, i: u64)
        requires
            old(self)@ + i <= u64::MAX,
        ensures
            final(self)@ == old(self)@ + i,
    {
        self.value = self.value + i;
    }

    /// Adds one to the counter.
    pub fn add_one(&mut self)
        requires
            old(self)@ < u64::MAX,
        ensures
            final(self)@ == old(self)@ + 1,
    {
        self.add(1);
    }
}

} // verus!
