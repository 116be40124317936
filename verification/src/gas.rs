use crate::halt::HaltCondition;
use vstd::prelude::*;

verus! {

/// The charge for each instruction of this layer.
pub const VERYLOW: u64 = 3;

/// The running gas counter of one invocation.
pub struct GasMeter {
    remaining: u64,
}

impl View for GasMeter {
    type V = nat;

    /// The gas that is left.
    closed spec fn view(&self) -> nat {
        self.remaining as nat
    }
}

impl GasMeter {
    /// A meter with `limit` gas left.
    pub fn new(limit: u64) -> (meter: GasMeter)
        ensures
            meter@ == limit,
    {
        GasMeter { remaining: limit }
    }

    /// The gas that is left.
    pub fn remaining(&self) -> (left: u64)
        ensures
            left == self@,
    {
        self.remaining
    }

    /// Deducts `amount`. Where less than `amount` is left, nothing is
    /// deducted and the meter reports that the gas ran out.
    pub fn charge(&mut self, amount: u64) -> (r: Result<(), HaltCondition>)
        ensures
            amount <= old(self)@ ==> r == Ok::<(), HaltCondition>(()) && final(self)@ == old(self)@
                - amount,
            amount > old(self)@ ==> r == Err::<(), HaltCondition>(HaltCondition::OutOfGas)
                && final(self)@ == old(self)@,
    {
        if amount <= self.remaining {
            self.remaining = self.remaining - amount;
            Ok(())
        } else {
            Err(HaltCondition::OutOfGas)
        }
    }
}

} // verus!
