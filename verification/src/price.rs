use vstd::prelude::*;

verus! {

/// The step by which the price moves.
pub const PRICE_STEP: u32 = 50;

/// The price the control shows at start.
pub const START_PRICE: u32 = 5000;

/// The price above which "+" no longer raises it.
pub const PRICE_CAP: u32 = 20000;

/// The price at or below which "-" no longer lowers it.
pub const PRICE_FLOOR: u32 = 50;

/// The price after "+": one step up while below the cap.
pub open spec fn raised(p: u32) -> u32 {
    if p < PRICE_CAP { (p + PRICE_STEP) as u32 } else { p }
}

/// The price after "-": one step down while above the floor.
pub open spec fn lowered(p: u32) -> u32 {
    if p > PRICE_FLOOR { (p - PRICE_STEP) as u32 } else { p }
}

/// The prices the control can show: the multiples of the step from the
/// floor up to the cap.
pub open spec fn reachable_price(p: u32) -> bool {
    &&& PRICE_FLOOR <= p <= PRICE_CAP
    &&& p % PRICE_STEP == 0
}

/// The budget of the army to draft, moved by the "+" and "-" buttons.
pub struct Price {
    value: u32,
}

impl View for Price {
    type V = u32;

    closed spec fn view(&self) -> u32 {
        self.value
    }
}

impl Price {
    #[verifier::type_invariant]
    closed spec fn inv(self) -> bool {
        reachable_price(self.value)
    }

    /// The price at start.
    pub fn new() -> (p: Price)
        ensures
            p@ == START_PRICE,
    {
        Price { value: START_PRICE }
    }

    /// The price now.
    pub fn value(&self) -> (v: u32)
        ensures
            v == self@,
            reachable_price(v),
    {
        proof { use_type_invariant(self); }
        self.value
    }

    /// "+": raises the price by one step unless it has reached the cap, and
    /// returns the new price.
    pub fn inc_price(&mut self) -> (v: u32)
        ensures
            final(self)@ == raised(old(self)@),
            v == final(self)@,
            reachable_price(v),
            old(self)@ < 20000 ==> v == old(self)@ + 50,
            old(self)@ >= 20000 ==> v == old(self)@,
    {
        proof { use_type_invariant(&*self); }
        if self.value < PRICE_CAP {
            self.value = self.value + PRICE_STEP;
        }
        self.value
    }

    /// "-": lowers the price by one step unless it has reached the floor,
    /// and returns the new price.
    pub fn dec_price(&mut self) -> (v: u32)
        ensures
            final(self)@ == lowered(old(self)@),
            v == final(self)@,
            reachable_price(v),
            old(self)@ > 50 ==> v == old(self)@ - 50,
            old(self)@ <= 50 ==> v == old(self)@,
    {
        proof { use_type_invariant(&*self); }
        if self.value > PRICE_FLOOR {
            self.value = self.value - PRICE_STEP;
        }
        self.value
    }
}

/// "+" adds exactly 50 below 20000 and nothing from 20000 up; "-" takes
/// exactly 50 off above 50 and nothing at 50 or below.
pub proof fn law_price_steps_are_fifty(p: u32)
    ensures
        p < 20000 ==> raised(p) == p + 50,
        p >= 20000 ==> raised(p) == p,
        p > 50 ==> lowered(p) == p - 50,
        p <= 50 ==> lowered(p) == p,
{
}

/// From the start price, `k` presses of "+" (while below the cap) give
/// exactly `5000 + 50 * k`, so no price between the start and the cap is
/// skipped.
pub proof fn law_price_presses_count(k: nat)
    requires
        k <= 300,
    ensures
        raised_times(5000, k) == 5000 + 50 * k,
    decreases k,
{
    if k > 0 {
        law_price_presses_count((k - 1) as nat);
    }
}

/// The price after `k` presses of "+" from `p`.
pub open spec fn raised_times(p: u32, k: nat) -> u32
    decreases k,
{
    if k == 0 { p } else { raised(raised_times(p, (k - 1) as nat)) }
}

/// Every price the control can show stays so after "+" or "-".
pub proof fn law_price_stays_reachable(p: u32)
    requires
        reachable_price(p),
    ensures
        reachable_price(raised(p)),
        reachable_price(lowered(p)),
{
}

/// "-" undoes "+" below the cap, and "+" undoes "-" above the floor.
pub proof fn law_price_steps_undo(p: u32)
    requires
        reachable_price(p),
    ensures
        p < PRICE_CAP ==> lowered(raised(p)) == p,
        p > PRICE_FLOOR ==> raised(lowered(p)) == p,
{
}

/// "+" never lowers the price and "-" never raises it; at the cap "+"
/// changes nothing, and at the floor "-" changes nothing.
pub proof fn law_price_monotone(p: u32)
    requires
        reachable_price(p),
    ensures
        p <= raised(p),
        lowered(p) <= p,
        p == PRICE_CAP ==> raised(p) == p,
        p == PRICE_FLOOR ==> lowered(p) == p,
{
}

} // verus!
