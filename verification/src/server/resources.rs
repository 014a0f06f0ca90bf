//! Unsigned resource counters with optional lower and upper caps.
use vstd::prelude::*;

use crate::components::resource::{above_min, below_max, ResourceView};

verus! {

/// Lifts an optional machine integer to an optional mathematical integer.
pub open spec fn opt_nat(o: Option<u64>) -> Option<int> {
    match o {
        Some(v) => Some(v as int),
        None => None,
    }
}

/// The state after [`Resource::hard_set_mmax`]: the upper cap is replaced,
/// and a value lying *below* the new cap is moved up to it.
pub open spec fn hard_set_mmax_spec(s: ResourceView, new_max: Option<int>) -> ResourceView {
    let v = match new_max {
        Some(m) => if s.val < m { m } else { s.val },
        None => s.val,
    };
    ResourceView { val: v, min: s.min, max: new_max }
}

/// The state after an addition of `a` checked against the upper cap only,
/// or `None` when the sum would exceed it.
pub open spec fn add_below_max(s: ResourceView, a: int) -> Option<ResourceView> {
    if below_max(s.val + a, s.max) {
        Some(s.with_val(s.val + a))
    } else {
        None
    }
}

/// The state after a subtraction of `a` checked against the lower cap only,
/// or `None` when the difference would fall below it.
pub open spec fn sub_above_min(s: ResourceView, a: int) -> Option<ResourceView> {
    if above_min(s.val - a, s.min) {
        Some(s.with_val(s.val - a))
    } else {
        None
    }
}

/// An unsigned numeric player resource, with optional lower and upper caps.
pub struct Resource {
    min: Option<u64>,
    max: Option<u64>,
    val: u64,
}

impl View for Resource {
    type V = ResourceView;

    closed spec fn view(&self) -> ResourceView {
        ResourceView { val: self.val as int, min: opt_nat(self.min), max: opt_nat(self.max) }
    }
}

impl Resource {
    /// Creates a new `Resource` holding `val`, with optional caps.
    pub fn new(val: u64, min: Option<u64>, max: Option<u64>) -> (r: Resource)
        ensures
            r@ == (ResourceView { val: val as int, min: opt_nat(min), max: opt_nat(max) }),
    {
        Resource { val, min, max }
    }

    /// The current value.
    pub fn val(&self) -> (r: u64)
        ensures
            r == self@.val,
    {
        self.val
    }

    /// The lower cap, if any.
    pub fn min(&self) -> (r: Option<u64>)
        ensures
            opt_nat(r) == self@.min,
    {
        self.min
    }

    /// The upper cap, if any.
    pub fn max(&self) -> (r: Option<u64>)
        ensures
            opt_nat(r) == self@.max,
    {
        self.max
    }

    /// Adds `rhs`'s value; fails, changing nothing, if the sum would exceed
    /// the upper cap.
    pub fn checked_add(&mut self, rhs: &Self) -> (r: Result<(), InvalidAddition>)
        requires
            old(self)@.val + rhs@.val <= u64::MAX,
        ensures
            match r {
                Ok(()) => add_below_max(old(self)@, rhs@.val) == Some(final(self)@),
                Err(e) => {
                    &&& add_below_max(old(self)@, rhs@.val) is None
                    &&& final(self)@ == old(self)@
                    &&& e.0 == rhs@.val
                    &&& e.1 == old(self)@.val
                    &&& old(self)@.max == Some(e.2 as int)
                },
            },
    {
        let v = self.val + rhs.val;
        if let Some(max) = self.max {
            if v > max {
                return Err(InvalidAddition(rhs.val, self.val, max));
            }
        }
        self.val = v;
        Ok(())
    }

    /// Adds `rhs`'s value, capping the sum at the upper cap.
    pub fn capped_add(&mut self, rhs: &Self)
        requires
            old(self)@.val + rhs@.val <= u64::MAX,
        ensures
            final(self)@ == old(self)@.capped_add(rhs@.val),
    {
        let v = self.val + rhs.val;
        self.val = match self.max {
            Some(max) => if v > max { max } else { v },
            None => v,
        };
    }

    /// Subtracts `rhs`'s value; fails, changing nothing, if the difference
    /// would fall below the lower cap.
    pub fn checked_sub(&mut self, rhs: &Self) -> (r: Result<(), InvalidSubtraction>)
        requires
            rhs@.val <= old(self)@.val,
        ensures
            match r {
                Ok(()) => sub_above_min(old(self)@, rhs@.val) == Some(final(self)@),
                Err(e) => {
                    &&& sub_above_min(old(self)@, rhs@.val) is None
                    &&& final(self)@ == old(self)@
                    &&& e.0 == rhs@.val
                    &&& e.1 == old(self)@.val
                    &&& old(self)@.min == Some(e.2 as int)
                },
            },
    {
        let v = self.val - rhs.val;
        if let Some(min) = self.min {
            if v < min {
                return Err(InvalidSubtraction(rhs.val, self.val, min));
            }
        }
        self.val = v;
        Ok(())
    }

    /// Subtracts `rhs`'s value, capping the difference at the lower cap.
    pub fn capped_sub(&mut self, rhs: &Self)
        requires
            rhs@.val <= old(self)@.val,
        ensures
            final(self)@ == old(self)@.capped_sub(rhs@.val),
    {
        let v = self.val - rhs.val;
        self.val = match self.min {
            Some(min) => if v < min { min } else { v },
            None => v,
        };
    }

    /// Replaces the lower cap; fails, changing nothing, if the current value
    /// lies below the new cap.
    pub fn soft_set_min(&mut self, new_min: Option<u64>) -> (r: Result<(), InvalidSoftCapAdjustment>)
        ensures
            match r {
                Ok(()) => old(self)@.soft_set_min(opt_nat(new_min)) == Some(final(self)@),
                Err(e) => {
                    &&& old(self)@.soft_set_min(opt_nat(new_min)) is None
                    &&& final(self)@ == old(self)@
                    &&& e.0 == old(self)@.val
                    &&& new_min == Some(e.1)
                },
            },
    {
        if let Some(min) = new_min {
            if self.val < min {
                return Err(InvalidSoftCapAdjustment(self.val, min));
            }
        }
        self.min = new_min;
        Ok(())
    }

    /// Replaces the lower cap, raising the value to it if needed.
    pub fn hard_set_min(&mut self, new_min: Option<u64>)
        ensures
            final(self)@ == old(self)@.hard_set_min(opt_nat(new_min)),
    {
        if let Some(min) = new_min {
            if self.val < min {
                self.val = min;
            }
        }
        self.min = new_min;
    }

    /// Replaces the upper cap; fails, changing nothing, if the current value
    /// lies above the new cap.
    pub fn soft_set_max(&mut self, new_max: Option<u64>) -> (r: Result<(), InvalidSoftCapAdjustment>)
        ensures
            match r {
                Ok(()) => old(self)@.soft_set_max(opt_nat(new_max)) == Some(final(self)@),
                Err(e) => {
                    &&& old(self)@.soft_set_max(opt_nat(new_max)) is None
                    &&& final(self)@ == old(self)@
                    &&& e.0 == old(self)@.val
                    &&& new_max == Some(e.1)
                },
            },
    {
        if let Some(max) = new_max {
            if self.val > max {
                return Err(InvalidSoftCapAdjustment(self.val, max));
            }
        }
        self.max = new_max;
        Ok(())
    }

    /// Replaces the upper cap; a value lying below the new cap is moved up
    /// to it, while a value above it is left as it is.
    pub fn hard_set_mmax(&mut self, new_max: Option<u64>)
        ensures
            final(self)@ == hard_set_mmax_spec(old(self)@, opt_nat(new_max)),
    {
        if let Some(max) = new_max {
            if self.val < max {
                self.val = max;
            }
        }
        self.max = new_max;
    }
}

/// Error for a subtraction below the lower cap:
/// (amount subtracted, value before, lower cap).
#[derive(Debug)]
pub struct InvalidSubtraction(pub u64, pub u64, pub u64);

/// Error for an addition above the upper cap: (amount added, value before, upper cap).
#[derive(Debug)]
pub struct InvalidAddition(pub u64, pub u64, pub u64);

/// Error for a cap adjustment that the current value violates: (current value, new cap).
#[derive(Debug)]
pub struct InvalidSoftCapAdjustment(pub u64, pub u64);

/// After [`Resource::hard_set_mmax`] with a cap, the value is never below that cap.
pub proof fn law_hard_set_mmax_floor(s: ResourceView, m: int)
    ensures
        hard_set_mmax_spec(s, Some(m)).val >= m,
        hard_set_mmax_spec(s, Some(m)).max == Some(m),
        hard_set_mmax_spec(s, Some(m)).min == s.min,
        s.val >= m ==> hard_set_mmax_spec(s, Some(m)).val == s.val,
        s.val < m ==> hard_set_mmax_spec(s, Some(m)).val == m,
        hard_set_mmax_spec(s, None) == (ResourceView { val: s.val, min: s.min, max: None }),
{
}

/// A checked addition on the server's counters is refused exactly when the
/// sum would exceed the upper cap (a sum equal to the cap is accepted), and
/// otherwise gives the sum with the caps unchanged; a checked subtraction
/// is refused exactly when the difference would fall below the lower cap
/// (a difference equal to the cap is accepted), and otherwise gives the
/// difference.
pub proof fn law_server_checked_ops(s: ResourceView, a: int)
    ensures
        (s.max matches Some(m) ==> s.val + a <= m) ==> add_below_max(s, a) == Some(
            ResourceView { val: s.val + a, min: s.min, max: s.max },
        ),
        s.max matches Some(m) ==> (s.val + a > m ==> add_below_max(s, a) is None),
        (s.min matches Some(m) ==> m <= s.val - a) ==> sub_above_min(s, a) == Some(
            ResourceView { val: s.val - a, min: s.min, max: s.max },
        ),
        s.min matches Some(m) ==> (s.val - a < m ==> sub_above_min(s, a) is None),
{
}

} // verus!
