//! A data type for player-held game resource counts.
use vstd::prelude::*;


verus! {

/// The mathematical state of a [`Resource`]: its value and optional caps.
pub struct ResourceView {
    pub val: int,
    pub min: Option<int>,
    pub max: Option<int>,
}

/// Lifts an optional machine integer to an optional mathematical integer.
pub open spec fn opt_int(o: Option<i64>) -> Option<int> {
    match o {
        Some(v) => Some(v as int),
        None => None,
    }
}

/// `v` respects the lower cap `min`, if there is one.
pub open spec fn above_min(v: int, min: Option<int>) -> bool {
    match min {
        Some(m) => m <= v,
        None => true,
    }
}

/// `v` respects the upper cap `max`, if there is one.
pub open spec fn below_max(v: int, max: Option<int>) -> bool {
    match max {
        Some(m) => v <= m,
        None => true,
    }
}

/// `v` lies within both caps.
pub open spec fn in_bounds(v: int, min: Option<int>, max: Option<int>) -> bool {
    above_min(v, min) && below_max(v, max)
}

/// The caps are consistent with each other (the lower one is not above the upper one).
pub open spec fn caps_consistent(min: Option<int>, max: Option<int>) -> bool {
    match (min, max) {
        (Some(lo), Some(hi)) => lo <= hi,
        _ => true,
    }
}

/// `v` raised to the lower cap, if it lies below it.
pub open spec fn raise_to_min(v: int, min: Option<int>) -> int {
    match min {
        Some(m) => if v < m { m } else { v },
        None => v,
    }
}

/// `v` lowered to the upper cap, if it lies above it.
pub open spec fn lower_to_max(v: int, max: Option<int>) -> int {
    match max {
        Some(m) => if v > m { m } else { v },
        None => v,
    }
}

impl ResourceView {
    /// The same state with another value.
    pub open spec fn with_val(self, val: int) -> ResourceView {
        ResourceView { val, min: self.min, max: self.max }
    }

    /// The state after a checked set to `v`, or `None` when `v` is out of bounds.
    pub open spec fn checked_set(self, v: int) -> Option<ResourceView> {
        if in_bounds(v, self.min, self.max) {
            Some(self.with_val(v))
        } else {
            None
        }
    }

    /// The state after a capped set to `v`: the lower cap is applied first,
    /// then the upper cap.
    pub open spec fn capped_set(self, v: int) -> ResourceView {
        self.with_val(lower_to_max(raise_to_min(v, self.min), self.max))
    }

    /// The state after a checked addition of `a`, or `None` when the sum
    /// would lie outside the caps.
    pub open spec fn checked_add(self, a: int) -> Option<ResourceView> {
        if in_bounds(self.val + a, self.min, self.max) {
            Some(self.with_val(self.val + a))
        } else {
            None
        }
    }

    /// The state after an addition of `a` capped at the upper cap.
    pub open spec fn capped_add(self, a: int) -> ResourceView {
        self.with_val(lower_to_max(self.val + a, self.max))
    }

    /// The state after a checked subtraction of `a`, or `None` when the
    /// difference would lie outside the caps.
    pub open spec fn checked_sub(self, a: int) -> Option<ResourceView> {
        if in_bounds(self.val - a, self.min, self.max) {
            Some(self.with_val(self.val - a))
        } else {
            None
        }
    }

    /// The state after a subtraction of `a` capped at the lower cap.
    pub open spec fn capped_sub(self, a: int) -> ResourceView {
        self.with_val(raise_to_min(self.val - a, self.min))
    }

    /// The state after replacing the lower cap, or `None` when the current
    /// value lies below the new cap.
    pub open spec fn soft_set_min(self, new_min: Option<int>) -> Option<ResourceView> {
        if above_min(self.val, new_min) {
            Some(ResourceView { val: self.val, min: new_min, max: self.max })
        } else {
            None
        }
    }

    /// The state after replacing the lower cap and raising the value to it.
    pub open spec fn hard_set_min(self, new_min: Option<int>) -> ResourceView {
        ResourceView { val: raise_to_min(self.val, new_min), min: new_min, max: self.max }
    }

    /// The state after replacing the upper cap, or `None` when the current
    /// value lies above the new cap.
    pub open spec fn soft_set_max(self, new_max: Option<int>) -> Option<ResourceView> {
        if below_max(self.val, new_max) {
            Some(ResourceView { val: self.val, min: self.min, max: new_max })
        } else {
            None
        }
    }

    /// The state after replacing the upper cap and lowering the value to it.
    pub open spec fn hard_set_max(self, new_max: Option<int>) -> ResourceView {
        ResourceView { val: lower_to_max(self.val, new_max), min: self.min, max: new_max }
    }
}

/// Represents an arbitrary numeric player resource, with optional
/// lower and upper caps.
#[derive(Clone, Debug)]
pub struct Resource {
    val: i64,
    min: Option<i64>,
    max: Option<i64>,
}

impl View for Resource {
    type V = ResourceView;

    closed spec fn view(&self) -> ResourceView {
        ResourceView { val: self.val as int, min: opt_int(self.min), max: opt_int(self.max) }
    }
}

impl Resource {
    /// The resource holding `val`, with the given caps.
    pub closed spec fn spec_new(val: i64, min: Option<i64>, max: Option<i64>) -> Resource {
        Resource { val, min, max }
    }

    /// The resource built by [`Resource::spec_new`] has the given value and caps.
    pub proof fn lemma_spec_new_view(val: i64, min: Option<i64>, max: Option<i64>)
        ensures
            Self::spec_new(val, min, max)@ == (ResourceView { val: val as int, min: opt_int(min), max: opt_int(max) }),
    {
    }

    /// Creates a new `Resource` instance representing the given value,
    /// with optional lower and upper caps.
    pub fn new(val: i64, min: Option<i64>, max: Option<i64>) -> (r: Resource)
        ensures
            r@ == (ResourceView { val: val as int, min: opt_int(min), max: opt_int(max) }),
            r == Self::spec_new(val, min, max),
    {
        Resource { val, min, max }
    }

    /// Gets the current value represented by this `Resource`.
    pub fn val(&self) -> (r: i64)
        ensures
            r == self@.val,
    {
        self.val
    }

    /// Gets this `Resource`'s lower cap, if any.
    pub fn min(&self) -> (r: Option<i64>)
        ensures
            opt_int(r) == self@.min,
    {
        self.min
    }

    /// Gets this `Resource`'s upper cap, if any.
    pub fn max(&self) -> (r: Option<i64>)
        ensures
            opt_int(r) == self@.max,
    {
        self.max
    }

    /// Sets this resource's value to the value of the passed-in
    /// `Resource` instance.
    ///
    /// Returns an `InvalidSet` error, and leaves the value unchanged, if the
    /// new value would be outside this `Resource`'s configured bounds.
    pub fn checked_set(&mut self, rhs: Self) -> (r: Result<(), InvalidSet>)
        ensures
            match r {
                Ok(()) => old(self)@.checked_set(rhs@.val) == Some(final(self)@),
                Err(e) => {
                    &&& old(self)@.checked_set(rhs@.val) is None
                    &&& final(self)@ == old(self)@
                    &&& e.0 == rhs@.val
                    &&& opt_int(e.1) == old(self)@.min
                    &&& opt_int(e.2) == old(self)@.max
                },
            },
    {
        let v = rhs.val;
        if let Some(max) = self.max {
            if v > max {
                return Err(InvalidSet(v, self.min, self.max));
            }
        }
        if let Some(min) = self.min {
            if v < min {
                return Err(InvalidSet(v, self.min, self.max));
            }
        }
        self.val = v;
        Ok(())
    }

    /// Sets this resource's value to the value of the passed-in
    /// `Resource` instance, capping the new value so that it fits
    /// within this `Resource`'s configured bounds.
    pub fn capped_set(&mut self, rhs: Self)
        ensures
            final(self)@ == old(self)@.capped_set(rhs@.val),
    {
        let mut v = rhs.val;
        if let Some(min) = self.min {
            if v < min {
                v = min;
            }
        }
        if let Some(max) = self.max {
            if v > max {
                v = max;
            }
        }
        self.val = v;
    }

    /// Adds the value contained in another `Resource` to this one.
    ///
    /// Returns an `InvalidAddition` error, and leaves the value unchanged, if
    /// the new value would be outside the configured bounds; the error
    /// carries the amount, the current value and the cap that was crossed.
    pub fn checked_add(&mut self, rhs: Self) -> (r: Result<(), InvalidAddition>)
        requires
            i64::MIN <= old(self)@.val + rhs@.val <= i64::MAX,
        ensures
            match r {
                Ok(()) => old(self)@.checked_add(rhs@.val) == Some(final(self)@),
                Err(e) => {
                    &&& old(self)@.checked_add(rhs@.val) is None
                    &&& final(self)@ == old(self)@
                    &&& e.0 == rhs@.val
                    &&& e.1 == old(self)@.val
                    &&& if below_max(old(self)@.val + rhs@.val, old(self)@.max) {
                        old(self)@.min == Some(e.2 as int)
                    } else {
                        old(self)@.max == Some(e.2 as int)
                    }
                },
            },
    {
        let v = self.val + rhs.val;
        if let Some(max) = self.max {
            if v > max {
                return Err(InvalidAddition(rhs.val, self.val, max));
            }
        }
        if let Some(min) = self.min {
            if v < min {
                return Err(InvalidAddition(rhs.val, self.val, min));
            }
        }
        self.val = v;
        Ok(())
    }

    /// Adds the value contained in another `Resource` to this one,
    /// capping the new value at the configured upper bound if any.
    pub fn capped_add(&mut self, rhs: Self)
        requires
            i64::MIN <= old(self)@.val + rhs@.val <= i64::MAX,
        ensures
            final(self)@ == old(self)@.capped_add(rhs@.val),
    {
        let v = self.val + rhs.val;
        self.val = match self.max {
            Some(max) => if v > max { max } else { v },
            None => v,
        };
    }

    /// Subtracts the value contained in another `Resource` from this one.
    ///
    /// Returns an `InvalidSubtraction` error, and leaves the value unchanged,
    /// if the new value would be outside the configured bounds; the error
    /// carries the amount, the current value and the cap that was crossed.
    pub fn checked_sub(&mut self, rhs: Self) -> (r: Result<(), InvalidSubtraction>)
        requires
            i64::MIN <= old(self)@.val - rhs@.val <= i64::MAX,
        ensures
            match r {
                Ok(()) => old(self)@.checked_sub(rhs@.val) == Some(final(self)@),
                Err(e) => {
                    &&& old(self)@.checked_sub(rhs@.val) is None
                    &&& final(self)@ == old(self)@
                    &&& e.0 == rhs@.val
                    &&& e.1 == old(self)@.val
                    &&& if above_min(old(self)@.val - rhs@.val, old(self)@.min) {
                        old(self)@.max == Some(e.2 as int)
                    } else {
                        old(self)@.min == Some(e.2 as int)
                    }
                },
            },
    {
        let v = self.val - rhs.val;
        if let Some(min) = self.min {
            if v < min {
                return Err(InvalidSubtraction(rhs.val, self.val, min));
            }
        }
        if let Some(max) = self.max {
            if v > max {
                return Err(InvalidSubtraction(rhs.val, self.val, max));
            }
        }
        self.val = v;
        Ok(())
    }

    /// Subtracts the value contained in another `Resource` from this one,
    /// capping the new value at the configured lower bound, if any.
    pub fn capped_sub(&mut self, rhs: Self)
        requires
            i64::MIN <= old(self)@.val - rhs@.val <= i64::MAX,
        ensures
            final(self)@ == old(self)@.capped_sub(rhs@.val),
    {
        let v = self.val - rhs.val;
        self.val = match self.min {
            Some(min) => if v < min { min } else { v },
            None => v,
        };
    }

    /// Sets the lower cap for this `Resource` to a new value.
    ///
    /// Returns an `InvalidSoftCapAdjustment` error, and changes nothing, if
    /// the currently-stored value would be outside the new bounds.
    pub fn soft_set_min(&mut self, new_min: Option<i64>) -> (r: Result<(), InvalidSoftCapAdjustment>)
        ensures
            match r {
                Ok(()) => old(self)@.soft_set_min(opt_int(new_min)) == Some(final(self)@),
                Err(e) => {
                    &&& old(self)@.soft_set_min(opt_int(new_min)) is None
                    &&& final(self)@ == old(self)@
                    &&& e.0 == old(self)@.val
                    &&& new_min == Some(e.1)
                },
            },
    {
        if let Some(min) = new_min {
            if self.val < min {
                return Err(InvalidSoftCapAdjustment(self.val, min));
            }
        }
        self.min = new_min;
        Ok(())
    }

    /// Sets the lower cap for this `Resource` to a new value, applying
    /// the new cap to the currently contained value if necessary.
    pub fn hard_set_min(&mut self, new_min: Option<i64>)
        ensures
            final(self)@ == old(self)@.hard_set_min(opt_int(new_min)),
    {
        if let Some(min) = new_min {
            if self.val < min {
                self.val = min;
            }
        }
        self.min = new_min;
    }

    /// Sets the upper cap for this `Resource` to a new value.
    ///
    /// Returns an `InvalidSoftCapAdjustment` error, and changes nothing, if
    /// the currently-stored value would be outside the new bounds.
    pub fn soft_set_max(&mut self, new_max: Option<i64>) -> (r: Result<(), InvalidSoftCapAdjustment>)
        ensures
            match r {
                Ok(()) => old(self)@.soft_set_max(opt_int(new_max)) == Some(final(self)@),
                Err(e) => {
                    &&& old(self)@.soft_set_max(opt_int(new_max)) is None
                    &&& final(self)@ == old(self)@
                    &&& e.0 == old(self)@.val
                    &&& new_max == Some(e.1)
                },
            },
    {
        if let Some(max) = new_max {
            if self.val > max {
                return Err(InvalidSoftCapAdjustment(self.val, max));
            }
        }
        self.max = new_max;
        Ok(())
    }

    /// Sets the upper cap for this `Resource` to a new value, applying
    /// the new cap to the currently contained value if necessary.
    pub fn hard_set_max(&mut self, new_max: Option<i64>)
        ensures
            final(self)@ == old(self)@.hard_set_max(opt_int(new_max)),
    {
        if let Some(max) = new_max {
            if self.val > max {
                self.val = max;
            }
        }
        self.max = new_max;
    }
}

impl From<i64> for Resource {
    /// An uncapped resource holding `val`.
    fn from(val: i64) -> (r: Resource)
        ensures
            r@ == (ResourceView { val: val as int, min: None, max: None }),
    {
        Resource::new(val, None, None)
    }
}

impl vstd::std_specs::convert::FromSpecImpl<i64> for Resource {
    open spec fn obeys_from_spec() -> bool {
        true
    }

    closed spec fn from_spec(v: i64) -> Resource {
        Resource { val: v, min: None, max: None }
    }
}

impl From<Resource> for i64 {
    /// The value held by a resource.
    fn from(rsc: Resource) -> (r: i64)
        ensures
            r == rsc@.val,
    {
        rsc.val
    }
}

impl vstd::std_specs::convert::FromSpecImpl<Resource> for i64 {
    open spec fn obeys_from_spec() -> bool {
        true
    }

    closed spec fn from_spec(v: Resource) -> i64 {
        v.val
    }
}

/// Error for a subtraction that would go below the lower cap:
/// (amount subtracted, value before, lower cap).
#[derive(Debug)]
pub struct InvalidSubtraction(pub i64, pub i64, pub i64);

/// Error for an addition that would go above the upper cap:
/// (amount added, value before, upper cap).
#[derive(Debug)]
pub struct InvalidAddition(pub i64, pub i64, pub i64);

/// Error for a set outside of the caps: (new value, lower cap, upper cap).
#[derive(Debug)]
pub struct InvalidSet(pub i64, pub Option<i64>, pub Option<i64>);

/// Error for a cap adjustment that the current value violates:
/// (current value, new cap).
#[derive(Debug)]
pub struct InvalidSoftCapAdjustment(pub i64, pub i64);

/// A checked addition that is accepted, followed by a checked subtraction of
/// the same amount, is accepted too and restores the starting state, provided
/// the starting value lay within its caps.
pub proof fn law_add_then_sub_restores(s: ResourceView, a: int)
    requires
        in_bounds(s.val, s.min, s.max),
        s.checked_add(a) is Some,
    ensures
        s.checked_add(a).unwrap().checked_sub(a) == Some(s),
{
}

/// A checked subtraction that is accepted, followed by a checked addition of
/// the same amount, is accepted too and restores the starting state, provided
/// the starting value lay within its caps.
pub proof fn law_sub_then_add_restores(s: ResourceView, a: int)
    requires
        in_bounds(s.val, s.min, s.max),
        s.checked_sub(a) is Some,
    ensures
        s.checked_sub(a).unwrap().checked_add(a) == Some(s),
{
}

/// A capped set always yields a value within the caps, as long as the caps
/// do not contradict each other; it never touches the caps themselves.
pub proof fn law_capped_set_in_bounds(s: ResourceView, v: int)
    requires
        caps_consistent(s.min, s.max),
    ensures
        in_bounds(s.capped_set(v).val, s.min, s.max),
        s.capped_set(v).min == s.min,
        s.capped_set(v).max == s.max,
{
}

/// Capped additions never exceed the upper cap, and capped subtractions
/// never go below the lower cap.
pub proof fn law_capped_add_sub_respect_caps(s: ResourceView, a: int)
    ensures
        below_max(s.capped_add(a).val, s.max),
        above_min(s.capped_sub(a).val, s.min),
{
}

/// Whenever a checked operation is accepted, the capped operation of the same
/// kind gives the very same state.
pub proof fn law_capped_agrees_with_checked(s: ResourceView, a: int)
    ensures
        s.checked_set(a) is Some ==> s.capped_set(a) == s.checked_set(a).unwrap(),
        s.checked_add(a) is Some ==> s.capped_add(a) == s.checked_add(a).unwrap(),
        s.checked_sub(a) is Some ==> s.capped_sub(a) == s.checked_sub(a).unwrap(),
{
}

/// Whatever the amount, an accepted checked operation leaves the value
/// within its caps.
pub proof fn law_checked_ops_keep_bounds(s: ResourceView, a: int)
    ensures
        s.checked_set(a) is Some ==> in_bounds(s.checked_set(a).unwrap().val, s.min, s.max),
        s.checked_add(a) is Some ==> in_bounds(s.checked_add(a).unwrap().val, s.min, s.max),
        s.checked_sub(a) is Some ==> in_bounds(s.checked_sub(a).unwrap().val, s.min, s.max),
{
}

/// A soft cap adjustment is accepted exactly when the matching hard
/// adjustment would leave the value alone, and then both give the same state.
pub proof fn law_soft_cap_is_hard_cap_without_clamping(s: ResourceView, c: Option<int>)
    ensures
        s.soft_set_min(c) is Some <==> s.hard_set_min(c).val == s.val,
        s.soft_set_min(c) is Some ==> s.soft_set_min(c).unwrap() == s.hard_set_min(c),
        s.soft_set_max(c) is Some <==> s.hard_set_max(c).val == s.val,
        s.soft_set_max(c) is Some ==> s.soft_set_max(c).unwrap() == s.hard_set_max(c),
{
}

/// After a hard cap adjustment the value respects the new cap.
pub proof fn law_hard_caps_apply(s: ResourceView, c: Option<int>)
    ensures
        above_min(s.hard_set_min(c).val, c),
        below_max(s.hard_set_max(c).val, c),
{
}

/// Removing a cap (passing `None`) is always accepted and never changes the value.
pub proof fn law_removing_caps(s: ResourceView)
    ensures
        s.soft_set_min(None) == Some(ResourceView { val: s.val, min: None, max: s.max }),
        s.soft_set_max(None) == Some(ResourceView { val: s.val, min: s.min, max: None }),
        s.hard_set_min(None).val == s.val,
        s.hard_set_max(None).val == s.val,
{
}

/// A checked set, addition or subtraction is accepted exactly when the new
/// value lies within both caps (a cap itself included), and then gives that
/// value with the caps unchanged; otherwise it is refused.
pub proof fn law_checked_ops_accept_within_caps(s: ResourceView, a: int)
    ensures
        forall|v: int|
            #![trigger s.checked_set(v)]
            #![trigger s.checked_add(v - s.val)]
            #![trigger s.checked_sub(s.val - v)]
            ((s.min matches Some(m) ==> m <= v) && (s.max matches Some(m) ==> v <= m)) ==> {
                &&& s.checked_set(v) == Some(ResourceView { val: v, min: s.min, max: s.max })
                &&& s.checked_add(v - s.val) == Some(ResourceView { val: v, min: s.min, max: s.max })
                &&& s.checked_sub(s.val - v) == Some(ResourceView { val: v, min: s.min, max: s.max })
            },
        forall|v: int|
            #![trigger s.checked_set(v)]
            #![trigger s.checked_add(v - s.val)]
            #![trigger s.checked_sub(s.val - v)]
            ((s.min matches Some(m) && v < m) || (s.max matches Some(m) && v > m)) ==> {
                &&& s.checked_set(v) is None
                &&& s.checked_add(v - s.val) is None
                &&& s.checked_sub(s.val - v) is None
            },
        s.checked_add(a) is Some ==> s.checked_add(a).unwrap().val == s.val + a,
        s.checked_sub(a) is Some ==> s.checked_sub(a).unwrap().val == s.val - a,
        s.checked_set(a) is Some ==> s.checked_set(a).unwrap().val == a,
{
    assert forall|v: int| ((s.min matches Some(m) ==> m <= v) && (s.max matches Some(m) ==> v <= m)) implies {
        &&& s.checked_set(v) == Some(ResourceView { val: v, min: s.min, max: s.max })
        &&& s.checked_add(v - s.val) == Some(ResourceView { val: v, min: s.min, max: s.max })
        &&& s.checked_sub(s.val - v) == Some(ResourceView { val: v, min: s.min, max: s.max })
    } by {
        assert(s.val + (v - s.val) == v);
        assert(s.val - (s.val - v) == v);
    }
    assert forall|v: int| ((s.min matches Some(m) && v < m) || (s.max matches Some(m) && v > m)) implies {
        &&& s.checked_set(v) is None
        &&& s.checked_add(v - s.val) is None
        &&& s.checked_sub(s.val - v) is None
    } by {
        assert(s.val + (v - s.val) == v);
        assert(s.val - (s.val - v) == v);
    }
}

/// The capped operations keep the caps; a capped set or addition whose
/// result lies within the caps gives exactly that result, and otherwise
/// the value is moved to the cap that was crossed.
pub proof fn law_capped_ops_clamp(s: ResourceView, a: int)
    ensures
        s.capped_set(a).min == s.min && s.capped_set(a).max == s.max,
        s.capped_add(a).min == s.min && s.capped_add(a).max == s.max,
        s.capped_sub(a).min == s.min && s.capped_sub(a).max == s.max,
        (s.min matches Some(m) ==> m <= a) && (s.max matches Some(m) ==> a <= m) ==> s.capped_set(a).val == a,
        (s.max matches Some(m) && m < a && (s.min matches Some(n) ==> n <= m)) ==> s.capped_set(a).val == s.max->0,
        (s.min matches Some(m) && a < m && (s.max matches Some(n) ==> m <= n)) ==> s.capped_set(a).val == s.min->0,
        (s.max matches Some(m) ==> s.val + a <= m) ==> s.capped_add(a).val == s.val + a,
        s.max matches Some(m) ==> (s.val + a > m ==> s.capped_add(a).val == m),
        (s.min matches Some(m) ==> m <= s.val - a) ==> s.capped_sub(a).val == s.val - a,
        s.min matches Some(m) ==> (s.val - a < m ==> s.capped_sub(a).val == m),
{
}

/// A soft cap change is accepted exactly when the value respects the new
/// cap, and then changes only that cap; a hard cap change always installs
/// the new cap and moves the value to it only when it lies beyond it.
pub proof fn law_cap_changes(s: ResourceView, c: Option<int>)
    ensures
        (c matches Some(m) ==> m <= s.val) ==> s.soft_set_min(c) == Some(ResourceView { val: s.val, min: c, max: s.max }),
        (c matches Some(m) && s.val < m) ==> s.soft_set_min(c) is None,
        (c matches Some(m) ==> s.val <= m) ==> s.soft_set_max(c) == Some(ResourceView { val: s.val, min: s.min, max: c }),
        (c matches Some(m) && s.val > m) ==> s.soft_set_max(c) is None,
        s.hard_set_min(c).min == c && s.hard_set_min(c).max == s.max,
        s.hard_set_max(c).max == c && s.hard_set_max(c).min == s.min,
        (c matches Some(m) ==> m <= s.val) ==> s.hard_set_min(c).val == s.val,
        c matches Some(m) ==> (s.val < m ==> s.hard_set_min(c).val == m),
        (c matches Some(m) ==> s.val <= m) ==> s.hard_set_max(c).val == s.val,
        c matches Some(m) ==> (s.val > m ==> s.hard_set_max(c).val == m),
{
}

} // verus!
