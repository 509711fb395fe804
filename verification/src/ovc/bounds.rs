//! Time bounds on when an event happened: the interval of possible
//! controller times, with its interval arithmetic. The confidence that an
//! uncertainty interval carries beside its bounds is a floating-point
//! number and lives with the callers.
use vstd::prelude::*;
use std::cmp::Ordering;
use super::controller_time::ControllerTime;

verus! {

/// The closed interval `[earliest, latest]` of controller times.
#[derive(Debug, Clone, Copy, PartialEq, Eq, Structural)]
pub struct TimeBounds {
    earliest: ControllerTime,
    latest: ControllerTime,
}

/// Saturating subtraction on nanoseconds.
pub open spec fn sat_sub(a: u128, n: u128) -> u128 {
    if a < n { 0 } else { (a - n) as u128 }
}

/// Saturating addition on nanoseconds.
pub open spec fn sat_add(a: u128, n: u128) -> u128 {
    if a + n > u128::MAX { u128::MAX } else { (a + n) as u128 }
}

impl TimeBounds {
    /// Earliest bound in nanoseconds.
    pub closed spec fn lo(self) -> u128 {
        self.earliest.0
    }

    /// Latest bound in nanoseconds.
    pub closed spec fn hi(self) -> u128 {
        self.latest.0
    }

    /// Bounds are ordered: earliest is not after latest.
    #[verifier::type_invariant]
    pub open spec fn wf(self) -> bool {
        self.lo() <= self.hi()
    }

    /// The bounds with the given endpoints.
    pub open spec fn has(self, lo: u128, hi: u128) -> bool {
        self.lo() == lo && self.hi() == hi
    }

    /// Whether the two intervals share a time.
    pub open spec fn overlaps_spec(self, other: TimeBounds) -> bool {
        self.lo() <= other.hi() && other.lo() <= self.hi()
    }

    /// Whether every time of `self` is before every time of `other`.
    pub open spec fn precedes_spec(self, other: TimeBounds) -> bool {
        self.hi() < other.lo()
    }

    /// Bounds `[earliest, latest]`; `earliest` must not be after `latest`.
    pub fn new(earliest: ControllerTime, latest: ControllerTime) -> (r: Self)
        requires
            earliest.0 <= latest.0,
        ensures
            r.has(earliest.0, latest.0),
            r.wf(),
    {
        TimeBounds { earliest, latest }
    }

    /// Bounds `error_nanos` either side of `center`, saturating at the ends
    /// of the time range.
    pub fn symmetric(center: ControllerTime, error_nanos: u128) -> (r: Self)
        ensures
            r.has(sat_sub(center.0, error_nanos), sat_add(center.0, error_nanos)),
            r.wf(),
    {
        let earliest = center.saturating_sub(error_nanos);
        let latest = center.saturating_add(error_nanos);
        TimeBounds { earliest, latest }
    }

    /// The single point `[time, time]`.
    pub fn exact(time: ControllerTime) -> (r: Self)
        ensures
            r.has(time.0, time.0),
            r.wf(),
    {
        TimeBounds { earliest: time, latest: time }
    }

    /// The earliest bound.
    pub fn earliest(&self) -> (r: ControllerTime)
        ensures
            r.0 == self.lo(),
    {
        self.earliest
    }

    /// The latest bound.
    pub fn latest(&self) -> (r: ControllerTime)
        ensures
            r.0 == self.hi(),
    {
        self.latest
    }

    /// Width of the interval in nanoseconds.
    pub fn width_nanos(&self) -> (r: u128)
        ensures
            r == self.hi() - self.lo(),
    {
        proof { use_type_invariant(self); }
        self.latest.0 - self.earliest.0
    }

    /// The midpoint, rounded down.
    pub fn midpoint(&self) -> (r: ControllerTime)
        ensures
            r.0 == (self.lo() + self.hi()) / 2,
    {
        proof { use_type_invariant(self); }
        let w = self.latest.0 - self.earliest.0;
        let r = self.earliest.0 + w / 2;
        assert(r == (self.lo() + self.hi()) / 2) by (nonlinear_arith)
            requires
                w == self.hi() - self.lo(),
                r == self.lo() + w / 2,
                self.lo() <= self.hi(),
        ;
        ControllerTime(r)
    }

    /// Whether the interval is a single point.
    pub fn is_exact(&self) -> (r: bool)
        ensures
            r == (self.lo() == self.hi()),
    {
        self.earliest.0 == self.latest.0
    }

    /// Whether `time` lies within the bounds.
    pub fn contains(&self, time: ControllerTime) -> (r: bool)
        ensures
            r == (self.lo() <= time.0 && time.0 <= self.hi()),
    {
        time.0 >= self.earliest.0 && time.0 <= self.latest.0
    }

    /// Whether some time could lie in both intervals.
    pub fn overlaps(&self, other: &TimeBounds) -> (r: bool)
        ensures
            r == self.overlaps_spec(*other),
    {
        self.earliest.0 <= other.latest.0 && other.earliest.0 <= self.latest.0
    }

    /// Whether even the latest time of `self` is before the earliest time
    /// of `other`.
    pub fn must_precede(&self, other: &TimeBounds) -> (r: bool)
        ensures
            r == self.precedes_spec(*other),
    {
        self.latest.0 < other.earliest.0
    }

    /// Whether `other` must precede `self`.
    pub fn must_follow(&self, other: &TimeBounds) -> (r: bool)
        ensures
            r == other.precedes_spec(*self),
    {
        other.must_precede(self)
    }

    /// The common part of two overlapping intervals; `None` when they do
    /// not overlap.
    pub fn intersection(&self, other: &TimeBounds) -> (r: Option<TimeBounds>)
        ensures
            !self.overlaps_spec(*other) ==> r is None,
            self.overlaps_spec(*other) ==> (r matches Some(i) && i.has(
                if self.lo() >= other.lo() { self.lo() } else { other.lo() },
                if self.hi() <= other.hi() { self.hi() } else { other.hi() })),
    {
        proof {
            use_type_invariant(self);
            use_type_invariant(other);
        }
        if !self.overlaps(other) {
            return None;
        }
        let earliest = if self.earliest.0 >= other.earliest.0 { self.earliest } else { other.earliest };
        let latest = if self.latest.0 <= other.latest.0 { self.latest } else { other.latest };
        Some(TimeBounds { earliest, latest })
    }

    /// The smallest interval covering both (their convex hull).
    pub fn union(&self, other: &TimeBounds) -> (r: TimeBounds)
        ensures
            r.has(
                if self.lo() <= other.lo() { self.lo() } else { other.lo() },
                if self.hi() >= other.hi() { self.hi() } else { other.hi() }),
    {
        proof {
            use_type_invariant(self);
            use_type_invariant(other);
        }
        let earliest = if self.earliest.0 <= other.earliest.0 { self.earliest } else { other.earliest };
        let latest = if self.latest.0 >= other.latest.0 { self.latest } else { other.latest };
        TimeBounds { earliest, latest }
    }

    /// The interval widened by `nanos` on both sides, saturating at the
    /// ends of the time range.
    pub fn expand(&self, nanos: u128) -> (r: TimeBounds)
        ensures
            r.has(sat_sub(self.lo(), nanos), sat_add(self.hi(), nanos)),
    {
        proof { use_type_invariant(self); }
        TimeBounds { earliest: self.earliest.saturating_sub(nanos), latest: self.latest.saturating_add(nanos) }
    }

    /// The interval narrowed by `nanos` on both sides; `None` when twice
    /// `nanos` exceeds the width.
    pub fn shrink(&self, nanos: u128) -> (r: Option<TimeBounds>)
        ensures
            2 * nanos > self.hi() - self.lo() ==> r is None,
            2 * nanos <= self.hi() - self.lo() ==> (r matches Some(s) && s.has((self.lo() + nanos) as u128, (self.hi() - nanos) as u128)),
    {
        proof { use_type_invariant(self); }
        let width = self.width_nanos();
        if nanos > width / 2 {
            return None;
        }
        TimeBounds::shrink_within(self.earliest.0, self.latest.0, nanos)
    }

    /// Narrowing by at most half the width.
    fn shrink_within(lo: u128, hi: u128, nanos: u128) -> (r: Option<TimeBounds>)
        requires
            lo <= hi,
            nanos <= (hi - lo) / 2,
        ensures
            2 * nanos <= hi - lo,
            r matches Some(s) && s.has((lo + nanos) as u128, (hi - nanos) as u128),
    {
        Some(TimeBounds { earliest: ControllerTime(lo + nanos), latest: ControllerTime(hi - nanos) })
    }

    /// `Less` when `self` must precede `other`, `Greater` when it must
    /// follow it, `None` when the order is uncertain.
    pub open spec fn order_of(self, other: TimeBounds) -> Option<Ordering> {
        if self.precedes_spec(other) {
            Some(Ordering::Less)
        } else if other.precedes_spec(self) {
            Some(Ordering::Greater)
        } else {
            None
        }
    }

    /// The temporal order of the two intervals (see `order_of`).
    pub fn temporal_order(&self, other: &TimeBounds) -> (r: Option<Ordering>)
        ensures
            r == self.order_of(*other),
    {
        if self.must_precede(other) {
            Some(Ordering::Less)
        } else if self.must_follow(other) {
            Some(Ordering::Greater)
        } else {
            None
        }
    }
}

impl Default for TimeBounds {
    /// The exact point at the epoch.
    fn default() -> (r: Self)
        ensures
            r.has(0, 0),
    {
        TimeBounds::exact(ControllerTime::EPOCH())
    }
}

/// Ordered bounds either overlap or one of them must precede the other,
/// and never both: the temporal order of two intervals is uncertain
/// exactly when they overlap.
pub proof fn law_order_or_overlap(a: TimeBounds, b: TimeBounds)
    requires
        a.wf(),
        b.wf(),
    ensures
        a.overlaps_spec(b) <==> !(a.precedes_spec(b) || b.precedes_spec(a)),
        !(a.precedes_spec(b) && b.precedes_spec(a)),
{
}

/// Temporal order is antisymmetric: `a` comes before `b` exactly when
/// `b` comes after `a`, and the order is uncertain both ways or neither.
pub proof fn law_order_antisymmetric(a: TimeBounds, b: TimeBounds)
    requires
        a.wf(),
        b.wf(),
    ensures
        a.order_of(b) == Some(Ordering::Less) <==> b.order_of(a) == Some(Ordering::Greater),
        a.order_of(b) is None <==> b.order_of(a) is None,
        a.order_of(b) != Some(Ordering::Equal),
{
}

/// A time lies in the intersection exactly when it lies in both intervals.
pub proof fn law_intersection_contains(a: TimeBounds, b: TimeBounds, i: TimeBounds, t: u128)
    requires
        a.wf(),
        b.wf(),
        a.overlaps_spec(b),
        i.has(if a.lo() >= b.lo() { a.lo() } else { b.lo() }, if a.hi() <= b.hi() { a.hi() } else { b.hi() }),
    ensures
        (i.lo() <= t <= i.hi()) <==> (a.lo() <= t <= a.hi() && b.lo() <= t <= b.hi()),
        i.lo() <= i.hi(),
{
}

/// The union covers every time of both intervals.
pub proof fn law_union_covers(a: TimeBounds, b: TimeBounds, u: TimeBounds, t: u128)
    requires
        a.wf(),
        b.wf(),
        u.has(if a.lo() <= b.lo() { a.lo() } else { b.lo() }, if a.hi() >= b.hi() { a.hi() } else { b.hi() }),
        (a.lo() <= t <= a.hi()) || (b.lo() <= t <= b.hi()),
    ensures
        u.lo() <= t <= u.hi(),
{
}

/// Shrinking undoes expanding when the expansion did not saturate.
pub proof fn law_shrink_undoes_expand(a: TimeBounds, e: TimeBounds, n: u128)
    requires
        a.wf(),
        n <= a.lo(),
        a.hi() + n <= u128::MAX,
        e.has(sat_sub(a.lo(), n), sat_add(a.hi(), n)),
    ensures
        2 * n <= e.hi() - e.lo(),
        e.lo() + n == a.lo() && e.hi() - n == a.hi(),
{
}

} // verus!
