//! Controller time: the monotonic nanosecond ground truth of the test controller.
use vstd::prelude::*;
use core::time::Duration;
use crate::clock::{duration_of, duration_new, duration_as_nanos};
use crate::text::{decimal, zero_padded, push_decimal, push_zero_padded, push_str, empty_string};

verus! {

/// Nanoseconds per second.
pub const NANOS_PER_SEC: u128 = 1_000_000_000u128;

/// Monotonic nanosecond timestamp from the test controller.
#[derive(Debug, Clone, Copy, PartialEq, Eq, Structural, PartialOrd, Ord, Hash)]
pub struct ControllerTime(pub u128);

impl ControllerTime {
    /// The epoch (zero) time.
    #[allow(non_snake_case)]
    pub fn EPOCH() -> (r: ControllerTime)
        ensures
            r.0 == 0,
    {
        ControllerTime(0)
    }

    /// Maximum representable time.
    #[allow(non_snake_case)]
    pub fn MAX() -> (r: ControllerTime)
        ensures
            r.0 == u128::MAX,
    {
        ControllerTime(u128::MAX)
    }

    /// From nanoseconds.
    pub fn from_nanos(nanos: u128) -> (r: Self)
        ensures
            r.0 == nanos,
    {
        ControllerTime(nanos)
    }

    /// From microseconds.
    pub fn from_micros(micros: u128) -> (r: Self)
        requires
            micros * 1_000 <= u128::MAX,
        ensures
            r.0 == micros * 1_000,
    {
        ControllerTime(micros * 1_000)
    }

    /// From milliseconds.
    pub fn from_millis(millis: u128) -> (r: Self)
        requires
            millis * 1_000_000 <= u128::MAX,
        ensures
            r.0 == millis * 1_000_000,
    {
        ControllerTime(millis * 1_000_000)
    }

    /// From seconds.
    pub fn from_secs(secs: u64) -> (r: Self)
        ensures
            r.0 == secs * 1_000_000_000,
    {
        assert(secs * 1_000_000_000 <= u128::MAX) by (nonlinear_arith)
            requires secs <= u64::MAX;
        ControllerTime(secs as u128 * 1_000_000_000)
    }

    /// As nanoseconds.
    pub fn as_nanos(&self) -> (r: u128)
        ensures
            r == self.0,
    {
        self.0
    }

    /// As whole microseconds.
    pub fn as_micros(&self) -> (r: u128)
        ensures
            r == self.0 / 1_000,
    {
        self.0 / 1_000
    }

    /// As whole milliseconds.
    pub fn as_millis(&self) -> (r: u128)
        ensures
            r == self.0 / 1_000_000,
    {
        self.0 / 1_000_000
    }

    /// As whole seconds, truncated to 64 bits.
    pub fn as_secs(&self) -> (r: u64)
        ensures
            r == (self.0 / 1_000_000_000) as u64,
    {
        (self.0 / 1_000_000_000) as u64
    }

    /// The sub-second nanoseconds (0 to 999,999,999).
    pub fn subsec_nanos(&self) -> (r: u32)
        ensures
            r == self.0 % 1_000_000_000,
    {
        (self.0 % 1_000_000_000) as u32
    }

    /// As a `Duration` when the time fits (whole seconds fit in 64 bits).
    pub fn to_duration(&self) -> (r: Option<Duration>)
        ensures
            r is Some <==> self.0 <= u64::MAX * 1_000_000_000 + 999_999_999,
            r matches Some(d) ==> d == duration_of((self.0 / 1_000_000_000) as u64, (self.0 % 1_000_000_000) as u32),
    {
        if self.0 <= 18_446_744_073_709_551_615u128 * 1_000_000_000 + 999_999_999 {
            Some(duration_new(self.as_secs(), self.subsec_nanos()))
        } else {
            None
        }
    }

    /// From a `Duration` (its total nanoseconds).
    pub fn from_duration(d: Duration) -> (r: Self)
        ensures
            forall|secs: u64, nanos: u32| nanos < 1_000_000_000 && d == #[trigger] duration_of(secs, nanos)
                ==> r.0 == secs * 1_000_000_000 + nanos,
    {
        ControllerTime(duration_as_nanos(&d))
    }

    /// Saturating addition of nanoseconds.
    pub fn saturating_add(self, nanos: u128) -> (r: Self)
        ensures
            r.0 == (if self.0 + nanos > u128::MAX { u128::MAX as int } else { self.0 + nanos }),
    {
        ControllerTime(self.0.saturating_add(nanos))
    }

    /// Saturating subtraction of nanoseconds.
    pub fn saturating_sub(self, nanos: u128) -> (r: Self)
        ensures
            r.0 == (if self.0 < nanos { 0 } else { self.0 - nanos }),
    {
        ControllerTime(self.0.saturating_sub(nanos))
    }

    /// Checked addition of nanoseconds.
    pub fn checked_add(self, nanos: u128) -> (r: Option<Self>)
        ensures
            r == (if self.0 + nanos > u128::MAX { None } else { Some(ControllerTime((self.0 + nanos) as u128)) }),
    {
        match self.0.checked_add(nanos) {
            Some(v) => Some(ControllerTime(v)),
            None => None,
        }
    }

    /// Checked subtraction of nanoseconds.
    pub fn checked_sub(self, nanos: u128) -> (r: Option<Self>)
        ensures
            r == (if self.0 < nanos { None } else { Some(ControllerTime((self.0 - nanos) as u128)) }),
    {
        match self.0.checked_sub(nanos) {
            Some(v) => Some(ControllerTime(v)),
            None => None,
        }
    }

    /// Absolute difference in nanoseconds.
    pub fn abs_diff(self, other: Self) -> (r: u128)
        ensures
            r == (if self.0 >= other.0 { self.0 - other.0 } else { other.0 - self.0 }),
    {
        if self.0 >= other.0 {
            self.0 - other.0
        } else {
            other.0 - self.0
        }
    }

    /// The display text `<secs>.<9-digit nanos>s`.
    pub open spec fn display_text(self) -> Seq<char> {
        decimal(((self.0 / 1_000_000_000) as u64) as nat) + "."@
            + zero_padded((self.0 % 1_000_000_000) as nat, 9) + "s"@
    }

    /// Display form `<secs>.<9-digit nanos>s`.
    pub fn to_string(&self) -> (s: String)
        ensures
            s@ == self.display_text(),
    {
        let mut s = empty_string();
        push_decimal(&mut s, self.as_secs() as u128);
        push_str(&mut s, ".");
        push_zero_padded(&mut s, self.subsec_nanos() as u128, 9);
        push_str(&mut s, "s");
        s
    }
}

impl Default for ControllerTime {
    fn default() -> (r: Self)
        ensures
            r.0 == 0,
    {
        ControllerTime(0)
    }
}

impl std::ops::Add<u128> for ControllerTime {
    type Output = ControllerTime;

    fn add(self, nanos: u128) -> (r: ControllerTime) {
        ControllerTime(self.0 + nanos)
    }
}

impl vstd::std_specs::ops::AddSpecImpl<u128> for ControllerTime {
    open spec fn obeys_add_spec() -> bool {
        true
    }

    open spec fn add_req(self, nanos: u128) -> bool {
        self.0 + nanos <= u128::MAX
    }

    open spec fn add_spec(self, nanos: u128) -> ControllerTime {
        ControllerTime((self.0 + nanos) as u128)
    }
}

impl std::ops::Sub<u128> for ControllerTime {
    type Output = ControllerTime;

    fn sub(self, nanos: u128) -> (r: ControllerTime) {
        ControllerTime(self.0 - nanos)
    }
}

impl vstd::std_specs::ops::SubSpecImpl<u128> for ControllerTime {
    open spec fn obeys_sub_spec() -> bool {
        true
    }

    open spec fn sub_req(self, nanos: u128) -> bool {
        nanos <= self.0
    }

    open spec fn sub_spec(self, nanos: u128) -> ControllerTime {
        ControllerTime((self.0 - nanos) as u128)
    }
}

impl std::ops::Sub<ControllerTime> for ControllerTime {
    type Output = i128;

    fn sub(self, other: ControllerTime) -> (r: i128) {
        (self.0 as i128) - (other.0 as i128)
    }
}

impl vstd::std_specs::ops::SubSpecImpl<ControllerTime> for ControllerTime {
    open spec fn obeys_sub_spec() -> bool {
        true
    }

    open spec fn sub_req(self, other: ControllerTime) -> bool {
        self.0 <= i128::MAX && other.0 <= i128::MAX
    }

    open spec fn sub_spec(self, other: ControllerTime) -> i128 {
        (self.0 - other.0) as i128
    }
}

impl From<u128> for ControllerTime {
    fn from(nanos: u128) -> (r: Self) {
        ControllerTime(nanos)
    }
}

impl vstd::std_specs::convert::FromSpecImpl<u128> for ControllerTime {
    open spec fn obeys_from_spec() -> bool {
        true
    }

    open spec fn from_spec(nanos: u128) -> Self {
        ControllerTime(nanos)
    }
}

impl From<ControllerTime> for u128 {
    fn from(ct: ControllerTime) -> (r: Self) {
        ct.0
    }
}

impl vstd::std_specs::convert::FromSpecImpl<ControllerTime> for u128 {
    open spec fn obeys_from_spec() -> bool {
        true
    }

    open spec fn from_spec(ct: ControllerTime) -> Self {
        ct.0
    }
}

} // verus!
