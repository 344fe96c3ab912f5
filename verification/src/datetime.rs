//! Instants counted in nanoseconds from the UNIX epoch.

use core::cmp::Ordering;
use vstd::prelude::*;
use vstd::std_specs::cmp::PartialOrdSpecImpl;

verus! {

/// An instant, held as the signed number of nanoseconds since the UNIX epoch.
/// Negative values are instants before the epoch.
#[derive(Clone, Copy, Debug, PartialEq, Eq, Structural, Ord, Hash)]
pub struct DateTime {
    pub(crate) timestamp_nanos: i64,
}

impl View for DateTime {
    type V = int;

    /// The nanosecond count as a mathematical integer.
    closed spec fn view(&self) -> int {
        self.timestamp_nanos as int
    }
}

impl DateTime {
    /// Create new from UNIX timestamp in nanoseconds. The count is all that
    /// an instant holds: any instant with the same count is this one.
    pub fn from_timestamp_nanos(nanoseconds: i64) -> (datetime: Self)
        ensures
            datetime@ == nanoseconds,
            forall|other: Self| #[trigger] other@ == nanoseconds ==> other == datetime,
    {
        Self { timestamp_nanos: nanoseconds }
    }

    /// Every instant is counted in 64 bits.
    pub proof fn lemma_range(self)
        ensures
            i64::MIN <= self@ <= i64::MAX,
    {
    }

    /// Two instants are equal exactly where their counts are.
    pub proof fn lemma_equal_by_count(self, other: Self)
        ensures
            self == other <==> self@ == other@,
    {
    }

    /// Convert to UNIX timestamp in nanoseconds. Any instant with the same
    /// count is this one.
    pub fn into_timestamp_nanos(self) -> (nanoseconds: i64)
        ensures
            nanoseconds == self@,
            forall|other: Self| #[trigger] other@ == nanoseconds ==> other == self,
    {
        self.timestamp_nanos
    }
}

impl PartialOrd for DateTime {
    /// Instants are ordered as their nanosecond counts are.
    fn partial_cmp(&self, other: &Self) -> (order: Option<Ordering>) {
        if self.timestamp_nanos < other.timestamp_nanos {
            Some(Ordering::Less)
        } else if self.timestamp_nanos == other.timestamp_nanos {
            Some(Ordering::Equal)
        } else {
            Some(Ordering::Greater)
        }
    }
}

impl PartialOrdSpecImpl for DateTime {
    open spec fn obeys_partial_cmp_spec() -> bool {
        true
    }

    open spec fn partial_cmp_spec(&self, other: &Self) -> Option<Ordering> {
        if self@ < other@ {
            Some(Ordering::Less)
        } else if self@ == other@ {
            Some(Ordering::Equal)
        } else {
            Some(Ordering::Greater)
        }
    }
}

impl Default for DateTime {
    /// The epoch itself.
    fn default() -> (datetime: Self)
        ensures
            datetime@ == 0,
    {
        Self { timestamp_nanos: 0 }
    }
}

} // verus!
