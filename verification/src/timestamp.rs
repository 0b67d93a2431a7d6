//! Points in time, as microseconds on a monotonic clock.
use vstd::prelude::*;

verus! {

/// A point in time: microseconds since an arbitrary, fixed epoch of one clock.
#[derive(Copy, Clone, Ord, PartialOrd, Eq, PartialEq, Structural, Hash, Debug)]
pub struct Timestamp(pub u64);

/// The point `delay_micros` after `t`, saturated at the last point a `Timestamp` holds.
pub open spec fn spec_with_delay(t: Timestamp, delay_micros: u64) -> Timestamp {
    Timestamp(
        if t.0 + delay_micros <= u64::MAX {
            (t.0 + delay_micros) as u64
        } else {
            u64::MAX
        },
    )
}

/// A delay is added exactly whenever the sum fits in 64 bits, and only a sum
/// past the last point saturates: the result is never before `t`, and never
/// later than `delay_micros` after it.
pub proof fn lemma_with_delay_adds(t: Timestamp, delay_micros: u64)
    ensures
        t.0 + delay_micros <= 18446744073709551615 ==> spec_with_delay(t, delay_micros).0 == t.0
            + delay_micros,
        t.0 + delay_micros > 18446744073709551615 ==> spec_with_delay(t, delay_micros).0
            == 18446744073709551615,
        t.0 <= spec_with_delay(t, delay_micros).0 <= t.0 + delay_micros,
{
}

impl Timestamp {
    /// The point `delay_micros` microseconds after this one, or the last point
    /// that a `Timestamp` can hold if that is later.
    pub fn with_delay(self, delay_micros: u64) -> (t: Timestamp)
        ensures
            t == spec_with_delay(self, delay_micros),
            self.0 + delay_micros <= u64::MAX ==> t.0 == self.0 + delay_micros,
            self.0 + delay_micros > u64::MAX ==> t.0 == u64::MAX,
    {
        Timestamp(self.0.saturating_add(delay_micros))
    }

    /// Whether this point has been reached at `now`.
    pub fn is_reached(self, now: Timestamp) -> (r: bool)
        ensures
            r == (self.0 <= now.0),
    {
        self.0 <= now.0
    }
}

} // verus!
