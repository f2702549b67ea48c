//! Wall-clock timestamps. A timestamp is modelled as a plain number of
//! nanoseconds on the TAI scale, so that ordering and equality — all the
//! ledger ever asks of a timestamp — are ordinary integer comparisons.

use vstd::prelude::*;

verus! {

/// A wall-clock instant, as whole nanoseconds since the TAI reference epoch.
/// Used both as a uniqueness key in a wallet's history and as an ordering
/// bound against a containing block's time.
#[derive(Clone, Copy, PartialEq, Eq, Structural, Debug)]
pub struct UtcDateTime {
    nanos: u64,
}

impl View for UtcDateTime {
    type V = u64;

    closed spec fn view(&self) -> u64 {
        self.nanos
    }
}

impl UtcDateTime {
    pub fn from_nanos(nanos: u64) -> (r: Self)
        ensures
            r@ == nanos,
    {
        UtcDateTime { nanos }
    }

    pub fn nanos(&self) -> (r: u64)
        ensures
            r == self@,
    {
        self.nanos
    }

    /// Strictly-before comparison.
    pub fn lt(&self, other: &Self) -> (r: bool)
        ensures
            r == (self@ < other@),
    {
        self.nanos < other.nanos
    }

    /// Reads the current wall-clock time. `None` when the clock is
    /// unavailable; nothing else is promised of the value read.
    ///
    /// Relies on `hifitime::Epoch::now` and the TAI duration it carries.
    #[verifier::external_body]
    pub fn now() -> (r: Option<UtcDateTime>)
    {
        match hifitime::Epoch::now() {
            Ok(epoch) => {
                let nanos = epoch.duration_since_j1900_tai.total_nanoseconds() as u64;
                Some(UtcDateTime { nanos })
            }
            Err(_) => None,
        }
    }
}

} // verus!
