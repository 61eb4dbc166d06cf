//! The time of an observation: the vendor's, where it can be trusted, else
//! the wall clock's.

use vstd::prelude::*;
use crate::decimal::{parse_i64, parsed_i64};
use crate::value::{has_name, value_of, FieldView, RawDetail, Scalar, ScalarView};

verus! {

/// How far the vendor's time may be from the wall clock, either way: ten
/// minutes, in milliseconds.
pub const TOLERANCE_MS: i64 = 600_000;

/// The field that holds the vendor's time, in milliseconds since the start of
/// 1970, as a string or as a number.
pub open spec fn timestamp_field() -> Seq<char> {
    "dataTimestamp"@
}

/// The time that `detail` holds: the integer that its timestamp field
/// denotes, if there is such a field and it denotes one.
pub open spec fn candidate_of(detail: Seq<FieldView>) -> Option<i64> {
    if has_name(detail, timestamp_field()) {
        match value_of(detail, timestamp_field()) {
            ScalarView::Text(s) => parsed_i64(s),
            ScalarView::Number(s) => parsed_i64(s),
            _ => None,
        }
    } else {
        None
    }
}

/// The vendor's time is no more than the tolerance from the clock's.
pub open spec fn within_tolerance(vendor: i64, clock: i64) -> bool {
    -TOLERANCE_MS <= vendor - clock <= TOLERANCE_MS
}

/// Where the time of an observation comes from.
#[derive(Clone, Copy, Debug, PartialEq, Eq, Structural)]
pub enum Resolved {
    /// The vendor's time, which is close to the clock's.
    Vendor { vendor: i64 },
    /// The clock's time: the detail holds no time that can be read.
    Missing { clock: i64 },
    /// The clock's time: the vendor's is too far from it.
    TooFar { vendor: i64, clock: i64 },
}

impl Resolved {
    /// The time to use, in milliseconds since the start of 1970.
    pub open spec fn timestamp(self) -> i64 {
        match self {
            Resolved::Vendor { vendor } => vendor,
            Resolved::Missing { clock } => clock,
            Resolved::TooFar { vendor, clock } => clock,
        }
    }

    /// The time to use, in milliseconds since the start of 1970.
    pub fn millis(&self) -> (t: i64)
        ensures
            t == self.timestamp(),
    {
        match self {
            Resolved::Vendor { vendor } => *vendor,
            Resolved::Missing { clock } => *clock,
            Resolved::TooFar { vendor, clock } => *clock,
        }
    }
}

/// The time of an observation, given what the detail holds and what the
/// clock says.
pub open spec fn resolved(candidate: Option<i64>, clock: i64) -> Resolved {
    match candidate {
        Some(vendor) => if within_tolerance(vendor, clock) {
            Resolved::Vendor { vendor }
        } else {
            Resolved::TooFar { vendor, clock }
        },
        None => Resolved::Missing { clock },
    }
}

/// The time that `detail` holds, if it holds one that can be read.
pub fn timestamp_candidate(detail: &RawDetail) -> (r: Option<i64>)
    ensures
        r == candidate_of(detail@),
{
    match detail.get("dataTimestamp") {
        Some(Scalar::Text(s)) => parse_i64(s.as_str()),
        Some(Scalar::Number(s)) => parse_i64(s.as_str()),
        _ => None,
    }
}

/// The time of an observation: the vendor's where there is one and it is no
/// more than ten minutes from the clock's, else the clock's.
pub fn resolve_timestamp(candidate: Option<i64>, clock: i64) -> (r: Resolved)
    ensures
        r == resolved(candidate, clock),
        candidate is None ==> r.timestamp() == clock,
        candidate matches Some(vendor) ==> r.timestamp() == if within_tolerance(vendor, clock) {
            vendor
        } else {
            clock
        },
{
    match candidate {
        Some(vendor) => {
            let distance: i128 = vendor as i128 - clock as i128;
            if -(TOLERANCE_MS as i128) <= distance && distance <= TOLERANCE_MS as i128 {
                Resolved::Vendor { vendor }
            } else {
                Resolved::TooFar { vendor, clock }
            }
        },
        None => Resolved::Missing { clock },
    }
}

} // verus!
