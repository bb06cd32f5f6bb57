//! The civil calendar, as far as the hours of a Location need it: days counted
//! from the first of January 1970, UTC.

use vstd::prelude::*;

verus! {

/// The weekday of a day, Monday being zero. The day zero was a Thursday.
pub open spec fn weekday_number(days: int) -> int {
    (days + 3) % 7
}

/// The weekday of a day, Monday being zero.
pub(crate) fn weekday(days: i128) -> (r: u8)
    ensures
        r == weekday_number(days as int),
{
    ((days % 7 + 10) % 7) as u8
}

} // verus!
