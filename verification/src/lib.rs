//! Order aggregation core for a two-source jewelry shop tracker.
//!
//! The library normalizes orders from a token-authenticated storefront and an
//! OAuth marketplace into one canonical model, manages the marketplace
//! credential state, merges both sources into a deterministically ordered
//! list, and resolves each order line against a manufacturing cost catalog
//! with a two-tier fuzzy matcher.
//!
//! All timestamps are UTC epoch seconds; all money amounts are integer cents;
//! all weights are integer milligrams. Network and file I/O live outside this
//! crate and hand in plain values.

pub mod api;
pub mod auth;
pub mod catalog;
pub mod etsy;
pub mod log;
pub mod model;
pub mod shopify;
pub mod text;

use vstd::prelude::*;

verus! {

/// Number of seconds in a day.
pub const SECS_PER_DAY: i64 = 86400;

/// The fixed fulfillment SLA: orders are due this many seconds after they
/// were placed, absent a source-provided ship date.
pub const FULFILLMENT_SLA_SECS: i64 = 14 * 86400;

/// The rolling lookback window: orders older than this many seconds are
/// excluded from fetch results.
pub const LOOKBACK_SECS: i64 = 60 * 86400;

/// `now + add` held within the `i64` range (only the top can be hit, as
/// `add` is nonnegative wherever this is used).
pub open spec fn sat_add_secs(now: int, add: int) -> int {
    if now + add > i64::MAX {
        i64::MAX as int
    } else {
        now + add
    }
}

/// Truncating division of a signed duration in seconds by a day length,
/// rounding toward zero (so -1 is "less than one day overdue" => 0 days).
pub open spec fn days_of_secs(secs: int) -> int {
    if secs >= 0 {
        secs / (SECS_PER_DAY as int)
    } else {
        -((-secs) / (SECS_PER_DAY as int))
    }
}

/// Whole days in a signed span of seconds, truncated toward zero.
pub fn whole_days(secs: i64) -> (r: i64)
    requires
        secs > i64::MIN,
    ensures
        r == days_of_secs(secs as int),
{
    if secs >= 0 {
        secs / SECS_PER_DAY
    } else {
        -((-secs) / SECS_PER_DAY)
    }
}

} // verus!
