//! The payload of each metric, from the raw reading that the host gives.
use vstd::prelude::*;

use crate::text::{format_scaled, one_decimal_text, tenths_of_ratio};

verus! {

/// Bytes in a mebibyte.
pub const BYTES_PER_MIB: u64 = 1048576;

/// The RFC 3339 text of the UTC instant `secs` seconds after the Unix epoch,
/// as chrono writes it.
pub uninterp spec fn rfc3339_utc(secs: int) -> Seq<char>;

/// The last second of the year 9999, in seconds after the Unix epoch.
pub const LAST_SECOND_OF_9999: u64 = 253402300799;

/// Relies on chrono's `DateTime::from_timestamp` (`None` only when the day
/// leaves chrono's year range, far beyond the year 9999) and
/// `DateTime::to_rfc3339`, which writes the instant.
#[verifier::external_body]
fn rfc3339_of_timestamp(secs: i64) -> (r: Option<String>)
    ensures
        r matches Some(s) ==> s@ == rfc3339_utc(secs as int),
        0 <= secs <= LAST_SECOND_OF_9999 ==> r is Some,
{
    match chrono::DateTime::from_timestamp(secs, 0) {
        Some(t) => Some(t.to_rfc3339()),
        None => None,
    }
}

/// The memory in use, `used_bytes`, in mebibytes with one decimal digit.
pub fn format_memory_use(used_bytes: u64) -> (r: String)
    ensures
        r@ == one_decimal_text(tenths_of_ratio(used_bytes as int, BYTES_PER_MIB as nat)),
{
    format_scaled(false, used_bytes, BYTES_PER_MIB)
}

/// The boot time, `unix_secs` seconds after the Unix epoch, as RFC 3339 text in
/// UTC. Every instant up to the end of the year 9999 is written; `None` comes
/// only for an instant beyond the range that can be written.
pub fn format_last_boot(unix_secs: u64) -> (r: Option<String>)
    ensures
        r matches Some(s) ==> s@ == rfc3339_utc(unix_secs as int),
        unix_secs <= LAST_SECOND_OF_9999 ==> r is Some,
        unix_secs > i64::MAX ==> r is None,
{
    if unix_secs > i64::MAX as u64 {
        None
    } else {
        rfc3339_of_timestamp(unix_secs as i64)
    }
}

} // verus!
