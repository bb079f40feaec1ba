//! The system clock, read as Unix time.
use vstd::prelude::*;

verus! {

/// Calls `SystemTime::now` and reads the time since the Unix epoch in
/// milliseconds (0 if the clock is before the epoch). Nothing is claimed
/// of the value: it is the time.
#[verifier::external_body]
pub(crate) fn unix_now_millis() -> u64 {
    let d = std::time::SystemTime::now().duration_since(std::time::SystemTime::UNIX_EPOCH);
    d.unwrap_or_default().as_millis() as u64
}

/// Seconds since the Unix epoch, by the system clock.
pub fn unix_now_secs() -> (r: u64)
    ensures
        r <= u64::MAX / 1000,
{
    unix_now_millis() / 1000
}

/// The instant (Unix seconds, nanoseconds) an RFC 3339 timestamp names,
/// if it parses.
pub uninterp spec fn rfc3339_instant(s: Seq<char>) -> Option<(i64, u32)>;

/// Calls `chrono::DateTime::parse_from_rfc3339` and reads the instant as
/// Unix seconds and sub-second nanoseconds.
#[verifier::external_body]
pub(crate) fn parse_rfc3339(s: &str) -> (r: Option<(i64, u32)>)
    ensures
        r == rfc3339_instant(s@),
{
    match chrono::DateTime::parse_from_rfc3339(s) {
        Ok(t) => Some((t.timestamp(), t.timestamp_subsec_nanos())),
        Err(_) => None,
    }
}

/// The last second chrono's `DateTime<Utc>` can hold (the end of year
/// 262142), as Unix seconds.
pub const CLOCK_MAX_SECS: i64 = 8_210_266_876_799;

/// Whether `t` (Unix seconds, sub-second nanoseconds) is an instant the
/// clock can give: from the Unix epoch to [`CLOCK_MAX_SECS`], in whole
/// milliseconds.
pub open spec fn clock_instant(t: (i64, u32)) -> bool {
    0 <= t.0 <= 8_210_266_876_799 && t.1 < 1_000_000_000 && t.1 % 1_000_000 == 0
}

/// The current instant as Unix seconds and sub-second nanoseconds, read
/// from the system clock in milliseconds. A clock before the epoch reads
/// as the epoch, and one past the last second chrono can hold reads as
/// that second.
pub(crate) fn utc_now() -> (r: (i64, u32))
    ensures
        clock_instant(r),
{
    let ms = unix_now_millis();
    let secs = ms / 1000;
    let sub = (ms % 1000) * 1_000_000;
    let s: i64 = if secs > 8_210_266_876_799 {
        CLOCK_MAX_SECS
    } else {
        secs as i64
    };
    (s, sub as u32)
}

/// The RFC 3339 text chrono gives for an instant (`DateTime::to_rfc3339`
/// of the UTC date-time at Unix second `secs` and `nanos` nanoseconds).
pub uninterp spec fn rfc3339_text(secs: i64, nanos: u32) -> Seq<char>;

/// Calls `chrono::DateTime::from_timestamp` and formats the instant with
/// `to_rfc3339`; the text is [`rfc3339_text`] of the instant.
/// `from_timestamp` gives `None` only outside chrono's range or for a
/// nanosecond count of a second or more, which `requires` leaves out.
#[verifier::external_body]
pub(crate) fn rfc3339_at(secs: i64, nanos: u32) -> (r: String)
    requires
        0 <= secs <= 8_210_266_876_799,
        nanos < 1_000_000_000,
    ensures
        r@ == rfc3339_text(secs, nanos),
{
    match chrono::DateTime::from_timestamp(secs, nanos) {
        Some(t) => t.to_rfc3339(),
        None => String::new(),
    }
}

/// The `server-time` text of a Unix second: `YYYY-MM-DDTHH:MM:SS.000Z`
/// in UTC (the epoch for a second chrono cannot represent).
pub uninterp spec fn server_time_text(secs: u64) -> Seq<char>;

/// Calls `chrono::DateTime::from_timestamp` and formats the instant with
/// `%Y-%m-%dT%H:%M:%S.000Z`; the text is [`server_time_text`] of `secs`.
#[verifier::external_body]
pub(crate) fn server_time(secs: u64) -> (r: String)
    ensures
        r@ == server_time_text(secs),
{
    chrono::DateTime::from_timestamp(secs as i64, 0).unwrap_or_default().format("%Y-%m-%dT%H:%M:%S.000Z").to_string()
}

} // verus!
