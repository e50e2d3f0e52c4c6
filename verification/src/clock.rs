use vstd::prelude::*;

verus! {

/// Greatest millisecond value the formatter is asked to render: the last
/// millisecond of year 9999, well inside chrono's representable range.
pub const MAX_RFC3339_MS: u64 = 253_402_300_799_999;

/// The RFC 3339 text for a UTC timestamp, as a function of the millisecond
/// value alone.
pub uninterp spec fn rfc3339_of(ms: u64) -> Seq<u8>;

/// Relies on chrono's `DateTime::from_timestamp_millis` and `to_rfc3339`:
/// within `MAX_RFC3339_MS` the conversion succeeds, and the rendered text
/// depends on the millisecond value alone.
#[verifier::external_body]
pub fn format_rfc3339(ms: u64) -> (r: Vec<u8>)
    requires
        ms <= MAX_RFC3339_MS,
    ensures
        r@ == rfc3339_of(ms),
{
    chrono::DateTime::<chrono::Utc>::from_timestamp_millis(ms as i64)
        .expect("timestamp in range")
        .to_rfc3339()
        .into_bytes()
}

/// Relies on chrono's `Utc::now`: a millisecond reading of the system
/// clock, about which nothing further can be promised.
#[verifier::external_body]
pub fn now_millis() -> i64 {
    chrono::Utc::now().timestamp_millis()
}

/// The clock reading clamped into the range the formatter accepts.
pub fn now_millis_clamped() -> (ms: u64)
    ensures
        ms <= MAX_RFC3339_MS,
{
    let t = now_millis();
    if t < 0 {
        0
    } else if t as u64 > MAX_RFC3339_MS {
        MAX_RFC3339_MS
    } else {
        t as u64
    }
}

} // verus!
