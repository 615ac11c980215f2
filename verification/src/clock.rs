//! The system clock: nanoseconds since the Unix epoch, and the current
//! time as RFC 3339 text. A clock reading before the epoch counts as the
//! epoch itself.

use vstd::prelude::*;

verus! {

/// The system clock's time, a value of std's `SystemTime`.
#[verifier::external_type_specification]
#[verifier::external_body]
pub struct ExSystemTime(std::time::SystemTime);

/// The current time of the system clock (`SystemTime::now`). Nothing is
/// claimed of it: it depends on the clock.
#[verifier::external_body]
fn system_now() -> (t: std::time::SystemTime) {
    std::time::SystemTime::now()
}

/// How long after the Unix epoch `t` lies (`SystemTime::duration_since`
/// with `UNIX_EPOCH`), none when `t` lies before it. Nothing is claimed of
/// which it is: that depends on the time given.
#[verifier::external_body]
fn since_unix_epoch(t: &std::time::SystemTime) -> (d: Option<std::time::Duration>) {
    match t.duration_since(std::time::UNIX_EPOCH) {
        Ok(d) => Some(d),
        Err(_) => None,
    }
}

/// The whole nanoseconds of `d` (`Duration::as_nanos`). Nothing is claimed
/// of the number: a duration is opaque here.
#[verifier::external_body]
fn duration_nanos(d: &std::time::Duration) -> (n: u128) {
    d.as_nanos()
}

/// The whole seconds of `d` (`Duration::as_secs`). Nothing is claimed of
/// the number: a duration is opaque here.
#[verifier::external_body]
fn duration_secs(d: &std::time::Duration) -> (n: u64) {
    d.as_secs()
}

/// The fraction of a second of `d`, in nanoseconds
/// (`Duration::subsec_nanos`). Claimed: less than one billion, as std
/// documents.
#[verifier::external_body]
fn duration_subsec_nanos(d: &std::time::Duration) -> (n: u32)
    ensures
        n < 1_000_000_000,
{
    d.subsec_nanos()
}

/// The RFC 3339 text chrono writes for the UTC time `secs` seconds and
/// `nanos` nanoseconds past the Unix epoch, none when it cannot represent
/// that time.
pub uninterp spec fn rfc3339_text_of(secs: i64, nanos: u32) -> Option<Seq<char>>;

/// The RFC 3339 text of the UTC time `secs` seconds and `nanos`
/// nanoseconds past the Unix epoch, as chrono writes it
/// (`DateTime::from_timestamp`, then `to_rfc3339`); none when chrono
/// cannot represent that time. Claimed: the epoch itself is always
/// represented (zero days from the epoch and midnight are both in range),
/// and any text is not empty and ends with `+00:00` (the offset is zero
/// and written with colons).
#[verifier::external_body]
fn utc_timestamp_rfc3339(secs: i64, nanos: u32) -> (r: Option<String>)
    ensures
        rfc3339_text_of(secs, nanos) == match r {
            Some(t) => Some(t@),
            None => None::<Seq<char>>,
        },
        secs == 0 && nanos == 0 ==> r is Some,
        r matches Some(t) ==> t@.len() > 0 && "+00:00"@.is_suffix_of(t@),
{
    match chrono::DateTime::from_timestamp(secs, nanos) {
        Some(t) => Some(t.to_rfc3339()),
        None => None,
    }
}

/// Seconds and nanoseconds since the Unix epoch on this machine's clock,
/// zero when the clock reads before the epoch.
fn since_epoch_parts() -> (r: (u64, u32))
    ensures
        r.1 < 1_000_000_000,
{
    match since_unix_epoch(&system_now()) {
        Some(d) => (duration_secs(&d), duration_subsec_nanos(&d)),
        None => (0, 0),
    }
}

/// Nanoseconds since the Unix epoch on this machine's clock, zero when the
/// clock reads before the epoch.
pub fn unix_time_nanos() -> u128 {
    match since_unix_epoch(&system_now()) {
        Some(d) => duration_nanos(&d),
        None => 0,
    }
}

/// The RFC 3339 text of the UTC time `secs` seconds and `nanos` nanoseconds
/// past the Unix epoch as this library writes it: chrono's text of that
/// time, or the epoch's own text when chrono cannot represent it.
pub open spec fn rfc3339_reading(secs: u64, nanos: u32) -> Seq<char> {
    if secs <= i64::MAX && rfc3339_text_of(secs as i64, nanos) is Some {
        rfc3339_text_of(secs as i64, nanos)->0
    } else {
        rfc3339_text_of(0, 0)->0
    }
}

/// The RFC 3339 text of the time `secs` seconds and `nanos` nanoseconds
/// past the Unix epoch, in UTC; the epoch's own text when chrono cannot
/// represent that time.
pub fn rfc3339_utc(secs: u64, nanos: u32) -> (r: String)
    ensures
        r@ == rfc3339_reading(secs, nanos),
        r@.len() > 0,
        "+00:00"@.is_suffix_of(r@),
{
    let t = if secs <= i64::MAX as u64 {
        utc_timestamp_rfc3339(secs as i64, nanos)
    } else {
        None
    };
    match t {
        Some(t) => t,
        None => utc_timestamp_rfc3339(0, 0).unwrap(),
    }
}

/// The current time in UTC as RFC 3339 text, such as
/// `2026-09-03T15:00:00.123456789+00:00`; a clock that reads before the
/// Unix epoch counts as the epoch. The text is that of some reading of the
/// clock, whole seconds and a fraction under one second; which reading
/// depends on when it is called.
pub fn utc_now_rfc3339() -> (r: String)
    ensures
        exists|secs: u64, nanos: u32|
            nanos < 1_000_000_000 && r@ == #[trigger] rfc3339_reading(secs, nanos),
        r@.len() > 0,
        "+00:00"@.is_suffix_of(r@),
{
    let (secs, nanos) = since_epoch_parts();
    let r = rfc3339_utc(secs, nanos);
    assert(nanos < 1_000_000_000 && r@ == rfc3339_reading(secs, nanos));
    r
}

} // verus!
