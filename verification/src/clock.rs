//! The wall clock, read through std and formatted through chrono.

use vstd::prelude::*;

verus! {

/// The UTC offset suffix that chrono writes for `Utc` times.
pub open spec fn utc_suffix() -> Seq<char> {
    seq!['+', '0', '0', ':', '0', '0']
}

/// The text ends with the UTC offset suffix.
pub open spec fn ends_utc(s: Seq<char>) -> bool {
    s.len() >= 6 && s.subrange(s.len() - 6, s.len() as int) == utc_suffix()
}

/// Calls `std::time::SystemTime::now` and measures it from `UNIX_EPOCH` with
/// `SystemTime::duration_since`, which fails when the clock reads before the
/// epoch; the duration is handed out as its whole seconds and the
/// nanoseconds past them. The values come from the system clock, so the
/// contract claims only that the nanoseconds stay below one second, as
/// `Duration::subsec_nanos` documents.
#[verifier::external_body]
fn unix_time() -> (r: Option<(u64, u32)>)
    ensures
        r matches Some(t) ==> t.1 < 1_000_000_000,
{
    match std::time::SystemTime::now().duration_since(std::time::UNIX_EPOCH) {
        Ok(d) => Some((d.as_secs(), d.subsec_nanos())),
        Err(_) => None,
    }
}

/// Calls chrono's `DateTime::from_timestamp`, which gives `None` on a time
/// out of its range, and formats the time with `DateTime::to_rfc3339`. The
/// contract claims that a time from the epoch to the end of the year 9999
/// with less than a second of nanoseconds is in range, and that the text
/// ends with the `+00:00` offset, which is how chrono writes a zero offset
/// when the `Z` form is not asked for; the date and time digits are left
/// unsaid.
#[verifier::external_body]
fn rfc3339_at(secs: i64, nanos: u32) -> (r: Option<String>)
    ensures
        0 <= secs <= 253_402_300_799 && nanos < 1_000_000_000 ==> r is Some,
        r matches Some(s) ==> ends_utc(s@),
{
    match chrono::DateTime::from_timestamp(secs, nanos) {
        Some(t) => Some(t.to_rfc3339()),
        None => None,
    }
}

/// The current UTC time in RFC 3339 form, or `None` when the system clock
/// reads before 1970 or past what chrono can represent.
pub fn utc_now_rfc3339() -> (r: Option<String>)
    ensures
        r matches Some(s) ==> ends_utc(s@),
{
    match unix_time() {
        Some((secs, nanos)) => {
            if secs <= 9_223_372_036_854_775_807u64 {
                rfc3339_at(secs as i64, nanos)
            } else {
                None
            }
        },
        None => None,
    }
}

} // verus!
