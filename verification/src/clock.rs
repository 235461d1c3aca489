use vstd::prelude::*;
use chrono::NaiveDateTime;

verus! {

/// Course timestamps are chrono's `NaiveDateTime`; the library carries them
/// through without looking inside.
#[verifier::external_type_specification]
#[verifier::external_body]
pub struct ExNaiveDateTime(chrono::NaiveDateTime);

/// Reads the system clock: `std::time::SystemTime::now()`, measured by
/// `SystemTime::duration_since(UNIX_EPOCH)`, as whole seconds and the
/// nanoseconds past them (`Duration::as_secs`, `Duration::subsec_nanos`).
/// `None` where the clock reads a time before the Unix epoch, which is when
/// `duration_since` returns its error. The value depends on the clock; all
/// that is stated is that the nanosecond part is below one second, as
/// `subsec_nanos` documents.
#[verifier::external_body]
fn unix_time_now() -> (now: Option<(u64, u32)>)
    ensures
        now matches Some((_, nanos)) ==> nanos < 1_000_000_000,
{
    match std::time::SystemTime::now().duration_since(std::time::UNIX_EPOCH) {
        Ok(d) => Some((d.as_secs(), d.subsec_nanos())),
        Err(_) => None,
    }
}

/// The naive UTC date-time `secs` seconds and `nanos` nanoseconds after the
/// Unix epoch, as chrono computes it, or `None` where chrono cannot represent it.
pub uninterp spec fn naive_at(secs: i64, nanos: u32) -> Option<NaiveDateTime>;

/// `chrono::NaiveDateTime::from_timestamp_opt(secs, nanos)`, which chrono
/// computes as `DateTime::from_timestamp(secs, nanos)` followed by
/// `naive_utc()`: the result is the name `naive_at` of the arguments. It is
/// `None` where the seconds are out of chrono's range (about 262,000 years
/// from the common era); that range is not stated here. Its documentation
/// says it panics on a nanosecond part of two seconds or more, which
/// `requires` leaves out.
#[verifier::external_body]
#[allow(deprecated)]
fn naive_from_timestamp(secs: i64, nanos: u32) -> (t: Option<NaiveDateTime>)
    requires
        nanos < 2_000_000_000,
    ensures
        t == naive_at(secs, nanos),
{
    NaiveDateTime::from_timestamp_opt(secs, nanos)
}

/// The naive UTC date-time of a clock reading of `secs` seconds and `nanos`
/// nanoseconds after the Unix epoch, as chrono's `Utc::now` turns a reading
/// into a date-time: the seconds cast to `i64`, then chrono's conversion.
/// `None` where chrono cannot represent it.
pub fn naive_from_unix(secs: u64, nanos: u32) -> (t: Option<NaiveDateTime>)
    requires
        nanos < 1_000_000_000,
    ensures
        t == naive_at(secs as i64, nanos),
{
    let secs: i64 = #[verifier::truncate] (secs as i64);
    naive_from_timestamp(secs, nanos)
}

/// The current UTC time as a naive date-time, computed as chrono's
/// `Utc::now().naive_utc()` computes it (the reading of the system clock
/// turned into a date-time by `naive_from_unix`), but `None` where that would
/// panic: when the clock reads before the Unix epoch, or when the reading is
/// out of chrono's range. Which time comes back is the clock's, and is not
/// stated beyond that it is `naive_from_unix` of some reading.
pub fn utc_now_naive() -> (now: Option<NaiveDateTime>)
    ensures
        now is Some ==> exists|secs: u64, nanos: u32|
            nanos < 1_000_000_000 && #[trigger] naive_from_unix_spec(secs, nanos) == now,
{
    match unix_time_now() {
        Some((secs, nanos)) => {
            let now = naive_from_unix(secs, nanos);
            assert(naive_from_unix_spec(secs, nanos) == now);
            now
        },
        None => None,
    }
}

/// What `naive_from_unix` gives for a reading.
pub open spec fn naive_from_unix_spec(secs: u64, nanos: u32) -> Option<NaiveDateTime> {
    naive_at(secs as i64, nanos)
}

} // verus!
