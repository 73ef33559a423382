use vstd::prelude::*;

verus! {

/// Relies on chrono's `Utc::now` and `DateTime::timestamp`: the current
/// Unix time in whole seconds, zero for clocks set before 1970. chrono's
/// dates span at most ±262143 years, so the count stays below 2^54.
#[verifier::external_body]
pub fn now_seconds() -> (r: u64)
    ensures
        r < 0x40000000000000,
{
    match u64::try_from(chrono::Utc::now().timestamp()) {
        Ok(v) => v,
        Err(_) => 0,
    }
}

/// Relies on chrono's `Utc::now` and `Datelike::num_days_from_ce`: today
/// as a signed day count of the common era. chrono's dates span at most
/// ±262143 years, so the count stays within ±96 million days.
#[verifier::external_body]
pub fn today_days() -> (r: i64)
    ensures
        -96_000_000 <= r <= 96_000_000,
{
    chrono::Datelike::num_days_from_ce(&chrono::Utc::now().date_naive()) as i64
}

/// Relies on chrono's `DateTime::timestamp_nanos_opt`: the current time in
/// nanoseconds, or zero where it does not fit in 64 bits. Nothing is
/// assumed of the clock's value.
#[verifier::external_body]
pub fn now_nanos() -> (r: i64) {
    chrono::Utc::now().timestamp_nanos_opt().unwrap_or(0)
}

} // verus!
