use vstd::prelude::*;

verus! {

/// Relies on `chrono::Utc::now` for the current time, given as microseconds
/// since the Unix epoch by `DateTime::timestamp_micros`. Nothing is promised of
/// the value: it depends on the machine's clock.
#[verifier::external_body]
pub(crate) fn now_micros() -> i64 {
    chrono::Utc::now().timestamp_micros()
}

} // verus!
