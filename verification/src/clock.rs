//! The wall clock, read in Unix seconds.
use vstd::prelude::*;

verus! {

/// `std::time::SystemTime::now` measured against `UNIX_EPOCH` by
/// `duration_since`: `Ok` with the whole seconds since the epoch, or, when
/// the clock reads earlier than the epoch, `Err` with the whole seconds and
/// the remaining nanoseconds before it. Nothing more is stated: the value
/// is the time the clock reads.
#[verifier::external_body]
fn time_from_epoch() -> (r: Result<u64, (u64, u32)>) {
    match std::time::SystemTime::now().duration_since(std::time::UNIX_EPOCH) {
        Ok(d) => Ok(d.as_secs()),
        Err(e) => Err((e.duration().as_secs(), e.duration().subsec_nanos())),
    }
}

/// The current time in Unix seconds, rounded down; a time before the
/// epoch is negative, and a time past the range of `i64` is clamped to it.
pub(crate) fn now_unix_seconds() -> (r: i64) {
    match time_from_epoch() {
        Ok(s) => {
            if s <= 0x7fff_ffff_ffff_ffffu64 {
                s as i64
            } else {
                i64::MAX
            }
        },
        Err((s, nanos)) => {
            if s < 0x7fff_ffff_ffff_ffffu64 {
                let whole = s as i64;
                if nanos > 0 {
                    -whole - 1
                } else {
                    -whole
                }
            } else {
                i64::MIN
            }
        },
    }
}

} // verus!
