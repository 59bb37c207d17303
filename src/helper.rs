use std::io::{Error, ErrorKind};
use std::time::Duration;

use vstd::prelude::*;

verus! {

#[verifier::external_type_specification]
#[verifier::external_body]
pub struct ExIoError(Error);

/// Nanoseconds per second.
pub const NANOS_PER_SEC: u64 = 1_000_000_000;

/// The whole seconds of a duration.
pub uninterp spec fn secs_of(d: Duration) -> u64;

/// The fractional part of a duration, in nanoseconds.
pub uninterp spec fn subsec_of(d: Duration) -> u32;

/// The nanoseconds of a duration, saturating at `u64::MAX`.
pub open spec fn nanos_of(d: Duration) -> u64 {
    let n = secs_of(d) * NANOS_PER_SEC + subsec_of(d);
    if n > u64::MAX {
        u64::MAX
    } else {
        n as u64
    }
}

/// Relies on `io::Error::new`: an error of kind `Other` carrying the message.
#[verifier::external_body]
fn other_error(reason: &str) -> (r: Error) {
    Error::new(ErrorKind::Other, reason)
}

/// Relies on `Duration::as_secs`: the whole seconds of the duration.
#[verifier::external_body]
fn duration_secs(d: &Duration) -> (r: u64)
    ensures
        r == secs_of(*d),
{
    d.as_secs()
}

/// Relies on `Duration::subsec_nanos`: the fractional part in nanoseconds, which is always
/// less than one second.
#[verifier::external_body]
fn duration_subsec_nanos(d: &Duration) -> (r: u32)
    ensures
        r == subsec_of(*d),
        r < NANOS_PER_SEC,
{
    d.subsec_nanos()
}

/// An I/O error of kind `Other` with the given message.
pub fn io_error(reason: &str) -> Error {
    other_error(reason)
}

/// The nanoseconds in `secs` seconds and `nanos` nanoseconds, or `None` where that does not
/// fit in a `u64`.
pub fn nanos_from_parts(secs: u64, nanos: u32) -> (r: Option<u64>)
    ensures
        secs * NANOS_PER_SEC + nanos <= u64::MAX ==> r == Some((secs * NANOS_PER_SEC + nanos) as u64),
        secs * NANOS_PER_SEC + nanos > u64::MAX ==> r is None,
{
    match secs.checked_mul(NANOS_PER_SEC) {
        Some(whole) => whole.checked_add(nanos as u64),
        None => {
            assert(secs * NANOS_PER_SEC + nanos > u64::MAX) by (nonlinear_arith)
                requires
                    secs * NANOS_PER_SEC > u64::MAX,
            ;
            None
        },
    }
}

/// Converts a duration to nanoseconds, saturating at `u64::MAX` for durations beyond
/// about 584 years.
///
/// The seconds and nanoseconds of the duration are combined by [`nanos_from_parts`].
pub fn duration_as_nanos(d: Duration) -> (r: u64)
    ensures
        r == nanos_of(d),
{
    let secs = duration_secs(&d);
    let nanos = duration_subsec_nanos(&d);
    match nanos_from_parts(secs, nanos) {
        Some(n) => n,
        None => u64::MAX,
    }
}

} // verus!
