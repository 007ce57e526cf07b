//! Instants as whole Unix seconds, and the margin before expiry.
use vstd::prelude::*;

verus! {

/// The earliest instant the time library represents: -9999-01-01 00:00:00 UTC.
pub const MIN_UNIX_SECONDS: i64 = -377_705_116_800;

/// The latest instant the time library represents: 9999-12-31 23:59:59 UTC.
pub const MAX_UNIX_SECONDS: i64 = 253_402_300_799;

/// How long before its literal expiry a link stops being served: 30 minutes.
pub const EXPIRY_MARGIN_SECONDS: i64 = 1800;

pub open spec fn valid_instant(t: int) -> bool {
    MIN_UNIX_SECONDS <= t <= MAX_UNIX_SECONDS
}

/// A link expiring at `expiry` is effectively expired at `now` unless
/// `expiry - margin` lies strictly after `now`.
pub open spec fn effectively_expired(expiry: int, now: int) -> bool {
    !(expiry - EXPIRY_MARGIN_SECONDS > now)
}

/// Relies on `time::OffsetDateTime::from_unix_timestamp`, which succeeds exactly
/// on the seconds between `Date::MIN` at midnight and `Date::MAX` at 23:59:59.
#[verifier::external_body]
pub(crate) fn instant_representable(t: i64) -> (r: bool)
    ensures
        r == valid_instant(t as int),
{
    time::OffsetDateTime::from_unix_timestamp(t).is_ok()
}

/// Whether a link expiring at `expiry` is effectively expired at `now`.
pub fn is_effectively_expired(expiry: i64, now: i64) -> (r: bool)
    ensures
        r == effectively_expired(expiry as int, now as int),
{
    (expiry as i128) - (EXPIRY_MARGIN_SECONDS as i128) <= now as i128
}

/// One second more than the margin keeps a link usable; one second less, or the
/// margin exactly, makes it effectively expired.
pub proof fn lemma_effective_expiry_boundary(now: int)
    ensures
        !effectively_expired(now + 30 * 60 + 1, now),
        effectively_expired(now + 30 * 60, now),
        effectively_expired(now + 30 * 60 - 1, now),
{
}

} // verus!
