//! The boundary to the calendar library: reading an RFC 3339 timestamp
//! as whole Unix seconds, and stamping the current time.

use vstd::prelude::*;
use crate::codec::json_safe;
use crate::types::PaymentRequest;

verus! {

/// What the calendar library returns for a byte string read as an
/// RFC 3339 timestamp: its whole Unix seconds, or nothing when the
/// bytes do not form a valid timestamp. The result is a function of
/// the bytes alone.
pub uninterp spec fn rfc3339_epoch_of(s: Seq<u8>) -> Option<i64>;

/// Relies on str::from_utf8 and chrono's DateTime::parse_from_rfc3339
/// and DateTime::timestamp: reads the bytes as an RFC 3339 timestamp
/// and gives its whole Unix seconds; parsing depends on the bytes
/// alone.
#[verifier::external_body]
pub fn parse_rfc3339_epoch(s: &[u8]) -> (r: Option<i64>)
    ensures
        r == rfc3339_epoch_of(s@),
{
    match std::str::from_utf8(s) {
        Ok(t) => match chrono::DateTime::parse_from_rfc3339(t) {
            Ok(dt) => Some(dt.timestamp()),
            Err(_) => None,
        },
        Err(_) => None,
    }
}

/// Relies on chrono's Utc::now and to_rfc3339_opts: the current time
/// as an RFC 3339 string with nanosecond precision and a Z suffix,
/// which is printable ASCII without quotes or backslashes.
#[verifier::external_body]
pub fn now_rfc3339() -> (r: Vec<u8>)
    ensures
        json_safe(r@),
{
    chrono::Utc::now().to_rfc3339_opts(chrono::SecondsFormat::Nanos, true).into_bytes()
}

/// The ledger score of a timestamp: its Unix seconds when it parses to
/// a second at or after the epoch, and zero otherwise.
pub open spec fn score_of(s: Seq<u8>) -> u64 {
    match rfc3339_epoch_of(s) {
        Some(t) => if t >= 0 {
            t as u64
        } else {
            0
        },
        None => 0,
    }
}

/// Reads a timestamp's ledger score.
pub fn epoch_score(s: &[u8]) -> (r: u64)
    ensures
        r == score_of(s@),
{
    match parse_rfc3339_epoch(s) {
        Some(t) => if t >= 0 {
            t as u64
        } else {
            0
        },
        None => 0,
    }
}

impl PaymentRequest {
    /// The Unix-second score of this payment's stamp; zero when the
    /// stamp is absent or unreadable.
    pub fn get_requested_at(&self) -> (r: u64)
        ensures
            r == score_of(self.requested_at@),
    {
        epoch_score(self.requested_at.as_slice())
    }

    /// Stamps `requested_at` with the current time, leaving the other
    /// fields untouched.
    pub fn update_requested_at(&mut self)
        ensures
            final(self).amount_cents == old(self).amount_cents,
            final(self).correlation_id@ == old(self).correlation_id@,
            json_safe(final(self).requested_at@),
            old(self).wf() ==> final(self).wf(),
    {
        let now = now_rfc3339();
        self.set_requested_at(now);
    }
}

} // verus!
