//! The domain data model: payment requests, the closed error taxonomy,
//! processor selection, health snapshots, and summary results.
//!
//! A payment amount is held in whole cents (hundredths of the currency
//! unit), so that summation and two-decimal rounding are exact.

use vstd::prelude::*;

verus! {

/// Mathematical model of a payment request: the amount in cents and the
/// two caller-visible strings as byte sequences.
pub struct PaymentModel {
    pub amount_cents: int,
    pub correlation_id: Seq<u8>,
    pub requested_at: Seq<u8>,
}

/// A payment submission. `correlation_id` is caller-supplied and preserved
/// verbatim; `requested_at` is stamped at each dispatch attempt.
pub struct PaymentRequest {
    pub amount_cents: u64,
    pub correlation_id: Vec<u8>,
    pub requested_at: Vec<u8>,
}

impl View for PaymentRequest {
    type V = PaymentModel;

    open spec fn view(&self) -> PaymentModel {
        PaymentModel {
            amount_cents: self.amount_cents as int,
            correlation_id: self.correlation_id@,
            requested_at: self.requested_at@,
        }
    }
}

impl Clone for PaymentRequest {
    fn clone(&self) -> (r: Self)
        ensures
            r@ == self@,
    {
        PaymentRequest {
            amount_cents: self.amount_cents,
            correlation_id: crate::codec::bytes_to_vec(self.correlation_id.as_slice()),
            requested_at: crate::codec::bytes_to_vec(self.requested_at.as_slice()),
        }
    }
}

impl PaymentRequest {
    /// Well-formedness: both strings may stand inside a JSON string of
    /// the accepted grammar without escaping.
    pub open spec fn wf(&self) -> bool {
        crate::codec::json_safe(self.correlation_id@)
            && crate::codec::json_safe(self.requested_at@)
    }

    pub fn new(amount_cents: u64, correlation_id: Vec<u8>) -> (r: Self)
        ensures
            r.amount_cents == amount_cents,
            r.correlation_id@ == correlation_id@,
            r.requested_at@ == Seq::<u8>::empty(),
    {
        let requested_at: Vec<u8> = Vec::new();
        assert(requested_at@ =~= Seq::<u8>::empty());
        PaymentRequest { amount_cents, correlation_id, requested_at }
    }

    /// Overwrites `requested_at` with the given timestamp, leaving the
    /// other fields untouched.
    pub fn set_requested_at(&mut self, now: Vec<u8>)
        ensures
            final(self).amount_cents == old(self).amount_cents,
            final(self).correlation_id@ == old(self).correlation_id@,
            final(self).requested_at@ == now@,
    {
        self.requested_at = now;
    }
}

/// Failure of one dispatch attempt, as the worker sees it.
#[derive(Clone, Copy, Debug, PartialEq, Eq, Structural)]
pub enum PaymentError {
    UnavailableProcessor,
}

/// The closed error taxonomy of the store-facing operations.
///
/// `QueueEmpty` is a control-flow signal (back off and retry), not a
/// failure; `Connectivity` stands for a hard store error; `Malformed`
/// covers an unreadable payload or an unparseable time range.
#[derive(Clone, Copy, Debug, PartialEq, Eq, Structural)]
pub enum RepositoryError {
    QueueEmpty,
    Connectivity,
    Malformed,
}

/// Which ledger a recorded payment belongs to.
#[derive(Clone, Copy, Debug, PartialEq, Eq, Structural)]
pub enum PaymentProcessor {
    Default,
    Fallback,
}

/// The shared health snapshot of the upstream processor.
#[derive(Clone, Copy, Debug, PartialEq, Eq, Structural)]
pub struct HealthStatus {
    pub failing: bool,
    pub min_response_time: u64,
}

/// The body of a successful health probe, once decoded.
#[derive(Clone, Copy, Debug, PartialEq, Eq, Structural)]
pub struct HealthCheckResponse {
    pub failing: bool,
    pub min_response_time: u64,
}

/// Aggregate over one ledger: how many payments, and their total amount
/// in cents.
#[derive(Clone, Copy, Debug, PartialEq, Eq, Structural)]
pub struct PaymentProcessorSummary {
    pub total_requests: u64,
    pub total_amount_cents: u128,
}

/// The answer to a summary query, one aggregate per ledger.
#[derive(Clone, Copy, Debug, PartialEq, Eq, Structural)]
pub struct PaymentsSummary {
    pub default: PaymentProcessorSummary,
    pub fallback: PaymentProcessorSummary,
}

} // verus!
