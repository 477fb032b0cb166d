//! The gateway to the upstream processor: stamping, the health-aware
//! admission gate, classification of the call's outcome, and the rule
//! that folds each health probe into the shared snapshot.
//!
//! The network call itself is outside this crate: the gateway prepares
//! the request body and decides; its caller performs the exchange and
//! hands the outcome back.

use vstd::prelude::*;
use crate::codec::{decode_health_spec, encode_payment_spec, json_safe};
use crate::types::{HealthStatus, PaymentError, PaymentRequest};

verus! {

/// Slowness threshold of the admission gate, in milliseconds.
pub const GATE_MAX_RESPONSE_TIME: u64 = 100;

/// What came back from one payment call: a status line, or no response
/// at all.
#[derive(Clone, Copy, Debug, PartialEq, Eq, Structural)]
pub enum WireOutcome {
    Response(u16),
    TransportFailure,
}

/// What came back from one health probe.
pub enum ProbeOutcome {
    /// A response arrived: its status and body.
    Response { status: u16, body: Vec<u8> },
    /// The probe failed outright.
    TransportFailure,
    /// The probe exceeded its time budget; no new information.
    Timeout,
}

/// The admission gate is open: the upstream is neither failing nor
/// known to be slower than the threshold.
pub open spec fn gate_open_spec(h: HealthStatus) -> bool {
    !h.failing && h.min_response_time <= GATE_MAX_RESPONSE_TIME
}

/// An HTTP status counts as success.
pub open spec fn is_success_status(status: u16) -> bool {
    200 <= status < 300
}

/// How a payment call's outcome is classified: a duplicate (422) is
/// success, any other non-success status or a transport failure is
/// `UnavailableProcessor`.
pub open spec fn classify_spec(wire: WireOutcome) -> Result<(), PaymentError> {
    match wire {
        WireOutcome::Response(status) => if status == 422 || is_success_status(status) {
            Ok(())
        } else {
            Err(PaymentError::UnavailableProcessor)
        },
        WireOutcome::TransportFailure => Err(PaymentError::UnavailableProcessor),
    }
}

/// How one probe outcome updates the snapshot: a fresh reading on a
/// decodable success body, fail-closed on any explicit error, and no
/// change on a timeout.
pub open spec fn health_tick_spec(prev: HealthStatus, probe: ProbeOutcome) -> HealthStatus {
    match probe {
        ProbeOutcome::Response { status, body } => {
            if is_success_status(status) {
                match decode_health_spec(body@) {
                    Some(h) => HealthStatus {
                        failing: h.failing,
                        min_response_time: h.min_response_time,
                    },
                    None => HealthStatus { failing: true, min_response_time: 0 },
                }
            } else {
                HealthStatus { failing: true, min_response_time: 0 }
            }
        },
        ProbeOutcome::TransportFailure => HealthStatus { failing: true, min_response_time: 0 },
        ProbeOutcome::Timeout => prev,
    }
}

/// Classifies what the wire returned for a payment call.
pub fn classify_wire(wire: &WireOutcome) -> (r: Result<(), PaymentError>)
    ensures
        r == classify_spec(*wire),
{
    match wire {
        WireOutcome::Response(status) => {
            if *status == 422 {
                return Ok(());
            }
            if 200 <= *status && *status < 300 {
                return Ok(());
            }
            Err(PaymentError::UnavailableProcessor)
        },
        WireOutcome::TransportFailure => Err(PaymentError::UnavailableProcessor),
    }
}

/// The gateway's in-process state: the health snapshot it consults
/// before attempting a dispatch.
pub struct PaymentGateway {
    pub health: HealthStatus,
}

impl PaymentGateway {
    /// A fresh gateway starts from a healthy snapshot.
    pub fn new() -> (r: Self)
        ensures
            r.health == (HealthStatus { failing: false, min_response_time: 0 }),
    {
        PaymentGateway { health: HealthStatus { failing: false, min_response_time: 0 } }
    }

    /// A gateway over a given snapshot.
    pub fn with_health(health: HealthStatus) -> (r: Self)
        ensures
            r.health == health,
    {
        PaymentGateway { health }
    }

    /// The current snapshot.
    pub fn get_health_status(&self) -> (r: HealthStatus)
        ensures
            r == self.health,
    {
        self.health
    }

    /// Whether the snapshot marks the upstream as failing.
    pub fn is_failing(&self) -> (r: bool)
        ensures
            r == self.health.failing,
    {
        self.health.failing
    }

    /// Overwrites the snapshot; the monitor's single writer.
    pub fn set_health_status(&mut self, health: HealthStatus)
        ensures
            final(self).health == health,
    {
        self.health = health;
    }

    /// Whether the admission gate is open.
    pub fn gate_open(&self) -> (r: bool)
        ensures
            r == gate_open_spec(self.health),
    {
        !self.health.failing && self.health.min_response_time <= GATE_MAX_RESPONSE_TIME
    }

    /// Begins one dispatch attempt: stamps the payment at the given
    /// time, then consults the admission gate. A closed gate yields
    /// `UnavailableProcessor` before any request body exists — no
    /// network call is to be made. An open gate yields the exact body
    /// to send.
    pub fn prepare_default(&self, payment: &mut PaymentRequest, now: Vec<u8>) -> (r: Result<
        Vec<u8>,
        PaymentError,
    >)
        requires
            old(payment).wf(),
            json_safe(now@),
        ensures
            final(payment).amount_cents == old(payment).amount_cents,
            final(payment).correlation_id@ == old(payment).correlation_id@,
            final(payment).requested_at@ == now@,
            final(payment).wf(),
            !gate_open_spec(self.health) ==> r == Err::<Vec<u8>, PaymentError>(
                PaymentError::UnavailableProcessor,
            ),
            gate_open_spec(self.health) ==> match r {
                Ok(body) => body@ == encode_payment_spec(final(payment)@),
                Err(_) => false,
            },
    {
        payment.set_requested_at(now);
        if self.is_failing() {
            return Err(PaymentError::UnavailableProcessor);
        }
        if self.get_health_status().min_response_time > GATE_MAX_RESPONSE_TIME {
            return Err(PaymentError::UnavailableProcessor);
        }
        Ok(crate::codec::encode_payment(payment))
    }

    /// Classifies what the wire returned for a payment call.
    pub fn classify_default(&self, wire: &WireOutcome) -> (r: Result<(), PaymentError>)
        ensures
            r == classify_spec(*wire),
    {
        classify_wire(wire)
    }

    /// Folds one probe outcome into the snapshot, per the monitor's
    /// rule.
    pub fn health_tick(&mut self, probe: ProbeOutcome)
        ensures
            final(self).health == health_tick_spec(old(self).health, probe),
    {
        match probe {
            ProbeOutcome::Response { status, body } => {
                if 200 <= status && status < 300 {
                    match crate::codec::decode_health(body.as_slice()) {
                        Some(h) => {
                            self.health = HealthStatus {
                                failing: h.failing,
                                min_response_time: h.min_response_time,
                            };
                        },
                        None => {
                            self.health = HealthStatus { failing: true, min_response_time: 0 };
                        },
                    }
                } else {
                    self.health = HealthStatus { failing: true, min_response_time: 0 };
                }
            },
            ProbeOutcome::TransportFailure => {
                self.health = HealthStatus { failing: true, min_response_time: 0 };
            },
            ProbeOutcome::Timeout => {},
        }
    }
}

} // verus!
