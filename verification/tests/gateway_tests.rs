use payment_relay::gateway::{PaymentGateway, ProbeOutcome, WireOutcome};
use payment_relay::types::{HealthStatus, PaymentError, PaymentRequest};

fn payment() -> PaymentRequest {
    PaymentRequest {
        amount_cents: 100,
        correlation_id: b"c".to_vec(),
        requested_at: Vec::new(),
    }
}

#[test]
fn gate_blocks_failing_upstream() {
    let gw = PaymentGateway::with_health(HealthStatus { failing: true, min_response_time: 0 });
    let mut p = payment();
    let r = gw.prepare_default(&mut p, b"1970-01-01T00:00:01Z".to_vec());
    assert_eq!(r, Err(PaymentError::UnavailableProcessor));
    assert_eq!(p.requested_at, b"1970-01-01T00:00:01Z".to_vec());
}

#[test]
fn gate_blocks_slow_upstream() {
    let gw = PaymentGateway::with_health(HealthStatus { failing: false, min_response_time: 101 });
    let mut p = payment();
    let r = gw.prepare_default(&mut p, b"1970-01-01T00:00:01Z".to_vec());
    assert_eq!(r, Err(PaymentError::UnavailableProcessor));
}

#[test]
fn gate_admits_at_threshold() {
    let gw = PaymentGateway::with_health(HealthStatus { failing: false, min_response_time: 100 });
    let mut p = payment();
    let r = gw.prepare_default(&mut p, b"1970-01-01T00:00:01Z".to_vec());
    let body = r.unwrap();
    assert_eq!(
        body,
        br#"{"amount":1,"correlationId":"c","requestedAt":"1970-01-01T00:00:01Z"}"#.to_vec()
    );
}

#[test]
fn fresh_gateway_is_healthy() {
    let gw = PaymentGateway::new();
    assert!(!gw.is_failing());
    let h = gw.get_health_status();
    assert!(!h.failing);
    assert_eq!(h.min_response_time, 0);
    assert!(gw.gate_open());
}

#[test]
fn classification_of_wire_outcomes() {
    let gw = PaymentGateway::new();
    assert_eq!(gw.classify_default(&WireOutcome::Response(200)), Ok(()));
    assert_eq!(gw.classify_default(&WireOutcome::Response(204)), Ok(()));
    assert_eq!(gw.classify_default(&WireOutcome::Response(422)), Ok(()));
    assert_eq!(
        gw.classify_default(&WireOutcome::Response(199)),
        Err(PaymentError::UnavailableProcessor)
    );
    assert_eq!(
        gw.classify_default(&WireOutcome::Response(300)),
        Err(PaymentError::UnavailableProcessor)
    );
    assert_eq!(
        gw.classify_default(&WireOutcome::Response(500)),
        Err(PaymentError::UnavailableProcessor)
    );
    assert_eq!(
        gw.classify_default(&WireOutcome::TransportFailure),
        Err(PaymentError::UnavailableProcessor)
    );
}

#[test]
fn health_tick_reads_a_fresh_snapshot() {
    let mut gw = PaymentGateway::new();
    gw.health_tick(ProbeOutcome::Response {
        status: 200,
        body: br#"{"failing":true,"minResponseTime":7}"#.to_vec(),
    });
    assert_eq!(gw.get_health_status(), HealthStatus { failing: true, min_response_time: 7 });
}

#[test]
fn health_tick_fails_closed_on_errors() {
    let mut gw = PaymentGateway::with_health(HealthStatus { failing: false, min_response_time: 9 });
    gw.health_tick(ProbeOutcome::Response { status: 503, body: Vec::new() });
    assert_eq!(gw.get_health_status(), HealthStatus { failing: true, min_response_time: 0 });

    let mut gw = PaymentGateway::with_health(HealthStatus { failing: false, min_response_time: 9 });
    gw.health_tick(ProbeOutcome::Response { status: 200, body: b"not json".to_vec() });
    assert_eq!(gw.get_health_status(), HealthStatus { failing: true, min_response_time: 0 });

    let mut gw = PaymentGateway::with_health(HealthStatus { failing: false, min_response_time: 9 });
    gw.health_tick(ProbeOutcome::TransportFailure);
    assert_eq!(gw.get_health_status(), HealthStatus { failing: true, min_response_time: 0 });
}

#[test]
fn health_tick_timeout_keeps_the_snapshot() {
    let prev = HealthStatus { failing: true, min_response_time: 42 };
    let mut gw = PaymentGateway::with_health(prev);
    gw.health_tick(ProbeOutcome::Timeout);
    assert_eq!(gw.get_health_status(), prev);
}

#[test]
fn set_health_status_overwrites() {
    let mut gw = PaymentGateway::new();
    let h = HealthStatus { failing: true, min_response_time: 3 };
    gw.set_health_status(h);
    assert_eq!(gw.get_health_status(), h);
}
