use payment_relay::codec::{decode_health, decode_payment, encode_payment, encode_summary};
use payment_relay::types::{PaymentProcessorSummary, PaymentRequest, PaymentsSummary, RepositoryError};

#[test]
fn decode_minimal_payment() {
    let raw = br#"{"amount":19.9,"correlationId":"abc"}"#;
    let p = decode_payment(raw).unwrap();
    assert_eq!(p.amount_cents, 1990);
    assert_eq!(p.correlation_id, b"abc".to_vec());
    assert_eq!(p.requested_at, Vec::<u8>::new());
}

#[test]
fn decode_any_key_order_and_blanks() {
    let raw = b"{ \"correlationId\": \"x-1\", \"requestedAt\": \"T\", \"amount\": 7 }";
    let p = decode_payment(raw).unwrap();
    assert_eq!(p.amount_cents, 700);
    assert_eq!(p.correlation_id, b"x-1".to_vec());
    assert_eq!(p.requested_at, b"T".to_vec());
}

#[test]
fn decode_amount_fractions() {
    let p = decode_payment(br#"{"amount":19.95,"correlationId":"a"}"#).unwrap();
    assert_eq!(p.amount_cents, 1995);
    let p = decode_payment(br#"{"amount":0.05,"correlationId":"a"}"#).unwrap();
    assert_eq!(p.amount_cents, 5);
    let p = decode_payment(br#"{"amount":3,"correlationId":"a"}"#).unwrap();
    assert_eq!(p.amount_cents, 300);
}

#[test]
fn decode_rejects_bad_documents() {
    let cases: &[&[u8]] = &[
        b"",
        b"{}",
        br#"{"correlationId":"a"}"#,
        br#"{"amount":1}"#,
        br#"{"amount":1,"amount":2,"correlationId":"a"}"#,
        br#"{"amount":1,"correlationId":"a","other":1}"#,
        br#"{"amount":1,"correlationId":"a"}x"#,
        br#"{"amount":1.234,"correlationId":"a"}"#,
        br#"{"amount":.5,"correlationId":"a"}"#,
        br#"{"amount":-1,"correlationId":"a"}"#,
        b"{\"amount\":1,\"correlationId\":\"a\\\"b\"}",
        br#"["amount"]"#,
    ];
    for raw in cases {
        match decode_payment(raw) {
            Err(RepositoryError::Malformed) => {}
            other => panic!("expected Malformed, got {:?}", other.map(|p| p.amount_cents)),
        }
    }
}

#[test]
fn encode_canonical_document() {
    let p = PaymentRequest {
        amount_cents: 1990,
        correlation_id: b"abc".to_vec(),
        requested_at: b"1970-01-01T00:00:10Z".to_vec(),
    };
    let out = encode_payment(&p);
    assert_eq!(
        out,
        br#"{"amount":19.9,"correlationId":"abc","requestedAt":"1970-01-01T00:00:10Z"}"#.to_vec()
    );
}

#[test]
fn encode_amount_renderings() {
    for (cents, text) in [
        (1900u64, &b"19"[..]),
        (1990, b"19.9"),
        (1995, b"19.95"),
        (5, b"0.05"),
        (0, b"0"),
    ] {
        let p = PaymentRequest {
            amount_cents: cents,
            correlation_id: b"c".to_vec(),
            requested_at: Vec::new(),
        };
        let out = encode_payment(&p);
        let mut expected = b"{\"amount\":".to_vec();
        expected.extend_from_slice(text);
        expected.extend_from_slice(b",\"correlationId\":\"c\",\"requestedAt\":\"\"}");
        assert_eq!(out, expected);
    }
}

#[test]
fn encode_then_decode_returns_the_payment() {
    let p = PaymentRequest {
        amount_cents: 123456,
        correlation_id: b"11111111-2222-3333-4444-555555555555".to_vec(),
        requested_at: b"2025-07-01T10:20:30.000000000Z".to_vec(),
    };
    let out = encode_payment(&p);
    let q = decode_payment(&out).unwrap();
    assert_eq!(q.amount_cents, p.amount_cents);
    assert_eq!(q.correlation_id, p.correlation_id);
    assert_eq!(q.requested_at, p.requested_at);
}

#[test]
fn decode_health_documents() {
    let h = decode_health(br#"{"failing":true,"minResponseTime":5}"#).unwrap();
    assert!(h.failing);
    assert_eq!(h.min_response_time, 5);
    let h = decode_health(b"{ \"minResponseTime\": 0, \"failing\": false }").unwrap();
    assert!(!h.failing);
    assert_eq!(h.min_response_time, 0);
    assert!(decode_health(b"").is_none());
    assert!(decode_health(br#"{"failing":true}"#).is_none());
    assert!(decode_health(br#"{"failing":maybe,"minResponseTime":1}"#).is_none());
}

#[test]
fn encode_summary_document() {
    let sm = PaymentsSummary {
        default: PaymentProcessorSummary { total_requests: 1, total_amount_cents: 1990 },
        fallback: PaymentProcessorSummary { total_requests: 0, total_amount_cents: 0 },
    };
    let out = encode_summary(&sm);
    assert_eq!(
        out,
        br#"{"default":{"totalRequests":1,"totalAmount":19.9},"fallback":{"totalRequests":0,"totalAmount":0}}"#
            .to_vec()
    );
}
