use payment_relay::config::parse_workers_len;
use payment_relay::handler::{parse_query, route_request, PaymentHandler, Route};
use payment_relay::repository::PaymentRepository;
use payment_relay::time::{epoch_score, parse_rfc3339_epoch};
use payment_relay::types::{PaymentProcessor, PaymentRequest, RepositoryError};

#[test]
fn routing_table() {
    assert_eq!(route_request(b"POST", b"/payments"), Route::PaymentIntake);
    assert_eq!(route_request(b"GET", b"/payments-summary"), Route::Summary);
    assert_eq!(route_request(b"POST", b"/purge-payments"), Route::Purge);
    assert_eq!(route_request(b"GET", b"/anything"), Route::NotFound);
    assert_eq!(route_request(b"GET", b"/payments"), Route::NotFound);
    assert_eq!(route_request(b"DELETE", b"/payments"), Route::MethodNotAllowed);
    assert_eq!(route_request(b"POST", b"/other"), Route::MethodNotAllowed);
}

#[test]
fn oversized_body_is_rejected_and_never_enqueued() {
    let mut h = PaymentHandler::new(PaymentRepository::new());
    let (status, _) = h.handle(b"POST", b"/payments", b"", 65537, b"ignored");
    assert_eq!(status, 413);
    assert_eq!(h.repo.dequeue(), Err(RepositoryError::QueueEmpty));
}

#[test]
fn intake_at_the_limit_is_accepted() {
    let mut h = PaymentHandler::new(PaymentRepository::new());
    let body = br#"{"amount":1,"correlationId":"a"}"#;
    let (status, reply) = h.handle(b"POST", b"/payments", b"", 65536, body);
    assert_eq!(status, 202);
    assert!(reply.is_empty());
    assert_eq!(h.repo.dequeue().unwrap(), body.to_vec());
}

#[test]
fn summary_endpoint_answers_the_encoded_aggregates() {
    let mut h = PaymentHandler::new(PaymentRepository::new());
    h.repo
        .add(
            &PaymentRequest {
                amount_cents: 1990,
                correlation_id: b"abc".to_vec(),
                requested_at: b"1970-01-01T00:00:10Z".to_vec(),
            },
            PaymentProcessor::Default,
        )
        .unwrap();
    let (status, body) = h.handle(
        b"GET",
        b"/payments-summary",
        b"from=1970-01-01T00:00:10Z&to=1970-01-01T00:00:20Z",
        0,
        b"",
    );
    assert_eq!(status, 200);
    assert_eq!(
        body,
        br#"{"default":{"totalRequests":1,"totalAmount":19.9},"fallback":{"totalRequests":0,"totalAmount":0}}"#
            .to_vec()
    );
}

#[test]
fn summary_with_bad_bound_is_a_server_error() {
    let mut h = PaymentHandler::new(PaymentRepository::new());
    let (status, _) = h.handle(b"GET", b"/payments-summary", b"from=junk", 0, b"");
    assert_eq!(status, 500);
}

#[test]
fn purge_endpoint_resets_the_store() {
    let mut h = PaymentHandler::new(PaymentRepository::new());
    h.repo.enqueue(b"queued").unwrap();
    let (status, reply) = h.handle(b"POST", b"/purge-payments", b"", 0, b"");
    assert_eq!(status, 200);
    assert!(reply.is_empty());
    assert_eq!(h.repo.dequeue(), Err(RepositoryError::QueueEmpty));
}

#[test]
fn unknown_read_is_not_found_and_bad_method_is_refused() {
    let mut h = PaymentHandler::new(PaymentRepository::new());
    let (status, _) = h.handle(b"GET", b"/", b"", 0, b"");
    assert_eq!(status, 404);
    let (status, _) = h.handle(b"PUT", b"/payments", b"", 0, b"");
    assert_eq!(status, 405);
}

#[test]
fn query_parsing_picks_from_and_to() {
    let (f, t) = parse_query(b"from=a&to=b");
    assert_eq!(f, b"a".to_vec());
    assert_eq!(t, b"b".to_vec());
    let (f, t) = parse_query(b"");
    assert!(f.is_empty() && t.is_empty());
    let (f, t) = parse_query(b"other=1&to=x");
    assert!(f.is_empty());
    assert_eq!(t, b"x".to_vec());
    let (f, _) = parse_query(b"from=a&from=c");
    assert_eq!(f, b"c".to_vec());
    let (f, t) = parse_query(b"noequals&from=z");
    assert_eq!(f, b"z".to_vec());
    assert!(t.is_empty());
}

#[test]
fn worker_count_parsing_defaults_to_one() {
    assert_eq!(parse_workers_len(b"4"), 4);
    assert_eq!(parse_workers_len(b"12"), 12);
    assert_eq!(parse_workers_len(b""), 1);
    assert_eq!(parse_workers_len(b"four"), 1);
    assert_eq!(parse_workers_len(b"4x"), 1);
    assert_eq!(parse_workers_len(b"99999999999999999999"), 1);
}

#[test]
fn timestamp_scores_are_whole_seconds() {
    assert_eq!(parse_rfc3339_epoch(b"1970-01-01T00:00:10Z"), Some(10));
    assert_eq!(parse_rfc3339_epoch(b"1970-01-01T00:00:10.900Z"), Some(10));
    assert_eq!(parse_rfc3339_epoch(b"1970-01-01T01:00:00+01:00"), Some(0));
    assert_eq!(parse_rfc3339_epoch(b"not a time"), None);
    assert_eq!(epoch_score(b"1969-12-31T00:00:00Z"), 0);
    assert_eq!(epoch_score(b""), 0);
    assert_eq!(epoch_score(b"2000-01-01T00:00:00Z"), 946684800);
}
