use payment_relay::gateway::{PaymentGateway, WireOutcome};
use payment_relay::repository::PaymentRepository;
use payment_relay::types::{PaymentProcessor, PaymentRequest, RepositoryError};
use payment_relay::worker::{worker_complete, worker_take, WorkerTake};

fn payment(cents: u64, cid: &str, stamp: &str) -> PaymentRequest {
    PaymentRequest {
        amount_cents: cents,
        correlation_id: cid.as_bytes().to_vec(),
        requested_at: stamp.as_bytes().to_vec(),
    }
}

#[test]
fn fifo_order() {
    let mut repo = PaymentRepository::new();
    repo.enqueue(b"first").unwrap();
    repo.enqueue(b"second").unwrap();
    repo.enqueue(b"third").unwrap();
    assert_eq!(repo.dequeue().unwrap(), b"first".to_vec());
    assert_eq!(repo.dequeue().unwrap(), b"second".to_vec());
    assert_eq!(repo.dequeue().unwrap(), b"third".to_vec());
    assert_eq!(repo.dequeue(), Err(RepositoryError::QueueEmpty));
}

#[test]
fn empty_queue_signals_empty() {
    let mut repo = PaymentRepository::new();
    assert_eq!(repo.dequeue(), Err(RepositoryError::QueueEmpty));
    repo.enqueue(b"x").unwrap();
    assert!(repo.dequeue().is_ok());
    assert_eq!(repo.dequeue(), Err(RepositoryError::QueueEmpty));
}

#[test]
fn queue_len_tracks_items() {
    let mut repo = PaymentRepository::new();
    assert_eq!(repo.queue_len(), 0);
    repo.enqueue(b"x").unwrap();
    repo.enqueue(b"y").unwrap();
    assert_eq!(repo.queue_len(), 2);
}

#[test]
fn summary_range_exclusive_upper_bound() {
    let mut repo = PaymentRepository::new();
    repo.add(&payment(100, "p10", "1970-01-01T00:00:10Z"), PaymentProcessor::Default).unwrap();
    repo.add(&payment(200, "p20", "1970-01-01T00:00:20Z"), PaymentProcessor::Default).unwrap();
    repo.add(&payment(300, "p30", "1970-01-01T00:00:30Z"), PaymentProcessor::Default).unwrap();
    let sm = repo
        .get_summary(b"1970-01-01T00:00:10Z", b"1970-01-01T00:00:20Z")
        .unwrap();
    assert_eq!(sm.default.total_requests, 1);
    assert_eq!(sm.default.total_amount_cents, 100);
    assert_eq!(sm.fallback.total_requests, 0);
}

#[test]
fn summary_additive_over_split_ranges() {
    let mut repo = PaymentRepository::new();
    repo.add(&payment(100, "p10", "1970-01-01T00:00:10Z"), PaymentProcessor::Default).unwrap();
    repo.add(&payment(200, "p20", "1970-01-01T00:00:20Z"), PaymentProcessor::Default).unwrap();
    repo.add(&payment(300, "p30", "1970-01-01T00:00:30Z"), PaymentProcessor::Default).unwrap();
    let whole = repo
        .get_summary(b"1970-01-01T00:00:00Z", b"1970-01-01T00:00:40Z")
        .unwrap();
    let left = repo
        .get_summary(b"1970-01-01T00:00:00Z", b"1970-01-01T00:00:20Z")
        .unwrap();
    let right = repo
        .get_summary(b"1970-01-01T00:00:20Z", b"1970-01-01T00:00:40Z")
        .unwrap();
    assert_eq!(
        whole.default.total_requests,
        left.default.total_requests + right.default.total_requests
    );
    assert_eq!(
        whole.default.total_amount_cents,
        left.default.total_amount_cents + right.default.total_amount_cents
    );
}

#[test]
fn summary_open_bounds_cover_everything() {
    let mut repo = PaymentRepository::new();
    repo.add(&payment(150, "a", "1970-01-01T00:00:10Z"), PaymentProcessor::Default).unwrap();
    repo.add(&payment(250, "b", "2025-01-01T00:00:00Z"), PaymentProcessor::Fallback).unwrap();
    let sm = repo.get_summary(b"", b"").unwrap();
    assert_eq!(sm.default.total_requests, 1);
    assert_eq!(sm.default.total_amount_cents, 150);
    assert_eq!(sm.fallback.total_requests, 1);
    assert_eq!(sm.fallback.total_amount_cents, 250);
}

#[test]
fn summary_bad_bound_fails() {
    let repo = PaymentRepository::new();
    assert_eq!(
        repo.get_summary(b"yesterday", b""),
        Err(RepositoryError::Malformed)
    );
    assert_eq!(
        repo.get_summary(b"", b"1970-13-40T00:00:00Z"),
        Err(RepositoryError::Malformed)
    );
}

#[test]
fn same_document_collapses_in_ledger() {
    let mut repo = PaymentRepository::new();
    let p = payment(100, "dup", "1970-01-01T00:00:10Z");
    repo.add(&p, PaymentProcessor::Default).unwrap();
    repo.add(&p, PaymentProcessor::Default).unwrap();
    let sm = repo.get_summary(b"", b"").unwrap();
    assert_eq!(sm.default.total_requests, 1);
    assert_eq!(sm.default.total_amount_cents, 100);
}

#[test]
fn purge_clears_queue_and_ledgers() {
    let mut repo = PaymentRepository::new();
    repo.enqueue(b"queued").unwrap();
    repo.add(&payment(100, "a", "1970-01-01T00:00:10Z"), PaymentProcessor::Default).unwrap();
    repo.add(&payment(200, "b", "1970-01-01T00:00:20Z"), PaymentProcessor::Fallback).unwrap();
    repo.purge().unwrap();
    assert_eq!(repo.dequeue(), Err(RepositoryError::QueueEmpty));
    let sm = repo.get_summary(b"", b"").unwrap();
    assert_eq!(sm.default.total_requests, 0);
    assert_eq!(sm.default.total_amount_cents, 0);
    assert_eq!(sm.fallback.total_requests, 0);
    assert_eq!(sm.fallback.total_amount_cents, 0);
}

#[test]
fn enqueue_worker_success_yields_summary() {
    let mut repo = PaymentRepository::new();
    repo.enqueue(br#"{"amount":19.90,"correlationId":"abc"}"#).unwrap();
    let gw = PaymentGateway::new();
    let take = worker_take(&mut repo, &gw, b"1970-01-01T00:00:10Z".to_vec());
    let (p, raw) = match take {
        WorkerTake::Send { payment, raw, body } => {
            assert_eq!(
                body,
                br#"{"amount":19.9,"correlationId":"abc","requestedAt":"1970-01-01T00:00:10Z"}"#
                    .to_vec()
            );
            (payment, raw)
        }
        _ => panic!("expected a send decision"),
    };
    worker_complete(&mut repo, &p, &raw, &WireOutcome::Response(200)).unwrap();
    let sm = repo.get_summary(b"", b"").unwrap();
    assert_eq!(sm.default.total_requests, 1);
    assert_eq!(sm.default.total_amount_cents, 1990);
    assert_eq!(sm.fallback.total_requests, 0);
    assert_eq!(sm.fallback.total_amount_cents, 0);
}
