use payment_relay::gateway::{PaymentGateway, WireOutcome};
use payment_relay::repository::PaymentRepository;
use payment_relay::types::{HealthStatus, RepositoryError};
use payment_relay::worker::{backoff_ms, worker_complete, worker_take, PaymentWorkerPool, WorkerTake};

#[test]
fn idle_on_empty_queue_with_backoff() {
    let mut repo = PaymentRepository::new();
    let gw = PaymentGateway::new();
    match worker_take(&mut repo, &gw, b"1970-01-01T00:00:01Z".to_vec()) {
        WorkerTake::Idle => {}
        _ => panic!("expected an idle decision"),
    }
    assert_eq!(backoff_ms(&RepositoryError::QueueEmpty), 200);
    assert_eq!(backoff_ms(&RepositoryError::Connectivity), 0);
}

#[test]
fn malformed_payload_is_dropped_not_retried() {
    let mut repo = PaymentRepository::new();
    repo.enqueue(b"not a payment").unwrap();
    let gw = PaymentGateway::new();
    match worker_take(&mut repo, &gw, b"1970-01-01T00:00:01Z".to_vec()) {
        WorkerTake::Dropped => {}
        _ => panic!("expected a drop decision"),
    }
    assert_eq!(repo.dequeue(), Err(RepositoryError::QueueEmpty));
}

#[test]
fn closed_gate_defers_the_original_bytes() {
    let mut repo = PaymentRepository::new();
    let raw = br#"{"amount":5,"correlationId":"x"}"#;
    repo.enqueue(raw).unwrap();
    let gw = PaymentGateway::with_health(HealthStatus { failing: true, min_response_time: 0 });
    match worker_take(&mut repo, &gw, b"1970-01-01T00:00:01Z".to_vec()) {
        WorkerTake::Deferred => {}
        _ => panic!("expected a deferred decision"),
    }
    assert_eq!(repo.dequeue().unwrap(), raw.to_vec());
}

#[test]
fn duplicate_422_records_and_does_not_requeue() {
    let mut repo = PaymentRepository::new();
    repo.enqueue(br#"{"amount":5,"correlationId":"dup"}"#).unwrap();
    let gw = PaymentGateway::new();
    let (p, raw) = match worker_take(&mut repo, &gw, b"1970-01-01T00:00:01Z".to_vec()) {
        WorkerTake::Send { payment, raw, .. } => (payment, raw),
        _ => panic!("expected a send decision"),
    };
    let r = worker_complete(&mut repo, &p, &raw, &WireOutcome::Response(422));
    assert_eq!(r, Ok(()));
    assert_eq!(repo.dequeue(), Err(RepositoryError::QueueEmpty));
    let sm = repo.get_summary(b"", b"").unwrap();
    assert_eq!(sm.default.total_requests, 1);
}

#[test]
fn failure_requeues_the_original_bytes() {
    let mut repo = PaymentRepository::new();
    let raw_doc = br#"{"amount":5,"correlationId":"r"}"#;
    repo.enqueue(raw_doc).unwrap();
    let gw = PaymentGateway::new();
    let (p, raw) = match worker_take(&mut repo, &gw, b"1970-01-01T00:00:01Z".to_vec()) {
        WorkerTake::Send { payment, raw, .. } => (payment, raw),
        _ => panic!("expected a send decision"),
    };
    let r = worker_complete(&mut repo, &p, &raw, &WireOutcome::Response(500));
    assert!(r.is_err());
    assert_eq!(repo.dequeue().unwrap(), raw_doc.to_vec());
    let sm = repo.get_summary(b"", b"").unwrap();
    assert_eq!(sm.default.total_requests, 0);
}

#[test]
fn retries_then_success_record_once_with_final_stamp() {
    let mut repo = PaymentRepository::new();
    repo.enqueue(br#"{"amount":19.90,"correlationId":"abc"}"#).unwrap();
    let gw = PaymentGateway::new();
    let stamps = [
        &b"1970-01-01T00:01:40Z"[..], // epoch 100
        b"1970-01-01T00:03:20Z",      // epoch 200
        b"1970-01-01T00:05:00Z",      // epoch 300
    ];
    for (i, stamp) in stamps.iter().enumerate() {
        let (p, raw) = match worker_take(&mut repo, &gw, stamp.to_vec()) {
            WorkerTake::Send { payment, raw, .. } => (payment, raw),
            _ => panic!("expected a send decision"),
        };
        let wire = if i + 1 < stamps.len() {
            WireOutcome::TransportFailure
        } else {
            WireOutcome::Response(200)
        };
        let _ = worker_complete(&mut repo, &p, &raw, &wire);
    }
    assert_eq!(repo.dequeue(), Err(RepositoryError::QueueEmpty));
    let all = repo.get_summary(b"", b"").unwrap();
    assert_eq!(all.default.total_requests, 1);
    assert_eq!(all.default.total_amount_cents, 1990);
    // recorded under the stamp of the last attempt, not an earlier one
    let at_final = repo
        .get_summary(b"1970-01-01T00:05:00Z", b"1970-01-01T00:05:01Z")
        .unwrap();
    assert_eq!(at_final.default.total_requests, 1);
    let at_first = repo
        .get_summary(b"1970-01-01T00:01:40Z", b"1970-01-01T00:01:41Z")
        .unwrap();
    assert_eq!(at_first.default.total_requests, 0);
}

#[test]
fn pool_keeps_its_width() {
    let pool = PaymentWorkerPool::new(4);
    assert_eq!(pool.workers_len, 4);
}
