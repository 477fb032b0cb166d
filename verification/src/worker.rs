//! The worker pool's decision rules: one loop iteration split at its
//! suspension point. `worker_take` covers everything up to the network
//! call — dequeue, decode, stamp, the admission gate — and
//! `worker_complete` folds the call's outcome back into the store.
//! The caller runs the loop, performs the call, and sleeps the
//! backoffs.

use vstd::prelude::*;
use crate::codec::{decode_payment_spec, encode_payment_spec, json_safe};
use crate::gateway::{classify_spec, gate_open_spec, PaymentGateway, WireOutcome};
use crate::repository::{add_m, dequeue_m, enqueue_m, PaymentRepository};
use crate::types::{PaymentError, PaymentModel, PaymentProcessor, PaymentRequest, RepositoryError};

verus! {

/// Backoff before the next poll after an idle dequeue, in
/// milliseconds.
pub const IDLE_BACKOFF_MS: u64 = 200;

/// How long a worker sleeps after a failed dequeue: the empty-queue
/// signal earns the fixed backoff, a hard error none — the loop
/// retries at once.
pub open spec fn backoff_ms_spec(e: RepositoryError) -> u64 {
    match e {
        RepositoryError::QueueEmpty => IDLE_BACKOFF_MS,
        _ => 0,
    }
}

pub fn backoff_ms(e: &RepositoryError) -> (r: u64)
    ensures
        r == backoff_ms_spec(*e),
{
    match e {
        RepositoryError::QueueEmpty => IDLE_BACKOFF_MS,
        _ => 0,
    }
}

/// What one worker iteration decided before any network call.
pub enum WorkerTake {
    /// The queue was empty: sleep the idle backoff and poll again.
    Idle,
    /// The popped payload was not a payment document: dropped for
    /// good, never retried.
    Dropped,
    /// The admission gate was closed: the original bytes went back to
    /// the queue for a later attempt.
    Deferred,
    /// The admission gate was open: send `body` upstream; the outcome
    /// goes to `worker_complete`.
    Send { payment: PaymentRequest, raw: Vec<u8>, body: Vec<u8> },
}

/// One worker iteration before the network call: pop the oldest
/// payload, decode it, stamp it at `now`, and ask the admission gate.
pub fn worker_take(
    repo: &mut PaymentRepository,
    gateway: &PaymentGateway,
    now: Vec<u8>,
) -> (r: WorkerTake)
    requires
        old(repo).wf(),
        json_safe(now@),
    ensures
        final(repo).wf(),
        ({
            let (s1, popped) = dequeue_m(old(repo)@);
            match popped {
                None => r is Idle && final(repo)@ == old(repo)@,
                Some(raw) => match decode_payment_spec(raw) {
                    None => r is Dropped && final(repo)@ == s1,
                    Some(m) => {
                        if !gate_open_spec(gateway.health) {
                            r is Deferred && final(repo)@ == enqueue_m(s1, raw)
                        } else {
                            match r {
                                WorkerTake::Send { payment, raw: raw_back, body } => {
                                    &&& final(repo)@ == s1
                                    &&& raw_back@ == raw
                                    &&& payment@ == (PaymentModel {
                                        amount_cents: m.amount_cents,
                                        correlation_id: m.correlation_id,
                                        requested_at: now@,
                                    })
                                    &&& payment.wf()
                                    &&& body@ == encode_payment_spec(payment@)
                                },
                                _ => false,
                            }
                        }
                    },
                },
            }
        }),
{
    let raw = match repo.dequeue() {
        Ok(v) => v,
        Err(_) => {
            return WorkerTake::Idle;
        },
    };
    let mut payment = match crate::codec::decode_payment(raw.as_slice()) {
        Ok(p) => p,
        Err(_) => {
            return WorkerTake::Dropped;
        },
    };
    match gateway.prepare_default(&mut payment, now) {
        Ok(body) => WorkerTake::Send { payment, raw, body },
        Err(_) => {
            let _ = repo.enqueue(raw.as_slice());
            WorkerTake::Deferred
        },
    }
}

/// Folds the outcome of the network call back into the store: success
/// — a 2xx or a duplicate 422 — records the stamped payment in the
/// default ledger without requeueing; anything else requeues the
/// original bytes, untouched, for a fresh attempt.
pub fn worker_complete(
    repo: &mut PaymentRepository,
    payment: &PaymentRequest,
    raw: &[u8],
    wire: &WireOutcome,
) -> (r: Result<(), PaymentError>)
    requires
        old(repo).wf(),
        payment.wf(),
    ensures
        final(repo).wf(),
        r == classify_spec(*wire),
        classify_spec(*wire) is Ok ==> final(repo)@ == add_m(
            old(repo)@,
            payment@,
            PaymentProcessor::Default,
        ),
        classify_spec(*wire) is Err ==> final(repo)@ == enqueue_m(old(repo)@, raw@),
{
    match crate::gateway::classify_wire(wire) {
        Ok(()) => {
            let _ = repo.add(payment, PaymentProcessor::Default);
            Ok(())
        },
        Err(e) => {
            let _ = repo.enqueue(raw);
            Err(e)
        },
    }
}

/// A fixed-size pool of identical workers; its width is the only
/// state the pool itself carries.
pub struct PaymentWorkerPool {
    pub workers_len: u32,
}

impl PaymentWorkerPool {
    pub fn new(workers_len: u32) -> (r: Self)
        ensures
            r.workers_len == workers_len,
    {
        PaymentWorkerPool { workers_len }
    }
}

} // verus!
