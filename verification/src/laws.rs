//! The pipeline's cross-cutting guarantees, proved over the store
//! model and the decision rules that the operations' own contracts
//! speak of.

use vstd::prelude::*;
use crate::gateway::{classify_spec, gate_open_spec, WireOutcome, GATE_MAX_RESPONSE_TIME};
use crate::repository::{
    add_m, dequeue_m, enqueue_m, has_member, ledger_wf, range_cents, range_count, store_empty,
    zadd_m, EntryModel, StoreModel,
};
use crate::time::score_of;
use crate::types::{HealthStatus, PaymentError, PaymentModel, PaymentProcessor};

verus! {

/// Enqueueing a whole batch, oldest first.
pub open spec fn enqueue_all_m(s: StoreModel, xs: Seq<Seq<u8>>) -> StoreModel
    decreases xs.len(),
{
    if xs.len() == 0 {
        s
    } else {
        enqueue_m(enqueue_all_m(s, xs.drop_last()), xs.last())
    }
}

/// Queue conservation, the enqueue half: a batch of enqueues appends
/// the items behind what was queued, in submission order, and touches
/// no ledger.
pub proof fn lemma_enqueue_order(s: StoreModel, xs: Seq<Seq<u8>>)
    ensures
        enqueue_all_m(s, xs).queue == s.queue + xs,
        enqueue_all_m(s, xs).ledger_default == s.ledger_default,
        enqueue_all_m(s, xs).ledger_fallback == s.ledger_fallback,
    decreases xs.len(),
{
    if xs.len() == 0 {
        assert(s.queue + xs =~= s.queue);
    } else {
        lemma_enqueue_order(s, xs.drop_last());
        assert(s.queue + xs =~= (s.queue + xs.drop_last()).push(xs.last()));
    }
}

/// Queue conservation, the dequeue half: dequeueing signals empty
/// exactly on the empty queue, and otherwise pops the oldest item,
/// leaving the rest in order.
pub proof fn lemma_dequeue_order(s: StoreModel)
    ensures
        (dequeue_m(s).1 is None) <==> s.queue.len() == 0,
        s.queue.len() == 0 ==> dequeue_m(s).0 == s,
        s.queue.len() > 0 ==> dequeue_m(s).1 == Some(s.queue[0])
            && dequeue_m(s).0.queue == s.queue.drop_first()
            && dequeue_m(s).0.ledger_default == s.ledger_default
            && dequeue_m(s).0.ledger_fallback == s.ledger_fallback,
{
}

/// The admission gate: a snapshot that marks the upstream failing,
/// or slower than the threshold, admits no dispatch — the gateway
/// answers `UnavailableProcessor` before any call is made — and every
/// other snapshot admits it.
pub proof fn lemma_admission_gate(h: HealthStatus)
    ensures
        gate_open_spec(h) <==> (!h.failing && h.min_response_time <= GATE_MAX_RESPONSE_TIME),
{
}

/// Recording touches no queue: whatever a worker adds to a ledger,
/// nothing is requeued by it.
pub proof fn lemma_record_keeps_queue(s: StoreModel, m: PaymentModel, processor: PaymentProcessor)
    ensures
        add_m(s, m, processor).queue == s.queue,
{
}

/// A duplicate upstream answer (422) classifies as success, so the
/// worker records, requeues nothing, and reports no error.
pub proof fn lemma_duplicate_is_success()
    ensures
        classify_spec(WireOutcome::Response(422)) == Ok::<(), PaymentError>(()),
{
}

/// One failed dispatch attempt on a store whose queue holds exactly
/// the one payload: the pop hands that payload out, and requeueing it
/// restores the store as it was.
pub proof fn lemma_failed_attempt_restores(s: StoreModel, raw: Seq<u8>)
    requires
        s.queue == seq![raw],
    ensures
        dequeue_m(s).1 == Some(raw),
        enqueue_m(dequeue_m(s).0, raw) == s,
{
    assert(s.queue[0] == raw);
    assert(enqueue_m(dequeue_m(s).0, raw).queue =~= s.queue);
    assert(enqueue_m(dequeue_m(s).0, raw) =~= s);
}

/// The dequeue-and-requeue round of one failed attempt.
pub open spec fn failed_round_m(s: StoreModel) -> StoreModel {
    enqueue_m(
        dequeue_m(s).0,
        match dequeue_m(s).1 {
            Some(raw) => raw,
            None => Seq::empty(),
        },
    )
}

/// Any number of consecutive failed attempts.
pub open spec fn failed_rounds_m(s: StoreModel, n: nat) -> StoreModel
    decreases n,
{
    if n == 0 {
        s
    } else {
        failed_round_m(failed_rounds_m(s, (n - 1) as nat))
    }
}

/// Retrying leaves nothing behind: however many attempts fail on a
/// store whose queue holds exactly the one payload, the store reads
/// as it did at the start — the payload still queued, the ledgers
/// untouched.
pub proof fn lemma_retries_preserve_store(s: StoreModel, raw: Seq<u8>, n: nat)
    requires
        s.queue == seq![raw],
    ensures
        failed_rounds_m(s, n) == s,
    decreases n,
{
    if n > 0 {
        lemma_retries_preserve_store(s, raw, (n - 1) as nat);
        lemma_failed_attempt_restores(s, raw);
    }
}

/// How many entries of a ledger hold this member.
pub open spec fn member_count(l: Seq<EntryModel>, member: Seq<u8>) -> int
    decreases l.len(),
{
    if l.len() == 0 {
        0
    } else {
        member_count(l.drop_last(), member) + if l.last().member == member {
            1int
        } else {
            0int
        }
    }
}

proof fn lemma_member_count_zero(l: Seq<EntryModel>, member: Seq<u8>)
    requires
        !has_member(l, member),
    ensures
        member_count(l, member) == 0,
    decreases l.len(),
{
    if l.len() > 0 {
        assert(!has_member(l.drop_last(), member));
        lemma_member_count_zero(l.drop_last(), member);
        assert(l.last() == l[l.len() - 1]);
    }
}

/// The attempt that finally succeeds records the payment exactly
/// once: when its document was not yet in the ledger, the ledger
/// afterwards holds exactly one entry for it, scored by the stamp of
/// that last attempt — not of any earlier one.
pub proof fn lemma_success_records_once(s: StoreModel, m: PaymentModel)
    requires
        !has_member(s.ledger_default, crate::codec::encode_payment_spec(m)),
    ensures
        ({
            let member = crate::codec::encode_payment_spec(m);
            let s2 = add_m(s, m, PaymentProcessor::Default);
            &&& s2.queue == s.queue
            &&& member_count(s2.ledger_default, member) == 1
            &&& s2.ledger_default.last() == (EntryModel {
                score: score_of(m.requested_at),
                member,
            })
        }),
{
    let member = crate::codec::encode_payment_spec(m);
    let s2 = add_m(s, m, PaymentProcessor::Default);
    assert(s2.ledger_default == s.ledger_default.push(
        EntryModel { score: score_of(m.requested_at), member },
    ));
    lemma_member_count_zero(s.ledger_default, member);
    assert(s2.ledger_default.drop_last() =~= s.ledger_default);
}

/// Summary additivity: over fixed ledger contents, the aggregate over
/// `[t0, t2)` is the pointwise sum of the aggregates over `[t0, t1)`
/// and `[t1, t2)` — an entry scored exactly at `t1` counts in the
/// second interval alone. The bounds are the inclusive ones a summary
/// query uses, one short of the exclusive upper ends.
pub proof fn lemma_summary_additive(l: Seq<EntryModel>, t0: int, t1: int, t2: int)
    requires
        t0 <= t1 <= t2,
    ensures
        range_count(l, t0, t2 - 1) == range_count(l, t0, t1 - 1) + range_count(l, t1, t2 - 1),
        range_cents(l, t0, t2 - 1) == range_cents(l, t0, t1 - 1) + range_cents(l, t1, t2 - 1),
    decreases l.len(),
{
    if l.len() > 0 {
        lemma_summary_additive(l.drop_last(), t0, t1, t2);
    }
}

/// Purging clears everything: the emptied store signals an empty
/// queue, and every summary over it reads zero counts and amounts.
pub proof fn lemma_purge_resets(lo: int, hi: int)
    ensures
        dequeue_m(store_empty()).1 is None,
        range_count(store_empty().ledger_default, lo, hi) == 0,
        range_cents(store_empty().ledger_default, lo, hi) == 0,
        range_count(store_empty().ledger_fallback, lo, hi) == 0,
        range_cents(store_empty().ledger_fallback, lo, hi) == 0,
{
}

} // verus!
