//! The storage contract: a FIFO work queue of raw payment documents
//! and two time-scored ledgers of recorded payments, with the exact
//! semantics of every operation stated over a mathematical store model.

use vstd::prelude::*;
use crate::codec::{encode_payment, encode_payment_spec};
use crate::time::score_of;
use crate::types::{PaymentProcessor, PaymentRequest, RepositoryError};

verus! {

/// One recorded payment: its serialized document, scored by its
/// `requestedAt` in whole Unix seconds.
pub struct LedgerEntry {
    pub score: u64,
    pub member: Vec<u8>,
}

/// Mathematical twin of `LedgerEntry`.
pub struct EntryModel {
    pub score: u64,
    pub member: Seq<u8>,
}

impl View for LedgerEntry {
    type V = EntryModel;

    open spec fn view(&self) -> EntryModel {
        EntryModel { score: self.score, member: self.member@ }
    }
}

/// The store's mathematical state: the queue and the two ledgers.
#[verifier::ext_equal]
pub struct StoreModel {
    pub queue: Seq<Seq<u8>>,
    pub ledger_default: Seq<EntryModel>,
    pub ledger_fallback: Seq<EntryModel>,
}

/// The empty store.
pub open spec fn store_empty() -> StoreModel {
    StoreModel {
        queue: Seq::empty(),
        ledger_default: Seq::empty(),
        ledger_fallback: Seq::empty(),
    }
}

/// Enqueueing appends at the push end of the queue.
pub open spec fn enqueue_m(s: StoreModel, raw: Seq<u8>) -> StoreModel {
    StoreModel { queue: s.queue.push(raw), ..s }
}

/// Dequeueing pops the oldest item; on an empty queue it signals
/// nothing and leaves the store unchanged.
pub open spec fn dequeue_m(s: StoreModel) -> (StoreModel, Option<Seq<u8>>) {
    if s.queue.len() == 0 {
        (s, None)
    } else {
        (StoreModel { queue: s.queue.drop_first(), ..s }, Some(s.queue[0]))
    }
}

/// Some ledger entry holds this member.
pub open spec fn has_member(l: Seq<EntryModel>, member: Seq<u8>) -> bool {
    exists|k: int| 0 <= k < l.len() && l[k].member == member
}

/// A scored-set add: a present member has its score overwritten in
/// place, a fresh member is appended.
pub open spec fn zadd_m(l: Seq<EntryModel>, score: u64, member: Seq<u8>) -> Seq<EntryModel> {
    if has_member(l, member) {
        let k = choose|k: int| 0 <= k < l.len() && l[k].member == member;
        l.update(k, EntryModel { score, member })
    } else {
        l.push(EntryModel { score, member })
    }
}

/// Recording a payment adds its serialized form to the chosen ledger,
/// scored by its stamp.
pub open spec fn add_m(s: StoreModel, p: crate::types::PaymentModel, processor: PaymentProcessor)
    -> StoreModel {
    match processor {
        PaymentProcessor::Default => StoreModel {
            ledger_default: zadd_m(
                s.ledger_default,
                score_of(p.requested_at),
                encode_payment_spec(p),
            ),
            ..s
        },
        PaymentProcessor::Fallback => StoreModel {
            ledger_fallback: zadd_m(
                s.ledger_fallback,
                score_of(p.requested_at),
                encode_payment_spec(p),
            ),
            ..s
        },
    }
}

/// No two entries of a ledger share a member.
pub open spec fn ledger_wf(l: Seq<EntryModel>) -> bool {
    forall|i: int, j: int| 0 <= i < j < l.len() ==> l[i].member != l[j].member
}

/// The queue and ledger store, the system of record the pipeline works
/// against.
pub struct PaymentRepository {
    queue: Vec<Vec<u8>>,
    ledger_default: Vec<LedgerEntry>,
    ledger_fallback: Vec<LedgerEntry>,
}

impl View for PaymentRepository {
    type V = StoreModel;

    closed spec fn view(&self) -> StoreModel {
        StoreModel {
            queue: self.queue@.map_values(|v: Vec<u8>| v@),
            ledger_default: self.ledger_default@.map_values(|e: LedgerEntry| e@),
            ledger_fallback: self.ledger_fallback@.map_values(|e: LedgerEntry| e@),
        }
    }
}

impl PaymentRepository {
    /// Both ledgers keep their members unique.
    pub open spec fn wf(&self) -> bool {
        ledger_wf(self@.ledger_default) && ledger_wf(self@.ledger_fallback)
    }

    pub fn new() -> (r: Self)
        ensures
            r@ == store_empty(),
            r.wf(),
    {
        let r = PaymentRepository {
            queue: Vec::new(),
            ledger_default: Vec::new(),
            ledger_fallback: Vec::new(),
        };
        assert(r@.queue =~= store_empty().queue);
        assert(r@.ledger_default =~= store_empty().ledger_default);
        assert(r@.ledger_fallback =~= store_empty().ledger_fallback);
        r
    }

    /// Pushes raw bytes onto the queue's push end. Against this
    /// in-memory store the operation always succeeds; only
    /// connectivity to a remote store could fail it.
    pub fn enqueue(&mut self, raw: &[u8]) -> (r: Result<(), RepositoryError>)
        ensures
            final(self)@ == enqueue_m(old(self)@, raw@),
            r is Ok,
            old(self).wf() ==> final(self).wf(),
    {
        let item = crate::codec::bytes_to_vec(raw);
        self.queue.push(item);
        assert(self@.queue =~= enqueue_m(old(self)@, raw@).queue);
        Ok(())
    }

    /// Pops the oldest queue item. Signals `QueueEmpty` — a backoff
    /// hint, not a failure — exactly when the queue holds nothing.
    pub fn dequeue(&mut self) -> (r: Result<Vec<u8>, RepositoryError>)
        ensures
            old(self)@.queue.len() == 0 ==> r == Err::<Vec<u8>, RepositoryError>(
                RepositoryError::QueueEmpty,
            ) && final(self)@ == old(self)@,
            old(self)@.queue.len() > 0 ==> match r {
                Ok(v) => v@ == old(self)@.queue[0] && final(self)@ == dequeue_m(old(self)@).0,
                Err(_) => false,
            },
            old(self).wf() ==> final(self).wf(),
    {
        if self.queue.len() == 0 {
            assert(self@.queue.len() == 0);
            return Err(RepositoryError::QueueEmpty);
        }
        let item = self.queue.remove(0);
        assert(self@.queue =~= dequeue_m(old(self)@).0.queue);
        Ok(item)
    }

    /// Deletes the queue and both ledgers.
    pub fn purge(&mut self) -> (r: Result<(), RepositoryError>)
        ensures
            final(self)@ == store_empty(),
            r is Ok,
            final(self).wf(),
    {
        self.queue = Vec::new();
        self.ledger_default = Vec::new();
        self.ledger_fallback = Vec::new();
        assert(self@.queue =~= store_empty().queue);
        assert(self@.ledger_default =~= store_empty().ledger_default);
        assert(self@.ledger_fallback =~= store_empty().ledger_fallback);
        Ok(())
    }

    /// Serializes the payment and records it in the chosen ledger,
    /// scored by its stamp in whole seconds. Recording is not
    /// idempotent: a second add of the same document overwrites the
    /// score of the single collapsed entry.
    pub fn add(&mut self, payment: &PaymentRequest, processor: PaymentProcessor) -> (r: Result<
        (),
        RepositoryError,
    >)
        requires
            payment.wf(),
            old(self).wf(),
        ensures
            final(self)@ == add_m(old(self)@, payment@, processor),
            r is Ok,
            final(self).wf(),
    {
        let member = encode_payment(payment);
        let score = payment.get_requested_at();
        match processor {
            PaymentProcessor::Default => {
                zadd_exec(&mut self.ledger_default, score, member);
            },
            PaymentProcessor::Fallback => {
                zadd_exec(&mut self.ledger_fallback, score, member);
            },
        }
        Ok(())
    }

    /// Number of items waiting in the queue.
    pub fn queue_len(&self) -> (r: usize)
        ensures
            r == self@.queue.len(),
    {
        self.queue.len()
    }
}

/// Applies a scored-set add to one ledger, keeping members unique.
fn zadd_exec(l: &mut Vec<LedgerEntry>, score: u64, member: Vec<u8>)
    requires
        ledger_wf(old(l)@.map_values(|e: LedgerEntry| e@)),
    ensures
        final(l)@.map_values(|e: LedgerEntry| e@) == zadd_m(
            old(l)@.map_values(|e: LedgerEntry| e@),
            score,
            member@,
        ),
        ledger_wf(final(l)@.map_values(|e: LedgerEntry| e@)),
{
    let ghost lm = old(l)@.map_values(|e: LedgerEntry| e@);
    let mut i: usize = 0;
    while i < l.len()
        invariant
            i <= l@.len(),
            l@ == old(l)@,
            lm == old(l)@.map_values(|e: LedgerEntry| e@),
            ledger_wf(lm),
            forall|k: int| 0 <= k < i ==> lm[k].member != member@,
        decreases l@.len() - i,
    {
        if crate::codec::bytes_eq(l[i].member.as_slice(), member.as_slice()) {
            proof {
                assert(lm[i as int].member == member@);
                assert(has_member(lm, member@));
                let k = choose|k: int| 0 <= k < lm.len() && lm[k].member == member@;
                assert(ledger_wf(lm));
                assert(k == i as int);
            }
            l[i] = LedgerEntry { score, member };
            proof {
                let newm = l@.map_values(|e: LedgerEntry| e@);
                assert(newm =~= zadd_m(lm, score, member@));
                assert forall|a: int, b: int| 0 <= a < b < newm.len() implies newm[a].member
                    != newm[b].member by {
                    assert(lm[a].member == if a == i as int { member@ } else { newm[a].member });
                }
            }
            return;
        }
        i = i + 1;
    }
    proof {
        assert(!has_member(lm, member@));
    }
    l.push(LedgerEntry { score, member });
    proof {
        let newm = l@.map_values(|e: LedgerEntry| e@);
        assert(newm =~= zadd_m(lm, score, member@));
        assert forall|a: int, b: int| 0 <= a < b < newm.len() implies newm[a].member
            != newm[b].member by {
            if b < newm.len() - 1 {
                assert(lm[a].member != lm[b].member);
            } else {
                assert(!(0 <= a < lm.len() && lm[a].member == member@));
            }
        }
    }
}

} // verus!

verus! {

/// An entry's score lies within the inclusive bounds.
pub open spec fn in_range(e: EntryModel, lo: int, hi: int) -> bool {
    lo <= e.score <= hi
}

/// How many entries of `l` score within `[lo, hi]`.
pub open spec fn range_count(l: Seq<EntryModel>, lo: int, hi: int) -> int
    decreases l.len(),
{
    if l.len() == 0 {
        0
    } else {
        range_count(l.drop_last(), lo, hi) + if in_range(l.last(), lo, hi) {
            1int
        } else {
            0int
        }
    }
}

/// The amount a ledger member contributes: the cents of the payment it
/// decodes to, or zero when it does not decode.
pub open spec fn member_cents(m: Seq<u8>) -> int {
    match crate::codec::decode_payment_spec(m) {
        Some(p) => p.amount_cents,
        None => 0,
    }
}

/// Total cents of the entries of `l` scoring within `[lo, hi]`.
pub open spec fn range_cents(l: Seq<EntryModel>, lo: int, hi: int) -> int
    decreases l.len(),
{
    if l.len() == 0 {
        0
    } else {
        range_cents(l.drop_last(), lo, hi) + if in_range(l.last(), lo, hi) {
            member_cents(l.last().member)
        } else {
            0int
        }
    }
}

/// The inclusive lower bound of a summary query: the beginning of time
/// when `from` is empty, otherwise its Unix seconds.
pub open spec fn bound_lo(from: Seq<u8>) -> Option<int> {
    if from.len() == 0 {
        Some(i64::MIN as int)
    } else {
        match crate::time::rfc3339_epoch_of(from) {
            Some(t) => Some(t as int),
            None => None,
        }
    }
}

/// The inclusive upper bound of a summary query: the end of time when
/// `to` is empty, otherwise one second before its Unix seconds — the
/// query range is half-open on the high side.
pub open spec fn bound_hi(to: Seq<u8>) -> Option<int> {
    if to.len() == 0 {
        Some(i64::MAX as int)
    } else {
        match crate::time::rfc3339_epoch_of(to) {
            Some(t) => if t == i64::MIN {
                Some(i64::MIN as int)
            } else {
                Some(t - 1)
            },
            None => None,
        }
    }
}

/// What a summary query answers: both aggregates under the parsed
/// bounds, or nothing when a given bound does not parse.
pub open spec fn summary_of(s: StoreModel, from: Seq<u8>, to: Seq<u8>) -> Option<
    crate::types::PaymentsSummary,
> {
    match (bound_lo(from), bound_hi(to)) {
        (Some(lo), Some(hi)) => Some(crate::types::PaymentsSummary {
            default: crate::types::PaymentProcessorSummary {
                total_requests: range_count(s.ledger_default, lo, hi) as u64,
                total_amount_cents: range_cents(s.ledger_default, lo, hi) as u128,
            },
            fallback: crate::types::PaymentProcessorSummary {
                total_requests: range_count(s.ledger_fallback, lo, hi) as u64,
                total_amount_cents: range_cents(s.ledger_fallback, lo, hi) as u128,
            },
        }),
        _ => None,
    }
}

/// Aggregates one ledger over the inclusive score range `[lo, hi]`.
fn scan_ledger(l: &Vec<LedgerEntry>, lo: i64, hi: i64) -> (r: (u64, u128))
    ensures
        r.0 as int == range_count(l@.map_values(|e: LedgerEntry| e@), lo as int, hi as int),
        r.1 as int == range_cents(l@.map_values(|e: LedgerEntry| e@), lo as int, hi as int),
{
    let ghost lm = l@.map_values(|e: LedgerEntry| e@);
    let mut count: u64 = 0;
    let mut cents: u128 = 0;
    let mut i: usize = 0;
    proof {
        assert(lm.take(0) =~= Seq::<EntryModel>::empty());
    }
    while i < l.len()
        invariant
            i <= l@.len(),
            lm == l@.map_values(|e: LedgerEntry| e@),
            lm.len() == l@.len(),
            count as int == range_count(lm.take(i as int), lo as int, hi as int),
            cents as int == range_cents(lm.take(i as int), lo as int, hi as int),
            count <= i,
            cents <= (i as int) * (u64::MAX as int),
        decreases l@.len() - i,
    {
        let e = &l[i];
        let in_lo = if lo <= 0 {
            true
        } else {
            e.score >= lo as u64
        };
        let in_hi = if hi < 0 {
            false
        } else {
            e.score <= hi as u64
        };
        let amount = match crate::codec::decode_payment(e.member.as_slice()) {
            Ok(p) => p.amount_cents,
            Err(_) => 0,
        };
        proof {
            assert(lm.take(i + 1).drop_last() =~= lm.take(i as int));
            assert(lm.take(i + 1).last() == lm[i as int]);
            assert((in_lo && in_hi) == in_range(lm[i as int], lo as int, hi as int));
            assert(amount as int == member_cents(lm[i as int].member));
            assert((i + 1) * (u64::MAX as int) == (i as int) * (u64::MAX as int) + (
            u64::MAX as int));
        }
        if in_lo && in_hi {
            count = count + 1;
            cents = cents + amount as u128;
        }
        i = i + 1;
    }
    proof {
        assert(lm.take(lm.len() as int) =~= lm);
    }
    (count, cents)
}

impl PaymentRepository {
    /// Answers a summary query over `[from, to)`: an empty `from`
    /// means from the beginning of time, an empty `to` the end of
    /// time, and a present `to` is made exclusive by stepping the
    /// bound back one second. A bound that does not read as an
    /// RFC 3339 timestamp fails the whole call.
    pub fn get_summary(&self, from: &[u8], to: &[u8]) -> (r: Result<
        crate::types::PaymentsSummary,
        RepositoryError,
    >)
        ensures
            match summary_of(self@, from@, to@) {
                Some(sm) => r == Ok::<crate::types::PaymentsSummary, RepositoryError>(sm),
                None => r == Err::<crate::types::PaymentsSummary, RepositoryError>(
                    RepositoryError::Malformed,
                ),
            },
    {
        let lo: i64 = if from.len() == 0 {
            i64::MIN
        } else {
            match crate::time::parse_rfc3339_epoch(from) {
                Some(t) => t,
                None => {
                    return Err(RepositoryError::Malformed);
                },
            }
        };
        let hi: i64 = if to.len() == 0 {
            i64::MAX
        } else {
            match crate::time::parse_rfc3339_epoch(to) {
                Some(t) => if t == i64::MIN {
                    i64::MIN
                } else {
                    t - 1
                },
                None => {
                    return Err(RepositoryError::Malformed);
                },
            }
        };
        let (dc, da) = scan_ledger(&self.ledger_default, lo, hi);
        let (fc, fa) = scan_ledger(&self.ledger_fallback, lo, hi);
        Ok(crate::types::PaymentsSummary {
            default: crate::types::PaymentProcessorSummary {
                total_requests: dc,
                total_amount_cents: da,
            },
            fallback: crate::types::PaymentProcessorSummary {
                total_requests: fc,
                total_amount_cents: fa,
            },
        })
    }
}

} // verus!

verus! {

/// Total cents of a list of ledger members.
pub open spec fn members_cents(ms: Seq<Seq<u8>>) -> int
    decreases ms.len(),
{
    if ms.len() == 0 {
        0
    } else {
        members_cents(ms.drop_last()) + member_cents(ms.last())
    }
}

/// Aggregates the members a score-range scan returned, for callers
/// whose store already did the filtering: the count is the number of
/// members, the total the sum of their decoded amounts.
pub fn summarize_members(
    default_members: &Vec<Vec<u8>>,
    fallback_members: &Vec<Vec<u8>>,
) -> (r: crate::types::PaymentsSummary)
    ensures
        r.default.total_requests == default_members@.len(),
        r.default.total_amount_cents as int == members_cents(
            default_members@.map_values(|v: Vec<u8>| v@),
        ),
        r.fallback.total_requests == fallback_members@.len(),
        r.fallback.total_amount_cents as int == members_cents(
            fallback_members@.map_values(|v: Vec<u8>| v@),
        ),
{
    let (dc, da) = sum_members(default_members);
    let (fc, fa) = sum_members(fallback_members);
    crate::types::PaymentsSummary {
        default: crate::types::PaymentProcessorSummary { total_requests: dc, total_amount_cents: da },
        fallback: crate::types::PaymentProcessorSummary {
            total_requests: fc,
            total_amount_cents: fa,
        },
    }
}

fn sum_members(members: &Vec<Vec<u8>>) -> (r: (u64, u128))
    ensures
        r.0 == members@.len(),
        r.1 as int == members_cents(members@.map_values(|v: Vec<u8>| v@)),
{
    let ghost ms = members@.map_values(|v: Vec<u8>| v@);
    let mut count: u64 = 0;
    let mut cents: u128 = 0;
    let mut i: usize = 0;
    proof {
        assert(ms.take(0) =~= Seq::<Seq<u8>>::empty());
    }
    while i < members.len()
        invariant
            i <= members@.len(),
            ms == members@.map_values(|v: Vec<u8>| v@),
            ms.len() == members@.len(),
            count == i,
            cents as int == members_cents(ms.take(i as int)),
            cents <= (i as int) * (u64::MAX as int),
        decreases members@.len() - i,
    {
        let amount = match crate::codec::decode_payment(members[i].as_slice()) {
            Ok(p) => p.amount_cents,
            Err(_) => 0,
        };
        proof {
            assert(ms.take(i + 1).drop_last() =~= ms.take(i as int));
            assert(ms.take(i + 1).last() == ms[i as int]);
            assert(amount as int == member_cents(ms[i as int]));
            assert((i + 1) * (u64::MAX as int) == (i as int) * (u64::MAX as int) + (
            u64::MAX as int));
        }
        count = count + 1;
        cents = cents + amount as u128;
        i = i + 1;
    }
    proof {
        assert(ms.take(ms.len() as int) =~= ms);
    }
    (count, cents)
}

} // verus!
