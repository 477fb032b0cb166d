//! The request-handling decisions: routing by method and path, the
//! body-size gate at intake, query parsing for summaries, and the
//! response each operation owes. The transport hands in plain values —
//! method, path, query and body bytes, the declared body size — and
//! sends back the status and body this module decides.

use vstd::prelude::*;
use crate::codec::{bytes_eq, bytes_to_vec, encode_summary_spec};
use crate::repository::{enqueue_m, store_empty, summary_of, PaymentRepository};
use vstd::slice::slice_subrange;

verus! {

/// Largest accepted declared size of an intake body, in bytes.
pub const MAX_BODY_BYTES: u64 = 65536;

pub const AMP: u8 = 38;
pub const EQUALS: u8 = 61;

/// Where a request is dispatched.
#[derive(Clone, Copy, Debug, PartialEq, Eq, Structural)]
pub enum Route {
    PaymentIntake,
    Summary,
    Purge,
    NotFound,
    MethodNotAllowed,
}

pub open spec fn lit_get() -> Seq<u8> {
    seq![71u8, 69u8, 84u8]
}

pub open spec fn lit_post() -> Seq<u8> {
    seq![80u8, 79u8, 83u8, 84u8]
}

pub open spec fn lit_payments_path() -> Seq<u8> {
    seq![47u8, 112u8, 97u8, 121u8, 109u8, 101u8, 110u8, 116u8, 115u8]
}

pub open spec fn lit_summary_path() -> Seq<u8> {
    seq![
        47u8, 112u8, 97u8, 121u8, 109u8, 101u8, 110u8, 116u8, 115u8, 45u8, 115u8, 117u8,
        109u8, 109u8, 97u8, 114u8, 121u8,
    ]
}

pub open spec fn lit_purge_path() -> Seq<u8> {
    seq![
        47u8, 112u8, 117u8, 114u8, 103u8, 101u8, 45u8, 112u8, 97u8, 121u8, 109u8, 101u8,
        110u8, 116u8, 115u8,
    ]
}

pub open spec fn lit_from() -> Seq<u8> {
    seq![102u8, 114u8, 111u8, 109u8]
}

pub open spec fn lit_to() -> Seq<u8> {
    seq![116u8, 111u8]
}

/// The routing table: the three operations on their exact method and
/// path, any other read answered not-found, anything else refused by
/// method.
pub open spec fn route_spec(method: Seq<u8>, path: Seq<u8>) -> Route {
    if method == lit_post() && path == lit_payments_path() {
        Route::PaymentIntake
    } else if method == lit_get() && path == lit_summary_path() {
        Route::Summary
    } else if method == lit_post() && path == lit_purge_path() {
        Route::Purge
    } else if method == lit_get() {
        Route::NotFound
    } else {
        Route::MethodNotAllowed
    }
}

/// Dispatches a request line; mirrors `route_spec`.
pub fn route_request(method: &[u8], path: &[u8]) -> (r: Route)
    ensures
        r == route_spec(method@, path@),
{
    let get: Vec<u8> = vec![71u8, 69u8, 84u8];
    assert(get@ =~= lit_get());
    let post: Vec<u8> = vec![80u8, 79u8, 83u8, 84u8];
    assert(post@ =~= lit_post());
    let payments: Vec<u8> = vec![47u8, 112u8, 97u8, 121u8, 109u8, 101u8, 110u8, 116u8, 115u8];
    assert(payments@ =~= lit_payments_path());
    let summary: Vec<u8> = vec![
        47u8, 112u8, 97u8, 121u8, 109u8, 101u8, 110u8, 116u8, 115u8, 45u8, 115u8, 117u8,
        109u8, 109u8, 97u8, 114u8, 121u8,
    ];
    assert(summary@ =~= lit_summary_path());
    let purge: Vec<u8> = vec![
        47u8, 112u8, 117u8, 114u8, 103u8, 101u8, 45u8, 112u8, 97u8, 121u8, 109u8, 101u8,
        110u8, 116u8, 115u8,
    ];
    assert(purge@ =~= lit_purge_path());
    let is_get = bytes_eq(method, get.as_slice());
    let is_post = bytes_eq(method, post.as_slice());
    if is_post && bytes_eq(path, payments.as_slice()) {
        Route::PaymentIntake
    } else if is_get && bytes_eq(path, summary.as_slice()) {
        Route::Summary
    } else if is_post && bytes_eq(path, purge.as_slice()) {
        Route::Purge
    } else if is_get {
        Route::NotFound
    } else {
        Route::MethodNotAllowed
    }
}

/// A declared body size passes the intake gate.
pub open spec fn body_within_limit_spec(declared: u64) -> bool {
    declared <= MAX_BODY_BYTES
}

pub fn body_within_limit(declared: u64) -> (r: bool)
    ensures
        r == body_within_limit_spec(declared),
{
    declared <= MAX_BODY_BYTES
}

/// First index at or after `i` holding byte `b`.
pub open spec fn find_byte(s: Seq<u8>, i: int, b: u8) -> int
    decreases s.len() - i,
{
    if 0 <= i < s.len() {
        if s[i] == b {
            i
        } else {
            find_byte(s, i + 1, b)
        }
    } else {
        i
    }
}

fn find_byte_exec(s: &[u8], i: usize, b: u8) -> (r: usize)
    requires
        i <= s@.len(),
    ensures
        r == find_byte(s@, i as int, b),
        i <= r <= s@.len(),
{
    let mut p = i;
    while p < s.len() && s[p] != b
        invariant
            i <= p <= s@.len(),
            find_byte(s@, i as int, b) == find_byte(s@, p as int, b),
        decreases s@.len() - p,
    {
        p = p + 1;
    }
    p
}

/// Folds one `key=value` query segment `s[i..j]` into the gathered
/// `from` and `to`: a segment without `=`, or with any other key, is
/// ignored; a later segment overrides an earlier one.
pub open spec fn seg_update(s: Seq<u8>, i: int, j: int, from: Seq<u8>, to: Seq<u8>) -> (
    Seq<u8>,
    Seq<u8>,
) {
    let e = find_byte(s, i, EQUALS);
    if e >= j {
        (from, to)
    } else {
        let key = s.subrange(i, e);
        let value = s.subrange(e + 1, j);
        if key == lit_from() {
            (value, to)
        } else if key == lit_to() {
            (from, value)
        } else {
            (from, to)
        }
    }
}

/// Walks the `&`-separated segments from `i`.
pub open spec fn query_fields_from(s: Seq<u8>, i: int, from: Seq<u8>, to: Seq<u8>) -> (
    Seq<u8>,
    Seq<u8>,
)
    decreases s.len() - i,
{
    if !(0 <= i <= s.len()) {
        (from, to)
    } else {
        let j = find_byte(s, i, AMP);
        if j < i || j > s.len() {
            (from, to)
        } else {
            let ft = seg_update(s, i, j, from, to);
            if j >= s.len() {
                ft
            } else {
                query_fields_from(s, j + 1, ft.0, ft.1)
            }
        }
    }
}

/// The `from` and `to` a query string selects; either is empty when
/// its key never appears.
pub open spec fn query_fields(s: Seq<u8>) -> (Seq<u8>, Seq<u8>) {
    query_fields_from(s, 0, Seq::empty(), Seq::empty())
}

/// Extracts the `from` and `to` bounds of a summary query; mirrors
/// `query_fields`.
pub fn parse_query(q: &[u8]) -> (r: (Vec<u8>, Vec<u8>))
    ensures
        r.0@ == query_fields(q@).0,
        r.1@ == query_fields(q@).1,
{
    let mut from: Vec<u8> = Vec::new();
    let mut to: Vec<u8> = Vec::new();
    let mut i: usize = 0;
    let mut done = false;
    proof {
        assert(from@ =~= Seq::<u8>::empty());
        assert(to@ =~= Seq::<u8>::empty());
    }
    while !done
        invariant
            i <= q@.len(),
            !done ==> query_fields(q@) == query_fields_from(q@, i as int, from@, to@),
            done ==> query_fields(q@) == (from@, to@),
        decreases q@.len() - i + (if done { 0int } else { 1int }),
    {
        let j = find_byte_exec(q, i, AMP);
        let e = find_byte_exec(q, i, EQUALS);
        if e < j {
            let key = slice_subrange(q, i, e);
            let value = slice_subrange(q, e + 1, j);
            let lf: Vec<u8> = vec![102u8, 114u8, 111u8, 109u8];
            assert(lf@ =~= lit_from());
            let lt: Vec<u8> = vec![116u8, 111u8];
            assert(lt@ =~= lit_to());
            if bytes_eq(key, lf.as_slice()) {
                from = bytes_to_vec(value);
            } else if bytes_eq(key, lt.as_slice()) {
                to = bytes_to_vec(value);
            }
        }
        if j >= q.len() {
            done = true;
        } else {
            i = j + 1;
        }
    }
    (from, to)
}

/// The request handler: the routing and response rules over the
/// store.
pub struct PaymentHandler {
    pub repo: PaymentRepository,
}

impl PaymentHandler {
    pub fn new(repo: PaymentRepository) -> (r: Self)
        ensures
            r.repo@ == repo@,
            r.repo.wf() == repo.wf(),
    {
        PaymentHandler { repo }
    }

    /// Intake: a declared size over the limit is refused with 413 and
    /// nothing is enqueued; otherwise the raw body is enqueued as-is
    /// and acknowledged with 202 and an empty body.
    pub fn handle_payment(&mut self, declared_size: u64, body: &[u8]) -> (r: (u16, Vec<u8>))
        requires
            old(self).repo.wf(),
        ensures
            final(self).repo.wf(),
            !body_within_limit_spec(declared_size) ==> r.0 == 413
                && final(self).repo@ == old(self).repo@,
            body_within_limit_spec(declared_size) ==> r.0 == 202 && r.1@.len() == 0
                && final(self).repo@ == enqueue_m(old(self).repo@, body@),
    {
        if !body_within_limit(declared_size) {
            return (413, Vec::new());
        }
        let _ = self.repo.enqueue(body);
        (202, Vec::new())
    }

    /// Summary: parses the query's bounds and answers 200 with the
    /// encoded aggregates, or 500 when a bound does not read as a
    /// timestamp.
    pub fn handle_summary(&mut self, query: &[u8]) -> (r: (u16, Vec<u8>))
        ensures
            final(self).repo@ == old(self).repo@,
            final(self).repo.wf() == old(self).repo.wf(),
            ({
                let ft = query_fields(query@);
                match summary_of(old(self).repo@, ft.0, ft.1) {
                    Some(sm) => r.0 == 200 && r.1@ == encode_summary_spec(sm),
                    None => r.0 == 500,
                }
            }),
    {
        let (from, to) = parse_query(query);
        match self.repo.get_summary(from.as_slice(), to.as_slice()) {
            Ok(sm) => (200, crate::codec::encode_summary(&sm)),
            Err(_) => (500, Vec::new()),
        }
    }

    /// Purge: empties the queue and both ledgers, answering 200 with
    /// an empty body.
    pub fn handle_purge(&mut self) -> (r: (u16, Vec<u8>))
        ensures
            r.0 == 200 && r.1@.len() == 0,
            final(self).repo@ == store_empty(),
            final(self).repo.wf(),
    {
        let _ = self.repo.purge();
        (200, Vec::new())
    }

    /// Any other read: not found.
    pub fn handle_index(&self) -> (r: (u16, Vec<u8>))
        ensures
            r.0 == 404,
    {
        (404, Vec::new())
    }

    /// Dispatches one request to its handler per the routing table.
    pub fn handle(
        &mut self,
        method: &[u8],
        path: &[u8],
        query: &[u8],
        declared_size: u64,
        body: &[u8],
    ) -> (r: (u16, Vec<u8>))
        requires
            old(self).repo.wf(),
        ensures
            final(self).repo.wf(),
            match route_spec(method@, path@) {
                Route::PaymentIntake => {
                    if body_within_limit_spec(declared_size) {
                        r.0 == 202 && final(self).repo@ == enqueue_m(old(self).repo@, body@)
                    } else {
                        r.0 == 413 && final(self).repo@ == old(self).repo@
                    }
                },
                Route::Summary => final(self).repo@ == old(self).repo@ && ({
                    let ft = query_fields(query@);
                    match summary_of(old(self).repo@, ft.0, ft.1) {
                        Some(sm) => r.0 == 200 && r.1@ == encode_summary_spec(sm),
                        None => r.0 == 500,
                    }
                }),
                Route::Purge => r.0 == 200 && final(self).repo@ == store_empty(),
                Route::NotFound => r.0 == 404 && final(self).repo@ == old(self).repo@,
                Route::MethodNotAllowed => r.0 == 405 && final(self).repo@ == old(self).repo@,
            },
    {
        match route_request(method, path) {
            Route::PaymentIntake => self.handle_payment(declared_size, body),
            Route::Summary => self.handle_summary(query),
            Route::Purge => self.handle_purge(),
            Route::NotFound => self.handle_index(),
            Route::MethodNotAllowed => (405, Vec::new()),
        }
    }
}

} // verus!
