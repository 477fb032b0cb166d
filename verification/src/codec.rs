//! Verified framing of the byte payloads the system exchanges: the JSON
//! object carrying a payment, the health-probe body, and the summary
//! response.
//!
//! The accepted grammar is deliberately strict: an object with the known
//! keys only, each at most once, strings made of printable bytes without
//! `"`, `\` or control bytes (no escape sequences), amounts as decimal
//! numbers with at most two fraction digits, and optional blanks between
//! tokens. Every parser is written against a specification-level parser
//! of the same grammar, and the encoder emits the canonical form.

use vstd::prelude::*;
use crate::types::{HealthCheckResponse, PaymentModel, PaymentRequest, RepositoryError};

verus! {

pub const QUOTE: u8 = 34;
pub const BACKSLASH: u8 = 92;
pub const LBRACE: u8 = 123;
pub const RBRACE: u8 = 125;
pub const COLON: u8 = 58;
pub const COMMA: u8 = 44;
pub const DOT: u8 = 46;

pub open spec fn is_ws(b: u8) -> bool {
    b == 32 || b == 9 || b == 10 || b == 13
}

pub open spec fn is_digit(b: u8) -> bool {
    48 <= b && b <= 57
}

/// A byte that may stand unescaped inside a JSON string under the
/// accepted grammar.
pub open spec fn is_str_byte(b: u8) -> bool {
    b >= 32 && b != QUOTE && b != BACKSLASH
}

/// A byte sequence that the encoder may place inside a JSON string
/// without escaping.
pub open spec fn json_safe(s: Seq<u8>) -> bool {
    forall|i: int| 0 <= i < s.len() ==> is_str_byte(s[i])
}

/// First index at or after `i` holding a non-blank byte.
pub open spec fn skip_ws(s: Seq<u8>, i: int) -> int
    decreases s.len() - i,
{
    if 0 <= i < s.len() && is_ws(s[i]) {
        skip_ws(s, i + 1)
    } else {
        i
    }
}

/// Index of the closing quote of a string whose content starts at `i`,
/// provided every byte before it is acceptable string content.
pub open spec fn scan_string(s: Seq<u8>, i: int) -> Option<int>
    decreases s.len() - i,
{
    if i < 0 || i >= s.len() {
        None
    } else if s[i] == QUOTE {
        Some(i)
    } else if is_str_byte(s[i]) {
        scan_string(s, i + 1)
    } else {
        None
    }
}

/// First index at or after `i` holding a non-digit byte.
pub open spec fn scan_digit_end(s: Seq<u8>, i: int) -> int
    decreases s.len() - i,
{
    if 0 <= i < s.len() && is_digit(s[i]) {
        scan_digit_end(s, i + 1)
    } else {
        i
    }
}

/// Value of the digit run `s[i..j]`, most significant first.
pub open spec fn digits_val(s: Seq<u8>, i: int, j: int) -> int
    decreases j - i,
{
    if i >= j {
        0
    } else {
        digits_val(s, i, j - 1) * 10 + (s[j - 1] - 48)
    }
}

proof fn lemma_scan_digit_end_bounds(s: Seq<u8>, i: int)
    requires
        0 <= i <= s.len(),
    ensures
        i <= scan_digit_end(s, i) <= s.len(),
        forall|k: int| i <= k < scan_digit_end(s, i) ==> is_digit(s[k]),
    decreases s.len() - i,
{
    if i < s.len() && is_digit(s[i]) {
        lemma_scan_digit_end_bounds(s, i + 1);
    }
}

proof fn lemma_digits_val_nonneg(s: Seq<u8>, i: int, j: int)
    requires
        forall|m: int| i <= m < j ==> 0 <= #[trigger] s[m] - 48,
    ensures
        0 <= digits_val(s, i, j),
    decreases j - i,
{
    if i < j {
        lemma_digits_val_nonneg(s, i, j - 1);
    }
}

/// The value of a digit run only grows as the run extends.
proof fn lemma_digits_val_monotone(s: Seq<u8>, i: int, j: int, k: int)
    requires
        i <= j <= k,
        forall|m: int| i <= m < k ==> 0 <= #[trigger] s[m] - 48,
    ensures
        digits_val(s, i, j) <= digits_val(s, i, k),
    decreases k - j,
{
    if j < k {
        lemma_digits_val_monotone(s, i, j, k - 1);
        lemma_digits_val_nonneg(s, i, k - 1);
    }
}

fn skip_ws_exec(s: &[u8], i: usize) -> (r: usize)
    requires
        i <= s@.len(),
    ensures
        r == skip_ws(s@, i as int),
        i <= r <= s@.len(),
{
    let mut p = i;
    while p < s.len() && is_ws_exec(s[p])
        invariant
            i <= p <= s@.len(),
            skip_ws(s@, i as int) == skip_ws(s@, p as int),
        decreases s@.len() - p,
    {
        p = p + 1;
    }
    p
}

fn is_ws_exec(b: u8) -> (r: bool)
    ensures
        r == is_ws(b),
{
    b == 32 || b == 9 || b == 10 || b == 13
}

fn is_digit_exec(b: u8) -> (r: bool)
    ensures
        r == is_digit(b),
{
    48 <= b && b <= 57
}

fn is_str_byte_exec(b: u8) -> (r: bool)
    ensures
        r == is_str_byte(b),
{
    b >= 32 && b != QUOTE && b != BACKSLASH
}

/// Reads a quoted string whose opening quote stands at `i`; returns the
/// content and the index just past the closing quote.
fn parse_string_exec(s: &[u8], i: usize) -> (r: Option<(Vec<u8>, usize)>)
    requires
        i <= s@.len(),
    ensures
        match r {
            Some((content, next)) => {
                &&& parse_string_sp(s@, i as int) == Some((content@, next as int))
                &&& json_safe(content@)
                &&& i + 2 <= next <= s@.len()
            },
            None => parse_string_sp(s@, i as int) is None,
        },
{
    if i >= s.len() || s[i] != QUOTE {
        return None;
    }
    let mut p = i + 1;
    while p < s.len() && s[p] != QUOTE && is_str_byte_exec(s[p])
        invariant
            i + 1 <= p <= s@.len(),
            scan_string(s@, i + 1) == scan_string(s@, p as int),
            forall|k: int| i + 1 <= k < p ==> is_str_byte(s@[k]),
        decreases s@.len() - p,
    {
        p = p + 1;
    }
    if p >= s.len() || s[p] != QUOTE {
        return None;
    }
    let mut content: Vec<u8> = Vec::new();
    let mut k = i + 1;
    while k < p
        invariant
            i + 1 <= k <= p <= s@.len(),
            content@ == s@.subrange(i + 1, k as int),
            forall|m: int| i + 1 <= m < p ==> is_str_byte(s@[m]),
        decreases p - k,
    {
        content.push(s[k]);
        assert(content@ =~= s@.subrange(i + 1, k + 1));
        k = k + 1;
    }
    Some((content, p + 1))
}

/// A quoted string at `i`: its content and the index past the closing
/// quote.
pub open spec fn parse_string_sp(s: Seq<u8>, i: int) -> Option<(Seq<u8>, int)> {
    if 0 <= i < s.len() && s[i] == QUOTE {
        match scan_string(s, i + 1) {
            Some(j) => Some((s.subrange(i + 1, j), j + 1)),
            None => None,
        }
    } else {
        None
    }
}

/// A decimal amount at `i`: whole digits, optionally a point and one or
/// two fraction digits; its value in cents, unbounded.
pub open spec fn parse_amount(s: Seq<u8>, i: int) -> Option<(int, int)> {
    let j = scan_digit_end(s, i);
    if j == i {
        None
    } else {
        let whole = digits_val(s, i, j);
        if j < s.len() && s[j] == DOT {
            let k = scan_digit_end(s, j + 1);
            if k == j + 2 {
                Some((whole * 100 + (s[j + 1] - 48) * 10, k))
            } else if k == j + 3 {
                Some((whole * 100 + digits_val(s, j + 1, k), k))
            } else {
                None
            }
        } else {
            Some((whole * 100, j))
        }
    }
}

/// As `parse_amount`, rejecting values that do not fit in cents of `u64`.
pub open spec fn parse_amount_cents(s: Seq<u8>, i: int) -> Option<(int, int)> {
    match parse_amount(s, i) {
        Some((c, n)) => if c <= u64::MAX { Some((c, n)) } else { None },
        None => None,
    }
}

pub open spec fn key_amount() -> Seq<u8> {
    seq![97u8, 109u8, 111u8, 117u8, 110u8, 116u8]
}

pub open spec fn key_correlation_id() -> Seq<u8> {
    seq![99u8, 111u8, 114u8, 114u8, 101u8, 108u8, 97u8, 116u8, 105u8, 111u8, 110u8, 73u8, 100u8]
}

pub open spec fn key_requested_at() -> Seq<u8> {
    seq![114u8, 101u8, 113u8, 117u8, 101u8, 115u8, 116u8, 101u8, 100u8, 65u8, 116u8]
}

/// The fields gathered while walking a payment object.
pub struct FieldsModel {
    pub amount: Option<int>,
    pub cid: Option<Seq<u8>>,
    pub rat: Option<Seq<u8>>,
}

pub open spec fn fields_empty() -> FieldsModel {
    FieldsModel { amount: None, cid: None, rat: None }
}

/// One `"key": value` pair at `i`, folded into `f`. A repeated or
/// unknown key rejects the document.
pub open spec fn parse_pair(s: Seq<u8>, i: int, f: FieldsModel) -> Option<(FieldsModel, int)> {
    match parse_string_sp(s, i) {
        None => None,
        Some((key, i1)) => {
            let i2 = skip_ws(s, i1);
            if !(0 <= i2 < s.len() && s[i2] == COLON) {
                None
            } else {
                let i3 = skip_ws(s, i2 + 1);
                if key == key_amount() {
                    if f.amount is Some {
                        None
                    } else {
                        match parse_amount_cents(s, i3) {
                            Some((c, i4)) => Some((FieldsModel { amount: Some(c), ..f }, i4)),
                            None => None,
                        }
                    }
                } else if key == key_correlation_id() {
                    if f.cid is Some {
                        None
                    } else {
                        match parse_string_sp(s, i3) {
                            Some((v, i4)) => Some((FieldsModel { cid: Some(v), ..f }, i4)),
                            None => None,
                        }
                    }
                } else if key == key_requested_at() {
                    if f.rat is Some {
                        None
                    } else {
                        match parse_string_sp(s, i3) {
                            Some((v, i4)) => Some((FieldsModel { rat: Some(v), ..f }, i4)),
                            None => None,
                        }
                    }
                } else {
                    None
                }
            }
        }
    }
}

/// The pairs after the first one: either the closing brace, or a comma
/// and a further pair.
pub open spec fn parse_pairs(s: Seq<u8>, i: int, f: FieldsModel) -> Option<(FieldsModel, int)>
    decreases s.len() - i,
{
    let i1 = skip_ws(s, i);
    if !(0 <= i1 < s.len()) {
        None
    } else if s[i1] == RBRACE {
        Some((f, i1 + 1))
    } else if s[i1] == COMMA {
        let i2 = skip_ws(s, i1 + 1);
        match parse_pair(s, i2, f) {
            Some((f2, i3)) => {
                if i3 <= i || i3 > s.len() {
                    None
                } else {
                    parse_pairs(s, i3, f2)
                }
            },
            None => None,
        }
    } else {
        None
    }
}

/// The whole payment document: one object whose pairs yield an amount
/// and a correlation id, with `requestedAt` optional (empty when
/// absent), and nothing but blanks after it.
pub open spec fn decode_payment_spec(s: Seq<u8>) -> Option<PaymentModel> {
    let i0 = skip_ws(s, 0);
    if !(0 <= i0 < s.len() && s[i0] == LBRACE) {
        None
    } else {
        let i1 = skip_ws(s, i0 + 1);
        match parse_pair(s, i1, fields_empty()) {
            None => None,
            Some((f1, i2)) => match parse_pairs(s, i2, f1) {
                None => None,
                Some((f, j)) => {
                    if skip_ws(s, j) == s.len() {
                        match (f.amount, f.cid) {
                            (Some(a), Some(c)) => Some(PaymentModel {
                                amount_cents: a,
                                correlation_id: c,
                                requested_at: match f.rat {
                                    Some(r) => r,
                                    None => Seq::empty(),
                                },
                            }),
                            _ => None,
                        }
                    } else {
                        None
                    }
                },
            },
        }
    }
}

/// Reads a run of digits starting at `i` into a `u64`; `None` when there
/// is no digit at `i` or the value does not fit.
pub fn parse_digits(s: &[u8], i: usize) -> (r: Option<(u64, usize)>)
    requires
        i <= s@.len(),
    ensures
        ({
            let j = scan_digit_end(s@, i as int);
            match r {
                Some((v, next)) => j > i && next == j && v == digits_val(s@, i as int, j)
                    && i < next <= s@.len(),
                None => j == i || digits_val(s@, i as int, j) > u64::MAX,
            }
        }),
{
    proof {
        lemma_scan_digit_end_bounds(s@, i as int);
    }
    let ghost j = scan_digit_end(s@, i as int);
    if i >= s.len() || !is_digit_exec(s[i]) {
        return None;
    }
    let mut p = i;
    let mut acc: u64 = 0;
    while p < s.len() && is_digit_exec(s[p])
        invariant
            i <= p <= s@.len(),
            scan_digit_end(s@, i as int) == scan_digit_end(s@, p as int),
            j == scan_digit_end(s@, i as int),
            acc == digits_val(s@, i as int, p as int),
            forall|k: int| i <= k < j ==> is_digit(s@[k]),
            i <= j <= s@.len(),
            p <= j,
        decreases s@.len() - p,
    {
        proof {
            lemma_scan_digit_end_bounds(s@, p + 1);
        }
        let d = s[p] - 48;
        let step = acc.checked_mul(10);
        let next_acc = match step {
            Some(t) => t.checked_add(d as u64),
            None => None,
        };
        match next_acc {
            Some(v) => {
                acc = v;
            }
            None => {
                proof {
                    assert(forall|m: int| i <= m < j ==> 0 <= #[trigger] s@[m] - 48);
                    lemma_digits_val_monotone(s@, i as int, p + 1, j);
                    assert(digits_val(s@, i as int, p + 1)
                        == digits_val(s@, i as int, p as int) * 10 + (s@[p as int] - 48));
                    assert(digits_val(s@, i as int, p + 1) > u64::MAX);
                }
                return None;
            }
        }
        p = p + 1;
    }
    Some((acc, p))
}

} // verus!

verus! {

/// Byte-for-byte equality of two slices.
pub fn bytes_eq(a: &[u8], b: &[u8]) -> (r: bool)
    ensures
        r == (a@ == b@),
{
    if a.len() != b.len() {
        return false;
    }
    let mut i: usize = 0;
    while i < a.len()
        invariant
            i <= a@.len(),
            a@.len() == b@.len(),
            forall|k: int| 0 <= k < i ==> a@[k] == b@[k],
        decreases a@.len() - i,
    {
        if a[i] != b[i] {
            return false;
        }
        i = i + 1;
    }
    proof {
        assert(a@ =~= b@);
    }
    true
}

fn key_amount_exec() -> (r: Vec<u8>)
    ensures
        r@ == key_amount(),
{
    let v: Vec<u8> = vec![97u8, 109u8, 111u8, 117u8, 110u8, 116u8];
    assert(v@ =~= key_amount());
    v
}

fn key_correlation_id_exec() -> (r: Vec<u8>)
    ensures
        r@ == key_correlation_id(),
{
    let v: Vec<u8> = vec![
        99u8, 111u8, 114u8, 114u8, 101u8, 108u8, 97u8, 116u8, 105u8, 111u8, 110u8, 73u8, 100u8,
    ];
    assert(v@ =~= key_correlation_id());
    v
}

fn key_requested_at_exec() -> (r: Vec<u8>)
    ensures
        r@ == key_requested_at(),
{
    let v: Vec<u8> = vec![
        114u8, 101u8, 113u8, 117u8, 101u8, 115u8, 116u8, 101u8, 100u8, 65u8, 116u8,
    ];
    assert(v@ =~= key_requested_at());
    v
}

/// Reads an amount at `i` into cents; mirrors `parse_amount_cents`.
fn parse_amount_exec(s: &[u8], i: usize) -> (r: Option<(u64, usize)>)
    requires
        i <= s@.len(),
    ensures
        match r {
            Some((c, next)) => parse_amount_cents(s@, i as int) == Some((c as int, next as int))
                && i < next <= s@.len(),
            None => parse_amount_cents(s@, i as int) is None,
        },
{
    let ghost j = scan_digit_end(s@, i as int);
    proof {
        lemma_scan_digit_end_bounds(s@, i as int);
        lemma_digits_val_nonneg(s@, i as int, j);
    }
    let whole_res = parse_digits(s, i);
    let (whole, je) = match whole_res {
        Some(p) => p,
        None => {
            proof {
                if j != i {
                    let whole = digits_val(s@, i as int, j);
                    assert(whole * 100 >= whole);
                    if j < s@.len() && s@[j] == DOT {
                        let k = scan_digit_end(s@, j + 1);
                        lemma_scan_digit_end_bounds(s@, j + 1);
                        if k == j + 2 {
                            assert(0 <= s@[j + 1] - 48);
                        } else if k == j + 3 {
                            lemma_digits_val_nonneg(s@, j + 1, k);
                        }
                    }
                }
            }
            return None;
        },
    };
    if je < s.len() && s[je] == DOT {
        let ghost k = scan_digit_end(s@, je + 1);
        proof {
            lemma_scan_digit_end_bounds(s@, je + 1);
            lemma_digits_val_nonneg(s@, je + 1, k);
        }
        let frac_res = parse_digits(s, je + 1);
        match frac_res {
            None => {
                proof {
                    if k != je + 1 {
                        // the fraction overflowed a u64, so it has more
                        // than two digits
                        if k == je + 2 {
                            assert(digits_val(s@, je + 1, k)
                                == digits_val(s@, je + 1, je + 1) * 10 + (s@[k - 1] - 48));
                            assert(digits_val(s@, je + 1, k) <= 9);
                        } else if k == je + 3 {
                            assert(digits_val(s@, je + 1, je + 2)
                                == digits_val(s@, je + 1, je + 1) * 10 + (s@[je + 1] - 48));
                            assert(digits_val(s@, je + 1, k)
                                == digits_val(s@, je + 1, je + 2) * 10 + (s@[k - 1] - 48));
                            assert(digits_val(s@, je + 1, k) <= 99);
                        }
                    }
                }
                None
            },
            Some((fv, kk)) => {
                if kk == je + 2 {
                    proof {
                        assert(digits_val(s@, je + 1, je + 2)
                            == digits_val(s@, je + 1, je + 1) * 10 + (s@[je + 1] - 48));
                        assert(fv == s@[je + 1] - 48);
                        assert(fv <= 9);
                    }
                    let w100 = match whole.checked_mul(100) {
                        Some(w) => w,
                        None => {
                            proof {
                                assert((s@[je + 1] - 48) * 10 >= 0);
                            }
                            return None;
                        },
                    };
                    match w100.checked_add(fv * 10) {
                        Some(c) => Some((c, kk)),
                        None => None,
                    }
                } else if kk == je + 3 {
                    proof {
                        lemma_digits_val_nonneg(s@, je + 1, kk as int);
                    }
                    let w100 = match whole.checked_mul(100) {
                        Some(w) => w,
                        None => {
                            return None;
                        },
                    };
                    match w100.checked_add(fv) {
                        Some(c) => Some((c, kk)),
                        None => None,
                    }
                } else {
                    None
                }
            },
        }
    } else {
        match whole.checked_mul(100) {
            Some(c) => Some((c, je)),
            None => None,
        }
    }
}

} // verus!

verus! {

/// Execution-side twin of `FieldsModel`.
pub struct Fields {
    pub amount: Option<u64>,
    pub cid: Option<Vec<u8>>,
    pub rat: Option<Vec<u8>>,
}

impl View for Fields {
    type V = FieldsModel;

    open spec fn view(&self) -> FieldsModel {
        FieldsModel {
            amount: match self.amount {
                Some(a) => Some(a as int),
                None => None,
            },
            cid: match self.cid {
                Some(ref v) => Some(v@),
                None => None,
            },
            rat: match self.rat {
                Some(ref v) => Some(v@),
                None => None,
            },
        }
    }
}

/// The gathered strings are acceptable JSON string content.
pub open spec fn fields_safe(f: FieldsModel) -> bool {
    &&& match f.cid {
        Some(v) => json_safe(v),
        None => true,
    }
    &&& match f.rat {
        Some(v) => json_safe(v),
        None => true,
    }
}

/// Reads one `"key": value` pair at `i` into `f`; mirrors `parse_pair`.
fn parse_pair_exec(s: &[u8], i: usize, f: Fields) -> (r: Option<(Fields, usize)>)
    requires
        i <= s@.len(),
    ensures
        match r {
            Some((f2, next)) => parse_pair(s@, i as int, f@) == Some((f2@, next as int))
                && i < next <= s@.len() && (fields_safe(f@) ==> fields_safe(f2@)),
            None => parse_pair(s@, i as int, f@) is None,
        },
{
    let (key, i1) = match parse_string_exec(s, i) {
        Some(p) => p,
        None => {
            return None;
        },
    };
    let i2 = skip_ws_exec(s, i1);
    if !(i2 < s.len() && s[i2] == COLON) {
        return None;
    }
    let i3 = skip_ws_exec(s, i2 + 1);
    let ka = key_amount_exec();
    let kc = key_correlation_id_exec();
    let kr = key_requested_at_exec();
    if bytes_eq(key.as_slice(), ka.as_slice()) {
        if f.amount.is_some() {
            return None;
        }
        match parse_amount_exec(s, i3) {
            Some((c, i4)) => Some((Fields { amount: Some(c), ..f }, i4)),
            None => None,
        }
    } else if bytes_eq(key.as_slice(), kc.as_slice()) {
        if f.cid.is_some() {
            return None;
        }
        match parse_string_exec(s, i3) {
            Some((v, i4)) => Some((Fields { cid: Some(v), ..f }, i4)),
            None => None,
        }
    } else if bytes_eq(key.as_slice(), kr.as_slice()) {
        if f.rat.is_some() {
            return None;
        }
        match parse_string_exec(s, i3) {
            Some((v, i4)) => Some((Fields { rat: Some(v), ..f }, i4)),
            None => None,
        }
    } else {
        None
    }
}

/// Decodes a payment document; mirrors `decode_payment_spec`.
///
/// Any deviation from the accepted grammar yields `Malformed`, the
/// non-retryable classification of an unreadable payload.
pub fn decode_payment(s: &[u8]) -> (r: Result<PaymentRequest, RepositoryError>)
    ensures
        match r {
            Ok(p) => decode_payment_spec(s@) == Some(p@) && p.wf(),
            Err(e) => decode_payment_spec(s@) is None && e == RepositoryError::Malformed,
        },
{
    let i0 = skip_ws_exec(s, 0);
    if !(i0 < s.len() && s[i0] == LBRACE) {
        return Err(RepositoryError::Malformed);
    }
    let i1 = skip_ws_exec(s, i0 + 1);
    let first = parse_pair_exec(s, i1, Fields { amount: None, cid: None, rat: None });
    let (f1, i2) = match first {
        Some(p) => p,
        None => {
            return Err(RepositoryError::Malformed);
        },
    };
    let ghost start_f = f1@;
    let ghost start_i = i2 as int;
    let ghost g_i0 = i0 as int;
    let ghost g_i1 = i1 as int;
    let mut f = f1;
    let mut p = i2;
    let mut done = false;
    let mut out_pos: usize = 0;
    while !done
        invariant
            p <= s@.len(),
            0 <= g_i0 < s@.len(),
            s@[g_i0] == LBRACE,
            g_i0 == skip_ws(s@, 0),
            g_i1 == skip_ws(s@, g_i0 + 1),
            parse_pair(s@, g_i1, fields_empty()) == Some((start_f, start_i)),
            fields_safe(f@),
            !done ==> parse_pairs(s@, start_i, start_f) == parse_pairs(s@, p as int, f@),
            done ==> parse_pairs(s@, start_i, start_f) == Some((f@, out_pos as int)),
            done ==> out_pos <= s@.len(),
        decreases s@.len() - p + (if done { 0int } else { 1int }),
    {
        let q1 = skip_ws_exec(s, p);
        if !(q1 < s.len()) {
            return Err(RepositoryError::Malformed);
        }
        if s[q1] == RBRACE {
            out_pos = q1 + 1;
            done = true;
        } else if s[q1] == COMMA {
            let q2 = skip_ws_exec(s, q1 + 1);
            match parse_pair_exec(s, q2, f) {
                Some((f2, q3)) => {
                    if q3 <= p {
                        return Err(RepositoryError::Malformed);
                    }
                    f = f2;
                    p = q3;
                },
                None => {
                    return Err(RepositoryError::Malformed);
                },
            }
        } else {
            return Err(RepositoryError::Malformed);
        }
    }
    let j2 = skip_ws_exec(s, out_pos);
    if j2 != s.len() {
        return Err(RepositoryError::Malformed);
    }
    let amount = match f.amount {
        Some(a) => a,
        None => {
            return Err(RepositoryError::Malformed);
        },
    };
    let cid = match f.cid {
        Some(v) => v,
        None => {
            return Err(RepositoryError::Malformed);
        },
    };
    let rat = match f.rat {
        Some(v) => v,
        None => Vec::new(),
    };
    let out = PaymentRequest { amount_cents: amount, correlation_id: cid, requested_at: rat };
    assert(out.requested_at@ =~= match decode_payment_spec(s@) {
        Some(m) => m.requested_at,
        None => Seq::<u8>::empty(),
    });
    Ok(out)
}

} // verus!

verus! {

/// Decimal digits of `n`, most significant first.
pub open spec fn dec_repr(n: int) -> Seq<u8>
    decreases n,
{
    if n < 10 {
        seq![(48 + if n >= 0 { n } else { 0 }) as u8]
    } else {
        dec_repr(n / 10) + seq![(48 + n % 10) as u8]
    }
}

/// Canonical rendering of a cent amount as a decimal number: no
/// fraction when it is zero, one digit when it ends in zero, two
/// otherwise.
pub open spec fn amount_repr(cents: int) -> Seq<u8> {
    let whole = cents / 100;
    let frac = cents % 100;
    if frac == 0 {
        dec_repr(whole)
    } else if frac % 10 == 0 {
        dec_repr(whole) + seq![DOT, (48 + frac / 10) as u8]
    } else {
        dec_repr(whole) + seq![DOT, (48 + frac / 10) as u8, (48 + frac % 10) as u8]
    }
}

pub open spec fn quoted(s: Seq<u8>) -> Seq<u8> {
    seq![QUOTE] + s + seq![QUOTE]
}

/// The canonical document for a payment: the three keys in a fixed
/// order, unescaped strings, the amount in its canonical rendering.
pub open spec fn encode_payment_spec(m: PaymentModel) -> Seq<u8> {
    seq![LBRACE] + quoted(key_amount()) + seq![COLON] + amount_repr(m.amount_cents)
        + seq![COMMA] + quoted(key_correlation_id()) + seq![COLON] + quoted(m.correlation_id)
        + seq![COMMA] + quoted(key_requested_at()) + seq![COLON] + quoted(m.requested_at)
        + seq![RBRACE]
}

/// Appends every byte of `s` to `out`.
fn push_bytes(out: &mut Vec<u8>, s: &[u8])
    ensures
        final(out)@ == old(out)@ + s@,
{
    let mut i: usize = 0;
    while i < s.len()
        invariant
            i <= s@.len(),
            out@ == old(out)@ + s@.subrange(0, i as int),
        decreases s@.len() - i,
    {
        out.push(s[i]);
        assert(out@ =~= old(out)@ + s@.subrange(0, i + 1));
        i = i + 1;
    }
    assert(out@ =~= old(out)@ + s@);
}

/// Appends the decimal digits of `n`.
fn push_dec_u128(out: &mut Vec<u8>, n: u128)
    ensures
        final(out)@ == old(out)@ + dec_repr(n as int),
    decreases n,
{
    if n < 10 {
        out.push(48 + n as u8);
        assert(out@ =~= old(out)@ + dec_repr(n as int));
    } else {
        push_dec_u128(out, n / 10);
        out.push(48 + (n % 10) as u8);
        assert(out@ =~= old(out)@ + dec_repr(n as int));
    }
}

/// Appends the canonical decimal rendering of a cent amount.
fn push_amount(out: &mut Vec<u8>, cents: u128)
    ensures
        final(out)@ == old(out)@ + amount_repr(cents as int),
{
    let whole = cents / 100;
    let frac = cents % 100;
    push_dec_u128(out, whole);
    if frac == 0 {
    } else if frac % 10 == 0 {
        out.push(DOT);
        out.push(48 + (frac / 10) as u8);
    } else {
        out.push(DOT);
        out.push(48 + (frac / 10) as u8);
        out.push(48 + (frac % 10) as u8);
    }
    assert(out@ =~= old(out)@ + amount_repr(cents as int));
}

/// Encodes a payment into the canonical document of the accepted
/// grammar.
pub fn encode_payment(p: &PaymentRequest) -> (r: Vec<u8>)
    requires
        p.wf(),
    ensures
        r@ == encode_payment_spec(p@),
{
    let mut out: Vec<u8> = Vec::new();
    let ka = key_amount_exec();
    let kc = key_correlation_id_exec();
    let kr = key_requested_at_exec();
    out.push(LBRACE);
    out.push(QUOTE);
    push_bytes(&mut out, ka.as_slice());
    out.push(QUOTE);
    out.push(COLON);
    push_amount(&mut out, p.amount_cents as u128);
    out.push(COMMA);
    out.push(QUOTE);
    push_bytes(&mut out, kc.as_slice());
    out.push(QUOTE);
    out.push(COLON);
    out.push(QUOTE);
    push_bytes(&mut out, p.correlation_id.as_slice());
    out.push(QUOTE);
    out.push(COMMA);
    out.push(QUOTE);
    push_bytes(&mut out, kr.as_slice());
    out.push(QUOTE);
    out.push(COLON);
    out.push(QUOTE);
    push_bytes(&mut out, p.requested_at.as_slice());
    out.push(QUOTE);
    out.push(RBRACE);
    assert(out@ =~= encode_payment_spec(p@));
    out
}

} // verus!

verus! {

/// Position past `lit` when it stands verbatim at `i`.
pub open spec fn match_lit(s: Seq<u8>, i: int, lit: Seq<u8>) -> Option<int> {
    if 0 <= i && i + lit.len() <= s.len() && s.subrange(i, i + lit.len()) == lit {
        Some(i + lit.len())
    } else {
        None
    }
}

fn match_lit_exec(s: &[u8], i: usize, lit: &[u8]) -> (r: Option<usize>)
    requires
        i <= s@.len(),
    ensures
        match r {
            Some(next) => match_lit(s@, i as int, lit@) == Some(next as int)
                && i <= next <= s@.len(),
            None => match_lit(s@, i as int, lit@) is None,
        },
{
    if s.len() - i < lit.len() {
        return None;
    }
    let mut k: usize = 0;
    while k < lit.len()
        invariant
            k <= lit@.len(),
            i + lit@.len() <= s@.len(),
            s@.len() <= usize::MAX,
            forall|m: int| 0 <= m < k ==> s@[i + m] == lit@[m],
        decreases lit@.len() - k,
    {
        if s[i + k] != lit[k] {
            proof {
                assert(s@.subrange(i as int, i + lit@.len())[k as int] == s@[i + k]);
            }
            return None;
        }
        k = k + 1;
    }
    proof {
        assert(s@.subrange(i as int, i + lit@.len()) =~= lit@);
    }
    Some(i + lit.len())
}

pub open spec fn key_failing() -> Seq<u8> {
    seq![102u8, 97u8, 105u8, 108u8, 105u8, 110u8, 103u8]
}

pub open spec fn key_min_response_time() -> Seq<u8> {
    seq![
        109u8, 105u8, 110u8, 82u8, 101u8, 115u8, 112u8, 111u8, 110u8, 115u8, 101u8, 84u8,
        105u8, 109u8, 101u8,
    ]
}

pub open spec fn lit_true() -> Seq<u8> {
    seq![116u8, 114u8, 117u8, 101u8]
}

pub open spec fn lit_false() -> Seq<u8> {
    seq![102u8, 97u8, 108u8, 115u8, 101u8]
}

fn key_failing_exec() -> (r: Vec<u8>)
    ensures
        r@ == key_failing(),
{
    let v: Vec<u8> = vec![102u8, 97u8, 105u8, 108u8, 105u8, 110u8, 103u8];
    assert(v@ =~= key_failing());
    v
}

fn key_min_response_time_exec() -> (r: Vec<u8>)
    ensures
        r@ == key_min_response_time(),
{
    let v: Vec<u8> = vec![
        109u8, 105u8, 110u8, 82u8, 101u8, 115u8, 112u8, 111u8, 110u8, 115u8, 101u8, 84u8,
        105u8, 109u8, 101u8,
    ];
    assert(v@ =~= key_min_response_time());
    v
}

fn lit_true_exec() -> (r: Vec<u8>)
    ensures
        r@ == lit_true(),
{
    let v: Vec<u8> = vec![116u8, 114u8, 117u8, 101u8];
    assert(v@ =~= lit_true());
    v
}

fn lit_false_exec() -> (r: Vec<u8>)
    ensures
        r@ == lit_false(),
{
    let v: Vec<u8> = vec![102u8, 97u8, 108u8, 115u8, 101u8];
    assert(v@ =~= lit_false());
    v
}

/// A run of digits at `i` read as a `u64`.
pub open spec fn parse_u64_sp(s: Seq<u8>, i: int) -> Option<(int, int)> {
    let j = scan_digit_end(s, i);
    if j == i {
        None
    } else if digits_val(s, i, j) > u64::MAX {
        None
    } else {
        Some((digits_val(s, i, j), j))
    }
}

/// The fields gathered while walking a health document.
pub struct HealthFieldsModel {
    pub failing: Option<bool>,
    pub mrt: Option<int>,
}

pub open spec fn health_fields_empty() -> HealthFieldsModel {
    HealthFieldsModel { failing: None, mrt: None }
}

/// One `"key": value` pair of a health document at `i`.
pub open spec fn parse_health_pair(s: Seq<u8>, i: int, f: HealthFieldsModel) -> Option<
    (HealthFieldsModel, int),
> {
    match parse_string_sp(s, i) {
        None => None,
        Some((key, i1)) => {
            let i2 = skip_ws(s, i1);
            if !(0 <= i2 < s.len() && s[i2] == COLON) {
                None
            } else {
                let i3 = skip_ws(s, i2 + 1);
                if key == key_failing() {
                    if f.failing is Some {
                        None
                    } else {
                        match match_lit(s, i3, lit_true()) {
                            Some(i4) => Some((HealthFieldsModel { failing: Some(true), ..f }, i4)),
                            None => match match_lit(s, i3, lit_false()) {
                                Some(i4) => Some(
                                    (HealthFieldsModel { failing: Some(false), ..f }, i4),
                                ),
                                None => None,
                            },
                        }
                    }
                } else if key == key_min_response_time() {
                    if f.mrt is Some {
                        None
                    } else {
                        match parse_u64_sp(s, i3) {
                            Some((v, i4)) => Some((HealthFieldsModel { mrt: Some(v), ..f }, i4)),
                            None => None,
                        }
                    }
                } else {
                    None
                }
            }
        },
    }
}

/// The pairs of a health document after the first one.
pub open spec fn parse_health_pairs(s: Seq<u8>, i: int, f: HealthFieldsModel) -> Option<
    (HealthFieldsModel, int),
>
    decreases s.len() - i,
{
    let i1 = skip_ws(s, i);
    if !(0 <= i1 < s.len()) {
        None
    } else if s[i1] == RBRACE {
        Some((f, i1 + 1))
    } else if s[i1] == COMMA {
        let i2 = skip_ws(s, i1 + 1);
        match parse_health_pair(s, i2, f) {
            Some((f2, i3)) => {
                if i3 <= i || i3 > s.len() {
                    None
                } else {
                    parse_health_pairs(s, i3, f2)
                }
            },
            None => None,
        }
    } else {
        None
    }
}

/// The whole health document: an object yielding both `failing` and
/// `minResponseTime`, and nothing but blanks after it.
pub open spec fn decode_health_spec(s: Seq<u8>) -> Option<HealthCheckResponse> {
    let i0 = skip_ws(s, 0);
    if !(0 <= i0 < s.len() && s[i0] == LBRACE) {
        None
    } else {
        let i1 = skip_ws(s, i0 + 1);
        match parse_health_pair(s, i1, health_fields_empty()) {
            None => None,
            Some((f1, i2)) => match parse_health_pairs(s, i2, f1) {
                None => None,
                Some((f, j)) => {
                    if skip_ws(s, j) == s.len() {
                        match (f.failing, f.mrt) {
                            (Some(b), Some(m)) => Some(
                                HealthCheckResponse { failing: b, min_response_time: m as u64 },
                            ),
                            _ => None,
                        }
                    } else {
                        None
                    }
                },
            },
        }
    }
}

/// Execution-side twin of `HealthFieldsModel`.
pub struct HealthFields {
    pub failing: Option<bool>,
    pub mrt: Option<u64>,
}

impl View for HealthFields {
    type V = HealthFieldsModel;

    open spec fn view(&self) -> HealthFieldsModel {
        HealthFieldsModel {
            failing: self.failing,
            mrt: match self.mrt {
                Some(m) => Some(m as int),
                None => None,
            },
        }
    }
}

/// Reads one pair of a health document; mirrors `parse_health_pair`.
fn parse_health_pair_exec(s: &[u8], i: usize, f: HealthFields) -> (r: Option<
    (HealthFields, usize),
>)
    requires
        i <= s@.len(),
    ensures
        match r {
            Some((f2, next)) => parse_health_pair(s@, i as int, f@) == Some((f2@, next as int))
                && i < next <= s@.len(),
            None => parse_health_pair(s@, i as int, f@) is None,
        },
{
    let (key, i1) = match parse_string_exec(s, i) {
        Some(p) => p,
        None => {
            return None;
        },
    };
    let i2 = skip_ws_exec(s, i1);
    if !(i2 < s.len() && s[i2] == COLON) {
        return None;
    }
    let i3 = skip_ws_exec(s, i2 + 1);
    let kf = key_failing_exec();
    let km = key_min_response_time_exec();
    if bytes_eq(key.as_slice(), kf.as_slice()) {
        if f.failing.is_some() {
            return None;
        }
        let lt = lit_true_exec();
        let lf = lit_false_exec();
        match match_lit_exec(s, i3, lt.as_slice()) {
            Some(i4) => Some((HealthFields { failing: Some(true), ..f }, i4)),
            None => match match_lit_exec(s, i3, lf.as_slice()) {
                Some(i4) => Some((HealthFields { failing: Some(false), ..f }, i4)),
                None => None,
            },
        }
    } else if bytes_eq(key.as_slice(), km.as_slice()) {
        if f.mrt.is_some() {
            return None;
        }
        match parse_digits(s, i3) {
            Some((v, i4)) => Some((HealthFields { mrt: Some(v), ..f }, i4)),
            None => None,
        }
    } else {
        None
    }
}

/// Decodes the body of a successful health probe; mirrors
/// `decode_health_spec`.
pub fn decode_health(s: &[u8]) -> (r: Option<HealthCheckResponse>)
    ensures
        r == decode_health_spec(s@),
{
    let i0 = skip_ws_exec(s, 0);
    if !(i0 < s.len() && s[i0] == LBRACE) {
        return None;
    }
    let i1 = skip_ws_exec(s, i0 + 1);
    let first = parse_health_pair_exec(s, i1, HealthFields { failing: None, mrt: None });
    let (f1, i2) = match first {
        Some(p) => p,
        None => {
            return None;
        },
    };
    let ghost start_f = f1@;
    let ghost start_i = i2 as int;
    let ghost g_i0 = i0 as int;
    let ghost g_i1 = i1 as int;
    let mut f = f1;
    let mut p = i2;
    let mut done = false;
    let mut out_pos: usize = 0;
    while !done
        invariant
            p <= s@.len(),
            0 <= g_i0 < s@.len(),
            s@[g_i0] == LBRACE,
            g_i0 == skip_ws(s@, 0),
            g_i1 == skip_ws(s@, g_i0 + 1),
            parse_health_pair(s@, g_i1, health_fields_empty()) == Some((start_f, start_i)),
            !done ==> parse_health_pairs(s@, start_i, start_f) == parse_health_pairs(
                s@,
                p as int,
                f@,
            ),
            done ==> parse_health_pairs(s@, start_i, start_f) == Some((f@, out_pos as int)),
            done ==> out_pos <= s@.len(),
        decreases s@.len() - p + (if done { 0int } else { 1int }),
    {
        let q1 = skip_ws_exec(s, p);
        if !(q1 < s.len()) {
            return None;
        }
        if s[q1] == RBRACE {
            out_pos = q1 + 1;
            done = true;
        } else if s[q1] == COMMA {
            let q2 = skip_ws_exec(s, q1 + 1);
            match parse_health_pair_exec(s, q2, f) {
                Some((f2, q3)) => {
                    if q3 <= p {
                        return None;
                    }
                    f = f2;
                    p = q3;
                },
                None => {
                    return None;
                },
            }
        } else {
            return None;
        }
    }
    let j2 = skip_ws_exec(s, out_pos);
    if j2 != s.len() {
        return None;
    }
    let failing = match f.failing {
        Some(b) => b,
        None => {
            return None;
        },
    };
    let mrt = match f.mrt {
        Some(m) => m,
        None => {
            return None;
        },
    };
    Some(HealthCheckResponse { failing, min_response_time: mrt })
}

} // verus!

verus! {

/// Copies a byte slice into a fresh vector.
pub fn bytes_to_vec(s: &[u8]) -> (r: Vec<u8>)
    ensures
        r@ == s@,
{
    let mut out: Vec<u8> = Vec::new();
    let mut i: usize = 0;
    while i < s.len()
        invariant
            i <= s@.len(),
            out@ == s@.subrange(0, i as int),
        decreases s@.len() - i,
    {
        out.push(s[i]);
        assert(out@ =~= s@.subrange(0, i + 1));
        i = i + 1;
    }
    assert(out@ =~= s@);
    out
}

} // verus!

verus! {

pub open spec fn key_default() -> Seq<u8> {
    seq![100u8, 101u8, 102u8, 97u8, 117u8, 108u8, 116u8]
}

pub open spec fn key_fallback() -> Seq<u8> {
    seq![102u8, 97u8, 108u8, 108u8, 98u8, 97u8, 99u8, 107u8]
}

pub open spec fn key_total_requests() -> Seq<u8> {
    seq![
        116u8, 111u8, 116u8, 97u8, 108u8, 82u8, 101u8, 113u8, 117u8, 101u8, 115u8, 116u8,
        115u8,
    ]
}

pub open spec fn key_total_amount() -> Seq<u8> {
    seq![116u8, 111u8, 116u8, 97u8, 108u8, 65u8, 109u8, 111u8, 117u8, 110u8, 116u8]
}

/// One ledger's aggregate as a JSON object: the count, and the cent
/// total in the canonical decimal rendering.
pub open spec fn summary_part_spec(requests: int, cents: int) -> Seq<u8> {
    seq![LBRACE] + quoted(key_total_requests()) + seq![COLON] + dec_repr(requests)
        + seq![COMMA] + quoted(key_total_amount()) + seq![COLON] + amount_repr(cents)
        + seq![RBRACE]
}

/// The summary response document: both aggregates under their ledger
/// names.
pub open spec fn encode_summary_spec(sm: crate::types::PaymentsSummary) -> Seq<u8> {
    seq![LBRACE] + quoted(key_default()) + seq![COLON] + summary_part_spec(
        sm.default.total_requests as int,
        sm.default.total_amount_cents as int,
    ) + seq![COMMA] + quoted(key_fallback()) + seq![COLON] + summary_part_spec(
        sm.fallback.total_requests as int,
        sm.fallback.total_amount_cents as int,
    ) + seq![RBRACE]
}

fn push_summary_part(out: &mut Vec<u8>, requests: u64, cents: u128)
    ensures
        final(out)@ == old(out)@ + summary_part_spec(requests as int, cents as int),
{
    let ktr: Vec<u8> = vec![
        116u8, 111u8, 116u8, 97u8, 108u8, 82u8, 101u8, 113u8, 117u8, 101u8, 115u8, 116u8,
        115u8,
    ];
    assert(ktr@ =~= key_total_requests());
    let kta: Vec<u8> = vec![116u8, 111u8, 116u8, 97u8, 108u8, 65u8, 109u8, 111u8, 117u8, 110u8, 116u8];
    assert(kta@ =~= key_total_amount());
    out.push(LBRACE);
    out.push(QUOTE);
    push_bytes(out, ktr.as_slice());
    out.push(QUOTE);
    out.push(COLON);
    push_dec_u128(out, requests as u128);
    out.push(COMMA);
    out.push(QUOTE);
    push_bytes(out, kta.as_slice());
    out.push(QUOTE);
    out.push(COLON);
    push_amount(out, cents);
    out.push(RBRACE);
    assert(out@ =~= old(out)@ + summary_part_spec(requests as int, cents as int));
}

/// Encodes a summary into its response document.
pub fn encode_summary(sm: &crate::types::PaymentsSummary) -> (r: Vec<u8>)
    ensures
        r@ == encode_summary_spec(*sm),
{
    let kd: Vec<u8> = vec![100u8, 101u8, 102u8, 97u8, 117u8, 108u8, 116u8];
    assert(kd@ =~= key_default());
    let kf: Vec<u8> = vec![102u8, 97u8, 108u8, 108u8, 98u8, 97u8, 99u8, 107u8];
    assert(kf@ =~= key_fallback());
    let mut out: Vec<u8> = Vec::new();
    out.push(LBRACE);
    out.push(QUOTE);
    push_bytes(&mut out, kd.as_slice());
    out.push(QUOTE);
    out.push(COLON);
    push_summary_part(&mut out, sm.default.total_requests, sm.default.total_amount_cents);
    out.push(COMMA);
    out.push(QUOTE);
    push_bytes(&mut out, kf.as_slice());
    out.push(QUOTE);
    out.push(COLON);
    push_summary_part(&mut out, sm.fallback.total_requests, sm.fallback.total_amount_cents);
    out.push(RBRACE);
    assert(out@ =~= encode_summary_spec(*sm));
    out
}

} // verus!

verus! {

proof fn lemma_digits_val_shift(s: Seq<u8>, i: int, j: int, t: Seq<u8>)
    requires
        i <= j,
        forall|k: int| 0 <= k < j - i ==> s[i + k] == t[k],
    ensures
        digits_val(s, i, j) == digits_val(t, 0, j - i),
    decreases j - i,
{
    if i < j {
        lemma_digits_val_shift(s, i, j - 1, t);
        assert(s[j - 1] == t[j - 1 - i]);
    }
}

proof fn lemma_scan_digit_end_exact(s: Seq<u8>, i: int, j: int)
    requires
        0 <= i <= j <= s.len(),
        forall|k: int| i <= k < j ==> is_digit(s[k]),
        j == s.len() || !is_digit(s[j]),
    ensures
        scan_digit_end(s, i) == j,
    decreases j - i,
{
    if i < j {
        lemma_scan_digit_end_exact(s, i + 1, j);
    }
}

proof fn lemma_scan_string_exact(s: Seq<u8>, i: int, j: int)
    requires
        0 <= i <= j < s.len(),
        forall|k: int| i <= k < j ==> is_str_byte(s[k]),
        s[j] == QUOTE,
    ensures
        scan_string(s, i) == Some(j),
    decreases j - i,
{
    if i < j {
        lemma_scan_string_exact(s, i + 1, j);
    }
}

proof fn lemma_dec_repr_digits(n: int)
    requires
        n >= 0,
    ensures
        dec_repr(n).len() >= 1,
        forall|k: int| 0 <= k < dec_repr(n).len() ==> is_digit(#[trigger] dec_repr(n)[k]),
    decreases n,
{
    if n >= 10 {
        lemma_dec_repr_digits(n / 10);
    }
}

proof fn lemma_dec_repr_value(n: int)
    requires
        n >= 0,
    ensures
        digits_val(dec_repr(n), 0, dec_repr(n).len() as int) == n,
    decreases n,
{
    if n < 10 {
        let t = dec_repr(n);
        assert(digits_val(t, 0, 0) == 0);
        assert(digits_val(t, 0, 1) == digits_val(t, 0, 0) * 10 + (t[0] - 48));
        assert(t[0] == (48 + n) as u8);
    } else {
        lemma_dec_repr_value(n / 10);
        let t = dec_repr(n);
        let p = dec_repr(n / 10);
        let l = t.len() as int;
        assert(t == p + seq![(48 + n % 10) as u8]);
        assert(t[l - 1] == (48 + n % 10) as u8);
        lemma_dec_repr_digits(n / 10);
        assert(digits_val(t, 0, l - 1) == digits_val(p, 0, l - 1)) by {
            lemma_digits_val_shift(t, 0, l - 1, p);
        }
        assert(digits_val(t, 0, l) == digits_val(t, 0, l - 1) * 10 + (t[l - 1] - 48));
    }
}

} // verus!

verus! {

proof fn lemma_parse_amount_embedded(s: Seq<u8>, i: int, c: int)
    requires
        0 <= c <= u64::MAX,
        0 <= i,
        i + amount_repr(c).len() < s.len(),
        forall|k: int| 0 <= k < amount_repr(c).len() ==> s[i + k] == #[trigger] amount_repr(c)[k],
        s[i + amount_repr(c).len()] == COMMA,
    ensures
        parse_amount_cents(s, i) == Some((c, i + amount_repr(c).len())),
{
    let whole = c / 100;
    let frac = c % 100;
    let w = dec_repr(whole);
    let wl = w.len() as int;
    let a = amount_repr(c);
    lemma_dec_repr_digits(whole);
    lemma_dec_repr_value(whole);
    assert(forall|k: int| 0 <= k < wl ==> a[k] == w[k]);
    assert forall|k: int| i <= k < i + wl implies is_digit(s[k]) by {
        assert(s[k] == a[k - i]);
        assert(a[k - i] == w[k - i]);
    }
    if frac == 0 {
        assert(a.len() == wl);
        lemma_scan_digit_end_exact(s, i, i + wl);
        lemma_digits_val_shift(s, i, i + wl, w);
        assert(s[i + wl] == COMMA);
        assert(!is_digit(COMMA));
    } else if frac % 10 == 0 {
        assert(a.len() == wl + 2);
        assert(a[wl] == DOT);
        assert(a[wl + 1] == (48 + frac / 10) as u8);
        assert(s[i + wl] == DOT);
        lemma_scan_digit_end_exact(s, i, i + wl);
        lemma_digits_val_shift(s, i, i + wl, w);
        assert(is_digit(s[i + wl + 1]));
        assert(s[i + wl + 2] == COMMA);
        lemma_scan_digit_end_exact(s, i + wl + 1, i + wl + 2);
        assert(whole * 100 + (s[i + wl + 1] - 48) * 10 == c);
    } else {
        assert(a.len() == wl + 3);
        assert(a[wl] == DOT);
        assert(a[wl + 1] == (48 + frac / 10) as u8);
        assert(a[wl + 2] == (48 + frac % 10) as u8);
        assert(s[i + wl] == DOT);
        lemma_scan_digit_end_exact(s, i, i + wl);
        lemma_digits_val_shift(s, i, i + wl, w);
        assert(is_digit(s[i + wl + 1]) && is_digit(s[i + wl + 2]));
        assert(s[i + wl + 3] == COMMA);
        lemma_scan_digit_end_exact(s, i + wl + 1, i + wl + 3);
        assert(digits_val(s, i + wl + 1, i + wl + 1) == 0);
        assert(digits_val(s, i + wl + 1, i + wl + 2) == (s[i + wl + 1] - 48));
        assert(digits_val(s, i + wl + 1, i + wl + 3)
            == digits_val(s, i + wl + 1, i + wl + 2) * 10 + (s[i + wl + 2] - 48));
        assert(whole * 100 + ((frac / 10) * 10 + frac % 10) == c);
    }
}

} // verus!

verus! {

proof fn lemma_parse_string_embedded(s: Seq<u8>, i: int, v: Seq<u8>)
    requires
        json_safe(v),
        0 <= i,
        i + v.len() + 2 <= s.len(),
        s[i] == QUOTE,
        s[i + 1 + v.len()] == QUOTE,
        forall|k: int| 0 <= k < v.len() ==> s[i + 1 + k] == #[trigger] v[k],
    ensures
        parse_string_sp(s, i) == Some((v, i + v.len() + 2)),
{
    let vl = v.len() as int;
    assert forall|k: int| i + 1 <= k < i + 1 + vl implies is_str_byte(s[k]) by {
        assert(s[k] == v[k - i - 1]);
    }
    lemma_scan_string_exact(s, i + 1, i + 1 + vl);
    assert(s.subrange(i + 1, i + 1 + vl) =~= v);
}

proof fn lemma_keys_safe()
    ensures
        json_safe(key_amount()),
        json_safe(key_correlation_id()),
        json_safe(key_requested_at()),
        key_amount().len() == 6,
        key_correlation_id().len() == 13,
        key_requested_at().len() == 11,
{
}

/// Every byte of the canonical document, by region.
#[verifier::rlimit(100)]
proof fn lemma_document_layout(m: PaymentModel)
    requires
        0 <= m.amount_cents <= u64::MAX,
    ensures
        ({
            let d = encode_payment_spec(m);
            let al = amount_repr(m.amount_cents).len() as int;
            let cl = m.correlation_id.len() as int;
            let rl = m.requested_at.len() as int;
            &&& d.len() == 47 + al + cl + rl
            &&& d[0] == LBRACE
            &&& d[1] == QUOTE
            &&& (forall|k: int| 0 <= k < 6 ==> d[2 + k] == key_amount()[k])
            &&& d[8] == QUOTE
            &&& d[9] == COLON
            &&& (forall|k: int|
                0 <= k < al ==> d[10 + k] == #[trigger] amount_repr(m.amount_cents)[k])
            &&& d[10 + al] == COMMA
            &&& d[11 + al] == QUOTE
            &&& (forall|k: int| 0 <= k < 13 ==> d[12 + al + k] == key_correlation_id()[k])
            &&& d[25 + al] == QUOTE
            &&& d[26 + al] == COLON
            &&& d[27 + al] == QUOTE
            &&& (forall|k: int| 0 <= k < cl ==> d[28 + al + k] == #[trigger] m.correlation_id[k])
            &&& d[28 + al + cl] == QUOTE
            &&& d[29 + al + cl] == COMMA
            &&& d[30 + al + cl] == QUOTE
            &&& (forall|k: int| 0 <= k < 11 ==> d[31 + al + cl + k] == key_requested_at()[k])
            &&& d[42 + al + cl] == QUOTE
            &&& d[43 + al + cl] == COLON
            &&& d[44 + al + cl] == QUOTE
            &&& (forall|k: int| 0 <= k < rl ==> d[45 + al + cl + k] == #[trigger] m.requested_at[k])
            &&& d[45 + al + cl + rl] == QUOTE
            &&& d[46 + al + cl + rl] == RBRACE
        }),
{
    lemma_keys_safe();
}

/// The codec round trip: the canonical document of a well-formed
/// payment decodes to that payment and nothing else.
#[verifier::rlimit(100)]
pub proof fn lemma_encode_decode_round_trip(m: PaymentModel)
    requires
        0 <= m.amount_cents <= u64::MAX,
        json_safe(m.correlation_id),
        json_safe(m.requested_at),
    ensures
        decode_payment_spec(encode_payment_spec(m)) == Some(m),
{
    let d = encode_payment_spec(m);
    let c = m.amount_cents;
    let cid = m.correlation_id;
    let rat = m.requested_at;
    let a = amount_repr(c);
    let al = a.len() as int;
    let cl = cid.len() as int;
    let rl = rat.len() as int;
    lemma_keys_safe();
    lemma_dec_repr_digits(c / 100);
    lemma_document_layout(m);

    // the opening brace and the first key
    assert(skip_ws(d, 0) == 0);
    assert(skip_ws(d, 1) == 1);
    lemma_parse_string_embedded(d, 1, key_amount());
    assert(skip_ws(d, 9) == 9);
    assert(a[0] == dec_repr(c / 100)[0]);
    assert(is_digit(d[10]));
    assert(skip_ws(d, 10) == 10);
    lemma_parse_amount_embedded(d, 10, c as int);
    let f1 = FieldsModel { amount: Some(c), cid: None, rat: None };
    assert(parse_pair(d, 1, fields_empty()) == Some((f1, 10 + al)));

    // the second pair
    assert(skip_ws(d, 10 + al) == 10 + al);
    assert(skip_ws(d, 11 + al) == 11 + al);
    lemma_parse_string_embedded(d, 11 + al, key_correlation_id());
    assert(skip_ws(d, 26 + al) == 26 + al);
    assert(skip_ws(d, 27 + al) == 27 + al);
    lemma_parse_string_embedded(d, 27 + al, cid);
    assert(key_correlation_id() != key_amount());
    let f2 = FieldsModel { amount: Some(c), cid: Some(cid), rat: None };
    assert(parse_pair(d, 11 + al, f1) == Some((f2, 29 + al + cl)));

    // the third pair
    assert(skip_ws(d, 29 + al + cl) == 29 + al + cl);
    assert(skip_ws(d, 30 + al + cl) == 30 + al + cl);
    lemma_parse_string_embedded(d, 30 + al + cl, key_requested_at());
    assert(skip_ws(d, 43 + al + cl) == 43 + al + cl);
    assert(skip_ws(d, 44 + al + cl) == 44 + al + cl);
    lemma_parse_string_embedded(d, 44 + al + cl, rat);
    assert(key_requested_at() != key_amount());
    assert(key_requested_at() != key_correlation_id());
    let f3 = FieldsModel { amount: Some(c), cid: Some(cid), rat: Some(rat) };
    assert(parse_pair(d, 30 + al + cl, f2) == Some((f3, 46 + al + cl + rl)));

    // the closing brace and the end of input
    assert(skip_ws(d, 46 + al + cl + rl) == 46 + al + cl + rl);
    assert(parse_pairs(d, 46 + al + cl + rl, f3) == Some((f3, 47 + al + cl + rl)));
    assert(parse_pairs(d, 29 + al + cl, f2) == Some((f3, 47 + al + cl + rl)));
    assert(parse_pairs(d, 10 + al, f1) == Some((f3, 47 + al + cl + rl)));
    assert(skip_ws(d, 47 + al + cl + rl) == d.len());
}

} // verus!
