//! The configuration record and the one rule it carries: a worker
//! count read from text falls back to one worker when the text is
//! missing, not a plain number, or out of range. Reading the process
//! environment happens outside this crate; the values arrive here as
//! plain strings.

use vstd::prelude::*;
use crate::codec::{digits_val, scan_digit_end};

verus! {

/// Everything the two processes are configured with.
pub struct Config {
    pub redis_addr: String,
    pub socket_path: String,
    pub workers_len: u32,
    pub payment_default_url: String,
    pub payment_fallback_url: String,
}

impl Config {
    pub fn new(
        redis_addr: String,
        socket_path: String,
        workers_len: u32,
        payment_default_url: String,
        payment_fallback_url: String,
    ) -> (r: Self)
        ensures
            r.redis_addr@ == redis_addr@,
            r.socket_path@ == socket_path@,
            r.workers_len == workers_len,
            r.payment_default_url@ == payment_default_url@,
            r.payment_fallback_url@ == payment_fallback_url@,
    {
        Config { redis_addr, socket_path, workers_len, payment_default_url, payment_fallback_url }
    }
}

/// The worker count a configuration string yields: its decimal value
/// when the whole string is digits and the value fits, and one
/// otherwise.
pub open spec fn workers_len_spec(s: Seq<u8>) -> u32 {
    let j = scan_digit_end(s, 0);
    if s.len() > 0 && j == s.len() && digits_val(s, 0, j) <= u32::MAX {
        digits_val(s, 0, j) as u32
    } else {
        1
    }
}

/// Reads a worker count; mirrors `workers_len_spec`.
pub fn parse_workers_len(s: &[u8]) -> (r: u32)
    ensures
        r == workers_len_spec(s@),
{
    match crate::codec::parse_digits(s, 0) {
        Some((v, j)) => {
            if j == s.len() && v <= u32::MAX as u64 {
                v as u32
            } else {
                1
            }
        },
        None => 1,
    }
}

} // verus!
