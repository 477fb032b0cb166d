//! A payment-intermediation core: a FIFO work queue and time-scored ledgers,
//! health-aware admission control for an upstream processor, the worker-loop
//! decision rules that drain the queue, and range aggregation for summaries.
//!
//! The store model, the JSON framing, and every decision rule are verified;
//! the surrounding transport (sockets, HTTP, the shared store's wire
//! protocol) lives outside this crate and hands plain values in and out.

pub mod types;
pub mod codec;
pub mod time;
pub mod repository;
pub mod gateway;
pub mod worker;
pub mod handler;
pub mod config;
pub mod laws;
