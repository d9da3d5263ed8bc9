//! Core of a multi-channel notification dispatcher.
//!
//! Requests are validated and recorded, serialized into job descriptors and
//! placed on a FIFO work queue, then delivered through per-channel workers
//! with bounded retries and a dead-letter queue. The queue wire format is a
//! canonical JSON dialect with a verified serializer and parser.

use vstd::prelude::*;

pub mod cache;
pub mod channel;
pub mod consumer;
pub mod digits;
pub mod email;
pub mod errors;
pub mod job;
pub mod json;
pub mod payload;
pub mod push;
pub mod service;
pub mod store;
pub mod worker;

verus! {

} // verus!
