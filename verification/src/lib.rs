//! Per-stream HTTP request metrics.
//!
//! The crate models the bookkeeping half of an HTTP metrics middleware: a
//! registry maps opaque target keys to per-target records, each holding a
//! request total, a last-update timestamp, and per-status sub-records with a
//! latency histogram and per-class outcome counters.  A per-request state
//! machine (`Service`, `RequestBody`, `ResponseFuture`, `ResponseBody`)
//! drives the record updates: the request total is counted exactly once per
//! request, one latency sample is taken at the first response frame, and one
//! outcome class is recorded when the stream ends, errors, or is dropped.
//!
//! Time is injected: every event takes the current instant as a plain
//! argument, so a caller supplies a monotonic clock of its choosing.  The
//! transport of frames themselves is out of scope; the caller forwards
//! frames and reports each event here.
//!
//! What holds across a whole request — one count, one latency sample, one
//! class observation, no lost update between concurrent requests, and no
//! effect at all through a poisoned lock — is stated and proved over event
//! traces in `laws`.

pub mod classify;
pub mod counter;
pub mod histogram;
pub mod laws;
pub mod metrics;
pub mod registry;
pub mod stage;
pub mod table;
