//! The core of a gateway that fans a client query out as one task to many
//! remote sites through an asynchronous message broker, relays the per-site
//! results back as they arrive, and keeps a catalogue document annotated
//! with live population counts.
//!
//! - [`task`]: building a broker task from a query - recipient
//!   qualification, fixed retry policy - and the submission protocol that
//!   recovers once from a partial rejection.
//! - [`relay`]: the result stream's observation tap - which events count as
//!   per-site successes, while every event is forwarded verbatim.
//! - [`registry`]: the task-id to logging-channel registry with
//!   insert/remove-once semantics.
//! - [`json`] and [`catalogue`]: the JSON-like document tree and the merge
//!   that walks it and attaches counts from a three-level statistics map.
//! - [`refresh`]: the background refresher's cache stepping - replace on
//!   success, keep and retry on failure.
//! - [`logging`], [`gateway`], [`health`], [`banner`], [`sse_event_type`],
//!   [`text`], [`assoc`]: audit records, rim decisions, fixed payloads and
//!   the string helpers under them.

pub mod assoc;
pub mod banner;
pub mod catalogue;
pub mod gateway;
pub mod health;
pub mod json;
pub mod logging;
pub mod refresh;
pub mod registry;
pub mod relay;
pub mod sse_event_type;
pub mod task;
pub mod text;
