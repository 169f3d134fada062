//! The audit records. One record is written per completed relay, holding
//! the original query and the list of sites that reported success - exactly
//! the sites collected before the stream ended, never more; and one record
//! per proxied criteria request. The requester is identified best-effort
//! from a header, with a fixed fallback.

use vstd::prelude::*;

verus! {

/// A client query as submitted: its message id, target sites and query text.
#[derive(Debug, PartialEq, Eq)]
pub struct LensQuery {
    pub id: String,
    pub sites: Vec<String>,
    pub query: String,
}

/// What an audit record describes.
#[derive(Debug, PartialEq, Eq)]
pub enum LogEvent {
    /// A completed relay: the query and the sites that reported success.
    Query { query: LensQuery, results: Vec<String> },
    /// A proxied criteria request: its raw body.
    Prism { body: String },
}

/// One append-only audit record.
#[derive(Debug, PartialEq, Eq)]
pub struct EndpointLog {
    /// Best-effort requester identity.
    pub user_email: String,
    /// Milliseconds since the epoch.
    pub ts: u128,
    pub log_type: LogEvent,
}

/// The requester identity from the auth header, or the fixed fallback when
/// the header is absent or unreadable.
pub fn effective_user(header_value: Option<String>) -> (r: String)
    ensures
        match header_value {
            Some(v) => r == v,
            None => r@ == "Unknown user"@,
        },
{
    match header_value {
        Some(v) => v,
        None => "Unknown user".to_owned(),
    }
}

/// The audit record for one completed relay. It carries exactly the results
/// that were collected - a disconnected stream yields a record of whatever
/// arrived before, never a padded one.
pub fn build_query_log(user_email: String, ts: u128, query: LensQuery, results: Vec<String>) -> (r:
    EndpointLog)
    ensures
        r.user_email == user_email,
        r.ts == ts,
        r.log_type matches LogEvent::Query { query: q, results: rs } && q == query && rs
            == results,
{
    EndpointLog { user_email, ts, log_type: LogEvent::Query { query, results } }
}

/// The audit record for one proxied criteria request.
pub fn build_prism_log(user_email: String, ts: u128, body: String) -> (r: EndpointLog)
    ensures
        r.user_email == user_email,
        r.ts == ts,
        r.log_type matches LogEvent::Prism { body: b } && b == body,
{
    EndpointLog { user_email, ts, log_type: LogEvent::Prism { body } }
}

} // verus!
