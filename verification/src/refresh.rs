//! The catalogue refresher's state. A background loop periodically fetches
//! the taxonomy and the statistics, merges them, and publishes the result
//! into one shared cache slot. Here stands what that loop decides: how the
//! cache moves and how long to wait next. A failed cycle leaves the cache
//! exactly as it was and retries soon; a successful cycle replaces the
//! whole cached value at once and rests long.

use vstd::prelude::*;
use crate::json::{Json, JsonV};

verus! {

/// Wait before the very first fetch.
pub const WARMUP_WAIT_SECS: u64 = 10;

/// Wait after a successful refresh.
pub const REFRESH_WAIT_SECS: u64 = 3600;

/// Wait after a failed refresh.
pub const RETRY_WAIT_SECS: u64 = 5;

/// The one shared cache slot. Before the first successful refresh it holds
/// the null placeholder.
#[derive(Debug, PartialEq, Eq)]
pub struct CatalogueCache {
    pub value: Json,
}

/// What one fetch-and-merge cycle produced.
#[derive(Debug, PartialEq, Eq)]
pub enum FetchOutcome {
    /// The merged catalogue document.
    Fetched(Json),
    /// Any fetch, parse or merge failure.
    Failed,
}

pub ghost enum FetchOutcomeV {
    Fetched(JsonV),
    Failed,
}

pub open spec fn outcome_model(o: FetchOutcome) -> FetchOutcomeV {
    match o {
        FetchOutcome::Fetched(doc) => FetchOutcomeV::Fetched(doc@),
        FetchOutcome::Failed => FetchOutcomeV::Failed,
    }
}

/// The cache after one cycle: replaced wholesale on success, untouched on
/// failure.
pub open spec fn next_cache(cache: JsonV, o: FetchOutcomeV) -> JsonV {
    match o {
        FetchOutcomeV::Fetched(doc) => doc,
        FetchOutcomeV::Failed => cache,
    }
}

/// The wait after one cycle: long after success, short before a retry.
pub open spec fn next_wait(o: FetchOutcomeV) -> u64 {
    match o {
        FetchOutcomeV::Fetched(_) => REFRESH_WAIT_SECS,
        FetchOutcomeV::Failed => RETRY_WAIT_SECS,
    }
}

/// The empty placeholder the cache starts with.
pub fn empty_cache() -> (c: CatalogueCache)
    ensures
        c.value@ == JsonV::Null,
{
    CatalogueCache { value: Json::Null }
}

/// One cycle's effect on the cache, and the seconds to wait before the next.
pub fn refresh_step(cache: &mut CatalogueCache, outcome: FetchOutcome) -> (wait: u64)
    ensures
        final (cache).value@ == next_cache(old(cache).value@, outcome_model(outcome)),
        wait == next_wait(outcome_model(outcome)),
{
    match outcome {
        FetchOutcome::Fetched(doc) => {
            cache.value = doc;
            REFRESH_WAIT_SECS
        },
        FetchOutcome::Failed => RETRY_WAIT_SECS,
    }
}

/// Recovery is direct: a failed cycle leaves the cache holding what it held,
/// and the next successful cycle moves it straight to the new merged value -
/// nothing in between is ever cached.
pub proof fn lemma_refresh_recovery(cache: JsonV, doc: JsonV)
    ensures
        next_cache(cache, FetchOutcomeV::Failed) == cache,
        next_cache(next_cache(cache, FetchOutcomeV::Failed), FetchOutcomeV::Fetched(doc)) == doc,
{
}

} // verus!
