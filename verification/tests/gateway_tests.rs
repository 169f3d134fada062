use spot::banner::print_banner;
use spot::gateway::{cors_mode, criteria_url, default_sites, query_allowed, CorsMode};
use spot::health::{health_output, BeamStatus, Verdict};
use spot::json::Json;
use spot::logging::{build_prism_log, build_query_log, effective_user, LensQuery, LogEvent};
use spot::refresh::{
    empty_cache, refresh_step, CatalogueCache, FetchOutcome, REFRESH_WAIT_SECS, RETRY_WAIT_SECS,
};

fn s(v: &str) -> String {
    v.to_string()
}

#[test]
fn cors_any_accepts_star_and_any_in_any_case() {
    assert_eq!(cors_mode("*"), CorsMode::AllowAny);
    assert_eq!(cors_mode("any"), CorsMode::AllowAny);
    assert_eq!(cors_mode("ANY"), CorsMode::AllowAny);
    assert_eq!(cors_mode("Any"), CorsMode::AllowAny);
    assert_eq!(cors_mode("https://example.org"), CorsMode::AllowExact);
    assert_eq!(cors_mode("anybody"), CorsMode::AllowExact);
}

#[test]
fn criteria_url_trims_trailing_slashes() {
    assert_eq!(criteria_url("http://localhost:8066"), "http://localhost:8066/criteria");
    assert_eq!(criteria_url("http://localhost:8066/"), "http://localhost:8066/criteria");
    assert_eq!(criteria_url("http://localhost:8066///"), "http://localhost:8066/criteria");
}

#[test]
fn default_sites_fall_back_to_empty() {
    assert_eq!(default_sites(&None), Vec::<String>::new());
    assert_eq!(
        default_sites(&Some(vec![s("berlin"), s("munich")])),
        vec![s("berlin"), s("munich")]
    );
}

#[test]
fn health_is_fixed() {
    let h = health_output();
    assert!(matches!(h.summary, Verdict::Healthy));
    assert!(matches!(h.beam, BeamStatus::Okay));
}

#[test]
fn banner_names_the_commit_for_clean_builds() {
    let line = print_banner("1.2.3", "2024-01-01", "12:00", "false", "abc1234");
    assert_eq!(
        line,
        "Samply.Spot v1.2.3 (built 2024-01-01 12:00, abc1234) ready to take requests."
    );
    let dirty = print_banner("1.2.3", "2024-01-01", "12:00", "true", "abc1234");
    assert_eq!(
        dirty,
        "Samply.Spot v1.2.3 (built 2024-01-01 12:00, SNAPSHOT) ready to take requests."
    );
}

#[test]
fn unknown_requester_gets_the_fixed_fallback() {
    assert_eq!(effective_user(None), "Unknown user");
    assert_eq!(effective_user(Some(s("a@example.org"))), "a@example.org");
}

#[test]
fn query_log_holds_exactly_the_collected_results() {
    let query = LensQuery { id: s("t1"), sites: vec![s("berlin"), s("munich")], query: s("q") };
    let record = build_query_log(s("a@example.org"), 1700000000000, query, vec![s("berlin")]);
    assert_eq!(record.user_email, "a@example.org");
    assert_eq!(record.ts, 1700000000000);
    match record.log_type {
        LogEvent::Query { query, results } => {
            assert_eq!(query.id, "t1");
            // only the site that reported before the stream ended is logged
            assert_eq!(results, vec![s("berlin")]);
        }
        other => panic!("expected a query record, got {:?}", other),
    }
}

#[test]
fn prism_log_keeps_the_raw_body() {
    let record = build_prism_log(s("a@example.org"), 1, s("{\"sites\": []}"));
    match record.log_type {
        LogEvent::Prism { body } => assert_eq!(body, "{\"sites\": []}"),
        other => panic!("expected a prism record, got {:?}", other),
    }
}

#[test]
fn refresh_failure_keeps_the_cache_and_retries_soon() {
    let mut cache: CatalogueCache = empty_cache();
    assert_eq!(cache.value, Json::Null);
    let wait = refresh_step(&mut cache, FetchOutcome::Failed);
    assert_eq!(wait, RETRY_WAIT_SECS);
    assert_eq!(cache.value, Json::Null);
}

#[test]
fn refresh_recovery_moves_cache_straight_to_the_new_value() {
    // a failure followed by a success: the cache goes from the placeholder
    // directly to the merged document
    let mut cache: CatalogueCache = empty_cache();
    let w1 = refresh_step(&mut cache, FetchOutcome::Failed);
    assert_eq!(w1, RETRY_WAIT_SECS);
    assert_eq!(cache.value, Json::Null);
    let doc = Json::Str(s("merged"));
    let w2 = refresh_step(&mut cache, FetchOutcome::Fetched(doc));
    assert_eq!(w2, REFRESH_WAIT_SECS);
    assert_eq!(cache.value, Json::Str(s("merged")));
}

#[test]
fn refresh_success_overwrites_previous_value() {
    let mut cache = CatalogueCache { value: Json::Str(s("old")) };
    refresh_step(&mut cache, FetchOutcome::Fetched(Json::Str(s("new"))));
    assert_eq!(cache.value, Json::Str(s("new")));
}

#[test]
fn allow_list_refuses_queries_it_does_not_name() {
    assert!(query_allowed(&None, "anything"));
    let filter = Some(vec![s("aGVsbG8="), s("d29ybGQ=")]);
    assert!(query_allowed(&filter, "aGVsbG8="));
    assert!(query_allowed(&filter, "d29ybGQ="));
    assert!(!query_allowed(&filter, "forbidden"));
    assert!(!query_allowed(&Some(vec![]), "anything"));
}
