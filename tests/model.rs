use petstore_load::executor::{
    dry_run_outcome, parse_method, request_outcome, success_status, TransportOutcome,
};
use petstore_load::scenario::{cart_url, cleanup_url};
use petstore_load::text::{query_url, strip_query_string, with_padded_number};
use petstore_load::types::{Endpoints, HttpMethod, RequestResult, UserScenarioResult};

fn outcome(url: &str, success: bool, ms: u64) -> RequestResult {
    RequestResult {
        method: "GET".to_string(),
        url: url.to_string(),
        user_id: "user00001".to_string(),
        success,
        response_time_ms: ms,
        status: if success { 200 } else { 0 },
        error: if success { None } else { Some("connection refused".to_string()) },
    }
}

#[test]
fn endpoints_default_when_unset() {
    let e = Endpoints::new(None, Some("http://search".to_string()), None, None);
    assert_eq!(e.petlistadoptions, "http://localhost:8080");
    assert_eq!(e.petsearch, "http://search");
    assert_eq!(e.payforadoption, "http://localhost:8082");
    assert_eq!(e.petfood, "http://localhost:8083");
    assert!(!e.is_empty());
}

#[test]
fn endpoints_empty_only_when_all_empty() {
    let mut e = Endpoints::new(
        Some(String::new()),
        Some(String::new()),
        Some(String::new()),
        Some(String::new()),
    );
    assert!(e.is_empty());
    e.petfood = "x".to_string();
    assert!(!e.is_empty());
}

#[test]
fn scenario_success_is_conjunction() {
    let ok = UserScenarioResult::from_requests(
        "u".to_string(),
        vec![outcome("a", true, 1), outcome("b", true, 2)],
        7,
    );
    assert!(ok.success);
    assert!(ok.error.is_none());
    assert_eq!(ok.total_time_ms, 7);
    let bad = UserScenarioResult::from_requests(
        "u".to_string(),
        vec![outcome("a", true, 1), outcome("b", false, 2), outcome("c", true, 3)],
        7,
    );
    assert!(!bad.success);
    assert_eq!(bad.error.as_deref(), Some("One or more requests failed"));
    assert_eq!(bad.requests.len(), 3);
    let empty = UserScenarioResult::from_requests("u".to_string(), vec![], 0);
    assert!(empty.success);
}

#[test]
fn padded_numbers() {
    assert_eq!(with_padded_number("user", 12345, 5), "user12345");
    assert_eq!(with_padded_number("user", 42, 5), "user00042");
    assert_eq!(with_padded_number("puppy_", 7, 3), "puppy_007");
    assert_eq!(with_padded_number("", 0, 1), "0");
    assert_eq!(with_padded_number("", 123456, 3), "123456");
}

#[test]
fn query_string_is_stripped() {
    assert_eq!(strip_query_string("/api/foods?search=x"), "/api/foods");
    assert_eq!(strip_query_string("/api/foods?search=y"), "/api/foods");
    assert_eq!(strip_query_string("/api/foods"), "/api/foods");
    assert_eq!(strip_query_string("?a"), "");
    assert_eq!(strip_query_string("a?b?c"), "a");
}

#[test]
fn query_attached_once() {
    assert_eq!(query_url("http://s/api/search", "petcolor=", "red"), "http://s/api/search?petcolor=red");
    assert_eq!(query_url("http://s/api/search?", "pettype=", "puppy"), "http://s/api/search?pettype=puppy");
    assert_eq!(query_url("", "k=", "v"), "?k=v");
}

#[test]
fn replace_swaps_every_occurrence() {
    assert_eq!(cart_url("http://f/api/foods", "u1", ""), "http://f/api/cart/u1");
    assert_eq!(cart_url("http://f/api/foods/api/foods", "u1", "/x"), "http://f/api/cart/u1/x");
    assert_eq!(cart_url("http://f/catalog", "u1", ""), "http://f/catalog/api/cart/u1");
    assert_eq!(cleanup_url("http://p/api/completeadoption", "7"), "http://p/api/adoption/7");
    assert_eq!(cleanup_url("http://p/pay", "7"), "http://p/pay");
}

#[test]
fn success_statuses() {
    assert!(!success_status(199));
    assert!(success_status(200));
    assert!(success_status(302));
    assert!(success_status(399));
    assert!(!success_status(400));
    assert!(!success_status(500));
    assert!(!success_status(0));
}

#[test]
fn transport_outcomes_recorded() {
    let r = request_outcome(
        HttpMethod::Post,
        "http://p/x",
        "user1",
        TransportOutcome::Response { status: 201, elapsed_ms: 12 },
    );
    assert_eq!(r.method, "POST");
    assert_eq!(r.url, "http://p/x");
    assert_eq!(r.user_id, "user1");
    assert!(r.success);
    assert_eq!(r.status, 201);
    assert_eq!(r.response_time_ms, 12);
    assert!(r.error.is_none());

    let r = request_outcome(
        HttpMethod::Get,
        "http://p/x",
        "user1",
        TransportOutcome::Response { status: 404, elapsed_ms: 3 },
    );
    assert!(!r.success);
    assert_eq!(r.status, 404);

    let r = request_outcome(
        HttpMethod::Delete,
        "http://p/x",
        "user1",
        TransportOutcome::Failed { description: "connection refused".to_string(), elapsed_ms: 5 },
    );
    assert_eq!(r.method, "DELETE");
    assert!(!r.success);
    assert_eq!(r.status, 0);
    assert_eq!(r.error.as_deref(), Some("connection refused"));

    let r = request_outcome(
        HttpMethod::Put,
        "http://p/x",
        "user1",
        TransportOutcome::TimedOut { elapsed_ms: 10000 },
    );
    assert!(!r.success);
    assert_eq!(r.status, 0);
    assert_eq!(r.response_time_ms, 10000);
    assert_eq!(r.error.as_deref(), Some("Request timeout"));
}

#[test]
fn dry_run_outcome_succeeds_instantly() {
    let r = dry_run_outcome(HttpMethod::Put, "http://p/cart", "user00007");
    assert_eq!(r.method, "PUT");
    assert_eq!(r.url, "http://p/cart");
    assert_eq!(r.user_id, "user00007");
    assert!(r.success);
    assert_eq!(r.status, 200);
    assert_eq!(r.response_time_ms, 0);
    assert!(r.error.is_none());
}

#[test]
fn methods_parse() {
    assert_eq!(parse_method("GET").unwrap(), HttpMethod::Get);
    assert_eq!(parse_method("POST").unwrap(), HttpMethod::Post);
    assert_eq!(parse_method("PUT").unwrap(), HttpMethod::Put);
    assert_eq!(parse_method("DELETE").unwrap(), HttpMethod::Delete);
    let e = parse_method("PATCH").unwrap_err();
    assert_eq!(e.name, "PATCH");
    assert!(parse_method("get").is_err());
    assert_eq!(HttpMethod::Delete.as_str(), "DELETE");
}
