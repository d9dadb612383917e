use std::collections::HashSet;

use petstore_load::discovery::{
    classify_fetch_error, contains_text, default_service_parameters, resolve_endpoints, FetchFault,
};
use petstore_load::executor::{dry_run_outcome, request_outcome, TransportOutcome};
use petstore_load::load_tester::{scenario_order, LoadTester, RunMode};
use petstore_load::progress::{monitor_finished, monitor_interval_secs, progress_snapshot, ProgressCounters};
use petstore_load::scenario::{ScenarioChoices, ScenarioRun};
use petstore_load::summary::{
    endpoint_breakdown, failed_requests, failed_scenarios, summarize, EndpointStats, Health,
};
use petstore_load::types::{Endpoints, RequestResult, UserScenarioResult};

fn req(url: &str, success: bool, ms: u64) -> RequestResult {
    RequestResult {
        method: "GET".to_string(),
        url: url.to_string(),
        user_id: "u".to_string(),
        success,
        response_time_ms: ms,
        status: if success { 200 } else { 503 },
        error: None,
    }
}

fn tester(users: usize, concurrent: usize, rampup: u64) -> LoadTester {
    LoadTester::new(users, concurrent, Endpoints::new(None, None, None, None), true, false, rampup)
}

#[test]
fn immediate_order_covers_every_round() {
    let order = scenario_order(3, 2);
    assert_eq!(order, vec![0, 1, 2, 0, 1, 2]);
    assert_eq!(scenario_order(4, 5).len(), 20);
    assert!(scenario_order(0, 3).is_empty());
    assert!(scenario_order(3, 0).is_empty());
}

#[test]
fn mode_follows_rampup() {
    assert_eq!(tester(2, 2, 0).mode(), RunMode::Immediate);
    assert_eq!(tester(2, 2, 5).mode(), RunMode::RampUp);
    assert_eq!(tester(7, 3, 0).total_scenarios(), 21);
}

#[test]
fn generated_users_are_distinct() {
    let t = tester(10000, 1, 0);
    let users = t.generate_users();
    assert_eq!(users.len(), 10000);
    let set: HashSet<&String> = users.iter().collect();
    assert_eq!(set.len(), 10000);
    for u in &users {
        assert_eq!(u.len(), 9);
        assert!(u.starts_with("user"));
        let n: u64 = u[4..].parse().unwrap();
        assert!((10000..99999).contains(&n));
    }
    assert!(tester(0, 1, 0).generate_users().is_empty());
}

#[test]
fn ramp_schedule_spreads_starts() {
    let t = tester(4, 3, 6);
    assert_eq!(t.rampup_interval_ms(), 500);
    let mut s = t.ramp_schedule();
    let mut starts = Vec::new();
    while let Some(st) = s.next_start() {
        starts.push(st);
    }
    assert_eq!(starts.len(), 12);
    let users: Vec<usize> = starts.iter().map(|s| s.user_index).collect();
    assert_eq!(users, vec![0, 1, 2, 3, 0, 1, 2, 3, 0, 1, 2, 3]);
    let total_pause: u64 = starts.iter().map(|s| s.pause_ms).sum();
    assert_eq!(total_pause, 11 * 500);
    assert!(total_pause <= 6000 && 6000 - total_pause <= 500 + 1);
    assert_eq!(starts[11].pause_ms, 0);
    assert!(starts[0].announce && starts[4].announce && !starts[5].announce && starts[9].announce);
    assert!(!starts.iter().any(|s| s.milestone));
    assert!(s.next_start().is_none());

    let t = tester(300, 1, 3);
    assert_eq!(t.rampup_interval_ms(), 10);
    let mut s = t.ramp_schedule();
    let mut milestones = Vec::new();
    while let Some(st) = s.next_start() {
        if st.milestone {
            milestones.push(st.number);
        }
    }
    assert_eq!(milestones, vec![50, 100, 150, 200, 250, 300]);
}

#[test]
fn ramp_spreads_more_starts_than_milliseconds() {
    let t = tester(1000, 5, 2);
    assert_eq!(t.rampup_interval_ms(), 0);
    let mut s = t.ramp_schedule();
    let mut count = 0usize;
    let mut total_pause = 0u64;
    let mut offsets = Vec::new();
    while let Some(st) = s.next_start() {
        offsets.push(total_pause);
        assert!(st.pause_ms <= 1);
        total_pause += st.pause_ms;
        count += 1;
    }
    assert_eq!(count, 5000);
    assert_eq!(total_pause, 1999);
    assert_eq!(offsets[2500], 1000);
}

#[test]
fn ramp_offsets_round_down() {
    let t = tester(3, 1, 1);
    let mut s = t.ramp_schedule();
    let mut pauses = Vec::new();
    while let Some(st) = s.next_start() {
        pauses.push(st.pause_ms);
    }
    assert_eq!(pauses, vec![333, 333, 0]);
}

#[test]
fn dry_run_three_users() {
    let t = tester(3, 1, 0);
    let users = t.generate_users();
    let results = t.run_dry(&users);
    assert_eq!(results.len(), 3);
    assert!(results.iter().all(|r| r.success));
    for (r, u) in results.iter().zip(users.iter()) {
        assert_eq!(&r.user_id, u);
        assert!(r.requests.iter().all(|q| q.success && q.status == 200 && q.response_time_ms == 0));
    }
    let s = summarize(&results, 1000);
    assert_eq!(s.success_rate_tenths, 1000);
    assert_eq!(s.success_rate_tenths as f64 / 10.0, 100.0);
    assert_eq!(s.failed_requests, 0);
    assert_eq!(s.total_requests, 3 * 22);
    assert_eq!(s.requests_per_second_tenths, 660);
}

#[test]
fn dry_run_counts_users_times_concurrency() {
    let t = tester(4, 3, 0);
    let users = t.generate_users();
    let results = t.run_dry(&users);
    assert_eq!(results.len(), 12);
    assert_eq!(results[5].user_id, users[1]);
}

#[test]
fn summary_average_over_successes_only() {
    let results = vec![
        UserScenarioResult::from_requests(
            "a".to_string(),
            vec![req("http://x/a?q=1", true, 100), req("http://x/b", false, 5000)],
            0,
        ),
        UserScenarioResult::from_requests("b".to_string(), vec![req("http://x/a?q=2", true, 301)], 0),
    ];
    let s = summarize(&results, 2000);
    assert_eq!(s.total_requests, 3);
    assert_eq!(s.successful_requests, 2);
    assert_eq!(s.failed_requests, 1);
    assert_eq!(s.average_response_time_ms, 200);
    assert_eq!(s.total_test_time_ms, 2000);
    assert_eq!(s.requests_per_second_tenths, 15);
    assert_eq!(s.success_rate_tenths, 667);
}

#[test]
fn summary_without_successes_averages_zero() {
    let results = vec![UserScenarioResult::from_requests(
        "a".to_string(),
        vec![req("http://x/a", false, 10), req("http://x/b", false, 20)],
        0,
    )];
    let s = summarize(&results, 0);
    assert_eq!(s.successful_requests, 0);
    assert_eq!(s.average_response_time_ms, 0);
    assert_eq!(s.requests_per_second_tenths, 0);
    assert_eq!(s.success_rate_tenths, 0);
    let empty = summarize(&vec![], 10);
    assert_eq!(empty.total_requests, 0);
    assert_eq!(empty.success_rate_tenths, 0);
}

#[test]
fn breakdown_ignores_query_strings() {
    let results = vec![
        UserScenarioResult::from_requests(
            "a".to_string(),
            vec![
                req("/api/foods?search=x", true, 1),
                req("/api/foods?search=y", false, 1),
                req("/api/cart", true, 1),
            ],
            0,
        ),
        UserScenarioResult::from_requests("b".to_string(), vec![req("/api/foods", true, 1)], 0),
    ];
    let stats = endpoint_breakdown(&results);
    assert_eq!(stats.len(), 2);
    assert_eq!(stats[0].endpoint, "/api/foods");
    assert_eq!(stats[0].successful, 2);
    assert_eq!(stats[0].failed, 1);
    assert_eq!(stats[1].endpoint, "/api/cart");
    assert_eq!(stats[1].successful, 1);
    assert_eq!(stats[1].failed, 0);
    assert_eq!(stats[0].health(), Health::Failing);
    assert_eq!(stats[1].health(), Health::Healthy);
}

#[test]
fn faulty_endpoint_fails_its_scenarios_only() {
    let ep = Endpoints::new(
        Some("http://list/api/adoptionlist".to_string()),
        Some("http://search/api/search".to_string()),
        Some("http://pay/api/completeadoption".to_string()),
        Some("http://food/api/foods".to_string()),
    );
    let mut results = Vec::new();
    for user in ["user10001", "user10002"] {
        let mut run = ScenarioRun::new(user.to_string(), &ep, ScenarioChoices::draw());
        while let Some(p) = run.next_request() {
            let outcome = if p.url.starts_with("http://pay/api/completeadoption") {
                request_outcome(
                    p.method,
                    &p.url,
                    user,
                    TransportOutcome::Failed { description: "connection refused".to_string(), elapsed_ms: 2 },
                )
            } else {
                request_outcome(p.method, &p.url, user, TransportOutcome::Response { status: 200, elapsed_ms: 4 })
            };
            run.record(outcome, None);
        }
        results.push(run.finish(100));
    }
    assert!(results.iter().all(|r| !r.success));
    let stats = endpoint_breakdown(&results);
    let pay = stats.iter().find(|s| s.endpoint == "http://pay/api/completeadoption").unwrap();
    assert_eq!(pay.successful, 0);
    assert_eq!(pay.failed, 6);
    assert_eq!(pay.health(), Health::Failing);
    for s in stats.iter().filter(|s| s.endpoint != "http://pay/api/completeadoption") {
        assert_eq!(s.failed, 0);
        assert_eq!(s.health(), Health::Healthy);
    }
    let failures = failed_scenarios(&results);
    assert_eq!(failures.len(), 2);
    assert_eq!(failures[0].user_id, "user10001");
    assert_eq!(failures[0].failed, 3);
    assert_eq!(failures[0].total, 22);
    let s = summarize(&results, 1000);
    assert_eq!(s.failed_requests, 6);
    assert_eq!(s.average_response_time_ms, 4);
}

#[test]
fn health_thresholds() {
    let h = |ok: usize, bad: usize| EndpointStats { endpoint: String::new(), successful: ok, failed: bad }.health();
    assert_eq!(h(9, 1), Health::Healthy);
    assert_eq!(h(89, 11), Health::Degraded);
    assert_eq!(h(7, 3), Health::Degraded);
    assert_eq!(h(69, 31), Health::Failing);
    assert_eq!(h(0, 0), Health::Failing);
    let rate = |ok: usize, bad: usize| EndpointStats { endpoint: String::new(), successful: ok, failed: bad }.success_rate_tenths();
    assert_eq!(rate(2, 1), 667);
    assert_eq!(rate(1, 2), 333);
    assert_eq!(rate(1, 7), 125);
    assert_eq!(rate(0, 0), 0);
}

#[test]
fn failed_scenarios_listed_in_order() {
    let results = vec![
        UserScenarioResult::from_requests("a".to_string(), vec![req("x", true, 1)], 0),
        UserScenarioResult::from_requests("b".to_string(), vec![req("x", false, 1), req("y", false, 1), req("z", true, 1)], 0),
        UserScenarioResult::from_requests("c".to_string(), vec![req("x", false, 1)], 0),
    ];
    let failed = failed_requests(&results);
    let urls: Vec<&str> = failed.iter().map(|r| r.url.as_str()).collect();
    assert_eq!(urls, vec!["x", "y", "x"]);
    assert!(failed.iter().all(|r| !r.success));
    let f = failed_scenarios(&results);
    assert_eq!(f.len(), 2);
    assert_eq!((f[0].user_id.as_str(), f[0].failed, f[0].total), ("b", 2, 3));
    assert_eq!((f[1].user_id.as_str(), f[1].failed, f[1].total), ("c", 1, 1));
}

#[test]
fn progress_counters_and_snapshots() {
    let mut c = ProgressCounters::new();
    let r = UserScenarioResult::from_requests(
        "a".to_string(),
        vec![req("x", true, 1), req("y", false, 1), req("z", false, 1)],
        0,
    );
    c.record_scenario(&r);
    c.record_scenario(&r);
    assert_eq!((c.completed, c.total_requests, c.failed_requests), (2, 6, 4));
    let s = progress_snapshot(&c, 8, 4);
    assert_eq!(s.percent_tenths, 250);
    assert_eq!(s.requests_per_second_tenths, 15);
    assert_eq!(progress_snapshot(&c, 8, 0).requests_per_second_tenths, 0);
    assert!(!monitor_finished(&c, 3));
    assert!(monitor_finished(&c, 2));
    assert_eq!(monitor_interval_secs(20), 2);
    assert_eq!(monitor_interval_secs(21), 5);
    assert_eq!(monitor_interval_secs(100), 5);
    assert_eq!(monitor_interval_secs(101), 10);
}

#[test]
fn discovery_falls_back_per_service() {
    let params = default_service_parameters();
    assert_eq!(params.len(), 5);
    assert_eq!(params[1], ("petsearch".to_string(), "/petstore/searchapiurl".to_string()));
    assert_eq!(params[4], ("petfoodcart".to_string(), "/petstore/petfoodcarturl".to_string()));
    let defaults = Endpoints::new(None, None, None, None);
    let found = vec![
        ("petsearch".to_string(), "http://s1".to_string()),
        ("petfood".to_string(), "http://f".to_string()),
        ("petsearch".to_string(), "http://s2".to_string()),
    ];
    let r = resolve_endpoints(&defaults, &found);
    assert_eq!(r.endpoints.petsearch, "http://s2");
    assert_eq!(r.endpoints.petfood, "http://f");
    assert_eq!(r.endpoints.petlistadoptions, "http://localhost:8080");
    assert_eq!(r.endpoints.payforadoption, "http://localhost:8082");
    assert!(r.petlistadoptions_defaulted && r.payforadoption_defaulted);
    assert!(!r.petsearch_defaulted && !r.petfood_defaulted);
}

#[test]
fn fetch_errors_classified() {
    assert_eq!(classify_fetch_error("service error: ParameterNotFound: /x"), FetchFault::NotFound);
    assert_eq!(classify_fetch_error("dispatch failure"), FetchFault::Other);
    assert!(contains_text("abc", ""));
    assert!(contains_text("abc", "bc"));
    assert!(!contains_text("ab", "abc"));
    let o = dry_run_outcome(petstore_load::types::HttpMethod::Get, "u", "v");
    assert!(o.success);
}
