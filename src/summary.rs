//! Results aggregation: run-wide counts and rates, the per-endpoint
//! breakdown and the listing of failed scenarios.

use vstd::prelude::*;

use crate::text::{lemma_strip_query_ignores_query, strip_query, strip_query_string};
use crate::types::{LoadTestResults, RequestResult, UserScenarioResult};

verus! {

/// Largest elapsed time a single request can record.
pub open spec fn max_ms() -> nat {
    18446744073709551615nat
}

/// Every request of `results`, scenario by scenario, in order.
pub open spec fn all_requests(results: Seq<UserScenarioResult>) -> Seq<RequestResult>
    decreases results.len(),
{
    if results.len() == 0 {
        Seq::empty()
    } else {
        all_requests(results.drop_last()) + results.last().requests@
    }
}

/// Number of successful requests in `rs`.
pub open spec fn success_count(rs: Seq<RequestResult>) -> nat
    decreases rs.len(),
{
    if rs.len() == 0 {
        0
    } else {
        success_count(rs.drop_last()) + if rs.last().success {
            1nat
        } else {
            0nat
        }
    }
}

/// Total elapsed milliseconds of the successful requests in `rs`.
pub open spec fn success_time(rs: Seq<RequestResult>) -> nat
    decreases rs.len(),
{
    if rs.len() == 0 {
        0
    } else {
        success_time(rs.drop_last()) + if rs.last().success {
            rs.last().response_time_ms as nat
        } else {
            0nat
        }
    }
}

/// Mean elapsed time over the successful requests; zero when none succeeded.
pub open spec fn average_success_time(rs: Seq<RequestResult>) -> nat {
    if success_count(rs) == 0 {
        0
    } else {
        success_time(rs) / success_count(rs)
    }
}

/// `part / whole` scaled by `scale`, rounded to the nearest integer (halves
/// up); zero for an empty whole.
pub open spec fn scaled_ratio(part: nat, whole: nat, scale: nat) -> nat {
    if whole == 0 {
        0
    } else {
        ((2 * part * scale + whole) / (2 * whole)) as nat
    }
}

/// A share of a whole, scaled, never exceeds the scale.
pub proof fn lemma_scaled_ratio_bound(part: nat, whole: nat, scale: nat)
    requires
        part <= whole,
    ensures
        scaled_ratio(part, whole, scale) <= scale,
{
    if whole > 0 {
        let q = (2 * part * scale + whole) / (2 * whole);
        assert(q <= scale) by (nonlinear_arith)
            requires
                part <= whole,
                whole > 0,
                q == (2 * part * scale + whole) / (2 * whole),
        ;
    }
}

/// Computes `scaled_ratio(part, whole, scale)`.
pub fn rounded_ratio(part: u64, whole: u64, scale: u64) -> (r: u128)
    requires
        scale <= 10000,
    ensures
        r == scaled_ratio(part as nat, whole as nat, scale as nat),
{
    if whole == 0 {
        return 0;
    }
    let p = part as u128;
    let w = whole as u128;
    proof {
        assert(2 * p * scale + w <= 2 * 18446744073709551615 * 10000 + 18446744073709551615)
            by (nonlinear_arith)
            requires
                p <= 18446744073709551615,
                w <= 18446744073709551615,
                scale <= 10000,
        ;
    }
    (2 * p * (scale as u128) + w) / (2 * w)
}

/// `x`, saturated at the largest `u64`.
pub open spec fn capped(x: nat) -> nat {
    if x > max_ms() {
        max_ms()
    } else {
        x
    }
}

/// Requests per second, in tenths, over a run of `elapsed_ms` milliseconds,
/// saturated at the largest `u64`.
pub open spec fn throughput_tenths(requests: nat, elapsed_ms: nat) -> nat {
    capped(scaled_ratio(requests, elapsed_ms, 10000))
}

/// What a summary of `results` over a run of `elapsed_ms` holds.
pub open spec fn summarizes(s: LoadTestResults, results: Seq<UserScenarioResult>, elapsed_ms: nat) -> bool {
    let rs = all_requests(results);
    &&& s.total_requests == rs.len()
    &&& s.successful_requests == success_count(rs)
    &&& s.failed_requests == rs.len() - success_count(rs)
    &&& s.average_response_time_ms == average_success_time(rs)
    &&& s.total_test_time_ms == elapsed_ms
    &&& s.requests_per_second_tenths == throughput_tenths(rs.len(), elapsed_ms)
    &&& s.success_rate_tenths == scaled_ratio(success_count(rs), rs.len(), 1000)
}

pub proof fn lemma_all_requests_prefix(results: Seq<UserScenarioResult>, i: int)
    requires
        0 <= i <= results.len(),
    ensures
        all_requests(results.take(i)).len() <= all_requests(results).len(),
    decreases results.len(),
{
    if i < results.len() {
        assert(results.drop_last().take(i) =~= results.take(i));
        lemma_all_requests_prefix(results.drop_last(), i);
    } else {
        assert(results.take(i) =~= results);
    }
}

pub proof fn lemma_all_requests_step(results: Seq<UserScenarioResult>, i: int)
    requires
        0 <= i < results.len(),
    ensures
        all_requests(results.take(i + 1)) == all_requests(results.take(i)) + results[i].requests@,
{
    assert(results.take(i + 1).drop_last() =~= results.take(i));
}

pub proof fn lemma_success_count_bound(rs: Seq<RequestResult>)
    ensures
        success_count(rs) <= rs.len(),
    decreases rs.len(),
{
    if rs.len() > 0 {
        lemma_success_count_bound(rs.drop_last());
    }
}

/// Run-wide statistics of `results`, for a run that took `total_time_ms`.
pub fn summarize(results: &Vec<UserScenarioResult>, total_time_ms: u64) -> (r: LoadTestResults)
    requires
        all_requests(results@).len() <= usize::MAX,
    ensures
        summarizes(r, results@, total_time_ms as nat),
{
    let ghost all = all_requests(results@);
    let mut total: usize = 0;
    let mut ok: usize = 0;
    let mut time: u128 = 0;
    let mut i: usize = 0;
    while i < results.len()
        invariant
            i <= results@.len(),
            all == all_requests(results@),
            all.len() <= usize::MAX,
            total == all_requests(results@.take(i as int)).len(),
            ok == success_count(all_requests(results@.take(i as int))),
            time == success_time(all_requests(results@.take(i as int))),
            time <= ok * max_ms(),
        decreases results@.len() - i,
    {
        let reqs = &results[i].requests;
        let ghost before = all_requests(results@.take(i as int));
        proof {
            lemma_all_requests_step(results@, i as int);
            lemma_all_requests_prefix(results@, i as int + 1);
        }
        let mut j: usize = 0;
        while j < reqs.len()
            invariant
                j <= reqs@.len(),
                all.len() <= usize::MAX,
                before.len() + reqs@.len() <= all.len(),
                total == (before + reqs@.take(j as int)).len(),
                ok == success_count(before + reqs@.take(j as int)),
                time == success_time(before + reqs@.take(j as int)),
                time <= ok * max_ms(),
            decreases reqs@.len() - j,
        {
            let ghost seen = before + reqs@.take(j as int);
            proof {
                assert((before + reqs@.take(j as int + 1)).drop_last() =~= seen);
                lemma_success_count_bound(seen);
            }
            total = total + 1;
            if reqs[j].success {
                ok = ok + 1;
                time = time + reqs[j].response_time_ms as u128;
            }
            j = j + 1;
        }
        proof {
            assert(reqs@.take(reqs@.len() as int) =~= reqs@);
        }
        i = i + 1;
    }
    proof {
        assert(results@.take(results@.len() as int) =~= results@);
        lemma_success_count_bound(all);
    }
    let average: u64 = if ok == 0 {
        0
    } else {
        proof {
            let q = time as int / ok as int;
            assert(q <= max_ms()) by (nonlinear_arith)
                requires
                    time <= ok * max_ms(),
                    ok > 0,
                    q == time as int / ok as int,
            ;
        }
        (time / ok as u128) as u64
    };
    let throughput: u64 = if total_time_ms == 0 {
        0
    } else {
        let t = rounded_ratio(total as u64, total_time_ms, 10000);
        if t > u64::MAX as u128 {
            u64::MAX
        } else {
            t as u64
        }
    };
    let rate: u64 = if total == 0 {
        0
    } else {
        proof {
            lemma_scaled_ratio_bound(ok as nat, total as nat, 1000);
        }
        rounded_ratio(ok as u64, total as u64, 1000) as u64
    };
    LoadTestResults {
        total_requests: total,
        successful_requests: ok,
        failed_requests: total - ok,
        average_response_time_ms: average,
        total_test_time_ms: total_time_ms,
        requests_per_second_tenths: throughput,
        success_rate_tenths: rate,
    }
}

/// With no successful request the average is zero; otherwise it is the
/// successful requests' total time divided by their number.
pub proof fn lemma_average_over_successes(s: LoadTestResults, results: Seq<UserScenarioResult>, elapsed_ms: nat)
    requires
        summarizes(s, results, elapsed_ms),
    ensures
        s.successful_requests == 0 ==> s.average_response_time_ms == 0,
        s.successful_requests > 0 ==> s.average_response_time_ms == success_time(
            all_requests(results),
        ) / (s.successful_requests as nat),
{
}

/// Success and failure tallies of one endpoint: a request URL with its
/// query string removed.
#[derive(Debug, Clone)]
pub struct EndpointStats {
    pub endpoint: String,
    pub successful: usize,
    pub failed: usize,
}

/// Number of requests of `rs` to `endpoint` whose success flag is `ok`.
pub open spec fn tally(rs: Seq<RequestResult>, endpoint: Seq<char>, ok: bool) -> nat
    decreases rs.len(),
{
    if rs.len() == 0 {
        0
    } else {
        tally(rs.drop_last(), endpoint, ok) + if strip_query(rs.last().url@) == endpoint
            && rs.last().success == ok {
            1nat
        } else {
            0nat
        }
    }
}

/// Some entry of `stats` is for `endpoint`.
pub open spec fn lists_endpoint(stats: Seq<EndpointStats>, endpoint: Seq<char>) -> bool {
    exists|i: int| 0 <= i < stats.len() && (#[trigger] stats[i]).endpoint@ == endpoint
}

/// `stats` is the per-endpoint breakdown of `rs`: one entry per endpoint
/// that some request reached, each with that endpoint's exact tallies.
pub open spec fn is_breakdown(stats: Seq<EndpointStats>, rs: Seq<RequestResult>) -> bool {
    &&& forall|i: int, j: int|
        0 <= i < j < stats.len() ==> (#[trigger] stats[i]).endpoint@ != (#[trigger] stats[j]).endpoint@
    &&& forall|i: int|
        0 <= i < stats.len() ==> {
            &&& (#[trigger] stats[i]).successful == tally(rs, stats[i].endpoint@, true)
            &&& stats[i].failed == tally(rs, stats[i].endpoint@, false)
            &&& stats[i].successful + stats[i].failed > 0
        }
    &&& forall|k: int| 0 <= k < rs.len() ==> lists_endpoint(stats, strip_query((#[trigger] rs[k]).url@))
}

pub proof fn lemma_tally_bound(rs: Seq<RequestResult>, endpoint: Seq<char>, ok: bool)
    ensures
        tally(rs, endpoint, ok) <= rs.len(),
    decreases rs.len(),
{
    if rs.len() > 0 {
        lemma_tally_bound(rs.drop_last(), endpoint, ok);
    }
}

pub proof fn lemma_tally_witness(rs: Seq<RequestResult>, endpoint: Seq<char>, ok: bool)
    requires
        tally(rs, endpoint, ok) > 0,
    ensures
        exists|k: int| 0 <= k < rs.len() && strip_query((#[trigger] rs[k]).url@) == endpoint,
    decreases rs.len(),
{
    if strip_query(rs.last().url@) == endpoint && rs.last().success == ok {
        assert(rs[rs.len() - 1] == rs.last());
    } else {
        lemma_tally_witness(rs.drop_last(), endpoint, ok);
        let k = choose|k: int|
            0 <= k < rs.drop_last().len() && strip_query((#[trigger] rs.drop_last()[k]).url@)
                == endpoint;
        assert(rs[k] == rs.drop_last()[k]);
    }
}

/// Requests whose URLs differ only in their query strings are tallied under
/// one entry of the breakdown: their common path.
pub proof fn lemma_breakdown_groups_by_path(
    stats: Seq<EndpointStats>,
    rs: Seq<RequestResult>,
    path: Seq<char>,
    q1: Seq<char>,
    q2: Seq<char>,
    k1: int,
    k2: int,
)
    requires
        is_breakdown(stats, rs),
        !path.contains('?'),
        0 <= k1 < rs.len(),
        0 <= k2 < rs.len(),
        rs[k1].url@ == path + seq!['?'] + q1,
        rs[k2].url@ == path + seq!['?'] + q2,
    ensures
        strip_query(rs[k1].url@) == path,
        strip_query(rs[k2].url@) == path,
        lists_endpoint(stats, path),
{
    lemma_strip_query_ignores_query(path, q1, q2);
    assert(lists_endpoint(stats, strip_query(rs[k1].url@)));
}

/// An endpoint all of whose requests failed has no success to its name.
pub proof fn lemma_failing_endpoint_tally(rs: Seq<RequestResult>, endpoint: Seq<char>)
    requires
        forall|k: int|
            0 <= k < rs.len() && strip_query((#[trigger] rs[k]).url@) == endpoint ==> !rs[k].success,
    ensures
        tally(rs, endpoint, true) == 0,
    decreases rs.len(),
{
    if rs.len() > 0 {
        let init = rs.drop_last();
        assert forall|k: int|
            0 <= k < init.len() && strip_query((#[trigger] init[k]).url@) == endpoint implies !init[k].success by {
            assert(init[k] == rs[k]);
        }
        lemma_failing_endpoint_tally(init, endpoint);
        assert(rs.last() == rs[rs.len() - 1]);
    }
}

/// A fault on one endpoint leaves the tallies of every other endpoint as
/// they were: runs that differ only in requests to `faulty` tally the same
/// for any other endpoint.
pub proof fn lemma_tally_ignores_other_endpoints(
    rs1: Seq<RequestResult>,
    rs2: Seq<RequestResult>,
    faulty: Seq<char>,
    endpoint: Seq<char>,
    ok: bool,
)
    requires
        rs1.len() == rs2.len(),
        endpoint != faulty,
        forall|k: int|
            0 <= k < rs1.len() && (strip_query((#[trigger] rs1[k]).url@) != faulty || strip_query(
                rs2[k].url@,
            ) != faulty) ==> rs1[k] == rs2[k],
    ensures
        tally(rs1, endpoint, ok) == tally(rs2, endpoint, ok),
    decreases rs1.len(),
{
    if rs1.len() > 0 {
        let i1 = rs1.drop_last();
        let i2 = rs2.drop_last();
        assert forall|k: int|
            0 <= k < i1.len() && (strip_query((#[trigger] i1[k]).url@) != faulty || strip_query(
                i2[k].url@,
            ) != faulty) implies i1[k] == i2[k] by {
            assert(i1[k] == rs1[k] && i2[k] == rs2[k]);
        }
        lemma_tally_ignores_other_endpoints(i1, i2, faulty, endpoint, ok);
        assert(rs1.last() == rs1[rs1.len() - 1]);
        assert(rs2.last() == rs2[rs2.len() - 1]);
    }
}

/// Adds one request to a breakdown.
fn tally_request(stats: &mut Vec<EndpointStats>, req: &RequestResult, Ghost(seen): Ghost<Seq<RequestResult>>)
    requires
        is_breakdown(old(stats)@, seen),
        seen.len() < usize::MAX,
    ensures
        is_breakdown(final(stats)@, seen.push(*req)),
{
    let endpoint = strip_query_string(req.url.as_str());
    let ghost e = endpoint@;
    let ghost next = seen.push(*req);
    assert(next.drop_last() =~= seen);
    assert(next.last() == *req);
    let mut i: usize = 0;
    while i < stats.len() && !stats[i].endpoint.eq(&endpoint)
        invariant
            i <= stats@.len(),
            e == endpoint@,
            forall|m: int| 0 <= m < i ==> (#[trigger] stats@[m]).endpoint@ != e,
        decreases stats@.len() - i,
    {
        i = i + 1;
    }
    proof {
        lemma_tally_bound(seen, e, true);
        lemma_tally_bound(seen, e, false);
    }
    if i < stats.len() {
        let old_entry = &stats[i];
        let ghost prev = stats@;
        assert(old_entry.endpoint@ == e);
        let entry = if req.success {
            EndpointStats { endpoint, successful: old_entry.successful + 1, failed: old_entry.failed }
        } else {
            EndpointStats { endpoint, successful: old_entry.successful, failed: old_entry.failed + 1 }
        };
        stats.set(i, entry);
        proof {
            let cur = stats@;
            assert forall|a: int, b: int| 0 <= a < b < cur.len() implies (#[trigger] cur[a]).endpoint@
                != (#[trigger] cur[b]).endpoint@ by {
                assert(prev[a].endpoint@ != prev[b].endpoint@);
            }
            assert forall|a: int| 0 <= a < cur.len() implies {
                &&& (#[trigger] cur[a]).successful == tally(next, cur[a].endpoint@, true)
                &&& cur[a].failed == tally(next, cur[a].endpoint@, false)
                &&& cur[a].successful + cur[a].failed > 0
            } by {
                assert(prev[a].successful == tally(seen, prev[a].endpoint@, true));
                if a != i {
                    assert(prev[a].endpoint@ != prev[i as int].endpoint@);
                }
            }
            assert forall|k: int| 0 <= k < next.len() implies lists_endpoint(
                cur,
                strip_query((#[trigger] next[k]).url@),
            ) by {
                if k < seen.len() {
                    assert(next[k] == seen[k]);
                    assert(lists_endpoint(prev, strip_query(seen[k].url@)));
                    let m = choose|m: int|
                        0 <= m < prev.len() && (#[trigger] prev[m]).endpoint@ == strip_query(
                            seen[k].url@,
                        );
                    assert(cur[m].endpoint@ == prev[m].endpoint@);
                } else {
                    assert(cur[i as int].endpoint@ == e);
                }
            }
        }
    } else {
        let ghost prev = stats@;
        proof {
            if tally(seen, e, true) > 0 {
                lemma_tally_witness(seen, e, true);
                let k = choose|k: int| 0 <= k < seen.len() && strip_query((#[trigger] seen[k]).url@) == e;
                let m = choose|m: int|
                    0 <= m < prev.len() && (#[trigger] prev[m]).endpoint@ == strip_query(seen[k].url@);
            }
            if tally(seen, e, false) > 0 {
                lemma_tally_witness(seen, e, false);
                let k = choose|k: int| 0 <= k < seen.len() && strip_query((#[trigger] seen[k]).url@) == e;
                let m = choose|m: int|
                    0 <= m < prev.len() && (#[trigger] prev[m]).endpoint@ == strip_query(seen[k].url@);
            }
        }
        let entry = if req.success {
            EndpointStats { endpoint, successful: 1, failed: 0 }
        } else {
            EndpointStats { endpoint, successful: 0, failed: 1 }
        };
        stats.push(entry);
        proof {
            let cur = stats@;
            assert forall|a: int, b: int| 0 <= a < b < cur.len() implies (#[trigger] cur[a]).endpoint@
                != (#[trigger] cur[b]).endpoint@ by {
                if b < prev.len() {
                    assert(prev[a].endpoint@ != prev[b].endpoint@);
                } else {
                    assert(prev[a].endpoint@ != e);
                }
            }
            assert forall|a: int| 0 <= a < cur.len() implies {
                &&& (#[trigger] cur[a]).successful == tally(next, cur[a].endpoint@, true)
                &&& cur[a].failed == tally(next, cur[a].endpoint@, false)
                &&& cur[a].successful + cur[a].failed > 0
            } by {
                if a < prev.len() {
                    assert(cur[a] == prev[a]);
                    assert(prev[a].endpoint@ != e);
                }
            }
            assert forall|k: int| 0 <= k < next.len() implies lists_endpoint(
                cur,
                strip_query((#[trigger] next[k]).url@),
            ) by {
                if k < seen.len() {
                    assert(next[k] == seen[k]);
                    assert(lists_endpoint(prev, strip_query(seen[k].url@)));
                    let m = choose|m: int|
                        0 <= m < prev.len() && (#[trigger] prev[m]).endpoint@ == strip_query(
                            seen[k].url@,
                        );
                    assert(cur[m] == prev[m]);
                } else {
                    assert(cur[prev.len() as int].endpoint@ == e);
                }
            }
        }
    }
}

/// The per-endpoint breakdown of every request in `results`, endpoints in
/// the order they first appear.
pub fn endpoint_breakdown(results: &Vec<UserScenarioResult>) -> (r: Vec<EndpointStats>)
    requires
        all_requests(results@).len() <= usize::MAX,
    ensures
        is_breakdown(r@, all_requests(results@)),
{
    let mut stats: Vec<EndpointStats> = Vec::new();
    let mut i: usize = 0;
    while i < results.len()
        invariant
            i <= results@.len(),
            all_requests(results@).len() <= usize::MAX,
            is_breakdown(stats@, all_requests(results@.take(i as int))),
        decreases results@.len() - i,
    {
        let reqs = &results[i].requests;
        let ghost before = all_requests(results@.take(i as int));
        proof {
            lemma_all_requests_step(results@, i as int);
            lemma_all_requests_prefix(results@, i as int + 1);
        }
        let mut j: usize = 0;
        while j < reqs.len()
            invariant
                j <= reqs@.len(),
                before.len() + reqs@.len() <= usize::MAX,
                is_breakdown(stats@, before + reqs@.take(j as int)),
            decreases reqs@.len() - j,
        {
            let ghost seen = before + reqs@.take(j as int);
            proof {
                assert(before + reqs@.take(j as int + 1) =~= seen.push(reqs@[j as int]));
            }
            tally_request(&mut stats, &reqs[j], Ghost(seen));
            j = j + 1;
        }
        proof {
            assert(reqs@.take(reqs@.len() as int) =~= reqs@);
        }
        i = i + 1;
    }
    proof {
        assert(results@.take(results@.len() as int) =~= results@);
    }
    stats
}

/// Number of failed requests in `rs`.
pub open spec fn failure_count(rs: Seq<RequestResult>) -> nat {
    (rs.len() - success_count(rs)) as nat
}

/// The failed requests of `rs`, in order.
pub open spec fn failed_outcomes(rs: Seq<RequestResult>) -> Seq<RequestResult>
    decreases rs.len(),
{
    if rs.len() == 0 {
        Seq::empty()
    } else if !rs.last().success {
        failed_outcomes(rs.drop_last()).push(rs.last())
    } else {
        failed_outcomes(rs.drop_last())
    }
}

/// Every failed request of `results`, scenario by scenario, in order.
pub fn failed_requests(results: &Vec<UserScenarioResult>) -> (r: Vec<RequestResult>)
    ensures
        r@ == failed_outcomes(all_requests(results@)),
{
    let mut out: Vec<RequestResult> = Vec::new();
    let mut i: usize = 0;
    while i < results.len()
        invariant
            i <= results@.len(),
            out@ == failed_outcomes(all_requests(results@.take(i as int))),
        decreases results@.len() - i,
    {
        let reqs = &results[i].requests;
        let ghost before = all_requests(results@.take(i as int));
        proof {
            lemma_all_requests_step(results@, i as int);
        }
        let mut j: usize = 0;
        while j < reqs.len()
            invariant
                j <= reqs@.len(),
                out@ == failed_outcomes(before + reqs@.take(j as int)),
            decreases reqs@.len() - j,
        {
            let ghost seen = before + reqs@.take(j as int);
            proof {
                assert((before + reqs@.take(j as int + 1)).drop_last() =~= seen);
                assert((before + reqs@.take(j as int + 1)).last() == reqs@[j as int]);
            }
            if !reqs[j].success {
                out.push(reqs[j].duplicate());
            }
            j = j + 1;
        }
        proof {
            assert(reqs@.take(reqs@.len() as int) =~= reqs@);
        }
        i = i + 1;
    }
    proof {
        assert(results@.take(results@.len() as int) =~= results@);
    }
    out
}

/// The failed scenarios of `results`, in order.
pub open spec fn failed_results(results: Seq<UserScenarioResult>) -> Seq<UserScenarioResult>
    decreases results.len(),
{
    if results.len() == 0 {
        Seq::empty()
    } else if !results.last().success {
        failed_results(results.drop_last()).push(results.last())
    } else {
        failed_results(results.drop_last())
    }
}

/// How many requests of a failed scenario failed.
#[derive(Debug, Clone)]
pub struct ScenarioFailure {
    pub user_id: String,
    pub failed: usize,
    pub total: usize,
}

/// Counts the failed requests of `rs`.
fn count_failures(rs: &Vec<RequestResult>) -> (r: usize)
    ensures
        r == failure_count(rs@),
{
    let mut failed: usize = 0;
    let mut i: usize = 0;
    while i < rs.len()
        invariant
            i <= rs@.len(),
            failed == failure_count(rs@.take(i as int)),
            success_count(rs@.take(i as int)) <= i,
        decreases rs@.len() - i,
    {
        proof {
            assert(rs@.take(i as int + 1).drop_last() =~= rs@.take(i as int));
        }
        if !rs[i].success {
            failed = failed + 1;
        }
        i = i + 1;
    }
    proof {
        assert(rs@.take(rs@.len() as int) =~= rs@);
    }
    failed
}

/// One entry per failed scenario, in order, with its failed and total
/// request counts.
pub fn failed_scenarios(results: &Vec<UserScenarioResult>) -> (r: Vec<ScenarioFailure>)
    ensures
        r@.len() == failed_results(results@).len(),
        forall|m: int|
            0 <= m < r@.len() ==> {
                &&& (#[trigger] r@[m]).user_id@ == failed_results(results@)[m].user_id@
                &&& r@[m].failed == failure_count(failed_results(results@)[m].requests@)
                &&& r@[m].total == failed_results(results@)[m].requests@.len()
            },
{
    let mut out: Vec<ScenarioFailure> = Vec::new();
    let mut i: usize = 0;
    while i < results.len()
        invariant
            i <= results@.len(),
            out@.len() == failed_results(results@.take(i as int)).len(),
            forall|m: int|
                0 <= m < out@.len() ==> {
                    &&& (#[trigger] out@[m]).user_id@ == failed_results(results@.take(i as int))[m].user_id@
                    &&& out@[m].failed == failure_count(
                        failed_results(results@.take(i as int))[m].requests@,
                    )
                    &&& out@[m].total == failed_results(results@.take(i as int))[m].requests@.len()
                },
        decreases results@.len() - i,
    {
        let ghost prev = failed_results(results@.take(i as int));
        proof {
            assert(results@.take(i as int + 1).drop_last() =~= results@.take(i as int));
        }
        if !results[i].success {
            let entry = ScenarioFailure {
                user_id: results[i].user_id.clone(),
                failed: count_failures(&results[i].requests),
                total: results[i].requests.len(),
            };
            out.push(entry);
        }
        i = i + 1;
    }
    proof {
        assert(results@.take(results@.len() as int) =~= results@);
    }
    out
}

/// How an endpoint fared over the run.
#[derive(Debug, Clone, Copy, PartialEq, Eq, Structural)]
pub enum Health {
    /// At least 90% of its requests succeeded.
    Healthy,
    /// At least 70%.
    Degraded,
    /// Less than that, or no request at all.
    Failing,
}

pub open spec fn health_of(successful: nat, total: nat) -> Health {
    if total > 0 && successful * 100 >= 90 * total {
        Health::Healthy
    } else if total > 0 && successful * 100 >= 70 * total {
        Health::Degraded
    } else {
        Health::Failing
    }
}

impl EndpointStats {
    /// Percentage of this endpoint's requests that succeeded, in tenths.
    pub fn success_rate_tenths(&self) -> (r: u64)
        ensures
            r == scaled_ratio(self.successful as nat, (self.successful + self.failed) as nat, 1000),
    {
        let total = self.successful as u128 + self.failed as u128;
        if total > u64::MAX as u128 {
            // a whole beyond u64 is divided in u128 directly
            let ok = self.successful as u128;
            proof {
                lemma_scaled_ratio_bound(self.successful as nat, total as nat, 1000);
                assert(2 * ok * 1000 + total <= 2 * 18446744073709551615 * 1000 + 2
                    * 18446744073709551615) by (nonlinear_arith)
                    requires
                        ok <= 18446744073709551615,
                        total <= 2 * 18446744073709551615,
                ;
            }
            ((2 * ok * 1000 + total) / (2 * total)) as u64
        } else {
            proof {
                lemma_scaled_ratio_bound(self.successful as nat, total as nat, 1000);
            }
            rounded_ratio(self.successful as u64, total as u64, 1000) as u64
        }
    }

    pub fn health(&self) -> (r: Health)
        ensures
            r == health_of(self.successful as nat, (self.successful + self.failed) as nat),
    {
        let ok = self.successful as u128;
        let total = self.successful as u128 + self.failed as u128;
        if total > 0 && ok * 100 >= 90 * total {
            Health::Healthy
        } else if total > 0 && ok * 100 >= 70 * total {
            Health::Degraded
        } else {
            Health::Failing
        }
    }
}

} // verus!
