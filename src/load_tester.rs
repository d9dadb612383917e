//! The load orchestrator: run configuration, virtual-user generation, the
//! order in which scenarios start, the ramp-up schedule, and a complete
//! dry run that performs no network traffic.

use std::collections::HashSet;

use vstd::prelude::*;
use vstd::set_lib::{lemma_len_subset, lemma_int_range, set_int_range};

use crate::executor::dry_run_outcome;
use crate::random::random_in;
use crate::summary::{lemma_scaled_ratio_bound, rounded_ratio, scaled_ratio};
use crate::scenario::{follows_plan, planned_method, ScenarioChoices, ScenarioRun, SCENARIO_STEPS};
use crate::text::{lemma_padded_decimal_injective, padded_decimal, with_padded_number};
use crate::types::{Endpoints, UserScenarioResult};

verus! {

broadcast use vstd::std_specs::hash::group_hash_axioms;

/// Smallest number in a generated user id.
pub const USER_NUMBER_LOW: u64 = 10000;

/// One past the largest number in a generated user id.
pub const USER_NUMBER_HIGH: u64 = 99999;

/// Random draws tried for a fresh user number before the lowest free one is
/// taken.
pub const USER_NUMBER_DRAWS: u64 = 64;

/// The id of the user numbered `n`.
pub open spec fn user_id_text(n: nat) -> Seq<char> {
    "user"@ + padded_decimal(n, 5)
}

/// Whether `id` is a generated user id.
pub open spec fn is_user_id(id: Seq<char>) -> bool {
    exists|n: nat| USER_NUMBER_LOW <= n < USER_NUMBER_HIGH && id == #[trigger] user_id_text(n)
}

/// How the scenarios of a run are started.
#[derive(Debug, Clone, Copy, PartialEq, Eq, Structural)]
pub enum RunMode {
    /// All at once.
    Immediate,
    /// One after another, spread evenly over the ramp-up period.
    RampUp,
}

/// The configuration of one load test run.
#[derive(Debug)]
pub struct LoadTester {
    pub user_count: usize,
    pub concurrent_requests: usize,
    pub endpoints: Endpoints,
    pub dry_run: bool,
    pub verbose: bool,
    pub rampup_seconds: u64,
}

/// The integers held in `nums`.
pub open spec fn int_set(nums: Seq<u64>) -> Set<int> {
    Set::new(|x: int| exists|i: int| 0 <= i < nums.len() && nums[i] as int == x)
}

proof fn lemma_int_set_len(nums: Seq<u64>)
    requires
        nums.no_duplicates(),
    ensures
        int_set(nums).finite(),
        int_set(nums).len() == nums.len(),
    decreases nums.len(),
{
    if nums.len() == 0 {
        assert(int_set(nums) =~= Set::empty());
    } else {
        let init = nums.drop_last();
        assert(init.no_duplicates()) by {
            assert forall|i: int, j: int| 0 <= i < init.len() && 0 <= j < init.len() && i != j implies init[i]
                != init[j] by {
                assert(init[i] == nums[i] && init[j] == nums[j]);
            }
        }
        lemma_int_set_len(init);
        let x = nums.last() as int;
        assert(int_set(nums) =~= int_set(init).insert(x)) by {
            assert forall|y: int| int_set(nums).contains(y) implies int_set(init).insert(x).contains(y) by {
                let i = choose|i: int| 0 <= i < nums.len() && nums[i] as int == y;
                if i < init.len() {
                    assert(init[i] == nums[i]);
                }
            }
            assert forall|y: int| int_set(init).insert(x).contains(y) implies int_set(nums).contains(y) by {
                if y != x {
                    let i = choose|i: int| 0 <= i < init.len() && init[i] as int == y;
                    assert(nums[i] == init[i]);
                } else {
                    assert(nums[nums.len() - 1] as int == x);
                }
            }
        }
        assert(!int_set(init).contains(x)) by {
            if int_set(init).contains(x) {
                let i = choose|i: int| 0 <= i < init.len() && init[i] as int == x;
                assert(nums[i] == nums[nums.len() - 1]);
            }
        }
    }
}

/// Fewer distinct numbers than `[lo, hi)` holds cannot cover it.
proof fn lemma_range_not_covered(nums: Seq<u64>, lo: int, hi: int)
    requires
        nums.no_duplicates(),
        lo <= hi,
        nums.len() < hi - lo,
    ensures
        exists|c: int| lo <= c < hi && !int_set(nums).contains(c),
{
    lemma_int_set_len(nums);
    lemma_int_range(lo, hi);
    if set_int_range(lo, hi).subset_of(int_set(nums)) {
        lemma_len_subset(set_int_range(lo, hi), int_set(nums));
    }
}

/// A user number in `[USER_NUMBER_LOW, USER_NUMBER_HIGH)` that `nums` does not
/// hold: a random draw when one of a few draws is free, the lowest free one
/// otherwise.
fn fresh_user_number(taken: &HashSet<u64>, Ghost(nums): Ghost<Seq<u64>>) -> (r: u64)
    requires
        nums.no_duplicates(),
        nums.len() < USER_NUMBER_HIGH - USER_NUMBER_LOW,
        forall|x: u64| taken@.contains(x) <==> nums.contains(x),
    ensures
        USER_NUMBER_LOW <= r < USER_NUMBER_HIGH,
        !nums.contains(r),
{
    let mut attempt: u64 = 0;
    while attempt < USER_NUMBER_DRAWS
        invariant
            attempt <= USER_NUMBER_DRAWS,
            forall|x: u64| taken@.contains(x) <==> nums.contains(x),
        decreases USER_NUMBER_DRAWS - attempt,
    {
        let candidate = random_in(USER_NUMBER_LOW, USER_NUMBER_HIGH);
        if !taken.contains(&candidate) {
            return candidate;
        }
        attempt = attempt + 1;
    }
    let mut c: u64 = USER_NUMBER_LOW;
    while c < USER_NUMBER_HIGH && taken.contains(&c)
        invariant
            USER_NUMBER_LOW <= c <= USER_NUMBER_HIGH,
            forall|x: u64| taken@.contains(x) <==> nums.contains(x),
            forall|x: int| USER_NUMBER_LOW <= x < c ==> int_set(nums).contains(x),
        decreases USER_NUMBER_HIGH - c,
    {
        proof {
            assert(nums.contains(c));
            let i = choose|i: int| 0 <= i < nums.len() && nums[i] == c;
            assert(int_set(nums).contains(c as int));
        }
        c = c + 1;
    }
    if c == USER_NUMBER_HIGH {
        proof {
            lemma_range_not_covered(nums, USER_NUMBER_LOW as int, USER_NUMBER_HIGH as int);
        }
    }
    c
}

impl LoadTester {
    /// Total number of scenarios: every user runs `concurrent_requests` of them.
    pub open spec fn total_scenarios_spec(&self) -> nat {
        (self.user_count * self.concurrent_requests) as nat
    }

    pub open spec fn wf(&self) -> bool {
        self.user_count * self.concurrent_requests <= usize::MAX
    }

    pub fn new(
        user_count: usize,
        concurrent_requests: usize,
        endpoints: Endpoints,
        dry_run: bool,
        verbose: bool,
        rampup_seconds: u64,
    ) -> (r: LoadTester)
        requires
            user_count * concurrent_requests <= usize::MAX,
        ensures
            r.wf(),
            r.user_count == user_count,
            r.concurrent_requests == concurrent_requests,
            r.endpoints == endpoints,
            r.dry_run == dry_run,
            r.verbose == verbose,
            r.rampup_seconds == rampup_seconds,
    {
        LoadTester { user_count, concurrent_requests, endpoints, dry_run, verbose, rampup_seconds }
    }

    pub fn total_scenarios(&self) -> (r: usize)
        requires
            self.wf(),
        ensures
            r == self.total_scenarios_spec(),
    {
        self.user_count * self.concurrent_requests
    }

    /// Ramp-up when a ramp-up period is configured, immediate otherwise.
    pub fn mode(&self) -> (r: RunMode)
        ensures
            r == (if self.rampup_seconds > 0 {
                RunMode::RampUp
            } else {
                RunMode::Immediate
            }),
    {
        if self.rampup_seconds > 0 {
            RunMode::RampUp
        } else {
            RunMode::Immediate
        }
    }

    /// `user_count` distinct user ids, each `user` followed by a five-digit
    /// number drawn at random.
    pub fn generate_users(&self) -> (r: Vec<String>)
        requires
            self.user_count <= USER_NUMBER_HIGH - USER_NUMBER_LOW,
        ensures
            r@.len() == self.user_count,
            forall|i: int, j: int| 0 <= i < j < r@.len() ==> (#[trigger] r@[i])@ != (#[trigger] r@[j])@,
            forall|i: int| 0 <= i < r@.len() ==> is_user_id((#[trigger] r@[i])@),
    {
        let mut taken: HashSet<u64> = HashSet::new();
        let ghost mut nums: Seq<u64> = Seq::empty();
        let mut ids: Vec<String> = Vec::new();
        while ids.len() < self.user_count
            invariant
                self.user_count <= USER_NUMBER_HIGH - USER_NUMBER_LOW,
                forall|x: u64| taken@.contains(x) <==> nums.contains(x),
                nums.len() == ids@.len() <= self.user_count,
                nums.no_duplicates(),
                forall|i: int|
                    0 <= i < nums.len() ==> USER_NUMBER_LOW <= #[trigger] nums[i] < USER_NUMBER_HIGH,
                forall|i: int| 0 <= i < ids@.len() ==> (#[trigger] ids@[i])@ == user_id_text(nums[i] as nat),
            decreases self.user_count - ids@.len(),
        {
            let n = fresh_user_number(&taken, Ghost(nums));
            let id = with_padded_number("user", n, 5);
            let ghost old_nums = nums;
            let ghost old_taken = taken@;
            taken.insert(n);
            proof {
                assert(taken@ == old_taken.insert(n));
                nums = nums.push(n);
                assert forall|x: u64| taken@.contains(x) <==> nums.contains(x) by {
                    if x == n {
                        assert(nums[nums.len() - 1] == n);
                    } else {
                        if nums.contains(x) {
                            let i = choose|i: int| 0 <= i < nums.len() && nums[i] == x;
                            assert(i < old_nums.len());
                            assert(old_nums[i] == x);
                            assert(old_nums.contains(x));
                        }
                        if old_nums.contains(x) {
                            let i = choose|i: int| 0 <= i < old_nums.len() && old_nums[i] == x;
                            assert(nums[i] == x);
                            assert(nums.contains(x));
                        }
                        assert(taken@.contains(x) == old_taken.contains(x));
                    }
                }
            }
            ids.push(id);
            proof {
                assert forall|i: int, j: int|
                    0 <= i < nums.len() && 0 <= j < nums.len() && i != j implies nums[i] != nums[j] by {
                    if i == old_nums.len() as int {
                        assert(old_nums[j] == nums[j]);
                        assert(old_nums.contains(nums[j]));
                    } else if j == old_nums.len() as int {
                        assert(old_nums[i] == nums[i]);
                        assert(old_nums.contains(nums[i]));
                    } else {
                        assert(old_nums[i] == nums[i] && old_nums[j] == nums[j]);
                    }
                }
            }
        }
        proof {
            reveal_strlit("user");
            assert forall|i: int, j: int| 0 <= i < j < ids@.len() implies (#[trigger] ids@[i])@
                != (#[trigger] ids@[j])@ by {
                if ids@[i]@ == ids@[j]@ {
                    let a = nums[i] as nat;
                    let b = nums[j] as nat;
                    assert(user_id_text(a).subrange(4, user_id_text(a).len() as int) =~= padded_decimal(a, 5));
                    assert(user_id_text(b).subrange(4, user_id_text(b).len() as int) =~= padded_decimal(b, 5));
                    lemma_padded_decimal_injective(a, b, 5);
                }
            }
            assert forall|i: int| 0 <= i < ids@.len() implies is_user_id((#[trigger] ids@[i])@) by {
                assert(USER_NUMBER_LOW <= nums[i] < USER_NUMBER_HIGH);
                assert(ids@[i]@ == user_id_text(nums[i] as nat));
            }
        }
        ids
    }
}

/// The order scenarios start in: `rounds` rounds, each over every user in
/// order. Entry `i` is the index of the user of the `i`-th scenario.
pub fn scenario_order(user_count: usize, rounds: usize) -> (r: Vec<usize>)
    requires
        user_count * rounds <= usize::MAX,
    ensures
        r@.len() == user_count * rounds,
        forall|i: int| 0 <= i < r@.len() ==> #[trigger] r@[i] == i % (user_count as int),
{
    let mut order: Vec<usize> = Vec::new();
    let mut round: usize = 0;
    while round < rounds
        invariant
            round <= rounds,
            user_count * rounds <= usize::MAX,
            order@.len() == round * user_count,
            forall|i: int| 0 <= i < order@.len() ==> #[trigger] order@[i] == i % (user_count as int),
        decreases rounds - round,
    {
        let mut j: usize = 0;
        while j < user_count
            invariant
                j <= user_count,
                round < rounds,
                order@.len() == round * user_count + j,
                forall|i: int| 0 <= i < order@.len() ==> #[trigger] order@[i] == i % (user_count as int),
            decreases user_count - j,
        {
            proof {
                let p = round * user_count + j;
                assert(p % (user_count as int) == j) by (nonlinear_arith)
                    requires
                        p == round * user_count + j,
                        0 <= j < user_count,
                        round >= 0,
                ;
            }
            order.push(j);
            j = j + 1;
        }
        proof {
            assert((round + 1) * user_count == round * user_count + user_count) by (nonlinear_arith);
        }
        round = round + 1;
    }
    proof {
        assert(rounds * user_count == user_count * rounds) by (nonlinear_arith);
    }
    order
}

/// Milliseconds between two scenario starts when `total` starts are spread
/// over `rampup_seconds`.
pub open spec fn rampup_interval(rampup_seconds: nat, total: nat) -> nat {
    rampup_seconds * 1000 / total
}

/// Starts that are announced: all of them in verbose mode, otherwise the
/// first five and every tenth.
pub open spec fn announces(verbose: bool, number: nat) -> bool {
    verbose || number % 10 == 0 || number <= 5
}

/// Starts that report ramp-up progress: every hundredth, and every
/// fiftieth in runs of more than two hundred scenarios.
pub open spec fn is_milestone(number: nat, total: nat) -> bool {
    number % 100 == 0 || (number % 50 == 0 && total > 200)
}

/// When start `number` (counted from 1) begins, in milliseconds after the
/// first, when `total` starts are spread evenly over `period_ms`.
pub open spec fn start_offset(number: nat, total: nat, period_ms: nat) -> nat {
    ((number - 1) * period_ms / (total as int)) as nat
}

/// The pause after start `number`: up to the next start's offset, and none
/// after the last.
pub open spec fn pause_after(number: nat, total: nat, period_ms: nat) -> nat {
    if 1 <= number < total {
        (start_offset(number + 1, total, period_ms) - start_offset(number, total, period_ms)) as nat
    } else {
        0
    }
}

/// Total pause planned through start `n`.
pub open spec fn pauses_through(n: nat, total: nat, period_ms: nat) -> nat
    decreases n,
{
    if n == 0 {
        0
    } else {
        pauses_through((n - 1) as nat, total, period_ms) + pause_after(n, total, period_ms)
    }
}

proof fn lemma_floor_step(k: int, x: int, s: int)
    requires
        s > 0,
        x >= 0,
        k >= 1,
    ensures
        (k - 1) * x / s <= k * x / s,
        x / s <= k * x / s - (k - 1) * x / s <= x / s + 1,
        k <= s ==> k * x / s <= x,
{
    let a = k * x;
    let b = (k - 1) * x;
    assert(a == b + x) by (nonlinear_arith)
        requires
            a == k * x,
            b == (k - 1) * x,
    ;
    let qa = a / s;
    let qb = b / s;
    let i = x / s;
    assert(b >= 0) by (nonlinear_arith)
        requires
            b == (k - 1) * x,
            k >= 1,
            x >= 0,
    ;
    vstd::arithmetic::div_mod::lemma_fundamental_div_mod(a, s);
    vstd::arithmetic::div_mod::lemma_fundamental_div_mod(b, s);
    vstd::arithmetic::div_mod::lemma_fundamental_div_mod(x, s);
    vstd::arithmetic::div_mod::lemma_mod_pos_bound(a, s);
    vstd::arithmetic::div_mod::lemma_mod_pos_bound(b, s);
    vstd::arithmetic::div_mod::lemma_mod_pos_bound(x, s);
    assert(s * qb <= b < s * qb + s);
    assert(s * qa <= a < s * qa + s);
    assert(s * i <= x < s * i + s);
    assert(qa - qb >= i) by (nonlinear_arith)
        requires
            s * qa + s > a,
            s * qb <= b,
            a == b + x,
            s * i + s > x,
            s * i <= x,
            s > 0,
    ;
    assert(qa - qb <= i + 1) by (nonlinear_arith)
        requires
            s * qa <= a,
            s * qb + s > b,
            a == b + x,
            s * i + s > x,
            s > 0,
    ;
    assert(i >= 0) by (nonlinear_arith)
        requires
            s * i + s > x,
            x >= 0,
            s > 0,
    ;
    if k <= s {
        assert(a <= s * x) by (nonlinear_arith)
            requires
                a == k * x,
                k <= s,
                x >= 0,
        ;
        assert(qa <= x) by (nonlinear_arith)
            requires
                s * qa <= a,
                a <= s * x,
                s > 0,
        ;
    }
}

pub proof fn lemma_pauses_through(n: nat, total: nat, period_ms: nat)
    requires
        n < total,
    ensures
        pauses_through(n, total, period_ms) == start_offset(n + 1, total, period_ms),
    decreases n,
{
    if n > 0 {
        let m = (n - 1) as nat;
        lemma_pauses_through(m, total, period_ms);
        lemma_floor_step(n as int, period_ms as int, total as int);
    } else {
        assert(0 * period_ms == 0) by (nonlinear_arith);
    }
}

/// Each pause of a ramp-up is one interval of the period, give or take the
/// millisecond lost to rounding.
pub proof fn lemma_ramp_pause_is_one_interval(number: nat, total: nat, period_ms: nat)
    requires
        1 <= number < total,
    ensures
        period_ms / total <= pause_after(number, total, period_ms) <= period_ms / total + 1,
{
    lemma_floor_step(number as int, period_ms as int, total as int);
    lemma_floor_step((number + 1) as int, period_ms as int, total as int);
}

/// A ramp-up spreads its starts over the ramp-up period: the last start
/// comes `(total - 1) * period / total` milliseconds after the first,
/// rounded down, which is at most the period and misses it by at most one
/// interval and one millisecond.
pub proof fn lemma_ramp_spans_period(period_ms: nat, total: nat)
    requires
        total > 0,
    ensures
        pauses_through(total, total, period_ms) == start_offset(total, total, period_ms),
        start_offset(total, total, period_ms) == (total - 1) * period_ms / (total as int),
        pauses_through(total, total, period_ms) <= period_ms,
        period_ms <= pauses_through(total, total, period_ms) + period_ms / total + 1,
{
    lemma_pauses_through((total - 1) as nat, total, period_ms);
    assert(pauses_through(total, total, period_ms) == pauses_through((total - 1) as nat, total, period_ms));
    lemma_floor_step(total as int, period_ms as int, total as int);
    vstd::arithmetic::div_mod::lemma_div_multiples_vanish(period_ms as int, total as int);
}

/// One scenario start of a ramp-up.
#[derive(Debug, Clone, Copy, PartialEq, Eq, Structural)]
pub struct RampStart {
    /// Index of the user whose scenario starts.
    pub user_index: usize,
    /// Position of this start, counted from 1.
    pub number: usize,
    pub announce: bool,
    pub milestone: bool,
    /// Share of the scenarios started so far, in tenths of a percent.
    pub percent_tenths: u64,
    /// Milliseconds to wait before the next start.
    pub pause_ms: u64,
}

/// The staggered starts of a ramp-up run.
#[derive(Debug, Clone, Copy, PartialEq, Eq, Structural)]
pub struct RampSchedule {
    pub user_count: usize,
    pub total: usize,
    /// Milliseconds over which the starts are spread.
    pub period_ms: u64,
    /// Nominal milliseconds between two starts.
    pub interval_ms: u64,
    pub verbose: bool,
    /// Starts handed out so far.
    pub started: usize,
}

impl RampSchedule {
    pub open spec fn wf(&self) -> bool {
        &&& self.started <= self.total
        &&& self.total > 0 ==> self.user_count > 0
    }

    /// The next start, or `None` once every scenario has started.
    pub fn next_start(&mut self) -> (r: Option<RampStart>)
        requires
            old(self).wf(),
        ensures
            final(self).wf(),
            final(self).user_count == old(self).user_count,
            final(self).total == old(self).total,
            final(self).interval_ms == old(self).interval_ms,
            final(self).period_ms == old(self).period_ms,
            final(self).verbose == old(self).verbose,
            r is None <==> old(self).started == old(self).total,
            r is None ==> final(self).started == old(self).started,
            r matches Some(s) ==> {
                &&& final(self).started == old(self).started + 1
                &&& s.number == final(self).started
                &&& s.user_index == old(self).started % old(self).user_count
                &&& s.announce == announces(old(self).verbose, s.number as nat)
                &&& s.milestone == is_milestone(s.number as nat, old(self).total as nat)
                &&& s.percent_tenths == scaled_ratio(s.number as nat, old(self).total as nat, 1000)
                &&& s.pause_ms == pause_after(
                    s.number as nat,
                    old(self).total as nat,
                    old(self).period_ms as nat,
                )
            },
    {
        if self.started >= self.total {
            return None;
        }
        let user_index = self.started % self.user_count;
        self.started = self.started + 1;
        let number = self.started;
        let announce = self.verbose || number % 10 == 0 || number <= 5;
        let milestone = number % 100 == 0 || (number % 50 == 0 && self.total > 200);
        proof {
            lemma_scaled_ratio_bound(number as nat, self.total as nat, 1000);
        }
        let percent_tenths = rounded_ratio(number as u64, self.total as u64, 1000) as u64;
        let pause_ms: u64 = if number < self.total {
            let x = self.period_ms as u128;
            proof {
                assert(number as int * x <= 340282366920938463463374607431768211455) by (
                nonlinear_arith)
                    requires
                        number <= 18446744073709551615,
                        x <= 18446744073709551615,
                ;
                assert((number - 1) as int * x <= number as int * x) by (nonlinear_arith)
                    requires
                        number >= 1,
                        x >= 0,
                ;
                lemma_floor_step(number as int, x as int, self.total as int);
            }
            let before = ((number - 1) as u128) * x / (self.total as u128);
            let after = (number as u128) * x / (self.total as u128);
            (after - before) as u64
        } else {
            0
        };
        Some(RampStart { user_index, number, announce, milestone, percent_tenths, pause_ms })
    }
}

impl LoadTester {
    /// Milliseconds between two scenario starts during ramp-up.
    pub fn rampup_interval_ms(&self) -> (r: u64)
        requires
            self.wf(),
            self.total_scenarios_spec() > 0,
            self.rampup_seconds * 1000 <= u64::MAX,
        ensures
            r == rampup_interval(self.rampup_seconds as nat, self.total_scenarios_spec()),
    {
        let total = self.total_scenarios() as u64;
        (self.rampup_seconds * 1000) / total
    }

    /// The ramp-up schedule of this run, before its first start.
    pub fn ramp_schedule(&self) -> (r: RampSchedule)
        requires
            self.wf(),
            self.total_scenarios_spec() > 0,
            self.rampup_seconds * 1000 <= u64::MAX,
        ensures
            r.wf(),
            r.started == 0,
            r.user_count == self.user_count,
            r.total == self.total_scenarios_spec(),
            r.interval_ms == rampup_interval(self.rampup_seconds as nat, self.total_scenarios_spec()),
            r.period_ms == self.rampup_seconds * 1000,
            r.verbose == self.verbose,
    {
        let total = self.total_scenarios();
        proof {
            assert(self.user_count > 0) by (nonlinear_arith)
                requires
                    self.user_count * self.concurrent_requests > 0,
            ;
        }
        RampSchedule {
            user_count: self.user_count,
            total,
            period_ms: self.rampup_seconds * 1000,
            interval_ms: self.rampup_interval_ms(),
            verbose: self.verbose,
            started: 0,
        }
    }

    /// Runs the scenario of `user_id` without network traffic: every step is
    /// recorded as a dry-run outcome.
    pub fn run_dry_scenario(&self, user_id: String, choices: ScenarioChoices) -> (r: UserScenarioResult)
        requires
            choices.wf(),
        ensures
            r.wf(),
            r.success,
            r.user_id == user_id,
            r.total_time_ms == 0,
            r.requests@.len() == SCENARIO_STEPS,
            forall|k: int|
                0 <= k < r.requests@.len() ==> {
                    &&& (#[trigger] r.requests@[k]).success
                    &&& r.requests@[k].status == 200
                    &&& r.requests@[k].response_time_ms == 0
                    &&& r.requests@[k].error is None
                    &&& r.requests@[k].user_id@ == user_id@
                    &&& r.requests@[k].method@ == crate::types::method_name(planned_method(k as nat))
                },
            exists|adopted: Seq<String>|
                adopted.len() == 3 && #[trigger] follows_plan(
                    r.requests@,
                    user_id@,
                    self.endpoints,
                    choices,
                    adopted,
                ),
    {
        let mut run = ScenarioRun::new(user_id, &self.endpoints, choices);
        let ghost uid = run.user_id;
        let mut k: usize = 0;
        while k < SCENARIO_STEPS
            invariant
                run.wf(),
                run.step() == k,
                run.user_id == uid,
                run.endpoints == self.endpoints,
                run.choices == choices,
                forall|j: int|
                    0 <= j < run.requests@.len() ==> {
                        &&& (#[trigger] run.requests@[j]).success
                        &&& run.requests@[j].status == 200
                        &&& run.requests@[j].response_time_ms == 0
                        &&& run.requests@[j].error is None
                        &&& run.requests@[j].user_id@ == uid@
                        &&& run.requests@[j].method@ == crate::types::method_name(planned_method(j as nat))
                    },
            decreases SCENARIO_STEPS - k,
        {
            let planned = run.next_request();
            if let Some(p) = planned {
                let outcome = dry_run_outcome(p.method, p.url.as_str(), run.user_id.as_str());
                run.record(outcome, None);
            }
            k = k + 1;
        }
        let ghost adopted = run.adopted@;
        let ghost ch = run.choices;
        let ghost ep = run.endpoints;
        let r = run.finish(0);
        proof {
            assert(crate::types::all_succeeded(r.requests@));
            assert(follows_plan(r.requests@, uid@, ep, ch, adopted));
        }
        r
    }

    /// Runs every scenario of this configuration without network traffic,
    /// in start order: `concurrent_requests` rounds over `users`.
    pub fn run_dry(&self, users: &Vec<String>) -> (r: Vec<UserScenarioResult>)
        requires
            self.wf(),
            users@.len() == self.user_count,
        ensures
            r@.len() == self.total_scenarios_spec(),
            forall|i: int|
                0 <= i < r@.len() ==> {
                    &&& (#[trigger] r@[i]).wf()
                    &&& r@[i].success
                    &&& r@[i].requests@.len() == SCENARIO_STEPS
                    &&& r@[i].user_id == users@[i % (self.user_count as int)]
                },
    {
        let order = scenario_order(self.user_count, self.concurrent_requests);
        let mut results: Vec<UserScenarioResult> = Vec::new();
        let mut i: usize = 0;
        while i < order.len()
            invariant
                i <= order@.len(),
                order@.len() == self.user_count * self.concurrent_requests,
                users@.len() == self.user_count,
                forall|j: int| 0 <= j < order@.len() ==> #[trigger] order@[j] == j % (self.user_count as int),
                results@.len() == i,
                forall|j: int|
                    0 <= j < results@.len() ==> {
                        &&& (#[trigger] results@[j]).wf()
                        &&& results@[j].success
                        &&& results@[j].requests@.len() == SCENARIO_STEPS
                        &&& results@[j].user_id == users@[j % (self.user_count as int)]
                    },
            decreases order@.len() - i,
        {
            let u = order[i];
            proof {
                assert(0 <= u < self.user_count) by (nonlinear_arith)
                    requires
                        u == i as int % (self.user_count as int),
                        0 <= i < self.user_count * self.concurrent_requests,
                ;
            }
            let r = self.run_dry_scenario(users[u].clone(), ScenarioChoices::draw());
            results.push(r);
            i = i + 1;
        }
        results
    }
}

} // verus!
