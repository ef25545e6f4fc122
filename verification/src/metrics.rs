//! The counters of the gateway and the report on them.

use vstd::prelude::*;

use crate::constants::TOKENS_PER_HIT;
use crate::number::{
    is_count, is_deterministic, is_exact, is_fixed, is_product, is_quotient, is_sum, tells_positive, Number,
};

verus! {

/// How many requests were answered, and how long that took, added up in `N`.
#[derive(Debug)]
pub struct MetricsData<N> {
    pub total_requests: u64,
    pub cache_hits: u64,
    pub cache_misses: u64,
    pub total_hit_latency_ms: N,
    pub total_miss_latency_ms: N,
}

impl<N> MetricsData<N> {
    /// Each answered request is counted as a hit or as a miss.
    pub open spec fn balanced(self) -> bool {
        self.total_requests == self.cache_hits + self.cache_misses
    }
}

impl<N: Number> Default for MetricsData<N> {
    /// No request has been answered yet.
    fn default() -> (metrics: MetricsData<N>)
        ensures
            metrics.total_requests == 0,
            metrics.cache_hits == 0,
            metrics.cache_misses == 0,
            is_count(0, metrics.total_hit_latency_ms),
            is_count(0, metrics.total_miss_latency_ms),
            call_ensures(N::from_count, (0u64,), metrics.total_hit_latency_ms),
            call_ensures(N::from_count, (0u64,), metrics.total_miss_latency_ms),
            metrics.balanced(),
    {
        MetricsData {
            total_requests: 0,
            cache_hits: 0,
            cache_misses: 0,
            total_hit_latency_ms: N::from_count(0),
            total_miss_latency_ms: N::from_count(0),
        }
    }
}

/// `after` can be `before` with one more hit of the given latency.
pub open spec fn counts_hit<N: Number>(
    before: MetricsData<N>,
    latency_ms: N,
    after: MetricsData<N>,
) -> bool {
    &&& after.total_requests == before.total_requests + 1
    &&& after.cache_hits == before.cache_hits + 1
    &&& after.cache_misses == before.cache_misses
    &&& is_sum(before.total_hit_latency_ms, latency_ms, after.total_hit_latency_ms)
    &&& after.total_miss_latency_ms == before.total_miss_latency_ms
}

/// `after` can be `before` with one more miss of the given latency.
pub open spec fn counts_miss<N: Number>(
    before: MetricsData<N>,
    latency_ms: N,
    after: MetricsData<N>,
) -> bool {
    &&& after.total_requests == before.total_requests + 1
    &&& after.cache_hits == before.cache_hits
    &&& after.cache_misses == before.cache_misses + 1
    &&& after.total_hit_latency_ms == before.total_hit_latency_ms
    &&& is_sum(before.total_miss_latency_ms, latency_ms, after.total_miss_latency_ms)
}

/// Counts a request that was answered from the cache.
pub fn update_hit_metrics<N: Number>(metrics: &mut MetricsData<N>, latency_ms: N)
    requires
        old(metrics).total_requests < u64::MAX,
        old(metrics).cache_hits < u64::MAX,
    ensures
        counts_hit(*old(metrics), latency_ms, *final(metrics)),
        final(metrics).total_requests == old(metrics).total_requests + 1,
        final(metrics).cache_hits == old(metrics).cache_hits + 1,
        final(metrics).cache_misses == old(metrics).cache_misses,
        call_ensures(
            N::plus,
            (old(metrics).total_hit_latency_ms, latency_ms),
            final(metrics).total_hit_latency_ms,
        ),
        final(metrics).total_miss_latency_ms == old(metrics).total_miss_latency_ms,
{
    metrics.total_requests = metrics.total_requests + 1;
    metrics.cache_hits = metrics.cache_hits + 1;
    metrics.total_hit_latency_ms = metrics.total_hit_latency_ms.plus(latency_ms);
}

/// Counts a request whose answer had to be generated.
pub fn update_miss_metrics<N: Number>(metrics: &mut MetricsData<N>, latency_ms: N)
    requires
        old(metrics).total_requests < u64::MAX,
        old(metrics).cache_misses < u64::MAX,
    ensures
        counts_miss(*old(metrics), latency_ms, *final(metrics)),
        final(metrics).total_requests == old(metrics).total_requests + 1,
        final(metrics).cache_hits == old(metrics).cache_hits,
        final(metrics).cache_misses == old(metrics).cache_misses + 1,
        final(metrics).total_hit_latency_ms == old(metrics).total_hit_latency_ms,
        call_ensures(
            N::plus,
            (old(metrics).total_miss_latency_ms, latency_ms),
            final(metrics).total_miss_latency_ms,
        ),
{
    metrics.total_requests = metrics.total_requests + 1;
    metrics.cache_misses = metrics.cache_misses + 1;
    metrics.total_miss_latency_ms = metrics.total_miss_latency_ms.plus(latency_ms);
}

/// The report on the counters.
#[derive(Debug)]
pub struct MetricsReport<T> {
    pub total_requests: u64,
    pub cache_hits: u64,
    pub cache_misses: u64,
    pub hit_rate_percent: String,
    pub avg_hit_latency_ms: String,
    pub avg_miss_latency_ms: String,
    pub speedup_factor: String,
    pub cache_score_threshold: T,
    pub estimated_tokens_saved: u64,
    pub estimated_cost_saved_usd: String,
}

/// `rate` can be the share of the hits among all requests, in percent; zero before the first one.
pub open spec fn is_hit_rate<N: Number>(metrics: MetricsData<N>, rate: N) -> bool {
    if metrics.total_requests > 0 {
        exists|hits: N, total: N, share: N, hundred: N|
            {
                &&& is_count(metrics.cache_hits, hits)
                &&& is_count(metrics.total_requests, total)
                &&& #[trigger] is_quotient(hits, total, share)
                &&& is_count(100, hundred)
                &&& #[trigger] is_product(share, hundred, rate)
            }
    } else {
        is_count(0, rate)
    }
}

/// `average` can be `total` over `count`; zero where nothing was counted.
pub open spec fn is_average<N: Number>(total: N, count: u64, average: N) -> bool {
    if count > 0 {
        exists|divisor: N|
            is_count(count, divisor) && #[trigger] is_quotient(total, divisor, average)
    } else {
        is_count(0, average)
    }
}

/// `text` can say how many times longer a miss takes than a hit, if both averages are above zero.
pub open spec fn is_speedup<N: Number>(avg_hit_ms: N, avg_miss_ms: N, text: Seq<char>) -> bool {
    ||| {
        &&& tells_positive(avg_hit_ms, true)
        &&& tells_positive(avg_miss_ms, true)
        &&& exists|factor: N, figure: Seq<char>|
            {
                &&& is_quotient(avg_miss_ms, avg_hit_ms, factor)
                &&& #[trigger] is_fixed(factor, 2, figure)
                &&& text == figure + "x"@
            }
    }
    ||| {
        &&& tells_positive(avg_hit_ms, false) || tells_positive(avg_miss_ms, false)
        &&& text == "N/A"@
    }
}

/// `cost` can be what the saved tokens would have cost: two millionths of a dollar each.
pub open spec fn is_saved_cost<N: Number>(tokens: u64, cost: N) -> bool {
    exists|amount: N, two: N, million: N, price: N|
        {
            &&& is_count(tokens, amount)
            &&& is_count(2, two)
            &&& is_count(1000000, million)
            &&& #[trigger] is_quotient(two, million, price)
            &&& #[trigger] is_product(amount, price, cost)
        }
}

/// `report` can be the report on `metrics`.
pub open spec fn is_report<N: Number, T>(
    metrics: MetricsData<N>,
    cache_score_threshold: T,
    report: MetricsReport<T>,
) -> bool {
    &&& report.total_requests == metrics.total_requests
    &&& report.cache_hits == metrics.cache_hits
    &&& report.cache_misses == metrics.cache_misses
    &&& report.cache_score_threshold == cache_score_threshold
    &&& report.estimated_tokens_saved == metrics.cache_hits * TOKENS_PER_HIT
    &&& exists|rate: N|
        #[trigger] is_hit_rate(metrics, rate) && is_fixed(rate, 1, report.hit_rate_percent@)
    &&& exists|avg_hit_ms: N, avg_miss_ms: N|
        {
            &&& #[trigger] is_average(
                metrics.total_hit_latency_ms,
                metrics.cache_hits,
                avg_hit_ms,
            )
            &&& #[trigger] is_average(
                metrics.total_miss_latency_ms,
                metrics.cache_misses,
                avg_miss_ms,
            )
            &&& is_fixed(avg_hit_ms, 2, report.avg_hit_latency_ms@)
            &&& is_fixed(avg_miss_ms, 2, report.avg_miss_latency_ms@)
            &&& is_speedup(avg_hit_ms, avg_miss_ms, report.speedup_factor@)
        }
    &&& exists|cost: N|
        #[trigger] is_saved_cost(report.estimated_tokens_saved, cost) && is_fixed(
            cost,
            6,
            report.estimated_cost_saved_usd@,
        )
}

fn hit_rate<N: Number>(metrics: &MetricsData<N>) -> (rate: N)
    ensures
        is_hit_rate(*metrics, rate),
{
    if metrics.total_requests > 0 {
        let hits = N::from_count(metrics.cache_hits);
        let total = N::from_count(metrics.total_requests);
        let share = hits.over(total);
        let hundred = N::from_count(100);
        let rate = share.times(hundred);
        assert(is_quotient(hits, total, share) && is_product(share, hundred, rate));
        rate
    } else {
        N::from_count(0)
    }
}

fn average<N: Number>(total: N, count: u64) -> (mean: N)
    ensures
        is_average(total, count, mean),
{
    if count > 0 {
        let divisor = N::from_count(count);
        let mean = total.over(divisor);
        assert(is_quotient(total, divisor, mean));
        mean
    } else {
        N::from_count(0)
    }
}

fn speedup<N: Number>(avg_hit_ms: N, avg_miss_ms: N) -> (text: String)
    ensures
        is_speedup(avg_hit_ms, avg_miss_ms, text@),
{
    if avg_hit_ms.is_positive() && avg_miss_ms.is_positive() {
        let factor = avg_miss_ms.over(avg_hit_ms);
        let mut text = factor.to_fixed(2);
        let ghost figure = text@;
        assert(is_fixed(factor, 2, figure));
        text.append("x");
        text
    } else {
        "N/A".to_string()
    }
}

fn saved_cost<N: Number>(tokens: u64) -> (cost: N)
    ensures
        is_saved_cost(tokens, cost),
{
    let amount = N::from_count(tokens);
    let two = N::from_count(2);
    let million = N::from_count(1000000);
    let price = two.over(million);
    let cost = amount.times(price);
    assert(is_quotient(two, million, price) && is_product(amount, price, cost));
    cost
}

/// Reports on the counters.
pub fn handle_metrics<N: Number, T>(metrics: &MetricsData<N>, cache_score_threshold: T) -> (report:
    MetricsReport<T>)
    requires
        metrics.cache_hits * TOKENS_PER_HIT <= u64::MAX,
    ensures
        is_report(*metrics, cache_score_threshold, report),
{
    let rate = hit_rate(metrics);
    let avg_hit_ms = average(metrics.total_hit_latency_ms, metrics.cache_hits);
    let avg_miss_ms = average(metrics.total_miss_latency_ms, metrics.cache_misses);
    let estimated_tokens_saved: u64 = metrics.cache_hits * TOKENS_PER_HIT;
    let cost: N = saved_cost(estimated_tokens_saved);
    MetricsReport {
        total_requests: metrics.total_requests,
        cache_hits: metrics.cache_hits,
        cache_misses: metrics.cache_misses,
        hit_rate_percent: rate.to_fixed(1),
        avg_hit_latency_ms: avg_hit_ms.to_fixed(2),
        avg_miss_latency_ms: avg_miss_ms.to_fixed(2),
        speedup_factor: speedup(avg_hit_ms, avg_miss_ms),
        cache_score_threshold,
        estimated_tokens_saved,
        estimated_cost_saved_usd: cost.to_fixed(6),
    }
}

/// Counting a hit or a miss keeps the requests equal to the hits and the misses together, and
/// makes them one more.
pub proof fn law_counting_keeps_the_balance<N: Number>(
    before: MetricsData<N>,
    latency_ms: N,
    after: MetricsData<N>,
)
    requires
        before.balanced(),
        counts_hit(before, latency_ms, after) || counts_miss(before, latency_ms, after),
    ensures
        after.balanced(),
        after.total_requests == before.total_requests + 1,
{
}

/// In a report on balanced counters the hits and the misses make up the requests.
pub proof fn law_reported_counts_are_balanced<N: Number, T>(
    metrics: MetricsData<N>,
    cache_score_threshold: T,
    report: MetricsReport<T>,
)
    requires
        metrics.balanced(),
        is_report(metrics, cache_score_threshold, report),
    ensures
        report.total_requests == report.cache_hits + report.cache_misses,
{
}

/// One more hit adds the tokens of one hit to the reported saving, and a miss adds nothing.
pub proof fn law_each_hit_saves_the_same<N: Number, T>(
    before: MetricsData<N>,
    latency_ms: N,
    after: MetricsData<N>,
    cache_score_threshold: T,
    earlier: MetricsReport<T>,
    later: MetricsReport<T>,
)
    requires
        is_report(before, cache_score_threshold, earlier),
        is_report(after, cache_score_threshold, later),
    ensures
        counts_hit(before, latency_ms, after) ==> later.estimated_tokens_saved
            == earlier.estimated_tokens_saved + TOKENS_PER_HIT,
        counts_miss(before, latency_ms, after) ==> later.estimated_tokens_saved
            == earlier.estimated_tokens_saved,
{
}

/// How many of the answers were `cached`, or not.
pub open spec fn answers_with(answers: Seq<bool>, cached: bool) -> nat
    decreases answers.len(),
{
    if answers.len() == 0 {
        0
    } else {
        answers_with(answers.drop_last(), cached) + if answers.last() == cached {
            1nat
        } else {
            0nat
        }
    }
}

/// From an empty start, every answer is counted once: those from the cache as hits, the others
/// as misses.
pub proof fn law_every_answer_is_counted_once<N: Number>(
    states: Seq<MetricsData<N>>,
    answers: Seq<bool>,
    latencies: Seq<N>,
)
    requires
        states.len() == answers.len() + 1,
        latencies.len() == answers.len(),
        states[0].total_requests == 0,
        states[0].cache_hits == 0,
        states[0].cache_misses == 0,
        forall|i: int|
            #![trigger answers[i]]
            0 <= i < answers.len() ==> if answers[i] {
                counts_hit(states[i], latencies[i], states[i + 1])
            } else {
                counts_miss(states[i], latencies[i], states[i + 1])
            },
    ensures
        states.last().total_requests == answers.len(),
        states.last().cache_hits == answers_with(answers, true),
        states.last().cache_misses == answers_with(answers, false),
    decreases answers.len(),
{
    if answers.len() > 0 {
        let n = answers.len() - 1;
        assert forall|i: int|
            #![trigger answers.drop_last()[i]]
            0 <= i < n implies if answers.drop_last()[i] {
            counts_hit(states.drop_last()[i], latencies.drop_last()[i], states.drop_last()[i + 1])
        } else {
            counts_miss(states.drop_last()[i], latencies.drop_last()[i], states.drop_last()[i + 1])
        } by {
            assert(answers[i] == answers.drop_last()[i]);
        }
        law_every_answer_is_counted_once(
            states.drop_last(),
            answers.drop_last(),
            latencies.drop_last(),
        );
        assert(answers[n] == answers.last());
    }
}

/// A hit and a miss can be counted in either order: what can come of the one order can come of
/// the other.
pub proof fn law_a_hit_and_a_miss_commute<N: Number>(
    before: MetricsData<N>,
    hit_ms: N,
    miss_ms: N,
    after: MetricsData<N>,
)
    ensures
        (exists|between: MetricsData<N>| #[trigger]
            counts_hit(before, hit_ms, between) && counts_miss(between, miss_ms, after)) <==> (
        exists|between: MetricsData<N>| #[trigger]
            counts_miss(before, miss_ms, between) && counts_hit(between, hit_ms, after)),
{
    if exists|between: MetricsData<N>| #[trigger]
        counts_hit(before, hit_ms, between) && counts_miss(between, miss_ms, after) {
        let hit = choose|between: MetricsData<N>| #[trigger]
            counts_hit(before, hit_ms, between) && counts_miss(between, miss_ms, after);
        let missed = MetricsData {
            total_requests: hit.total_requests,
            cache_hits: before.cache_hits,
            cache_misses: after.cache_misses,
            total_hit_latency_ms: before.total_hit_latency_ms,
            total_miss_latency_ms: after.total_miss_latency_ms,
        };
        assert(counts_miss(before, miss_ms, missed) && counts_hit(missed, hit_ms, after));
    }
    if exists|between: MetricsData<N>| #[trigger]
        counts_miss(before, miss_ms, between) && counts_hit(between, hit_ms, after) {
        let missed = choose|between: MetricsData<N>| #[trigger]
            counts_miss(before, miss_ms, between) && counts_hit(between, hit_ms, after);
        let hit = MetricsData {
            total_requests: missed.total_requests,
            cache_hits: after.cache_hits,
            cache_misses: before.cache_misses,
            total_hit_latency_ms: after.total_hit_latency_ms,
            total_miss_latency_ms: before.total_miss_latency_ms,
        };
        assert(counts_hit(before, hit_ms, hit) && counts_miss(hit, miss_ms, after));
    }
}

/// With deterministic additions, a hit and a miss lead to the same counters in either order.
pub proof fn law_the_order_of_counting_makes_no_difference<N: Number>(
    before: MetricsData<N>,
    hit_ms: N,
    miss_ms: N,
    hit: MetricsData<N>,
    hit_then_missed: MetricsData<N>,
    missed: MetricsData<N>,
    missed_then_hit: MetricsData<N>,
)
    requires
        is_deterministic::<N>(),
        counts_hit(before, hit_ms, hit),
        counts_miss(hit, miss_ms, hit_then_missed),
        counts_miss(before, miss_ms, missed),
        counts_hit(missed, hit_ms, missed_then_hit),
    ensures
        hit_then_missed == missed_then_hit,
{
}

proof fn lemma_one_hit_rate<N: Number>(metrics: MetricsData<N>, rate: N, other: N)
    requires
        is_deterministic::<N>(),
        is_hit_rate(metrics, rate),
        is_hit_rate(metrics, other),
    ensures
        rate == other,
{
}

proof fn lemma_one_average<N: Number>(total: N, count: u64, average: N, other: N)
    requires
        is_deterministic::<N>(),
        is_average(total, count, average),
        is_average(total, count, other),
    ensures
        average == other,
{
}

proof fn lemma_one_speedup<N: Number>(
    avg_hit_ms: N,
    avg_miss_ms: N,
    text: Seq<char>,
    other: Seq<char>,
)
    requires
        is_deterministic::<N>(),
        is_speedup(avg_hit_ms, avg_miss_ms, text),
        is_speedup(avg_hit_ms, avg_miss_ms, other),
    ensures
        text == other,
{
}

proof fn lemma_one_saved_cost<N: Number>(tokens: u64, cost: N, other: N)
    requires
        is_deterministic::<N>(),
        is_saved_cost(tokens, cost),
        is_saved_cost(tokens, other),
    ensures
        cost == other,
{
}

/// With deterministic arithmetic, two reports on the same counters say the same.
pub proof fn law_reports_on_the_same_counters_agree<N: Number, T>(
    metrics: MetricsData<N>,
    cache_score_threshold: T,
    first: MetricsReport<T>,
    second: MetricsReport<T>,
)
    requires
        is_deterministic::<N>(),
        is_report(metrics, cache_score_threshold, first),
        is_report(metrics, cache_score_threshold, second),
    ensures
        first.total_requests == second.total_requests,
        first.cache_hits == second.cache_hits,
        first.cache_misses == second.cache_misses,
        first.hit_rate_percent@ == second.hit_rate_percent@,
        first.avg_hit_latency_ms@ == second.avg_hit_latency_ms@,
        first.avg_miss_latency_ms@ == second.avg_miss_latency_ms@,
        first.speedup_factor@ == second.speedup_factor@,
        first.cache_score_threshold == second.cache_score_threshold,
        first.estimated_tokens_saved == second.estimated_tokens_saved,
        first.estimated_cost_saved_usd@ == second.estimated_cost_saved_usd@,
{
    assert forall|rate: N, other: N| #[trigger]
        is_hit_rate(metrics, rate) && #[trigger] is_hit_rate(metrics, other) implies rate == other by {
        lemma_one_hit_rate(metrics, rate, other);
    }
    assert forall|total: N, count: u64, average: N, other: N| #[trigger]
        is_average(total, count, average) && #[trigger] is_average(
            total,
            count,
            other,
        ) implies average == other by {
        lemma_one_average(total, count, average, other);
    }
    assert forall|hit_ms: N, miss_ms: N, text: Seq<char>, other: Seq<char>| #[trigger]
        is_speedup(hit_ms, miss_ms, text) && #[trigger] is_speedup(
            hit_ms,
            miss_ms,
            other,
        ) implies text == other by {
        lemma_one_speedup(hit_ms, miss_ms, text, other);
    }
    assert forall|tokens: u64, cost: N, other: N| #[trigger]
        is_saved_cost(tokens, cost) && #[trigger] is_saved_cost(tokens, other) implies cost
        == other by {
        lemma_one_saved_cost(tokens, cost, other);
    }
}

/// Counting a hit adds one to the requests and to the hits and its latency to that of the hits,
/// and nothing to what is kept of the misses; counting a miss does the same the other way round.
pub proof fn law_counting_adds_the_latency_where_it_belongs<N: Number>(
    value: spec_fn(N) -> real,
    before: MetricsData<N>,
    latency_ms: N,
    after: MetricsData<N>,
)
    requires
        is_exact(value),
    ensures
        counts_hit(before, latency_ms, after) ==> {
            &&& after.total_requests == before.total_requests + 1
            &&& after.cache_hits == before.cache_hits + 1
            &&& after.cache_misses == before.cache_misses
            &&& value(after.total_hit_latency_ms) == value(before.total_hit_latency_ms) + value(
                latency_ms,
            )
            &&& after.total_miss_latency_ms == before.total_miss_latency_ms
        },
        counts_miss(before, latency_ms, after) ==> {
            &&& after.total_requests == before.total_requests + 1
            &&& after.cache_hits == before.cache_hits
            &&& after.cache_misses == before.cache_misses + 1
            &&& after.total_hit_latency_ms == before.total_hit_latency_ms
            &&& value(after.total_miss_latency_ms) == value(before.total_miss_latency_ms) + value(
                latency_ms,
            )
        },
{
}

/// A report says how many requests, hits and misses were counted and which threshold applies, and
/// counts the tokens of five hundred for each hit.
pub proof fn law_a_report_gives_the_counters<N: Number, T>(
    metrics: MetricsData<N>,
    cache_score_threshold: T,
    report: MetricsReport<T>,
)
    requires
        is_report(metrics, cache_score_threshold, report),
    ensures
        report.total_requests == metrics.total_requests,
        report.cache_hits == metrics.cache_hits,
        report.cache_misses == metrics.cache_misses,
        report.cache_score_threshold == cache_score_threshold,
        report.estimated_tokens_saved == 500 * metrics.cache_hits,
{
}

/// The reported hit rate is the hits over all requests, times a hundred, whatever the hits are;
/// it is zero where no request was counted.
pub proof fn law_the_hit_rate_is_hits_over_requests<N: Number, T>(
    metrics: MetricsData<N>,
    cache_score_threshold: T,
    report: MetricsReport<T>,
)
    requires
        is_report(metrics, cache_score_threshold, report),
    ensures
        metrics.total_requests > 0 ==> exists|
            hits: N,
            total: N,
            share: N,
            hundred: N,
            rate: N,
            text: String,
        |
            {
                &&& #[trigger] call_ensures(N::from_count, (metrics.cache_hits,), hits)
                &&& #[trigger] call_ensures(N::from_count, (metrics.total_requests,), total)
                &&& #[trigger] call_ensures(N::over, (hits, total), share)
                &&& call_ensures(N::from_count, (100u64,), hundred)
                &&& #[trigger] call_ensures(N::times, (share, hundred), rate)
                &&& #[trigger] call_ensures(N::to_fixed, (rate, 1usize), text)
                &&& report.hit_rate_percent@ == text@
            },
        metrics.total_requests == 0 ==> exists|rate: N, text: String|
            {
                &&& call_ensures(N::from_count, (0u64,), rate)
                &&& #[trigger] call_ensures(N::to_fixed, (rate, 1usize), text)
                &&& report.hit_rate_percent@ == text@
            },
{
    let rate = choose|rate: N| #[trigger]
        is_hit_rate(metrics, rate) && is_fixed(rate, 1, report.hit_rate_percent@);
    let text = choose|text: String|
        call_ensures(N::to_fixed, (rate, 1usize), text) && text@ == report.hit_rate_percent@;
    assert(call_ensures(N::to_fixed, (rate, 1usize), text));
    if metrics.total_requests > 0 {
        let (hits, total, share, hundred) = choose|hits: N, total: N, share: N, hundred: N|
            {
                &&& is_count(metrics.cache_hits, hits)
                &&& is_count(metrics.total_requests, total)
                &&& #[trigger] is_quotient(hits, total, share)
                &&& is_count(100, hundred)
                &&& #[trigger] is_product(share, hundred, rate)
            };
        assert(call_ensures(N::from_count, (metrics.cache_hits,), hits));
        assert(call_ensures(N::from_count, (metrics.total_requests,), total));
        assert(call_ensures(N::over, (hits, total), share));
        assert(call_ensures(N::times, (share, hundred), rate));
    }
}

/// With exact arithmetic, the reported hit rate times the requests is a hundred times the hits;
/// so it is zero without a hit, however many misses there are, and a hundred without a miss.
pub proof fn law_the_hit_rate_is_a_percentage<N: Number, T>(
    value: spec_fn(N) -> real,
    metrics: MetricsData<N>,
    cache_score_threshold: T,
    report: MetricsReport<T>,
)
    requires
        is_exact(value),
        is_report(metrics, cache_score_threshold, report),
    ensures
        exists|rate: N, text: String|
            {
                &&& #[trigger] call_ensures(N::to_fixed, (rate, 1usize), text)
                &&& report.hit_rate_percent@ == text@
                &&& metrics.total_requests > 0 ==> value(rate)
                    * (metrics.total_requests as int as real) == (100 * metrics.cache_hits) as real
                &&& metrics.cache_hits == 0 || metrics.total_requests == 0 ==> value(rate)
                    == 0 as real
                &&& metrics.total_requests > 0 && metrics.cache_hits == metrics.total_requests
                    ==> value(rate) == 100 as real
            },
{
    let rate = choose|rate: N| #[trigger]
        is_hit_rate(metrics, rate) && is_fixed(rate, 1, report.hit_rate_percent@);
    let text = choose|text: String|
        call_ensures(N::to_fixed, (rate, 1usize), text) && text@ == report.hit_rate_percent@;
    assert(call_ensures(N::to_fixed, (rate, 1usize), text));
    if metrics.total_requests > 0 {
        let (hits, total, share, hundred) = choose|hits: N, total: N, share: N, hundred: N|
            {
                &&& is_count(metrics.cache_hits, hits)
                &&& is_count(metrics.total_requests, total)
                &&& #[trigger] is_quotient(hits, total, share)
                &&& is_count(100, hundred)
                &&& #[trigger] is_product(share, hundred, rate)
            };
        let h = value(hits);
        let t = value(total);
        let s = value(share);
        let r = value(rate);
        assert(h == metrics.cache_hits as int as real);
        assert(t == metrics.total_requests as int as real);
        assert(t > 0 as real);
        assert(r == s * (100 as real));
        assert(r * t == (100 as real) * h) by (nonlinear_arith)
            requires
                t > 0 as real,
                s == h / t,
                r == s * (100 as real),
        ;
        assert((100 * metrics.cache_hits) as real == (100 as real) * h);
        if metrics.cache_hits == 0 {
            assert(r == 0 as real) by (nonlinear_arith)
                requires
                    t > 0 as real,
                    r * t == (100 as real) * h,
                    h == 0 as real,
            ;
        }
        if metrics.cache_hits == metrics.total_requests {
            assert(r == 100 as real) by (nonlinear_arith)
                requires
                    t > 0 as real,
                    r * t == (100 as real) * h,
                    h == t,
            ;
        }
    }
}

/// The hit rate is the same for counters with as many requests and hits, whatever else they hold.
pub proof fn law_the_hit_rate_depends_on_requests_and_hits<N: Number, T>(
    metrics: MetricsData<N>,
    others: MetricsData<N>,
    cache_score_threshold: T,
    first: MetricsReport<T>,
    second: MetricsReport<T>,
)
    requires
        is_deterministic::<N>(),
        metrics.total_requests == others.total_requests,
        metrics.cache_hits == others.cache_hits,
        is_report(metrics, cache_score_threshold, first),
        is_report(others, cache_score_threshold, second),
    ensures
        first.hit_rate_percent@ == second.hit_rate_percent@,
{
    assert forall|rate: N, other: N| #[trigger]
        is_hit_rate(metrics, rate) && #[trigger] is_hit_rate(others, other) implies rate == other by {
        assert(is_hit_rate(metrics, other));
        lemma_one_hit_rate(metrics, rate, other);
    }
}

/// `mean` is `sum` over `count` as the operations give it; zero where nothing was counted.
pub open spec fn is_quotient_or_zero<N: Number>(sum: N, count: u64, mean: N) -> bool {
    &&& count > 0 ==> exists|divisor: N|
        {
            &&& #[trigger] call_ensures(N::from_count, (count,), divisor)
            &&& call_ensures(N::over, (sum, divisor), mean)
        }
    &&& count == 0 ==> call_ensures(N::from_count, (0u64,), mean)
}

/// The reported latencies are what the hits and the misses took together over their number, and
/// the speedup is the average of the misses over that of the hits where both are above zero.
pub proof fn law_the_latencies_are_averages<N: Number, T>(
    metrics: MetricsData<N>,
    cache_score_threshold: T,
    report: MetricsReport<T>,
)
    requires
        is_report(metrics, cache_score_threshold, report),
    ensures
        exists|hit_ms: N, miss_ms: N, hit_text: String, miss_text: String|
            {
                &&& is_quotient_or_zero(metrics.total_hit_latency_ms, metrics.cache_hits, hit_ms)
                &&& is_quotient_or_zero(
                    metrics.total_miss_latency_ms,
                    metrics.cache_misses,
                    miss_ms,
                )
                &&& #[trigger] call_ensures(N::to_fixed, (hit_ms, 2usize), hit_text)
                &&& #[trigger] call_ensures(N::to_fixed, (miss_ms, 2usize), miss_text)
                &&& report.avg_hit_latency_ms@ == hit_text@
                &&& report.avg_miss_latency_ms@ == miss_text@
                &&& {
                    ||| {
                        &&& call_ensures(N::is_positive, (hit_ms,), true)
                        &&& call_ensures(N::is_positive, (miss_ms,), true)
                        &&& exists|factor: N, figure: String|
                            {
                                &&& call_ensures(N::over, (miss_ms, hit_ms), factor)
                                &&& #[trigger] call_ensures(N::to_fixed, (factor, 2usize), figure)
                                &&& report.speedup_factor@ == figure@ + "x"@
                            }
                    }
                    ||| {
                        &&& call_ensures(N::is_positive, (hit_ms,), false) || call_ensures(
                            N::is_positive,
                            (miss_ms,),
                            false,
                        )
                        &&& report.speedup_factor@ == "N/A"@
                    }
                }
            },
{
    let (hit_ms, miss_ms) = choose|hit_ms: N, miss_ms: N|
        {
            &&& #[trigger] is_average(metrics.total_hit_latency_ms, metrics.cache_hits, hit_ms)
            &&& #[trigger] is_average(metrics.total_miss_latency_ms, metrics.cache_misses, miss_ms)
            &&& is_fixed(hit_ms, 2, report.avg_hit_latency_ms@)
            &&& is_fixed(miss_ms, 2, report.avg_miss_latency_ms@)
            &&& is_speedup(hit_ms, miss_ms, report.speedup_factor@)
        };
    let hit_text = choose|text: String|
        call_ensures(N::to_fixed, (hit_ms, 2usize), text) && text@ == report.avg_hit_latency_ms@;
    let miss_text = choose|text: String|
        call_ensures(N::to_fixed, (miss_ms, 2usize), text) && text@ == report.avg_miss_latency_ms@;
    lemma_average_is_quotient(metrics.total_hit_latency_ms, metrics.cache_hits, hit_ms);
    lemma_average_is_quotient(metrics.total_miss_latency_ms, metrics.cache_misses, miss_ms);
    assert(call_ensures(N::to_fixed, (hit_ms, 2usize), hit_text));
    assert(call_ensures(N::to_fixed, (miss_ms, 2usize), miss_text));
}

proof fn lemma_average_is_quotient<N: Number>(sum: N, count: u64, mean: N)
    requires
        is_average(sum, count, mean),
    ensures
        is_quotient_or_zero(sum, count, mean),
{
    if count > 0 {
        let divisor = choose|divisor: N|
            is_count(count, divisor) && #[trigger] is_quotient(sum, divisor, mean);
        assert(call_ensures(N::from_count, (count,), divisor));
    }
}

/// With exact arithmetic, a reported latency times the number of its requests is what they took
/// together, and the speedup times the latency of a hit is that of a miss.
pub proof fn law_the_latencies_add_up_again<N: Number, T>(
    value: spec_fn(N) -> real,
    metrics: MetricsData<N>,
    cache_score_threshold: T,
    report: MetricsReport<T>,
)
    requires
        is_exact(value),
        is_report(metrics, cache_score_threshold, report),
    ensures
        exists|hit_ms: N, miss_ms: N, hit_text: String, miss_text: String|
            {
                &&& #[trigger] call_ensures(N::to_fixed, (hit_ms, 2usize), hit_text)
                &&& #[trigger] call_ensures(N::to_fixed, (miss_ms, 2usize), miss_text)
                &&& report.avg_hit_latency_ms@ == hit_text@
                &&& report.avg_miss_latency_ms@ == miss_text@
                &&& metrics.cache_hits > 0 ==> value(hit_ms) * (metrics.cache_hits as int as real)
                    == value(metrics.total_hit_latency_ms)
                &&& metrics.cache_hits == 0 ==> value(hit_ms) == 0 as real
                &&& metrics.cache_misses > 0 ==> value(miss_ms)
                    * (metrics.cache_misses as int as real) == value(metrics.total_miss_latency_ms)
                &&& metrics.cache_misses == 0 ==> value(miss_ms) == 0 as real
                &&& value(hit_ms) > 0 as real && value(miss_ms) > 0 as real ==> exists|
                    factor: N,
                    figure: String,
                |
                    {
                        &&& value(factor) * value(hit_ms) == value(miss_ms)
                        &&& #[trigger] call_ensures(N::to_fixed, (factor, 2usize), figure)
                        &&& report.speedup_factor@ == figure@ + "x"@
                    }
                &&& !(value(hit_ms) > 0 as real && value(miss_ms) > 0 as real)
                    ==> report.speedup_factor@ == "N/A"@
            },
{
    law_the_latencies_are_averages(metrics, cache_score_threshold, report);
    let (hit_ms, miss_ms) = choose|hit_ms: N, miss_ms: N|
        {
            &&& #[trigger] is_average(metrics.total_hit_latency_ms, metrics.cache_hits, hit_ms)
            &&& #[trigger] is_average(metrics.total_miss_latency_ms, metrics.cache_misses, miss_ms)
            &&& is_fixed(hit_ms, 2, report.avg_hit_latency_ms@)
            &&& is_fixed(miss_ms, 2, report.avg_miss_latency_ms@)
            &&& is_speedup(hit_ms, miss_ms, report.speedup_factor@)
        };
    let hit_text = choose|text: String|
        call_ensures(N::to_fixed, (hit_ms, 2usize), text) && text@ == report.avg_hit_latency_ms@;
    let miss_text = choose|text: String|
        call_ensures(N::to_fixed, (miss_ms, 2usize), text) && text@ == report.avg_miss_latency_ms@;
    lemma_exact_average(value, metrics.total_hit_latency_ms, metrics.cache_hits, hit_ms);
    lemma_exact_average(value, metrics.total_miss_latency_ms, metrics.cache_misses, miss_ms);
    assert(call_ensures(N::to_fixed, (hit_ms, 2usize), hit_text));
    assert(call_ensures(N::to_fixed, (miss_ms, 2usize), miss_text));
    let h = value(hit_ms);
    let m = value(miss_ms);
    if h > 0 as real && m > 0 as real {
        let (factor, figure) = choose|factor: N, figure: Seq<char>|
            {
                &&& is_quotient(miss_ms, hit_ms, factor)
                &&& #[trigger] is_fixed(factor, 2, figure)
                &&& report.speedup_factor@ == figure + "x"@
            };
        let text = choose|text: String|
            call_ensures(N::to_fixed, (factor, 2usize), text) && text@ == figure;
        let f = value(factor);
        assert(f * h == m) by (nonlinear_arith)
            requires
                h > 0 as real,
                f == m / h,
        ;
        assert(call_ensures(N::to_fixed, (factor, 2usize), text));
    }
}

proof fn lemma_exact_average<N: Number>(
    value: spec_fn(N) -> real,
    sum: N,
    count: u64,
    mean: N,
)
    requires
        is_exact(value),
        is_average(sum, count, mean),
    ensures
        count > 0 ==> value(mean) * (count as int as real) == value(sum),
        count == 0 ==> value(mean) == 0 as real,
{
    if count > 0 {
        let divisor = choose|divisor: N|
            is_count(count, divisor) && #[trigger] is_quotient(sum, divisor, mean);
        let d = value(divisor);
        let s = value(sum);
        let m = value(mean);
        assert(d == count as int as real);
        assert(d > 0 as real);
        assert(m * d == s) by (nonlinear_arith)
            requires
                d > 0 as real,
                m == s / d,
        ;
    }
}

/// The reported cost is the saved tokens times two over a million, as the operations give it; with
/// exact arithmetic, a million times it is a thousand times the hits.
pub proof fn law_the_saved_cost_is_that_of_the_saved_tokens<N: Number, T>(
    value: spec_fn(N) -> real,
    metrics: MetricsData<N>,
    cache_score_threshold: T,
    report: MetricsReport<T>,
)
    requires
        is_report(metrics, cache_score_threshold, report),
    ensures
        exists|amount: N, two: N, million: N, price: N, cost: N, text: String|
            {
                &&& #[trigger] call_ensures(
                    N::from_count,
                    (report.estimated_tokens_saved,),
                    amount,
                )
                &&& #[trigger] call_ensures(N::from_count, (2u64,), two)
                &&& #[trigger] call_ensures(N::from_count, (1000000u64,), million)
                &&& #[trigger] call_ensures(N::over, (two, million), price)
                &&& #[trigger] call_ensures(N::times, (amount, price), cost)
                &&& #[trigger] call_ensures(N::to_fixed, (cost, 6usize), text)
                &&& report.estimated_cost_saved_usd@ == text@
                &&& is_exact(value) ==> value(cost) * (1000000 as real) == (1000
                    * metrics.cache_hits) as real
            },
{
    let cost = choose|cost: N| #[trigger]
        is_saved_cost(report.estimated_tokens_saved, cost) && is_fixed(
            cost,
            6,
            report.estimated_cost_saved_usd@,
        );
    let text = choose|text: String|
        call_ensures(N::to_fixed, (cost, 6usize), text) && text@
            == report.estimated_cost_saved_usd@;
    let (amount, two, million, price) = choose|amount: N, two: N, million: N, price: N|
        {
            &&& is_count(report.estimated_tokens_saved, amount)
            &&& is_count(2, two)
            &&& is_count(1000000, million)
            &&& #[trigger] is_quotient(two, million, price)
            &&& #[trigger] is_product(amount, price, cost)
        };
    assert(call_ensures(N::from_count, (report.estimated_tokens_saved,), amount));
    assert(call_ensures(N::from_count, (2u64,), two));
    assert(call_ensures(N::from_count, (1000000u64,), million));
    assert(call_ensures(N::over, (two, million), price));
    assert(call_ensures(N::times, (amount, price), cost));
    assert(call_ensures(N::to_fixed, (cost, 6usize), text));
    if is_exact(value) {
        let a = value(amount);
        let p = value(price);
        let c = value(cost);
        assert(value(two) == 2 as real && value(million) == 1000000 as real);
        assert(c * (1000000 as real) == (2 as real) * a) by (nonlinear_arith)
            requires
                c == a * p,
                p == (2 as real) / (1000000 as real),
        ;
        assert(a == (500 * metrics.cache_hits) as real);
        assert((1000 * metrics.cache_hits) as real == (2 as real) * a);
    }
}

/// Before the first request the latencies are those of nothing.
pub proof fn law_counting_starts_at_zero<N: Number>(
    value: spec_fn(N) -> real,
    metrics: MetricsData<N>,
)
    requires
        is_exact(value),
        call_ensures(<MetricsData<N> as Default>::default, (), metrics),
    ensures
        metrics.total_requests == 0 && metrics.cache_hits == 0 && metrics.cache_misses == 0,
        value(metrics.total_hit_latency_ms) == 0 as real,
        value(metrics.total_miss_latency_ms) == 0 as real,
{
}

} // verus!
