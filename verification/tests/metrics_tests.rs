use semantic_cache_gateway::config::{bind_address, cache_score_threshold, qdrant_url};
use semantic_cache_gateway::metrics::{
    handle_metrics, update_hit_metrics, update_miss_metrics, MetricsData,
};
use semantic_cache_gateway::number::Number;
use semantic_cache_gateway::error::AppError;
use semantic_cache_gateway::routes::{record_outcome, AnsweredChat};
use semantic_cache_gateway::text::{decimal_text, joined, same_text};

#[derive(Clone, Copy, Debug, PartialEq)]
struct Double(f64);

#[derive(Clone, Copy, Debug, PartialEq)]
struct Single(f32);

impl Number for Double {
    fn from_count(n: u64) -> Self {
        Double(n as f64)
    }
    fn plus(self, other: Self) -> Self {
        Double(self.0 + other.0)
    }
    fn times(self, other: Self) -> Self {
        Double(self.0 * other.0)
    }
    fn over(self, other: Self) -> Self {
        Double(self.0 / other.0)
    }
    fn square_root(self) -> Self {
        Double(self.0.sqrt())
    }
    fn is_positive(self) -> bool {
        self.0 > 0.0
    }
    fn to_fixed(self, places: usize) -> String {
        format!("{:.*}", places, self.0)
    }
}

impl Number for Single {
    fn from_count(n: u64) -> Self {
        Single(n as f32)
    }
    fn plus(self, other: Self) -> Self {
        Single(self.0 + other.0)
    }
    fn times(self, other: Self) -> Self {
        Single(self.0 * other.0)
    }
    fn over(self, other: Self) -> Self {
        Single(self.0 / other.0)
    }
    fn square_root(self) -> Self {
        Single(self.0.sqrt())
    }
    fn is_positive(self) -> bool {
        self.0 > 0.0
    }
    fn to_fixed(self, places: usize) -> String {
        format!("{:.*}", places, self.0)
    }
}

fn counters(metrics: &MetricsData<Double>) -> (u64, u64, u64, f64, f64) {
    (
        metrics.total_requests,
        metrics.cache_hits,
        metrics.cache_misses,
        metrics.total_hit_latency_ms.0,
        metrics.total_miss_latency_ms.0,
    )
}

#[test]
fn counting_starts_at_nothing() {
    let metrics: MetricsData<Double> = MetricsData::default();
    assert_eq!(counters(&metrics), (0, 0, 0, 0.0, 0.0));
}

#[test]
fn hits_and_misses_are_counted_apart() {
    let mut metrics: MetricsData<Double> = MetricsData::default();
    update_hit_metrics(&mut metrics, Double(10.0));
    assert_eq!(counters(&metrics), (1, 1, 0, 10.0, 0.0));
    update_miss_metrics(&mut metrics, Double(300.0));
    assert_eq!(counters(&metrics), (2, 1, 1, 10.0, 300.0));
    update_hit_metrics(&mut metrics, Double(20.5));
    assert_eq!(counters(&metrics), (3, 2, 1, 30.5, 300.0));
}

#[test]
fn answers_are_counted_by_where_they_came_from() {
    let mut metrics: MetricsData<Double> = MetricsData::default();
    let cached = AnsweredChat { content: String::new(), cached: true };
    let generated = AnsweredChat { content: String::new(), cached: false };
    cached.record(&mut metrics, Double(1.0));
    generated.record(&mut metrics, Double(2.0));
    generated.record(&mut metrics, Double(3.0));
    assert_eq!(counters(&metrics), (3, 1, 2, 1.0, 5.0));
}

#[test]
fn empty_report() {
    let metrics: MetricsData<Double> = MetricsData::default();
    let report = handle_metrics(&metrics, 95u8);
    assert_eq!(report.total_requests, 0);
    assert_eq!(report.cache_hits, 0);
    assert_eq!(report.cache_misses, 0);
    assert_eq!(report.hit_rate_percent, "0.0");
    assert_eq!(report.avg_hit_latency_ms, "0.00");
    assert_eq!(report.avg_miss_latency_ms, "0.00");
    assert_eq!(report.speedup_factor, "N/A");
    assert_eq!(report.cache_score_threshold, 95);
    assert_eq!(report.estimated_tokens_saved, 0);
    assert_eq!(report.estimated_cost_saved_usd, "0.000000");
}

#[test]
fn report_on_hits_and_misses() {
    let mut metrics: MetricsData<Double> = MetricsData::default();
    update_hit_metrics(&mut metrics, Double(10.0));
    update_hit_metrics(&mut metrics, Double(20.0));
    update_miss_metrics(&mut metrics, Double(300.0));
    let report = handle_metrics(&metrics, 0u8);
    assert_eq!(report.total_requests, 3);
    assert_eq!(report.cache_hits, 2);
    assert_eq!(report.cache_misses, 1);
    assert_eq!(report.hit_rate_percent, "66.7");
    assert_eq!(report.avg_hit_latency_ms, "15.00");
    assert_eq!(report.avg_miss_latency_ms, "300.00");
    assert_eq!(report.speedup_factor, "20.00x");
    assert_eq!(report.estimated_tokens_saved, 1000);
    assert_eq!(report.estimated_cost_saved_usd, "0.002000");
}

#[test]
fn report_on_hits_alone() {
    let mut metrics: MetricsData<Double> = MetricsData::default();
    update_hit_metrics(&mut metrics, Double(0.125));
    let report = handle_metrics(&metrics, 0u8);
    assert_eq!(report.hit_rate_percent, "100.0");
    assert_eq!(report.avg_hit_latency_ms, "0.12");
    assert_eq!(report.avg_miss_latency_ms, "0.00");
    assert_eq!(report.speedup_factor, "N/A");
    assert_eq!(report.estimated_tokens_saved, 500);
    assert_eq!(report.estimated_cost_saved_usd, "0.001000");
}

#[test]
fn instant_hits_have_no_speedup() {
    let mut metrics: MetricsData<Double> = MetricsData::default();
    update_hit_metrics(&mut metrics, Double(0.0));
    update_miss_metrics(&mut metrics, Double(5.0));
    assert_eq!(handle_metrics(&metrics, 0u8).speedup_factor, "N/A");
}

#[test]
fn report_follows_double_precision() {
    for (hits, total) in [(1u64, 2000u64), (3, 2000), (1, 3), (7, 16), (999, 1000), (1, 8)] {
        let metrics = MetricsData {
            total_requests: total,
            cache_hits: hits,
            cache_misses: total - hits,
            total_hit_latency_ms: Double(hits as f64 * 1.1),
            total_miss_latency_ms: Double(17.3),
        };
        let report = handle_metrics(&metrics, 0u8);
        let rate = (hits as f64 / total as f64) * 100.0;
        assert_eq!(report.hit_rate_percent, format!("{rate:.1}"));
        let avg_hit = (hits as f64 * 1.1) / hits as f64;
        let avg_miss = 17.3 / (total - hits) as f64;
        assert_eq!(report.avg_hit_latency_ms, format!("{avg_hit:.2}"));
        assert_eq!(report.avg_miss_latency_ms, format!("{avg_miss:.2}"));
        assert_eq!(report.speedup_factor, format!("{:.2}x", avg_miss / avg_hit));
        let cost = (hits * 500) as f64 * 0.000002;
        assert_eq!(report.estimated_cost_saved_usd, format!("{cost:.6}"));
    }
}

#[test]
fn threshold_defaults_to_ninety_five_percent() {
    assert_eq!(cache_score_threshold::<Single>(None), Single(0.95));
    assert_eq!(cache_score_threshold::<Double>(None), Double(0.95));
    assert_eq!(cache_score_threshold(Some(Single(0.5))), Single(0.5));
}

#[test]
fn addresses_have_defaults() {
    assert_eq!(qdrant_url(None), "http://127.0.0.1:6334");
    assert_eq!(qdrant_url(Some("http://db".to_string())), "http://db");
    assert_eq!(bind_address(None, None), "127.0.0.1:3000");
    assert_eq!(bind_address(Some("0.0.0.0".to_string()), None), "0.0.0.0:3000");
    assert_eq!(bind_address(None, Some("80".to_string())), "127.0.0.1:80");
    assert_eq!(
        bind_address(Some(String::new()), Some("x".to_string())),
        ":x"
    );
}

#[test]
fn numerals_are_decimal() {
    for n in [0u128, 1, 9, 10, 99, 100, 384, 1234567890, u64::MAX as u128, u128::MAX] {
        assert_eq!(decimal_text(n), n.to_string());
    }
}

#[test]
fn texts_are_joined_and_compared() {
    assert_eq!(joined("a", "\u{e9}b"), "a\u{e9}b");
    assert_eq!(joined("", ""), "");
    assert!(same_text("\u{e9}", "\u{e9}"));
    assert!(!same_text("a", "A"));
    assert!(!same_text("a", "aa"));
}

#[test]
fn only_answers_are_counted() {
    let mut metrics: MetricsData<Double> = MetricsData::default();
    let answered = |cached: bool| Ok(AnsweredChat { content: "yes".to_string(), cached });
    record_outcome(&answered(true), &mut metrics, Double(2.0));
    assert_eq!(counters(&metrics), (1, 1, 0, 2.0, 0.0));
    record_outcome(&answered(false), &mut metrics, Double(30.0));
    assert_eq!(counters(&metrics), (2, 1, 1, 2.0, 30.0));
    record_outcome(&Err(AppError::internal("down".to_string())), &mut metrics, Double(5.0));
    record_outcome(&Err(AppError::bad_request("empty".to_string())), &mut metrics, Double(5.0));
    assert_eq!(counters(&metrics), (2, 1, 1, 2.0, 30.0));
}

#[test]
fn failures_leave_full_counters_alone() {
    let mut metrics = MetricsData {
        total_requests: u64::MAX,
        cache_hits: u64::MAX,
        cache_misses: 0,
        total_hit_latency_ms: Double(1.0),
        total_miss_latency_ms: Double(0.0),
    };
    record_outcome(&Err(AppError::internal("down".to_string())), &mut metrics, Double(5.0));
    assert_eq!(counters(&metrics), (u64::MAX, u64::MAX, 0, 1.0, 0.0));
}

#[test]
fn hits_and_misses_are_counted_in_any_order() {
    let mut hit_first: MetricsData<Double> = MetricsData::default();
    update_hit_metrics(&mut hit_first, Double(1.5));
    update_miss_metrics(&mut hit_first, Double(20.25));
    let mut miss_first: MetricsData<Double> = MetricsData::default();
    update_miss_metrics(&mut miss_first, Double(20.25));
    update_hit_metrics(&mut miss_first, Double(1.5));
    assert_eq!(counters(&hit_first), counters(&miss_first));
    assert_eq!(counters(&hit_first), (2, 1, 1, 1.5, 20.25));
}

#[test]
fn reporting_twice_says_the_same() {
    let mut metrics: MetricsData<Double> = MetricsData::default();
    update_hit_metrics(&mut metrics, Double(3.0));
    update_miss_metrics(&mut metrics, Double(10.0));
    let before = counters(&metrics);
    let first = format!("{:?}", handle_metrics(&metrics, Single(0.9)));
    let second = format!("{:?}", handle_metrics(&metrics, Single(0.9)));
    assert_eq!(first, second);
    assert_eq!(counters(&metrics), before);
}
