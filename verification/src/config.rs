//! The settings of the gateway and what they are where nothing is configured.

use vstd::prelude::*;

use crate::number::{is_count, is_exact, is_quotient, Number};
use crate::text::joined;

verus! {

/// `threshold` can be the similarity from which on a prompt counts as one seen before: 0.95.
pub open spec fn is_default_threshold<N: Number>(threshold: N) -> bool {
    exists|percent: N, hundred: N|
        {
            &&& is_count(95, percent)
            &&& is_count(100, hundred)
            &&& #[trigger] is_quotient(percent, hundred, threshold)
        }
}

/// The similarity from which on a prompt counts as one seen before.
pub fn cache_score_threshold<N: Number>(configured: Option<N>) -> (threshold: N)
    ensures
        match configured {
            Some(value) => threshold == value,
            None => is_default_threshold(threshold),
        },
{
    match configured {
        Some(value) => value,
        None => {
            let percent = N::from_count(95);
            let hundred = N::from_count(100);
            let threshold = percent.over(hundred);
            assert(is_quotient(percent, hundred, threshold));
            threshold
        },
    }
}

/// A configured text, or the one that takes its place.
pub open spec fn configured_or(configured: Option<String>, default: Seq<char>) -> Seq<char> {
    match configured {
        Some(text) => text@,
        None => default,
    }
}

fn setting(configured: Option<String>, default: &str) -> (text: String)
    ensures
        text@ == configured_or(configured, default@),
{
    match configured {
        Some(text) => text,
        None => default.to_string(),
    }
}

/// Where the vector database listens.
pub fn qdrant_url(configured: Option<String>) -> (url: String)
    ensures
        url@ == configured_or(configured, "http://127.0.0.1:6334"@),
        configured matches Some(text) ==> url@ == text@,
        configured is None ==> url@ == "http://127.0.0.1:6334"@,
{
    setting(configured, "http://127.0.0.1:6334")
}

/// Where the gateway listens.
pub fn bind_address(host: Option<String>, port: Option<String>) -> (address: String)
    ensures
        address@ == configured_or(host, "127.0.0.1"@) + ":"@ + configured_or(port, "3000"@),
        address@ == (match host {
            Some(text) => text@,
            None => "127.0.0.1"@,
        }) + ":"@ + (match port {
            Some(text) => text@,
            None => "3000"@,
        }),
{
    let mut address = joined(&setting(host, "127.0.0.1"), ":");
    address.append(&setting(port, "3000"));
    address
}

/// What is configured is taken as it is, even if it is empty; only where nothing is configured
/// the default stands in.
pub proof fn law_configured_settings_are_taken(
    text: String,
    port: String,
    url: String,
    default_url: String,
    address: String,
    default_address: String,
)
    requires
        call_ensures(qdrant_url, (Some(text),), url),
        call_ensures(qdrant_url, (None,), default_url),
        call_ensures(bind_address, (Some(text), Some(port)), address),
        call_ensures(bind_address, (None, None), default_address),
    ensures
        url@ == text@,
        default_url@ == "http://127.0.0.1:6334"@,
        address@ == text@ + ":"@ + port@,
        default_address@ == "127.0.0.1"@ + ":"@ + "3000"@,
{
}

/// The host and the port are configured apart: each of them alone is taken with the default of
/// the other.
pub proof fn law_host_and_port_are_configured_apart(
    host: String,
    port: String,
    with_host: String,
    with_port: String,
)
    requires
        call_ensures(bind_address, (Some(host), None), with_host),
        call_ensures(bind_address, (None, Some(port)), with_port),
    ensures
        with_host@ == host@ + ":"@ + "3000"@,
        with_port@ == "127.0.0.1"@ + ":"@ + port@,
{
}

/// A configured threshold is taken as it is; with exact arithmetic, a hundred times the default
/// one is ninety-five.
pub proof fn law_the_threshold_defaults_to_ninety_five_percent<N: Number>(
    value: spec_fn(N) -> real,
    configured: N,
    taken: N,
    default: N,
)
    requires
        call_ensures(cache_score_threshold::<N>, (Some(configured),), taken),
        call_ensures(cache_score_threshold::<N>, (None,), default),
    ensures
        taken == configured,
        exists|percent: N, hundred: N|
            {
                &&& call_ensures(N::from_count, (95u64,), percent)
                &&& call_ensures(N::from_count, (100u64,), hundred)
                &&& #[trigger] call_ensures(N::over, (percent, hundred), default)
            },
        is_exact(value) ==> value(default) * (100 as real) == 95 as real,
{
    let (percent, hundred) = choose|percent: N, hundred: N|
        {
            &&& is_count(95, percent)
            &&& is_count(100, hundred)
            &&& #[trigger] is_quotient(percent, hundred, default)
        };
    assert(call_ensures(N::over, (percent, hundred), default));
    if is_exact(value) {
        let d = value(default);
        assert(value(percent) == 95 as real && value(hundred) == 100 as real);
        assert(d * (100 as real) == 95 as real) by (nonlinear_arith)
            requires
                d == (95 as real) / (100 as real),
        ;
    }
}

/// A default stands in only where nothing is configured.
pub proof fn law_defaults_stand_in_for_nothing(text: String, default: Seq<char>)
    ensures
        configured_or(Some(text), default) == text@,
        configured_or(None, default) == default,
{
}

} // verus!
