//! What the extension reports about itself.

use vstd::prelude::*;

use crate::config::{is_enabled, Config};
use crate::shared::QueueStats;
use crate::text::to_decimal;

verus! {

/// The version of the extension.
pub const VERSION: &'static str = "0.1.0";

/// SQL-callable function returning the extension version.
pub fn pg_otel_tracer_version() -> (version: &'static str)
    ensures
        version@ == "0.1.0"@,
{
    VERSION
}

/// The metrics that are reported, each with its value.
pub open spec fn status_rows(
    config: Config,
    sample_rate: Seq<char>,
    stats: QueueStats,
) -> Seq<(Seq<char>, Seq<char>)> {
    seq![
        ("version"@, VERSION@),
        (
            "enabled"@,
            if config.enabled {
                "true"@
            } else {
                "false"@
            },
        ),
        ("sample_rate"@, sample_rate),
        ("queue_size"@, crate::text::decimal_text(stats.size as nat)),
        ("queue_dropped"@, crate::text::decimal_text(stats.dropped as nat)),
    ]
}

/// SQL-callable function returning runtime status metrics. `sample_rate` is the sampling rate as
/// it is to be shown.
pub fn pg_otel_tracer_status(config: &Config, sample_rate: String, stats: QueueStats) -> (rows: Vec<
    (String, String),
>)
    ensures
        crate::span::attributes_of(rows@) == status_rows(*config, sample_rate@, stats),
{
    let enabled = if is_enabled(config) {
        "true".to_string()
    } else {
        "false".to_string()
    };
    let mut rows: Vec<(String, String)> = Vec::new();
    rows.push(("version".to_string(), VERSION.to_string()));
    rows.push(("enabled".to_string(), enabled));
    rows.push(("sample_rate".to_string(), sample_rate));
    rows.push(("queue_size".to_string(), to_decimal(stats.size as u64)));
    rows.push(("queue_dropped".to_string(), to_decimal(stats.dropped as u64)));
    assert(crate::span::attributes_of(rows@) =~= status_rows(*config, sample_rate@, stats));
    rows
}

} // verus!
