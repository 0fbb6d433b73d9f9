//! What the settings do, and what is reported of them.

use vstd::prelude::*;

use crate::config::{
    get_sample_rate, is_enabled, parse_enabled, sample_with, should_sample, Config,
};
use crate::shared::{queue_stats, QueueCounters, QueueStats};
use crate::status::{pg_otel_tracer_status, pg_otel_tracer_version};
use crate::wait_events::{sample_wait_event, WaitEventInfo};

verus! {

/// A query is sampled by the number that was drawn for it: at the full rate always, at zero never,
/// and in between exactly where the number, modulo a billion, is below the rate. Of the billion
/// remainders as many select a query as the rate says.
pub proof fn sampling_goes_by_the_number_drawn(config: Config, sampled: bool)
    requires
        call_ensures(should_sample, (&config,), sampled),
    ensures
        config.sample_rate_billionths >= 1_000_000_000 ==> sampled,
        config.sample_rate_billionths == 0 ==> !sampled,
        0 < config.sample_rate_billionths < 1_000_000_000 ==> exists|drawn: u64| #[trigger]
            crate::span::was_drawn(drawn) && sampled == (drawn % 1_000_000_000
                < config.sample_rate_billionths),
        config.sample_rate_billionths <= 1_000_000_000 ==> Set::<int>::range(
            0,
            1_000_000_000,
        ).filter(
            |remainder: int| remainder as u64 % 1_000_000_000 < config.sample_rate_billionths,
        ).len() == config.sample_rate_billionths,
{
    if config.sample_rate_billionths <= 1_000_000_000 {
        let rate = config.sample_rate_billionths;
        let selected = Set::<int>::range(0, 1_000_000_000).filter(
            |remainder: int| remainder as u64 % 1_000_000_000 < rate,
        );
        vstd::set_lib::lemma_int_range(0, rate as int);
        assert(selected =~= vstd::set_lib::set_int_range(0, rate as int));
    }
}

/// The decision on a given number: it is selected where its remainder by a billion is below the rate.
pub proof fn number_is_selected_below_the_rate(rate: u64, random: u64, sampled: bool)
    requires
        call_ensures(sample_with, (rate, random), sampled),
    ensures
        sampled == (random % 1_000_000_000 < rate),
{
}

/// The rate that is set is the one asked for, or the full rate where more is asked for.
pub proof fn rate_is_capped(billionths: u64)
    ensures
        billionths <= 1_000_000_000 ==> crate::config::clamped_rate(billionths) == billionths,
        billionths >= 1_000_000_000 ==> crate::config::clamped_rate(billionths) == 1_000_000_000,
{
}

/// What is read of the settings is what is set; the text of the boot-time switch turns tracing off
/// only where it is `false`.
pub proof fn settings_are_read_back(config: Config, rate: u64, enabled: bool, text: &str, on: bool)
    ensures
        call_ensures(get_sample_rate, (&config,), rate) ==> rate == config.sample_rate_billionths,
        call_ensures(is_enabled, (&config,), enabled) ==> enabled == config.enabled,
        call_ensures(parse_enabled, (text,), on) ==> on == (text@ != "false"@),
{
}

/// A warning is due exactly where the last one is more than a minute ago.
pub proof fn warning_is_due_after_a_minute(last: u64, now: u64)
    ensures
        crate::config::warning_is_due(last, now) <==> now - last > 60_000_000_000,
{
}

/// The status tells the version, the switch, the sampling rate as it was handed in, and the two
/// counters in decimal.
pub proof fn status_tells_the_settings(
    config: Config,
    sample_rate: String,
    stats: QueueStats,
    rows: Vec<(String, String)>,
)
    requires
        call_ensures(pg_otel_tracer_status, (&config, sample_rate, stats), rows),
    ensures
        rows@.len() == 5,
        rows@[0].0@ == "version"@ && rows@[0].1@ == "0.1.0"@,
        rows@[1].0@ == "enabled"@ && rows@[1].1@ == (if config.enabled {
            "true"@
        } else {
            "false"@
        }),
        rows@[2].0@ == "sample_rate"@ && rows@[2].1@ == sample_rate@,
        rows@[3].0@ == "queue_size"@ && crate::laws::numbers::is_decimal(
            rows@[3].1@,
            stats.size as int,
        ),
        rows@[4].0@ == "queue_dropped"@ && crate::laws::numbers::is_decimal(
            rows@[4].1@,
            stats.dropped as int,
        ),
{
    let shown = crate::span::attributes_of(rows@);
    assert(shown.len() == 5);
    assert(shown[0] == (rows@[0].0@, rows@[0].1@));
    assert(shown[1] == (rows@[1].0@, rows@[1].1@));
    assert(shown[2] == (rows@[2].0@, rows@[2].1@));
    assert(shown[3] == (rows@[3].0@, rows@[3].1@));
    assert(shown[4] == (rows@[4].0@, rows@[4].1@));
    crate::laws::numbers::decimal_is_read_back(stats.size as nat);
    crate::laws::numbers::decimal_is_read_back(stats.dropped as nat);
}

/// The size that is reported is how far the write index is ahead of the read index, across the wrap
/// of the indices too; without a queue there is nothing to report.
pub proof fn statistics_count_what_is_queued(counters: QueueCounters, stats: QueueStats)
    ensures
        call_ensures(queue_stats, (Some(counters),), stats) ==> {
            &&& stats.dropped == counters.dropped
            &&& counters.write_idx >= counters.read_idx ==> stats.size == counters.write_idx
                - counters.read_idx
            &&& counters.write_idx < counters.read_idx ==> stats.size == counters.write_idx
                - counters.read_idx + usize::MAX + 1
        },
        call_ensures(queue_stats, (None::<QueueCounters>,), stats) ==> stats.size == 0
            && stats.dropped == 0,
{
}

/// A backend that waits is sampled: the names that Postgres knows are taken as they are; where it
/// knows none, the type is told by the low byte of the word, and the name is the word in eight
/// hexadecimal digits. A backend that does not wait is not sampled.
pub proof fn wait_event_is_sampled(
    info: Option<u32>,
    known_type: Option<String>,
    known_name: Option<String>,
    event: Option<WaitEventInfo>,
)
    requires
        call_ensures(sample_wait_event, (info, known_type, known_name), event),
    ensures
        event is None <==> info is None || info == Some(0u32),
        event matches Some(e) ==> {
            &&& known_type matches Some(name) ==> e.event_type@ == name@
            &&& known_name matches Some(name) ==> e.event_name@ == name@
            &&& known_name is None ==> {
                &&& e.event_name@.len() == 10
                &&& e.event_name@[0] == '0' && e.event_name@[1] == 'x'
                &&& crate::laws::numbers::number_read(e.event_name@.skip(2), 16) == info->0
            }
            &&& known_type is None ==> {
                let class = info->0 % 256;
                &&& class == 0 ==> e.event_type@ == "Activity"@
                &&& class == 1 ==> e.event_type@ == "BufferPin"@
                &&& class == 2 ==> e.event_type@ == "Client"@
                &&& class == 3 ==> e.event_type@ == "Extension"@
                &&& class == 4 ==> e.event_type@ == "IPC"@
                &&& class == 5 ==> e.event_type@ == "Timeout"@
                &&& class == 6 ==> e.event_type@ == "IO"@
                &&& class == 7 ==> e.event_type@ == "Lock"@
                &&& class == 8 ==> e.event_type@ == "LWLock"@
                &&& class > 8 ==> e.event_type@.take(6) == "class_"@
                    && crate::laws::numbers::is_decimal(e.event_type@.skip(6), class as int)
            }
        },
{
    if let Some(e) = event {
        let word = info->0;
        let class = (word % 256) as nat;
        reveal_strlit("class_");
        reveal_strlit("0x");
        if known_name is None {
            let digits = crate::text::hex_text(word as nat, 8);
            crate::laws::numbers::hexadecimal_is_read_back(word as nat, 8);
            sixteen_to_the_eighth();
            assert(e.event_name@ == "0x"@ + digits);
            assert(e.event_name@.skip(2) =~= digits);
        }
        if known_type is None && class > 8 {
            let digits = crate::text::decimal_text(class);
            crate::laws::numbers::decimal_is_read_back(class);
            assert(e.event_type@ == "class_"@ + digits);
            assert(e.event_type@.skip(6) =~= digits);
            assert(e.event_type@.take(6) =~= "class_"@);
        }
    }
}

proof fn sixteen_to_the_eighth()
    ensures
        vstd::arithmetic::power::pow(16, 8) == 0x1_0000_0000,
{
    vstd::arithmetic::power::lemma_pow1(16);
    vstd::arithmetic::power::lemma_pow_adds(16, 1, 1);
    assert(vstd::arithmetic::power::pow(16, 2) == 0x100);
    vstd::arithmetic::power::lemma_pow_adds(16, 2, 2);
    assert(vstd::arithmetic::power::pow(16, 4) == 0x1_0000);
    vstd::arithmetic::power::lemma_pow_adds(16, 4, 4);
}

/// The version is the one of this release.
pub proof fn version_is_told(version: &'static str)
    requires
        call_ensures(pg_otel_tracer_version, (), version),
    ensures
        version@ == "0.1.0"@,
{
}

} // verus!
