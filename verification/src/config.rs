//! Runtime configuration: the master switch, the sampling rate and the rate limit on warnings.

use vstd::prelude::*;

use crate::span::{now_nanos, random_u64, Clock};

verus! {

/// The sampling rate at which every query is traced.
pub const FULL_SAMPLE_RATE: u64 = 1_000_000_000;

/// Minimum interval between identical warnings (1 minute).
pub const WARNING_INTERVAL_NANOS: u64 = 60_000_000_000;

/// What can be toggled while a process runs.
#[derive(Clone, Copy, Debug, PartialEq, Eq)]
pub struct Config {
    /// Master on/off switch.  Checked at the top of every hook.
    pub enabled: bool,
    /// Sampling rate as billionths (0..1_000_000_000).
    /// 1_000_000_000 = trace every query, 0 = trace none.
    pub sample_rate_billionths: u64,
    /// Timestamp (nanos since epoch) of last queue-full warning.
    pub last_queue_warning: u64,
}

impl Config {
    /// Tracing enabled, every query sampled, no warning given yet.
    pub fn new() -> (config: Config)
        ensures
            config.enabled,
            config.sample_rate_billionths == FULL_SAMPLE_RATE,
            config.last_queue_warning == 0,
    {
        Config { enabled: true, sample_rate_billionths: FULL_SAMPLE_RATE, last_queue_warning: 0 }
    }
}

/// Check the enabled flag.
pub fn is_enabled(config: &Config) -> (enabled: bool)
    ensures
        enabled == config.enabled,
{
    config.enabled
}

/// Toggle tracing on or off.
pub fn set_enabled(config: &mut Config, v: bool)
    ensures
        *final(config) == (Config { enabled: v, ..*old(config) }),
{
    config.enabled = v;
}

/// The rate that a request for `billionths` sets.
pub open spec fn clamped_rate(billionths: u64) -> u64 {
    if billionths < FULL_SAMPLE_RATE {
        billionths
    } else {
        FULL_SAMPLE_RATE
    }
}

/// Set the sampling rate, in billionths; more than all is all.
pub fn set_sample_rate(config: &mut Config, billionths: u64)
    ensures
        *final(config) == (Config {
            sample_rate_billionths: clamped_rate(billionths),
            ..*old(config)
        }),
{
    config.sample_rate_billionths = if billionths < FULL_SAMPLE_RATE {
        billionths
    } else {
        FULL_SAMPLE_RATE
    };
}

/// Get the current sampling rate, in billionths.
pub fn get_sample_rate(config: &Config) -> (billionths: u64)
    ensures
        billionths == config.sample_rate_billionths,
{
    config.sample_rate_billionths
}

/// Whether the text of the boot-time switch turns tracing on: everything but `false` does.
pub fn parse_enabled(value: &str) -> (enabled: bool)
    ensures
        enabled == (value@ != "false"@),
{
    !(value.to_string() == "false".to_string())
}

/// Takes over the boot-time settings that are present: the text of the switch and the sampling
/// rate in billionths.
pub fn apply_boot_settings(config: &mut Config, enabled: Option<&str>, sample_rate: Option<u64>)
    ensures
        *final(config) == (Config {
            enabled: match enabled {
                Some(value) => value@ != "false"@,
                None => old(config).enabled,
            },
            sample_rate_billionths: match sample_rate {
                Some(billionths) => clamped_rate(billionths),
                None => old(config).sample_rate_billionths,
            },
            ..*old(config)
        }),
{
    if let Some(value) = enabled {
        set_enabled(config, parse_enabled(value));
    }
    if let Some(billionths) = sample_rate {
        set_sample_rate(config, billionths);
    }
}

/// Whether a random number selects a query at the given rate.
pub open spec fn is_sampled(rate: u64, random: u64) -> bool {
    random % FULL_SAMPLE_RATE < rate
}

/// Whether `random` selects a query at the given rate.
pub fn sample_with(rate: u64, random: u64) -> (sampled: bool)
    ensures
        sampled == is_sampled(rate, random),
{
    random % FULL_SAMPLE_RATE < rate
}

/// Decide probabilistically whether to trace this query.
pub fn should_sample(config: &Config) -> (sampled: bool)
    ensures
        exists|random: u64| sampled == #[trigger] is_sampled(config.sample_rate_billionths, random),
        config.sample_rate_billionths >= FULL_SAMPLE_RATE ==> sampled,
        config.sample_rate_billionths == 0 ==> !sampled,
        0 < config.sample_rate_billionths < 1_000_000_000 ==> exists|random: u64| #[trigger]
            crate::span::was_drawn(random) && sampled == (random % 1_000_000_000
                < config.sample_rate_billionths),
{
    let rate: u64 = config.sample_rate_billionths;
    if rate >= FULL_SAMPLE_RATE {
        assert(is_sampled(rate, 0));
        return true;
    }
    if rate == 0 {
        assert(!is_sampled(rate, 0));
        return false;
    }
    let random: u64 = random_u64();
    proof {
        crate::span::drawn_numbers_are_answers_of_the_generator(random, 0);
    }
    sample_with(rate, random)
}

/// More than the interval has passed since the last warning.
pub open spec fn warning_is_due(last: u64, now: u64) -> bool {
    now - last > WARNING_INTERVAL_NANOS
}

/// Rate-limited warning for queue-full events, at the time `now`: whether to warn.
pub fn warn_queue_full_at(config: &mut Config, now: u64) -> (warn: bool)
    ensures
        warn == warning_is_due(old(config).last_queue_warning, now),
        *final(config) == (Config {
            last_queue_warning: if warn {
                now
            } else {
                old(config).last_queue_warning
            },
            ..*old(config)
        }),
{
    let last: u64 = config.last_queue_warning;
    if now.saturating_sub(last) > WARNING_INTERVAL_NANOS {
        config.last_queue_warning = now;
        true
    } else {
        false
    }
}

/// Rate-limited warning for queue-full events: whether to warn now.
pub fn maybe_warn_queue_full(config: &mut Config, clock: &mut Clock) -> (warn: bool)
    ensures
        exists|reading: u64| #[trigger]
            crate::span::is_clock_reading(reading) && crate::span::was_read(reading)
                && final(clock).latest == crate::span::later(old(clock).latest, reading),
        warn == warning_is_due(old(config).last_queue_warning, final(clock).latest),
        *final(config) == (Config {
            last_queue_warning: if warn {
                final(clock).latest
            } else {
                old(config).last_queue_warning
            },
            ..*old(config)
        }),
{
    let now: u64 = now_nanos(clock);
    warn_queue_full_at(config, now)
}

/// The times at which warnings are given when queue-full events happen at `times`, the last
/// warning before them having been given at `last`.
pub open spec fn warning_times(last: u64, times: Seq<u64>) -> Seq<u64>
    decreases times.len(),
{
    if times.len() == 0 {
        Seq::empty()
    } else if warning_is_due(last, times[0]) {
        seq![times[0]] + warning_times(times[0], times.drop_first())
    } else {
        warning_times(last, times.drop_first())
    }
}

/// Each of `warnings` comes more than the interval after the one before it, the first after
/// `last`.
pub open spec fn well_spaced(last: u64, warnings: Seq<u64>) -> bool {
    forall|i: int|
        0 <= i < warnings.len() ==> (if i == 0 {
            last
        } else {
            warnings[i - 1]
        }) + WARNING_INTERVAL_NANOS < #[trigger] warnings[i]
}

/// However often the queue is full, warnings are more than the interval apart.
pub proof fn warnings_are_rate_limited(last: u64, times: Seq<u64>)
    ensures
        well_spaced(last, warning_times(last, times)),
    decreases times.len(),
{
    if times.len() > 0 {
        if warning_is_due(last, times[0]) {
            let rest = warning_times(times[0], times.drop_first());
            warnings_are_rate_limited(times[0], times.drop_first());
            let warnings = seq![times[0]] + rest;
            assert forall|i: int| 0 <= i < warnings.len() implies (if i == 0 {
                last
            } else {
                warnings[i - 1]
            }) + WARNING_INTERVAL_NANOS < #[trigger] warnings[i] by {
                if i > 0 {
                    assert(warnings[i] == rest[i - 1]);
                }
            }
        } else {
            warnings_are_rate_limited(last, times.drop_first());
        }
    }
}

/// The sampling rate is the fraction of queries traced: of all the remainders that a random
/// number can leave, exactly as many select a query as the rate says.
pub proof fn rate_is_the_sampled_fraction(rate: u64)
    requires
        rate <= FULL_SAMPLE_RATE,
    ensures
        Set::<int>::range(0, FULL_SAMPLE_RATE as int).filter(
            |remainder: int| is_sampled(rate, remainder as u64),
        ).len() == rate,
{
    let selected = Set::<int>::range(0, FULL_SAMPLE_RATE as int).filter(
        |remainder: int| is_sampled(rate, remainder as u64),
    );
    vstd::set_lib::lemma_int_range(0, rate as int);
    assert(selected =~= vstd::set_lib::set_int_range(0, rate as int));
}

/// Every query is traced at the full rate and none at zero; a query that a rate selects, every
/// higher rate selects too.
pub proof fn sampling_grows_with_the_rate(low: u64, high: u64, random: u64)
    requires
        low <= high,
    ensures
        is_sampled(low, random) ==> is_sampled(high, random),
        is_sampled(FULL_SAMPLE_RATE, random),
        !is_sampled(0, random),
{
}

} // verus!
