use pg_otel_tracer::config::{
    apply_boot_settings, get_sample_rate, is_enabled, maybe_warn_queue_full, parse_enabled,
    sample_with, set_enabled, set_sample_rate, should_sample, warn_queue_full_at, Config,
    FULL_SAMPLE_RATE, WARNING_INTERVAL_NANOS,
};
use pg_otel_tracer::span::{now_nanos, Clock};

#[test]
fn tracing_starts_enabled_at_the_full_rate() {
    let config = Config::new();
    assert!(is_enabled(&config));
    assert_eq!(get_sample_rate(&config), 1_000_000_000);
    assert_eq!(config.last_queue_warning, 0);
}

#[test]
fn switch_toggles_and_touches_nothing_else() {
    let mut config = Config::new();
    set_sample_rate(&mut config, 10);
    set_enabled(&mut config, false);
    assert!(!is_enabled(&config));
    assert_eq!(get_sample_rate(&config), 10);
    set_enabled(&mut config, true);
    assert!(is_enabled(&config));
}

#[test]
fn rate_is_clamped_to_all() {
    let mut config = Config::new();
    set_sample_rate(&mut config, 0);
    assert_eq!(get_sample_rate(&config), 0);
    set_sample_rate(&mut config, 999_999_999);
    assert_eq!(get_sample_rate(&config), 999_999_999);
    set_sample_rate(&mut config, FULL_SAMPLE_RATE);
    assert_eq!(get_sample_rate(&config), FULL_SAMPLE_RATE);
    set_sample_rate(&mut config, u64::MAX);
    assert_eq!(get_sample_rate(&config), FULL_SAMPLE_RATE);
}

#[test]
fn all_or_none_is_sampled_at_the_ends() {
    let mut config = Config::new();
    for _ in 0..1000 {
        assert!(should_sample(&config));
    }
    set_sample_rate(&mut config, 0);
    for _ in 0..1000 {
        assert!(!should_sample(&config));
    }
}

#[test]
fn half_the_rate_samples_some_and_not_all() {
    let mut config = Config::new();
    set_sample_rate(&mut config, FULL_SAMPLE_RATE / 2);
    let mut sampled = 0;
    for _ in 0..1000 {
        if should_sample(&config) {
            sampled += 1;
        }
    }
    assert!(300 < sampled && sampled < 700, "{}", sampled);
}

#[test]
fn remainder_below_the_rate_is_sampled() {
    assert!(sample_with(1, 0));
    assert!(!sample_with(1, 1));
    assert!(sample_with(1, 1_000_000_000));
    assert!(sample_with(500_000_000, 499_999_999));
    assert!(!sample_with(500_000_000, 500_000_000));
    assert!(sample_with(500_000_000, 3_499_999_999));
    assert!(!sample_with(0, 0));
    assert!(sample_with(FULL_SAMPLE_RATE, 999_999_999));
}

#[test]
fn boot_time_switch_is_off_only_for_false() {
    assert!(!parse_enabled("false"));
    assert!(parse_enabled("true"));
    assert!(parse_enabled(""));
    assert!(parse_enabled("False"));
    assert!(parse_enabled("0"));
    assert!(parse_enabled("false "));
}

#[test]
fn boot_settings_that_are_absent_change_nothing() {
    let mut config = Config::new();
    apply_boot_settings(&mut config, None, None);
    assert_eq!(config, Config::new());
    apply_boot_settings(&mut config, Some("false"), Some(250_000_000));
    assert!(!is_enabled(&config));
    assert_eq!(get_sample_rate(&config), 250_000_000);
    apply_boot_settings(&mut config, Some("nonsense"), None);
    assert!(is_enabled(&config));
    assert_eq!(get_sample_rate(&config), 250_000_000);
}

#[test]
fn warnings_are_a_minute_apart() {
    let mut config = Config::new();
    let start = 1_700_000_000_000_000_000;
    assert!(warn_queue_full_at(&mut config, start));
    assert_eq!(config.last_queue_warning, start);
    assert!(!warn_queue_full_at(&mut config, start));
    assert!(!warn_queue_full_at(&mut config, start + WARNING_INTERVAL_NANOS));
    assert_eq!(config.last_queue_warning, start);
    assert!(warn_queue_full_at(&mut config, start + WARNING_INTERVAL_NANOS + 1));
    assert!(!warn_queue_full_at(&mut config, start));
}

#[test]
fn first_full_queue_is_warned_of() {
    let mut config = Config::new();
    let mut clock = Clock::new();
    assert!(maybe_warn_queue_full(&mut config, &mut clock));
    assert_eq!(config.last_queue_warning, clock.latest);
    assert!(!maybe_warn_queue_full(&mut config, &mut clock));
    assert!(now_nanos(&mut clock) >= config.last_queue_warning);
}
