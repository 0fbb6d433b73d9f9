use pg_otel_tracer::config::{set_enabled, Config};
use pg_otel_tracer::shared::QueueStats;
use pg_otel_tracer::status::{pg_otel_tracer_status, pg_otel_tracer_version};

#[test]
fn test_version() {
    assert_eq!(pg_otel_tracer_version(), "0.1.0");
}

#[test]
fn status_lists_five_metrics() {
    let mut config = Config::new();
    let stats = QueueStats { size: 3, dropped: 0 };
    let rows = pg_otel_tracer_status(&config, "0.0100".to_string(), stats);
    let expected = [
        ("version", "0.1.0"),
        ("enabled", "true"),
        ("sample_rate", "0.0100"),
        ("queue_size", "3"),
        ("queue_dropped", "0"),
    ];
    assert_eq!(rows.len(), expected.len());
    for (row, (metric, value)) in rows.iter().zip(expected) {
        assert_eq!(row.0, metric);
        assert_eq!(row.1, value);
    }
    set_enabled(&mut config, false);
    let stats = QueueStats { size: 1024, dropped: 17 };
    let rows = pg_otel_tracer_status(&config, "1.0000".to_string(), stats);
    assert_eq!(rows[1], ("enabled".to_string(), "false".to_string()));
    assert_eq!(rows[3], ("queue_size".to_string(), "1024".to_string()));
    assert_eq!(rows[4], ("queue_dropped".to_string(), "17".to_string()));
}
