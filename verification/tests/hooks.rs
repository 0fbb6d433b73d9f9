use std::sync::Mutex;

use pg_otel_tracer::config::{set_enabled, set_sample_rate, Config};
use pg_otel_tracer::hooks::{add_event, start_span, Tracer, MAX_BUFFERED_SPANS};
use pg_otel_tracer::parser::TraceContext;
use pg_otel_tracer::shared::{queue_pop, SharedQueue, BUFFER_SIZE, MAX_PAYLOAD_SIZE, QUEUE_SIZE};
use pg_otel_tracer::span::SpanStatus;
use pg_otel_tracer::wait_events::WaitEventInfo;

const SQL: &str =
    "SELECT 1 /*traceparent='00-0af7651916cd43dd8448eb211c80319c-b7ad6b7169203331-01'*/";

static QUEUE: Mutex<SharedQueue> = Mutex::new(SharedQueue {
    write_idx: 0,
    read_idx: 0,
    dropped: 0,
    buffer: [0; BUFFER_SIZE],
    lengths: [0; QUEUE_SIZE],
});

fn context() -> TraceContext {
    TraceContext {
        trace_id: "0af7651916cd43dd8448eb211c80319c".to_string(),
        parent_span_id: "b7ad6b7169203331".to_string(),
        trace_flags: 1,
    }
}

fn waiting() -> Option<WaitEventInfo> {
    Some(WaitEventInfo { event_type: "Lock".to_string(), event_name: "relation".to_string() })
}

fn is_idle(tracer: &Tracer) -> bool {
    tracer.trace_ctx.is_none()
        && !tracer.sampled_out
        && tracer.span_buffer.is_empty()
        && tracer.planner_span.is_none()
        && tracer.exec_span.is_none()
        && tracer.run_spans.is_empty()
}

#[test]
fn query_lifecycle_yields_three_spans() {
    let mut tracer = Tracer::new(Config::new());
    assert!(tracer.planner_begin_with(Some(context()), true, "p".to_string(), 10));
    assert!(tracer.planner_end_with(20).is_empty());
    tracer.executor_start_with(None, false, "e".to_string(), 30);
    assert!(tracer.is_tracing());
    assert_eq!(tracer.executor_run_begin_with("r".to_string(), waiting(), 40, 41), Some(0));
    assert!(tracer.executor_run_end_with(0, waiting(), Some(7), 50, 51).is_empty());
    let batch = tracer.executor_end_with(60);
    assert!(is_idle(&tracer));

    assert_eq!(batch.len(), 3);
    let (planner, run, exec) = (&batch[0], &batch[1], &batch[2]);
    for span in &batch {
        assert_eq!(span.trace_id, "0af7651916cd43dd8448eb211c80319c");
        assert_eq!(span.status, SpanStatus::Unset);
    }
    assert_eq!(planner.name, "planner");
    assert_eq!(planner.span_id, "p");
    assert_eq!(planner.parent_span_id.as_deref(), Some("b7ad6b7169203331"));
    assert_eq!((planner.start_time_unix_nano, planner.end_time_unix_nano), (10, 20));
    assert!(planner.attributes.is_empty() && planner.events.is_empty());

    assert_eq!(exec.name, "query execution");
    assert_eq!(exec.span_id, "e");
    assert_eq!(exec.parent_span_id.as_deref(), Some("b7ad6b7169203331"));
    assert_eq!((exec.start_time_unix_nano, exec.end_time_unix_nano), (30, 60));

    assert_eq!(run.name, "executor run");
    assert_eq!(run.span_id, "r");
    assert_eq!(run.parent_span_id.as_deref(), Some("e"));
    assert_eq!((run.start_time_unix_nano, run.end_time_unix_nano), (40, 51));
    assert_eq!(run.attributes, vec![("db.row_count".to_string(), "7".to_string())]);
    assert_eq!(run.events.len(), 2);
    assert_eq!(run.events[0].name, "wait_event_before");
    assert_eq!(run.events[0].timestamp_unix_nano, 41);
    assert_eq!(
        run.events[0].attributes,
        vec![
            ("type".to_string(), "Lock".to_string()),
            ("event".to_string(), "relation".to_string()),
        ],
    );
    assert_eq!(run.events[1].name, "wait_event_after");
    assert_eq!(run.events[1].timestamp_unix_nano, 50);
}

#[test]
fn lifecycle_of_a_sql_text_is_traced() {
    let mut tracer = Tracer::new(Config::new());
    assert!(tracer.planner_begin(SQL, true));
    assert!(tracer.planner_end().is_empty());
    tracer.executor_start(Some(SQL), true);
    assert_eq!(tracer.executor_run_begin(None), Some(0));
    assert!(tracer.executor_run_end(0, None, None).is_empty());
    let batch = tracer.executor_end();
    assert!(is_idle(&tracer));
    let names: Vec<&str> = batch.iter().map(|s| s.name.as_str()).collect();
    assert_eq!(names, ["planner", "executor run", "query execution"]);
    for span in &batch {
        assert_eq!(span.trace_id, "0af7651916cd43dd8448eb211c80319c");
        assert_eq!(span.span_id.len(), 16);
        assert!(span.start_time_unix_nano <= span.end_time_unix_nano);
        assert!(span.start_time_unix_nano > 1_577_836_800_000_000_000);
    }
    assert_eq!(batch[1].parent_span_id.as_deref(), Some(batch[2].span_id.as_str()));
    assert_ne!(batch[0].span_id, batch[2].span_id);
    assert!(batch[1].events.is_empty() && batch[1].attributes.is_empty());
}

#[test]
fn cached_plan_takes_the_context_from_the_source_text() {
    let mut tracer = Tracer::new(Config::new());
    tracer.executor_start(Some(SQL), true);
    assert_eq!(tracer.executor_run_begin(waiting()), Some(0));
    assert!(tracer.executor_run_end(0, None, Some(0)).is_empty());
    let batch = tracer.executor_end();
    let names: Vec<&str> = batch.iter().map(|s| s.name.as_str()).collect();
    assert_eq!(names, ["executor run", "query execution"]);
    assert_eq!(batch[1].parent_span_id.as_deref(), Some("b7ad6b7169203331"));
    assert_eq!(batch[0].attributes[0].1, "0");
    assert!(is_idle(&tracer));
}

#[test]
fn execution_below_a_planner_in_flight_has_it_as_parent() {
    let mut tracer = Tracer::new(Config::new());
    tracer.planner_begin_with(Some(context()), true, "p".to_string(), 1);
    tracer.executor_start_with(None, true, "e".to_string(), 2);
    let exec = tracer.exec_span.as_ref().unwrap();
    assert_eq!(exec.parent_span_id.as_deref(), Some("p"));
}

#[test]
fn query_without_context_is_not_traced() {
    let mut tracer = Tracer::new(Config::new());
    assert!(tracer.planner_begin("SELECT 1", true));
    assert!(tracer.planner_end().is_empty());
    tracer.executor_start(Some("SELECT 1"), true);
    assert!(!tracer.is_tracing());
    assert_eq!(tracer.executor_run_begin(waiting()), None);
    assert!(tracer.executor_end().is_empty());
    assert!(is_idle(&tracer));
}

#[test]
fn executor_without_a_query_starts_nothing() {
    let mut tracer = Tracer::new(Config::new());
    tracer.planner_begin_with(Some(context()), true, "p".to_string(), 1);
    tracer.planner_end_with(2);
    tracer.executor_start(None, true);
    assert!(tracer.exec_span.is_none());
    assert_eq!(tracer.executor_run_begin_with("r".to_string(), None, 3, 3), Some(0));
    assert_eq!(
        tracer.run_spans[0].parent_span_id.as_deref(),
        Some("b7ad6b7169203331"),
    );
    tracer.executor_run_end_with(0, None, None, 4, 4);
    let batch = tracer.executor_end_with(5);
    let names: Vec<&str> = batch.iter().map(|s| s.name.as_str()).collect();
    assert_eq!(names, ["planner", "executor run"]);
}

#[test]
fn disabled_tracer_does_nothing() {
    let mut config = Config::new();
    set_enabled(&mut config, false);
    let mut tracer = Tracer::new(config);
    assert!(!tracer.planner_begin(SQL, true));
    tracer.executor_start(Some(SQL), true);
    assert_eq!(tracer.executor_run_begin(waiting()), None);
    assert!(tracer.executor_end().is_empty());
    assert!(is_idle(&tracer));
    assert_eq!(tracer.clock.latest, 0);
}

#[test]
fn switch_takes_effect_at_the_next_hook() {
    let mut tracer = Tracer::new(Config::new());
    tracer.planner_begin_with(Some(context()), true, "p".to_string(), 1);
    tracer.planner_end_with(2);
    set_enabled(&mut tracer.config, false);
    tracer.executor_start_with(Some(context()), true, "e".to_string(), 3);
    assert!(tracer.exec_span.is_none());
    assert!(!tracer.is_tracing());
    assert!(tracer.executor_end_with(4).is_empty());
    assert_eq!(tracer.span_buffer.len(), 1);
}

#[test]
fn sampled_out_query_is_decided_on_once() {
    let mut tracer = Tracer::new(Config::new());
    assert!(tracer.planner_begin_with(Some(context()), false, "p".to_string(), 1));
    assert!(tracer.planner_end_with(2).is_empty());
    tracer.executor_start_with(Some(context()), true, "e".to_string(), 3);
    assert_eq!(tracer.executor_run_begin_with("r".to_string(), waiting(), 4, 4), None);
    assert!(tracer.executor_end_with(5).is_empty());
    assert!(is_idle(&tracer));
    // The next query is decided on anew.
    tracer.executor_start_with(Some(context()), true, "e".to_string(), 6);
    assert!(tracer.is_tracing());
}

#[test]
fn sampled_out_cached_plan_is_not_traced() {
    let mut tracer = Tracer::new(Config::new());
    tracer.executor_start_with(Some(context()), false, "e".to_string(), 10);
    assert!(!tracer.is_tracing());
    assert_eq!(tracer.executor_run_begin_with("r".to_string(), waiting(), 20, 21), None);
    assert!(tracer.executor_end_with(30).is_empty());
    assert!(is_idle(&tracer));
}

#[test]
fn aborted_query_leaves_no_decision_behind() {
    let mut tracer = Tracer::new(Config::new());
    assert!(tracer.planner_begin_with(Some(context()), false, "p".to_string(), 10));
    assert!(tracer.sampled_out);
    tracer.end_transaction();
    assert!(is_idle(&tracer));
    tracer.executor_start_with(Some(context()), true, "e".to_string(), 20);
    assert!(tracer.is_tracing());
    // A trace that was begun is left as it is.
    tracer.end_transaction();
    assert!(tracer.is_tracing() && tracer.exec_span.is_some());
}

#[test]
fn traceparent_outside_a_comment_is_not_traced() {
    let literal = "SELECT 'traceparent=00-0af7651916cd43dd8448eb211c80319c-b7ad6b7169203331-01'";
    let mut tracer = Tracer::new(Config::new());
    assert!(tracer.planner_begin(literal, true));
    tracer.executor_start(Some(literal), true);
    assert_eq!(tracer.executor_run_begin(None), None);
    assert!(tracer.executor_end().is_empty());
}

#[test]
fn rate_zero_traces_nothing() {
    let mut config = Config::new();
    set_sample_rate(&mut config, 0);
    let mut tracer = Tracer::new(config);
    tracer.planner_begin(SQL, true);
    assert!(tracer.planner_end().is_empty());
    tracer.executor_start(Some(SQL), true);
    assert_eq!(tracer.executor_run_begin(None), None);
    assert!(tracer.executor_end().is_empty());
    tracer.executor_start(Some(SQL), true);
    assert!(!tracer.is_tracing());
    assert!(tracer.sampled_out);
    assert!(tracer.executor_end().is_empty());
    assert!(is_idle(&tracer));
}

#[test]
fn sampled_out_query_ends_a_stale_context() {
    let mut tracer = Tracer::new(Config::new());
    tracer.planner_begin_with(Some(context()), true, "p".to_string(), 1);
    tracer.planner_end_with(2);
    tracer.planner_begin_with(Some(context()), false, "q".to_string(), 3);
    assert!(!tracer.is_tracing());
}

#[test]
fn buffer_is_flushed_when_it_is_full() {
    let mut tracer = Tracer::new(Config::new());
    assert_eq!(MAX_BUFFERED_SPANS, 64);
    tracer.executor_start_with(Some(context()), true, "e".to_string(), 1);
    for i in 0..63u64 {
        tracer.executor_run_begin_with(format!("r{}", i), None, 2, 2);
        assert!(tracer.executor_run_end_with(0, None, None, 3, 3).is_empty());
    }
    assert_eq!(tracer.span_buffer.len(), 63);
    tracer.executor_run_begin_with("r63".to_string(), None, 4, 4);
    let batch = tracer.executor_run_end_with(0, None, None, 5, 5);
    assert_eq!(batch.len(), 64);
    assert_eq!(batch[0].span_id, "r0");
    assert_eq!(batch[63].span_id, "r63");
    assert!(tracer.span_buffer.is_empty());
    let rest = tracer.executor_end_with(6);
    assert_eq!(rest.len(), 1);
    assert_eq!(rest[0].span_id, "e");
}

#[test]
fn end_of_execution_flushes_a_nearly_full_buffer_at_once() {
    let mut tracer = Tracer::new(Config::new());
    tracer.executor_start_with(Some(context()), true, "e".to_string(), 1);
    for i in 0..63u64 {
        tracer.executor_run_begin_with(format!("r{}", i), None, 2, 2);
        tracer.executor_run_end_with(0, None, None, 3, 3);
    }
    let batch = tracer.executor_end_with(4);
    assert_eq!(batch.len(), 64);
    assert_eq!(batch[63].span_id, "e");
}

#[test]
fn runs_inside_runs_are_all_recorded() {
    let mut tracer = Tracer::new(Config::new());
    tracer.executor_start_with(Some(context()), true, "e".to_string(), 1);
    assert_eq!(tracer.executor_run_begin_with("outer".to_string(), waiting(), 2, 2), Some(0));
    assert_eq!(tracer.executor_run_begin_with("inner".to_string(), None, 3, 3), Some(1));
    assert!(tracer.executor_run_end_with(1, None, Some(1), 4, 4).is_empty());
    assert!(tracer.executor_run_end_with(0, None, Some(2), 5, 5).is_empty());
    // There is no such run.
    assert!(tracer.executor_run_end_with(0, None, None, 5, 5).is_empty());
    let batch = tracer.executor_end_with(6);
    let ids: Vec<&str> = batch.iter().map(|s| s.span_id.as_str()).collect();
    assert_eq!(ids, ["inner", "outer", "e"]);
    assert_eq!((batch[0].start_time_unix_nano, batch[0].end_time_unix_nano), (3, 4));
    assert_eq!((batch[1].start_time_unix_nano, batch[1].end_time_unix_nano), (2, 5));
    assert_eq!(batch[0].attributes[0].1, "1");
    assert_eq!(batch[1].attributes[0].1, "2");
    assert_eq!(batch[1].events.len(), 1);
    assert!(is_idle(&tracer));
}

#[test]
fn failed_run_does_not_displace_the_one_around_it() {
    let mut tracer = Tracer::new(Config::new());
    tracer.executor_start_with(Some(context()), true, "e".to_string(), 1);
    assert_eq!(tracer.executor_run_begin_with("outer".to_string(), None, 2, 2), Some(0));
    assert_eq!(tracer.executor_run_begin_with("failed".to_string(), None, 3, 3), Some(1));
    tracer.abort_subtransaction();
    assert!(tracer.executor_run_end_with(0, None, None, 5, 5).is_empty());
    let batch = tracer.executor_end_with(6);
    let ids: Vec<&str> = batch.iter().map(|s| s.span_id.as_str()).collect();
    assert_eq!(ids, ["outer", "e"]);
}

#[test]
fn end_of_a_transaction_forgets_runs_that_failed() {
    let mut tracer = Tracer::new(Config::new());
    tracer.executor_start_with(Some(context()), true, "e".to_string(), 1);
    assert_eq!(tracer.executor_run_begin_with("failed".to_string(), None, 2, 2), Some(0));
    tracer.end_transaction();
    assert!(tracer.run_spans.is_empty());
    assert_eq!(tracer.executor_run_begin_with("r".to_string(), None, 3, 3), Some(0));
}

#[test]
fn setting_tells_how_strings_are_read() {
    let sql = "SELECT 'it\\'s' /*traceparent='00-0af7651916cd43dd8448eb211c80319c-b7ad6b7169203331-01'*/";
    let mut tracer = Tracer::new(Config::new());
    assert!(tracer.planner_begin(sql, true));
    assert!(is_idle(&tracer));
    assert!(tracer.planner_begin(sql, false));
    assert!(tracer.planner_span.is_some());
    let mut tracer = Tracer::new(Config::new());
    tracer.executor_start(Some(sql), true);
    assert!(!tracer.is_tracing());
    tracer.executor_start(Some(sql), false);
    assert!(tracer.is_tracing());
}

#[test]
fn spans_do_not_end_before_they_start() {
    let mut tracer = Tracer::new(Config::new());
    tracer.planner_begin_with(Some(context()), true, "p".to_string(), 100);
    tracer.planner_end_with(90);
    let span = &tracer.span_buffer[0];
    assert_eq!((span.start_time_unix_nano, span.end_time_unix_nano), (100, 100));
}

#[test]
fn span_helpers_fill_every_field() {
    let mut span = start_span("x", &context(), Some("parent".to_string()), "id".to_string(), 9);
    assert_eq!(span.parent_span_id.as_deref(), Some("parent"));
    assert_eq!(span.name, "x");
    assert_eq!(span.start_time_unix_nano, 9);
    assert_eq!(span.end_time_unix_nano, 0);
    add_event(&mut span, "e", vec![("k".to_string(), "v".to_string())], 11);
    assert_eq!(span.events.len(), 1);
    assert_eq!(span.events[0].name, "e");
    assert_eq!(span.events[0].timestamp_unix_nano, 11);
    assert_eq!(span.events[0].attributes, vec![("k".to_string(), "v".to_string())]);
    let mut tracer = Tracer::new(Config::new());
    assert!(tracer.finish_span(span, 12).is_empty());
    assert_eq!(tracer.span_buffer[0].end_time_unix_nano, 12);
}

#[test]
fn flushing_warns_once_when_the_queue_takes_no_more() {
    let mut queue = QUEUE.lock().unwrap();
    let mut tracer = Tracer::new(Config::new());
    assert!(!tracer.flush(None, b"data"));
    assert!(!tracer.flush(Some(&mut queue), b"data"));
    assert_eq!(queue_pop(Some(&mut queue)), Some(b"data".to_vec()));
    assert_eq!(tracer.clock.latest, 0);
    let long = vec![0u8; MAX_PAYLOAD_SIZE + 1];
    assert!(tracer.flush_with(Some(&mut queue), &long, 60_000_000_001));
    assert!(!tracer.flush_with(Some(&mut queue), &long, 120_000_000_001));
    assert!(tracer.flush_with(Some(&mut queue), &long, 120_000_000_002));
    for _ in 0..QUEUE_SIZE {
        assert!(!tracer.flush_with(Some(&mut queue), b"x", 0));
    }
    assert!(tracer.flush(Some(&mut queue), b"x"));
    assert!(!tracer.flush(Some(&mut queue), b"x"));
    assert_eq!(queue.dropped, 2);
}
