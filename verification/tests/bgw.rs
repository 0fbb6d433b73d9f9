use pg_otel_tracer::bgw::{
    retry_delay_millis, Worker, WorkerAction, WorkerEvent, WorkerPhase, EXPORT_CHUNK_SIZE,
};
use pg_otel_tracer::span::{RawSpan, SpanStatus};

fn spans(from: usize, count: usize) -> Vec<RawSpan> {
    (from..from + count)
        .map(|i| RawSpan {
            trace_id: "t".to_string(),
            span_id: i.to_string(),
            parent_span_id: None,
            name: "n".to_string(),
            start_time_unix_nano: 1,
            end_time_unix_nano: 2,
            attributes: vec![],
            events: vec![],
            status: SpanStatus::Unset,
        })
        .collect()
}

fn ids(spans: &[RawSpan]) -> Vec<usize> {
    spans.iter().map(|s| s.span_id.parse().unwrap()).collect()
}

fn draining() -> Worker {
    let mut worker = Worker::new();
    worker.step(WorkerEvent::Woke { latch: true, sigterm: false });
    worker
}

#[test]
fn worker_waits_half_a_second_between_drains() {
    let mut worker = Worker::new();
    assert_eq!(worker.action(), WorkerAction::Wait { millis: 500 });
    worker.step(WorkerEvent::Woke { latch: true, sigterm: false });
    assert_eq!(worker.action(), WorkerAction::Pop);
    worker.step(WorkerEvent::QueueEmpty);
    assert_eq!(worker.action(), WorkerAction::Wait { millis: 500 });
}

#[test]
fn spans_are_exported_in_chunks_in_order() {
    let mut worker = draining();
    worker.step(WorkerEvent::Batch(spans(0, 150)));
    worker.step(WorkerEvent::Corrupt);
    worker.step(WorkerEvent::Batch(spans(150, 70)));
    worker.step(WorkerEvent::Batch(vec![]));
    worker.step(WorkerEvent::QueueEmpty);
    let mut exported = Vec::new();
    let mut sizes = Vec::new();
    while worker.action() == WorkerAction::Export {
        sizes.push(worker.chunk().len());
        exported.extend(ids(worker.chunk()));
        worker.step(WorkerEvent::Exported);
    }
    assert_eq!(EXPORT_CHUNK_SIZE, 100);
    assert_eq!(sizes, [100, 100, 20]);
    assert_eq!(exported, (0..220).collect::<Vec<usize>>());
    assert_eq!(worker.phase(), WorkerPhase::Waiting);
    assert!(worker.chunk().is_empty() && worker.batch().is_empty());
}

#[test]
fn failed_export_is_retried_with_backoff() {
    let mut worker = draining();
    worker.step(WorkerEvent::Batch(spans(0, 101)));
    worker.step(WorkerEvent::QueueEmpty);
    let mut delays = Vec::new();
    let mut attempts = 0;
    while ids(worker.chunk()).first() == Some(&0) {
        match worker.action() {
            WorkerAction::Export => {
                attempts += 1;
                worker.step(WorkerEvent::ExportFailed);
            }
            WorkerAction::Sleep { millis } => {
                delays.push(millis);
                worker.step(WorkerEvent::Slept);
            }
            other => panic!("{:?}", other),
        }
    }
    assert_eq!(attempts, 3);
    assert_eq!(delays, [100, 200]);
    // The chunk is given up; the next one starts afresh.
    assert_eq!(worker.phase(), WorkerPhase::Exporting { attempt: 0 });
    assert_eq!(ids(worker.chunk()), [100]);
}

#[test]
fn retried_export_can_succeed() {
    let mut worker = draining();
    worker.step(WorkerEvent::Batch(spans(0, 1)));
    worker.step(WorkerEvent::QueueEmpty);
    worker.step(WorkerEvent::ExportFailed);
    assert_eq!(worker.action(), WorkerAction::Sleep { millis: 100 });
    worker.step(WorkerEvent::Slept);
    assert_eq!(worker.action(), WorkerAction::Export);
    assert_eq!(ids(worker.chunk()), [0]);
    worker.step(WorkerEvent::Exported);
    assert_eq!(worker.phase(), WorkerPhase::Waiting);
}

#[test]
fn panicking_export_is_not_retried() {
    let mut worker = draining();
    worker.step(WorkerEvent::Batch(spans(0, 130)));
    worker.step(WorkerEvent::QueueEmpty);
    worker.step(WorkerEvent::ExportPanicked);
    assert_eq!(ids(worker.chunk()), (100..130).collect::<Vec<usize>>());
    worker.step(WorkerEvent::ExportPanicked);
    assert_eq!(worker.phase(), WorkerPhase::Waiting);
}

#[test]
fn stopping_worker_drains_and_exports_first() {
    for (latch, sigterm) in [(false, false), (true, true), (false, true)] {
        let mut worker = Worker::new();
        assert!(worker.reports());
        worker.step(WorkerEvent::Woke { latch, sigterm });
        assert!(!worker.reports());
        assert_eq!(worker.action(), WorkerAction::Pop);
        worker.step(WorkerEvent::Batch(spans(0, 101)));
        worker.step(WorkerEvent::QueueEmpty);
        assert_eq!(worker.action(), WorkerAction::Export);
        assert_eq!(worker.chunk().len(), 100);
        worker.step(WorkerEvent::Exported);
        assert_eq!(worker.action(), WorkerAction::Export);
        worker.step(WorkerEvent::Exported);
        assert_eq!(worker.action(), WorkerAction::Exit);
    }
}

#[test]
fn stopping_worker_with_nothing_to_do_exits() {
    let mut worker = Worker::new();
    worker.step(WorkerEvent::Woke { latch: true, sigterm: true });
    worker.step(WorkerEvent::QueueEmpty);
    assert_eq!(worker.action(), WorkerAction::Exit);
}

#[test]
fn event_out_of_place_changes_nothing() {
    let mut worker = Worker::new();
    worker.step(WorkerEvent::Exported);
    worker.step(WorkerEvent::Batch(spans(0, 3)));
    worker.step(WorkerEvent::Slept);
    assert_eq!(worker.phase(), WorkerPhase::Waiting);
    assert!(worker.batch().is_empty());
}

#[test]
fn backoff_doubles_and_ends() {
    assert_eq!(retry_delay_millis(0), Some(100));
    assert_eq!(retry_delay_millis(1), Some(200));
    assert_eq!(retry_delay_millis(2), None);
    assert_eq!(retry_delay_millis(u32::MAX), None);
}
