//! What the background worker does with what comes its way.

use vstd::prelude::*;

use crate::bgw::{retry_delay_millis, Worker, WorkerAction, WorkerEvent, WorkerModel, WorkerPhase};
use crate::span::SpanModel;

verus! {

/// The worker's next wait, or its end where it was told to stop, with nothing left to export.
pub open spec fn is_at_rest(model: WorkerModel, stopping: bool) -> bool {
    &&& model.batch.len() == 0 && model.chunk.len() == 0
    &&& model.stopping == stopping
    &&& if stopping {
        model.phase is Stopped
    } else {
        model.phase is Waiting
    }
}

/// The first attempt at the first spans of `spans`, a hundred or all if there are fewer, with the
/// rest to come.
pub open spec fn is_exporting(model: WorkerModel, spans: Seq<SpanModel>, stopping: bool) -> bool {
    &&& model.phase == (WorkerPhase::Exporting { attempt: 0 })
    &&& model.chunk + model.batch == spans
    &&& model.chunk.len() == 100 || model.chunk.len() < 100 && model.batch.len() == 0
    &&& model.chunk.len() > 0
    &&& model.stopping == stopping
}

/// The spans in `spans` are next: exported, or, if there are none, nothing is left to do.
pub open spec fn goes_on_with(model: WorkerModel, spans: Seq<SpanModel>, stopping: bool) -> bool {
    if spans.len() > 0 {
        is_exporting(model, spans, stopping)
    } else {
        is_at_rest(model, stopping)
    }
}

/// A worker that waits drains the queue whatever wakes it; it was told to stop if the latch or the
/// signal says so.
pub proof fn waking_starts_a_drain(model: WorkerModel, latch: bool, sigterm: bool)
    requires
        model.phase is Waiting,
    ensures
        ({
            let next = model.step(WorkerEvent::Woke { latch, sigterm });
            &&& next.phase is Draining
            &&& next.stopping == (!latch || sigterm)
            &&& next.batch == model.batch && next.chunk == model.chunk
        }),
{
}

/// A drain goes on until the queue is empty: a batch is kept behind those before it and the next one
/// is popped, and so it is after anything else that comes off the queue, whether or not the worker
/// was told to stop.
pub proof fn drain_goes_on_until_the_queue_is_empty(model: WorkerModel, event: WorkerEvent)
    requires
        model.phase is Draining,
        !(event is QueueEmpty),
    ensures
        model.step(event).phase is Draining,
        model.step(event).action() == WorkerAction::Pop,
        model.step(event).stopping == model.stopping,
        model.step(event).chunk == model.chunk,
        event matches WorkerEvent::Batch(spans) ==> {
            &&& model.step(event).batch.len() == model.batch.len() + spans@.len()
            &&& forall|i: int|
                0 <= i < model.batch.len() ==> #[trigger] model.step(event).batch[i]
                    == model.batch[i]
            &&& forall|i: int|
                0 <= i < spans@.len() ==> #[trigger] model.step(event).batch[model.batch.len() + i]
                    == spans@[i]@
        },
        !(event is Batch) ==> model.step(event).batch == model.batch,
{
}

/// Only once the queue is empty are the spans that came off it exported; a worker that was told to
/// stop exports them too.
pub proof fn drained_spans_are_exported(model: WorkerModel)
    requires
        model.phase is Draining,
    ensures
        goes_on_with(model.step(WorkerEvent::QueueEmpty), model.batch, model.stopping),
{
    let next = model.step(WorkerEvent::QueueEmpty);
    if model.batch.len() > 0 {
        assert(next.chunk + next.batch =~= model.batch);
    }
}

/// A chunk that is exported, or whose export panics, is done with, and the worker goes on with the
/// rest.
pub proof fn chunk_is_done_with(model: WorkerModel, event: WorkerEvent)
    requires
        model.phase is Exporting,
        event is Exported || event is ExportPanicked,
    ensures
        goes_on_with(model.step(event), model.batch, model.stopping),
{
    let next = model.step(event);
    if model.batch.len() > 0 {
        assert(next.chunk + next.batch =~= model.batch);
    }
}

/// A chunk whose export fails is tried again after 100 ms and after 200 ms, as it is; after the third
/// failure the worker goes on with the rest.
pub proof fn failed_chunk_is_tried_three_times(model: WorkerModel, attempt: u32)
    requires
        model.phase == (WorkerPhase::Exporting { attempt }),
    ensures
        ({
            let failed = model.step(WorkerEvent::ExportFailed);
            if attempt < 2 {
                &&& failed.action() == (WorkerAction::Sleep {
                    millis: if attempt == 0 {
                        100
                    } else {
                        200
                    },
                })
                &&& failed.chunk == model.chunk && failed.batch == model.batch
                &&& failed.stopping == model.stopping
                &&& failed.step(WorkerEvent::Slept) == (WorkerModel {
                    phase: WorkerPhase::Exporting { attempt: (attempt + 1) as u32 },
                    ..model
                })
            } else {
                goes_on_with(failed, model.batch, model.stopping)
            }
        }),
{
    vstd::arithmetic::power2::lemma2_to64();
    let failed = model.step(WorkerEvent::ExportFailed);
    if attempt >= 2 && model.batch.len() > 0 {
        assert(failed.chunk + failed.batch =~= model.batch);
    }
}

/// What the worker does where it stands: wait half a second at most, pop, export or exit.
pub proof fn worker_acts_by_its_phase(model: WorkerModel)
    ensures
        model.phase is Waiting <==> model.action() == (WorkerAction::Wait { millis: 500 }),
        model.phase is Draining <==> model.action() == WorkerAction::Pop,
        model.phase is Exporting <==> model.action() == WorkerAction::Export,
        model.phase is Stopped <==> model.action() == WorkerAction::Exit,
{
}

/// The worker waits or exits only after a pop that found the queue empty and with every span off it
/// done with: from no other step does it come to rest.
pub proof fn worker_rests_only_with_nothing_left(model: WorkerModel, event: WorkerEvent)
    requires
        !(model.phase is Waiting) && !(model.phase is Stopped),
        model.step(event).phase is Waiting || model.step(event).phase is Stopped,
    ensures
        model.batch.len() == 0,
        model.phase is Draining ==> event is QueueEmpty,
        model.phase is Draining || model.phase is Exporting,
        model.step(event).phase is Stopped <==> model.stopping,
{
}

/// A worker that has stopped stays so, and an event that answers no action changes nothing.
pub proof fn event_out_of_place_changes_nothing(model: WorkerModel, event: WorkerEvent)
    requires
        match model.phase {
            WorkerPhase::Waiting => !(event is Woke),
            WorkerPhase::Draining => !(event is Batch) && !(event is QueueEmpty),
            WorkerPhase::Exporting { .. } => !(event is Exported) && !(event is ExportFailed) && !(
            event is ExportPanicked),
            WorkerPhase::BackingOff { .. } => !(event is Slept),
            WorkerPhase::Stopped => true,
        },
    ensures
        model.step(event) == model,
{
}

/// After the first failure the worker waits 100 ms, after the second 200 ms, and there is no attempt
/// after the third; a worker starts out waiting, with nothing to export.
pub proof fn backoff_doubles_and_ends(attempt: u32, delay: Option<u64>, worker: Worker)
    ensures
        call_ensures(retry_delay_millis, (attempt,), delay) ==> delay == (if attempt == 0 {
            Some(100u64)
        } else if attempt == 1 {
            Some(200u64)
        } else {
            None
        }),
        call_ensures(Worker::new, (), worker) ==> is_at_rest(worker@, false),
{
    vstd::arithmetic::power2::lemma2_to64();
}

} // verus!
