//! What the background worker does: wait, drain the shared queue, export in chunks, and start
//! over, until it is told to stop.
//!
//! A `Worker` says what to do next and is told what came of it.

use vstd::prelude::*;

use crate::span::{RawSpan, SpanModel};

verus! {

/// Maximum spans to export in a single HTTP request.
pub const EXPORT_CHUNK_SIZE: usize = 100;

/// How often the export of a chunk is attempted.
pub const EXPORT_ATTEMPTS: u32 = 3;

/// How long the worker waits for its latch between two drains.
pub const POLL_INTERVAL_MILLIS: u64 = 500;

/// Where the worker stands.
#[derive(Clone, Copy, Debug, PartialEq, Eq)]
pub enum WorkerPhase {
    /// Waiting for the latch.
    Waiting,
    /// Taking batches out of the shared queue.
    Draining,
    /// Exporting the chunk at hand, after `attempt` failures.
    Exporting { attempt: u32 },
    /// Waiting to export the chunk at hand again, failure number `attempt` being the last.
    BackingOff { attempt: u32 },
    /// Done.
    Stopped,
}

/// What the worker is to do next.
#[derive(Clone, Copy, Debug, PartialEq, Eq)]
pub enum WorkerAction {
    /// Wait for the latch, this long at most.
    Wait { millis: u64 },
    /// Pop a batch off the shared queue.
    Pop,
    /// Export the chunk at hand.
    Export,
    /// Sleep.
    Sleep { millis: u64 },
    /// Exit.
    Exit,
}

/// What came of an action.
pub enum WorkerEvent {
    /// The wait is over; `latch` is false where the latch says to stop.
    Woke { latch: bool, sigterm: bool },
    /// The queue held no batch.
    QueueEmpty,
    /// A batch of spans came off the queue.
    Batch(Vec<RawSpan>),
    /// What came off the queue was no batch of spans.
    Corrupt,
    /// The export succeeded.
    Exported,
    /// The export failed.
    ExportFailed,
    /// The export panicked.
    ExportPanicked,
    /// The sleep is over.
    Slept,
}

/// The background worker.
pub struct Worker {
    phase: WorkerPhase,
    /// The worker was told to stop; it drains and exports what is left first.
    stopping: bool,
    /// Spans to be exported after those of the chunk.
    batch: Vec<RawSpan>,
    /// Spans that are being exported.
    chunk: Vec<RawSpan>,
}

/// What the state of the worker says.
#[verifier::ext_equal]
pub struct WorkerModel {
    pub phase: WorkerPhase,
    pub stopping: bool,
    pub batch: Seq<SpanModel>,
    pub chunk: Seq<SpanModel>,
}

impl View for Worker {
    type V = WorkerModel;

    closed spec fn view(&self) -> WorkerModel {
        WorkerModel {
            phase: self.phase,
            stopping: self.stopping,
            batch: crate::span::spans_of(self.batch@),
            chunk: crate::span::spans_of(self.chunk@),
        }
    }
}

/// How long to wait after failure number `attempt` (from 0) before the next attempt, if there is
/// one.
pub open spec fn retry_delay(attempt: u32) -> Option<u64> {
    if attempt + 1 < EXPORT_ATTEMPTS {
        Some((100 * vstd::arithmetic::power2::pow2(attempt as nat)) as u64)
    } else {
        None
    }
}

/// How many spans the next chunk takes.
pub open spec fn chunk_len(available: nat) -> nat {
    if available < EXPORT_CHUNK_SIZE {
        available
    } else {
        EXPORT_CHUNK_SIZE as nat
    }
}

impl WorkerModel {
    /// A chunk is at hand exactly while it is exported, no larger than a chunk may be and tried no
    /// more often than it may be. The worker rests only when it holds nothing.
    pub open spec fn wf(self) -> bool {
        match self.phase {
            WorkerPhase::Waiting => self.held().len() == 0 && !self.stopping,
            WorkerPhase::Draining => self.chunk.len() == 0,
            WorkerPhase::Exporting { attempt } => {
                &&& 0 < self.chunk.len() <= EXPORT_CHUNK_SIZE
                &&& attempt < EXPORT_ATTEMPTS
            },
            WorkerPhase::BackingOff { attempt } => {
                &&& 0 < self.chunk.len() <= EXPORT_CHUNK_SIZE
                &&& attempt + 1 < EXPORT_ATTEMPTS
            },
            WorkerPhase::Stopped => self.held().len() == 0 && self.stopping,
        }
    }

    /// The spans that the worker holds, in the order in which they are exported.
    pub open spec fn held(self) -> Seq<SpanModel> {
        self.chunk + self.batch
    }

    /// Done with the chunk at hand: on to the next one, or to rest.
    pub open spec fn next_chunk(self) -> WorkerModel {
        if self.batch.len() > 0 {
            let n = chunk_len(self.batch.len()) as int;
            WorkerModel {
                phase: WorkerPhase::Exporting { attempt: 0 },
                chunk: self.batch.take(n),
                batch: self.batch.skip(n),
                ..self
            }
        } else {
            WorkerModel {
                phase: if self.stopping {
                    WorkerPhase::Stopped
                } else {
                    WorkerPhase::Waiting
                },
                chunk: Seq::empty(),
                ..self
            }
        }
    }

    /// The state after `event`. An event that answers no action of the phase changes nothing.
    pub open spec fn step(self, event: WorkerEvent) -> WorkerModel {
        match (self.phase, event) {
            (WorkerPhase::Waiting, WorkerEvent::Woke { latch, sigterm }) => WorkerModel {
                phase: WorkerPhase::Draining,
                stopping: !latch || sigterm,
                ..self
            },
            (WorkerPhase::Draining, WorkerEvent::Batch(spans)) => WorkerModel {
                batch: self.batch + crate::span::spans_of(spans@),
                ..self
            },
            (WorkerPhase::Draining, WorkerEvent::QueueEmpty) => self.next_chunk(),
            (WorkerPhase::Exporting { attempt }, WorkerEvent::Exported) => self.next_chunk(),
            (WorkerPhase::Exporting { attempt }, WorkerEvent::ExportPanicked) => self.next_chunk(),
            (WorkerPhase::Exporting { attempt }, WorkerEvent::ExportFailed) => {
                if retry_delay(attempt) is Some {
                    WorkerModel { phase: WorkerPhase::BackingOff { attempt }, ..self }
                } else {
                    self.next_chunk()
                }
            },
            (WorkerPhase::BackingOff { attempt }, WorkerEvent::Slept) => WorkerModel {
                phase: WorkerPhase::Exporting { attempt: (attempt + 1) as u32 },
                ..self
            },
            _ => self,
        }
    }

    /// What to do next.
    pub open spec fn action(self) -> WorkerAction {
        match self.phase {
            WorkerPhase::Waiting => WorkerAction::Wait { millis: POLL_INTERVAL_MILLIS },
            WorkerPhase::Draining => WorkerAction::Pop,
            WorkerPhase::Exporting { attempt } => WorkerAction::Export,
            WorkerPhase::BackingOff { attempt } => WorkerAction::Sleep {
                millis: match retry_delay(attempt) {
                    Some(millis) => millis,
                    None => 0,
                },
            },
            WorkerPhase::Stopped => WorkerAction::Exit,
        }
    }
}

/// How long to wait after failure number `attempt` (from 0) before the next attempt: exponential
/// backoff, and `None` once every attempt is used up.
pub fn retry_delay_millis(attempt: u32) -> (delay: Option<u64>)
    ensures
        delay == retry_delay(attempt),
{
    proof {
        vstd::arithmetic::power2::lemma2_to64();
    }
    match attempt {
        0 => Some(100),
        1 => Some(200),
        _ => None,
    }
}

impl Worker {
    /// A worker that is about to wait for its latch.
    pub fn new() -> (worker: Worker)
        ensures
            worker@ == (WorkerModel {
                phase: WorkerPhase::Waiting,
                stopping: false,
                batch: Seq::empty(),
                chunk: Seq::empty(),
            }),
            worker@.wf(),
    {
        let worker = Worker {
            phase: WorkerPhase::Waiting,
            stopping: false,
            batch: Vec::new(),
            chunk: Vec::new(),
        };
        assert(worker@.batch =~= Seq::empty());
        assert(worker@.chunk =~= Seq::empty());
        worker
    }

    /// What to do next.
    pub fn action(&self) -> (action: WorkerAction)
        ensures
            action == self@.action(),
    {
        match self.phase {
            WorkerPhase::Waiting => WorkerAction::Wait { millis: POLL_INTERVAL_MILLIS },
            WorkerPhase::Draining => WorkerAction::Pop,
            WorkerPhase::Exporting { .. } => WorkerAction::Export,
            WorkerPhase::BackingOff { attempt } => WorkerAction::Sleep {
                millis: match retry_delay_millis(attempt) {
                    Some(millis) => millis,
                    None => 0,
                },
            },
            WorkerPhase::Stopped => WorkerAction::Exit,
        }
    }

    /// Where the worker stands.
    pub fn phase(&self) -> (phase: WorkerPhase)
        ensures
            phase == self@.phase,
    {
        self.phase
    }

    /// The spans to be exported after those of the chunk at hand.
    pub fn batch(&self) -> (batch: &[RawSpan])
        ensures
            crate::span::spans_of(batch@) == self@.batch,
    {
        self.batch.as_slice()
    }

    /// The chunk at hand.
    pub fn chunk(&self) -> (chunk: &[RawSpan])
        ensures
            crate::span::spans_of(chunk@) == self@.chunk,
    {
        self.chunk.as_slice()
    }

    /// Whether what comes of an action is to be reported. That an attempt failed and is repeated
    /// always is; once the worker was told to stop, nothing else is.
    pub fn reports(&self) -> (reports: bool)
        ensures
            reports == !self@.stopping,
    {
        !self.stopping
    }

    /// Done with the chunk at hand.
    fn next_chunk(&mut self)
        ensures
            final(self)@ == old(self)@.next_chunk(),
    {
        if self.batch.len() > 0 {
            let n: usize = if self.batch.len() < EXPORT_CHUNK_SIZE {
                self.batch.len()
            } else {
                EXPORT_CHUNK_SIZE
            };
            let mut rest = self.batch.split_off(n);
            std::mem::swap(&mut rest, &mut self.batch);
            self.chunk = rest;
            self.phase = WorkerPhase::Exporting { attempt: 0 };
            assert(self@.batch =~= old(self)@.batch.skip(n as int));
            assert(self@.chunk =~= old(self)@.batch.take(n as int));
        } else {
            self.chunk = Vec::new();
            self.phase = if self.stopping {
                WorkerPhase::Stopped
            } else {
                WorkerPhase::Waiting
            };
            assert(self@.chunk =~= Seq::empty());
        }
    }

    /// Takes in what came of the last action.
    pub fn step(&mut self, event: WorkerEvent)
        requires
            old(self)@.wf(),
        ensures
            final(self)@ == old(self)@.step(event),
            final(self)@.wf(),
    {
        proof {
            step_keeps_wf(self@, event);
        }
        match (self.phase, event) {
            (WorkerPhase::Waiting, WorkerEvent::Woke { latch, sigterm }) => {
                self.stopping = !latch || sigterm;
                self.phase = WorkerPhase::Draining;
            },
            (WorkerPhase::Draining, WorkerEvent::Batch(spans)) => {
                let mut spans = spans;
                let ghost added = spans@;
                self.batch.append(&mut spans);
                assert(self@.batch =~= old(self)@.batch + crate::span::spans_of(added));
            },
            (WorkerPhase::Draining, WorkerEvent::QueueEmpty) => {
                self.next_chunk();
            },
            (WorkerPhase::Exporting { .. }, WorkerEvent::Exported) => {
                self.next_chunk();
            },
            (WorkerPhase::Exporting { .. }, WorkerEvent::ExportPanicked) => {
                self.next_chunk();
            },
            (WorkerPhase::Exporting { attempt }, WorkerEvent::ExportFailed) => {
                if retry_delay_millis(attempt).is_some() {
                    self.phase = WorkerPhase::BackingOff { attempt };
                } else {
                    self.next_chunk();
                }
            },
            (WorkerPhase::BackingOff { attempt }, WorkerEvent::Slept) => {
                self.phase = WorkerPhase::Exporting { attempt: attempt + 1 };
            },
            _ => {},
        }
    }
}

/// Every step keeps a chunk between one span and the most a request may hold, tries it no more
/// often than it may be tried, and comes to rest only with nothing left to export.
pub proof fn step_keeps_wf(model: WorkerModel, event: WorkerEvent)
    requires
        model.wf(),
    ensures
        model.step(event).wf(),
{
}

/// No span is lost, repeated or reordered: a step adds what came off the queue behind what is
/// held, or is done with the chunk at hand, in front, or leaves what is held as it is.
pub proof fn step_keeps_every_span(model: WorkerModel, event: WorkerEvent)
    requires
        model.wf(),
    ensures
        ({
            let next = model.step(event);
            match (model.phase, event) {
                (WorkerPhase::Draining, WorkerEvent::Batch(spans)) => next.held() == model.held()
                    + crate::span::spans_of(spans@),
                (WorkerPhase::Exporting { attempt }, _) if next != model
                    && next.phase != (WorkerPhase::BackingOff { attempt }) => model.chunk
                    + next.held() == model.held(),
                _ => next.held() == model.held(),
            }
        }),
{
    let next = model.step(event);
    let n = chunk_len(model.batch.len()) as int;
    assert(model.batch.take(n) + model.batch.skip(n) =~= model.batch);
    assert(model.next_chunk().held() =~= model.batch);
    assert(Seq::<SpanModel>::empty() + model.batch =~= model.batch);
    match (model.phase, event) {
        (WorkerPhase::Draining, WorkerEvent::Batch(spans)) => {
            assert(next.held() =~= model.held() + crate::span::spans_of(spans@));
        },
        (WorkerPhase::Draining, _) => {
            assert(model.chunk =~= Seq::empty());
            assert(next.held() =~= model.held());
        },
        _ => {},
    }
}

/// Once told to stop, the worker waits no more: it drains the queue, exports what it holds and
/// exits with nothing left.
pub proof fn stopping_worker_exits_empty(model: WorkerModel, event: WorkerEvent)
    requires
        model.wf(),
        model.stopping,
    ensures
        model.step(event).stopping,
        !(model.step(event).phase is Waiting),
        model.step(event).phase is Stopped ==> model.step(event).held().len() == 0,
{
    step_keeps_wf(model, event);
}

/// The state after `failures` failed attempts at the chunk at hand, each but the last followed
/// by its sleep.
pub open spec fn after_failures(model: WorkerModel, failures: nat) -> WorkerModel
    decreases failures,
{
    if failures == 0 {
        model
    } else if failures == 1 {
        model.step(WorkerEvent::ExportFailed)
    } else {
        after_failures(model, (failures - 1) as nat).step(WorkerEvent::Slept).step(
            WorkerEvent::ExportFailed,
        )
    }
}

/// Exponential backoff: the chunk at hand is attempted three times at most, the second time
/// after 100 ms and the third after 200 ms, and is then given up for the next one.
pub proof fn failing_chunk_is_retried_twice(model: WorkerModel)
    requires
        model.wf(),
        model.phase == (WorkerPhase::Exporting { attempt: 0 }),
    ensures
        model.action() == WorkerAction::Export,
        after_failures(model, 1).action() == (WorkerAction::Sleep { millis: 100 }),
        after_failures(model, 1).step(WorkerEvent::Slept).action() == WorkerAction::Export,
        after_failures(model, 1).step(WorkerEvent::Slept).chunk == model.chunk,
        after_failures(model, 2).action() == (WorkerAction::Sleep { millis: 200 }),
        after_failures(model, 2).step(WorkerEvent::Slept).action() == WorkerAction::Export,
        after_failures(model, 2).step(WorkerEvent::Slept).chunk == model.chunk,
        after_failures(model, 3) == model.next_chunk(),
{
    vstd::arithmetic::power2::lemma2_to64();
    reveal_with_fuel(after_failures, 4);
}

/// The chunks in which spans are exported.
pub open spec fn chunks_of(spans: Seq<SpanModel>) -> Seq<Seq<SpanModel>>
    decreases spans.len(),
{
    if spans.len() == 0 {
        Seq::empty()
    } else {
        let n = chunk_len(spans.len()) as int;
        seq![spans.take(n)] + chunks_of(spans.skip(n))
    }
}

/// The chunks are the spans, each once and in order; each holds at least one span and no more
/// than a request may.
pub proof fn chunks_make_up_the_spans(spans: Seq<SpanModel>)
    ensures
        chunks_of(spans).flatten() == spans,
        forall|i: int|
            0 <= i < chunks_of(spans).len() ==> 0 < (#[trigger] chunks_of(spans)[i]).len()
                <= EXPORT_CHUNK_SIZE,
    decreases spans.len(),
{
    if spans.len() == 0 {
        assert(chunks_of(spans).flatten() =~= spans);
    } else {
        let n = chunk_len(spans.len()) as int;
        let rest = chunks_of(spans.skip(n));
        chunks_make_up_the_spans(spans.skip(n));
        assert(chunks_of(spans) =~= seq![spans.take(n)] + rest);
        assert(chunks_of(spans).drop_first() =~= rest);
        assert(chunks_of(spans).flatten() =~= spans.take(n) + rest.flatten());
        assert(spans.take(n) + spans.skip(n) =~= spans);
        assert forall|i: int| 0 <= i < chunks_of(spans).len() implies 0 < (
        #[trigger] chunks_of(spans)[i]).len() <= EXPORT_CHUNK_SIZE by {
            if i > 0 {
                assert(chunks_of(spans)[i] == rest[i - 1]);
            }
        }
    }
}

/// The state after `count` chunks in a row were exported.
pub open spec fn after_exports(model: WorkerModel, count: nat) -> WorkerModel
    decreases count,
{
    if count == 0 {
        model
    } else {
        after_exports(model.step(WorkerEvent::Exported), (count - 1) as nat)
    }
}

/// When the queue is drained and every export succeeds, the chunks of the batch are exported one
/// after the other, and then the worker rests.
pub proof fn drained_batch_is_exported_in_chunks(model: WorkerModel, count: nat)
    requires
        model.wf(),
        model.phase is Draining,
        count <= chunks_of(model.batch).len(),
    ensures
        ({
            let state = after_exports(model.step(WorkerEvent::QueueEmpty), count);
            if count < chunks_of(model.batch).len() {
                &&& state.action() == WorkerAction::Export
                &&& state.chunk == chunks_of(model.batch)[count as int]
            } else {
                &&& state.held().len() == 0
                &&& state.phase == if model.stopping {
                    WorkerPhase::Stopped
                } else {
                    WorkerPhase::Waiting
                }
            }
        }),
{
    exports_go_through_the_chunks(model, count);
}

proof fn exports_go_through_the_chunks(model: WorkerModel, count: nat)
    requires
        count <= chunks_of(model.batch).len(),
    ensures
        ({
            let state = after_exports(model.next_chunk(), count);
            if count < chunks_of(model.batch).len() {
                &&& state.phase == (WorkerPhase::Exporting { attempt: 0 })
                &&& state.chunk == chunks_of(model.batch)[count as int]
            } else {
                &&& state.held().len() == 0
                &&& state.phase == if model.stopping {
                    WorkerPhase::Stopped
                } else {
                    WorkerPhase::Waiting
                }
            }
        }),
    decreases count,
{
    if model.batch.len() > 0 && count > 0 {
        let first = model.next_chunk();
        let n = chunk_len(model.batch.len()) as int;
        assert(chunks_of(model.batch) =~= seq![model.batch.take(n)] + chunks_of(first.batch));
        assert(first.step(WorkerEvent::Exported) == first.next_chunk());
        exports_go_through_the_chunks(first, (count - 1) as nat);
    }
}

} // verus!
