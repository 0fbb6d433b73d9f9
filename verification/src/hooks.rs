//! What the query lifecycle hooks do with spans.
//!
//! A `Tracer` is the tracing state of one backend. The planner hook and the three executor
//! hooks call it before and after the work they surround; it hands back the batches of spans
//! that are to go to the shared queue.

use vstd::prelude::*;

use crate::config::{is_enabled, should_sample, warn_queue_full_at, Config};
use crate::parser::{TraceContext, TraceContextModel, TraceparentRegex};
use crate::shared::{queue_push, SharedQueue};
use crate::span::{
    generate_span_id, read_clock, Clock, EventModel, RawEvent, RawSpan, SpanModel, SpanStatus,
};
use crate::text::to_decimal;
use crate::wait_events::{WaitEventInfo, WaitEventModel};

verus! {

/// Spans that a backend buffers before it flushes them in any case.
pub const MAX_BUFFERED_SPANS: usize = 64;

// ─────────────────────────────────────────────────────────────
// Span helpers
// ─────────────────────────────────────────────────────────────

/// The texts of an optional context.
pub open spec fn context_model(ctx: Option<TraceContext>) -> Option<TraceContextModel> {
    match ctx {
        Some(c) => Some(c@),
        None => None,
    }
}

/// What an optional span says.
pub open spec fn span_model(span: Option<RawSpan>) -> Option<SpanModel> {
    match span {
        Some(s) => Some(s@),
        None => None,
    }
}

/// A span that starts at `now`, below `parent` or else below the remote parent.
pub open spec fn started(
    name: Seq<char>,
    ctx: TraceContextModel,
    parent: Option<Seq<char>>,
    span_id: Seq<char>,
    now: u64,
) -> SpanModel {
    SpanModel {
        trace_id: ctx.trace_id,
        span_id,
        parent_span_id: Some(
            match parent {
                Some(id) => id,
                None => ctx.parent_span_id,
            },
        ),
        name,
        start_time_unix_nano: now,
        end_time_unix_nano: 0,
        attributes: Seq::empty(),
        events: Seq::empty(),
        status: SpanStatus::Unset,
    }
}

/// `span` with its end at `now`.
pub open spec fn finished(span: SpanModel, now: u64) -> SpanModel {
    SpanModel { end_time_unix_nano: now, ..span }
}

/// The event of a wait event sampled at `now`.
pub open spec fn wait_event_entry(name: Seq<char>, wait: WaitEventModel, now: u64) -> EventModel {
    EventModel {
        name,
        timestamp_unix_nano: now,
        attributes: seq![("type"@, wait.event_type), ("event"@, wait.event_name)],
    }
}

/// `span` with the wait event that was sampled at `now`, if any.
pub open spec fn with_wait_event(
    span: SpanModel,
    name: Seq<char>,
    wait: Option<WaitEventModel>,
    now: u64,
) -> SpanModel {
    match wait {
        Some(w) => SpanModel { events: span.events.push(wait_event_entry(name, w, now)), ..span },
        None => span,
    }
}

/// `span` with the number of rows that the executor processed, if known.
pub open spec fn with_row_count(span: SpanModel, rows: Option<u64>) -> SpanModel {
    match rows {
        Some(n) => SpanModel {
            attributes: span.attributes.push(
                ("db.row_count"@, crate::text::decimal_text(n as nat)),
            ),
            ..span
        },
        None => span,
    }
}

/// A span that starts at `now`.
pub fn start_span(
    name: &str,
    ctx: &TraceContext,
    parent_span_id: Option<String>,
    span_id: String,
    now: u64,
) -> (span: RawSpan)
    ensures
        span@ == started(name@, ctx@, crate::span::text_of(parent_span_id), span_id@, now),
{
    let parent = match parent_span_id {
        Some(id) => id,
        None => ctx.parent_span_id.clone(),
    };
    let span = RawSpan {
        trace_id: ctx.trace_id.clone(),
        span_id,
        parent_span_id: Some(parent),
        name: name.to_string(),
        start_time_unix_nano: now,
        end_time_unix_nano: 0,
        attributes: Vec::new(),
        events: Vec::new(),
        status: SpanStatus::Unset,
    };
    assert(span@ =~= started(name@, ctx@, crate::span::text_of(parent_span_id), span_id@, now));
    span
}

/// Adds an event that happens at `now`.
pub fn add_event(span: &mut RawSpan, name: &str, attrs: Vec<(String, String)>, now: u64)
    ensures
        final(span)@ == (SpanModel {
            events: old(span)@.events.push(
                EventModel {
                    name: name@,
                    timestamp_unix_nano: now,
                    attributes: crate::span::attributes_of(attrs@),
                },
            ),
            ..old(span)@
        }),
{
    span.events.push(
        RawEvent { name: name.to_string(), timestamp_unix_nano: now, attributes: attrs },
    );
    assert(span@.events =~= old(span)@.events.push(
        EventModel {
            name: name@,
            timestamp_unix_nano: now,
            attributes: crate::span::attributes_of(attrs@),
        },
    ));
}

/// Adds the wait event that was sampled at `now`, if any.
fn add_wait_event(span: &mut RawSpan, name: &str, wait: Option<WaitEventInfo>, now: u64)
    ensures
        final(span)@ == with_wait_event(
            old(span)@,
            name@,
            crate::wait_events::wait_model(wait),
            now,
        ),
{
    if let Some(we) = wait {
        let mut attrs: Vec<(String, String)> = Vec::new();
        attrs.push(("type".to_string(), we.event_type));
        attrs.push(("event".to_string(), we.event_name));
        assert(crate::span::attributes_of(attrs@) =~= seq![
            ("type"@, we@.event_type),
            ("event"@, we@.event_name),
        ]);
        add_event(span, name, attrs, now);
    }
}

/// Attaches the number of rows that the executor processed, if known.
fn add_row_count(span: &mut RawSpan, rows: Option<u64>)
    ensures
        final(span)@ == with_row_count(old(span)@, rows),
{
    if let Some(n) = rows {
        span.attributes.push(("db.row_count".to_string(), to_decimal(n)));
        assert(span@.attributes =~= with_row_count(old(span)@, rows).attributes);
    }
}

// ─────────────────────────────────────────────────────────────
// Per-backend state
// ─────────────────────────────────────────────────────────────

/// The tracing state of one backend.
pub struct Tracer {
    pub config: Config,
    pub clock: Clock,
    pub traceparent: TraceparentRegex,
    /// The context of the query that is being traced.
    pub trace_ctx: Option<TraceContext>,
    /// The query at hand carries a context, and sampling decided against it.
    pub sampled_out: bool,
    pub span_buffer: Vec<RawSpan>,
    pub planner_span: Option<RawSpan>,
    pub exec_span: Option<RawSpan>,
    /// The spans of the executor's runs in progress, one inside the other, the outermost first.
    pub run_spans: Vec<RawSpan>,
}

/// What the tracing state of a backend says.
#[verifier::ext_equal]
pub struct TracerModel {
    pub config: Config,
    pub now: u64,
    pub trace_ctx: Option<TraceContextModel>,
    pub sampled_out: bool,
    pub span_buffer: Seq<SpanModel>,
    pub planner_span: Option<SpanModel>,
    pub exec_span: Option<SpanModel>,
    pub run_spans: Seq<SpanModel>,
}

impl View for Tracer {
    type V = TracerModel;

    open spec fn view(&self) -> TracerModel {
        TracerModel {
            config: self.config,
            now: self.clock.latest,
            trace_ctx: context_model(self.trace_ctx),
            sampled_out: self.sampled_out,
            span_buffer: crate::span::spans_of(self.span_buffer@),
            planner_span: span_model(self.planner_span),
            exec_span: span_model(self.exec_span),
            run_spans: crate::span::spans_of(self.run_spans@),
        }
    }
}

/// A span that has started, by a clock that stands at `now`, and has not ended.
pub open spec fn is_open(span: SpanModel, now: u64) -> bool {
    &&& span.start_time_unix_nano <= now
    &&& span.end_time_unix_nano == 0
    &&& forall|i: int|
        0 <= i < span.events.len() ==> span.start_time_unix_nano
            <= (#[trigger] span.events[i]).timestamp_unix_nano <= now
}

/// A span that ends no earlier than it starts, with its events in between.
pub open spec fn is_closed(span: SpanModel) -> bool {
    &&& span.start_time_unix_nano <= span.end_time_unix_nano
    &&& forall|i: int|
        0 <= i < span.events.len() ==> span.start_time_unix_nano
            <= (#[trigger] span.events[i]).timestamp_unix_nano <= span.end_time_unix_nano
}

/// A batch that fits the buffer, of spans that have ended.
pub open spec fn is_batch(batch: Seq<SpanModel>) -> bool {
    &&& batch.len() <= MAX_BUFFERED_SPANS
    &&& forall|i: int| 0 <= i < batch.len() ==> is_closed(#[trigger] batch[i])
}

impl TracerModel {
    /// Fewer spans are buffered than force a flush, all of them have ended, and those in flight
    /// have not.
    pub open spec fn wf(self) -> bool {
        &&& self.span_buffer.len() < MAX_BUFFERED_SPANS
        &&& is_batch(self.span_buffer)
        &&& (self.planner_span matches Some(s) ==> is_open(s, self.now))
        &&& (self.exec_span matches Some(s) ==> is_open(s, self.now))
        &&& forall|i: int|
            0 <= i < self.run_spans.len() ==> is_open(#[trigger] self.run_spans[i], self.now)
    }

    /// Nothing is being traced and nothing waits to be flushed.
    pub open spec fn is_idle(self) -> bool {
        &&& self.trace_ctx is None
        &&& !self.sampled_out
        &&& self.span_buffer.len() == 0
        &&& self.planner_span is None
        &&& self.exec_span is None
        &&& self.run_spans.len() == 0
    }

    /// The state after the system clock was read.
    pub open spec fn at(self, reading: u64) -> TracerModel {
        TracerModel { now: crate::span::later(self.now, reading), ..self }
    }

    /// Ends `span`, and flushes the buffer if that fills it: the next state and the batch to
    /// flush.
    pub open spec fn finish_span(self, span: SpanModel, reading: u64) -> (
        TracerModel,
        Seq<SpanModel>,
    ) {
        let next = self.at(reading);
        let buffer = self.span_buffer.push(finished(span, next.now));
        if buffer.len() >= MAX_BUFFERED_SPANS {
            (TracerModel { span_buffer: Seq::empty(), ..next }, buffer)
        } else {
            (TracerModel { span_buffer: buffer, ..next }, Seq::empty())
        }
    }

    /// Before planning: a query that carries a context is traced if it is sampled.
    pub open spec fn planner_begin(
        self,
        incoming: Option<TraceContextModel>,
        sampled: bool,
        span_id: Seq<char>,
        reading: u64,
    ) -> TracerModel {
        if !self.config.enabled {
            self
        } else {
            match incoming {
                Some(ctx) if sampled => {
                    let next = self.at(reading);
                    TracerModel {
                        trace_ctx: Some(ctx),
                        sampled_out: false,
                        planner_span: Some(started("planner"@, ctx, None, span_id, next.now)),
                        ..next
                    }
                },
                Some(_) => TracerModel { trace_ctx: None, sampled_out: true, ..self },
                None => self,
            }
        }
    }

    /// After planning: the planner span, if any, ends.
    pub open spec fn planner_end(self, reading: u64) -> (TracerModel, Seq<SpanModel>) {
        match self.planner_span {
            Some(span) => TracerModel { planner_span: None, ..self }.finish_span(span, reading),
            None => (self, Seq::empty()),
        }
    }

    /// The context in which a query executes: that of the trace at hand, or else what the query
    /// itself carries if it is sampled and was not decided on before.
    pub open spec fn execution_context(
        self,
        incoming: Option<TraceContextModel>,
        sampled: bool,
    ) -> Option<TraceContextModel> {
        if self.trace_ctx is Some {
            self.trace_ctx
        } else if sampled && !self.sampled_out {
            incoming
        } else {
            None
        }
    }

    /// Execution starts: the span of the execution begins, below the planner span or else
    /// below the remote parent.
    pub open spec fn executor_start(
        self,
        incoming: Option<TraceContextModel>,
        sampled: bool,
        span_id: Seq<char>,
        reading: u64,
    ) -> TracerModel {
        if !self.config.enabled {
            self
        } else {
            match self.execution_context(incoming, sampled) {
                Some(ctx) => {
                    let next = self.at(reading);
                    let parent = match self.planner_span {
                        Some(span) => Some(span.span_id),
                        None => None,
                    };
                    TracerModel {
                        trace_ctx: Some(ctx),
                        exec_span: Some(
                            started("query execution"@, ctx, parent, span_id, next.now),
                        ),
                        ..next
                    }
                },
                None => TracerModel { sampled_out: self.sampled_out || incoming is Some, ..self },
            }
        }
    }

    /// Whether the executor's run is traced.
    pub open spec fn is_tracing(self) -> bool {
        self.config.enabled && self.trace_ctx is Some
    }

    /// Before the executor runs: the span of the run begins, below the execution span or else
    /// below the remote parent, with the wait event at hand.
    pub open spec fn run_begin(
        self,
        span_id: Seq<char>,
        wait: Option<WaitEventModel>,
        start_reading: u64,
        event_reading: u64,
    ) -> TracerModel {
        if !self.is_tracing() {
            self
        } else {
            let start = self.at(start_reading);
            let next = start.at(event_reading);
            let parent = match self.exec_span {
                Some(span) => Some(span.span_id),
                None => None,
            };
            let span = started("executor run"@, self.trace_ctx->0, parent, span_id, start.now);
            TracerModel {
                run_spans: self.run_spans.push(
                    with_wait_event(span, "wait_event_before"@, wait, next.now),
                ),
                ..next
            }
        }
    }

    /// After the executor ran: the span of the run that began inside `outer` others, if any, ends,
    /// with the wait event at hand and the number of rows. Runs inside it that failed, and so never
    /// ended, are forgotten.
    pub open spec fn run_end(
        self,
        outer: nat,
        wait: Option<WaitEventModel>,
        rows: Option<u64>,
        event_reading: u64,
        end_reading: u64,
    ) -> (TracerModel, Seq<SpanModel>) {
        if outer < self.run_spans.len() {
            let next = TracerModel {
                run_spans: self.run_spans.take(outer as int),
                ..self.at(event_reading)
            };
            let noted = with_wait_event(
                self.run_spans[outer as int],
                "wait_event_after"@,
                wait,
                next.now,
            );
            next.finish_span(with_row_count(noted, rows), end_reading)
        } else {
            (self, Seq::empty())
        }
    }

    /// The queue takes no more: the next state, and whether to warn of it.
    pub open spec fn queue_full(self, reading: u64) -> (TracerModel, bool) {
        let next = self.at(reading);
        if crate::config::warning_is_due(self.config.last_queue_warning, next.now) {
            (
                TracerModel {
                    config: Config { last_queue_warning: next.now, ..self.config },
                    ..next
                },
                true,
            )
        } else {
            (next, false)
        }
    }

    /// The transaction ended, and with it a query that failed in it: what sampling decided on the
    /// query binds none after it, and runs that never ended are forgotten.
    pub open spec fn end_transaction(self) -> TracerModel {
        TracerModel { sampled_out: false, run_spans: Seq::empty(), ..self }
    }

    /// A subtransaction was aborted, and the query in it: what sampling decided on the query binds
    /// none after it. Runs around the subtransaction go on.
    pub open spec fn abort_subtransaction(self) -> TracerModel {
        TracerModel { sampled_out: false, ..self }
    }

    /// Execution ends: the execution span, if any, ends, all that is buffered is flushed and the
    /// trace is over.
    pub open spec fn executor_end(self, reading: u64) -> (TracerModel, Seq<SpanModel>) {
        if !self.config.enabled {
            (self, Seq::empty())
        } else if self.trace_ctx is None {
            (TracerModel { sampled_out: false, ..self }, Seq::empty())
        } else {
            let over = TracerModel {
                trace_ctx: None,
                sampled_out: false,
                exec_span: None,
                span_buffer: Seq::empty(),
                ..self
            };
            match self.exec_span {
                Some(span) => (
                    over.at(reading),
                    self.span_buffer.push(finished(span, self.at(reading).now)),
                ),
                None => (over, self.span_buffer),
            }
        }
    }
}

impl Tracer {
    /// The state of a backend that has traced nothing yet.
    pub fn new(config: Config) -> (tracer: Tracer)
        ensures
            tracer@.config == config,
            tracer@.now == 0,
            tracer@.is_idle(),
            tracer@.wf(),
    {
        Tracer {
            config,
            clock: Clock::new(),
            traceparent: TraceparentRegex::new(),
            trace_ctx: None,
            sampled_out: false,
            span_buffer: Vec::new(),
            planner_span: None,
            exec_span: None,
            run_spans: Vec::new(),
        }
    }

    /// Ends `span` and buffers it; gives the batch to flush, if the buffer is full.
    pub fn finish_span(&mut self, span: RawSpan, reading: u64) -> (batch: Vec<RawSpan>)
        ensures
            (final(self)@, crate::span::spans_of(batch@)) == old(self)@.finish_span(span@, reading),
            old(self)@.wf() && is_open(span@, old(self)@.now) ==> final(self)@.wf() && is_batch(
                crate::span::spans_of(batch@),
            ),
    {
        proof {
            if self@.wf() && is_open(span@, self@.now) {
                finishing_keeps_wf(self@, span@, reading);
            }
        }
        let mut span = span;
        span.end_time_unix_nano = self.clock.advance(reading);
        self.span_buffer.push(span);
        let ghost buffer = old(self)@.span_buffer.push(
            finished(span@, old(self)@.at(reading).now),
        );
        assert(crate::span::spans_of(self.span_buffer@) =~= buffer);
        let mut batch: Vec<RawSpan> = Vec::new();
        if self.span_buffer.len() >= MAX_BUFFERED_SPANS {
            batch.append(&mut self.span_buffer);
            assert(crate::span::spans_of(batch@) =~= buffer);
        }
        assert(self@.span_buffer =~= old(self)@.finish_span(span@, reading).0.span_buffer);
        assert(crate::span::spans_of(batch@) =~= old(self)@.finish_span(span@, reading).1);
        batch
    }

    /// Before planning, with the context that the query carries, the decision of sampling, the
    /// identifier for a span and a reading of the clock. Gives whether tracing is enabled.
    pub fn planner_begin_with(
        &mut self,
        incoming: Option<TraceContext>,
        sampled: bool,
        span_id: String,
        reading: u64,
    ) -> (entered: bool)
        ensures
            final(self)@ == old(self)@.planner_begin(
                context_model(incoming),
                sampled,
                span_id@,
                reading,
            ),
            entered == old(self)@.config.enabled,
            old(self)@.wf() ==> final(self)@.wf(),
    {
        proof {
            if self@.wf() {
                planning_keeps_wf(self@, context_model(incoming), sampled, span_id@, reading);
            }
        }
        if !is_enabled(&self.config) {
            return false;
        }
        if let Some(ctx) = incoming {
            if sampled {
                let now: u64 = self.clock.advance(reading);
                self.planner_span = Some(start_span("planner", &ctx, None, span_id, now));
                self.trace_ctx = Some(ctx);
                self.sampled_out = false;
            } else {
                self.trace_ctx = None;
                self.sampled_out = true;
            }
        }
        true
    }

    /// After planning, with a reading of the clock, where tracing was enabled before it. Gives
    /// the batch to flush, if any.
    pub fn planner_end_with(&mut self, reading: u64) -> (batch: Vec<RawSpan>)
        ensures
            (final(self)@, crate::span::spans_of(batch@)) == old(self)@.planner_end(reading),
            old(self)@.wf() ==> final(self)@.wf() && is_batch(crate::span::spans_of(batch@)),
    {
        proof {
            if self@.wf() {
                planned_keeps_wf(self@, reading);
            }
        }
        match self.planner_span.take() {
            Some(span) => self.finish_span(span, reading),
            None => {
                let batch: Vec<RawSpan> = Vec::new();
                assert(crate::span::spans_of(batch@) =~= Seq::empty());
                batch
            },
        }
    }

    /// Execution starts, with the context that the query carries, the decision of sampling, the
    /// identifier for a span and a reading of the clock.
    pub fn executor_start_with(
        &mut self,
        incoming: Option<TraceContext>,
        sampled: bool,
        span_id: String,
        reading: u64,
    )
        ensures
            final(self)@ == old(self)@.executor_start(
                context_model(incoming),
                sampled,
                span_id@,
                reading,
            ),
            old(self)@.wf() ==> final(self)@.wf(),
    {
        proof {
            if self@.wf() {
                starting_keeps_wf(self@, context_model(incoming), sampled, span_id@, reading);
            }
        }
        if !is_enabled(&self.config) {
            return;
        }
        if self.trace_ctx.is_none() {
            match incoming {
                Some(ctx) => {
                    if self.sampled_out || !sampled {
                        self.sampled_out = true;
                        return;
                    }
                    self.trace_ctx = Some(ctx);
                },
                None => {
                    return;
                },
            }
        }
        if let Some(ctx) = &self.trace_ctx {
            let parent_id = match &self.planner_span {
                Some(span) => Some(span.span_id.clone()),
                None => None,
            };
            let now: u64 = self.clock.advance(reading);
            self.exec_span = Some(start_span("query execution", ctx, parent_id, span_id, now));
        }
    }

    /// Whether the executor's run is traced.
    pub fn is_tracing(&self) -> (tracing: bool)
        ensures
            tracing == self@.is_tracing(),
    {
        is_enabled(&self.config) && self.trace_ctx.is_some()
    }

    /// Before the executor runs, with the identifier for a span, the wait event at hand and two
    /// readings of the clock. Gives, where the run is traced, how many others it is inside.
    pub fn executor_run_begin_with(
        &mut self,
        span_id: String,
        wait: Option<WaitEventInfo>,
        start_reading: u64,
        event_reading: u64,
    ) -> (outer: Option<usize>)
        ensures
            final(self)@ == old(self)@.run_begin(
                span_id@,
                crate::wait_events::wait_model(wait),
                start_reading,
                event_reading,
            ),
            match outer {
                Some(n) => old(self)@.is_tracing() && n == old(self)@.run_spans.len(),
                None => !old(self)@.is_tracing(),
            },
            old(self)@.wf() ==> final(self)@.wf(),
    {
        proof {
            if self@.wf() {
                running_keeps_wf(
                    self@,
                    span_id@,
                    crate::wait_events::wait_model(wait),
                    start_reading,
                    event_reading,
                );
            }
        }
        if !self.is_tracing() {
            return None;
        }
        let outer: usize = self.run_spans.len();
        if let Some(ctx) = &self.trace_ctx {
            let exec_span_id = match &self.exec_span {
                Some(span) => Some(span.span_id.clone()),
                None => None,
            };
            let start: u64 = self.clock.advance(start_reading);
            let mut span = start_span("executor run", ctx, exec_span_id, span_id, start);
            let now: u64 = self.clock.advance(event_reading);
            add_wait_event(&mut span, "wait_event_before", wait, now);
            self.run_spans.push(span);
            assert(self@.run_spans =~= old(self)@.run_spans.push(span@));
        }
        Some(outer)
    }

    /// After the executor ran, with how many others the run was inside, the wait event at hand, the
    /// number of rows processed, if known, and two readings of the clock, where the run was traced.
    /// Gives the batch to flush, if any.
    pub fn executor_run_end_with(
        &mut self,
        outer: usize,
        wait: Option<WaitEventInfo>,
        rows: Option<u64>,
        event_reading: u64,
        end_reading: u64,
    ) -> (batch: Vec<RawSpan>)
        ensures
            (final(self)@, crate::span::spans_of(batch@)) == old(self)@.run_end(
                outer as nat,
                crate::wait_events::wait_model(wait),
                rows,
                event_reading,
                end_reading,
            ),
            old(self)@.wf() ==> final(self)@.wf() && is_batch(crate::span::spans_of(batch@)),
    {
        proof {
            if self@.wf() {
                ran_keeps_wf(
                    self@,
                    outer as nat,
                    crate::wait_events::wait_model(wait),
                    rows,
                    event_reading,
                    end_reading,
                );
            }
        }
        if outer < self.run_spans.len() {
            self.run_spans.truncate(outer + 1);
            if let Some(span) = self.run_spans.pop() {
                let mut span = span;
                assert(self@.run_spans =~= old(self)@.run_spans.take(outer as int));
                let now: u64 = self.clock.advance(event_reading);
                add_wait_event(&mut span, "wait_event_after", wait, now);
                add_row_count(&mut span, rows);
                return self.finish_span(span, end_reading);
            }
        }
        let batch: Vec<RawSpan> = Vec::new();
        assert(crate::span::spans_of(batch@) =~= Seq::empty());
        batch
    }

    /// Execution ends, with a reading of the clock. Gives the batch to flush, if any.
    pub fn executor_end_with(&mut self, reading: u64) -> (batch: Vec<RawSpan>)
        ensures
            (final(self)@, crate::span::spans_of(batch@)) == old(self)@.executor_end(reading),
            old(self)@.wf() ==> final(self)@.wf() && is_batch(crate::span::spans_of(batch@)),
    {
        proof {
            if self@.wf() {
                ending_keeps_wf(self@, reading);
            }
        }
        let mut batch: Vec<RawSpan> = Vec::new();
        assert(crate::span::spans_of(batch@) =~= Seq::empty());
        if !is_enabled(&self.config) {
            return batch;
        }
        self.sampled_out = false;
        if self.trace_ctx.is_some() {
            batch.append(&mut self.span_buffer);
            assert(crate::span::spans_of(batch@) =~= old(self)@.span_buffer);
            if let Some(span) = self.exec_span.take() {
                let mut span = span;
                span.end_time_unix_nano = self.clock.advance(reading);
                batch.push(span);
                assert(crate::span::spans_of(batch@) =~= old(self)@.span_buffer.push(
                    finished(span@, self.clock.latest),
                ));
            }
            self.trace_ctx = None;
            assert(self@.span_buffer =~= Seq::empty());
        }
        batch
    }
}

impl Tracer {
    /// The transaction ended, and with it a query that failed in it: what sampling decided on the
    /// query binds none after it, and runs that never ended are forgotten.
    pub fn end_transaction(&mut self)
        ensures
            final(self)@ == old(self)@.end_transaction(),
            old(self)@.wf() ==> final(self)@.wf(),
    {
        self.sampled_out = false;
        self.run_spans.clear();
        assert(self@.run_spans =~= Seq::empty());
    }

    /// A subtransaction was aborted, and the query in it: what sampling decided on the query binds
    /// none after it. Runs around the subtransaction go on.
    pub fn abort_subtransaction(&mut self)
        ensures
            final(self)@ == old(self)@.abort_subtransaction(),
            old(self)@.wf() ==> final(self)@.wf(),
    {
        self.sampled_out = false;
    }

    /// Hands a serialized batch to the queue, if there is one, at the time that a reading of the
    /// clock gives. Gives whether to warn that the queue is full.
    pub fn flush_with(
        &mut self,
        queue: Option<&mut SharedQueue>,
        data: &[u8],
        reading: u64,
    ) -> (warn: bool)
        requires
            queue matches Some(q) ==> q.wf(),
        ensures
            match queue {
                Some(q) => {
                    &&& final(q).wf()
                    &&& final(q)@ == q@.push(data@)
                    &&& if q@.accepts(data@) {
                        !warn && final(self)@ == old(self)@
                    } else {
                        (final(self)@, warn) == old(self)@.queue_full(reading)
                    }
                },
                None => !warn && final(self)@ == old(self)@,
            },
            old(self)@.wf() ==> final(self)@.wf(),
    {
        match queue {
            Some(q) => {
                if queue_push(Some(q), data) {
                    false
                } else {
                    let now: u64 = self.clock.advance(reading);
                    warn_queue_full_at(&mut self.config, now)
                }
            },
            None => false,
        }
    }

    /// Hands a serialized batch to the queue, if there is one. Gives whether to warn that the
    /// queue is full.
    pub fn flush(&mut self, queue: Option<&mut SharedQueue>, data: &[u8]) -> (warn: bool)
        requires
            queue matches Some(q) ==> q.wf(),
        ensures
            match queue {
                Some(q) => {
                    &&& final(q).wf()
                    &&& final(q)@ == q@.push(data@)
                    &&& if q@.accepts(data@) {
                        !warn && final(self)@ == old(self)@
                    } else {
                        exists|reading: u64|
                            {
                                &&& crate::span::is_clock_reading(reading)
                                &&& crate::span::was_read(reading)
                                &&& (final(self)@, warn) == #[trigger] old(self)@.queue_full(
                                    reading,
                                )
                            }
                    }
                },
                None => !warn && final(self)@ == old(self)@,
            },
            old(self)@.wf() ==> final(self)@.wf(),
    {
        self.flush_with(queue, data, read_clock())
    }
}

/// Sampling can come out this way at the configured rate.
pub open spec fn can_decide(config: Config, sampled: bool) -> bool {
    exists|random: u64|
        sampled == #[trigger] crate::config::is_sampled(config.sample_rate_billionths, random)
}

impl Tracer {
    /// Before planning of the query with the text `query`, the setting
    /// `standard_conforming_strings` being on or not. Gives whether tracing is enabled.
    pub fn planner_begin(&mut self, query: &str, standard: bool) -> (entered: bool)
        ensures
            entered == old(self)@.config.enabled,
            !entered ==> final(self)@ == old(self)@,
            entered ==> exists|sampled: bool, id: String, reading: u64|
                {
                    &&& can_decide(old(self)@.config, sampled)
                    &&& call_ensures(should_sample, (&old(self).config,), sampled)
                    &&& crate::span::is_id(id@, 16)
                    &&& call_ensures(generate_span_id, (), id)
                    &&& crate::span::is_clock_reading(reading)
                    &&& crate::span::was_read(reading)
                    &&& final(self)@ == #[trigger] old(self)@.planner_begin(
                        crate::parser::extracted_by(query@, standard),
                        sampled,
                        id@,
                        reading,
                    )
                },
            old(self)@.wf() ==> final(self)@.wf(),
    {
        if !is_enabled(&self.config) {
            return false;
        }
        let incoming = self.traceparent.extract(query, standard);
        let sampled: bool = should_sample(&self.config);
        self.planner_begin_with(incoming, sampled, generate_span_id(), read_clock())
    }

    /// After planning, where tracing was enabled before it. Gives the batch to flush, if any.
    pub fn planner_end(&mut self) -> (batch: Vec<RawSpan>)
        ensures
            exists|reading: u64|
                {
                    &&& crate::span::is_clock_reading(reading)
                    &&& crate::span::was_read(reading)
                    &&& (final(self)@, crate::span::spans_of(batch@))
                        == #[trigger] old(self)@.planner_end(reading)
                },
            old(self)@.wf() ==> final(self)@.wf() && is_batch(crate::span::spans_of(batch@)),
    {
        self.planner_end_with(read_clock())
    }

    /// Execution starts. `query` is the text of the query, or `None` where the executor was
    /// handed no query; the setting `standard_conforming_strings` is on or not.
    pub fn executor_start(&mut self, query: Option<&str>, standard: bool)
        ensures
            !old(self)@.config.enabled || query is None ==> final(self)@ == old(self)@,
            old(self)@.config.enabled && query is Some ==> exists|
                sampled: bool,
                id: String,
                reading: u64,
            |
                {
                    &&& can_decide(old(self)@.config, sampled)
                    &&& call_ensures(should_sample, (&old(self).config,), sampled)
                    &&& crate::span::is_id(id@, 16)
                    &&& call_ensures(generate_span_id, (), id)
                    &&& crate::span::is_clock_reading(reading)
                    &&& crate::span::was_read(reading)
                    &&& final(self)@ == #[trigger] old(self)@.executor_start(
                        crate::parser::extracted_by(query->0@, standard),
                        sampled,
                        id@,
                        reading,
                    )
                },
            old(self)@.wf() ==> final(self)@.wf(),
    {
        if !is_enabled(&self.config) {
            return;
        }
        if let Some(text) = query {
            let undecided: bool = self.trace_ctx.is_none() && !self.sampled_out;
            let incoming = if undecided {
                self.traceparent.extract(text, standard)
            } else {
                None
            };
            let sampled: bool = should_sample(&self.config);
            let span_id = generate_span_id();
            let reading: u64 = read_clock();
            proof {
                let carried = crate::parser::extracted_by(text@, standard);
                assert(self@.executor_start(context_model(incoming), sampled, span_id@, reading)
                    == self@.executor_start(carried, sampled, span_id@, reading));
            }
            self.executor_start_with(incoming, sampled, span_id, reading);
        }
    }

    /// Before the executor runs, with the wait event at hand. Gives, where the run is traced, how
    /// many others it is inside.
    pub fn executor_run_begin(&mut self, wait: Option<WaitEventInfo>) -> (outer: Option<usize>)
        ensures
            match outer {
                Some(n) => old(self)@.is_tracing() && n == old(self)@.run_spans.len(),
                None => !old(self)@.is_tracing(),
            },
            outer is None ==> final(self)@ == old(self)@,
            outer is Some ==> exists|id: String, start_reading: u64, event_reading: u64|
                {
                    &&& crate::span::is_id(id@, 16)
                    &&& call_ensures(generate_span_id, (), id)
                    &&& crate::span::is_clock_reading(start_reading)
                    &&& crate::span::was_read(start_reading)
                    &&& crate::span::is_clock_reading(event_reading)
                    &&& crate::span::was_read(event_reading)
                    &&& final(self)@ == #[trigger] old(self)@.run_begin(
                        id@,
                        crate::wait_events::wait_model(wait),
                        start_reading,
                        event_reading,
                    )
                },
            old(self)@.wf() ==> final(self)@.wf(),
    {
        if !self.is_tracing() {
            return None;
        }
        let start: u64 = read_clock();
        self.executor_run_begin_with(generate_span_id(), wait, start, read_clock())
    }

    /// After the executor ran, with how many others the run was inside, the wait event at hand and
    /// the number of rows processed, if known, where the run was traced. Gives the batch to flush,
    /// if any.
    pub fn executor_run_end(
        &mut self,
        outer: usize,
        wait: Option<WaitEventInfo>,
        rows: Option<u64>,
    ) -> (batch: Vec<RawSpan>)
        ensures
            exists|event_reading: u64, end_reading: u64|
                {
                    &&& crate::span::is_clock_reading(event_reading)
                    &&& crate::span::was_read(event_reading)
                    &&& crate::span::is_clock_reading(end_reading)
                    &&& crate::span::was_read(end_reading)
                    &&& (final(self)@, crate::span::spans_of(batch@))
                        == #[trigger] old(self)@.run_end(
                        outer as nat,
                        crate::wait_events::wait_model(wait),
                        rows,
                        event_reading,
                        end_reading,
                    )
                },
            old(self)@.wf() ==> final(self)@.wf() && is_batch(crate::span::spans_of(batch@)),
    {
        let event: u64 = read_clock();
        self.executor_run_end_with(outer, wait, rows, event, read_clock())
    }

    /// Execution ends. Gives the batch to flush, if any.
    pub fn executor_end(&mut self) -> (batch: Vec<RawSpan>)
        ensures
            exists|reading: u64|
                {
                    &&& crate::span::is_clock_reading(reading)
                    &&& crate::span::was_read(reading)
                    &&& (final(self)@, crate::span::spans_of(batch@))
                        == #[trigger] old(self)@.executor_end(reading)
                },
            old(self)@.wf() ==> final(self)@.wf() && is_batch(crate::span::spans_of(batch@)),
    {
        self.executor_end_with(read_clock())
    }
}

// ─────────────────────────────────────────────────────────────
// Laws
// ─────────────────────────────────────────────────────────────

/// A span in flight stays so while the clock runs on.
proof fn open_span_stays_open(span: SpanModel, now: u64, then: u64)
    requires
        is_open(span, now),
        now <= then,
    ensures
        is_open(span, then),
        is_closed(finished(span, then)),
{
}

proof fn finishing_keeps_wf(model: TracerModel, span: SpanModel, reading: u64)
    requires
        model.wf(),
        is_open(span, model.now),
    ensures
        model.finish_span(span, reading).0.wf(),
        is_batch(model.finish_span(span, reading).1),
{
    open_span_stays_open(span, model.now, model.at(reading).now);
}

/// The buffer stays bounded and times stay in order over the start of planning.
pub proof fn planning_keeps_wf(
    model: TracerModel,
    incoming: Option<TraceContextModel>,
    sampled: bool,
    span_id: Seq<char>,
    reading: u64,
)
    requires
        model.wf(),
    ensures
        model.planner_begin(incoming, sampled, span_id, reading).wf(),
{
}

/// The buffer stays bounded and times stay in order over the end of planning, and what is
/// flushed is a batch of ended spans.
pub proof fn planned_keeps_wf(model: TracerModel, reading: u64)
    requires
        model.wf(),
    ensures
        model.planner_end(reading).0.wf(),
        is_batch(model.planner_end(reading).1),
{
    if let Some(span) = model.planner_span {
        finishing_keeps_wf(TracerModel { planner_span: None, ..model }, span, reading);
    }
}

/// The buffer stays bounded and times stay in order over the start of execution.
pub proof fn starting_keeps_wf(
    model: TracerModel,
    incoming: Option<TraceContextModel>,
    sampled: bool,
    span_id: Seq<char>,
    reading: u64,
)
    requires
        model.wf(),
    ensures
        model.executor_start(incoming, sampled, span_id, reading).wf(),
{
}

/// The buffer stays bounded and times stay in order over the start of a run.
pub proof fn running_keeps_wf(
    model: TracerModel,
    span_id: Seq<char>,
    wait: Option<WaitEventModel>,
    start_reading: u64,
    event_reading: u64,
)
    requires
        model.wf(),
    ensures
        model.run_begin(span_id, wait, start_reading, event_reading).wf(),
{
}

/// The buffer stays bounded and times stay in order over the end of a run, and what is flushed
/// is a batch of ended spans.
pub proof fn ran_keeps_wf(
    model: TracerModel,
    outer: nat,
    wait: Option<WaitEventModel>,
    rows: Option<u64>,
    event_reading: u64,
    end_reading: u64,
)
    requires
        model.wf(),
    ensures
        model.run_end(outer, wait, rows, event_reading, end_reading).0.wf(),
        is_batch(model.run_end(outer, wait, rows, event_reading, end_reading).1),
{
    if outer < model.run_spans.len() {
        let span = model.run_spans[outer as int];
        let next = TracerModel {
            run_spans: model.run_spans.take(outer as int),
            ..model.at(event_reading)
        };
        let noted = with_wait_event(span, "wait_event_after"@, wait, next.now);
        open_span_stays_open(span, model.now, next.now);
        finishing_keeps_wf(next, with_row_count(noted, rows), end_reading);
    }
}

/// The buffer stays bounded and times stay in order over the end of execution, and what is
/// flushed is a batch of ended spans.
pub proof fn ending_keeps_wf(model: TracerModel, reading: u64)
    requires
        model.wf(),
    ensures
        model.executor_end(reading).0.wf(),
        is_batch(model.executor_end(reading).1),
{
    if let Some(span) = model.exec_span {
        open_span_stays_open(span, model.now, model.at(reading).now);
    }
}

/// The master switch: with tracing disabled, no hook changes anything or flushes anything.
pub proof fn disabled_hooks_do_nothing(
    model: TracerModel,
    incoming: Option<TraceContextModel>,
    sampled: bool,
    span_id: Seq<char>,
    wait: Option<WaitEventModel>,
    reading: u64,
    later_reading: u64,
)
    requires
        !model.config.enabled,
    ensures
        model.planner_begin(incoming, sampled, span_id, reading) == model,
        model.executor_start(incoming, sampled, span_id, reading) == model,
        !model.is_tracing(),
        model.run_begin(span_id, wait, reading, later_reading) == model,
        model.executor_end(reading) == (model, Seq::<SpanModel>::empty()),
{
}

/// No span is lost, invented or reordered: what is flushed and what stays buffered together are
/// what was buffered and the span that ended.
pub proof fn finishing_keeps_every_span(model: TracerModel, span: SpanModel, reading: u64)
    ensures
        ({
            let (next, batch) = model.finish_span(span, reading);
            &&& batch + next.span_buffer == model.span_buffer.push(finished(span, next.now))
            &&& batch.len() == 0 || next.span_buffer.len() == 0
        }),
{
    let (next, batch) = model.finish_span(span, reading);
    assert(batch + next.span_buffer =~= model.span_buffer.push(finished(span, next.now)));
}

/// The end of a traced execution leaves nothing behind in the buffer: all that was buffered is
/// flushed, in order, and the execution span, if any, last.
pub proof fn ending_flushes_every_span(model: TracerModel, reading: u64)
    requires
        model.is_tracing(),
    ensures
        ({
            let (next, batch) = model.executor_end(reading);
            &&& next.span_buffer.len() == 0
            &&& next.trace_ctx is None
            &&& batch == match model.exec_span {
                Some(span) => model.span_buffer.push(finished(span, next.now)),
                None => model.span_buffer,
            }
        }),
{
}

/// The lifecycle of a traced query: a sampled query with a context yields three spans of its
/// trace when it ends, the planner span and the execution span below the caller's span and the
/// run below the execution, and leaves the backend idle.
pub proof fn traced_query_yields_its_spans(
    idle: TracerModel,
    ctx: TraceContextModel,
    planner_id: Seq<char>,
    exec_id: Seq<char>,
    run_id: Seq<char>,
    incoming: Option<TraceContextModel>,
    sampled: bool,
    wait_before: Option<WaitEventModel>,
    wait_after: Option<WaitEventModel>,
    rows: Option<u64>,
    readings: Seq<u64>,
)
    requires
        idle.is_idle(),
        idle.config.enabled,
        readings.len() == 8,
    ensures
        ({
            let planning = idle.planner_begin(Some(ctx), true, planner_id, readings[0]);
            let (planned, planner_batch) = planning.planner_end(readings[1]);
            let starting = planned.executor_start(incoming, sampled, exec_id, readings[2]);
            let running = starting.run_begin(run_id, wait_before, readings[3], readings[4]);
            let (ran, run_batch) = running.run_end(0, wait_after, rows, readings[5], readings[6]);
            let (over, batch) = ran.executor_end(readings[7]);
            &&& planner_batch.len() == 0 && run_batch.len() == 0
            &&& over.is_idle() && over.config == idle.config
            &&& batch == seq![
                finished(
                    started("planner"@, ctx, None, planner_id, planning.now),
                    planned.now,
                ),
                finished(
                    with_row_count(
                        with_wait_event(
                            with_wait_event(
                                started(
                                    "executor run"@,
                                    ctx,
                                    Some(exec_id),
                                    run_id,
                                    starting.at(readings[3]).now,
                                ),
                                "wait_event_before"@,
                                wait_before,
                                running.now,
                            ),
                            "wait_event_after"@,
                            wait_after,
                            running.at(readings[5]).now,
                        ),
                        rows,
                    ),
                    ran.now,
                ),
                finished(
                    started(
                        "query execution"@,
                        ctx,
                        Some(ctx.parent_span_id),
                        exec_id,
                        starting.now,
                    ),
                    over.now,
                ),
            ]
        }),
{
    let planning = idle.planner_begin(Some(ctx), true, planner_id, readings[0]);
    let (planned, planner_batch) = planning.planner_end(readings[1]);
    let starting = planned.executor_start(incoming, sampled, exec_id, readings[2]);
    let running = starting.run_begin(run_id, wait_before, readings[3], readings[4]);
    let (ran, run_batch) = running.run_end(0, wait_after, rows, readings[5], readings[6]);
    let (over, batch) = ran.executor_end(readings[7]);
    assert(planned.trace_ctx == Some(ctx));
    assert(planned.planner_span is None);
    assert(ran.span_buffer.len() == 2);
    assert(batch.len() == 3);
}

/// A cached plan reaches no planner: the start of execution then takes the context from the
/// query itself, and the execution and its run are traced all the same.
pub proof fn cached_plan_is_traced(
    idle: TracerModel,
    ctx: TraceContextModel,
    exec_id: Seq<char>,
    run_id: Seq<char>,
    wait_before: Option<WaitEventModel>,
    wait_after: Option<WaitEventModel>,
    rows: Option<u64>,
    readings: Seq<u64>,
)
    requires
        idle.is_idle(),
        idle.config.enabled,
        readings.len() == 6,
    ensures
        ({
            let starting = idle.executor_start(Some(ctx), true, exec_id, readings[0]);
            let running = starting.run_begin(run_id, wait_before, readings[1], readings[2]);
            let (ran, run_batch) = running.run_end(0, wait_after, rows, readings[3], readings[4]);
            let (over, batch) = ran.executor_end(readings[5]);
            &&& run_batch.len() == 0
            &&& over.is_idle() && over.config == idle.config
            &&& batch.len() == 2
            &&& batch[0].name == "executor run"@ && batch[1].name == "query execution"@
            &&& batch[0].trace_id == ctx.trace_id && batch[1].trace_id == ctx.trace_id
            &&& batch[0].span_id == run_id && batch[1].span_id == exec_id
            &&& batch[0].parent_span_id == Some(exec_id)
            &&& batch[1].parent_span_id == Some(ctx.parent_span_id)
        }),
{
    let starting = idle.executor_start(Some(ctx), true, exec_id, readings[0]);
    let running = starting.run_begin(run_id, wait_before, readings[1], readings[2]);
    let (ran, run_batch) = running.run_end(0, wait_after, rows, readings[3], readings[4]);
    assert(ran.span_buffer.len() == 1);
}

/// A query that sampling decided against in the planner is not traced by any later hook, and
/// when it ends the backend is as it was before.
pub proof fn sampled_out_query_leaves_no_trace(
    idle: TracerModel,
    ctx: TraceContextModel,
    incoming: Option<TraceContextModel>,
    sampled: bool,
    span_id: Seq<char>,
    wait: Option<WaitEventModel>,
    readings: Seq<u64>,
)
    requires
        idle.is_idle(),
        idle.config.enabled,
        readings.len() == 6,
    ensures
        ({
            let planning = idle.planner_begin(Some(ctx), false, span_id, readings[0]);
            let (planned, planner_batch) = planning.planner_end(readings[1]);
            let starting = planned.executor_start(incoming, sampled, span_id, readings[2]);
            let running = starting.run_begin(span_id, wait, readings[3], readings[4]);
            &&& !starting.is_tracing()
            &&& planner_batch.len() == 0
            &&& running.executor_end(readings[5]) == (idle, Seq::<SpanModel>::empty())
        }),
{
}

/// A cached plan that sampling decides against is not traced either, and when it ends the backend
/// is as it was before.
pub proof fn sampled_out_cached_plan_leaves_no_trace(
    idle: TracerModel,
    incoming: Option<TraceContextModel>,
    span_id: Seq<char>,
    wait: Option<WaitEventModel>,
    readings: Seq<u64>,
)
    requires
        idle.is_idle(),
        idle.config.enabled,
        readings.len() == 4,
    ensures
        ({
            let starting = idle.executor_start(incoming, false, span_id, readings[0]);
            let running = starting.run_begin(span_id, wait, readings[1], readings[2]);
            &&& !starting.is_tracing()
            &&& running.executor_end(readings[3]) == (idle, Seq::<SpanModel>::empty())
        }),
{
}

/// A decision against a query that is aborted ends with it: the backend is as it was before, so a
/// query that follows is decided on afresh.
pub proof fn aborted_query_decides_nothing(
    idle: TracerModel,
    ctx: TraceContextModel,
    incoming: Option<TraceContextModel>,
    sampled: bool,
    span_id: Seq<char>,
    wait: Option<WaitEventModel>,
    readings: Seq<u64>,
)
    requires
        idle.is_idle(),
        idle.config.enabled,
        readings.len() == 5,
    ensures
        ({
            let planning = idle.planner_begin(Some(ctx), false, span_id, readings[0]);
            let (planned, _) = planning.planner_end(readings[1]);
            let starting = planned.executor_start(incoming, sampled, span_id, readings[2]);
            let running = starting.run_begin(span_id, wait, readings[3], readings[4]);
            &&& planning.end_transaction() == idle
            &&& planned.end_transaction() == idle
            &&& starting.end_transaction() == idle
            &&& running.end_transaction() == idle
            &&& running.abort_subtransaction() == idle
        }),
{
}

/// Runs that are entered one inside the other are both recorded, the inner one first and the outer
/// one as it was: what is flushed and what stays buffered are what was buffered and those two.
pub proof fn nested_runs_are_both_recorded(
    model: TracerModel,
    outer_id: Seq<char>,
    inner_id: Seq<char>,
    waits: Seq<Option<WaitEventModel>>,
    inner_rows: Option<u64>,
    outer_rows: Option<u64>,
    readings: Seq<u64>,
)
    requires
        model.is_tracing(),
        waits.len() == 4,
        readings.len() == 8,
    ensures
        ({
            let depth = model.run_spans.len();
            let outer = model.run_begin(outer_id, waits[0], readings[0], readings[1]);
            let inner = outer.run_begin(inner_id, waits[1], readings[2], readings[3]);
            let (inner_done, inner_batch) = inner.run_end(
                depth + 1,
                waits[2],
                inner_rows,
                readings[4],
                readings[5],
            );
            let (outer_done, outer_batch) = inner_done.run_end(
                depth,
                waits[3],
                outer_rows,
                readings[6],
                readings[7],
            );
            let inner_span = with_wait_event(
                inner.run_spans.last(),
                "wait_event_after"@,
                waits[2],
                inner.at(readings[4]).now,
            );
            let outer_span = with_wait_event(
                outer.run_spans.last(),
                "wait_event_after"@,
                waits[3],
                inner_done.at(readings[6]).now,
            );
            &&& inner.run_spans.last().span_id == inner_id
            &&& outer.run_spans.last().span_id == outer_id
            &&& inner_done.run_spans == outer.run_spans
            &&& outer_done.run_spans == model.run_spans
            &&& inner_batch + outer_batch + outer_done.span_buffer == model.span_buffer.push(
                finished(with_row_count(inner_span, inner_rows), inner_done.now),
            ).push(finished(with_row_count(outer_span, outer_rows), outer_done.now))
        }),
{
    let depth = model.run_spans.len();
    let outer = model.run_begin(outer_id, waits[0], readings[0], readings[1]);
    let inner = outer.run_begin(inner_id, waits[1], readings[2], readings[3]);
    let (inner_done, inner_batch) = inner.run_end(
        depth + 1,
        waits[2],
        inner_rows,
        readings[4],
        readings[5],
    );
    let (outer_done, outer_batch) = inner_done.run_end(
        depth,
        waits[3],
        outer_rows,
        readings[6],
        readings[7],
    );
    assert(inner_done.run_spans =~= outer.run_spans);
    assert(outer.run_spans.take(depth as int) =~= model.run_spans);
    let inner_span = with_row_count(
        with_wait_event(
            inner.run_spans.last(),
            "wait_event_after"@,
            waits[2],
            inner.at(readings[4]).now,
        ),
        inner_rows,
    );
    let outer_span = with_row_count(
        with_wait_event(
            outer.run_spans.last(),
            "wait_event_after"@,
            waits[3],
            inner_done.at(readings[6]).now,
        ),
        outer_rows,
    );
    let buffer = model.span_buffer.push(finished(inner_span, inner_done.now));
    finishing_keeps_every_span(
        TracerModel { run_spans: outer.run_spans, ..inner.at(readings[4]) },
        inner_span,
        readings[5],
    );
    finishing_keeps_every_span(
        TracerModel { run_spans: model.run_spans, ..inner_done.at(readings[6]) },
        outer_span,
        readings[7],
    );
    assert(inner_batch + inner_done.span_buffer == buffer);
    assert(inner_batch + outer_batch + outer_done.span_buffer =~= inner_batch + (outer_batch
        + outer_done.span_buffer));
    assert(inner_batch + inner_done.span_buffer.push(finished(outer_span, outer_done.now))
        =~= buffer.push(finished(outer_span, outer_done.now)));
}

/// A run that fails inside another, and so never ends, does not keep the outer one from being
/// recorded as if it had not been there.
pub proof fn failed_run_does_not_displace_the_outer(
    model: TracerModel,
    outer_id: Seq<char>,
    inner_id: Seq<char>,
    waits: Seq<Option<WaitEventModel>>,
    rows: Option<u64>,
    readings: Seq<u64>,
)
    requires
        model.is_tracing(),
        waits.len() == 3,
        readings.len() == 6,
    ensures
        ({
            let depth = model.run_spans.len();
            let outer = model.run_begin(outer_id, waits[0], readings[0], readings[1]);
            let inner = outer.run_begin(inner_id, waits[1], readings[2], readings[3]);
            inner.run_end(depth, waits[2], rows, readings[4], readings[5]) == outer.at(
                readings[2],
            ).at(readings[3]).run_end(depth, waits[2], rows, readings[4], readings[5])
        }),
{
    let depth = model.run_spans.len();
    let outer = model.run_begin(outer_id, waits[0], readings[0], readings[1]);
    let inner = outer.run_begin(inner_id, waits[1], readings[2], readings[3]);
    assert(inner.run_spans.take(depth as int) =~= outer.run_spans.take(depth as int));
}

/// A query that carries no context passes through a backend that is not tracing.
pub proof fn query_without_context_passes_through(
    idle: TracerModel,
    sampled: bool,
    span_id: Seq<char>,
    wait: Option<WaitEventModel>,
    readings: Seq<u64>,
)
    requires
        idle.is_idle(),
        readings.len() == 6,
    ensures
        idle.planner_begin(None, sampled, span_id, readings[0]) == idle,
        idle.planner_end(readings[1]) == (idle, Seq::<SpanModel>::empty()),
        idle.executor_start(None, sampled, span_id, readings[2]) == idle,
        idle.run_begin(span_id, wait, readings[3], readings[4]) == idle,
        idle.executor_end(readings[5]) == (idle, Seq::<SpanModel>::empty()),
{
}

} // verus!
