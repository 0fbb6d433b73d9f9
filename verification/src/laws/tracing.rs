//! What is recorded of a query.

use vstd::prelude::*;

use crate::hooks::{Tracer, TracerModel};
use crate::parser::TraceContextModel;
use crate::span::{EventModel, SpanModel, SpanStatus};
use crate::wait_events::WaitEventModel;

verus! {

/// The larger of two times.
pub open spec fn max(a: u64, b: u64) -> u64 {
    if a >= b {
        a
    } else {
        b
    }
}

/// A span of the trace `ctx` with this name, parent and identifier that began at `start` and ended at
/// `end`.
pub open spec fn is_span_of(
    span: SpanModel,
    ctx: TraceContextModel,
    name: Seq<char>,
    parent: Seq<char>,
    id: Seq<char>,
    start: u64,
    end: u64,
) -> bool {
    &&& span.trace_id == ctx.trace_id
    &&& span.span_id == id
    &&& span.parent_span_id == Some(parent)
    &&& span.name == name
    &&& span.start_time_unix_nano == start
    &&& span.end_time_unix_nano == end
    &&& span.status == SpanStatus::Unset
}

/// The event of a wait event, at the time when it was sampled.
pub open spec fn is_wait_event(
    event: EventModel,
    name: Seq<char>,
    wait: WaitEventModel,
    time: u64,
) -> bool {
    &&& event.name == name
    &&& event.timestamp_unix_nano == time
    &&& event.attributes.len() == 2
    &&& event.attributes[0] == ("type"@, wait.event_type)
    &&& event.attributes[1] == ("event"@, wait.event_name)
}

/// The events are those of the wait events that were sampled before and after the run, and no
/// others.
pub open spec fn are_wait_events(
    events: Seq<EventModel>,
    before: Option<WaitEventModel>,
    before_time: u64,
    after: Option<WaitEventModel>,
    after_time: u64,
) -> bool {
    match (before, after) {
        (Some(b), Some(a)) => {
            &&& events.len() == 2
            &&& is_wait_event(events[0], "wait_event_before"@, b, before_time)
            &&& is_wait_event(events[1], "wait_event_after"@, a, after_time)
        },
        (Some(b), None) => events.len() == 1 && is_wait_event(
            events[0],
            "wait_event_before"@,
            b,
            before_time,
        ),
        (None, Some(a)) => events.len() == 1 && is_wait_event(
            events[0],
            "wait_event_after"@,
            a,
            after_time,
        ),
        (None, None) => events.len() == 0,
    }
}

/// The attributes are the number of rows, if it is known, and no others.
pub open spec fn are_rows(attributes: Seq<(Seq<char>, Seq<char>)>, rows: Option<u64>) -> bool {
    match rows {
        Some(n) => {
            &&& attributes.len() == 1
            &&& attributes[0].0 == "db.row_count"@
            &&& crate::laws::numbers::is_decimal(attributes[0].1, n as int)
        },
        None => attributes.len() == 0,
    }
}

/// Nothing but the clock, the buffer and what the two say may differ differs.
pub open spec fn is_same_trace(a: TracerModel, b: TracerModel) -> bool {
    &&& a.config == b.config
    &&& a.trace_ctx == b.trace_ctx
    &&& a.sampled_out == b.sampled_out
    &&& a.planner_span == b.planner_span
    &&& a.exec_span == b.exec_span
    &&& a.run_spans == b.run_spans
}

/// What was buffered and one more span, the last of them `span`, is what is flushed and what stays
/// buffered; it is all flushed exactly when that makes 64.
pub open spec fn is_recorded(
    before: TracerModel,
    after: TracerModel,
    batch: Seq<SpanModel>,
    span: SpanModel,
) -> bool {
    &&& batch + after.span_buffer == before.span_buffer.push(span)
    &&& batch.len() > 0 ==> after.span_buffer.len() == 0
    &&& batch.len() > 0 <==> before.span_buffer.len() >= 63
}

/// The state of a backend, as its fields hold it.
pub proof fn model_shows_the_fields(tracer: Tracer)
    ensures
        tracer@.config == tracer.config,
        tracer@.now == tracer.clock.latest,
        tracer@.sampled_out == tracer.sampled_out,
        tracer@.trace_ctx is Some == tracer.trace_ctx is Some,
        tracer.trace_ctx matches Some(ctx) ==> {
            &&& tracer@.trace_ctx->0.trace_id == ctx.trace_id@
            &&& tracer@.trace_ctx->0.parent_span_id == ctx.parent_span_id@
        },
        tracer@.planner_span is Some == tracer.planner_span is Some,
        tracer.planner_span matches Some(span) ==> tracer@.planner_span == Some(span@),
        tracer@.exec_span is Some == tracer.exec_span is Some,
        tracer.exec_span matches Some(span) ==> tracer@.exec_span == Some(span@),
        tracer@.span_buffer.len() == tracer.span_buffer@.len(),
        forall|i: int|
            0 <= i < tracer.span_buffer@.len() ==> #[trigger] tracer@.span_buffer[i]
                == tracer.span_buffer@[i]@,
        tracer@.run_spans.len() == tracer.run_spans@.len(),
        forall|i: int|
            0 <= i < tracer.run_spans@.len() ==> #[trigger] tracer@.run_spans[i]
                == tracer.run_spans@[i]@,
{
}

/// What a batch or a buffer says of its spans, it says of each of them, in order.
pub proof fn spans_are_shown_one_by_one(spans: Seq<crate::span::RawSpan>)
    ensures
        crate::span::spans_of(spans).len() == spans.len(),
        forall|i: int|
            0 <= i < spans.len() ==> {
                let shown = #[trigger] crate::span::spans_of(spans)[i];
                &&& shown.trace_id == spans[i].trace_id@
                &&& shown.span_id == spans[i].span_id@
                &&& shown.parent_span_id == match spans[i].parent_span_id {
                    Some(parent) => Some(parent@),
                    None => None,
                }
                &&& shown.name == spans[i].name@
                &&& shown.start_time_unix_nano == spans[i].start_time_unix_nano
                &&& shown.end_time_unix_nano == spans[i].end_time_unix_nano
                &&& shown.status == spans[i].status
                &&& shown.attributes.len() == spans[i].attributes@.len()
                &&& forall|j: int|
                    0 <= j < spans[i].attributes@.len() ==> #[trigger] shown.attributes[j] == (
                        spans[i].attributes@[j].0@,
                        spans[i].attributes@[j].1@,
                    )
                &&& shown.events.len() == spans[i].events@.len()
                &&& forall|j: int|
                    0 <= j < spans[i].events@.len() ==> {
                        let event = #[trigger] shown.events[j];
                        &&& event.name == spans[i].events@[j].name@
                        &&& event.timestamp_unix_nano == spans[i].events@[j].timestamp_unix_nano
                        &&& event.attributes.len() == spans[i].events@[j].attributes@.len()
                    }
            },
{
}

/// Planning of a sampled query with a context is recorded: a span below the caller's, from the time
/// read before planning to the time read after it, no attributes and no events.
pub proof fn planning_is_measured(
    model: TracerModel,
    ctx: TraceContextModel,
    id: Seq<char>,
    start: u64,
    end: u64,
)
    requires
        model.config.enabled,
    ensures
        ({
            let planning = model.planner_begin(Some(ctx), true, id, start);
            let (planned, batch) = planning.planner_end(end);
            exists|span: SpanModel|
                {
                    &&& #[trigger] is_recorded(model, planned, batch, span)
                    &&& is_span_of(
                        span,
                        ctx,
                        "planner"@,
                        ctx.parent_span_id,
                        id,
                        max(model.now, start),
                        max(max(model.now, start), end),
                    )
                    &&& span.attributes.len() == 0 && span.events.len() == 0
                    &&& planned.now == span.end_time_unix_nano
                    &&& planned.trace_ctx == Some(ctx) && !planned.sampled_out
                    &&& planned.planner_span is None
                    &&& planned.exec_span == model.exec_span
                    &&& planned.run_spans == model.run_spans
                    &&& planned.config == model.config
                }
        }),
{
    let planning = model.planner_begin(Some(ctx), true, id, start);
    let (planned, batch) = planning.planner_end(end);
    let span = crate::hooks::finished(planning.planner_span->0, planned.now);
    crate::hooks::finishing_keeps_every_span(
        TracerModel { planner_span: None, ..planning },
        planning.planner_span->0,
        end,
    );
    assert(is_recorded(model, planned, batch, span));
}

/// A query that sampling decides against, or that carries no context, leaves no span: the first ends
/// what trace there was and is remembered, the second changes nothing.
pub proof fn planning_without_a_trace_records_nothing(
    model: TracerModel,
    ctx: TraceContextModel,
    id: Seq<char>,
    reading: u64,
    sampled: bool,
)
    requires
        model.config.enabled,
    ensures
        model.planner_begin(None, sampled, id, reading) == model,
        ({
            let refused = model.planner_begin(Some(ctx), false, id, reading);
            &&& refused.trace_ctx is None && refused.sampled_out
            &&& refused.now == model.now && refused.config == model.config
            &&& refused.span_buffer == model.span_buffer
            &&& refused.planner_span == model.planner_span
            &&& refused.exec_span == model.exec_span
            &&& refused.run_spans == model.run_spans
        }),
        model.planner_span is None ==> model.planner_end(reading) == (
            model,
            Seq::<SpanModel>::empty(),
        ),
{
}

/// Execution is recorded in the trace at hand, or else in the one that the query carries if it is
/// sampled and was not decided against before: from the time read when it starts to the time read
/// when it ends, below the planner span in progress, if any, or else below the caller's span. Its
/// end flushes all that is buffered, the execution last, and ends the trace.
pub proof fn execution_is_measured(
    model: TracerModel,
    ctx: TraceContextModel,
    incoming: Option<TraceContextModel>,
    sampled: bool,
    id: Seq<char>,
    start: u64,
    end: u64,
)
    requires
        model.config.enabled,
        model.trace_ctx == Some(ctx) || model.trace_ctx is None && incoming == Some(ctx) && sampled
            && !model.sampled_out,
    ensures
        ({
            let starting = model.executor_start(incoming, sampled, id, start);
            let (over, batch) = starting.executor_end(end);
            &&& starting.trace_ctx == Some(ctx)
            &&& starting.now == max(model.now, start)
            &&& starting.span_buffer == model.span_buffer
            &&& starting.planner_span == model.planner_span
            &&& starting.run_spans == model.run_spans
            &&& starting.config == model.config
            &&& starting.exec_span matches Some(begun) && begun.span_id == id
            &&& batch.len() == model.span_buffer.len() + 1
            &&& batch.take(model.span_buffer.len() as int) == model.span_buffer
            &&& is_span_of(
                batch.last(),
                ctx,
                "query execution"@,
                match model.planner_span {
                    Some(planner) => planner.span_id,
                    None => ctx.parent_span_id,
                },
                id,
                max(model.now, start),
                max(max(model.now, start), end),
            )
            &&& batch.last().attributes.len() == 0 && batch.last().events.len() == 0
            &&& over.trace_ctx is None && !over.sampled_out && over.exec_span is None
            &&& over.span_buffer.len() == 0
            &&& over.now == batch.last().end_time_unix_nano
            &&& over.planner_span == model.planner_span
            &&& over.run_spans == model.run_spans
            &&& over.config == model.config
        }),
{
    let starting = model.executor_start(incoming, sampled, id, start);
    let (over, batch) = starting.executor_end(end);
    assert(batch.take(model.span_buffer.len() as int) =~= model.span_buffer);
}

/// Execution of a query that carries no context, that sampling decides against, or that was decided
/// against before begins no span and no trace.
pub proof fn execution_without_a_trace_records_nothing(
    model: TracerModel,
    incoming: Option<TraceContextModel>,
    sampled: bool,
    id: Seq<char>,
    reading: u64,
)
    requires
        model.trace_ctx is None,
        incoming is None || !sampled || model.sampled_out,
    ensures
        ({
            let starting = model.executor_start(incoming, sampled, id, reading);
            &&& starting.trace_ctx is None
            &&& starting.exec_span == model.exec_span
            &&& starting.planner_span == model.planner_span
            &&& starting.run_spans == model.run_spans
            &&& starting.span_buffer == model.span_buffer
            &&& starting.now == model.now && starting.config == model.config
            &&& incoming is None ==> starting.sampled_out == model.sampled_out
            &&& model.config.enabled && incoming is Some ==> starting.sampled_out
        }),
        ({
            let (over, batch) = model.executor_end(reading);
            &&& batch.len() == 0
            &&& over.span_buffer == model.span_buffer && over.exec_span == model.exec_span
            &&& model.config.enabled ==> !over.sampled_out
        }),
{
}

/// A run of the executor in a trace is recorded: from the time read before it to the time read after
/// it, below the execution or else below the caller's span, with the wait events sampled before and
/// after it, at the times when they were, and the number of rows.
pub proof fn run_is_measured(
    model: TracerModel,
    ctx: TraceContextModel,
    id: Seq<char>,
    before: Option<WaitEventModel>,
    after: Option<WaitEventModel>,
    rows: Option<u64>,
    start: u64,
    before_reading: u64,
    after_reading: u64,
    end: u64,
)
    requires
        model.config.enabled,
        model.trace_ctx == Some(ctx),
    ensures
        ({
            let running = model.run_begin(id, before, start, before_reading);
            let (ran, batch) = running.run_end(
                model.run_spans.len(),
                after,
                rows,
                after_reading,
                end,
            );
            let begun = max(model.now, start);
            let before_time = max(begun, before_reading);
            let after_time = max(before_time, after_reading);
            exists|span: SpanModel|
                {
                    &&& #[trigger] is_recorded(model, ran, batch, span)
                    &&& is_span_of(
                        span,
                        ctx,
                        "executor run"@,
                        match model.exec_span {
                            Some(execution) => execution.span_id,
                            None => ctx.parent_span_id,
                        },
                        id,
                        begun,
                        max(after_time, end),
                    )
                    &&& are_wait_events(span.events, before, before_time, after, after_time)
                    &&& are_rows(span.attributes, rows)
                    &&& ran.now == span.end_time_unix_nano
                    &&& is_same_trace(ran, model)
                }
        }),
{
    let running = model.run_begin(id, before, start, before_reading);
    let outer = model.run_spans.len();
    let (ran, batch) = running.run_end(outer, after, rows, after_reading, end);
    assert(running.run_spans.take(outer as int) =~= model.run_spans);
    let noted = crate::hooks::with_wait_event(
        running.run_spans[outer as int],
        "wait_event_after"@,
        after,
        running.at(after_reading).now,
    );
    let whole = crate::hooks::with_row_count(noted, rows);
    crate::hooks::finishing_keeps_every_span(
        TracerModel { run_spans: model.run_spans, ..running.at(after_reading) },
        whole,
        end,
    );
    if let Some(n) = rows {
        crate::laws::numbers::decimal_is_read_back(n as nat);
    }
    assert(is_recorded(model, ran, batch, crate::hooks::finished(whole, ran.now)));
}

/// By a clock that goes forward, a span is as long as the time that passes between the hook before
/// the work and the hook after it: for planning, for an execution and for a run alike.
pub proof fn spans_last_as_long_as_the_work(
    model: TracerModel,
    ctx: TraceContextModel,
    id: Seq<char>,
    wait: Option<WaitEventModel>,
    rows: Option<u64>,
    start: u64,
    before_reading: u64,
    after_reading: u64,
    end: u64,
)
    requires
        model.config.enabled,
        model.trace_ctx == Some(ctx),
        model.now <= start <= before_reading <= after_reading <= end,
    ensures
        ({
            let (planned, batch) = model.planner_begin(Some(ctx), true, id, start).planner_end(end);
            let span = (batch + planned.span_buffer).last();
            span.span_id == id && span.end_time_unix_nano - span.start_time_unix_nano == end - start
        }),
        ({
            let (_, batch) = model.executor_start(Some(ctx), true, id, start).executor_end(end);
            let span = batch.last();
            span.span_id == id && span.end_time_unix_nano - span.start_time_unix_nano == end - start
        }),
        ({
            let (ran, batch) = model.run_begin(id, wait, start, before_reading).run_end(
                model.run_spans.len(),
                wait,
                rows,
                after_reading,
                end,
            );
            let span = (batch + ran.span_buffer).last();
            span.span_id == id && span.end_time_unix_nano - span.start_time_unix_nano == end - start
        }),
{
    planning_is_measured(model, ctx, id, start, end);
    execution_is_measured(model, ctx, Some(ctx), true, id, start, end);
    run_is_measured(
        model,
        ctx,
        id,
        wait,
        wait,
        rows,
        start,
        before_reading,
        after_reading,
        end,
    );
}

/// A run that is not traced is not recorded: no hook changes anything for it.
pub proof fn run_without_a_trace_records_nothing(
    model: TracerModel,
    id: Seq<char>,
    wait: Option<WaitEventModel>,
    start: u64,
    before_reading: u64,
)
    requires
        !model.config.enabled || model.trace_ctx is None,
    ensures
        !model.is_tracing(),
        model.run_begin(id, wait, start, before_reading) == model,
{
}

/// The end of a run that is not in progress records nothing.
pub proof fn run_that_never_began_records_nothing(
    model: TracerModel,
    outer: nat,
    wait: Option<WaitEventModel>,
    rows: Option<u64>,
    reading: u64,
    end: u64,
)
    requires
        outer >= model.run_spans.len(),
    ensures
        model.run_end(outer, wait, rows, reading, end) == (model, Seq::<SpanModel>::empty()),
{
}

/// With tracing enabled and a trace at hand, runs are traced.
pub proof fn runs_of_a_trace_are_traced(model: TracerModel)
    ensures
        model.is_tracing() <==> model.config.enabled && model.trace_ctx is Some,
{
}

/// A batch that the queue does not take is warned of where the last warning is more than a minute
/// ago, by the clock that never runs backwards; nothing else changes.
pub proof fn full_queue_is_warned_of_once_a_minute(model: TracerModel, reading: u64)
    ensures
        ({
            let (next, warn) = model.queue_full(reading);
            let now = max(model.now, reading);
            &&& next.now == now
            &&& warn <==> now - model.config.last_queue_warning > 60_000_000_000
            &&& next.config.last_queue_warning == (if warn {
                now
            } else {
                model.config.last_queue_warning
            })
            &&& next.config.enabled == model.config.enabled
            &&& next.config.sample_rate_billionths == model.config.sample_rate_billionths
            &&& next.span_buffer == model.span_buffer
            &&& next.trace_ctx == model.trace_ctx
            &&& next.run_spans == model.run_spans
            &&& next.planner_span == model.planner_span
            &&& next.exec_span == model.exec_span
            &&& next.sampled_out == model.sampled_out
        }),
{
}

/// The lifecycle of a query: planned, executed, run and ended, it leaves the backend with nothing to
/// do and yields its three spans in one batch, by the times that were read.
pub proof fn query_yields_three_spans(
    model: TracerModel,
    ctx: TraceContextModel,
    planner_id: Seq<char>,
    exec_id: Seq<char>,
    run_id: Seq<char>,
    incoming: Option<TraceContextModel>,
    sampled: bool,
    before: Option<WaitEventModel>,
    after: Option<WaitEventModel>,
    rows: Option<u64>,
    times: Seq<u64>,
)
    requires
        model.config.enabled,
        model.trace_ctx is None && !model.sampled_out,
        model.span_buffer.len() == 0 && model.run_spans.len() == 0,
        model.planner_span is None && model.exec_span is None,
        times.len() == 8,
        model.now <= times[0],
        forall|i: int, j: int| 0 <= i <= j < 8 ==> times[i] <= times[j],
    ensures
        ({
            let planning = model.planner_begin(Some(ctx), true, planner_id, times[0]);
            let (planned, planner_batch) = planning.planner_end(times[1]);
            let starting = planned.executor_start(incoming, sampled, exec_id, times[2]);
            let running = starting.run_begin(run_id, before, times[3], times[4]);
            let (ran, run_batch) = running.run_end(0, after, rows, times[5], times[6]);
            let (over, batch) = ran.executor_end(times[7]);
            &&& planner_batch.len() == 0 && run_batch.len() == 0 && batch.len() == 3
            &&& is_span_of(
                batch[0],
                ctx,
                "planner"@,
                ctx.parent_span_id,
                planner_id,
                times[0],
                times[1],
            )
            &&& batch[0].attributes.len() == 0 && batch[0].events.len() == 0
            &&& is_span_of(batch[1], ctx, "executor run"@, exec_id, run_id, times[3], times[6])
            &&& are_wait_events(batch[1].events, before, times[4], after, times[5])
            &&& are_rows(batch[1].attributes, rows)
            &&& is_span_of(
                batch[2],
                ctx,
                "query execution"@,
                ctx.parent_span_id,
                exec_id,
                times[2],
                times[7],
            )
            &&& batch[2].attributes.len() == 0 && batch[2].events.len() == 0
            &&& over.config == model.config && over.now == times[7]
            &&& over.trace_ctx is None && !over.sampled_out
            &&& over.span_buffer.len() == 0 && over.run_spans.len() == 0
            &&& over.planner_span is None && over.exec_span is None
        }),
{
    let planning = model.planner_begin(Some(ctx), true, planner_id, times[0]);
    let (planned, planner_batch) = planning.planner_end(times[1]);
    let starting = planned.executor_start(incoming, sampled, exec_id, times[2]);
    let running = starting.run_begin(run_id, before, times[3], times[4]);
    let (ran, run_batch) = running.run_end(0, after, rows, times[5], times[6]);
    let (over, batch) = ran.executor_end(times[7]);
    if let Some(n) = rows {
        crate::laws::numbers::decimal_is_read_back(n as nat);
    }
    assert(planned.trace_ctx == Some(ctx) && planned.span_buffer.len() == 1);
    assert(running.run_spans.len() == 1);
    assert(ran.span_buffer.len() == 2);
    assert(batch.len() == 3);
}

/// `ended` is `span`, which was in progress, with its end at `end`, and nothing else of it changed.
pub open spec fn is_ended(ended: SpanModel, span: SpanModel, end: u64) -> bool {
    &&& ended.end_time_unix_nano == end
    &&& ended.trace_id == span.trace_id && ended.span_id == span.span_id
    &&& ended.parent_span_id == span.parent_span_id && ended.name == span.name
    &&& ended.start_time_unix_nano == span.start_time_unix_nano && ended.status == span.status
}

/// The end of planning ends the planner span in progress, whatever happened since it began.
pub proof fn end_of_planning_ends_its_span(model: TracerModel, span: SpanModel, reading: u64)
    requires
        model.planner_span == Some(span),
    ensures
        ({
            let (next, batch) = model.planner_end(reading);
            exists|ended: SpanModel|
                {
                    &&& #[trigger] is_recorded(model, next, batch, ended)
                    &&& is_ended(ended, span, max(model.now, reading))
                    &&& ended.attributes == span.attributes && ended.events == span.events
                    &&& next.now == ended.end_time_unix_nano
                    &&& next.planner_span is None && next.trace_ctx == model.trace_ctx
                    &&& next.exec_span == model.exec_span && next.run_spans == model.run_spans
                    &&& next.config == model.config && next.sampled_out == model.sampled_out
                }
        }),
{
    let (next, batch) = model.planner_end(reading);
    crate::hooks::finishing_keeps_every_span(
        TracerModel { planner_span: None, ..model },
        span,
        reading,
    );
    assert(is_recorded(model, next, batch, crate::hooks::finished(span, next.now)));
}

/// The end of execution in a trace flushes what is buffered, in order, and behind it the execution
/// span in progress, if any, which ends then.
pub proof fn end_of_execution_flushes_everything(model: TracerModel, reading: u64)
    requires
        model.config.enabled,
        model.trace_ctx is Some,
    ensures
        ({
            let (over, batch) = model.executor_end(reading);
            let count = model.span_buffer.len();
            &&& batch.len() == count + (if model.exec_span is Some {
                1int
            } else {
                0
            })
            &&& batch.take(count as int) == model.span_buffer
            &&& model.exec_span matches Some(span) ==> {
                &&& is_ended(batch[count as int], span, max(model.now, reading))
                &&& batch[count as int].attributes == span.attributes
                &&& batch[count as int].events == span.events
            }
            &&& over.span_buffer.len() == 0 && over.exec_span is None && over.trace_ctx is None
            &&& !over.sampled_out
            &&& over.planner_span == model.planner_span && over.run_spans == model.run_spans
            &&& over.config == model.config
        }),
{
    let (over, batch) = model.executor_end(reading);
    assert(batch.take(model.span_buffer.len() as int) =~= model.span_buffer);
}

/// A run that begins is put inside those in progress, which stay as they are.
pub proof fn run_begins_inside_those_in_progress(
    model: TracerModel,
    ctx: TraceContextModel,
    id: Seq<char>,
    wait: Option<WaitEventModel>,
    start: u64,
    reading: u64,
)
    requires
        model.config.enabled,
        model.trace_ctx == Some(ctx),
    ensures
        ({
            let next = model.run_begin(id, wait, start, reading);
            let begun = max(model.now, start);
            &&& next.run_spans.len() == model.run_spans.len() + 1
            &&& next.run_spans.drop_last() == model.run_spans
            &&& is_span_of(
                next.run_spans.last(),
                ctx,
                "executor run"@,
                match model.exec_span {
                    Some(execution) => execution.span_id,
                    None => ctx.parent_span_id,
                },
                id,
                begun,
                0,
            )
            &&& next.run_spans.last().attributes.len() == 0
            &&& are_wait_events(
                next.run_spans.last().events,
                wait,
                max(begun, reading),
                None,
                0,
            )
            &&& next.now == max(begun, reading)
            &&& next.span_buffer == model.span_buffer && next.config == model.config
            &&& next.trace_ctx == model.trace_ctx && next.sampled_out == model.sampled_out
            &&& next.planner_span == model.planner_span && next.exec_span == model.exec_span
        }),
{
    let next = model.run_begin(id, wait, start, reading);
    assert(next.run_spans.drop_last() =~= model.run_spans);
}

/// The end of a run ends the span of that run, whatever runs began inside it, and leaves those around
/// it in progress: the wait event is added to its events, the number of rows to its attributes.
pub proof fn end_of_a_run_ends_its_span(
    model: TracerModel,
    outer: nat,
    wait: Option<WaitEventModel>,
    rows: Option<u64>,
    reading: u64,
    end: u64,
)
    requires
        outer < model.run_spans.len(),
    ensures
        ({
            let span = model.run_spans[outer as int];
            let (next, batch) = model.run_end(outer, wait, rows, reading, end);
            let time = max(model.now, reading);
            exists|ended: SpanModel|
                {
                    &&& #[trigger] is_recorded(model, next, batch, ended)
                    &&& is_ended(ended, span, max(time, end))
                    &&& ended.events.take(span.events.len() as int) == span.events
                    &&& are_wait_events(
                        ended.events.skip(span.events.len() as int),
                        None,
                        0,
                        wait,
                        time,
                    )
                    &&& ended.attributes.take(span.attributes.len() as int) == span.attributes
                    &&& are_rows(ended.attributes.skip(span.attributes.len() as int), rows)
                    &&& next.now == ended.end_time_unix_nano
                    &&& next.run_spans == model.run_spans.take(outer as int)
                    &&& next.trace_ctx == model.trace_ctx && next.exec_span == model.exec_span
                    &&& next.planner_span == model.planner_span && next.config == model.config
                    &&& next.sampled_out == model.sampled_out
                }
        }),
{
    let span = model.run_spans[outer as int];
    let (next, batch) = model.run_end(outer, wait, rows, reading, end);
    let noted = crate::hooks::with_wait_event(
        span,
        "wait_event_after"@,
        wait,
        model.at(reading).now,
    );
    let whole = crate::hooks::with_row_count(noted, rows);
    crate::hooks::finishing_keeps_every_span(
        TracerModel { run_spans: model.run_spans.take(outer as int), ..model.at(reading) },
        whole,
        end,
    );
    if let Some(n) = rows {
        crate::laws::numbers::decimal_is_read_back(n as nat);
    }
    let ended = crate::hooks::finished(whole, next.now);
    assert(ended.events.take(span.events.len() as int) =~= span.events);
    assert(ended.attributes.take(span.attributes.len() as int) =~= span.attributes);
    assert(is_recorded(model, next, batch, ended));
}

/// The end of a transaction and the abort of a subtransaction end what was decided against a query;
/// the first forgets the runs that never ended, and neither touches anything else.
pub proof fn transactions_end_decisions(model: TracerModel)
    ensures
        !model.end_transaction().sampled_out && model.end_transaction().run_spans.len() == 0,
        !model.abort_subtransaction().sampled_out,
        model.abort_subtransaction().run_spans == model.run_spans,
        model.end_transaction().span_buffer == model.span_buffer,
        model.abort_subtransaction().span_buffer == model.span_buffer,
        model.end_transaction().trace_ctx == model.trace_ctx,
        model.abort_subtransaction().trace_ctx == model.trace_ctx,
        model.end_transaction().exec_span == model.exec_span,
        model.abort_subtransaction().exec_span == model.exec_span,
        model.end_transaction().planner_span == model.planner_span,
        model.abort_subtransaction().planner_span == model.planner_span,
        model.end_transaction().config == model.config,
        model.abort_subtransaction().config == model.config,
        model.end_transaction().now == model.now && model.abort_subtransaction().now == model.now,
{
}

/// An idle backend has nothing in progress and nothing to flush.
pub proof fn idle_backend_has_nothing_to_do(model: TracerModel)
    ensures
        model.is_idle() <==> model.trace_ctx is None && !model.sampled_out
            && model.span_buffer.len() == 0 && model.run_spans.len() == 0
            && model.planner_span is None && model.exec_span is None,
{
}

/// A backend in order holds fewer than 64 spans, none of which ends before it starts or has an event
/// outside its time, and what is in progress began no later than now.
pub proof fn backend_in_order_keeps_times_in_order(model: TracerModel)
    requires
        model.wf(),
    ensures
        model.span_buffer.len() < 64,
        forall|i: int|
            0 <= i < model.span_buffer.len() ==> (
            #[trigger] model.span_buffer[i]).start_time_unix_nano
                <= model.span_buffer[i].end_time_unix_nano,
        forall|i: int, j: int|
            0 <= i < model.span_buffer.len() && 0 <= j < model.span_buffer[i].events.len()
                ==> model.span_buffer[i].start_time_unix_nano <= (
            #[trigger] model.span_buffer[i].events[j]).timestamp_unix_nano
                <= model.span_buffer[i].end_time_unix_nano,
        model.planner_span matches Some(span) ==> span.start_time_unix_nano <= model.now,
        model.exec_span matches Some(span) ==> span.start_time_unix_nano <= model.now,
        forall|i: int|
            0 <= i < model.run_spans.len() ==> (#[trigger] model.run_spans[i]).start_time_unix_nano
                <= model.now,
{
    assert forall|i: int| 0 <= i < model.span_buffer.len() implies (
    #[trigger] model.span_buffer[i]).start_time_unix_nano
        <= model.span_buffer[i].end_time_unix_nano by {
        assert(crate::hooks::is_closed(model.span_buffer[i]));
    }
    assert forall|i: int, j: int|
        0 <= i < model.span_buffer.len() && 0 <= j < model.span_buffer[i].events.len() implies
        model.span_buffer[i].start_time_unix_nano <= (
    #[trigger] model.span_buffer[i].events[j]).timestamp_unix_nano
        <= model.span_buffer[i].end_time_unix_nano by {
        assert(crate::hooks::is_closed(model.span_buffer[i]));
    }
    assert forall|i: int| 0 <= i < model.run_spans.len() implies (
    #[trigger] model.run_spans[i]).start_time_unix_nano <= model.now by {
        assert(crate::hooks::is_open(model.run_spans[i], model.now));
    }
}

/// An identifier has its width in lower-case hexadecimal digits.
pub proof fn identifiers_are_lower_case_digits(id: Seq<char>, width: nat)
    ensures
        crate::span::is_id(id, width) <==> id.len() == width && forall|i: int|
            0 <= i < width ==> '0' <= (#[trigger] id[i]) <= '9' || 'a' <= id[i] <= 'f',
{
    if id.len() == width && (forall|i: int|
        0 <= i < width ==> '0' <= (#[trigger] id[i]) <= '9' || 'a' <= id[i] <= 'f') {
        assert forall|i: int| 0 <= i < width implies crate::text::is_lower_hex(
            #[trigger] id[i],
        ) by {}
    }
    if crate::span::is_id(id, width) {
        assert forall|i: int| 0 <= i < width implies '0' <= (#[trigger] id[i]) <= '9' || 'a'
            <= id[i] <= 'f' by {
            assert(crate::text::is_lower_hex(id[i]));
        }
    }
}

} // verus!
