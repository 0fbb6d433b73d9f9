# pg_otel_tracer

An OpenTelemetry tracing extension for PostgreSQL. It extracts a W3C `traceparent` from SQL
comments, follows the query through the planner and the executor, and exports its spans by
OTLP/HTTP from a background worker.

The decisions of the extension are a library that Verus verifies; what only Postgres, the network
and the environment can do stands around it.

## Layout

```
src/              the verified library
  lexer.rs          where the comments of a SQL text stand
  parser.rs         traceparent extraction
  span.rs           spans, identifiers, the clock
  hooks.rs          what the query hooks do with spans
  shared.rs         the ring buffer between backends and worker
  bgw.rs            the background worker as a state machine
  exporter.rs       the OTLP document, the request and its reply
  json.rs           JSON documents, by serde_json
  config.rs         switch, sampling, rate-limited warnings
  wait_events.rs    names of wait events
  status.rs         version and status metrics
  text.rs           numbers as text
app/              the extension around it: hooks, shared memory, worker process, HTTP
tests/            tests of the library
```

## What is proved

- A context that an application injects into a comment is the one that is extracted; nothing else in
  the text is read.
- A sampled query yields its three spans, in one trace and below one another, and leaves nothing
  behind; runs inside runs are all recorded; with tracing disabled no hook does anything.
- A backend never buffers 64 spans; no span ends before it starts.
- The queue is first in, first out, byte for byte, however pushes and pops take turns, and drops
  what finds no room.
- The worker takes the spans off the queue to the collector each once and in order, never puts more
  than 100 into a request, tries each request three times at most, and exits with nothing left.
- The OTLP document of a batch is pinned down member by member.

The items whose contracts are believed rather than proved are the calls into `regex`, `rand`,
`serde_json` and the standard library; the comment above each says what it claims.
