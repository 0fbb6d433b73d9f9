//! The OTLP/HTTP request that carries a batch of spans to the collector, and what its reply
//! means.

use serde_json::Value;
use vstd::prelude::*;

use crate::json::{keyed, list, null, number, render, text, Json};
use crate::span::{EventModel, RawEvent, RawSpan, SpanModel, SpanStatus};
use crate::text::to_decimal;

verus! {

/// The document `{ "stringValue": <s> }`.
pub open spec fn string_value(s: Seq<char>) -> Json {
    crate::json::object(seq![("stringValue"@, Json::Text(s))])
}

/// The document `{ "key": <key>, "value": { "stringValue": <value> } }`.
pub open spec fn attribute_document(key: Seq<char>, value: Seq<char>) -> Json {
    crate::json::object(seq![("key"@, Json::Text(key)), ("value"@, string_value(value))])
}

/// The list of the documents of attributes.
pub open spec fn attribute_list(attributes: Seq<(Seq<char>, Seq<char>)>) -> Json {
    Json::List(
        attributes.map_values(|kv: (Seq<char>, Seq<char>)| attribute_document(kv.0, kv.1)),
    )
}

fn attribute_value(key: &str, value: &str) -> (document: Value)
    ensures
        crate::json::json_of(document) == attribute_document(key@, value@),
{
    let mut inner: Vec<(&str, Value)> = Vec::new();
    inner.push(("stringValue", text(value)));
    assert(crate::json::pairs_of(inner@) =~= seq![("stringValue"@, Json::Text(value@))]);
    let mut outer: Vec<(&str, Value)> = Vec::new();
    outer.push(("key", text(key)));
    outer.push(("value", keyed(inner)));
    assert(crate::json::pairs_of(outer@) =~= seq![
        ("key"@, Json::Text(key@)),
        ("value"@, string_value(value@)),
    ]);
    proof {
        reveal_strlit("key");
        reveal_strlit("value");
        assert("key"@.len() != "value"@.len());
    }
    keyed(outer)
}

fn attribute_values(attributes: &Vec<(String, String)>) -> (document: Value)
    ensures
        crate::json::json_of(document) == attribute_list(
            crate::span::attributes_of(attributes@),
        ),
{
    let mut items: Vec<Value> = Vec::new();
    let mut i: usize = 0;
    while i < attributes.len()
        invariant
            i <= attributes.len(),
            items@.len() == i,
            forall|j: int|
                0 <= j < i ==> crate::json::json_of(#[trigger] items@[j]) == attribute_document(
                    attributes@[j].0@,
                    attributes@[j].1@,
                ),
        decreases attributes.len() - i,
    {
        items.push(attribute_value(attributes[i].0.as_str(), attributes[i].1.as_str()));
        i += 1;
    }
    assert(Json::List(crate::json::documents_of(items@)) == attribute_list(
        crate::span::attributes_of(attributes@),
    )) by {
        assert(crate::json::documents_of(items@) =~= crate::span::attributes_of(
            attributes@,
        ).map_values(|kv: (Seq<char>, Seq<char>)| attribute_document(kv.0, kv.1)));
    }
    list(items)
}

/// The document of an event.
pub open spec fn event_document(event: EventModel) -> Json {
    crate::json::object(
        seq![
            ("name"@, Json::Text(event.name)),
            (
                "timeUnixNano"@,
                Json::Text(crate::text::decimal_text(event.timestamp_unix_nano as nat)),
            ),
            ("attributes"@, attribute_list(event.attributes)),
        ],
    )
}

/// The list of the documents of events.
pub open spec fn event_list(events: Seq<EventModel>) -> Json {
    Json::List(events.map_values(|e: EventModel| event_document(e)))
}

/// The OTLP code of a status.
pub open spec fn status_code(status: SpanStatus) -> nat {
    match status {
        SpanStatus::Unset => 0,
        SpanStatus::Okay => 1,
        SpanStatus::Error => 2,
    }
}

/// The members of the document of a span.
pub open spec fn span_members(span: SpanModel) -> Seq<(Seq<char>, Json)> {
    seq![
        ("traceId"@, Json::Text(span.trace_id)),
        ("spanId"@, Json::Text(span.span_id)),
        (
            "parentSpanId"@,
            match span.parent_span_id {
                Some(parent) => Json::Text(parent),
                None => Json::Null,
            },
        ),
        ("name"@, Json::Text(span.name)),
        // SPAN_KIND_INTERNAL
        ("kind"@, Json::Number(1)),
        (
            "startTimeUnixNano"@,
            Json::Text(crate::text::decimal_text(span.start_time_unix_nano as nat)),
        ),
        (
            "endTimeUnixNano"@,
            Json::Text(crate::text::decimal_text(span.end_time_unix_nano as nat)),
        ),
        ("attributes"@, attribute_list(span.attributes)),
        ("events"@, event_list(span.events)),
        (
            "status"@,
            crate::json::object(seq![("code"@, Json::Number(status_code(span.status)))]),
        ),
    ]
}

/// The document of a span.
pub open spec fn span_document(span: SpanModel) -> Json {
    crate::json::object(span_members(span))
}

fn event_value(event: &RawEvent) -> (document: Value)
    ensures
        crate::json::json_of(document) == event_document(event@),
{
    let mut members: Vec<(&str, Value)> = Vec::new();
    members.push(("name", text(event.name.as_str())));
    members.push(("timeUnixNano", text(to_decimal(event.timestamp_unix_nano).as_str())));
    members.push(("attributes", attribute_values(&event.attributes)));
    assert(crate::json::pairs_of(members@) =~= seq![
        ("name"@, Json::Text(event@.name)),
        (
            "timeUnixNano"@,
            Json::Text(crate::text::decimal_text(event@.timestamp_unix_nano as nat)),
        ),
        ("attributes"@, attribute_list(event@.attributes)),
    ]);
    proof {
        reveal_strlit("name");
        reveal_strlit("timeUnixNano");
        reveal_strlit("attributes");
        assert("name"@.len() == 4);
        assert("timeUnixNano"@.len() == 12);
        assert("attributes"@.len() == 10);
    }
    keyed(members)
}

fn event_values(events: &Vec<RawEvent>) -> (document: Value)
    ensures
        crate::json::json_of(document) == event_list(crate::span::events_of(events@)),
{
    let mut items: Vec<Value> = Vec::new();
    let mut i: usize = 0;
    while i < events.len()
        invariant
            i <= events.len(),
            items@.len() == i,
            forall|j: int|
                0 <= j < i ==> crate::json::json_of(#[trigger] items@[j]) == event_document(
                    events@[j]@,
                ),
        decreases events.len() - i,
    {
        items.push(event_value(&events[i]));
        i += 1;
    }
    assert(Json::List(crate::json::documents_of(items@)) == event_list(
        crate::span::events_of(events@),
    )) by {
        assert(crate::json::documents_of(items@) =~= crate::span::events_of(events@).map_values(
            |e: EventModel| event_document(e),
        ));
    }
    list(items)
}

fn status_value(status: SpanStatus) -> (document: Value)
    ensures
        crate::json::json_of(document) == crate::json::object(
            seq![("code"@, Json::Number(status_code(status)))],
        ),
{
    let code: u64 = match status {
        SpanStatus::Unset => 0,
        SpanStatus::Okay => 1,
        SpanStatus::Error => 2,
    };
    let mut members: Vec<(&str, Value)> = Vec::new();
    members.push(("code", number(code)));
    assert(crate::json::pairs_of(members@) =~= seq![
        ("code"@, Json::Number(status_code(status))),
    ]);
    keyed(members)
}

fn span_value(span: &RawSpan) -> (document: Value)
    ensures
        crate::json::json_of(document) == span_document(span@),
{
    let parent = match &span.parent_span_id {
        Some(parent) => text(parent.as_str()),
        None => null(),
    };
    let mut members: Vec<(&str, Value)> = Vec::new();
    members.push(("traceId", text(span.trace_id.as_str())));
    members.push(("spanId", text(span.span_id.as_str())));
    members.push(("parentSpanId", parent));
    members.push(("name", text(span.name.as_str())));
    members.push(("kind", number(1)));
    members.push(("startTimeUnixNano", text(to_decimal(span.start_time_unix_nano).as_str())));
    members.push(("endTimeUnixNano", text(to_decimal(span.end_time_unix_nano).as_str())));
    members.push(("attributes", attribute_values(&span.attributes)));
    members.push(("events", event_values(&span.events)));
    members.push(("status", status_value(span.status)));
    assert(crate::json::pairs_of(members@) =~= span_members(span@));
    proof {
        span_keys_differ(span@);
    }
    keyed(members)
}

pub(crate) proof fn span_keys_differ(span: SpanModel)
    ensures
        crate::json::keys_differ(span_members(span)),
{
    reveal_strlit("traceId");
    reveal_strlit("spanId");
    reveal_strlit("parentSpanId");
    reveal_strlit("name");
    reveal_strlit("kind");
    reveal_strlit("startTimeUnixNano");
    reveal_strlit("endTimeUnixNano");
    reveal_strlit("attributes");
    reveal_strlit("events");
    reveal_strlit("status");
    assert("traceId"@.len() == 7);
    assert("spanId"@.len() == 6);
    assert("parentSpanId"@.len() == 12);
    assert("name"@.len() == 4);
    assert("kind"@.len() == 4);
    assert("startTimeUnixNano"@.len() == 17);
    assert("endTimeUnixNano"@.len() == 15);
    assert("attributes"@.len() == 10);
    assert("events"@.len() == 6);
    assert("status"@.len() == 6);
    assert("name"@[0] != "kind"@[0]);
    assert("spanId"@[0] != "events"@[0]);
    assert("spanId"@[1] != "status"@[1]);
    assert("events"@[0] != "status"@[0]);
}

/// The list of the documents of spans.
pub open spec fn span_list(spans: Seq<SpanModel>) -> Json {
    Json::List(spans.map_values(|s: SpanModel| span_document(s)))
}

/// The attributes of the resource that the spans come from.
pub open spec fn resource_attributes() -> Seq<(Seq<char>, Seq<char>)> {
    seq![
        ("service.name"@, "postgresql"@),
        ("db.system"@, "postgresql"@),
        ("service.version"@, crate::status::VERSION@),
    ]
}

/// The OTLP document of a batch of spans: one resource, one scope, the spans in order.
pub open spec fn payload_document(spans: Seq<SpanModel>) -> Json {
    let scope = crate::json::object(
        seq![
            ("name"@, Json::Text("pg_otel_tracer"@)),
            ("version"@, Json::Text(crate::status::VERSION@)),
        ],
    );
    let scope_spans = crate::json::object(
        seq![
            ("scope"@, scope),
            ("spans"@, span_list(spans)),
        ],
    );
    let resource = crate::json::object(
        seq![("attributes"@, attribute_list(resource_attributes()))],
    );
    let resource_spans = crate::json::object(
        seq![("resource"@, resource), ("scopeSpans"@, Json::List(seq![scope_spans]))],
    );
    crate::json::object(seq![("resourceSpans"@, Json::List(seq![resource_spans]))])
}

fn span_values(spans: &[RawSpan]) -> (document: Value)
    ensures
        crate::json::json_of(document) == span_list(crate::span::spans_of(spans@)),
{
    let mut items: Vec<Value> = Vec::new();
    let mut i: usize = 0;
    while i < spans.len()
        invariant
            i <= spans.len(),
            items@.len() == i,
            forall|j: int|
                0 <= j < i ==> crate::json::json_of(#[trigger] items@[j]) == span_document(
                    spans@[j]@,
                ),
        decreases spans.len() - i,
    {
        items.push(span_value(&spans[i]));
        i += 1;
    }
    assert(Json::List(crate::json::documents_of(items@)) == span_list(
        crate::span::spans_of(spans@),
    )) by {
        assert(crate::json::documents_of(items@) =~= crate::span::spans_of(spans@).map_values(
            |s: SpanModel| span_document(s),
        ));
    }
    list(items)
}

/// The one-member object `{ <key>: <value> }`.
fn single(key: &str, value: Value) -> (document: Value)
    ensures
        crate::json::json_of(document) == crate::json::object(
            seq![(key@, crate::json::json_of(value))],
        ),
{
    let mut members: Vec<(&str, Value)> = Vec::new();
    members.push((key, value));
    assert(crate::json::pairs_of(members@) =~= seq![(key@, crate::json::json_of(value))]);
    keyed(members)
}

/// The two-member object.
fn pair(first: &str, a: Value, second: &str, b: Value) -> (document: Value)
    requires
        first@ != second@,
    ensures
        crate::json::json_of(document) == crate::json::object(
            seq![(first@, crate::json::json_of(a)), (second@, crate::json::json_of(b))],
        ),
{
    let mut members: Vec<(&str, Value)> = Vec::new();
    members.push((first, a));
    members.push((second, b));
    assert(crate::json::pairs_of(members@) =~= seq![
        (first@, crate::json::json_of(a)),
        (second@, crate::json::json_of(b)),
    ]);
    keyed(members)
}

/// The list of one value.
fn only(value: Value) -> (document: Value)
    ensures
        crate::json::json_of(document) == Json::List(seq![crate::json::json_of(value)]),
{
    let mut items: Vec<Value> = Vec::new();
    items.push(value);
    assert(crate::json::documents_of(items@) =~= seq![crate::json::json_of(value)]);
    list(items)
}

fn resource_attribute_values() -> (document: Value)
    ensures
        crate::json::json_of(document) == attribute_list(resource_attributes()),
{
    let mut attributes: Vec<(String, String)> = Vec::new();
    attributes.push(("service.name".to_string(), "postgresql".to_string()));
    attributes.push(("db.system".to_string(), "postgresql".to_string()));
    attributes.push(("service.version".to_string(), crate::status::VERSION.to_string()));
    assert(crate::span::attributes_of(attributes@) =~= resource_attributes());
    attribute_values(&attributes)
}

/// The OTLP trace document of a batch of spans.
pub fn otlp_document(spans: &[RawSpan]) -> (document: Value)
    ensures
        crate::json::json_of(document) == payload_document(crate::span::spans_of(spans@)),
{
    proof {
        reveal_strlit("name");
        reveal_strlit("version");
        reveal_strlit("scope");
        reveal_strlit("spans");
        reveal_strlit("resource");
        reveal_strlit("scopeSpans");
        assert("name"@.len() != "version"@.len());
        assert("scope"@[1] != "spans"@[1]);
        assert("resource"@.len() != "scopeSpans"@.len());
    }
    let scope = pair(
        "name",
        text("pg_otel_tracer"),
        "version",
        text(crate::status::VERSION),
    );
    let scope_spans = pair("scope", scope, "spans", span_values(spans));
    let resource = single("attributes", resource_attribute_values());
    let resource_spans = pair("resource", resource, "scopeSpans", only(scope_spans));
    single("resourceSpans", only(resource_spans))
}

/// Build a minimal OTLP/HTTP JSON trace payload.
pub fn build_otlp_payload(spans: &[RawSpan]) -> (payload: String)
    ensures
        payload@ == crate::json::json_text(payload_document(crate::span::spans_of(spans@))),
{
    render(&otlp_document(spans))
}

/// Where spans are sent unless the environment says otherwise.
pub const DEFAULT_ENDPOINT: &'static str = "http://localhost:4318/v1/traces";

/// Resolve the collector endpoint: the configured one, or the default.
pub fn get_endpoint(configured: Option<String>) -> (endpoint: String)
    ensures
        endpoint@ == match configured {
            Some(e) => e@,
            None => DEFAULT_ENDPOINT@,
        },
{
    match configured {
        Some(endpoint) => endpoint,
        None => DEFAULT_ENDPOINT.to_string(),
    }
}

/// What is posted to the collector.
#[derive(Clone, Debug)]
pub struct ExportRequest {
    pub endpoint: String,
    pub payload: String,
}

/// The request that exports a batch of spans to the configured OTLP/HTTP endpoint; none where
/// the endpoint is configured to be empty.
pub fn export_request(configured: Option<String>, spans: &[RawSpan]) -> (request: Option<
    ExportRequest,
>)
    ensures
        request is None <==> (configured matches Some(e) && e@.len() == 0),
        request matches Some(r) ==> {
            &&& r.endpoint@ == match configured {
                Some(e) => e@,
                None => DEFAULT_ENDPOINT@,
            }
            &&& r.payload@ == crate::json::json_text(
                payload_document(crate::span::spans_of(spans@)),
            )
        },
{
    let endpoint = get_endpoint(configured);
    proof {
        reveal_strlit("http://localhost:4318/v1/traces");
    }
    if endpoint.as_str().is_empty() {
        None
    } else {
        let payload = build_otlp_payload(spans);
        Some(ExportRequest { endpoint, payload })
    }
}

/// What the HTTP status of the collector's reply means for an export.
pub fn export_result(status: u16) -> (result: Result<(), String>)
    ensures
        result is Ok <==> 200 <= status < 300,
        result matches Err(message) ==> message@ == "OTLP export returned HTTP "@
            + crate::text::decimal_text(status as nat),
{
    if 200 <= status && status < 300 {
        Ok(())
    } else {
        let mut message = "OTLP export returned HTTP ".to_string();
        message.append(to_decimal(status as u64).as_str());
        Err(message)
    }
}

} // verus!
