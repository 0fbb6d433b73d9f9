//! What is exported of spans.

use vstd::prelude::*;

use crate::exporter::{
    build_otlp_payload, export_request, export_result, get_endpoint, otlp_document, ExportRequest,
};
use crate::json::Json;
use crate::span::{RawEvent, RawSpan, SpanStatus};

verus! {

/// The object holds `value` under `key`.
pub open spec fn holds(document: Json, key: Seq<char>, value: Json) -> bool {
    document matches Json::Object(members) && members.contains_key(key) && members[key] == value
}

/// An attribute in OTLP: `{ "key": .., "value": { "stringValue": .. } }`.
pub open spec fn is_attribute(document: Json, key: Seq<char>, value: Seq<char>) -> bool {
    &&& holds(document, "key"@, Json::Text(key))
    &&& document matches Json::Object(members) && members.contains_key("value"@) && holds(
        members["value"@],
        "stringValue"@,
        Json::Text(value),
    )
}

/// A list with a document for each attribute, in order.
pub open spec fn lists_attributes(document: Json, attributes: Seq<(String, String)>) -> bool {
    document matches Json::List(items) && {
        &&& items.len() == attributes.len()
        &&& forall|i: int|
            0 <= i < attributes.len() ==> is_attribute(
                #[trigger] items[i],
                attributes[i].0@,
                attributes[i].1@,
            )
    }
}

/// The object holds the number under `key`, as text in decimal.
pub open spec fn holds_decimal(document: Json, key: Seq<char>, n: int) -> bool {
    document matches Json::Object(members) && members.contains_key(key) && (
    members[key] matches Json::Text(text) && crate::laws::numbers::is_decimal(text, n))
}

/// An event in OTLP.
pub open spec fn is_event(document: Json, event: RawEvent) -> bool {
    &&& holds(document, "name"@, Json::Text(event.name@))
    &&& holds_decimal(document, "timeUnixNano"@, event.timestamp_unix_nano as int)
    &&& document matches Json::Object(members) && members.contains_key("attributes"@)
        && lists_attributes(members["attributes"@], event.attributes@)
}

/// A list with a document for each event, in order.
pub open spec fn lists_events(document: Json, events: Seq<RawEvent>) -> bool {
    document matches Json::List(items) && {
        &&& items.len() == events.len()
        &&& forall|i: int| 0 <= i < events.len() ==> is_event(#[trigger] items[i], events[i])
    }
}

/// A span in OTLP.
pub open spec fn is_span(document: Json, span: RawSpan) -> bool {
    &&& holds(document, "traceId"@, Json::Text(span.trace_id@))
    &&& holds(document, "spanId"@, Json::Text(span.span_id@))
    &&& holds(
        document,
        "parentSpanId"@,
        match span.parent_span_id {
            Some(parent) => Json::Text(parent@),
            None => Json::Null,
        },
    )
    &&& holds(document, "name"@, Json::Text(span.name@))
    &&& holds(document, "kind"@, Json::Number(1))
    &&& holds_decimal(document, "startTimeUnixNano"@, span.start_time_unix_nano as int)
    &&& holds_decimal(document, "endTimeUnixNano"@, span.end_time_unix_nano as int)
    &&& document matches Json::Object(members) && {
        &&& members.contains_key("attributes"@) && lists_attributes(
            members["attributes"@],
            span.attributes@,
        )
        &&& members.contains_key("events"@) && lists_events(members["events"@], span.events@)
        &&& members.contains_key("status"@) && holds(
            members["status"@],
            "code"@,
            Json::Number(
                match span.status {
                    SpanStatus::Unset => 0,
                    SpanStatus::Okay => 1,
                    SpanStatus::Error => 2,
                },
            ),
        )
    }
}

/// A list with a document for each span, in order.
pub open spec fn lists_spans(document: Json, spans: Seq<RawSpan>) -> bool {
    document matches Json::List(items) && {
        &&& items.len() == spans.len()
        &&& forall|i: int| 0 <= i < spans.len() ==> is_span(#[trigger] items[i], spans[i])
    }
}

/// The one item of the list that the object holds under `key`.
pub open spec fn only_item(document: Json, key: Seq<char>) -> Option<Json> {
    match document {
        Json::Object(members) => if members.contains_key(key) {
            match members[key] {
                Json::List(items) => if items.len() == 1 {
                    Some(items[0])
                } else {
                    None
                },
                _ => None,
            }
        } else {
            None
        },
        _ => None,
    }
}

/// The OTLP document of spans: one resource, which says where they come from, and one scope, which
/// says who recorded them, with all of them in it.
pub open spec fn is_payload(document: Json, spans: Seq<RawSpan>) -> bool {
    only_item(document, "resourceSpans"@) matches Some(Json::Object(resource_spans)) && {
        &&& resource_spans.contains_key("resource"@)
        &&& resource_spans["resource"@] matches Json::Object(resource)
        &&& resource.contains_key("attributes"@)
        &&& resource["attributes"@] matches Json::List(described)
        &&& described.len() == 3
        &&& is_attribute(described[0], "service.name"@, "postgresql"@)
        &&& is_attribute(described[1], "db.system"@, "postgresql"@)
        &&& is_attribute(described[2], "service.version"@, "0.1.0"@)
        &&& only_item(Json::Object(resource_spans), "scopeSpans"@) matches Some(
            Json::Object(scope_spans),
        )
        &&& scope_spans.contains_key("scope"@)
        &&& holds(scope_spans["scope"@], "name"@, Json::Text("pg_otel_tracer"@))
        &&& holds(scope_spans["scope"@], "version"@, Json::Text("0.1.0"@))
        &&& scope_spans.contains_key("spans"@)
        &&& lists_spans(scope_spans["spans"@], spans)
    }
}

proof fn attribute_is_documented(key: Seq<char>, value: Seq<char>)
    ensures
        is_attribute(crate::exporter::attribute_document(key, value), key, value),
{
    let inner = seq![("stringValue"@, Json::Text(value))];
    let outer = seq![("key"@, Json::Text(key)), ("value"@, crate::json::object(inner))];
    reveal_strlit("key");
    reveal_strlit("value");
    assert("key"@.len() != "value"@.len());
    crate::json::object_holds_its_members(inner);
    crate::json::object_holds_its_members(outer);
    assert(inner[0].0 == "stringValue"@);
    assert(outer[0].0 == "key"@ && outer[1].0 == "value"@);
}

proof fn attributes_are_listed(attributes: Seq<(String, String)>)
    ensures
        lists_attributes(
            crate::exporter::attribute_list(crate::span::attributes_of(attributes)),
            attributes,
        ),
{
    let texts = crate::span::attributes_of(attributes);
    if let Json::List(items) = crate::exporter::attribute_list(texts) {
        assert forall|i: int| 0 <= i < attributes.len() implies is_attribute(
            #[trigger] items[i],
            attributes[i].0@,
            attributes[i].1@,
        ) by {
            attribute_is_documented(attributes[i].0@, attributes[i].1@);
        }
    }
}

proof fn event_is_documented(event: RawEvent)
    ensures
        is_event(crate::exporter::event_document(event@), event),
{
    let members = seq![
        ("name"@, Json::Text(event@.name)),
        (
            "timeUnixNano"@,
            Json::Text(crate::text::decimal_text(event@.timestamp_unix_nano as nat)),
        ),
        ("attributes"@, crate::exporter::attribute_list(event@.attributes)),
    ];
    reveal_strlit("name");
    reveal_strlit("timeUnixNano");
    reveal_strlit("attributes");
    assert("name"@.len() == 4);
    assert("timeUnixNano"@.len() == 12);
    assert("attributes"@.len() == 10);
    crate::json::object_holds_its_members(members);
    assert(members[0].0 == "name"@);
    assert(members[1].0 == "timeUnixNano"@);
    assert(members[2].0 == "attributes"@);
    crate::laws::numbers::decimal_is_read_back(event@.timestamp_unix_nano as nat);
    attributes_are_listed(event.attributes@);
}

proof fn events_are_listed(events: Seq<RawEvent>)
    ensures
        lists_events(crate::exporter::event_list(crate::span::events_of(events)), events),
{
    if let Json::List(items) = crate::exporter::event_list(crate::span::events_of(events)) {
        assert forall|i: int| 0 <= i < events.len() implies is_event(
            #[trigger] items[i],
            events[i],
        ) by {
            event_is_documented(events[i]);
        }
    }
}

proof fn span_is_documented(span: RawSpan)
    ensures
        is_span(crate::exporter::span_document(span@), span),
{
    let members = crate::exporter::span_members(span@);
    let status = seq![
        ("code"@, Json::Number(crate::exporter::status_code(span.status))),
    ];
    crate::exporter::span_keys_differ(span@);
    crate::json::object_holds_its_members(members);
    crate::json::object_holds_its_members(status);
    assert(status[0].0 == "code"@);
    assert(members[0].0 == "traceId"@ && members[1].0 == "spanId"@);
    assert(members[2].0 == "parentSpanId"@ && members[3].0 == "name"@ && members[4].0 == "kind"@);
    assert(members[5].0 == "startTimeUnixNano"@ && members[6].0 == "endTimeUnixNano"@);
    assert(members[7].0 == "attributes"@ && members[8].0 == "events"@ && members[9].0 == "status"@);
    crate::laws::numbers::decimal_is_read_back(span.start_time_unix_nano as nat);
    crate::laws::numbers::decimal_is_read_back(span.end_time_unix_nano as nat);
    attributes_are_listed(span.attributes@);
    events_are_listed(span.events@);
}

proof fn spans_are_listed(spans: Seq<RawSpan>)
    ensures
        lists_spans(crate::exporter::span_list(crate::span::spans_of(spans)), spans),
{
    if let Json::List(items) = crate::exporter::span_list(crate::span::spans_of(spans)) {
        assert forall|i: int| 0 <= i < spans.len() implies is_span(#[trigger] items[i], spans[i]) by {
            span_is_documented(spans[i]);
        }
    }
}

proof fn payload_is_documented(spans: Seq<RawSpan>)
    ensures
        is_payload(crate::exporter::payload_document(crate::span::spans_of(spans)), spans),
{
    let scope = seq![
        ("name"@, Json::Text("pg_otel_tracer"@)),
        ("version"@, Json::Text(crate::status::VERSION@)),
    ];
    let listed = crate::exporter::span_list(crate::span::spans_of(spans));
    let scope_spans = seq![("scope"@, crate::json::object(scope)), ("spans"@, listed)];
    let attributes = crate::exporter::attribute_list(crate::exporter::resource_attributes());
    let resource = seq![("attributes"@, attributes)];
    let resource_spans = seq![
        ("resource"@, crate::json::object(resource)),
        ("scopeSpans"@, Json::List(seq![crate::json::object(scope_spans)])),
    ];
    let whole = seq![
        ("resourceSpans"@, Json::List(seq![crate::json::object(resource_spans)])),
    ];
    reveal_strlit("name");
    reveal_strlit("version");
    reveal_strlit("scope");
    reveal_strlit("spans");
    reveal_strlit("resource");
    reveal_strlit("scopeSpans");
    assert("name"@.len() != "version"@.len());
    assert("scope"@[1] != "spans"@[1]);
    assert("resource"@.len() != "scopeSpans"@.len());
    crate::json::object_holds_its_members(scope);
    crate::json::object_holds_its_members(scope_spans);
    crate::json::object_holds_its_members(resource);
    crate::json::object_holds_its_members(resource_spans);
    crate::json::object_holds_its_members(whole);
    assert(scope[0].0 == "name"@ && scope[1].0 == "version"@);
    assert(scope_spans[0].0 == "scope"@ && scope_spans[1].0 == "spans"@);
    assert(resource[0].0 == "attributes"@);
    assert(resource_spans[0].0 == "resource"@ && resource_spans[1].0 == "scopeSpans"@);
    assert(whole[0].0 == "resourceSpans"@);
    attribute_is_documented("service.name"@, "postgresql"@);
    attribute_is_documented("db.system"@, "postgresql"@);
    attribute_is_documented("service.version"@, "0.1.0"@);
    spans_are_listed(spans);
}

/// Every span of a batch is in the document, each once and in order, with every attribute and every
/// event of it; so it is in the text that is posted to the collector.
pub proof fn every_span_is_exported(
    spans: &[RawSpan],
    document: serde_json::Value,
    payload: String,
    configured: Option<String>,
    request: Option<ExportRequest>,
)
    ensures
        call_ensures(otlp_document, (spans,), document) ==> is_payload(
            crate::json::json_of(document),
            spans@,
        ),
        call_ensures(build_otlp_payload, (spans,), payload) ==> exists|text: Json| #[trigger]
            is_payload(text, spans@) && payload@ == crate::json::json_text(text),
        call_ensures(export_request, (configured, spans), request) ==> (request matches Some(r)
            ==> exists|text: Json| #[trigger]
            is_payload(text, spans@) && r.payload@ == crate::json::json_text(text)),
{
    payload_is_documented(spans@);
}

/// A batch is posted to the endpoint that is configured, or to the default one; where the endpoint is
/// configured to be empty, and only there, nothing is posted.
pub proof fn batch_is_posted_to_the_endpoint(
    configured: Option<String>,
    spans: &[RawSpan],
    request: Option<ExportRequest>,
    endpoint: String,
)
    ensures
        call_ensures(get_endpoint, (configured,), endpoint) ==> endpoint@ == match configured {
            Some(e) => e@,
            None => "http://localhost:4318/v1/traces"@,
        },
        call_ensures(export_request, (configured, spans), request) ==> {
            &&& request is None <==> (configured matches Some(e) && e@.len() == 0)
            &&& request matches Some(r) ==> r.endpoint@ == match configured {
                Some(e) => e@,
                None => "http://localhost:4318/v1/traces"@,
            }
        },
{
}

/// An export succeeds exactly where the collector replies with a status in the two hundreds; else the
/// error tells the status.
pub proof fn reply_is_judged_by_its_status(status: u16, result: Result<(), String>)
    requires
        call_ensures(export_result, (status,), result),
    ensures
        result is Ok <==> 200 <= status <= 299,
        result matches Err(message) ==> {
            let prefix = "OTLP export returned HTTP "@;
            &&& message@.len() > prefix.len() && message@.take(prefix.len() as int) == prefix
            &&& crate::laws::numbers::is_decimal(message@.skip(prefix.len() as int), status as int)
        },
{
    crate::laws::numbers::decimal_is_read_back(status as nat);
    if let Err(message) = result {
        let prefix = "OTLP export returned HTTP "@;
        assert(message@.take(prefix.len() as int) =~= prefix);
        assert(message@.skip(prefix.len() as int) =~= crate::text::decimal_text(status as nat));
    }
}

} // verus!
