use pg_otel_tracer::exporter::{
    build_otlp_payload, export_request, export_result, get_endpoint, otlp_document,
};
use pg_otel_tracer::span::{RawEvent, RawSpan, SpanStatus};

fn planner_span() -> RawSpan {
    RawSpan {
        trace_id: "0af7651916cd43dd8448eb211c80319c".to_string(),
        span_id: "00000000000000a1".to_string(),
        parent_span_id: Some("b7ad6b7169203331".to_string()),
        name: "planner".to_string(),
        start_time_unix_nano: 1_700_000_000_000_000_000,
        end_time_unix_nano: 1_700_000_000_000_000_007,
        attributes: vec![],
        events: vec![],
        status: SpanStatus::Unset,
    }
}

fn run_span() -> RawSpan {
    RawSpan {
        trace_id: "0af7651916cd43dd8448eb211c80319c".to_string(),
        span_id: "00000000000000a2".to_string(),
        parent_span_id: None,
        name: "executor \"run\" \\ \u{1f418}\n".to_string(),
        start_time_unix_nano: 0,
        end_time_unix_nano: u64::MAX,
        attributes: vec![("db.row_count".to_string(), "42".to_string())],
        events: vec![RawEvent {
            name: "wait_event_before".to_string(),
            timestamp_unix_nano: 5,
            attributes: vec![
                ("type".to_string(), "Lock".to_string()),
                ("event".to_string(), "relation".to_string()),
            ],
        }],
        status: SpanStatus::Error,
    }
}

const EXPECTED: &str = r#"{
  "resourceSpans": [
    {
      "resource": {
        "attributes": [
          { "key": "service.name", "value": { "stringValue": "postgresql" } },
          { "key": "db.system", "value": { "stringValue": "postgresql" } },
          { "key": "service.version", "value": { "stringValue": "0.1.0" } }
        ]
      },
      "scopeSpans": [
        {
          "scope": { "name": "pg_otel_tracer", "version": "0.1.0" },
          "spans": [
            {
              "traceId": "0af7651916cd43dd8448eb211c80319c",
              "spanId": "00000000000000a1",
              "parentSpanId": "b7ad6b7169203331",
              "name": "planner",
              "kind": 1,
              "startTimeUnixNano": "1700000000000000000",
              "endTimeUnixNano": "1700000000000000007",
              "attributes": [],
              "events": [],
              "status": { "code": 0 }
            },
            {
              "traceId": "0af7651916cd43dd8448eb211c80319c",
              "spanId": "00000000000000a2",
              "parentSpanId": null,
              "name": "executor \"run\" \\ 🐘\n",
              "kind": 1,
              "startTimeUnixNano": "0",
              "endTimeUnixNano": "18446744073709551615",
              "attributes": [
                { "key": "db.row_count", "value": { "stringValue": "42" } }
              ],
              "events": [
                {
                  "name": "wait_event_before",
                  "timeUnixNano": "5",
                  "attributes": [
                    { "key": "type", "value": { "stringValue": "Lock" } },
                    { "key": "event", "value": { "stringValue": "relation" } }
                  ]
                }
              ],
              "status": { "code": 2 }
            }
          ]
        }
      ]
    }
  ]
}"#;

#[test]
fn payload_is_the_otlp_document() {
    let spans = [planner_span(), run_span()];
    let expected: serde_json::Value = serde_json::from_str(EXPECTED).unwrap();
    assert_eq!(otlp_document(&spans), expected);
    let payload = build_otlp_payload(&spans);
    assert_eq!(payload, expected.to_string());
    let parsed: serde_json::Value = serde_json::from_str(&payload).unwrap();
    assert_eq!(parsed, expected);
}

#[test]
fn status_codes_are_those_of_otlp() {
    for (status, code) in [(SpanStatus::Unset, 0), (SpanStatus::Okay, 1), (SpanStatus::Error, 2)] {
        let mut span = planner_span();
        span.status = status;
        let document = otlp_document(&[span]);
        let exported = &document["resourceSpans"][0]["scopeSpans"][0]["spans"][0];
        assert_eq!(exported["status"]["code"], serde_json::Value::from(code));
    }
}

#[test]
fn empty_batch_is_an_empty_list() {
    let payload = build_otlp_payload(&[]);
    assert!(payload.starts_with("{\"resourceSpans\":[{"));
    assert!(payload.contains("\"spans\":[]"));
}

#[test]
fn endpoint_defaults_to_the_local_collector() {
    assert_eq!(get_endpoint(None), "http://localhost:4318/v1/traces");
    assert_eq!(get_endpoint(Some("http://c:1/x".to_string())), "http://c:1/x");
    assert_eq!(get_endpoint(Some(String::new())), "");
}

#[test]
fn empty_endpoint_switches_the_export_off() {
    assert!(export_request(Some(String::new()), &[planner_span()]).is_none());
    let request = export_request(None, &[planner_span()]).unwrap();
    assert_eq!(request.endpoint, "http://localhost:4318/v1/traces");
    assert_eq!(request.payload, build_otlp_payload(&[planner_span()]));
    let request = export_request(Some("http://collector".to_string()), &[]).unwrap();
    assert_eq!(request.endpoint, "http://collector");
}

#[test]
fn only_2xx_is_success() {
    assert_eq!(export_result(200), Ok(()));
    assert_eq!(export_result(204), Ok(()));
    assert_eq!(export_result(299), Ok(()));
    assert_eq!(export_result(199), Err("OTLP export returned HTTP 199".to_string()));
    assert_eq!(export_result(300), Err("OTLP export returned HTTP 300".to_string()));
    assert_eq!(export_result(503), Err("OTLP export returned HTTP 503".to_string()));
    assert_eq!(export_result(0), Err("OTLP export returned HTTP 0".to_string()));
}
