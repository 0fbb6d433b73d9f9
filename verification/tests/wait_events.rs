use pg_otel_tracer::wait_events::{
    pgstat_get_wait_event, pgstat_get_wait_event_type, sample_wait_event,
};

#[test]
fn backend_that_does_not_wait_has_no_event() {
    assert!(sample_wait_event(None, Some("Lock".into()), Some("relation".into())).is_none());
    assert!(sample_wait_event(Some(0), Some("Lock".into()), Some("relation".into())).is_none());
}

#[test]
fn names_that_postgres_knows_are_used() {
    let event = sample_wait_event(Some(0x0300_0001), Some("Lock".into()), Some("relation".into()))
        .unwrap();
    assert_eq!(event.event_type, "Lock");
    assert_eq!(event.event_name, "relation");
}

#[test]
fn unknown_names_are_decoded() {
    let event = sample_wait_event(Some(0x0a00_0006), None, None).unwrap();
    assert_eq!(event.event_type, "IO");
    assert_eq!(event.event_name, "0x0a000006");
}

#[test]
fn every_class_has_its_name() {
    let names = [
        "Activity", "BufferPin", "Client", "Extension", "IPC", "Timeout", "IO", "Lock", "LWLock",
        "class_9", "class_10",
    ];
    for (class, name) in names.iter().enumerate() {
        assert_eq!(pgstat_get_wait_event_type(0xabcd_ef00 + class as u32, None), *name);
    }
    assert_eq!(pgstat_get_wait_event_type(0xff, None), "class_255");
    assert_eq!(pgstat_get_wait_event_type(0x100, None), "Activity");
}

#[test]
fn unnamed_event_is_its_code() {
    assert_eq!(pgstat_get_wait_event(0, None), "0x00000000");
    assert_eq!(pgstat_get_wait_event(0xdead_beef, None), "0xdeadbeef");
    assert_eq!(pgstat_get_wait_event(1, Some("ClientRead".into())), "ClientRead");
}
