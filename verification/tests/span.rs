use pg_otel_tracer::span::{
    generate_span_id, generate_trace_id, now_nanos, reading_nanos, span_id_from, trace_id_from,
    Clock,
};
use pg_otel_tracer::text::{to_decimal, to_hex};

fn is_lower_hex(s: &str) -> bool {
    s.chars().all(|c| c.is_ascii_digit() || ('a'..='f').contains(&c))
}

#[test]
fn span_ids_have_16_hex_digits() {
    let id = generate_span_id();
    assert_eq!(id.len(), 16);
    assert!(is_lower_hex(&id));
    assert_ne!(generate_span_id(), generate_span_id());
}

#[test]
fn trace_ids_have_32_hex_digits() {
    let id = generate_trace_id();
    assert_eq!(id.len(), 32);
    assert!(is_lower_hex(&id));
    assert_ne!(generate_trace_id(), generate_trace_id());
}

#[test]
fn ids_are_padded_with_zeros() {
    assert_eq!(span_id_from(0), "0000000000000000");
    assert_eq!(span_id_from(0xb7ad6b7169203331), "b7ad6b7169203331");
    assert_eq!(span_id_from(0x1f), "000000000000001f");
    assert_eq!(span_id_from(u64::MAX), "ffffffffffffffff");
    assert_eq!(trace_id_from(0xabc), "00000000000000000000000000000abc");
    assert_eq!(trace_id_from(u128::MAX), "ffffffffffffffffffffffffffffffff");
}

#[test]
fn numbers_are_written_as_std_writes_them() {
    for n in [0, 1, 9, 10, 11, 99, 100, 12_345, 1_700_000_000_000_000_000, u64::MAX] {
        assert_eq!(to_decimal(n), n.to_string());
        assert_eq!(to_hex(n as u128, 16), format!("{:016x}", n));
        assert_eq!(to_hex(n as u128, 32), format!("{:032x}", n));
    }
    assert_eq!(to_hex(0x1234, 2), "34");
    assert_eq!(to_hex(7, 0), "");
}

#[test]
fn clock_tells_the_time_and_never_runs_backwards() {
    let mut clock = Clock::new();
    let first = now_nanos(&mut clock);
    // After 2020 and before 2200.
    assert!(first > 1_577_836_800_000_000_000);
    assert!(first < 7_258_118_400_000_000_000);
    let second = now_nanos(&mut clock);
    assert!(second >= first);
    assert_eq!(clock.latest, second);

    let mut set_back = Clock { latest: u64::MAX };
    assert_eq!(now_nanos(&mut set_back), u64::MAX);
}

#[test]
fn clock_takes_the_later_reading() {
    let mut clock = Clock::new();
    assert_eq!(clock.advance(10), 10);
    assert_eq!(clock.advance(7), 10);
    assert_eq!(clock.advance(11), 11);
    assert_eq!(clock.latest, 11);
}

#[test]
fn readings_keep_their_low_64_bits() {
    assert_eq!(reading_nanos(None), 0);
    assert_eq!(reading_nanos(Some(5)), 5);
    assert_eq!(reading_nanos(Some(u64::MAX as u128)), u64::MAX);
    assert_eq!(reading_nanos(Some((1u128 << 64) + 3)), 3);
}
