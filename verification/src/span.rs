//! Spans, their identifiers and the clock that times them.

use vstd::prelude::*;

verus! {

/// Simplified span representation that can be cheaply serialized
/// and sent across shared memory to the background worker.
#[derive(Clone, Debug)]
pub struct RawSpan {
    pub trace_id: String,
    pub span_id: String,
    pub parent_span_id: Option<String>,
    pub name: String,
    pub start_time_unix_nano: u64,
    pub end_time_unix_nano: u64,
    pub attributes: Vec<(String, String)>,
    pub events: Vec<RawEvent>,
    pub status: SpanStatus,
}

#[derive(Clone, Debug)]
pub struct RawEvent {
    pub name: String,
    pub timestamp_unix_nano: u64,
    pub attributes: Vec<(String, String)>,
}

#[derive(Clone, Copy, Debug, PartialEq, Eq)]
pub enum SpanStatus {
    Unset,
    Okay,
    Error,
}

/// What a span says.
#[verifier::ext_equal]
pub struct SpanModel {
    pub trace_id: Seq<char>,
    pub span_id: Seq<char>,
    pub parent_span_id: Option<Seq<char>>,
    pub name: Seq<char>,
    pub start_time_unix_nano: u64,
    pub end_time_unix_nano: u64,
    pub attributes: Seq<(Seq<char>, Seq<char>)>,
    pub events: Seq<EventModel>,
    pub status: SpanStatus,
}

/// What an event says.
#[verifier::ext_equal]
pub struct EventModel {
    pub name: Seq<char>,
    pub timestamp_unix_nano: u64,
    pub attributes: Seq<(Seq<char>, Seq<char>)>,
}

/// The text of an optional string.
pub open spec fn text_of(s: Option<String>) -> Option<Seq<char>> {
    match s {
        Some(s) => Some(s@),
        None => None,
    }
}

/// The texts of key-value pairs.
pub open spec fn attributes_of(attributes: Seq<(String, String)>) -> Seq<(Seq<char>, Seq<char>)> {
    attributes.map_values(|kv: (String, String)| (kv.0@, kv.1@))
}

/// What each of the events says.
pub open spec fn events_of(events: Seq<RawEvent>) -> Seq<EventModel> {
    events.map_values(|e: RawEvent| e@)
}

/// What each of the spans says.
pub open spec fn spans_of(spans: Seq<RawSpan>) -> Seq<SpanModel> {
    spans.map_values(|s: RawSpan| s@)
}

impl View for RawEvent {
    type V = EventModel;

    open spec fn view(&self) -> EventModel {
        EventModel {
            name: self.name@,
            timestamp_unix_nano: self.timestamp_unix_nano,
            attributes: attributes_of(self.attributes@),
        }
    }
}

impl View for RawSpan {
    type V = SpanModel;

    open spec fn view(&self) -> SpanModel {
        SpanModel {
            trace_id: self.trace_id@,
            span_id: self.span_id@,
            parent_span_id: text_of(self.parent_span_id),
            name: self.name@,
            start_time_unix_nano: self.start_time_unix_nano,
            end_time_unix_nano: self.end_time_unix_nano,
            attributes: attributes_of(self.attributes@),
            events: events_of(self.events@),
            status: self.status,
        }
    }
}

/// `std::time::SystemTimeError`, the error of a clock that stands before the epoch.
#[verifier::external_type_specification]
#[verifier::external_body]
pub struct ExSystemTimeError(std::time::SystemTimeError);

/// `SystemTime::elapsed` of the UNIX epoch: the time that has passed since then by the system
/// clock, or an error if the clock stands before it. Only the clock decides, so nothing is
/// promised of the result.
#[verifier::external_body]
pub(crate) fn elapsed_since_epoch() -> Result<std::time::Duration, std::time::SystemTimeError> {
    std::time::UNIX_EPOCH.elapsed()
}

/// The whole nanoseconds of a duration, as `Duration::as_nanos` gives them.
pub uninterp spec fn duration_nanos(duration: std::time::Duration) -> u128;

/// `Duration::as_nanos`: the whole nanoseconds of a duration. A duration is opaque here, so the
/// number is named rather than written out; it depends on the duration alone.
pub assume_specification[ std::time::Duration::as_nanos ](duration: &std::time::Duration) -> (
    nanos: u128)
    ensures
        nanos == duration_nanos(*duration),
;

/// The nanoseconds that a reading of the clock stands for: the low 64 bits of the elapsed
/// nanoseconds, or zero for a clock that stands before the epoch.
pub fn reading_nanos(elapsed: Option<u128>) -> (nanos: u64)
    ensures
        nanos == match elapsed {
            Some(n) => n as nat % 0x1_0000_0000_0000_0000,
            None => 0,
        },
{
    match elapsed {
        Some(n) => {
            assert((n as u64) as u128 == n % 0x1_0000_0000_0000_0000u128) by (bit_vector);
            n as u64
        },
        None => 0,
    }
}

/// A clock that never runs backwards, though the system clock may be set back.
#[derive(Clone, Copy, Debug)]
pub struct Clock {
    /// The latest time that was given out.
    pub latest: u64,
}

impl Clock {
    /// A clock that has given out no time yet.
    pub fn new() -> (clock: Clock)
        ensures
            clock.latest == 0,
    {
        Clock { latest: 0 }
    }

    /// The time after `reading` was taken from the system clock.
    pub fn advance(&mut self, reading: u64) -> (now: u64)
        ensures
            now == later(old(self).latest, reading),
            final(self).latest == now,
    {
        if reading > self.latest {
            self.latest = reading;
        }
        self.latest
    }
}

/// The later of two times.
pub open spec fn later(a: u64, b: u64) -> u64 {
    if a < b {
        b
    } else {
        a
    }
}

/// The reading of a system clock by which `elapsed` has passed since the epoch: the low 64 bits
/// of its nanoseconds, or zero for a clock that stands before the epoch.
pub open spec fn clock_reading(elapsed: Option<std::time::Duration>) -> nat {
    match elapsed {
        Some(duration) => duration_nanos(duration) as nat % 0x1_0000_0000_0000_0000,
        None => 0,
    }
}

/// The reading of a system clock, by whatever time it says has passed since the epoch.
pub open spec fn is_clock_reading(reading: u64) -> bool {
    exists|elapsed: Option<std::time::Duration>| reading == #[trigger] clock_reading(elapsed)
}

/// A reading that was taken from the system clock: what one of its answers stands for.
pub closed spec fn was_read(reading: u64) -> bool {
    exists|answer: Result<std::time::Duration, std::time::SystemTimeError>| #[trigger]
        call_ensures(elapsed_since_epoch, (), answer) && reading == match answer {
            Ok(duration) => duration_nanos(duration) as nat % 0x1_0000_0000_0000_0000,
            Err(_) => 0,
        }
}

/// A reading of the system clock in nanoseconds since UNIX epoch.
pub(crate) fn read_clock() -> (nanos: u64)
    ensures
        is_clock_reading(nanos),
        was_read(nanos),
{
    let answer = elapsed_since_epoch();
    assert(call_ensures(elapsed_since_epoch, (), answer));
    match answer {
        Ok(duration) => {
            let nanos: u64 = reading_nanos(Some(duration.as_nanos()));
            assert(nanos == clock_reading(Some(duration)));
            nanos
        },
        Err(_) => {
            let nanos: u64 = reading_nanos(None);
            assert(nanos == clock_reading(None));
            nanos
        },
    }
}

/// A reading that was taken is one that the system clock answered with, in nanoseconds since the
/// epoch: no other number counts as one.
pub(crate) proof fn readings_are_answers_of_the_clock(reading: u64)
    requires
        was_read(reading),
    ensures
        exists|answer: Result<std::time::Duration, std::time::SystemTimeError>| #[trigger]
            call_ensures(elapsed_since_epoch, (), answer) && reading == match answer {
                Ok(duration) => duration_nanos(duration) as nat % 0x1_0000_0000_0000_0000,
                Err(_) => 0,
            },
{
}

/// The clock shows the latest time it was ever told: it is never behind what it showed before nor
/// behind a reading that it took in, and it shows nothing but one of those.
pub proof fn clock_shows_the_latest_reading(before: u64, reading: u64)
    ensures
        later(before, reading) >= before,
        later(before, reading) >= reading,
        later(before, reading) == before || later(before, reading) == reading,
{
}

/// Current monotonic time in nanoseconds since UNIX epoch.
pub fn now_nanos(clock: &mut Clock) -> (now: u64)
    ensures
        exists|reading: u64| #[trigger]
            is_clock_reading(reading) && was_read(reading) && now == later(
                old(clock).latest,
                reading,
            ),
        now >= old(clock).latest,
        final(clock).latest == now,
{
    clock.advance(read_clock())
}

/// An identifier of `width` lower-case hexadecimal digits.
pub open spec fn is_id(id: Seq<char>, width: nat) -> bool {
    &&& id.len() == width
    &&& forall|i: int| 0 <= i < width ==> crate::text::is_lower_hex(#[trigger] id[i])
}

/// `rand::random` for `u64`: a random number, any of all.
#[verifier::external_body]
pub(crate) fn random_u64() -> u64 {
    rand::random::<u64>()
}

/// `rand::random` for `u128`: a random number, any of all.
#[verifier::external_body]
pub(crate) fn random_u128() -> u128 {
    rand::random::<u128>()
}

/// A number that the random generator gave when it was called for a `u64`.
pub closed spec fn was_drawn(random: u64) -> bool {
    call_ensures(random_u64, (), random)
}

/// A number that the random generator gave when it was called for a `u128`.
pub closed spec fn was_drawn_wide(random: u128) -> bool {
    call_ensures(random_u128, (), random)
}

/// The numbers that were drawn are those that the random generator answered with, and no others.
pub(crate) proof fn drawn_numbers_are_answers_of_the_generator(narrow: u64, wide: u128)
    ensures
        was_drawn(narrow) == call_ensures(random_u64, (), narrow),
        was_drawn_wide(wide) == call_ensures(random_u128, (), wide),
{
}

/// The span ID that a random number gives.
pub fn span_id_from(random: u64) -> (id: String)
    ensures
        id@ == crate::text::hex_text(random as nat, 16),
        is_id(id@, 16),
{
    proof {
        crate::text::hex_text_shape(random as nat, 16);
    }
    crate::text::to_hex(random as u128, 16)
}

/// The trace ID that a random number gives.
pub fn trace_id_from(random: u128) -> (id: String)
    ensures
        id@ == crate::text::hex_text(random as nat, 32),
        is_id(id@, 32),
{
    proof {
        crate::text::hex_text_shape(random as nat, 32);
    }
    crate::text::to_hex(random, 32)
}

/// Generate a random 16-hex-character span ID.
pub fn generate_span_id() -> (id: String)
    ensures
        is_id(id@, 16),
        exists|random: u64| #[trigger]
            was_drawn(random) && id@ == crate::text::hex_text(random as nat, 16),
{
    let random: u64 = random_u64();
    assert(was_drawn(random));
    span_id_from(random)
}

/// Generate a random 32-hex-character trace ID.
pub fn generate_trace_id() -> (id: String)
    ensures
        is_id(id@, 32),
        exists|random: u128| #[trigger]
            was_drawn_wide(random) && id@ == crate::text::hex_text(random as nat, 32),
{
    let random: u128 = random_u128();
    assert(was_drawn_wide(random));
    trace_id_from(random)
}

/// Different random numbers give different span IDs.
pub proof fn span_ids_tell_numbers_apart(a: u64, b: u64)
    requires
        crate::text::hex_text(a as nat, 16) == crate::text::hex_text(b as nat, 16),
    ensures
        a == b,
{
    sixteen_to_the_sixteenth();
    crate::text::hex_text_is_injective(a as nat, b as nat, 16);
}

/// Different random numbers give different trace IDs.
pub proof fn trace_ids_tell_numbers_apart(a: u128, b: u128)
    requires
        crate::text::hex_text(a as nat, 32) == crate::text::hex_text(b as nat, 32),
    ensures
        a == b,
{
    sixteen_to_the_sixteenth();
    vstd::arithmetic::power::lemma_pow_adds(16, 16, 16);
    crate::text::hex_text_is_injective(a as nat, b as nat, 32);
}

proof fn sixteen_to_the_sixteenth()
    ensures
        vstd::arithmetic::power::pow(16, 16) == 0x1_0000_0000_0000_0000,
{
    vstd::arithmetic::power::lemma_pow1(16);
    vstd::arithmetic::power::lemma_pow_adds(16, 1, 1);
    assert(vstd::arithmetic::power::pow(16, 2) == 0x100);
    vstd::arithmetic::power::lemma_pow_adds(16, 2, 2);
    assert(vstd::arithmetic::power::pow(16, 4) == 0x1_0000);
    vstd::arithmetic::power::lemma_pow_adds(16, 4, 4);
    assert(vstd::arithmetic::power::pow(16, 8) == 0x1_0000_0000);
    vstd::arithmetic::power::lemma_pow_adds(16, 8, 8);
}

} // verus!
