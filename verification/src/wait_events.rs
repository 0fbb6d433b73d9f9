//! Naming of what a backend is waiting for.

use vstd::prelude::*;

use crate::text::{to_decimal, to_hex};

verus! {

/// Decoded Postgres wait-event information.
#[derive(Clone, Debug, PartialEq, Eq)]
pub struct WaitEventInfo {
    pub event_type: String,
    pub event_name: String,
}

/// What wait-event information says.
#[verifier::ext_equal]
pub struct WaitEventModel {
    pub event_type: Seq<char>,
    pub event_name: Seq<char>,
}

impl View for WaitEventInfo {
    type V = WaitEventModel;

    open spec fn view(&self) -> WaitEventModel {
        WaitEventModel { event_type: self.event_type@, event_name: self.event_name@ }
    }
}

/// The name of an event class (the lower 8 bits of the wait-event word).
pub open spec fn class_name(class: nat) -> Seq<char> {
    if class == 0x00 {
        "Activity"@
    } else if class == 0x01 {
        "BufferPin"@
    } else if class == 0x02 {
        "Client"@
    } else if class == 0x03 {
        "Extension"@
    } else if class == 0x04 {
        "IPC"@
    } else if class == 0x05 {
        "Timeout"@
    } else if class == 0x06 {
        "IO"@
    } else if class == 0x07 {
        "Lock"@
    } else if class == 0x08 {
        "LWLock"@
    } else {
        "class_"@ + crate::text::decimal_text(class)
    }
}

/// The type of the wait event `info`: the name that Postgres knows, or that of its class.
pub open spec fn event_type_of(info: u32, known: Option<Seq<char>>) -> Seq<char> {
    match known {
        Some(name) => name,
        None => class_name((info % 256) as nat),
    }
}

/// The name of the wait event `info`: the one that Postgres knows, or the raw hex code.
pub open spec fn event_name_of(info: u32, known: Option<Seq<char>>) -> Seq<char> {
    match known {
        Some(name) => name,
        None => "0x"@ + crate::text::hex_text(info as nat, 8),
    }
}

/// The type of the wait event `info`, `known` being the name that Postgres gives, if any.
pub fn pgstat_get_wait_event_type(info: u32, known: Option<String>) -> (event_type: String)
    ensures
        event_type@ == event_type_of(info, crate::span::text_of(known)),
{
    if let Some(name) = known {
        return name;
    }
    // Manual decode of the event class (lower 8 bits).
    let class: u32 = info & 0xFF;
    assert(class == info % 256) by (bit_vector)
        requires
            class == info & 0xFF,
    ;
    match class {
        0x00 => "Activity".to_string(),
        0x01 => "BufferPin".to_string(),
        0x02 => "Client".to_string(),
        0x03 => "Extension".to_string(),
        0x04 => "IPC".to_string(),
        0x05 => "Timeout".to_string(),
        0x06 => "IO".to_string(),
        0x07 => "Lock".to_string(),
        0x08 => "LWLock".to_string(),
        _ => {
            let mut name = "class_".to_string();
            name.append(to_decimal(class as u64).as_str());
            name
        },
    }
}

/// The name of the wait event `info`, `known` being the one that Postgres gives, if any.
pub fn pgstat_get_wait_event(info: u32, known: Option<String>) -> (event_name: String)
    ensures
        event_name@ == event_name_of(info, crate::span::text_of(known)),
{
    if let Some(name) = known {
        return name;
    }
    // The raw hex code when the detailed name is unavailable.
    let mut name = "0x".to_string();
    name.append(to_hex(info as u128, 8).as_str());
    name
}

/// The wait event that a backend's wait-event word stands for, if any: no process entry and a
/// word of zero mean that the backend is not waiting.
pub open spec fn wait_event_of(
    info: Option<u32>,
    known_type: Option<Seq<char>>,
    known_name: Option<Seq<char>>,
) -> Option<WaitEventModel> {
    match info {
        Some(word) if word != 0 => Some(
            WaitEventModel {
                event_type: event_type_of(word, known_type),
                event_name: event_name_of(word, known_name),
            },
        ),
        _ => None,
    }
}

/// What a sampled wait event says.
pub open spec fn wait_model(event: Option<WaitEventInfo>) -> Option<WaitEventModel> {
    match event {
        Some(e) => Some(e@),
        None => None,
    }
}

/// Sample the current backend's wait event (if any).
///
/// `info` is the wait-event word of the backend's process entry, if it has one; the two names
/// are what Postgres calls the event and its type, where it does.
///
/// Returns `None` when the backend is not waiting.
pub fn sample_wait_event(
    info: Option<u32>,
    known_type: Option<String>,
    known_name: Option<String>,
) -> (event: Option<WaitEventInfo>)
    ensures
        wait_model(event) == wait_event_of(
            info,
            crate::span::text_of(known_type),
            crate::span::text_of(known_name),
        ),
{
    match info {
        Some(word) => {
            if word == 0 {
                None
            } else {
                Some(
                    WaitEventInfo {
                        event_type: pgstat_get_wait_event_type(word, known_type),
                        event_name: pgstat_get_wait_event(word, known_name),
                    },
                )
            }
        },
        None => None,
    }
}

} // verus!
