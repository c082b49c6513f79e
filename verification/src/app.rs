//! What the tray shows for each device, and when the background poll runs.

use vstd::prelude::*;
use crate::native_devices::{DeviceKind, DeviceReading, PowerState};
use crate::text::{decimal, push_decimal};

verus! {

/// The tooltip text of a device: its level with the charge state when known,
/// and otherwise whether it is disconnected or just has no level.  A missing
/// level is never shown as a number.
pub open spec fn device_tooltip(name: Seq<char>, percent: Option<u8>, power: PowerState) -> Seq<char> {
    match percent {
        Some(level) => name + ": "@ + decimal(level as nat) + if power == PowerState::Charging {
            "% (Charging)"@
        } else if power == PowerState::Full {
            "% (Full)"@
        } else {
            "%"@
        },
        None => if power == PowerState::Offline {
            name + ": disconnected"@
        } else {
            name + ": battery unavailable"@
        },
    }
}

/// The tooltip text of a device.
pub fn device_text(name: &str, percent: Option<u8>, power: PowerState) -> (r: String)
    ensures
        r@ == device_tooltip(name@, percent, power),
{
    let mut text = String::from_str(name);
    match percent {
        Some(level) => {
            text.append(": ");
            push_decimal(&mut text, level);
            match power {
                PowerState::Charging => text.append("% (Charging)"),
                PowerState::Full => text.append("% (Full)"),
                _ => text.append("%"),
            }
        },
        None => match power {
            PowerState::Offline => text.append(": disconnected"),
            _ => text.append(": battery unavailable"),
        },
    }
    text
}

/// What a tooltip says of a device with a known level: its name, ": ", the
/// level in decimal and "%", followed by " (Charging)" exactly when it is
/// charging and " (Full)" exactly when it is full; nothing else is added for
/// a device on battery, of unknown state or offline.
pub proof fn lemma_tooltip_with_level(name: Seq<char>, level: u8, power: PowerState)
    ensures
        ({
            let shown = name + ": "@ + decimal(level as nat);
            &&& power == PowerState::Charging ==> device_tooltip(name, Some(level), power) == shown + "% (Charging)"@
            &&& power == PowerState::Full ==> device_tooltip(name, Some(level), power) == shown + "% (Full)"@
            &&& (power == PowerState::Discharging || power == PowerState::Unknown || power == PowerState::Offline)
                ==> device_tooltip(name, Some(level), power) == shown + "%"@
        }),
{
}

/// What a tooltip says of a device without a level: "disconnected" when it
/// is offline, otherwise "battery unavailable"; no number is shown.
pub proof fn lemma_tooltip_without_level(name: Seq<char>, power: PowerState)
    ensures
        power == PowerState::Offline ==> device_tooltip(name, None, power) == name + ": disconnected"@,
        power != PowerState::Offline ==> device_tooltip(name, None, power) == name + ": battery unavailable"@,
{
}

/// Whether `text` ends with `tail`.
pub open spec fn ends_with(text: Seq<char>, tail: Seq<char>) -> bool {
    text.len() >= tail.len() && text.subrange(text.len() - tail.len(), text.len() as int) == tail
}

/// A tooltip claims charging only for a charging device: the text of any
/// other device never ends in "(Charging)".
pub proof fn lemma_tooltip_claims_charging_only_when_charging(name: Seq<char>, percent: Option<u8>, power: PowerState)
    requires
        power != PowerState::Charging,
    ensures
        !ends_with(device_tooltip(name, percent, power), "(Charging)"@),
{
    reveal_strlit("(Charging)");
    reveal_strlit("% (Full)");
    reveal_strlit("%");
    reveal_strlit(": disconnected");
    reveal_strlit(": battery unavailable");
    let text = device_tooltip(name, percent, power);
    if ends_with(text, "(Charging)"@) {
        let tail = text.subrange(text.len() - 10, text.len() as int);
        assert(tail[9] == text[text.len() - 1]);
        assert(tail[8] == text[text.len() - 2]);
        let prefix = match percent {
            Some(level) => name + ": "@ + decimal(level as nat),
            None => name,
        };
        let end = match percent {
            Some(_) => if power == PowerState::Full { "% (Full)"@ } else { "%"@ },
            None => if power == PowerState::Offline { ": disconnected"@ } else { ": battery unavailable"@ },
        };
        assert(text == prefix + end);
        assert(text[text.len() - 1] == end[end.len() - 1]);
        if end.len() >= 2 {
            assert(text[text.len() - 2] == end[end.len() - 2]);
        }
    }
}

/// The index of the first reading of `kind`, if any.
pub open spec fn first_of_kind(readings: Seq<DeviceReading>, kind: DeviceKind, from: int) -> Option<int>
    decreases readings.len() - from,
{
    if from >= readings.len() {
        None
    } else if readings[from].device_kind == kind {
        Some(from)
    } else {
        first_of_kind(readings, kind, from + 1)
    }
}

/// The reading chosen for a kind is the first of that kind: it has the
/// kind, and no earlier reading does; when none is chosen, no reading from
/// `from` on has the kind.
pub proof fn lemma_first_of_kind_is_first(readings: Seq<DeviceReading>, kind: DeviceKind, from: int)
    requires
        0 <= from,
    ensures
        match first_of_kind(readings, kind, from) {
            Some(i) => {
                &&& from <= i < readings.len()
                &&& readings[i].device_kind == kind
                &&& forall|j: int| from <= j < i ==> (#[trigger] readings[j]).device_kind != kind
            },
            None => forall|j: int| from <= j < readings.len() ==> (#[trigger] readings[j]).device_kind != kind,
        },
    decreases readings.len() - from,
{
    if from < readings.len() && readings[from].device_kind != kind {
        lemma_first_of_kind_is_first(readings, kind, from + 1);
    }
}

/// The index of the first reading of `kind`, if any.
pub fn first_index_of_kind(readings: &Vec<DeviceReading>, kind: DeviceKind) -> (r: Option<usize>)
    ensures
        match r {
            Some(i) => i < readings@.len() && first_of_kind(readings@, kind, 0) == Some(i as int),
            None => first_of_kind(readings@, kind, 0) is None,
        },
{
    let mut i: usize = 0;
    while i < readings.len()
        invariant
            i <= readings@.len(),
            first_of_kind(readings@, kind, 0) == first_of_kind(readings@, kind, i as int),
        decreases readings@.len() - i,
    {
        if readings[i].device_kind == kind {
            return Some(i);
        }
        i = i + 1;
    }
    None
}

/// What one tray icon shows: a device name, the id its alerts are kept
/// under (none when no device of the kind was found), and its reading.
pub struct TraySummary {
    pub name: String,
    pub stable_id: Option<String>,
    pub percent: Option<u8>,
    pub power: PowerState,
}

/// The placeholder name of a device kind with no reading.
pub open spec fn kind_label(kind: DeviceKind) -> Seq<char> {
    match kind {
        DeviceKind::Headset => "Headset"@,
        DeviceKind::Mouse => "Mouse"@,
    }
}

/// What the tray icon of `kind` shows: the first reading of that kind, or a
/// disconnected placeholder when the poll found none.
pub fn summarize(readings: &Vec<DeviceReading>, kind: DeviceKind) -> (r: TraySummary)
    ensures
        match first_of_kind(readings@, kind, 0) {
            Some(i) => {
                &&& r.name@ == readings@[i].name@
                &&& r.stable_id matches Some(id) && id@ == readings@[i].stable_id@
                &&& r.percent == readings@[i].battery_percent
                &&& r.power == readings@[i].power
            },
            None => {
                &&& r.name@ == kind_label(kind)
                &&& r.stable_id is None
                &&& r.percent is None
                &&& r.power == PowerState::Offline
            },
        },
{
    let mut i: usize = 0;
    while i < readings.len()
        invariant
            i <= readings@.len(),
            first_of_kind(readings@, kind, 0) == first_of_kind(readings@, kind, i as int),
        decreases readings@.len() - i,
    {
        let reading = &readings[i];
        if reading.device_kind == kind {
            return TraySummary {
                name: reading.name.clone(),
                stable_id: Some(reading.stable_id.clone()),
                percent: reading.battery_percent,
                power: reading.power,
            };
        }
        i = i + 1;
    }
    let name = match kind {
        DeviceKind::Headset => String::from_str("Headset"),
        DeviceKind::Mouse => String::from_str("Mouse"),
    };
    TraySummary { name, stable_id: None, percent: None, power: PowerState::Offline }
}

/// Whether a poll produced a mouse reading with a level.
pub open spec fn has_mouse_level(readings: Seq<DeviceReading>) -> bool {
    exists|i: int| 0 <= i < readings.len() && readings[i].device_kind == DeviceKind::Mouse && (
    #[trigger] readings[i]).battery_percent is Some
}

/// Whether a poll produced a mouse reading with a level.
pub fn mouse_available(readings: &Vec<DeviceReading>) -> (r: bool)
    ensures
        r == has_mouse_level(readings@),
{
    let mut i: usize = 0;
    while i < readings.len()
        invariant
            i <= readings@.len(),
            forall|j: int| 0 <= j < i ==> !((#[trigger] readings@[j]).device_kind == DeviceKind::Mouse
                && readings@[j].battery_percent is Some),
        decreases readings@.len() - i,
    {
        if readings[i].device_kind == DeviceKind::Mouse && readings[i].battery_percent.is_some() {
            return true;
        }
        i = i + 1;
    }
    false
}

/// Pause before a poll is repeated to confirm a lost mouse reading.
pub const CONFIRM_DELAY_MS: u64 = 200;
/// Time between polls while the mouse reading is available: ten minutes.
pub const POLL_INTERVAL_SECS: u64 = 600;
/// Time between polls while the mouse reading is unavailable.
pub const RETRY_INTERVAL_SECS: u64 = 2;

/// Whether a poll must be repeated before it is shown: the previous poll had
/// a mouse level and this one has none, which a brief receiver wake-up can
/// cause.
pub fn needs_confirmation(had_mouse: bool, readings: &Vec<DeviceReading>) -> (r: bool)
    ensures
        r == (had_mouse && !has_mouse_level(readings@)),
{
    had_mouse && !mouse_available(readings)
}

/// Seconds until the next poll: the regular interval while the mouse level
/// is known, the short retry interval while it is not.
pub fn poll_interval_secs(mouse_level_known: bool) -> (r: u64)
    ensures
        r == (if mouse_level_known { POLL_INTERVAL_SECS } else { RETRY_INTERVAL_SECS }),
{
    if mouse_level_known {
        POLL_INTERVAL_SECS
    } else {
        RETRY_INTERVAL_SECS
    }
}

} // verus!
