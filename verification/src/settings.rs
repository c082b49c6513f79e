//! Saved preferences: the alert threshold and the startup entry.

use vstd::prelude::*;

verus! {

/// The user's preferences.
#[derive(Debug, Clone, Copy)]
pub struct Settings {
    /// Percentage at or below which a device raises one low-battery alert.
    /// Zero disables battery alerts.
    pub alert_threshold: u8,
}

impl Default for Settings {
    fn default() -> (r: Self)
        ensures
            r.alert_threshold == 0,
    {
        Settings { alert_threshold: 0 }
    }
}

/// The threshold that stored values stand for: a stored threshold, capped at
/// 100; without one, the older on/off preference, where on meant 10%.
pub open spec fn loaded_threshold(stored: Option<u32>, notifications_enabled: Option<u32>) -> u8 {
    match stored {
        Some(v) => if v <= 100 {
            v as u8
        } else {
            100
        },
        None => match notifications_enabled {
            Some(n) => if n != 0 {
                10
            } else {
                0
            },
            None => 0,
        },
    }
}

impl Settings {
    /// The settings that the stored registry values stand for.
    pub fn from_stored(stored: Option<u32>, notifications_enabled: Option<u32>) -> (r: Settings)
        ensures
            r.alert_threshold == loaded_threshold(stored, notifications_enabled),
            r.alert_threshold <= 100,
    {
        let alert_threshold: u8 = match stored {
            Some(v) => if v <= 100 {
                v as u8
            } else {
                100
            },
            None => match notifications_enabled {
                Some(n) => if n != 0 {
                    10
                } else {
                    0
                },
                None => 0,
            },
        };
        Settings { alert_threshold }
    }

    /// The threshold value to store, capped at 100.
    pub fn stored_threshold(&self) -> (r: u32)
        ensures
            r == (if self.alert_threshold <= 100 { self.alert_threshold as u32 } else { 100 }),
    {
        if self.alert_threshold <= 100 {
            self.alert_threshold as u32
        } else {
            100
        }
    }

    /// Whether a startup entry value starts the application: it exists and is
    /// not empty.
    pub fn startup_entry_enabled(value: Option<&str>) -> (r: bool)
        ensures
            r == (value matches Some(v) && v@.len() > 0),
    {
        match value {
            Some(v) => !v.is_empty(),
            None => false,
        }
    }

    /// The startup entry for an executable: its path in double quotes.
    pub fn startup_command(executable: &str) -> (r: String)
        ensures
            r@ == "\""@ + executable@ + "\""@,
    {
        let mut command = String::from_str("\"");
        command.append(executable);
        command.append("\"");
        command
    }
}

/// What stored values load as: a stored threshold wins over the older
/// on/off preference and is capped at 100; without one, the older preference
/// turned on means 10% and anything else means alerts off.
pub proof fn lemma_loaded_threshold(stored: Option<u32>, notifications_enabled: Option<u32>)
    ensures
        loaded_threshold(stored, notifications_enabled) <= 100,
        stored matches Some(v) ==> (v <= 100 ==> loaded_threshold(stored, notifications_enabled) == v),
        stored matches Some(v) ==> (v > 100 ==> loaded_threshold(stored, notifications_enabled) == 100),
        stored is None && (notifications_enabled matches Some(n) && n != 0) ==> loaded_threshold(
            stored,
            notifications_enabled,
        ) == 10,
        stored is None && !(notifications_enabled matches Some(n) && n != 0) ==> loaded_threshold(
            stored,
            notifications_enabled,
        ) == 0,
{
}

/// What is saved is what is loaded: storing a threshold of at most 100 and
/// loading it back gives the same threshold.
pub proof fn lemma_threshold_round_trip(s: Settings, notifications_enabled: Option<u32>)
    requires
        s.alert_threshold <= 100,
    ensures
        loaded_threshold(Some(s.alert_threshold as u32), notifications_enabled) == s.alert_threshold,
{
}

} // verus!
