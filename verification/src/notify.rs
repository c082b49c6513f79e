//! Low-battery alert rules: one alert per discharge episode and device.

use vstd::prelude::*;
use crate::native_devices::PowerState;
use crate::text::{decimal, digits_value, lemma_decimal_digits, push_decimal};

verus! {

/// Whether the current discharge episode of one device has already alerted.
#[derive(Clone, Copy, Debug)]
pub struct AlertState {
    pub low_alerted: bool,
}

impl Default for AlertState {
    fn default() -> (r: Self)
        ensures
            !r.low_alerted,
    {
        AlertState { low_alerted: false }
    }
}

/// The threshold as used: a setting above 100 counts as 100.
pub open spec fn effective_threshold(threshold: u8) -> int {
    if threshold <= 100 {
        threshold as int
    } else {
        100
    }
}

/// An input that ends the current episode: alerts are off, the device is on
/// external power, or its level is back above the threshold.
pub open spec fn ends_episode(percent: Option<u8>, power: PowerState, threshold: u8) -> bool {
    ||| effective_threshold(threshold) == 0
    ||| power == PowerState::Charging
    ||| power == PowerState::Full
    ||| (percent matches Some(level) && level > effective_threshold(threshold))
}

/// An input that calls for an alert unless the episode already had one: alerts
/// are on, the device runs on battery (or does not say), and its known level is
/// at or below the threshold.
pub open spec fn low_battery(percent: Option<u8>, power: PowerState, threshold: u8) -> bool {
    &&& effective_threshold(threshold) != 0
    &&& (power == PowerState::Discharging || power == PowerState::Unknown)
    &&& percent matches Some(level) && level <= effective_threshold(threshold)
}

/// Whether an input alerts, given whether the episode already alerted.
pub open spec fn alerts(alerted: bool, percent: Option<u8>, power: PowerState, threshold: u8) -> bool {
    low_battery(percent, power, threshold) && !alerted
}

/// Whether the episode has alerted after an input.  An input that neither ends
/// the episode nor is low (an offline device, an unknown level) leaves it as it
/// was, so a reconnect does not start a fresh episode.
pub open spec fn alerted_after(alerted: bool, percent: Option<u8>, power: PowerState, threshold: u8) -> bool {
    if ends_episode(percent, power, threshold) {
        false
    } else if low_battery(percent, power, threshold) {
        true
    } else {
        alerted
    }
}

/// Feeds one reading of a device into its alert state and says whether to
/// alert now.
pub fn should_alert(state: &mut AlertState, percent: Option<u8>, power: PowerState, threshold: u8) -> (r: bool)
    ensures
        r == alerts(old(state).low_alerted, percent, power, threshold),
        final(state).low_alerted == alerted_after(old(state).low_alerted, percent, power, threshold),
{
    let threshold: u8 = if threshold <= 100 {
        threshold
    } else {
        100
    };
    let on_battery = match power {
        PowerState::Discharging | PowerState::Unknown => true,
        _ => false,
    };
    let external = match power {
        PowerState::Charging | PowerState::Full => true,
        _ => false,
    };
    let (known, level) = match percent {
        Some(level) => (true, level),
        None => (false, 0u8),
    };
    let eligible = threshold != 0 && on_battery && known && level <= threshold;
    if threshold == 0 || external || (known && level > threshold) {
        state.low_alerted = false;
        return false;
    }
    if eligible && !state.low_alerted {
        state.low_alerted = true;
        return true;
    }
    false
}

/// When an alert is raised: exactly when the episode has not alerted yet,
/// alerts are on, the device runs on battery or does not say, and its level is
/// known and at or below the threshold, a threshold above 100 counting as 100.
pub proof fn lemma_alert_conditions(alerted: bool, percent: Option<u8>, power: PowerState, threshold: u8)
    ensures
        alerts(alerted, percent, power, threshold) <==> {
            &&& !alerted
            &&& threshold > 0
            &&& (power == PowerState::Discharging || power == PowerState::Unknown)
            &&& percent matches Some(level) && level <= threshold && level <= 100
        },
        alerts(alerted, percent, power, threshold) ==> alerted_after(alerted, percent, power, threshold),
{
}

/// A device on external power never alerts, and its episode is over: the
/// next time it runs low on battery it alerts again.
pub proof fn lemma_external_power_rearms(alerted: bool, percent: Option<u8>, power: PowerState, threshold: u8)
    requires
        power == PowerState::Charging || power == PowerState::Full,
    ensures
        !alerts(alerted, percent, power, threshold),
        !alerted_after(alerted, percent, power, threshold),
{
}

/// A level back above the threshold ends the episode without alerting.
pub proof fn lemma_recovered_level_rearms(alerted: bool, level: u8, power: PowerState, threshold: u8)
    requires
        level > threshold || level > 100,
    ensures
        !alerts(alerted, Some(level), power, threshold),
        !alerted_after(alerted, Some(level), power, threshold),
{
}

/// A reading without a level, from a device on battery, neither alerts nor
/// ends the episode: a reconnect does not start a fresh one.
pub proof fn lemma_unknown_level_keeps_episode(alerted: bool, power: PowerState, threshold: u8)
    requires
        power == PowerState::Discharging || power == PowerState::Unknown || power == PowerState::Offline,
        threshold > 0,
    ensures
        !alerts(alerted, None, power, threshold),
        alerted_after(alerted, None, power, threshold) == alerted,
{
}

/// Zero turns alerts off: no input alerts at a threshold of zero.
pub proof fn lemma_zero_threshold_never_alerts(alerted: bool, percent: Option<u8>, power: PowerState)
    ensures
        !alerts(alerted, percent, power, 0),
        !alerted_after(alerted, percent, power, 0),
{
}

/// An alert always has a known percentage at or below the threshold.
pub proof fn lemma_alert_has_level(alerted: bool, percent: Option<u8>, power: PowerState, threshold: u8)
    requires
        alerts(alerted, percent, power, threshold),
    ensures
        percent matches Some(level) && level <= effective_threshold(threshold) && 0 < effective_threshold(threshold),
{
}

/// The number of alerts that a run of readings raises, starting from the given
/// alert state.
pub open spec fn alert_count(alerted: bool, inputs: Seq<(Option<u8>, PowerState, u8)>) -> nat
    decreases inputs.len(),
{
    if inputs.len() == 0 {
        0
    } else {
        let (percent, power, threshold) = inputs[0];
        (if alerts(alerted, percent, power, threshold) { 1nat } else { 0nat }) + alert_count(
            alerted_after(alerted, percent, power, threshold),
            inputs.drop_first(),
        )
    }
}

/// A device alerts at most once per episode: over any run of readings of
/// which none ends the episode, at most one alert is raised, and none at all
/// once the episode has alerted.
pub proof fn lemma_one_alert_per_episode(alerted: bool, inputs: Seq<(Option<u8>, PowerState, u8)>)
    requires
        forall|i: int| 0 <= i < inputs.len() ==> !ends_episode(#[trigger] inputs[i].0, inputs[i].1, inputs[i].2),
    ensures
        alert_count(alerted, inputs) <= 1,
        alerted ==> alert_count(alerted, inputs) == 0,
    decreases inputs.len(),
{
    if inputs.len() > 0 {
        let (percent, power, threshold) = inputs[0];
        let rest = inputs.drop_first();
        assert forall|i: int| 0 <= i < rest.len() implies !ends_episode(#[trigger] rest[i].0, rest[i].1, rest[i].2) by {
            assert(rest[i] == inputs[i + 1]);
        }
        assert(!ends_episode(inputs[0].0, inputs[0].1, inputs[0].2));
        lemma_one_alert_per_episode(alerted_after(alerted, percent, power, threshold), rest);
        if alerts(alerted, percent, power, threshold) {
            assert(alerted_after(alerted, percent, power, threshold));
        }
        if alerted {
            assert(alerted_after(alerted, percent, power, threshold));
        }
    }
}

/// An input that ends the episode re-arms the alert: the next low reading
/// alerts again.
pub proof fn lemma_end_of_episode_rearms(
    alerted: bool,
    ending: (Option<u8>, PowerState, u8),
    low: (Option<u8>, PowerState, u8),
)
    requires
        ends_episode(ending.0, ending.1, ending.2),
        low_battery(low.0, low.1, low.2),
    ensures
        alerts(alerted_after(alerted, ending.0, ending.1, ending.2), low.0, low.1, low.2),
{
}

/// The body of the low-battery notification for a level.
pub open spec fn low_battery_body(level: u8) -> Seq<char> {
    "Battery low ("@ + decimal(level as nat) + "%)"@
}

/// The notification text names the level: "Battery low (", the level's
/// decimal digits, which read back as the level, then "%)".
pub proof fn lemma_low_battery_text(level: u8)
    ensures
        low_battery_body(level).take(13) == "Battery low ("@,
        low_battery_body(level).skip(low_battery_body(level).len() - 2) == "%)"@,
        digits_value(low_battery_body(level).subrange(13, low_battery_body(level).len() - 2)) == level,
{
    reveal_strlit("Battery low (");
    reveal_strlit("%)");
    lemma_decimal_digits(level as nat);
    let d = decimal(level as nat);
    let b = low_battery_body(level);
    assert(b.take(13) =~= "Battery low ("@);
    assert(b.skip(b.len() - 2) =~= "%)"@);
    assert(b.subrange(13, b.len() - 2) =~= d);
}

/// The text of the low-battery notification: "Battery low (N%)".
pub fn low_battery_message(level: u8) -> (r: String)
    ensures
        r@ == low_battery_body(level),
{
    let mut s = String::from_str("Battery low (");
    push_decimal(&mut s, level);
    s.append("%)");
    s
}

/// Whether the current episode of device `id` has alerted, in an alert
/// history; a device not seen yet has not.
pub open spec fn history_of(book: Map<Seq<char>, bool>, id: Seq<char>) -> bool {
    if book.contains_key(id) {
        book[id]
    } else {
        false
    }
}

/// The alert history after a reading of device `id`.
pub open spec fn record(book: Map<Seq<char>, bool>, id: Seq<char>, percent: Option<u8>, power: PowerState, threshold: u8) -> Map<
    Seq<char>,
    bool,
> {
    book.insert(id, alerted_after(history_of(book, id), percent, power, threshold))
}

/// The alert state of each device, by stable id, so that one battery cannot
/// mute another.
pub struct Notifier {
    ids: Vec<String>,
    states: Vec<AlertState>,
}

/// The alert history held in parallel lists of ids and states, as a map.
pub open spec fn alert_book(ids: Seq<String>, states: Seq<AlertState>) -> Map<Seq<char>, bool>
    decreases ids.len(),
{
    if ids.len() == 0 || states.len() == 0 {
        Map::empty()
    } else {
        alert_book(ids.drop_last(), states.drop_last()).insert(ids.last()@, states.last().low_alerted)
    }
}

proof fn lemma_alert_book_dom(ids: Seq<String>, states: Seq<AlertState>, k: Seq<char>)
    requires
        ids.len() == states.len(),
    ensures
        alert_book(ids, states).contains_key(k) <==> exists|i: int| 0 <= i < ids.len() && (#[trigger] ids[i])@ == k,
    decreases ids.len(),
{
    if ids.len() > 0 {
        lemma_alert_book_dom(ids.drop_last(), states.drop_last(), k);
        if alert_book(ids, states).contains_key(k) && ids.last()@ != k {
            let i = choose|i: int| 0 <= i < ids.drop_last().len() && (#[trigger] ids.drop_last()[i])@ == k;
            assert(ids[i] == ids.drop_last()[i]);
        }
        if exists|i: int| 0 <= i < ids.len() && (#[trigger] ids[i])@ == k {
            let i = choose|i: int| 0 <= i < ids.len() && (#[trigger] ids[i])@ == k;
            if i < ids.len() - 1 {
                assert(ids.drop_last()[i] == ids[i]);
            }
        }
    }
}

proof fn lemma_alert_book_lookup(ids: Seq<String>, states: Seq<AlertState>, i: int)
    requires
        ids.len() == states.len(),
        0 <= i < ids.len(),
        forall|a: int, b: int| 0 <= a < b < ids.len() ==> (#[trigger] ids[a])@ != (#[trigger] ids[b])@,
    ensures
        alert_book(ids, states).contains_key(ids[i]@),
        alert_book(ids, states)[ids[i]@] == states[i].low_alerted,
    decreases ids.len(),
{
    lemma_alert_book_dom(ids, states, ids[i]@);
    if i < ids.len() - 1 {
        assert(ids.drop_last()[i] == ids[i]);
        lemma_alert_book_lookup(ids.drop_last(), states.drop_last(), i);
    }
}

proof fn lemma_alert_book_update(ids: Seq<String>, states: Seq<AlertState>, i: int, s: AlertState)
    requires
        ids.len() == states.len(),
        0 <= i < ids.len(),
        forall|a: int, b: int| 0 <= a < b < ids.len() ==> (#[trigger] ids[a])@ != (#[trigger] ids[b])@,
    ensures
        alert_book(ids, states.update(i, s)) == alert_book(ids, states).insert(ids[i]@, s.low_alerted),
    decreases ids.len(),
{
    let updated = states.update(i, s);
    if i == ids.len() - 1 {
        assert(updated.drop_last() =~= states.drop_last());
        lemma_alert_book_dom(ids.drop_last(), states.drop_last(), ids[i]@);
        assert(alert_book(ids, updated) =~= alert_book(ids, states).insert(ids[i]@, s.low_alerted));
    } else {
        assert(updated.drop_last() =~= states.drop_last().update(i, s));
        assert(ids.drop_last()[i] == ids[i]);
        lemma_alert_book_update(ids.drop_last(), states.drop_last(), i, s);
        assert(ids.last()@ != ids[i]@);
        assert(alert_book(ids, updated) =~= alert_book(ids, states).insert(ids[i]@, s.low_alerted));
    }
}

impl View for Notifier {
    type V = Map<Seq<char>, bool>;

    /// For each device seen so far, whether its current episode has alerted.
    closed spec fn view(&self) -> Map<Seq<char>, bool> {
        alert_book(self.ids@, self.states@)
    }
}

impl Notifier {
    /// The notifier is well formed when every id appears once.
    pub closed spec fn wf(&self) -> bool {
        &&& self.ids@.len() == self.states@.len()
        &&& forall|a: int, b: int| 0 <= a < b < self.ids@.len() ==> (#[trigger] self.ids@[a])@ != (#[trigger] self.ids@[b])@
    }

    /// A notifier that has seen no device.
    pub fn new() -> (r: Self)
        ensures
            r.wf(),
            r@ == Map::<Seq<char>, bool>::empty(),
    {
        let r = Notifier { ids: Vec::new(), states: Vec::new() };
        assert(r@ =~= Map::<Seq<char>, bool>::empty());
        r
    }

    /// Feeds a reading of the device with `stable_id` into that device's alert
    /// history alone, and returns the notification body when it alerts.
    pub fn update(
        &mut self,
        stable_id: &str,
        percent: Option<u8>,
        power: PowerState,
        threshold: u8,
    ) -> (r: Option<String>)
        requires
            old(self).wf(),
        ensures
            final(self).wf(),
            final(self)@ == record(old(self)@, stable_id@, percent, power, threshold),
            r is Some <==> alerts(history_of(old(self)@, stable_id@), percent, power, threshold),
            r matches Some(body) ==> percent matches Some(level) && body@ == low_battery_body(level),
    {
        let key = String::from_str(stable_id);
        let mut index: usize = 0;
        let n = self.ids.len();
        while index < n
            invariant
                n == self.ids@.len(),
                index <= n,
                key@ == stable_id@,
                forall|j: int| 0 <= j < index ==> (#[trigger] self.ids@[j])@ != key@,
            ensures
                index <= n,
                index < n ==> self.ids@[index as int]@ == key@,
                forall|j: int| 0 <= j < index ==> (#[trigger] self.ids@[j])@ != key@,
            decreases n - index,
        {
            if self.ids[index] == key {
                break;
            }
            index = index + 1;
        }
        proof {
            lemma_alert_book_dom(self.ids@, self.states@, key@);
        }
        if index == n {
            let ghost old_ids = self.ids@;
            let ghost old_states = self.states@;
            let mut state = AlertState { low_alerted: false };
            let ghost before_state = false;
            let alert = should_alert(&mut state, percent, power, threshold);
            self.ids.push(key);
            self.states.push(state);
            proof {
                assert(self.ids@.drop_last() =~= old_ids);
                assert(self.states@.drop_last() =~= old_states);
                assert forall|a: int, b: int| 0 <= a < b < self.ids@.len() implies (#[trigger] self.ids@[a])@ != (#[trigger] self.ids@[b])@ by {
                    if b == self.ids@.len() - 1 {
                        assert(self.ids@[a] == old_ids[a]);
                    } else {
                        assert(self.ids@[a] == old_ids[a]);
                        assert(self.ids@[b] == old_ids[b]);
                    }
                }
                if alert {
                    lemma_alert_has_level(before_state, percent, power, threshold);
                }
                assert(before_state == history_of(old(self)@, stable_id@));
            }
            if alert {
                match percent {
                    Some(level) => Some(low_battery_message(level)),
                    None => None,
                }
            } else {
                None
            }
        } else {
            proof {
                lemma_alert_book_lookup(self.ids@, self.states@, index as int);
            }
            let mut state = self.states[index];
            let ghost before_state = state.low_alerted;
            let alert = should_alert(&mut state, percent, power, threshold);
            proof {
                lemma_alert_book_update(self.ids@, self.states@, index as int, state);
            }
            self.states.set(index, state);
            proof {
                if alert {
                    lemma_alert_has_level(before_state, percent, power, threshold);
                }
                assert(before_state == history_of(old(self)@, stable_id@));
            }
            if alert {
                match percent {
                    Some(level) => Some(low_battery_message(level)),
                    None => None,
                }
            } else {
                None
            }
        }
    }
}

/// Devices keep independent alert history: a reading of one device changes
/// neither the alert history of any other device nor whether that device's
/// next reading alerts.
pub proof fn lemma_devices_independent(
    book: Map<Seq<char>, bool>,
    id: Seq<char>,
    reading: (Option<u8>, PowerState, u8),
    other: Seq<char>,
    next: (Option<u8>, PowerState, u8),
)
    requires
        other != id,
    ensures
        history_of(record(book, id, reading.0, reading.1, reading.2), other) == history_of(book, other),
        alerts(history_of(record(book, id, reading.0, reading.1, reading.2), other), next.0, next.1, next.2)
            == alerts(history_of(book, other), next.0, next.1, next.2),
{
}

} // verus!
