//! The Logitech side of a poll: which endpoints to talk to, and the sequence
//! of read-only HID++ queries that turns one paired slot into a mouse reading.

use vstd::prelude::*;
use vstd::utf8::{decode_utf8, valid_utf8};
use crate::hid_path::{chars_of, same_container, same_hid_container};
use crate::hidpp::{
    battery_reading, battery_request, feature_index_of, feature_index_request, parse_hidpp_battery,
    battery_function, ping_answered, ping_query, ping_request, ping_shows_device, HIDPP_SHORT_REPORT,
};
use crate::native_devices::{hidpp_collection, is_hidpp_long, reading_valid, DeviceKind, DeviceReading, EnumeratedDevice, PowerState, HIDPP_LONG_USAGE};
use crate::text::{decimal, lemma_decimal_digits, lemma_decimal_injective, push_decimal};

verus! {

/// The receiver slots a poll checks: the six wireless pairing slots, then
/// 0xff for a device on a direct USB connection.
pub const HIDPP_SLOTS: [u8; 7] = [1, 2, 3, 4, 5, 6, 0xff];

/// The first HID++ long-report endpoint of the same device as `short_path`
/// at or after position `i`, or none.
pub open spec fn long_endpoint_from(devs: Seq<EnumeratedDevice>, short_path: Seq<char>, i: int) -> Option<int>
    decreases devs.len() - i,
{
    if i >= devs.len() {
        None
    } else if hidpp_collection(devs[i], HIDPP_LONG_USAGE) && same_container(devs[i].path@, short_path) {
        Some(i)
    } else {
        long_endpoint_from(devs, short_path, i + 1)
    }
}

/// The path that replies to requests sent on `info` are read from: the first
/// long-report endpoint of the same device, or `info` itself.
pub open spec fn read_path(devs: Seq<EnumeratedDevice>, info: EnumeratedDevice) -> Seq<char> {
    match long_endpoint_from(devs, info.path@, 0) {
        Some(i) => devs[i].path@,
        None => info.path@,
    }
}

/// Where to read replies to requests written on the short endpoint `info`:
/// Lightspeed receivers deliver them on the matching long endpoint.
pub fn hidpp_read_path(interfaces: &Vec<EnumeratedDevice>, info: &EnumeratedDevice) -> (r: String)
    ensures
        r@ == read_path(interfaces@, *info),
{
    let mut i: usize = 0;
    while i < interfaces.len()
        invariant
            i <= interfaces@.len(),
            long_endpoint_from(interfaces@, info.path@, 0) == long_endpoint_from(interfaces@, info.path@, i as int),
        decreases interfaces@.len() - i,
    {
        let candidate = &interfaces[i];
        if is_hidpp_long(candidate) && same_hid_container(candidate.path.as_str(), info.path.as_str()) {
            return candidate.path.clone();
        }
        i = i + 1;
    }
    info.path.clone()
}

/// The feature ids that can report the battery, in the order they are tried.
pub const BATTERY_FEATURES: [u16; 3] = [0x1004, 0x1000, 0x1001];

/// The longest device name that is read.
pub const NAME_MAX_LEN: u8 = 96;

/// The query of the name length through the name feature at `index`.
pub open spec fn name_length_query(slot: u8, index: u8) -> Seq<u8> {
    seq![HIDPP_SHORT_REPORT, slot, index, 0x0au8, 0u8, 0u8, 0u8]
}

/// The query of three name bytes from `offset` through the name feature.
pub open spec fn name_chunk_query(slot: u8, index: u8, offset: u8) -> Seq<u8> {
    seq![HIDPP_SHORT_REPORT, slot, index, 0x1au8, offset, 0u8, 0u8]
}

/// The query of the device type through the name feature.
pub open spec fn device_type_query(slot: u8, index: u8) -> Seq<u8> {
    seq![HIDPP_SHORT_REPORT, slot, index, 0x2au8, 0u8, 0u8, 0u8]
}

/// The root-feature lookup of `feature`.
pub open spec fn feature_query(slot: u8, feature: u16) -> Seq<u8> {
    seq![HIDPP_SHORT_REPORT, slot, 0u8, 0x0au8, (feature / 256) as u8, (feature % 256) as u8, 0u8]
}

/// The battery query of `feature` at `index`.
pub open spec fn battery_query(slot: u8, feature: u16, index: u8) -> Seq<u8> {
    seq![HIDPP_SHORT_REPORT, slot, index, battery_function(feature), 0u8, 0u8, 0u8]
}

/// A string without its trailing NUL characters.
pub open spec fn trim_nuls(s: Seq<char>) -> Seq<char>
    decreases s.len(),
{
    if s.len() > 0 && s.last() == '\0' {
        trim_nuls(s.drop_last())
    } else {
        s
    }
}

/// The device name in the bytes read: the UTF-8 text without trailing NULs,
/// or none when the bytes are not UTF-8.
pub open spec fn decoded_name(bytes: Seq<u8>) -> Option<Seq<char>> {
    if valid_utf8(bytes) {
        Some(trim_nuls(decode_utf8(bytes)))
    } else {
        None
    }
}

/// Decodes bytes as UTF-8 text (`String::from_utf8`): text exactly when the
/// bytes are valid UTF-8, and then the characters they encode.
#[verifier::external_body]
fn utf8_to_string(bytes: Vec<u8>) -> (r: Option<String>)
    ensures
        r is Some <==> valid_utf8(bytes@),
        r matches Some(s) ==> s@ == decode_utf8(bytes@),
{
    String::from_utf8(bytes).ok()
}

fn trim_trailing_nuls(s: String) -> (r: String)
    ensures
        r@ == trim_nuls(s@),
{
    let chars = chars_of(s.as_str());
    let mut end = chars.len();
    assert(s@.take(end as int) =~= s@);
    while end > 0 && chars[end - 1] == '\0'
        invariant
            end <= chars@.len(),
            chars@ == s@,
            trim_nuls(s@) == trim_nuls(s@.take(end as int)),
        decreases end,
    {
        assert(s@.take(end as int).drop_last() =~= s@.take(end as int - 1));
        end = end - 1;
    }
    assert(s@.take(end as int) == s@.subrange(0, end as int));
    String::from_str(s.as_str().substring_char(0, end))
}

/// The name to show for a mouse: the name it reported when that is not
/// empty, else the product string of the interface, else a generic name.
pub open spec fn mouse_name(reported: Option<Seq<char>>, product: Seq<char>) -> Seq<char> {
    match reported {
        Some(n) => if n.len() > 0 {
            n
        } else if product.len() > 0 {
            product
        } else {
            "Logitech mouse"@
        },
        None => if product.len() > 0 {
            product
        } else {
            "Logitech mouse"@
        },
    }
}

/// The stable id of a mouse: the receiver path and the slot it is paired on.
pub open spec fn mouse_stable_id(path: Seq<char>, slot: u8) -> Seq<char> {
    path + "#hidpp-slot-"@ + decimal(slot as nat)
}

/// The stable id of the offline reading of a receiver on which no paired
/// device answered.
pub open spec fn receiver_offline_id(path: Seq<char>) -> Seq<char> {
    path + "#hidpp-receiver"@
}

/// The stable id of a Logitech reading behind the receiver at `path`: the
/// mouse on `slot`, or, without a slot, the receiver itself.
pub open spec fn logitech_id(path: Seq<char>, slot: Option<u8>) -> Seq<char> {
    match slot {
        Some(s) => mouse_stable_id(path, s),
        None => receiver_offline_id(path),
    }
}

/// The part of an id after the receiver path: a '#' and no other '#'.
spec fn id_suffix(t: Seq<char>) -> bool {
    &&& t.len() > 0
    &&& t[0] == '#'
    &&& forall|i: int| 0 < i < t.len() ==> t[i] != '#'
}

proof fn lemma_split_at_suffix(p1: Seq<char>, t1: Seq<char>, p2: Seq<char>, t2: Seq<char>)
    requires
        id_suffix(t1),
        id_suffix(t2),
        p1 + t1 == p2 + t2,
    ensures
        p1 == p2,
        t1 == t2,
{
    let whole = p1 + t1;
    assert(whole.len() == p1.len() + t1.len());
    assert(whole.len() == p2.len() + t2.len());
    if p1.len() < p2.len() {
        assert(whole[p2.len() as int] == t2[0]);
        assert(whole[p2.len() as int] == t1[p2.len() - p1.len()]);
    } else if p2.len() < p1.len() {
        assert(whole[p1.len() as int] == t1[0]);
        assert(whole[p1.len() as int] == t2[p1.len() - p2.len()]);
    }
    assert(p1 =~= whole.take(p1.len() as int));
    assert(p2 =~= (p2 + t2).take(p2.len() as int));
    assert(t1 =~= whole.skip(p1.len() as int));
    assert(t2 =~= (p2 + t2).skip(p2.len() as int));
}

proof fn lemma_id_suffixes(slot: u8)
    ensures
        id_suffix("#hidpp-slot-"@ + decimal(slot as nat)),
        id_suffix("#hidpp-receiver"@),
        ("#hidpp-slot-"@ + decimal(slot as nat))[7] == 's',
        "#hidpp-receiver"@[7] == 'r',
        "#hidpp-slot-"@.len() == 12,
{
    reveal_strlit("#hidpp-slot-");
    reveal_strlit("#hidpp-receiver");
    lemma_decimal_digits(slot as nat);
    let t = "#hidpp-slot-"@ + decimal(slot as nat);
    assert forall|i: int| 0 < i < t.len() implies t[i] != '#' by {
        if i >= 12 {
            assert(t[i] == decimal(slot as nat)[i - 12]);
        }
    }
}

/// Logitech ids name their reading: two equal ids come from the same
/// receiver path and the same slot, or both from the receiver itself.
pub proof fn lemma_logitech_id_injective(p1: Seq<char>, k1: Option<u8>, p2: Seq<char>, k2: Option<u8>)
    requires
        logitech_id(p1, k1) == logitech_id(p2, k2),
    ensures
        p1 == p2,
        k1 == k2,
{
    let s1: u8 = match k1 { Some(s) => s, None => 0 };
    let s2: u8 = match k2 { Some(s) => s, None => 0 };
    lemma_id_suffixes(s1);
    lemma_id_suffixes(s2);
    let t1 = match k1 { Some(s) => "#hidpp-slot-"@ + decimal(s as nat), None => "#hidpp-receiver"@ };
    let t2 = match k2 { Some(s) => "#hidpp-slot-"@ + decimal(s as nat), None => "#hidpp-receiver"@ };
    assert(logitech_id(p1, k1) =~= p1 + t1);
    assert(logitech_id(p2, k2) =~= p2 + t2);
    lemma_split_at_suffix(p1, t1, p2, t2);
    if k1 is Some && k2 is Some {
        assert(decimal(s1 as nat) =~= t1.skip(12));
        assert(decimal(s2 as nat) =~= t2.skip(12));
        lemma_decimal_injective(s1 as nat, s2 as nat);
    } else if k1 is Some || k2 is Some {
        assert(t1[7] != t2[7]);
    }
}

/// Mouse ids are injective: two mice get the same stable id only when they
/// sit on the same slot of the same receiver.
pub proof fn lemma_mouse_stable_id_injective(p1: Seq<char>, s1: u8, p2: Seq<char>, s2: u8)
    requires
        mouse_stable_id(p1, s1) == mouse_stable_id(p2, s2),
    ensures
        p1 == p2,
        s1 == s2,
{
    lemma_logitech_id_injective(p1, Some(s1), p2, Some(s2));
}

/// Where the query sequence for one slot stands.
pub enum ProbeStage {
    /// Looking up the name feature.
    NameFeature,
    /// Looking up the battery feature `BATTERY_FEATURES[candidate]`.
    BatteryFeature { name_index: u8, candidate: usize },
    /// Reading the length of the device name.
    NameLength { name_index: u8, feature: u16, feature_index: u8 },
    /// Reading the device name three bytes at a time.
    NameChunk { name_index: u8, feature: u16, feature_index: u8, length: u8, bytes: Vec<u8> },
    /// Checking that the device is a mouse.
    DeviceType { name_index: u8, feature: u16, feature_index: u8, reported: Option<String> },
    /// Reading the battery.
    Battery { feature: u16, feature_index: u8, name: String },
    /// The sequence has finished.
    Done,
}

/// What the caller does next for a slot.
pub enum ProbeAction {
    /// Send this request and report the reply (or its absence) back.
    Send([u8; 7]),
    /// The slot's sequence is over with this reading, if any.
    Finished(Option<DeviceReading>),
}

/// Whether an action sends exactly `request`.
pub open spec fn sends(action: ProbeAction, request: Seq<u8>) -> bool {
    action matches ProbeAction::Send(r) && r@ == request
}

/// The read-only query sequence that reads one paired slot: the name feature,
/// the first battery feature the device has, the device name, the device
/// type, and the battery.
pub struct MouseProbe {
    pub slot: u8,
    pub path: String,
    pub product: String,
    pub stage: ProbeStage,
}

/// A HID++ short report addressed to `slot` whose function byte is 0x0a,
/// 0x1a or 0x2a (functions 0 to 2, software id 10): the get functions of the
/// root, name and battery features that the sequence queries.
pub open spec fn read_only_query(request: Seq<u8>, slot: u8) -> bool {
    &&& request.len() == 7
    &&& request[0] == HIDPP_SHORT_REPORT
    &&& request[1] == slot
    &&& (request[3] == 0x0au8 || request[3] == 0x1au8 || request[3] == 0x2au8)
}

/// How far a stage is from the end of the sequence; every step that does
/// not finish lowers it, so a slot is read with a bounded number of queries.
pub open spec fn remaining_steps(stage: ProbeStage) -> nat {
    match stage {
        ProbeStage::NameFeature => 200,
        ProbeStage::BatteryFeature { candidate, .. } => (150 - candidate) as nat,
        ProbeStage::NameLength { .. } => 140,
        ProbeStage::NameChunk { bytes, .. } => (130 - bytes@.len()) as nat,
        ProbeStage::DeviceType { .. } => 20,
        ProbeStage::Battery { .. } => 10,
        ProbeStage::Done => 0,
    }
}

/// One step of the query sequence for a slot: from `old`, given the reply to
/// the last request (or none when that query failed), the sequence is at
/// `new` and the caller is told `r`.
pub open spec fn probe_step(old: MouseProbe, new: MouseProbe, reply: Option<[u8; 7]>, r: ProbeAction) -> bool {
    &&& new.wf()
    &&& old.stage is Done || remaining_steps(new.stage) < remaining_steps(old.stage)
    &&& r is Finished <==> new.stage is Done
    &&& r matches ProbeAction::Send(request) ==> read_only_query(request@, old.slot)
    &&& new.slot == old.slot
    &&& new.path == old.path
    &&& new.product == old.product
    &&& {
        let slot = old.slot;
        match old.stage {
            ProbeStage::NameFeature => match reply {
                Some(rep) if rep@[4] != 0 => new.stage == (ProbeStage::BatteryFeature {
                    name_index: rep@[4],
                    candidate: 0,
                }) && sends(r, feature_query(slot, BATTERY_FEATURES@[0])),
                _ => new.stage is Done && r == ProbeAction::Finished(None),
            },
            ProbeStage::BatteryFeature { name_index, candidate } => match reply {
                Some(rep) if rep@[4] != 0 => new.stage == (ProbeStage::NameLength {
                    name_index,
                    feature: BATTERY_FEATURES@[candidate as int],
                    feature_index: rep@[4],
                }) && sends(r, name_length_query(slot, name_index)),
                _ => if candidate + 1 < 3 {
                    new.stage == (ProbeStage::BatteryFeature {
                        name_index,
                        candidate: (candidate + 1) as usize,
                    }) && sends(r, feature_query(slot, BATTERY_FEATURES@[candidate + 1]))
                } else {
                    new.stage is Done && r == ProbeAction::Finished(None)
                },
            },
            ProbeStage::NameLength { name_index, feature, feature_index } => match reply {
                Some(rep) if rep@[4] != 0 && rep@[4] <= NAME_MAX_LEN => new.stage matches ProbeStage::NameChunk {
                    name_index: ni,
                    feature: f,
                    feature_index: fi,
                    length,
                    bytes,
                } && ni == name_index && f == feature && fi == feature_index && length == rep@[4]
                    && bytes@.len() == 0 && sends(r, name_chunk_query(slot, name_index, 0)),
                _ => new.stage == (ProbeStage::DeviceType {
                    name_index,
                    feature,
                    feature_index,
                    reported: None,
                }) && sends(r, device_type_query(slot, name_index)),
            },
            ProbeStage::NameChunk { name_index, feature, feature_index, length, bytes } => match reply {
                Some(rep) => {
                    let read = bytes@ + rep@.subrange(4, 7);
                    if read.len() < length {
                        new.stage matches ProbeStage::NameChunk {
                            name_index: ni,
                            feature: f,
                            feature_index: fi,
                            length: l,
                            bytes: b,
                        } && ni == name_index && f == feature && fi == feature_index && l == length && b@ == read
                            && sends(r, name_chunk_query(slot, name_index, read.len() as u8))
                    } else {
                        new.stage matches ProbeStage::DeviceType {
                            name_index: ni,
                            feature: f,
                            feature_index: fi,
                            reported: name,
                        } && ni == name_index && f == feature && fi == feature_index
                            && (match name {
                            Some(n) => decoded_name(read.take(length as int)) == Some(n@),
                            None => decoded_name(read.take(length as int)) is None,
                        }) && sends(r, device_type_query(slot, name_index))
                    }
                },
                None => new.stage == (ProbeStage::DeviceType {
                    name_index,
                    feature,
                    feature_index,
                    reported: None,
                }) && sends(r, device_type_query(slot, name_index)),
            },
            ProbeStage::DeviceType { name_index, feature, feature_index, reported: name } => match reply {
                Some(rep) if rep@[4] == 3 => new.stage matches ProbeStage::Battery {
                    feature: f,
                    feature_index: fi,
                    name: shown,
                } && f == feature && fi == feature_index && shown@ == mouse_name(
                    match name {
                        Some(n) => Some(n@),
                        None => None,
                    },
                    old.product@,
                ) && sends(r, battery_query(slot, feature, feature_index)),
                _ => new.stage is Done && r == ProbeAction::Finished(None),
            },
            ProbeStage::Battery { feature, feature_index, name } => new.stage is Done && match reply {
                Some(rep) => match battery_reading(feature, rep@) {
                    Some((percent, power)) => r matches ProbeAction::Finished(Some(reading)) && reading.device_kind
                        == DeviceKind::Mouse && reading.name == name && reading.stable_id@ == mouse_stable_id(
                        old.path@,
                        slot,
                    ) && reading.battery_percent == Some(percent) && reading.power == power,
                    None => r == ProbeAction::Finished(None),
                },
                None => r == ProbeAction::Finished(None),
            },
            ProbeStage::Done => new.stage is Done && r == ProbeAction::Finished(None),
        }
    }
    &&& (r matches ProbeAction::Finished(Some(reading)) ==> reading_valid(reading) && reading.device_kind
        == DeviceKind::Mouse && reading.stable_id@ == mouse_stable_id(old.path@, old.slot))
}

impl MouseProbe {
    /// The stage is consistent: a candidate names one of the battery
    /// features, and a partly read name is a whole number of three-byte
    /// chunks shorter than its length, which is at most the name limit, and
    /// the name to show with the battery level is not empty.
    pub open spec fn wf(&self) -> bool {
        match self.stage {
            ProbeStage::BatteryFeature { candidate, .. } => candidate < 3,
            ProbeStage::NameChunk { length, bytes, .. } => bytes@.len() % 3 == 0 && bytes@.len() < length
                && length <= NAME_MAX_LEN,
            ProbeStage::Battery { name, .. } => name@.len() > 0,
            _ => true,
        }
    }

    /// Starts the sequence for `slot` of the receiver behind `info`.
    pub fn start(slot: u8, info: &EnumeratedDevice) -> (r: (MouseProbe, [u8; 7]))
        ensures
            r.0.wf(),
            r.0.slot == slot,
            r.0.path@ == info.path@,
            r.0.product@ == info.product@,
            r.0.stage is NameFeature,
            r.1@ == feature_query(slot, 0x0005),
    {
        let request = feature_index_request(slot, 0x0005);
        (MouseProbe { slot, path: info.path.clone(), product: info.product.clone(), stage: ProbeStage::NameFeature }, request)
    }

    fn name_length_request(&self, index: u8) -> (r: [u8; 7])
        ensures
            r@ == name_length_query(self.slot, index),
    {
        [HIDPP_SHORT_REPORT, self.slot, index, 0x0a, 0, 0, 0]
    }

    fn name_chunk_request(&self, index: u8, offset: u8) -> (r: [u8; 7])
        ensures
            r@ == name_chunk_query(self.slot, index, offset),
    {
        [HIDPP_SHORT_REPORT, self.slot, index, 0x1a, offset, 0, 0]
    }

    fn device_type_request(&self, index: u8) -> (r: [u8; 7])
        ensures
            r@ == device_type_query(self.slot, index),
    {
        [HIDPP_SHORT_REPORT, self.slot, index, 0x2a, 0, 0, 0]
    }

    fn finish_name(&mut self, name_index: u8, feature: u16, feature_index: u8, name: Option<String>) -> (r: ProbeAction)
        ensures
            final(self).slot == old(self).slot,
            final(self).path == old(self).path,
            final(self).product == old(self).product,
            final(self).stage == (ProbeStage::DeviceType { name_index, feature, feature_index, reported: name }),
            final(self).wf(),
            sends(r, device_type_query(old(self).slot, name_index)),
    {
        let request = self.device_type_request(name_index);
        self.stage = ProbeStage::DeviceType { name_index, feature, feature_index, reported: name };
        ProbeAction::Send(request)
    }

    /// Advances the sequence with the reply to the last request, or `None`
    /// when that query failed, and says what to do next.
    pub fn step(&mut self, reply: Option<[u8; 7]>) -> (r: ProbeAction)
        requires
            old(self).wf(),
        ensures
            probe_step(*old(self), *final(self), reply, r),
    {
        proof {
            reveal_strlit("Logitech mouse");
        }
        let slot = self.slot;
        let mut stage = ProbeStage::Done;
        std::mem::swap(&mut stage, &mut self.stage);
        match stage {
            ProbeStage::NameFeature => {
                let index = match reply {
                    Some(rep) => feature_index_of(&rep),
                    None => None,
                };
                match index {
                    Some(name_index) => {
                        self.stage = ProbeStage::BatteryFeature { name_index, candidate: 0 };
                        ProbeAction::Send(feature_index_request(slot, BATTERY_FEATURES[0]))
                    },
                    None => ProbeAction::Finished(None),
                }
            },
            ProbeStage::BatteryFeature { name_index, candidate } => {
                let index = match reply {
                    Some(rep) => feature_index_of(&rep),
                    None => None,
                };
                match index {
                    Some(feature_index) => {
                        let feature = BATTERY_FEATURES[candidate];
                        let request = self.name_length_request(name_index);
                        self.stage = ProbeStage::NameLength { name_index, feature, feature_index };
                        ProbeAction::Send(request)
                    },
                    None => {
                        if candidate + 1 < 3 {
                            self.stage = ProbeStage::BatteryFeature { name_index, candidate: candidate + 1 };
                            ProbeAction::Send(feature_index_request(slot, BATTERY_FEATURES[candidate + 1]))
                        } else {
                            ProbeAction::Finished(None)
                        }
                    },
                }
            },
            ProbeStage::NameLength { name_index, feature, feature_index } => {
                match reply {
                    Some(rep) => {
                        let length = rep[4];
                        if length == 0 || length > NAME_MAX_LEN {
                            self.finish_name(name_index, feature, feature_index, None)
                        } else {
                            let request = self.name_chunk_request(name_index, 0);
                            self.stage = ProbeStage::NameChunk { name_index, feature, feature_index, length, bytes: Vec::new() };
                            ProbeAction::Send(request)
                        }
                    },
                    None => self.finish_name(name_index, feature, feature_index, None),
                }
            },
            ProbeStage::NameChunk { name_index, feature, feature_index, length, bytes } => {
                match reply {
                    Some(rep) => {
                        let mut bytes = bytes;
                        let ghost before = bytes@;
                        bytes.push(rep[4]);
                        bytes.push(rep[5]);
                        bytes.push(rep[6]);
                        assert(bytes@ =~= before + rep@.subrange(4, 7));
                        let offset = bytes.len();
                        if offset < length as usize {
                            let request = self.name_chunk_request(name_index, offset as u8);
                            self.stage = ProbeStage::NameChunk { name_index, feature, feature_index, length, bytes };
                            ProbeAction::Send(request)
                        } else {
                            let ghost read = bytes@;
                            bytes.truncate(length as usize);
                            assert(bytes@ =~= read.take(length as int));
                            let name = match utf8_to_string(bytes) {
                                Some(text) => Some(trim_trailing_nuls(text)),
                                None => None,
                            };
                            self.finish_name(name_index, feature, feature_index, name)
                        }
                    },
                    None => self.finish_name(name_index, feature, feature_index, None),
                }
            },
            ProbeStage::DeviceType { name_index, feature, feature_index, reported: name } => {
                match reply {
                    Some(rep) => {
                        if rep[4] != 3 {
                            ProbeAction::Finished(None)
                        } else {
                            let shown = match name {
                                Some(n) => if n.as_str().is_empty() {
                                    if self.product.as_str().is_empty() {
                                        String::from_str("Logitech mouse")
                                    } else {
                                        self.product.clone()
                                    }
                                } else {
                                    n
                                },
                                None => if self.product.as_str().is_empty() {
                                    String::from_str("Logitech mouse")
                                } else {
                                    self.product.clone()
                                },
                            };
                            self.stage = ProbeStage::Battery { feature, feature_index, name: shown };
                            ProbeAction::Send(battery_request(slot, feature, feature_index))
                        }
                    },
                    None => ProbeAction::Finished(None),
                }
            },
            ProbeStage::Battery { feature, feature_index, name } => {
                match reply {
                    Some(rep) => match parse_hidpp_battery(feature, &rep) {
                        Some((percent, power)) => {
                            let mut stable_id = self.path.clone();
                            stable_id.append("#hidpp-slot-");
                            push_decimal(&mut stable_id, slot);
                            ProbeAction::Finished(
                                Some(
                                    DeviceReading {
                                        device_kind: DeviceKind::Mouse,
                                        name,
                                        stable_id,
                                        battery_percent: Some(percent),
                                        power,
                                    },
                                ),
                            )
                        },
                        None => ProbeAction::Finished(None),
                    },
                    None => ProbeAction::Finished(None),
                }
            },
            ProbeStage::Done => ProbeAction::Finished(None),
        }
    }
}

proof fn lemma_battery_features()
    ensures
        BATTERY_FEATURES@ == seq![0x1004u16, 0x1000u16, 0x1001u16],
{
    assert(BATTERY_FEATURES@ =~= seq![0x1004u16, 0x1000u16, 0x1001u16]);
}

/// The order of the queries for a slot: once the name feature is found, the
/// unified battery feature (0x1004) is looked up first, then the battery
/// status (0x1000) and voltage (0x1001) features in turn; a device without
/// the name feature or any battery feature, or whose type is not a mouse
/// (3), ends the slot without a reading.
pub proof fn lemma_probe_query_order(old: MouseProbe, new: MouseProbe, rep: [u8; 7], r: ProbeAction)
    requires
        old.wf(),
        probe_step(old, new, Some(rep), r),
    ensures
        old.stage is NameFeature && rep@[4] != 0 ==> sends(r, seq![0x10u8, old.slot, 0u8, 0x0au8, 0x10u8, 0x04u8, 0u8]),
        old.stage is NameFeature && rep@[4] == 0 ==> r == ProbeAction::Finished(None),
        old.stage matches ProbeStage::BatteryFeature { candidate, .. } ==> (rep@[4] == 0 ==> (candidate == 0
            ==> sends(r, seq![0x10u8, old.slot, 0u8, 0x0au8, 0x10u8, 0x00u8, 0u8]))),
        old.stage matches ProbeStage::BatteryFeature { candidate, .. } ==> (rep@[4] == 0 ==> (candidate == 1
            ==> sends(r, seq![0x10u8, old.slot, 0u8, 0x0au8, 0x10u8, 0x01u8, 0u8]))),
        old.stage matches ProbeStage::BatteryFeature { candidate, .. } ==> (rep@[4] == 0 ==> (candidate == 2
            ==> r == ProbeAction::Finished(None))),
        old.stage is DeviceType && rep@[4] != 3 ==> r == ProbeAction::Finished(None),
{
    lemma_battery_features();
}

/// Whether a slot is one that a poll checks.
pub open spec fn listed_slot(slot: u8) -> bool {
    1 <= slot <= 6 || slot == 0xff
}

/// The slots a receiver scan checks, in order: the six pairing slots, then
/// 0xff for a device on a direct connection.
pub proof fn lemma_slots()
    ensures
        HIDPP_SLOTS@ == seq![1u8, 2u8, 3u8, 4u8, 5u8, 6u8, 0xffu8],
{
    assert(HIDPP_SLOTS@ =~= seq![1u8, 2u8, 3u8, 4u8, 5u8, 6u8, 0xffu8]);
}

/// Where the scan of a receiver stands.
pub enum ScanPhase {
    /// Waiting for the answer to the presence check of the current slot.
    Ping,
    /// Reading the device on the current slot.
    Probe(MouseProbe),
    /// Every slot has been checked.
    Done,
}

/// What the caller does next for a receiver.
pub enum ScanAction {
    /// Send this request and report the reply (or its absence) back.
    Send([u8; 7]),
    /// The scan is over.
    Finished,
}

/// Whether an action sends exactly `request`.
pub open spec fn scan_sends(action: ScanAction, request: Seq<u8>) -> bool {
    action matches ScanAction::Send(r) && r@ == request
}

/// The scan of one HID++ receiver endpoint: each slot of `HIDPP_SLOTS` in
/// turn is checked for a device, and a device that answers is read with a
/// `MouseProbe`.
pub struct ReceiverScan {
    pub receiver: EnumeratedDevice,
    /// The position in `HIDPP_SLOTS` of the slot being checked.
    pub next: usize,
    pub phase: ScanPhase,
    /// Whether a device answered the presence check on any slot so far.
    pub answered: bool,
    /// The mouse readings so far, in slot order.
    pub found: Vec<DeviceReading>,
    /// The slot of each found reading.
    pub found_slots: Vec<u8>,
}

/// How far a scan is from its end; every step that does not finish lowers
/// it, so a receiver is scanned with a bounded number of queries.
pub open spec fn scan_remaining(scan: ReceiverScan) -> int {
    (7 - scan.next) * 300 + match scan.phase {
        ScanPhase::Ping => 250,
        ScanPhase::Probe(p) => remaining_steps(p.stage) as int,
        ScanPhase::Done => 0,
    }
}

/// Leaving the slot at `old.next`: the presence check of the next slot, or
/// the end of the scan after the last one.
pub open spec fn moves_on(old: ReceiverScan, new: ReceiverScan, r: ScanAction) -> bool {
    &&& new.next == old.next + 1
    &&& if old.next + 1 < 7 {
        new.phase is Ping && scan_sends(r, ping_query(HIDPP_SLOTS@[old.next + 1]))
    } else {
        new.phase is Done && r is Finished
    }
}

/// What the scan does once the probe of its current slot has stepped to
/// `probe` with the action `a`: forward a request, or keep the reading (if
/// any) and move on.
pub open spec fn follows_probe(old: ReceiverScan, new: ReceiverScan, probe: MouseProbe, a: ProbeAction, r: ScanAction) -> bool {
    match a {
        ProbeAction::Send(request) => {
            &&& new.phase == ScanPhase::Probe(probe)
            &&& r == ScanAction::Send(request)
            &&& new.next == old.next
            &&& new.found == old.found
            &&& new.found_slots == old.found_slots
        },
        ProbeAction::Finished(reading) => {
            &&& moves_on(old, new, r)
            &&& match reading {
                Some(d) => new.found@ == old.found@.push(d) && new.found_slots@ == old.found_slots@.push(probe.slot),
                None => new.found == old.found && new.found_slots == old.found_slots,
            }
        },
    }
}

/// One step of a receiver scan, from `old` to `new`, given the reply to the
/// last request (or none when that query failed), telling the caller `r`.
pub open spec fn scan_step(old: ReceiverScan, new: ReceiverScan, reply: Option<[u8; 7]>, r: ScanAction) -> bool {
    &&& new.wf()
    &&& new.receiver == old.receiver
    &&& (r is Finished <==> new.phase is Done)
    &&& (old.phase is Done || scan_remaining(new) < scan_remaining(old))
    &&& match old.phase {
        ScanPhase::Ping => {
            let slot = HIDPP_SLOTS@[old.next as int];
            if reply matches Some(rep) && ping_shows_device(slot, rep@) {
                &&& new.answered
                &&& new.next == old.next
                &&& new.found == old.found
                &&& new.found_slots == old.found_slots
                &&& new.phase matches ScanPhase::Probe(p) && p.slot == slot && p.stage is NameFeature
                &&& scan_sends(r, feature_query(slot, 0x0005))
            } else {
                &&& new.answered == old.answered
                &&& new.found == old.found
                &&& new.found_slots == old.found_slots
                &&& moves_on(old, new, r)
            }
        },
        ScanPhase::Probe(p) => {
            &&& new.answered == old.answered
            &&& exists|probe: MouseProbe, a: ProbeAction| probe_step(p, probe, reply, a) && follows_probe(old, new, probe, a, r)
        },
        ScanPhase::Done => new == old && r is Finished,
    }
}

impl ReceiverScan {
    /// The scan is consistent: the slot being read is the current slot of
    /// the list; each found reading is a valid mouse reading whose id names
    /// this receiver and a listed slot; found slots rise and lie before the
    /// current one; and no device is read or found before one answered.
    pub open spec fn wf(&self) -> bool {
        &&& self.next <= 7
        &&& (self.phase is Done <==> self.next == 7)
        &&& (self.phase matches ScanPhase::Probe(p) ==> p.wf() && p.slot == HIDPP_SLOTS@[self.next as int]
            && p.path@ == self.receiver.path@ && p.product@ == self.receiver.product@)
        &&& self.found_slots@.len() == self.found@.len()
        &&& forall|i: int|
            0 <= i < self.found@.len() ==> {
                &&& reading_valid(#[trigger] self.found@[i])
                &&& self.found@[i].device_kind == DeviceKind::Mouse
                &&& self.found@[i].stable_id@ == mouse_stable_id(self.receiver.path@, self.found_slots@[i])
            }
        &&& forall|i: int| 0 <= i < self.found_slots@.len() ==> listed_slot(#[trigger] self.found_slots@[i])
        &&& forall|i: int, j: int|
            0 <= i < j < self.found_slots@.len() ==> self.found_slots@[i] < self.found_slots@[j]
        &&& forall|i: int|
            0 <= i < self.found_slots@.len() && self.next < 7 ==> self.found_slots@[i] < HIDPP_SLOTS@[self.next as int]
        &&& (!self.answered ==> self.found@.len() == 0 && !(self.phase is Probe))
    }

    /// Starts the scan of the receiver behind `receiver` with the presence
    /// check of the first slot.
    pub fn start(receiver: EnumeratedDevice) -> (r: (ReceiverScan, [u8; 7]))
        ensures
            r.0.wf(),
            r.0.receiver == receiver,
            r.0.next == 0,
            r.0.phase is Ping,
            !r.0.answered,
            r.0.found@.len() == 0,
            r.1@ == ping_query(HIDPP_SLOTS@[0]),
    {
        let request = ping_request(HIDPP_SLOTS[0]);
        (
            ReceiverScan {
                receiver,
                next: 0,
                phase: ScanPhase::Ping,
                answered: false,
                found: Vec::new(),
                found_slots: Vec::new(),
            },
            request,
        )
    }

    /// The finished scan of a receiver that could not be opened: no device
    /// answered on it.
    pub fn unreachable(receiver: EnumeratedDevice) -> (r: ReceiverScan)
        ensures
            r.wf(),
            r.receiver == receiver,
            r.phase is Done,
            !r.answered,
            r.found@.len() == 0,
    {
        ReceiverScan { receiver, next: 7, phase: ScanPhase::Done, answered: false, found: Vec::new(), found_slots: Vec::new() }
    }

    fn move_on(&mut self) -> (r: ScanAction)
        requires
            old(self).next < 7,
        ensures
            moves_on(*old(self), *final(self), r),
            final(self).receiver == old(self).receiver,
            final(self).answered == old(self).answered,
            final(self).found == old(self).found,
            final(self).found_slots == old(self).found_slots,
    {
        self.next = self.next + 1;
        if self.next < 7 {
            self.phase = ScanPhase::Ping;
            ScanAction::Send(ping_request(HIDPP_SLOTS[self.next]))
        } else {
            self.phase = ScanPhase::Done;
            ScanAction::Finished
        }
    }

    /// Advances the scan with the reply to the last request, or `None` when
    /// that query failed, and says what to do next.
    pub fn step(&mut self, reply: Option<[u8; 7]>) -> (r: ScanAction)
        requires
            old(self).wf(),
        ensures
            scan_step(*old(self), *final(self), reply, r),
    {
        proof {
            lemma_slots();
        }
        let ghost start = *self;
        let mut phase = ScanPhase::Done;
        std::mem::swap(&mut phase, &mut self.phase);
        match phase {
            ScanPhase::Ping => {
                let slot = HIDPP_SLOTS[self.next];
                let present = match reply {
                    Some(rep) => ping_answered(slot, &rep),
                    None => false,
                };
                if present {
                    let (probe, request) = MouseProbe::start(slot, &self.receiver);
                    self.answered = true;
                    self.phase = ScanPhase::Probe(probe);
                    ScanAction::Send(request)
                } else {
                    let r = self.move_on();
                    assert(start.next + 1 < 7 ==> HIDPP_SLOTS@[start.next as int] < HIDPP_SLOTS@[start.next + 1]);
                    r
                }
            },
            ScanPhase::Probe(probe) => {
                let mut probe = probe;
                let ghost before = probe;
                let action = probe.step(reply);
                let ghost a = action;
                match action {
                    ProbeAction::Send(request) => {
                        self.phase = ScanPhase::Probe(probe);
                        let r = ScanAction::Send(request);
                        assert(follows_probe(start, *self, probe, a, r));
                        r
                    },
                    ProbeAction::Finished(reading) => {
                        let slot = probe.slot;
                        match reading {
                            Some(d) => {
                                self.found.push(d);
                                self.found_slots.push(slot);
                            },
                            None => {},
                        }
                        let r = self.move_on();
                        assert(follows_probe(start, *self, probe, a, r));
                        r
                    },
                }
            },
            ScanPhase::Done => {
                self.phase = ScanPhase::Done;
                ScanAction::Finished
            },
        }
    }
}

/// The mouse readings that the scans found, scan after scan.
pub open spec fn found_readings(scans: Seq<ReceiverScan>) -> Seq<DeviceReading>
    decreases scans.len(),
{
    if scans.len() == 0 {
        seq![]
    } else {
        found_readings(scans.drop_last()) + scans.last().found@
    }
}

/// The scans, in order, of the receivers on which no device answered.
pub open spec fn silent_receivers(scans: Seq<ReceiverScan>) -> Seq<ReceiverScan>
    decreases scans.len(),
{
    if scans.len() == 0 {
        seq![]
    } else {
        let rest = silent_receivers(scans.drop_last());
        if scans.last().answered {
            rest
        } else {
            rest.push(scans.last())
        }
    }
}

/// Whether `r` is the offline mouse reading that stands for a receiver on
/// which no device answered.
pub open spec fn offline_reading(r: DeviceReading, receiver: EnumeratedDevice) -> bool {
    &&& r.device_kind == DeviceKind::Mouse
    &&& r.name@ == mouse_name(None, receiver.product@)
    &&& r.stable_id@ == receiver_offline_id(receiver.path@)
    &&& r.battery_percent is None
    &&& r.power == PowerState::Offline
}

/// Whether no two scans are of the same receiver path.
pub open spec fn distinct_receivers(scans: Seq<ReceiverScan>) -> bool {
    forall|i: int, j: int|
        0 <= i < j < scans.len() ==> scans[i].receiver.path@ != scans[j].receiver.path@
}

fn offline_mouse(receiver: EnumeratedDevice) -> (r: DeviceReading)
    ensures
        offline_reading(r, receiver),
        reading_valid(r),
{
    proof {
        reveal_strlit("Logitech mouse");
    }
    let EnumeratedDevice { path, product, .. } = receiver;
    let name = if product.as_str().is_empty() {
        String::from_str("Logitech mouse")
    } else {
        product
    };
    let mut stable_id = path;
    stable_id.append("#hidpp-receiver");
    DeviceReading { device_kind: DeviceKind::Mouse, name, stable_id, battery_percent: None, power: PowerState::Offline }
}

/// The Logitech readings of a poll from the finished scans of its receivers:
/// every mouse reading found, scan after scan, then an offline mouse reading
/// for each receiver on which no device answered.  Every reading is valid,
/// and receivers at different paths give readings with different ids.
pub fn logitech_readings(scans: Vec<ReceiverScan>) -> (r: Vec<DeviceReading>)
    requires
        forall|i: int| 0 <= i < scans@.len() ==> (#[trigger] scans@[i]).wf(),
    ensures
        r@.len() == found_readings(scans@).len() + silent_receivers(scans@).len(),
        r@.take(found_readings(scans@).len() as int) == found_readings(scans@),
        forall|k: int|
            0 <= k < silent_receivers(scans@).len() ==> offline_reading(
                #[trigger] r@[found_readings(scans@).len() + k],
                silent_receivers(scans@)[k].receiver,
            ),
        forall|i: int|
            0 <= i < r@.len() ==> reading_valid(#[trigger] r@[i]) && r@[i].device_kind == DeviceKind::Mouse,
        distinct_receivers(scans@) ==> forall|i: int, j: int|
            0 <= i < j < r@.len() ==> (#[trigger] r@[i]).stable_id@ != (#[trigger] r@[j]).stable_id@,
{
    let ghost all = scans@;
    let total = scans.len();
    let mut scans = scans;
    let mut readings: Vec<DeviceReading> = Vec::new();
    let mut offline: Vec<DeviceReading> = Vec::new();
    let ghost mut owners: Seq<(int, Option<u8>)> = seq![];
    let ghost mut offline_owners: Seq<int> = seq![];
    let mut k: usize = 0;
    while scans.len() > 0
        invariant
            k + scans@.len() == all.len(),
            all.len() == total,
            scans@ == all.skip(k as int),
            forall|i: int| 0 <= i < all.len() ==> (#[trigger] all[i]).wf(),
            readings@ == found_readings(all.take(k as int)),
            offline@.len() == silent_receivers(all.take(k as int)).len(),
            forall|m: int|
                0 <= m < offline@.len() ==> offline_reading(
                    #[trigger] offline@[m],
                    silent_receivers(all.take(k as int))[m].receiver,
                ),
            forall|i: int|
                0 <= i < readings@.len() ==> reading_valid(#[trigger] readings@[i]) && readings@[i].device_kind
                    == DeviceKind::Mouse,
            forall|i: int|
                0 <= i < offline@.len() ==> reading_valid(#[trigger] offline@[i]) && offline@[i].device_kind
                    == DeviceKind::Mouse,
            owners.len() == readings@.len(),
            forall|i: int|
                0 <= i < owners.len() ==> 0 <= (#[trigger] owners[i]).0 < k && owners[i].1 is Some
                    && readings@[i].stable_id@ == logitech_id(all[owners[i].0].receiver.path@, owners[i].1),
            forall|i: int, j: int| 0 <= i < j < owners.len() ==> owners[i] != owners[j],
            offline_owners.len() == offline@.len(),
            forall|m: int|
                0 <= m < offline_owners.len() ==> 0 <= #[trigger] offline_owners[m] < k
                    && offline@[m].stable_id@ == logitech_id(all[offline_owners[m]].receiver.path@, None),
            forall|m: int, n: int| 0 <= m < n < offline_owners.len() ==> offline_owners[m] < offline_owners[n],
        decreases scans@.len(),
    {
        let scan = scans.remove(0);
        assert(scan == all[k as int]);
        assert(all.take(k as int + 1).drop_last() =~= all.take(k as int));
        assert(all.take(k as int + 1).last() == all[k as int]);
        assert(all.skip(k as int).remove(0) =~= all.skip(k as int + 1));
        let ReceiverScan { receiver, answered, found, found_slots, .. } = scan;
        let ghost slots = found_slots@;
        let ghost added = Seq::new(found@.len(), |m: int| (k as int, Some(slots[m])));
        let mut found = found;
        readings.append(&mut found);
        proof {
            owners = owners + added;
        }
        if !answered {
            let reading = offline_mouse(receiver);
            offline.push(reading);
            proof {
                offline_owners = offline_owners.push(k as int);
            }
        }
        k = k + 1;
    }
    assert(all.take(k as int) =~= all);
    readings.append(&mut offline);
    proof {
        let every = owners + offline_owners.map_values(|o: int| (o, None::<u8>));
        assert forall|i: int, j: int|
            0 <= i < j < readings@.len() && distinct_receivers(all) implies readings@[i].stable_id@
            != readings@[j].stable_id@ by {
            if readings@[i].stable_id@ == readings@[j].stable_id@ {
                lemma_logitech_id_injective(
                    all[every[i].0].receiver.path@,
                    every[i].1,
                    all[every[j].0].receiver.path@,
                    every[j].1,
                );
            }
        }
    }
    readings
}

} // verus!
