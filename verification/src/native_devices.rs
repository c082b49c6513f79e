//! Plain reading types shared by the device protocols, the alert rules and
//! the tray artwork, and the assembly of one poll's readings.

use vstd::prelude::*;
use crate::text::{decimal, push_decimal};

verus! {

/// Which of the two supported device families a reading comes from.
#[derive(Debug, Clone, Copy, PartialEq, Eq, Structural)]
pub enum DeviceKind {
    Headset,
    Mouse,
}

/// Charge state reported alongside a battery percentage.
#[derive(Debug, Clone, Copy, PartialEq, Eq, Structural)]
pub enum PowerState {
    Charging,
    Full,
    Discharging,
    /// The receiver is present but the wireless device did not answer.
    Offline,
    /// The device answered but does not expose a documented charge state.
    Unknown,
}

/// One device's state after a poll.
#[derive(Debug, Clone, PartialEq, Eq)]
pub struct DeviceReading {
    pub device_kind: DeviceKind,
    pub name: String,
    /// A HID path plus receiver slot is stable for the connected device and
    /// distinguishes multiple paired Logitech devices.
    pub stable_id: String,
    pub battery_percent: Option<u8>,
    pub power: PowerState,
}

/// What every reading of a poll satisfies: a level exactly when the device
/// is not offline, a level of at most 100, a name to show, and no charge
/// state claimed for the headset, whose protocol reports none.
pub open spec fn reading_valid(r: DeviceReading) -> bool {
    &&& (r.battery_percent is None <==> r.power == PowerState::Offline)
    &&& (r.battery_percent matches Some(p) ==> p <= 100)
    &&& r.name@.len() > 0
    &&& (r.device_kind == DeviceKind::Headset ==> r.power == PowerState::Offline || r.power == PowerState::Unknown)
}

/// One line of the console diagnostics: which protocol found an interface,
/// where, and what it is.
#[derive(Debug, Clone, PartialEq, Eq)]
pub struct DeviceDiagnostic {
    pub source: &'static str,
    pub stable_id: String,
    pub detail: String,
}


/// Vendor id of HyperX headsets.
pub const HYPERX_VID: u16 = 0x03f0;
/// Product id of the HyperX Cloud III S Wireless.
pub const HYPERX_CLOUD_III_S_PID: u16 = 0x06be;
/// Vendor id of Logitech receivers and mice.
pub const LOGITECH_VID: u16 = 0x046d;
/// Usage page bits that mark a vendor-defined (HID++) collection.
pub const HIDPP_USAGE_PAGE_MASK: u16 = 0xff00;
/// Usage of the HID++ short-report collection.
pub const HIDPP_SHORT_USAGE: u16 = 0x0001;
/// Usage of the HID++ long-report collection.
pub const HIDPP_LONG_USAGE: u16 = 0x0002;
/// Usage page of the HyperX battery interface.
pub const HYPERX_USAGE_PAGE: u16 = 0x01c0;

/// One HID interface as the operating system lists it.
#[derive(Debug)]
pub struct EnumeratedDevice {
    pub path: String,
    pub product: String,
    pub usage_page: u16,
    pub usage: u16,
}

/// Whether an interface is the HyperX battery interface.
pub open spec fn hyperx_battery_interface(info: EnumeratedDevice) -> bool {
    info.usage_page == HYPERX_USAGE_PAGE && info.usage == 1
}

/// Whether an interface carries HID++ in a vendor collection with `usage`.
pub open spec fn hidpp_collection(info: EnumeratedDevice, usage: u16) -> bool {
    info.usage_page & HIDPP_USAGE_PAGE_MASK == HIDPP_USAGE_PAGE_MASK && info.usage == usage
}

/// Whether an interface is a HID++ short-report endpoint, where requests go.
pub fn is_hidpp_short(info: &EnumeratedDevice) -> (r: bool)
    ensures
        r == hidpp_collection(*info, HIDPP_SHORT_USAGE),
{
    (info.usage_page & HIDPP_USAGE_PAGE_MASK) == HIDPP_USAGE_PAGE_MASK && info.usage == HIDPP_SHORT_USAGE
}

/// Whether an interface is a HID++ long-report endpoint, where Lightspeed
/// receivers may deliver replies.
pub fn is_hidpp_long(info: &EnumeratedDevice) -> (r: bool)
    ensures
        r == hidpp_collection(*info, HIDPP_LONG_USAGE),
{
    (info.usage_page & HIDPP_USAGE_PAGE_MASK) == HIDPP_USAGE_PAGE_MASK && info.usage == HIDPP_LONG_USAGE
}

fn copy_device(info: &EnumeratedDevice) -> (r: EnumeratedDevice)
    ensures
        r == *info,
{
    EnumeratedDevice {
        path: info.path.clone(),
        product: info.product.clone(),
        usage_page: info.usage_page,
        usage: info.usage,
    }
}

/// The interfaces of a list that satisfy `keep`, in their order.
pub open spec fn kept(devs: Seq<EnumeratedDevice>, keep: spec_fn(EnumeratedDevice) -> bool) -> Seq<EnumeratedDevice>
    decreases devs.len(),
{
    if devs.len() == 0 {
        seq![]
    } else {
        let rest = kept(devs.drop_last(), keep);
        if keep(devs.last()) {
            rest.push(devs.last())
        } else {
            rest
        }
    }
}

/// The HyperX battery interfaces among the enumerated HyperX interfaces.
pub fn hyperx_interfaces(devs: &Vec<EnumeratedDevice>) -> (r: Vec<EnumeratedDevice>)
    ensures
        r@ == kept(devs@, |d: EnumeratedDevice| hyperx_battery_interface(d)),
{
    let ghost keep = |d: EnumeratedDevice| hyperx_battery_interface(d);
    let mut r: Vec<EnumeratedDevice> = Vec::new();
    let mut i: usize = 0;
    while i < devs.len()
        invariant
            i <= devs@.len(),
            r@ == kept(devs@.take(i as int), keep),
            keep == (|d: EnumeratedDevice| hyperx_battery_interface(d)),
        decreases devs@.len() - i,
    {
        assert(devs@.take(i as int + 1).drop_last() =~= devs@.take(i as int));
        assert(devs@.take(i as int + 1).last() == devs@[i as int]);
        assert(keep(devs@[i as int]) == hyperx_battery_interface(devs@[i as int]));
        if devs[i].usage_page == HYPERX_USAGE_PAGE && devs[i].usage == 1 {
            r.push(copy_device(&devs[i]));
        }
        i = i + 1;
    }
    assert(devs@.take(i as int) =~= devs@);
    r
}

/// The HID++ short-report endpoints among the enumerated Logitech interfaces.
pub fn hidpp_short_interfaces(devs: &Vec<EnumeratedDevice>) -> (r: Vec<EnumeratedDevice>)
    ensures
        r@ == kept(devs@, |d: EnumeratedDevice| hidpp_collection(d, HIDPP_SHORT_USAGE)),
{
    let ghost keep = |d: EnumeratedDevice| hidpp_collection(d, HIDPP_SHORT_USAGE);
    let mut r: Vec<EnumeratedDevice> = Vec::new();
    let mut i: usize = 0;
    while i < devs.len()
        invariant
            i <= devs@.len(),
            r@ == kept(devs@.take(i as int), keep),
            keep == (|d: EnumeratedDevice| hidpp_collection(d, HIDPP_SHORT_USAGE)),
        decreases devs@.len() - i,
    {
        assert(devs@.take(i as int + 1).drop_last() =~= devs@.take(i as int));
        assert(devs@.take(i as int + 1).last() == devs@[i as int]);
        assert(keep(devs@[i as int]) == hidpp_collection(devs@[i as int], HIDPP_SHORT_USAGE));
        if is_hidpp_short(&devs[i]) {
            r.push(copy_device(&devs[i]));
        }
        i = i + 1;
    }
    assert(devs@.take(i as int) =~= devs@);
    r
}

/// The name a headset reading carries: the product string the interface
/// reports, or the model name when it reports none.
pub open spec fn headset_name(product: Seq<char>) -> Seq<char> {
    if product.len() == 0 {
        "HyperX Cloud III S Wireless"@
    } else {
        product
    }
}

/// The reading of one HyperX battery interface, given the percentage it
/// answered with, if any.  The protocol has no charging flag, so an answer is
/// reported with an unknown charge state rather than a guessed one.
pub fn hyperx_reading(info: &EnumeratedDevice, battery: Option<u8>) -> (r: DeviceReading)
    requires
        battery matches Some(p) ==> p <= 100,
    ensures
        reading_valid(r),
        r.device_kind == DeviceKind::Headset,
        r.name@ == headset_name(info.product@),
        r.stable_id@ == info.path@,
        r.battery_percent == battery,
        r.power == (if battery is None { PowerState::Offline } else { PowerState::Unknown }),
{
    proof {
        reveal_strlit("HyperX Cloud III S Wireless");
    }
    let name = if info.product.as_str().is_empty() {
        String::from_str("HyperX Cloud III S Wireless")
    } else {
        info.product.clone()
    };
    DeviceReading {
        device_kind: DeviceKind::Headset,
        name,
        stable_id: info.path.clone(),
        battery_percent: battery,
        power: match battery {
            None => PowerState::Offline,
            Some(_) => PowerState::Unknown,
        },
    }
}

/// The readings of one poll: the headset family first, then the mice.
pub fn poll_devices(hyperx: Vec<DeviceReading>, logitech: Vec<DeviceReading>) -> (r: Vec<DeviceReading>)
    ensures
        r@ == hyperx@ + logitech@,
        (forall|i: int| 0 <= i < hyperx@.len() ==> reading_valid(#[trigger] hyperx@[i]))
            && (forall|i: int| 0 <= i < logitech@.len() ==> reading_valid(#[trigger] logitech@[i]))
            ==> forall|i: int| 0 <= i < r@.len() ==> reading_valid(#[trigger] r@[i]),
{
    let mut readings = hyperx;
    let mut rest = logitech;
    readings.append(&mut rest);
    readings
}

/// The view of a diagnostic line: source, stable id and detail.
pub open spec fn diagnostic_view(d: DeviceDiagnostic) -> (Seq<char>, Seq<char>, Seq<char>) {
    (d.source@, d.stable_id@, d.detail@)
}

/// The diagnostic lines for the HyperX battery interfaces of a list.
pub open spec fn hyperx_diagnostics(devs: Seq<EnumeratedDevice>) -> Seq<(Seq<char>, Seq<char>, Seq<char>)>
    decreases devs.len(),
{
    if devs.len() == 0 {
        seq![]
    } else {
        let rest = hyperx_diagnostics(devs.drop_last());
        let d = devs.last();
        if hyperx_battery_interface(d) {
            rest.push(("hyperx"@, d.path@, "Cloud III S battery interface, product="@ + d.product@))
        } else {
            rest
        }
    }
}

/// Whether an interface is a HID++ endpoint of either report length.
pub open spec fn hidpp_endpoint(d: EnumeratedDevice) -> bool {
    d.usage_page & HIDPP_USAGE_PAGE_MASK == HIDPP_USAGE_PAGE_MASK && (d.usage == 1 || d.usage == 2)
}

/// The diagnostic lines for the HID++ endpoints of a list.
pub open spec fn hidpp_diagnostics(devs: Seq<EnumeratedDevice>) -> Seq<(Seq<char>, Seq<char>, Seq<char>)>
    decreases devs.len(),
{
    if devs.len() == 0 {
        seq![]
    } else {
        let rest = hidpp_diagnostics(devs.drop_last());
        let d = devs.last();
        if hidpp_endpoint(d) {
            rest.push(
                (
                    "logitech-hidpp"@,
                    d.path@,
                    "HID++ usage "@ + decimal(d.usage as nat) + " interface, product="@ + d.product@,
                ),
            )
        } else {
            rest
        }
    }
}

/// Console diagnostics for the enumerated HyperX and Logitech interfaces:
/// one line per HyperX battery interface, then one per HID++ endpoint.  Only
/// enumeration results are used; no battery query is issued.
pub fn diagnostic_report(hyperx: &Vec<EnumeratedDevice>, logitech: &Vec<EnumeratedDevice>) -> (r: Vec<DeviceDiagnostic>)
    ensures
        r@.map_values(|d: DeviceDiagnostic| diagnostic_view(d)) == hyperx_diagnostics(hyperx@) + hidpp_diagnostics(logitech@),
{
    let mut diagnostics: Vec<DeviceDiagnostic> = Vec::new();
    let mut i: usize = 0;
    while i < hyperx.len()
        invariant
            i <= hyperx@.len(),
            diagnostics@.map_values(|d: DeviceDiagnostic| diagnostic_view(d)) == hyperx_diagnostics(hyperx@.take(i as int)),
        decreases hyperx@.len() - i,
    {
        let ghost before = diagnostics@;
        assert(hyperx@.take(i as int + 1).drop_last() =~= hyperx@.take(i as int));
        let info = &hyperx[i];
        if info.usage_page == HYPERX_USAGE_PAGE && info.usage == 1 {
            let detail = String::from_str("Cloud III S battery interface, product=").concat(info.product.as_str());
            diagnostics.push(DeviceDiagnostic { source: "hyperx", stable_id: info.path.clone(), detail });
            assert(diagnostics@.map_values(|d: DeviceDiagnostic| diagnostic_view(d)) =~= before.map_values(
                |d: DeviceDiagnostic| diagnostic_view(d),
            ).push(diagnostic_view(diagnostics@.last())));
        }
        i = i + 1;
    }
    assert(hyperx@.take(i as int) =~= hyperx@);
    let ghost first = diagnostics@.map_values(|d: DeviceDiagnostic| diagnostic_view(d));
    let mut j: usize = 0;
    while j < logitech.len()
        invariant
            j <= logitech@.len(),
            first == hyperx_diagnostics(hyperx@),
            diagnostics@.map_values(|d: DeviceDiagnostic| diagnostic_view(d)) == first + hidpp_diagnostics(logitech@.take(j as int)),
        decreases logitech@.len() - j,
    {
        let ghost before = diagnostics@;
        assert(logitech@.take(j as int + 1).drop_last() =~= logitech@.take(j as int));
        let info = &logitech[j];
        if (info.usage_page & HIDPP_USAGE_PAGE_MASK) == HIDPP_USAGE_PAGE_MASK && (info.usage == 1 || info.usage == 2) {
            let mut detail = String::from_str("HID++ usage ");
            push_decimal(&mut detail, info.usage as u8);
            detail.append(" interface, product=");
            detail.append(info.product.as_str());
            diagnostics.push(DeviceDiagnostic { source: "logitech-hidpp", stable_id: info.path.clone(), detail });
            assert(diagnostics@.map_values(|d: DeviceDiagnostic| diagnostic_view(d)) =~= before.map_values(
                |d: DeviceDiagnostic| diagnostic_view(d),
            ).push(diagnostic_view(diagnostics@.last())));
            assert(first + hidpp_diagnostics(logitech@.take(j as int + 1)) =~= (first + hidpp_diagnostics(logitech@.take(j as int))).push(diagnostic_view(diagnostics@.last())));
        }
        j = j + 1;
    }
    assert(logitech@.take(j as int) =~= logitech@);
    diagnostics
}


/// The six-byte battery query of the Cloud III S Wireless; its reply echoes
/// these bytes and carries the percentage in byte 6.
pub const HYPERX_QUERY: [u8; 6] = [0x0c, 0x02, 0x03, 0x01, 0x00, 0x06];

/// The 52-byte output report that asks the headset for its battery level:
/// the query header followed by zeros.
pub fn hyperx_battery_request() -> (r: [u8; 52])
    ensures
        r@.take(6) == HYPERX_QUERY@,
        forall|i: int| 6 <= i < 52 ==> r@[i] == 0,
{
    let mut request = [0u8; 52];
    request[0] = 0x0c;
    request[1] = 0x02;
    request[2] = 0x03;
    request[3] = 0x01;
    request[4] = 0x00;
    request[5] = 0x06;
    assert(request@.take(6) =~= HYPERX_QUERY@);
    request
}

/// What one read from the headset means for the battery query.
#[derive(Debug, Clone, Copy, PartialEq, Eq)]
pub enum HyperxReply {
    /// The read failed or timed out; the headset gives no reading.
    Abandon,
    /// An unrelated input report; keep reading until the deadline.
    Ignore,
    /// The reply to the query: the percentage, or none when it is out of range.
    Battery(Option<u8>),
}

/// Interprets a read of `read` bytes into `response` while waiting for the
/// battery reply: only a report that echoes the query header is a reply, and
/// only a level of at most 100 is a percentage.
pub fn hyperx_reply(read: i32, response: &[u8; 20]) -> (r: HyperxReply)
    ensures
        r == (if read <= 0 {
            HyperxReply::Abandon
        } else if read > 6 && response@.take(6) == HYPERX_QUERY@ {
            HyperxReply::Battery(if response@[6] <= 100 { Some(response@[6]) } else { None })
        } else {
            HyperxReply::Ignore
        }),
{
    if read <= 0 {
        return HyperxReply::Abandon;
    }
    let echoed = response[0] == 0x0c && response[1] == 0x02 && response[2] == 0x03 && response[3] == 0x01
        && response[4] == 0x00 && response[5] == 0x06;
    proof {
        if echoed {
            assert(response@.take(6) =~= HYPERX_QUERY@);
        }
        if response@.take(6) == HYPERX_QUERY@ {
            assert(response@.take(6)[0] == response@[0]);
            assert(response@.take(6)[1] == response@[1]);
            assert(response@.take(6)[2] == response@[2]);
            assert(response@.take(6)[3] == response@[3]);
            assert(response@.take(6)[4] == response@[4]);
            assert(response@.take(6)[5] == response@[5]);
        }
    }
    if read > 6 && echoed {
        if response[6] <= 100 {
            HyperxReply::Battery(Some(response[6]))
        } else {
            HyperxReply::Battery(None)
        }
    } else {
        HyperxReply::Ignore
    }
}

/// Whether the headset accepted the query: a negative write count is a failure.
pub fn hyperx_write_accepted(written: i32) -> (r: bool)
    ensures
        r == (written >= 0),
{
    written >= 0
}

} // verus!
