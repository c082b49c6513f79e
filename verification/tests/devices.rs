use battery_status::hid_path::same_hid_container;
use battery_status::hidpp::{
    classify_report, classify_write, feature_index_of, feature_index_request, next_query_step, ping_answered,
    ping_request, HidppQueryResult, QueryStep, ReportVerdict,
};
use battery_status::logitech::{hidpp_read_path, MouseProbe, ProbeAction};
use battery_status::native_devices::{
    diagnostic_report, hidpp_short_interfaces, hyperx_battery_request, hyperx_interfaces, hyperx_reading,
    hyperx_reply, hyperx_write_accepted, is_hidpp_short, poll_devices, DeviceKind, DeviceReading,
    EnumeratedDevice, HyperxReply, PowerState,
};

fn device(path: &str, product: &str, usage_page: u16, usage: u16) -> EnumeratedDevice {
    EnumeratedDevice { path: path.to_string(), product: product.to_string(), usage_page, usage }
}

const SHORT: &str = r"\\?\HID#VID_046D&PID_C54D&MI_02&Col01#7&1A2B3C4D&0&0000#{4d1e55b2-f16f-11cf-88cb-001111000030}";
const LONG: &str = r"\\?\hid#vid_046d&pid_c54d&mi_02&col02#7&1a2b3c4d&0&0001#{4d1e55b2-f16f-11cf-88cb-001111000030}";
const OTHER: &str = r"\\?\HID#VID_046D&PID_C54D&MI_02&Col02#7&99999999&0&0001#{4d1e55b2-f16f-11cf-88cb-001111000030}";

#[test]
fn hid_container_matches_collections_of_one_receiver() {
    assert!(same_hid_container(SHORT, LONG));
    assert!(same_hid_container(LONG, SHORT));
    assert!(!same_hid_container(SHORT, OTHER));
    assert!(!same_hid_container("no-separators", "no-separators"));
    assert!(!same_hid_container("a#b#noamp", "a#b#noamp"));
    assert!(same_hid_container("a#B&COL01#x&y", "z#b&col07#X&q"));
}

#[test]
fn read_path_prefers_the_long_endpoint_of_the_same_receiver() {
    let interfaces = vec![
        device(SHORT, "USB Receiver", 0xff00, 1),
        device(OTHER, "USB Receiver", 0xff00, 2),
        device(LONG, "USB Receiver", 0xff00, 2),
    ];
    assert_eq!(hidpp_read_path(&interfaces, &interfaces[0]), LONG);
    let alone = vec![device(SHORT, "USB Receiver", 0xff00, 1)];
    assert_eq!(hidpp_read_path(&alone, &alone[0]), SHORT);
    assert!(is_hidpp_short(&interfaces[0]));
    assert!(!is_hidpp_short(&interfaces[2]));
    assert_eq!(hidpp_short_interfaces(&interfaces).len(), 1);
}

#[test]
fn hyperx_filter_reading_and_reply() {
    let devs = vec![
        device("h1", "", 0x01c0, 1),
        device("h2", "Cloud", 0x01c0, 2),
        device("h3", "Cloud III", 0x01c0, 1),
    ];
    let kept = hyperx_interfaces(&devs);
    assert_eq!(kept.len(), 2);
    assert_eq!(kept[0].path, "h1");
    assert_eq!(kept[1].path, "h3");
    let reading = hyperx_reading(&kept[0], Some(55));
    assert_eq!(reading.name, "HyperX Cloud III S Wireless");
    assert_eq!(reading.power, PowerState::Unknown);
    let offline = hyperx_reading(&kept[1], None);
    assert_eq!(offline.name, "Cloud III");
    assert_eq!(offline.power, PowerState::Offline);
    assert_eq!(offline.battery_percent, None);

    let request = hyperx_battery_request();
    assert_eq!(&request[..6], &[0x0c, 0x02, 0x03, 0x01, 0x00, 0x06]);
    assert!(request[6..].iter().all(|b| *b == 0));
    let mut response = [0u8; 20];
    response[..7].copy_from_slice(&[0x0c, 0x02, 0x03, 0x01, 0x00, 0x06, 64]);
    assert_eq!(hyperx_reply(20, &response), HyperxReply::Battery(Some(64)));
    assert_eq!(hyperx_reply(6, &response), HyperxReply::Ignore);
    assert_eq!(hyperx_reply(0, &response), HyperxReply::Abandon);
    response[6] = 0xff;
    assert_eq!(hyperx_reply(20, &response), HyperxReply::Battery(None));
    response[0] = 0x0b;
    assert_eq!(hyperx_reply(20, &response), HyperxReply::Ignore);
    assert!(hyperx_write_accepted(0));
    assert!(!hyperx_write_accepted(-1));
}

#[test]
fn poll_keeps_headsets_before_mice() {
    let headset = DeviceReading {
        device_kind: DeviceKind::Headset,
        name: "H".into(),
        stable_id: "h".into(),
        battery_percent: Some(10),
        power: PowerState::Unknown,
    };
    let mouse = DeviceReading {
        device_kind: DeviceKind::Mouse,
        name: "M".into(),
        stable_id: "m".into(),
        battery_percent: Some(90),
        power: PowerState::Charging,
    };
    let all = poll_devices(vec![headset.clone()], vec![mouse.clone()]);
    assert_eq!(all, vec![headset, mouse]);
}

#[test]
fn diagnostics_list_battery_and_hidpp_interfaces() {
    let hyperx = vec![device("h1", "Cloud", 0x01c0, 1), device("h2", "Cloud", 0x000c, 1)];
    let logitech = vec![
        device("l1", "Receiver", 0xff00, 1),
        device("l2", "Receiver", 0xff00, 2),
        device("l3", "Receiver", 0xff00, 3),
        device("l4", "Receiver", 0x0001, 2),
    ];
    let report = diagnostic_report(&hyperx, &logitech);
    assert_eq!(report.len(), 3);
    assert_eq!(report[0].source, "hyperx");
    assert_eq!(report[0].stable_id, "h1");
    assert_eq!(report[0].detail, "Cloud III S battery interface, product=Cloud");
    assert_eq!(report[1].source, "logitech-hidpp");
    assert_eq!(report[1].detail, "HID++ usage 1 interface, product=Receiver");
    assert_eq!(report[2].detail, "HID++ usage 2 interface, product=Receiver");
}

#[test]
fn query_reads_are_classified() {
    let request = [0x10, 1, 6, 0x1a, 0, 0, 0];
    let mut buffer = [0u8; 64];
    assert_eq!(classify_report(&request, -1, &buffer), ReportVerdict::Outcome(HidppQueryResult::TimedOut));
    assert_eq!(classify_report(&request, 0, &buffer), ReportVerdict::Ignore);
    buffer[..7].copy_from_slice(&[0x10, 1, 0x8f, 6, 0x1a, 2, 0]);
    assert_eq!(classify_report(&request, 7, &buffer), ReportVerdict::Outcome(HidppQueryResult::DeviceError));
    buffer[..7].copy_from_slice(&[0x10, 1, 0xff, 6, 0x1a, 2, 0]);
    assert_eq!(classify_report(&request, 7, &buffer), ReportVerdict::Outcome(HidppQueryResult::DeviceError));
    buffer[..7].copy_from_slice(&[0x10, 1, 6, 0x1a, 80, 0, 1]);
    assert_eq!(
        classify_report(&request, 7, &buffer),
        ReportVerdict::Outcome(HidppQueryResult::Reply([0x10, 1, 6, 0x1a, 80, 0, 1]))
    );
    assert_eq!(classify_report(&request, 8, &buffer), ReportVerdict::Ignore);
    buffer[..7].copy_from_slice(&[0x10, 2, 6, 0x1a, 80, 0, 1]);
    assert_eq!(classify_report(&request, 7, &buffer), ReportVerdict::Ignore);
    assert_eq!(classify_write(7), None);
    assert_eq!(classify_write(-1), Some(HidppQueryResult::TimedOut));
    assert_eq!(classify_write(3), Some(HidppQueryResult::TimedOut));
}

#[test]
fn queries_retry_only_time_outs_and_at_most_three_times() {
    let reply = [0x10, 1, 2, 3, 4, 5, 6];
    assert_eq!(next_query_step(0, HidppQueryResult::Reply(reply)), QueryStep::Finish(Some(reply)));
    assert_eq!(next_query_step(0, HidppQueryResult::DeviceError), QueryStep::Finish(None));
    assert_eq!(next_query_step(0, HidppQueryResult::TimedOut), QueryStep::Retry(1));
    assert_eq!(next_query_step(1, HidppQueryResult::TimedOut), QueryStep::Retry(2));
    assert_eq!(next_query_step(2, HidppQueryResult::TimedOut), QueryStep::Finish(None));
}

#[test]
fn ping_and_feature_lookup() {
    assert_eq!(ping_request(3), [0x10, 3, 0, 0x1a, 0, 0, 0x55]);
    assert!(ping_answered(3, &[0x10, 3, 0, 0x1a, 4, 2, 0x55]));
    assert!(!ping_answered(3, &[0x10, 3, 0x8f, 0x1a, 4, 2, 0x55]));
    assert!(!ping_answered(2, &[0x10, 3, 0, 0x1a, 4, 2, 0x55]));
    assert_eq!(feature_index_request(1, 0x1004), [0x10, 1, 0, 0x0a, 0x10, 0x04, 0]);
    assert_eq!(feature_index_of(&[0x10, 1, 0, 0x0a, 6, 0, 0]), Some(6));
    assert_eq!(feature_index_of(&[0x10, 1, 0, 0x0a, 0, 0, 0]), None);
}

fn sent(action: ProbeAction) -> [u8; 7] {
    match action {
        ProbeAction::Send(request) => request,
        ProbeAction::Finished(_) => panic!("expected a request"),
    }
}

#[test]
fn mouse_probe_reads_a_named_mouse() {
    let info = device("receiver", "USB Receiver", 0xff00, 1);
    let (mut probe, first) = MouseProbe::start(2, &info);
    assert_eq!(first, [0x10, 2, 0, 0x0a, 0x00, 0x05, 0]);
    // Name feature at index 3.
    let r = sent(probe.step(Some([0x10, 2, 0, 0x0a, 3, 0, 0])));
    assert_eq!(r, [0x10, 2, 0, 0x0a, 0x10, 0x04, 0]);
    // No unified battery; try 0x1000.
    let r = sent(probe.step(Some([0x10, 2, 0, 0x0a, 0, 0, 0])));
    assert_eq!(r, [0x10, 2, 0, 0x0a, 0x10, 0x00, 0]);
    // Battery status at index 7; read the name length.
    let r = sent(probe.step(Some([0x10, 2, 0, 0x0a, 7, 0, 0])));
    assert_eq!(r, [0x10, 2, 3, 0x0a, 0, 0, 0]);
    // Name of length 5: "PRO X" in two chunks.
    let r = sent(probe.step(Some([0x10, 2, 3, 0x0a, 5, 0, 0])));
    assert_eq!(r, [0x10, 2, 3, 0x1a, 0, 0, 0]);
    let r = sent(probe.step(Some([0x10, 2, 3, 0x1a, b'P', b'R', b'O'])));
    assert_eq!(r, [0x10, 2, 3, 0x1a, 3, 0, 0]);
    let r = sent(probe.step(Some([0x10, 2, 3, 0x1a, b' ', b'X', 0])));
    assert_eq!(r, [0x10, 2, 3, 0x2a, 0, 0, 0]);
    // Device type 3: a mouse.
    let r = sent(probe.step(Some([0x10, 2, 3, 0x2a, 3, 0, 0])));
    assert_eq!(r, [0x10, 2, 7, 0x0a, 0, 0, 0]);
    match probe.step(Some([0x10, 2, 7, 0x0a, 64, 0, 1])) {
        ProbeAction::Finished(Some(reading)) => {
            assert_eq!(reading.device_kind, DeviceKind::Mouse);
            assert_eq!(reading.name, "PRO X");
            assert_eq!(reading.stable_id, "receiver#hidpp-slot-2");
            assert_eq!(reading.battery_percent, Some(64));
            assert_eq!(reading.power, PowerState::Charging);
        }
        _ => panic!("expected a reading"),
    }
}

#[test]
fn mouse_probe_falls_back_and_rejects_non_mice() {
    let info = device("rx", "", 0xff00, 1);
    let (mut probe, _) = MouseProbe::start(0xff, &info);
    sent(probe.step(Some([0x10, 0xff, 0, 0x0a, 3, 0, 0])));
    sent(probe.step(None));
    sent(probe.step(None));
    // Voltage feature found on the third try.
    let r = sent(probe.step(Some([0x10, 0xff, 0, 0x0a, 9, 0, 0])));
    assert_eq!(r, [0x10, 0xff, 3, 0x0a, 0, 0, 0]);
    // Name length out of range: no name query, straight to the type check.
    let r = sent(probe.step(Some([0x10, 0xff, 3, 0x0a, 200, 0, 0])));
    assert_eq!(r, [0x10, 0xff, 3, 0x2a, 0, 0, 0]);
    let r = sent(probe.step(Some([0x10, 0xff, 3, 0x2a, 3, 0, 0])));
    assert_eq!(r, [0x10, 0xff, 9, 0x0a, 0, 0, 0]);
    match probe.step(Some([0x10, 0xff, 9, 0x0a, 0x0e, 0xe4, 0x81])) {
        ProbeAction::Finished(Some(reading)) => {
            assert_eq!(reading.name, "Logitech mouse");
            assert_eq!(reading.stable_id, "rx#hidpp-slot-255");
            assert_eq!(reading.battery_percent, Some(50));
            assert_eq!(reading.power, PowerState::Full);
        }
        _ => panic!("expected a reading"),
    }

    let (mut keyboard, _) = MouseProbe::start(1, &device("rx", "Receiver", 0xff00, 1));
    sent(keyboard.step(Some([0x10, 1, 0, 0x0a, 3, 0, 0])));
    sent(keyboard.step(Some([0x10, 1, 0, 0x0a, 4, 0, 0])));
    let r = sent(keyboard.step(None));
    assert_eq!(r, [0x10, 1, 3, 0x2a, 0, 0, 0]);
    assert!(matches!(keyboard.step(Some([0x10, 1, 3, 0x2a, 0, 0, 0])), ProbeAction::Finished(None)));

    let (mut silent, _) = MouseProbe::start(4, &device("rx", "Receiver", 0xff00, 1));
    assert!(matches!(silent.step(None), ProbeAction::Finished(None)));
}
