use battery_status::logitech::{logitech_readings, ReceiverScan, ScanAction};
use battery_status::native_devices::{hyperx_reading, DeviceKind, DeviceReading, EnumeratedDevice, PowerState};

fn receiver(path: &str, product: &str) -> EnumeratedDevice {
    EnumeratedDevice { path: path.to_string(), product: product.to_string(), usage_page: 0xff00, usage: 1 }
}

fn request(action: ScanAction) -> [u8; 7] {
    match action {
        ScanAction::Send(request) => request,
        ScanAction::Finished => panic!("expected a request"),
    }
}

/// Lets every remaining presence check go unanswered and returns the
/// finished scan.
fn finish_silently(mut scan: ReceiverScan) -> ReceiverScan {
    loop {
        match scan.step(None) {
            ScanAction::Send(_) => {}
            ScanAction::Finished => return scan,
        }
    }
}

/// Answers the presence check of `slot` and walks a mouse with a 1000
/// battery feature, no name and the given level through the probe.
fn read_mouse_on(scan: &mut ReceiverScan, slot: u8, level: u8) {
    let r = request(scan.step(Some([0x10, slot, 0, 0x1a, 4, 5, 0x55])));
    assert_eq!(r, [0x10, slot, 0, 0x0a, 0x00, 0x05, 0]);
    request(scan.step(Some([0x10, slot, 0, 0x0a, 3, 0, 0])));
    request(scan.step(Some([0x10, slot, 0, 0x0a, 0, 0, 0])));
    request(scan.step(Some([0x10, slot, 0, 0x0a, 7, 0, 0])));
    let r = request(scan.step(None));
    assert_eq!(r, [0x10, slot, 3, 0x2a, 0, 0, 0]);
    let r = request(scan.step(Some([0x10, slot, 3, 0x2a, 3, 0, 0])));
    assert_eq!(r, [0x10, slot, 7, 0x0a, 0, 0, 0]);
    scan.step(Some([0x10, slot, 7, 0x0a, level, 0, 0]));
}

#[test]
fn silent_receiver_gives_an_offline_mouse() {
    let (scan, first) = ReceiverScan::start(receiver("rx", "USB Receiver"));
    assert_eq!(first, [0x10, 1, 0, 0x1a, 0, 0, 0x55]);
    let mut scan = scan;
    let mut pinged = vec![1u8];
    loop {
        match scan.step(None) {
            ScanAction::Send(r) => pinged.push(r[1]),
            ScanAction::Finished => break,
        }
    }
    assert_eq!(pinged, vec![1, 2, 3, 4, 5, 6, 0xff]);
    let readings = logitech_readings(vec![scan]);
    assert_eq!(
        readings,
        vec![DeviceReading {
            device_kind: DeviceKind::Mouse,
            name: "USB Receiver".to_string(),
            stable_id: "rx#hidpp-receiver".to_string(),
            battery_percent: None,
            power: PowerState::Offline,
        }]
    );
}

#[test]
fn unreachable_receiver_gives_an_offline_mouse() {
    let readings = logitech_readings(vec![ReceiverScan::unreachable(receiver("rx", ""))]);
    assert_eq!(readings.len(), 1);
    assert_eq!(readings[0].name, "Logitech mouse");
    assert_eq!(readings[0].stable_id, "rx#hidpp-receiver");
    assert_eq!(readings[0].battery_percent, None);
    assert_eq!(readings[0].power, PowerState::Offline);
}

#[test]
fn a_ping_that_shows_no_device_moves_to_the_next_slot() {
    let (mut scan, _) = ReceiverScan::start(receiver("rx", "R"));
    // An error reply and a reply from another slot do not count as answers.
    let r = request(scan.step(Some([0x10, 1, 0x8f, 0x1a, 1, 0, 0])));
    assert_eq!(r, [0x10, 2, 0, 0x1a, 0, 0, 0x55]);
    let r = request(scan.step(Some([0x10, 3, 0, 0x1a, 4, 5, 0x55])));
    assert_eq!(r, [0x10, 3, 0, 0x1a, 0, 0, 0x55]);
    assert!(!scan.answered);
}

#[test]
fn receiver_scan_reads_each_answering_slot() {
    let (mut scan, _) = ReceiverScan::start(receiver("rx", "Receiver"));
    request(scan.step(None));
    read_mouse_on(&mut scan, 2, 80);
    let r = request(scan.step(None));
    assert_eq!(r, [0x10, 4, 0, 0x1a, 0, 0, 0x55]);
    request(scan.step(None));
    request(scan.step(None));
    let r = request(scan.step(None));
    assert_eq!(r, [0x10, 0xff, 0, 0x1a, 0, 0, 0x55]);
    read_mouse_on(&mut scan, 0xff, 30);
    assert_eq!(scan.found_slots, vec![2, 0xff]);
    let readings = logitech_readings(vec![scan]);
    assert_eq!(readings.len(), 2);
    assert_eq!(readings[0].stable_id, "rx#hidpp-slot-2");
    assert_eq!(readings[0].name, "Receiver");
    assert_eq!(readings[0].battery_percent, Some(80));
    assert_eq!(readings[0].power, PowerState::Discharging);
    assert_eq!(readings[1].stable_id, "rx#hidpp-slot-255");
    assert_eq!(readings[1].battery_percent, Some(30));
}

#[test]
fn receiver_with_only_a_keyboard_gives_nothing() {
    let (mut scan, _) = ReceiverScan::start(receiver("rx", "Receiver"));
    request(scan.step(Some([0x10, 1, 0, 0x1a, 4, 5, 0x55])));
    request(scan.step(Some([0x10, 1, 0, 0x0a, 3, 0, 0])));
    request(scan.step(Some([0x10, 1, 0, 0x0a, 4, 0, 0])));
    request(scan.step(None));
    let r = request(scan.step(Some([0x10, 1, 3, 0x2a, 0, 0, 0])));
    assert_eq!(r, [0x10, 2, 0, 0x1a, 0, 0, 0x55]);
    let scan = finish_silently(scan);
    assert!(scan.answered);
    assert!(logitech_readings(vec![scan]).is_empty());
}

#[test]
fn readings_keep_real_mice_first_and_ids_apart() {
    let (mut first, _) = ReceiverScan::start(receiver("a", "Receiver A"));
    read_mouse_on(&mut first, 1, 55);
    let first = finish_silently(first);
    let (second, _) = ReceiverScan::start(receiver("b", ""));
    let second = finish_silently(second);
    let (mut third, _) = ReceiverScan::start(receiver("c", "Receiver C"));
    read_mouse_on(&mut third, 1, 65);
    let third = finish_silently(third);
    let readings = logitech_readings(vec![first, second, third]);
    let ids: Vec<&str> = readings.iter().map(|r| r.stable_id.as_str()).collect();
    assert_eq!(ids, vec!["a#hidpp-slot-1", "c#hidpp-slot-1", "b#hidpp-receiver"]);
    assert_eq!(readings[2].name, "Logitech mouse");
    assert!(readings.iter().all(|r| r.device_kind == DeviceKind::Mouse));
}

#[test]
fn headset_reading_is_offline_exactly_without_a_level() {
    let info = EnumeratedDevice { path: "hs".to_string(), product: String::new(), usage_page: 0x01c0, usage: 1 };
    let answered = hyperx_reading(&info, Some(100));
    assert_eq!(answered.battery_percent, Some(100));
    assert_eq!(answered.power, PowerState::Unknown);
    assert_eq!(answered.name, "HyperX Cloud III S Wireless");
    let silent = hyperx_reading(&info, None);
    assert_eq!(silent.power, PowerState::Offline);
}
