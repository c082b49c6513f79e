use battery_status::hidpp::{
    battery_request, matching_reply, parse_battery_1001_power, parse_hidpp_battery,
    request_for_attempt, voltage_to_percent,
};
use battery_status::native_devices::PowerState;

#[test]
fn accepts_dex_long_reply_and_rejects_unrelated_or_truncated_reports() {
    let request = [0x10, 1, 6, 0x1a, 0, 0, 0];
    let mut reply = [0u8; 20];
    reply[..7].copy_from_slice(&[0x11, 1, 6, 0x1a, 79, 8, 0]);
    assert_eq!(
        matching_reply(&request, &reply),
        Some([0x11, 1, 6, 0x1a, 79, 8, 0])
    );
    assert!(matching_reply(&request, &reply[..7]).is_none());
    reply[3] = 0x0a;
    assert!(matching_reply(&request, &reply).is_none());
}

#[test]
fn parses_unified_battery_statuses() {
    assert_eq!(
        parse_hidpp_battery(0x1000, &[0x10, 1, 2, 0x0a, 76, 0, 0]),
        Some((76, PowerState::Discharging))
    );
    assert_eq!(
        parse_hidpp_battery(0x1000, &[0x10, 1, 2, 0x0a, 76, 0, 1]),
        Some((76, PowerState::Charging))
    );
    assert_eq!(
        parse_hidpp_battery(0x1004, &[0x10, 1, 2, 0x1a, 100, 0, 3]),
        Some((100, PowerState::Full))
    );
}

#[test]
fn parses_voltage_battery_flags_and_lookup() {
    assert_eq!(
        parse_hidpp_battery(0x1001, &[0x10, 1, 2, 0x0a, 0x0e, 0xe4, 0]),
        Some((50, PowerState::Discharging))
    );
    assert_eq!(parse_battery_1001_power(0x80), PowerState::Charging);
    assert_eq!(parse_battery_1001_power(0x81), PowerState::Full);
    assert_eq!(voltage_to_percent(4_200), 100);
    assert_eq!(voltage_to_percent(3_500), 0);
}

#[test]
fn creates_correct_read_only_battery_requests() {
    assert_eq!(battery_request(1, 0x1000, 7), [0x10, 1, 7, 0x0a, 0, 0, 0]);
    assert_eq!(battery_request(2, 0x1004, 9), [0x10, 2, 9, 0x1a, 0, 0, 0]);
}

#[test]
fn retries_use_distinct_software_ids_to_ignore_late_replies() {
    let request = [0x10, 1, 6, 0x1a, 0, 0, 0];
    let first = request_for_attempt(request, 0);
    let retry = request_for_attempt(request, 1);
    assert_eq!(first[3], 0x1a);
    assert_eq!(retry[3], 0x1b);
    let late_first_reply = [0x10, 1, 6, 0x1a, 77, 0, 0];
    assert!(matching_reply(&retry, &late_first_reply).is_none());
}

#[test]
fn rejects_error_index_and_wrong_report_sizes() {
    let request = [0x10, 1, 0x8f, 0x1a, 0, 0, 0];
    assert!(matching_reply(&request, &[0x10, 1, 0x8f, 0x1a, 0, 0, 0]).is_none());
    let request = [0x10, 1, 6, 0x1a, 0, 0, 0];
    assert!(matching_reply(&request, &[0x10, 1, 6, 0x1a, 0, 0]).is_none());
    assert!(matching_reply(&request, &[]).is_none());
    assert_eq!(
        matching_reply(&request, &[0x10, 1, 6, 0x1a, 5, 6, 7]),
        Some([0x10, 1, 6, 0x1a, 5, 6, 7])
    );
}

#[test]
fn voltage_table_edges_and_monotonic_examples() {
    assert_eq!(voltage_to_percent(4_187), 100);
    assert_eq!(voltage_to_percent(4_186), 99);
    assert_eq!(voltage_to_percent(3_538), 1);
    assert_eq!(voltage_to_percent(3_537), 0);
    assert_eq!(voltage_to_percent(3_812), 50);
    assert!(voltage_to_percent(3_700) <= voltage_to_percent(3_900));
}

#[test]
fn battery_statuses_for_each_feature_and_out_of_range_levels() {
    assert_eq!(
        parse_hidpp_battery(0x1000, &[0x10, 1, 2, 0x0a, 40, 0, 4]),
        Some((40, PowerState::Charging))
    );
    assert_eq!(
        parse_hidpp_battery(0x1000, &[0x10, 1, 2, 0x0a, 40, 0, 9]),
        Some((40, PowerState::Unknown))
    );
    assert_eq!(
        parse_hidpp_battery(0x1004, &[0x10, 1, 2, 0x1a, 40, 0, 4]),
        Some((40, PowerState::Unknown))
    );
    assert_eq!(parse_hidpp_battery(0x1004, &[0x10, 1, 2, 0x1a, 101, 0, 0]), None);
    assert_eq!(parse_hidpp_battery(0x2000, &[0x10, 1, 2, 0x1a, 40, 0, 0]), None);
    assert_eq!(parse_battery_1001_power(0x01), PowerState::Discharging);
    assert_eq!(parse_battery_1001_power(0x82), PowerState::Unknown);
    assert_eq!(parse_battery_1001_power(0x87), PowerState::Unknown);
}
