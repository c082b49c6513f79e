use battery_status::native_devices::PowerState;
use battery_status::notify::{low_battery_message, should_alert, AlertState, Notifier};

#[test]
fn zero_disables_and_rearms_an_episode() {
    let mut state = AlertState::default();
    assert!(!should_alert(&mut state, Some(5), PowerState::Discharging, 0));
    assert!(should_alert(&mut state, Some(5), PowerState::Discharging, 10));
    assert!(!should_alert(&mut state, Some(5), PowerState::Discharging, 10));
    assert!(!should_alert(&mut state, Some(5), PowerState::Discharging, 0));
    assert!(should_alert(&mut state, Some(5), PowerState::Discharging, 10));
}

#[test]
fn exact_threshold_alerts_only_once() {
    let mut state = AlertState::default();
    assert!(should_alert(&mut state, Some(10), PowerState::Discharging, 10));
    assert!(!should_alert(&mut state, Some(10), PowerState::Discharging, 10));
}

#[test]
fn recovery_and_charging_rearm() {
    let mut state = AlertState::default();
    assert!(should_alert(&mut state, Some(8), PowerState::Discharging, 10));
    assert!(!should_alert(&mut state, Some(11), PowerState::Discharging, 10));
    assert!(should_alert(&mut state, Some(8), PowerState::Discharging, 10));
    assert!(!should_alert(&mut state, Some(8), PowerState::Charging, 10));
    assert!(should_alert(&mut state, Some(8), PowerState::Discharging, 10));
}

#[test]
fn devices_keep_independent_alert_history() {
    let mut headset = AlertState::default();
    let mut mouse = AlertState::default();
    assert!(should_alert(&mut headset, Some(5), PowerState::Discharging, 10));
    assert!(should_alert(&mut mouse, Some(5), PowerState::Discharging, 10));
}

#[test]
fn offline_reading_keeps_the_episode() {
    let mut state = AlertState::default();
    assert!(should_alert(&mut state, Some(5), PowerState::Discharging, 10));
    assert!(!should_alert(&mut state, None, PowerState::Offline, 10));
    assert!(state.low_alerted);
    assert!(!should_alert(&mut state, Some(5), PowerState::Discharging, 10));
}

#[test]
fn unknown_power_alerts_and_full_rearms() {
    let mut state = AlertState::default();
    assert!(should_alert(&mut state, Some(20), PowerState::Unknown, 20));
    assert!(!should_alert(&mut state, Some(100), PowerState::Full, 20));
    assert!(!state.low_alerted);
}

#[test]
fn threshold_above_hundred_counts_as_hundred() {
    let mut state = AlertState::default();
    assert!(should_alert(&mut state, Some(100), PowerState::Discharging, 250));
}

#[test]
fn notifier_keeps_history_per_device_and_writes_the_body() {
    let mut notifier = Notifier::new();
    assert_eq!(
        notifier.update("headset", Some(5), PowerState::Discharging, 10),
        Some("Battery low (5%)".to_string())
    );
    assert_eq!(notifier.update("headset", Some(5), PowerState::Discharging, 10), None);
    assert_eq!(
        notifier.update("mouse", Some(9), PowerState::Unknown, 10),
        Some("Battery low (9%)".to_string())
    );
    assert_eq!(notifier.update("mouse", Some(50), PowerState::Discharging, 10), None);
    assert_eq!(
        notifier.update("mouse", Some(10), PowerState::Discharging, 10),
        Some("Battery low (10%)".to_string())
    );
    assert_eq!(notifier.update("headset", Some(4), PowerState::Discharging, 10), None);
}

#[test]
fn low_battery_message_renders_all_digit_counts() {
    assert_eq!(low_battery_message(0), "Battery low (0%)");
    assert_eq!(low_battery_message(42), "Battery low (42%)");
    assert_eq!(low_battery_message(100), "Battery low (100%)");
}
