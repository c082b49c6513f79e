use battery_status::app::{device_text, mouse_available, needs_confirmation, poll_interval_secs, summarize};
use battery_status::native_devices::{DeviceKind, DeviceReading, PowerState};
use battery_status::panel::{panel_row, ClickTarget, PanelAction, PanelInput, PanelState, AMBER, GREEN, MUTED, WHITE};
use battery_status::settings::Settings;

fn reading(kind: DeviceKind, name: &str, percent: Option<u8>, power: PowerState) -> DeviceReading {
    DeviceReading {
        device_kind: kind,
        name: name.to_string(),
        stable_id: format!("{name}-id"),
        battery_percent: percent,
        power,
    }
}

#[test]
fn tooltip_texts() {
    assert_eq!(device_text("Mouse", Some(80), PowerState::Charging), "Mouse: 80% (Charging)");
    assert_eq!(device_text("Mouse", Some(100), PowerState::Full), "Mouse: 100% (Full)");
    assert_eq!(device_text("Headset", Some(7), PowerState::Unknown), "Headset: 7%");
    assert_eq!(device_text("Headset", None, PowerState::Offline), "Headset: disconnected");
    assert_eq!(device_text("Headset", None, PowerState::Unknown), "Headset: battery unavailable");
}

#[test]
fn summary_uses_the_first_reading_of_a_kind() {
    let readings = vec![
        reading(DeviceKind::Mouse, "M1", Some(40), PowerState::Discharging),
        reading(DeviceKind::Mouse, "M2", Some(90), PowerState::Discharging),
    ];
    let mouse = summarize(&readings, DeviceKind::Mouse);
    assert_eq!(mouse.name, "M1");
    assert_eq!(mouse.stable_id.as_deref(), Some("M1-id"));
    assert_eq!(mouse.percent, Some(40));
    let headset = summarize(&readings, DeviceKind::Headset);
    assert_eq!(headset.name, "Headset");
    assert_eq!(headset.stable_id, None);
    assert_eq!(headset.percent, None);
    assert_eq!(headset.power, PowerState::Offline);
}

#[test]
fn polling_confirms_a_lost_mouse_and_retries_quickly() {
    let with_mouse = vec![reading(DeviceKind::Mouse, "M", Some(40), PowerState::Discharging)];
    let without = vec![
        reading(DeviceKind::Mouse, "M", None, PowerState::Offline),
        reading(DeviceKind::Headset, "H", Some(40), PowerState::Unknown),
    ];
    assert!(mouse_available(&with_mouse));
    assert!(!mouse_available(&without));
    assert!(needs_confirmation(true, &without));
    assert!(!needs_confirmation(false, &without));
    assert!(!needs_confirmation(true, &with_mouse));
    assert_eq!(poll_interval_secs(true), 600);
    assert_eq!(poll_interval_secs(false), 2);
}

#[test]
fn stepper_changes_threshold_by_ten_within_range() {
    let mut panel = PanelState::new();
    panel.set_alert_threshold(95);
    let out = panel.handle_event(PanelInput::Click(ClickTarget::StepperPlus));
    assert_eq!(out.action, Some(PanelAction::SetAlertThreshold(100)));
    panel.set_alert_threshold(5);
    let out = panel.handle_event(PanelInput::Click(ClickTarget::StepperMinus));
    assert_eq!(out.action, Some(PanelAction::SetAlertThreshold(0)));
    panel.set_alert_threshold(250);
    assert_eq!(panel.alert_threshold, 100);
}

#[test]
fn typing_an_exact_threshold() {
    let mut panel = PanelState::new();
    panel.show();
    assert!(panel.handle_event(PanelInput::Click(ClickTarget::StepperValue)).action.is_none());
    assert!(panel.threshold_editing);
    let out = panel.handle_event(PanelInput::Text("4".into()));
    assert_eq!(out.action, Some(PanelAction::SetAlertThreshold(4)));
    let out = panel.handle_event(PanelInput::Text("2".into()));
    assert_eq!(out.action, Some(PanelAction::SetAlertThreshold(42)));
    let out = panel.handle_event(PanelInput::Text("7".into()));
    assert_eq!(out.action, Some(PanelAction::SetAlertThreshold(100)));
    let out = panel.handle_event(PanelInput::Backspace);
    assert_eq!(out.action, Some(PanelAction::SetAlertThreshold(10)));
    let out = panel.handle_event(PanelInput::Text("R".into()));
    assert_eq!(out.action, Some(PanelAction::Refresh));
    panel.handle_event(PanelInput::Enter);
    assert!(!panel.threshold_editing);
    let out = panel.handle_event(PanelInput::Text("3".into()));
    assert_eq!(out.action, None);
}

#[test]
fn panel_closes_on_escape_focus_loss_and_outside_clicks() {
    let mut panel = PanelState::new();
    panel.show();
    assert!(!panel.handle_event(PanelInput::Focused(false)).close_window);
    panel.handle_event(PanelInput::Focused(true));
    assert!(panel.handle_event(PanelInput::Focused(false)).close_window);
    assert!(!panel.visible);

    panel.show();
    // The opening click is still held: it does not dismiss the panel.
    assert!(!panel.tick(false, Some((true, false))).close_window);
    assert!(!panel.tick(false, Some((false, false))).close_window);
    assert!(!panel.tick(false, Some((true, true))).close_window);
    assert!(!panel.tick(false, Some((false, true))).close_window);
    assert!(panel.tick(false, Some((true, false))).close_window);
    assert!(!panel.visible);

    panel.show();
    assert!(panel.handle_event(PanelInput::Escape).close_window);
}

#[test]
fn caret_blinks_only_while_editing() {
    let mut panel = PanelState::new();
    panel.show();
    assert!(!panel.tick(true, None).redraw);
    panel.handle_event(PanelInput::Click(ClickTarget::StepperValue));
    assert!(panel.caret_visible);
    assert!(panel.tick(true, None).redraw);
    assert!(!panel.caret_visible);
    let out = panel.handle_event(PanelInput::Click(ClickTarget::Elsewhere));
    assert!(out.redraw);
    assert!(!panel.threshold_editing);
}

#[test]
fn settings_load_save_and_startup() {
    assert_eq!(Settings::from_stored(Some(30), None).alert_threshold, 30);
    assert_eq!(Settings::from_stored(Some(1000), None).alert_threshold, 100);
    assert_eq!(Settings::from_stored(None, Some(1)).alert_threshold, 10);
    assert_eq!(Settings::from_stored(None, Some(0)).alert_threshold, 0);
    assert_eq!(Settings::from_stored(None, None).alert_threshold, 0);
    assert_eq!(Settings::default().alert_threshold, 0);
    let saved = Settings { alert_threshold: 55 };
    assert_eq!(saved.stored_threshold(), 55);
    assert_eq!(Settings::from_stored(Some(saved.stored_threshold()), None).alert_threshold, 55);
    assert_eq!(Settings { alert_threshold: 200 }.stored_threshold(), 100);
    assert!(Settings::startup_entry_enabled(Some("\"C:\\app.exe\"")));
    assert!(!Settings::startup_entry_enabled(Some("")));
    assert!(!Settings::startup_entry_enabled(None));
    assert_eq!(Settings::startup_command("C:\\app.exe"), "\"C:\\app.exe\"");
}

#[test]
fn panel_rows_show_status_value_and_colors() {
    let readings = vec![
        reading(DeviceKind::Headset, "H", Some(15), PowerState::Unknown),
        reading(DeviceKind::Mouse, "M", Some(80), PowerState::Charging),
    ];
    let headset = panel_row(&readings, DeviceKind::Headset);
    assert_eq!(headset.title, "HyperX Cloud III S");
    assert_eq!(headset.status, "Connected");
    assert_eq!(headset.value, "15%");
    assert_eq!(headset.accent, AMBER);
    assert_eq!(headset.glyph_color, AMBER);
    assert_eq!(headset.status_color, MUTED);
    assert_eq!(headset.fill, Some(15));
    let mouse = panel_row(&readings, DeviceKind::Mouse);
    assert_eq!(mouse.title, "Logitech PRO X 2 DEX");
    assert_eq!(mouse.status, "Charging");
    assert_eq!(mouse.accent, GREEN);
    assert_eq!(mouse.status_color, GREEN);
    let none = panel_row(&Vec::new(), DeviceKind::Mouse);
    assert_eq!(none.status, "Not connected");
    assert_eq!(none.value, "\u{2014}");
    assert_eq!(none.accent, WHITE);
    assert_eq!(none.glyph_color, MUTED);
    assert_eq!(none.fill, None);
}
