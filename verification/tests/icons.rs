use battery_status::native_devices::{DeviceKind, PowerState};
use battery_status::tray_icons::{battery_res_id_for, device_icon_rgba, number_icon_rgba, Theme};

fn pixel(img: &[u8], size: u32, x: u32, y: u32) -> [u8; 4] {
    let i = ((y * size + x) * 4) as usize;
    [img[i], img[i + 1], img[i + 2], img[i + 3]]
}

#[test]
fn known_level_with_unknown_charge_state_keeps_battery_fill() {
    assert_eq!(battery_res_id_for(Theme::Dark, Some(62), PowerState::Unknown), 30);
    assert_eq!(battery_res_id_for(Theme::Dark, None, PowerState::Unknown), 10);
    assert_eq!(battery_res_id_for(Theme::Dark, Some(0), PowerState::Discharging), 10);
    assert_eq!(battery_res_id_for(Theme::Dark, Some(100), PowerState::Charging), 51);
}

#[test]
fn resource_ids_cover_light_theme_and_offline() {
    assert_eq!(battery_res_id_for(Theme::Light, Some(25), PowerState::Discharging), 25);
    assert_eq!(battery_res_id_for(Theme::Light, Some(80), PowerState::Charging), 46);
    assert_eq!(battery_res_id_for(Theme::Light, Some(80), PowerState::Offline), 15);
    assert_eq!(battery_res_id_for(Theme::Dark, Some(13), PowerState::Full), 20);
    for level in 0..=100u8 {
        let id = battery_res_id_for(Theme::Dark, Some(level), PowerState::Discharging);
        assert!((10..=50).contains(&id) && id % 10 == 0);
    }
}

#[test]
fn device_icon_has_requested_size_and_colors() {
    for size in [16u32, 20, 24, 32] {
        let img = device_icon_rgba(DeviceKind::Headset, Theme::Dark, Some(62), PowerState::Unknown, size);
        assert_eq!(img.len(), (size * size * 4) as usize);
    }
    let img = device_icon_rgba(DeviceKind::Headset, Theme::Dark, Some(62), PowerState::Unknown, 16);
    // Top of the headband: row 0, columns 6..=9.
    assert_eq!(pixel(&img, 16, 6, 0), [245, 247, 250, 255]);
    assert_eq!(pixel(&img, 16, 5, 0), [0, 0, 0, 0]);
    // "62": the tens digit 6 starts at column 2, row 9 with 0b01110.
    assert_eq!(pixel(&img, 16, 2, 9), [0, 0, 0, 0]);
    assert_eq!(pixel(&img, 16, 3, 9), [245, 247, 250, 255]);
    // Third row of the 6: only its left column; no dashes on a known level.
    assert_eq!(pixel(&img, 16, 2, 11), [245, 247, 250, 255]);
    assert_eq!(pixel(&img, 16, 3, 11), [0, 0, 0, 0]);
    assert_eq!(pixel(&img, 16, 9, 11), [0, 0, 0, 0]);
}

#[test]
fn unavailable_device_icon_shows_grey_dashes_not_zero() {
    let img = device_icon_rgba(DeviceKind::Mouse, Theme::Light, None, PowerState::Offline, 16);
    let grey = [145, 150, 160, 255];
    for x in [3u32, 4, 5, 6, 9, 10, 11, 12] {
        assert_eq!(pixel(&img, 16, x, 11), grey);
        assert_eq!(pixel(&img, 16, x, 12), grey);
    }
    assert_eq!(pixel(&img, 16, 7, 11), [0, 0, 0, 0]);
    assert_eq!(pixel(&img, 16, 5, 9), [0, 0, 0, 0]);
    let zero = device_icon_rgba(DeviceKind::Mouse, Theme::Light, Some(0), PowerState::Discharging, 16);
    assert_ne!(img, zero);
}

#[test]
fn device_icon_colors_follow_state() {
    let charging = device_icon_rgba(DeviceKind::Mouse, Theme::Dark, Some(50), PowerState::Charging, 16);
    assert_eq!(pixel(&charging, 16, 5, 1), [54, 211, 130, 255]);
    assert_eq!(pixel(&charging, 16, 4, 1), [0, 0, 0, 0]);
    let low = device_icon_rgba(DeviceKind::Headset, Theme::Dark, Some(20), PowerState::Discharging, 16);
    assert_eq!(pixel(&low, 16, 6, 0), [245, 174, 57, 255]);
    let light = device_icon_rgba(DeviceKind::Headset, Theme::Light, Some(21), PowerState::Discharging, 16);
    assert_eq!(pixel(&light, 16, 6, 0), [35, 40, 47, 255]);
    let headset_charging = device_icon_rgba(DeviceKind::Headset, Theme::Dark, Some(50), PowerState::Charging, 16);
    assert_eq!(pixel(&headset_charging, 16, 6, 0), [245, 247, 250, 255]);
}

#[test]
fn full_charge_uses_three_narrow_digits() {
    let img = device_icon_rgba(DeviceKind::Mouse, Theme::Dark, Some(100), PowerState::Full, 16);
    let white = [245, 247, 250, 255];
    // Narrow "1": row 9 is 0b010 at column 2.
    assert_eq!(pixel(&img, 16, 3, 9), white);
    assert_eq!(pixel(&img, 16, 2, 9), [0, 0, 0, 0]);
    // Narrow "0" at columns 6 and 10: row 9 is 0b111.
    for x in [6u32, 7, 8, 10, 11, 12] {
        assert_eq!(pixel(&img, 16, x, 9), white);
    }
}

#[test]
fn doubled_icon_repeats_each_native_pixel() {
    let small = device_icon_rgba(DeviceKind::Headset, Theme::Dark, Some(7), PowerState::Unknown, 16);
    let big = device_icon_rgba(DeviceKind::Headset, Theme::Dark, Some(7), PowerState::Unknown, 32);
    for y in 0..32u32 {
        for x in 0..32u32 {
            assert_eq!(pixel(&big, 32, x, y), pixel(&small, 16, x / 2, y / 2));
        }
    }
}

#[test]
fn number_icon_draws_digits_and_dashes() {
    let img = number_icon_rgba(Theme::Dark, Some(42), PowerState::Discharging);
    assert_eq!(img.len(), 16 * 16 * 4);
    // Digit 4 at column 0: row 2 is 0b110011.
    assert_eq!(pixel(&img, 16, 0, 2), [255, 255, 255, 255]);
    assert_eq!(pixel(&img, 16, 2, 2), [0, 0, 0, 0]);
    let low = number_icon_rgba(Theme::Light, Some(5), PowerState::Discharging);
    // Digit 5 at column 5: row 2 is 0b111111.
    assert_eq!(pixel(&low, 16, 5, 2), [255, 0, 0, 255]);
    let offline = number_icon_rgba(Theme::Light, Some(5), PowerState::Offline);
    assert_eq!(pixel(&offline, 16, 2, 6), [0, 0, 0, 255]);
    assert_eq!(pixel(&offline, 16, 13, 7), [0, 0, 0, 255]);
    assert_eq!(pixel(&offline, 16, 7, 6), [0, 0, 0, 0]);
    let charging = number_icon_rgba(Theme::Dark, Some(100), PowerState::Charging);
    assert_eq!(pixel(&charging, 16, 2, 2), [0, 255, 0, 255]);
}
