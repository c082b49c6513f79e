//! Battery readings for a headset and a mouse, the alert rules built on them,
//! and the tray artwork that shows them.

pub mod native_devices;
pub mod hidpp;
pub mod text;
pub mod notify;
pub mod tray_icons;
pub mod hid_path;
pub mod logitech;
pub mod app;
pub mod panel;
pub mod settings;
