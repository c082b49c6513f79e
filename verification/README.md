# battery_status

A tray indicator for a HyperX Cloud III S Wireless headset and a Logitech
PRO X SUPERLIGHT 2 DEX mouse.

`src/` is the verified library:

- `hidpp.rs` — HID++ 2.0 requests and replies: battery, feature and presence
  queries, software ids per retry, reply matching, error detection, battery
  status and voltage decoding.
- `logitech.rs` — receiver endpoint pairing, the per-slot query sequence that
  turns a paired device into a mouse reading, the scan of a receiver's slots,
  and the Logitech readings of a poll (an offline mouse for a receiver on
  which no device answers).
- `native_devices.rs` — reading types, the HyperX battery exchange, interface
  filters, diagnostics and the assembly of a poll.
- `hid_path.rs` — which HID interface paths belong to one receiver.
- `notify.rs` — low-battery alerts: one per discharge episode and device.
- `tray_icons.rs` — the 16-pixel device and percentage artwork and the
  numbering of the bundled battery icons.
- `panel.rs` — the panel's threshold control, dismissal rules and row content.
- `app.rs` — tooltip text, per-device summaries and poll scheduling.
- `settings.rs` — stored preferences.
- `text.rs` — decimal rendering.

`app/` is the Windows program around it: hidapi transfers, the tray and its
event loop, toast notifications, the registry, and the panel window.
