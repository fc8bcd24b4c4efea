use omablue_bt::app::{AppState, BluetoothDevice};
use omablue_bt::events::BluetoothEvent;
use omablue_bt::ui::layout::{device_details_text, device_row_colors, device_row_text, status_bar_colors, status_bar_text};
use omablue_bt::ui::theme::ThemeColor;

fn device(connected: bool, battery: Option<u8>) -> BluetoothDevice {
    BluetoothDevice {
        address: "AA:BB".to_string(),
        name: "Buds".to_string(),
        connected,
        paired: true,
        trusted: false,
        battery,
    }
}

#[test]
fn device_rows() {
    assert_eq!(device_row_text(&device(true, Some(87))), "\u{f00b1} Buds \u{f0079}87%");
    assert_eq!(device_row_text(&device(false, None)), "\u{f00b2} Buds");
    assert_eq!(device_row_text(&device(false, Some(5))), "\u{f00b2} Buds \u{f0079}5%");
    assert_eq!(device_row_text(&device(false, Some(100))), "\u{f00b2} Buds \u{f0079}100%");
    assert_eq!(device_row_text(&device(false, Some(0))), "\u{f00b2} Buds \u{f0079}0%");
    assert_eq!(device_row_text(&device(false, Some(255))), "\u{f00b2} Buds \u{f0079}255%");
}

#[test]
fn details_panel() {
    let mut app = AppState::new(None);
    assert_eq!(device_details_text(&app), "No devices selected");
    app.devices.push(device(true, Some(42)));
    assert_eq!(
        device_details_text(&app),
        "Name:     Buds\nMAC:      AA:BB\nState:    Connected\nPaired:   Yes\nTrusted:  No\nBattery:  42%"
    );
    app.devices[0] = device(false, None);
    assert_eq!(
        device_details_text(&app),
        "Name:     Buds\nMAC:      AA:BB\nState:    Disconnected\nPaired:   Yes\nTrusted:  No\nBattery:  N/A"
    );
}

#[test]
fn status_bar() {
    let mut app = AppState::new(None);
    assert_eq!(status_bar_text(&app), "Adapter: OFF | Scan: Inactive | Loading Bluetooth devices...");
    app.apply_bluetooth_event(BluetoothEvent::AdapterPowered(true));
    app.apply_bluetooth_event(BluetoothEvent::ScanStarted);
    assert_eq!(status_bar_text(&app), "Adapter: ON | Scan: ACTIVE | Scanning for Bluetooth devices...");
    app.status_msg = None;
    assert_eq!(status_bar_text(&app), "Adapter: ON | Scan: ACTIVE");
    assert_eq!(status_bar_colors(&app), (ThemeColor::Rgb(0xcd, 0xd6, 0xf4), ThemeColor::Rgb(0x1e, 0x1e, 0x2e)));
    app.apply_bluetooth_event(BluetoothEvent::Error("x".to_string()));
    assert_eq!(status_bar_colors(&app).0, ThemeColor::Rgb(0xf3, 0x8b, 0xa8));
}

#[test]
fn row_colors() {
    let mut app = AppState::new(None);
    app.devices.push(device(true, None));
    app.devices.push(device(true, None));
    app.devices.push(device(false, None));
    assert_eq!(device_row_colors(&app, 0), (ThemeColor::Rgb(0x1e, 0x1e, 0x2e), Some(ThemeColor::Rgb(0x89, 0xb4, 0xfa))));
    assert_eq!(device_row_colors(&app, 1), (ThemeColor::Rgb(0xa6, 0xe3, 0xa1), None));
    assert_eq!(device_row_colors(&app, 2), (ThemeColor::Rgb(0xcd, 0xd6, 0xf4), None));
}
