use omablue_bt::app::{AppMode, AppState, BluetoothAction};
use omablue_bt::events::{AppEvent, BluetoothEvent, KeyCodeInput, KeyInput};
use omablue_bt::ui::theme::ThemeColors;

fn key(code: KeyCodeInput) -> KeyInput {
    KeyInput { code, modifiers: 0 }
}

fn ch(c: char) -> KeyInput {
    key(KeyCodeInput::Char(c))
}

fn discovered(address: &str, name: &str) -> BluetoothEvent {
    BluetoothEvent::DeviceDiscovered { address: address.to_string(), name: name.to_string() }
}

fn state_with(devices: &[(&str, &str)]) -> AppState {
    let mut app = AppState::new(None);
    for (a, n) in devices {
        app.apply_bluetooth_event(discovered(a, n));
    }
    app
}

fn addresses(app: &AppState) -> Vec<String> {
    app.devices.iter().map(|d| d.address.clone()).collect()
}

#[test]
fn test_scan_placeholder() {
    assert!(true);
}

#[test]
fn new_state_uses_loaded_or_fallback_theme() {
    let app = AppState::new(None);
    assert_eq!(app.theme.background, "#1e1e2e");
    assert_eq!(app.mode, AppMode::DeviceList);
    assert!(app.devices.is_empty());
    assert_eq!(app.selected, 0);
    assert!(!app.adapter_powered && !app.scanning && !app.quit);
    assert_eq!(app.status_msg.as_deref(), Some("Loading Bluetooth devices..."));
    assert!(app.error_msg.is_none());
    let mut theme = ThemeColors::fallback();
    theme.background = "#000000".to_string();
    let app = AppState::new(Some(theme));
    assert_eq!(app.theme.background, "#000000");
}

#[test]
fn discovery_adds_each_address_once() {
    let mut app = state_with(&[("AA:BB", "Headphones")]);
    assert_eq!(app.apply_bluetooth_event(discovered("AA:BB", "Other name")), None);
    assert_eq!(app.devices.len(), 1);
    assert_eq!(app.devices[0].name, "Headphones");
    assert!(!app.devices[0].connected && !app.devices[0].paired && !app.devices[0].trusted);
    assert_eq!(app.devices[0].battery, None);
    app.apply_bluetooth_event(discovered("CC:DD", "Mouse"));
    assert_eq!(addresses(&app), vec!["AA:BB", "CC:DD"]);
}

#[test]
fn connection_events_update_device_and_status() {
    let mut app = state_with(&[("AA:BB", "Headphones"), ("CC:DD", "Mouse")]);
    let notice = app.apply_bluetooth_event(BluetoothEvent::DeviceConnected("CC:DD".to_string()));
    assert_eq!(notice.as_deref(), Some("Mouse"));
    assert!(app.devices[1].connected);
    assert!(!app.devices[0].connected);
    assert_eq!(app.status_msg.as_deref(), Some("Connected: Mouse"));
    let notice = app.apply_bluetooth_event(BluetoothEvent::DeviceDisconnected("CC:DD".to_string()));
    assert_eq!(notice, None);
    assert!(!app.devices[1].connected);
    assert_eq!(app.status_msg.as_deref(), Some("Disconnected: Mouse"));
}

#[test]
fn connection_of_unknown_device_changes_nothing() {
    let mut app = state_with(&[("AA:BB", "Headphones")]);
    assert_eq!(app.apply_bluetooth_event(BluetoothEvent::DeviceConnected("EE:FF".to_string())), None);
    assert!(!app.devices[0].connected);
    assert_eq!(app.status_msg.as_deref(), Some("Loading Bluetooth devices..."));
}

#[test]
fn removal_drops_device_and_keeps_selection_in_range() {
    let mut app = state_with(&[("A", "a"), ("B", "b"), ("C", "c")]);
    app.selected = 2;
    app.apply_bluetooth_event(BluetoothEvent::DeviceRemoved("C".to_string()));
    assert_eq!(addresses(&app), vec!["A", "B"]);
    assert_eq!(app.selected, 1);
    app.apply_bluetooth_event(BluetoothEvent::DeviceRemoved("A".to_string()));
    assert_eq!(addresses(&app), vec!["B"]);
    assert_eq!(app.selected, 0);
    app.apply_bluetooth_event(BluetoothEvent::DeviceRemoved("B".to_string()));
    assert!(app.devices.is_empty());
    assert_eq!(app.selected, 0);
    app.apply_bluetooth_event(BluetoothEvent::DeviceRemoved("Z".to_string()));
    assert_eq!(app.selected, 0);
}

#[test]
fn adapter_scan_and_error_events() {
    let mut app = AppState::new(None);
    app.apply_bluetooth_event(BluetoothEvent::AdapterPowered(true));
    assert!(app.adapter_powered);
    assert_eq!(app.status_msg.as_deref(), Some("Bluetooth: ON"));
    app.apply_bluetooth_event(BluetoothEvent::AdapterPowered(false));
    assert_eq!(app.status_msg.as_deref(), Some("Bluetooth: OFF"));
    app.apply_bluetooth_event(BluetoothEvent::ScanStarted);
    assert!(app.scanning);
    assert_eq!(app.status_msg.as_deref(), Some("Scanning for Bluetooth devices..."));
    app.apply_bluetooth_event(BluetoothEvent::ScanStopped);
    assert!(!app.scanning);
    assert_eq!(app.status_msg.as_deref(), Some("Scan stopped"));
    app.apply_bluetooth_event(BluetoothEvent::Error("boom".to_string()));
    assert_eq!(app.error_msg.as_deref(), Some("boom"));
}

#[test]
fn navigation_wraps_and_down_up_restores() {
    let mut app = state_with(&[("A", "a"), ("B", "b"), ("C", "c")]);
    assert!(app.handle_key(key(KeyCodeInput::Down)).is_none());
    assert_eq!(app.selected, 1);
    app.handle_key(ch('j'));
    app.handle_key(ch('j'));
    assert_eq!(app.selected, 0);
    app.handle_key(ch('k'));
    assert_eq!(app.selected, 2);
    app.handle_key(key(KeyCodeInput::Down));
    app.handle_key(key(KeyCodeInput::Up));
    assert_eq!(app.selected, 2);
    let mut empty = AppState::new(None);
    empty.handle_key(ch('j'));
    empty.handle_key(ch('k'));
    assert_eq!(empty.selected, 0);
}

fn address_of(action: Option<BluetoothAction>) -> (String, String) {
    match action {
        Some(BluetoothAction::Connect(a)) => ("connect".to_string(), a),
        Some(BluetoothAction::Disconnect(a)) => ("disconnect".to_string(), a),
        Some(BluetoothAction::SetTrusted(a)) => ("trust".to_string(), a),
        other => (format!("{:?}", other), String::new()),
    }
}

#[test]
fn keys_ask_for_operations() {
    let mut app = state_with(&[("A", "a"), ("B", "b")]);
    assert_eq!(address_of(app.handle_key(key(KeyCodeInput::Enter))), ("connect".to_string(), "A".to_string()));
    app.apply_bluetooth_event(BluetoothEvent::DeviceConnected("A".to_string()));
    assert_eq!(address_of(app.handle_key(key(KeyCodeInput::Enter))), ("disconnect".to_string(), "A".to_string()));
    app.handle_key(ch('j'));
    assert_eq!(address_of(app.handle_key(ch('d'))), ("disconnect".to_string(), "B".to_string()));
    assert_eq!(
        address_of(app.handle_key(KeyInput { code: KeyCodeInput::Char('t'), modifiers: 1 })),
        ("trust".to_string(), "B".to_string())
    );
    assert!(matches!(app.handle_key(ch('t')), Some(BluetoothAction::TogglePower)));
    assert!(matches!(app.handle_key(ch('s')), Some(BluetoothAction::StartScan)));
    app.apply_bluetooth_event(BluetoothEvent::ScanStarted);
    assert!(matches!(app.handle_key(ch('s')), Some(BluetoothAction::StopScan)));
    assert!(matches!(app.handle_key(ch('p')), Some(BluetoothAction::Pair)));
    assert!(app.handle_key(ch('?')).is_none());
    assert!(app.handle_key(key(KeyCodeInput::Other)).is_none());
    assert_eq!(address_of(app.handle_key(ch('T'))), ("trust".to_string(), "B".to_string()));
    assert_eq!(
        address_of(app.handle_key(KeyInput { code: KeyCodeInput::Char('T'), modifiers: 1 })),
        ("trust".to_string(), "B".to_string())
    );
    assert!(!app.should_quit());
}

#[test]
fn keys_without_devices_ask_nothing() {
    let mut app = AppState::new(None);
    assert!(app.handle_key(key(KeyCodeInput::Enter)).is_none());
    assert!(app.handle_key(ch('d')).is_none());
    assert!(app.handle_key(KeyInput { code: KeyCodeInput::Char('t'), modifiers: 1 }).is_none());
    assert!(app.handle_key(ch('T')).is_none());
}

#[test]
fn quit_flag_is_never_cleared() {
    let mut app = state_with(&[("A", "a"), ("B", "b")]);
    app.handle_key(ch('j'));
    assert!(!app.should_quit());
    app.handle_key(key(KeyCodeInput::Esc));
    assert!(app.should_quit());
    for k in [ch('j'), ch('k'), ch('s'), ch('t'), ch('T'), key(KeyCodeInput::Enter), ch('x')] {
        app.handle_key(k);
        assert!(app.should_quit());
    }
    app.apply_bluetooth_event(BluetoothEvent::DeviceRemoved("A".to_string()));
    app.set_theme(ThemeColors::fallback());
    assert!(app.should_quit());
    assert!(app.handle_event(AppEvent::Tick).stop == false);
    assert!(app.handle_event(AppEvent::Key(ch('x'))).stop);
}

#[test]
fn quit_keys() {
    let mut app = AppState::new(None);
    assert!(app.handle_key(ch('q')).is_none());
    assert!(app.should_quit());
    let mut app = AppState::new(None);
    app.handle_key(key(KeyCodeInput::Esc));
    assert!(app.should_quit());
}

#[test]
fn main_loop_reactions() {
    let mut app = AppState::new(None);
    let r = app.handle_event(AppEvent::BluetoothEvent(discovered("A", "a")));
    assert!(r.action.is_none() && !r.stop);
    let r = app.handle_event(AppEvent::BluetoothEvent(BluetoothEvent::DeviceConnected("A".to_string())));
    assert_eq!(r.connected_notice.as_deref(), Some("a"));
    let r = app.handle_event(AppEvent::Key(key(KeyCodeInput::Enter)));
    assert!(matches!(r.action, Some(BluetoothAction::Disconnect(ref a)) if a == "A"));
    assert!(!r.stop);
    let mut theme = ThemeColors::fallback();
    theme.accent = "#123456".to_string();
    let r = app.handle_event(AppEvent::ThemeChanged(theme));
    assert!(!r.stop);
    assert_eq!(app.theme.accent, "#123456");
    assert!(!app.handle_event(AppEvent::Tick).stop);
    let r = app.handle_event(AppEvent::Key(ch('q')));
    assert!(r.stop && r.action.is_none());
    let mut app = AppState::new(None);
    assert!(app.handle_event(AppEvent::Quit).stop);
}

#[test]
fn set_theme_replaces_theme() {
    let mut app = AppState::new(None);
    let mut theme = ThemeColors::fallback();
    theme.foreground = "#ffffff".to_string();
    app.set_theme(theme);
    assert_eq!(app.theme.foreground, "#ffffff");
}
