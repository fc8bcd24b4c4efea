use omablue_bt::app::BluetoothAction;
use omablue_bt::bluetooth::devices::{device_path, mac_to_path, replace_colons, Device1Proxy, ADAPTER_PATH, DEVICE_INTERFACE};
use omablue_bt::bluetooth::{dispatch_call, BusCall};

#[test]
fn mac_to_path_uppercases_and_underscores() {
    assert_eq!(mac_to_path("aa:bb:cc:dd:ee:ff"), "/org/bluez/hci0/dev_AA_BB_CC_DD_EE_FF");
    assert_eq!(mac_to_path("00:1A:7d:DA:71:13"), "/org/bluez/hci0/dev_00_1A_7D_DA_71_13");
    assert_eq!(mac_to_path(""), "/org/bluez/hci0/dev_");
    assert!(mac_to_path("aa:bb").starts_with(ADAPTER_PATH));
    assert_eq!(DEVICE_INTERFACE, "org.bluez.Device1");
}

#[test]
fn replace_and_prefix() {
    assert_eq!(replace_colons("a:b::c"), "a_b__c");
    assert_eq!(device_path("X_Y"), "/org/bluez/hci0/dev_X_Y");
}

#[test]
fn device_proxy_name_fallback() {
    let d = Device1Proxy::from_name_lookup("AA:BB", Some("Speaker".to_string()));
    assert_eq!(d.address, "AA:BB");
    assert_eq!(d.name, "Speaker");
    let d = Device1Proxy::from_name_lookup("AA:BB", None);
    assert_eq!(d.name, "Device-AA:BB");
    assert_eq!(d.info(), ("Device-AA:BB".to_string(), false, false, false));
}

#[test]
fn dispatch_calls() {
    match dispatch_call(&BluetoothAction::Connect("aa:bb".to_string())) {
        BusCall::DeviceMethod { address, path, method } => {
            assert_eq!(address, "aa:bb");
            assert_eq!(path, "/org/bluez/hci0/dev_AA_BB");
            assert_eq!(method, "Connect");
        }
        other => panic!("unexpected {:?}", other),
    }
    match dispatch_call(&BluetoothAction::Disconnect("aa:bb".to_string())) {
        BusCall::DeviceMethod { method, .. } => assert_eq!(method, "Disconnect"),
        other => panic!("unexpected {:?}", other),
    }
    match dispatch_call(&BluetoothAction::SetTrusted("aa:bb".to_string())) {
        BusCall::SetTrusted { path, trusted, .. } => {
            assert_eq!(path, "/org/bluez/hci0/dev_AA_BB");
            assert!(trusted);
        }
        other => panic!("unexpected {:?}", other),
    }
    assert!(matches!(dispatch_call(&BluetoothAction::TogglePower), BusCall::TogglePower));
    assert!(matches!(dispatch_call(&BluetoothAction::StartScan), BusCall::StartDiscovery));
    assert!(matches!(dispatch_call(&BluetoothAction::StopScan), BusCall::StopDiscovery));
    assert!(matches!(dispatch_call(&BluetoothAction::Pair), BusCall::Nothing));
}
