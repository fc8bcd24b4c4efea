//! What the application asks of BlueZ: which D-Bus call each operation makes.
pub mod devices;

use crate::app::BluetoothAction;
use crate::bluetooth::devices::{device_path_spec, mac_to_path};
use vstd::prelude::*;
use vstd::string::*;

verus! {

/// A D-Bus call on BlueZ that carries out one operation.
#[derive(Debug, Clone)]
pub enum BusCall {
    /// Calls `method` on the `org.bluez.Device1` object at `path`.
    DeviceMethod { address: String, path: String, method: String },
    /// Sets the `Trusted` property of the device object at `path`.
    SetTrusted { address: String, path: String, trusted: bool },
    /// Flips the `Powered` property of the adapter.
    TogglePower,
    /// Calls `StartDiscovery` on the adapter.
    StartDiscovery,
    /// Calls `StopDiscovery` on the adapter.
    StopDiscovery,
    /// Nothing to call.
    Nothing,
}

/// A call with its texts taken as character sequences.
pub enum BusCallView {
    DeviceMethod { address: Seq<char>, path: Seq<char>, method: Seq<char> },
    SetTrusted { address: Seq<char>, path: Seq<char>, trusted: bool },
    TogglePower,
    StartDiscovery,
    StopDiscovery,
    Nothing,
}

impl View for BusCall {
    type V = BusCallView;

    open spec fn view(&self) -> BusCallView {
        match self {
            BusCall::DeviceMethod { address, path, method } => BusCallView::DeviceMethod {
                address: address@,
                path: path@,
                method: method@,
            },
            BusCall::SetTrusted { address, path, trusted } => BusCallView::SetTrusted {
                address: address@,
                path: path@,
                trusted: *trusted,
            },
            BusCall::TogglePower => BusCallView::TogglePower,
            BusCall::StartDiscovery => BusCallView::StartDiscovery,
            BusCall::StopDiscovery => BusCallView::StopDiscovery,
            BusCall::Nothing => BusCallView::Nothing,
        }
    }
}

/// The call that carries out an operation: connecting, disconnecting and
/// trusting address the device's object, the scan and power operations address
/// the adapter, and pairing calls nothing (new devices are paired through
/// discovery).
pub open spec fn dispatch_spec(action: crate::app::ActionView) -> BusCallView {
    match action {
        crate::app::ActionView::Connect(a) => BusCallView::DeviceMethod {
            address: a,
            path: device_path_spec(a),
            method: "Connect"@,
        },
        crate::app::ActionView::Disconnect(a) => BusCallView::DeviceMethod {
            address: a,
            path: device_path_spec(a),
            method: "Disconnect"@,
        },
        crate::app::ActionView::SetTrusted(a) => BusCallView::SetTrusted {
            address: a,
            path: device_path_spec(a),
            trusted: true,
        },
        crate::app::ActionView::TogglePower => BusCallView::TogglePower,
        crate::app::ActionView::StartScan => BusCallView::StartDiscovery,
        crate::app::ActionView::StopScan => BusCallView::StopDiscovery,
        crate::app::ActionView::Pair => BusCallView::Nothing,
    }
}

/// The D-Bus call that carries out `action`.
pub fn dispatch_call(action: &BluetoothAction) -> (call: BusCall)
    ensures
        call@ == dispatch_spec(action@),
{
    match action {
        BluetoothAction::Connect(address) => BusCall::DeviceMethod {
            address: address.clone(),
            path: mac_to_path(address.as_str()),
            method: String::from_str("Connect"),
        },
        BluetoothAction::Disconnect(address) => BusCall::DeviceMethod {
            address: address.clone(),
            path: mac_to_path(address.as_str()),
            method: String::from_str("Disconnect"),
        },
        BluetoothAction::SetTrusted(address) => BusCall::SetTrusted {
            address: address.clone(),
            path: mac_to_path(address.as_str()),
            trusted: true,
        },
        BluetoothAction::TogglePower => BusCall::TogglePower,
        BluetoothAction::StartScan => BusCall::StartDiscovery,
        BluetoothAction::StopScan => BusCall::StopDiscovery,
        BluetoothAction::Pair => BusCall::Nothing,
    }
}

/// Connecting, disconnecting and trusting a device all address the same
/// object, the device path of its address; connecting and disconnecting call
/// the `Connect` and `Disconnect` methods, and trusting sets `Trusted` to true.
pub proof fn law_device_calls_share_the_device_path(a: Seq<char>)
    ensures
        dispatch_spec(crate::app::ActionView::Connect(a)) matches BusCallView::DeviceMethod {
            address,
            path,
            method,
        } && address == a && path == device_path_spec(a) && method == "Connect"@,
        dispatch_spec(crate::app::ActionView::Disconnect(a)) matches BusCallView::DeviceMethod {
            address,
            path,
            method,
        } && address == a && path == device_path_spec(a) && method == "Disconnect"@,
        dispatch_spec(crate::app::ActionView::SetTrusted(a)) matches BusCallView::SetTrusted {
            address,
            path,
            trusted,
        } && address == a && path == device_path_spec(a) && trusted,
{
}

/// Scanning and power operations address the adapter, and pairing calls nothing.
pub proof fn law_adapter_calls()
    ensures
        dispatch_spec(crate::app::ActionView::StartScan) == BusCallView::StartDiscovery,
        dispatch_spec(crate::app::ActionView::StopScan) == BusCallView::StopDiscovery,
        dispatch_spec(crate::app::ActionView::TogglePower) == BusCallView::TogglePower,
        dispatch_spec(crate::app::ActionView::Pair) == BusCallView::Nothing,
{
}

} // verus!
