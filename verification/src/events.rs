//! The events that drive the application: key presses, reports from the
//! Bluetooth side, theme changes and timer ticks.
use crate::ui::theme::ThemeColors;
use vstd::prelude::*;

verus! {

/// The key of a key press, as far as the application tells keys apart.
#[derive(Debug, Clone, Copy, PartialEq, Eq, Structural)]
pub enum KeyCodeInput {
    Char(char),
    Esc,
    Up,
    Down,
    Enter,
    Other,
}

/// A key press: the key and the modifier bits held with it
/// (bit 0 is Shift, as the terminal backend reports them).
#[derive(Debug, Clone, Copy, PartialEq, Eq, Structural)]
pub struct KeyInput {
    pub code: KeyCodeInput,
    pub modifiers: u8,
}

/// Whether the modifier bits hold Shift.
pub open spec fn shift_held(modifiers: u8) -> bool {
    modifiers & 1u8 == 1u8
}

/// Whether the modifier bits of a key press hold Shift.
///
/// Calls crossterm's `KeyModifiers::from_bits_truncate` and `contains` with
/// `KeyModifiers::SHIFT`: the source keeps the known bits (Shift is bit 0)
/// and tests `bits & SHIFT == SHIFT`, which the contract states.
#[verifier::external_body]
pub(crate) fn modifiers_hold_shift(modifiers: u8) -> (held: bool)
    ensures
        held == shift_held(modifiers),
{
    crossterm::event::KeyModifiers::from_bits_truncate(modifiers).contains(
        crossterm::event::KeyModifiers::SHIFT,
    )
}

/// What the Bluetooth side reports.
#[derive(Debug, Clone)]
pub enum BluetoothEvent {
    AdapterPowered(bool),
    DeviceDiscovered { address: String, name: String },
    DeviceConnected(String),
    DeviceDisconnected(String),
    DeviceRemoved(String),
    ScanStarted,
    ScanStopped,
    Error(String),
}

/// A Bluetooth event with its texts taken as character sequences.
pub enum EventView {
    AdapterPowered(bool),
    DeviceDiscovered { address: Seq<char>, name: Seq<char> },
    DeviceConnected(Seq<char>),
    DeviceDisconnected(Seq<char>),
    DeviceRemoved(Seq<char>),
    ScanStarted,
    ScanStopped,
    Error(Seq<char>),
}

impl View for BluetoothEvent {
    type V = EventView;

    open spec fn view(&self) -> EventView {
        match self {
            BluetoothEvent::AdapterPowered(p) => EventView::AdapterPowered(*p),
            BluetoothEvent::DeviceDiscovered { address, name } => EventView::DeviceDiscovered {
                address: address@,
                name: name@,
            },
            BluetoothEvent::DeviceConnected(a) => EventView::DeviceConnected(a@),
            BluetoothEvent::DeviceDisconnected(a) => EventView::DeviceDisconnected(a@),
            BluetoothEvent::DeviceRemoved(a) => EventView::DeviceRemoved(a@),
            BluetoothEvent::ScanStarted => EventView::ScanStarted,
            BluetoothEvent::ScanStopped => EventView::ScanStopped,
            BluetoothEvent::Error(m) => EventView::Error(m@),
        }
    }
}

/// Everything the main loop reacts to.
#[derive(Debug, Clone)]
pub enum AppEvent {
    Key(KeyInput),
    BluetoothEvent(BluetoothEvent),
    ThemeChanged(ThemeColors),
    Tick,
    Quit,
}

} // verus!
