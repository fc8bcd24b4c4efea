//! What the panels of the interface show: the text of each device row and
//! of the details panel and status bar, and the colours they are drawn in.
use crate::app::{AppState, BluetoothDevice, DeviceView};
use crate::text::{decimal, push_decimal};
use crate::ui::theme::{hex_color_spec, optional_color_spec, ThemeColor};
use vstd::prelude::*;
use vstd::string::*;

verus! {

/// The battery level as a device row shows it: a battery glyph and the
/// percentage, or nothing where the level is unknown.
pub open spec fn battery_suffix(battery: Option<u8>) -> Seq<char> {
    match battery {
        Some(b) => " \u{f0079}"@ + decimal(b as nat) + "%"@,
        None => Seq::empty(),
    }
}

/// The text of a device row: a glyph for the connection state, the name and
/// the battery level.
pub open spec fn device_row_spec(d: DeviceView) -> Seq<char> {
    (if d.connected {
        "\u{f00b1} "@
    } else {
        "\u{f00b2} "@
    }) + d.name + battery_suffix(d.battery)
}

/// The text of the row for `device` in the device list.
pub fn device_row_text(device: &BluetoothDevice) -> (text: String)
    ensures
        text@ == device_row_spec(device@),
{
    let mut text = if device.connected {
        String::from_str("\u{f00b1} ")
    } else {
        String::from_str("\u{f00b2} ")
    };
    text.append(device.name.as_str());
    match device.battery {
        Some(b) => {
            text.append(" \u{f0079}");
            push_decimal(&mut text, b);
            text.append("%");
        },
        None => {},
    }
    assert(text@ =~= device_row_spec(device@));
    text
}

/// The foreground and background colours of row `idx` of the device list:
/// the selected row in the background colour on the accent colour, a
/// connected device in the success colour, any other in the foreground colour.
pub fn device_row_colors(app: &AppState, idx: usize) -> (colors: (ThemeColor, Option<ThemeColor>))
    requires
        idx < app.devices.len(),
    ensures
        colors == (if idx == app.selected {
            (
                hex_color_spec(app.theme.background@),
                Some(hex_color_spec(app.theme.accent@)),
            )
        } else if app.devices@[idx as int].connected {
            (optional_color_spec(app.theme.color2, ThemeColor::Green), None)
        } else {
            (hex_color_spec(app.theme.foreground@), None)
        }),
{
    if idx == app.selected {
        (app.theme.bg_color(), Some(app.theme.accent_color()))
    } else if app.devices[idx].connected {
        (app.theme.success_color(), None)
    } else {
        (app.theme.fg_color(), None)
    }
}

/// `"Yes"` or `"No"`.
pub open spec fn yes_no(b: bool) -> Seq<char> {
    if b {
        "Yes"@
    } else {
        "No"@
    }
}

/// What the details panel shows of a device.
pub open spec fn device_details_spec(d: DeviceView) -> Seq<char> {
    "Name:     "@ + d.name + "\nMAC:      "@ + d.address + "\nState:    "@ + (if d.connected {
        "Connected"@
    } else {
        "Disconnected"@
    }) + "\nPaired:   "@ + yes_no(d.paired) + "\nTrusted:  "@ + yes_no(d.trusted) + "\nBattery:  "@
        + match d.battery {
        Some(b) => decimal(b as nat) + "%"@,
        None => "N/A"@,
    }
}

/// The text of the details panel: the selected device's name, address,
/// connection, pairing and trust state and battery level, or a note that no
/// device is selected.
pub fn device_details_text(app: &AppState) -> (text: String)
    ensures
        text@ == if app.selected < app.devices.len() {
            device_details_spec(app.devices@[app.selected as int]@)
        } else {
            "No devices selected"@
        },
{
    if app.selected < app.devices.len() {
        let d = &app.devices[app.selected];
        let mut text = String::from_str("Name:     ");
        text.append(d.name.as_str());
        text.append("\nMAC:      ");
        text.append(d.address.as_str());
        text.append("\nState:    ");
        text.append(if d.connected { "Connected" } else { "Disconnected" });
        text.append("\nPaired:   ");
        text.append(if d.paired { "Yes" } else { "No" });
        text.append("\nTrusted:  ");
        text.append(if d.trusted { "Yes" } else { "No" });
        text.append("\nBattery:  ");
        match d.battery {
            Some(b) => {
                push_decimal(&mut text, b);
                text.append("%");
            },
            None => {
                text.append("N/A");
            },
        }
        assert(text@ =~= device_details_spec(d@));
        text
    } else {
        String::from_str("No devices selected")
    }
}

/// The status bar: the adapter's power, whether a scan runs, and the status
/// message where there is one.
pub open spec fn status_bar_spec(powered: bool, scanning: bool, msg: Option<Seq<char>>) -> Seq<char> {
    let base = (if powered {
        "Adapter: ON"@
    } else {
        "Adapter: OFF"@
    }) + (if scanning {
        " | Scan: ACTIVE"@
    } else {
        " | Scan: Inactive"@
    });
    match msg {
        Some(m) => base + " | "@ + m,
        None => base,
    }
}

/// The text of the status bar.
pub fn status_bar_text(app: &AppState) -> (text: String)
    ensures
        text@ == status_bar_spec(
            app.adapter_powered,
            app.scanning,
            crate::app::text_view(app.status_msg),
        ),
{
    let mut text = if app.adapter_powered {
        String::from_str("Adapter: ON")
    } else {
        String::from_str("Adapter: OFF")
    };
    text.append(if app.scanning { " | Scan: ACTIVE" } else { " | Scan: Inactive" });
    match &app.status_msg {
        Some(m) => {
            text.append(" | ");
            text.append(m.as_str());
        },
        None => {},
    }
    text
}

/// The colours of the status bar: the error colour where an error is shown,
/// the foreground colour otherwise, on the background colour.
pub fn status_bar_colors(app: &AppState) -> (colors: (ThemeColor, ThemeColor))
    ensures
        colors.0 == if app.error_msg is Some {
            optional_color_spec(app.theme.color1, ThemeColor::Red)
        } else {
            hex_color_spec(app.theme.foreground@)
        },
        colors.1 == hex_color_spec(app.theme.background@),
{
    let fg = if app.error_msg.is_some() {
        app.theme.error_color()
    } else {
        app.theme.fg_color()
    };
    (fg, app.theme.bg_color())
}

/// The status bar reads: the adapter's label (`"Adapter: ON"` or `"Adapter:
/// OFF"`, by power alone), then the scan label (`" | Scan: ACTIVE"` exactly when
/// a scan runs, `" | Scan: Inactive"` otherwise, whatever the power), then
/// `" | "` and the status message where there is one, and nothing more.
pub proof fn law_status_bar_layout(powered: bool, scanning: bool, msg: Option<Seq<char>>)
    ensures
        ({
            let bar = status_bar_spec(powered, scanning, msg);
            let adapter = if powered {
                "Adapter: ON"@
            } else {
                "Adapter: OFF"@
            };
            let scan = if scanning {
                " | Scan: ACTIVE"@
            } else {
                " | Scan: Inactive"@
            };
            let k = adapter.len() as int;
            let l = scan.len() as int;
            &&& bar.len() >= k + l
            &&& bar.take(k) == adapter
            &&& bar.subrange(k, k + l) == scan
            &&& match msg {
                Some(m) => bar.skip(k + l) == " | "@ + m,
                None => bar.len() == k + l,
            }
        }),
{
    let bar = status_bar_spec(powered, scanning, msg);
    let adapter = if powered {
        "Adapter: ON"@
    } else {
        "Adapter: OFF"@
    };
    let scan = if scanning {
        " | Scan: ACTIVE"@
    } else {
        " | Scan: Inactive"@
    };
    let k = adapter.len() as int;
    let l = scan.len() as int;
    assert(bar.take(k) =~= adapter);
    assert(bar.subrange(k, k + l) =~= scan);
    match msg {
        Some(m) => {
            assert(bar.skip(k + l) =~= " | "@ + m);
        },
        None => {},
    }
}

/// What follows the adapter's label in the status bar does not depend on the
/// adapter's power.
pub proof fn law_status_bar_scan_independent_of_power(scanning: bool, msg: Option<Seq<char>>)
    ensures
        status_bar_spec(true, scanning, msg).skip("Adapter: ON"@.len() as int) == status_bar_spec(
            false,
            scanning,
            msg,
        ).skip("Adapter: OFF"@.len() as int),
{
    law_status_bar_layout(true, scanning, msg);
    law_status_bar_layout(false, scanning, msg);
    let a = status_bar_spec(true, scanning, msg).skip("Adapter: ON"@.len() as int);
    let b = status_bar_spec(false, scanning, msg).skip("Adapter: OFF"@.len() as int);
    assert(a =~= b);
}

/// A device row starts with the connected glyph exactly when the device is
/// connected (the disconnected glyph otherwise), then the name, then the
/// battery level where it is known.
pub proof fn law_device_row_layout(d: DeviceView)
    ensures
        ({
            let row = device_row_spec(d);
            let glyph = if d.connected {
                "\u{f00b1} "@
            } else {
                "\u{f00b2} "@
            };
            let g = glyph.len() as int;
            let n = d.name.len() as int;
            &&& row.len() >= g + n
            &&& row.take(g) == glyph
            &&& row.subrange(g, g + n) == d.name
            &&& row.skip(g + n) == battery_suffix(d.battery)
        }),
{
    let row = device_row_spec(d);
    let glyph = if d.connected {
        "\u{f00b1} "@
    } else {
        "\u{f00b2} "@
    };
    let g = glyph.len() as int;
    let n = d.name.len() as int;
    assert(row.take(g) =~= glyph);
    assert(row.subrange(g, g + n) =~= d.name);
    assert(row.skip(g + n) =~= battery_suffix(d.battery));
}

/// The details panel shows, line by line, the name, the address, `Connected`
/// exactly when the device is connected (`Disconnected` otherwise), `Yes` for
/// pairing and for trust exactly when the device is paired or trusted (`No`
/// otherwise), and the battery level as a percentage or `N/A`.
pub proof fn law_device_details_lines(d: DeviceView)
    ensures
        device_details_spec(d) == "Name:     "@ + d.name + "\nMAC:      "@ + d.address
            + "\nState:    "@ + (if d.connected {
            "Connected"@
        } else {
            "Disconnected"@
        }) + "\nPaired:   "@ + (if d.paired {
            "Yes"@
        } else {
            "No"@
        }) + "\nTrusted:  "@ + (if d.trusted {
            "Yes"@
        } else {
            "No"@
        }) + "\nBattery:  "@ + (match d.battery {
            Some(b) => decimal(b as nat) + "%"@,
            None => "N/A"@,
        }),
{
}

} // verus!
