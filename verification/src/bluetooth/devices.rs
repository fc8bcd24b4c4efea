//! BlueZ device objects: their D-Bus paths and what is known of a device.
use crate::text::{push_char, to_uppercase, uppercase_of};
use vstd::prelude::*;
use vstd::string::*;

verus! {

/// The D-Bus object of the Bluetooth adapter.
pub const ADAPTER_PATH: &'static str = "/org/bluez/hci0";

/// The D-Bus interface of BlueZ devices.
pub const DEVICE_INTERFACE: &'static str = "org.bluez.Device1";

/// `s` with every `':'` replaced by `'_'`.
pub open spec fn colons_to_underscores(s: Seq<char>) -> Seq<char> {
    s.map_values(|c: char| if c == ':' { '_' } else { c })
}

/// The D-Bus path of the device object for an address: the address with
/// `':'` turned into `'_'`, in upper case, under the adapter's object.
pub open spec fn device_path_spec(address: Seq<char>) -> Seq<char> {
    "/org/bluez/hci0/dev_"@ + uppercase_of(colons_to_underscores(address))
}

/// Replaces every `':'` in `s` by `'_'`, as `s.replace(':', "_")` does.
pub fn replace_colons(s: &str) -> (r: String)
    ensures
        r@ == colons_to_underscores(s@),
{
    let len = s.unicode_len();
    let mut out = String::new();
    let mut i: usize = 0;
    while i < len
        invariant
            i <= len,
            len == s@.len(),
            out@ == colons_to_underscores(s@.take(i as int)),
        decreases len - i,
    {
        let c = s.get_char(i);
        if c == ':' {
            push_char(&mut out, '_');
        } else {
            push_char(&mut out, c);
        }
        assert(colons_to_underscores(s@.take(i + 1)) =~= colons_to_underscores(s@.take(i as int)).push(
            if c == ':' { '_' } else { c },
        ));
        i = i + 1;
    }
    assert(s@.take(len as int) =~= s@);
    out
}

/// The path of the device object under the adapter, for the uppercased and
/// underscored address `segment`.
pub fn device_path(segment: &str) -> (path: String)
    ensures
        path@ == "/org/bluez/hci0/dev_"@ + segment@,
{
    String::from_str("/org/bluez/hci0/dev_").concat(segment)
}

/// The D-Bus path of the device with the address `address`: the address with
/// `':'` turned into `'_'`, in upper case, under the adapter's object.
pub fn mac_to_path(address: &str) -> (path: String)
    ensures
        path@ == device_path_spec(address@),
{
    let underscored = replace_colons(address);
    let upper = to_uppercase(underscored.as_str());
    device_path(upper.as_str())
}

/// What is known of a device object.
#[derive(Debug, Clone)]
pub struct Device1Proxy {
    pub address: String,
    pub name: String,
}

impl Device1Proxy {
    /// The device with the address `address`, named by the `Name` property that
    /// was read, or `"Device-"` and its address where the property could not be read.
    pub fn from_name_lookup(address: &str, looked_up: Option<String>) -> (d: Self)
        ensures
            d.address@ == address@,
            d.name@ == match looked_up {
                Some(n) => n@,
                None => "Device-"@ + address@,
            },
    {
        let name = match looked_up {
            Some(n) => n,
            None => String::from_str("Device-").concat(address),
        };
        Device1Proxy { address: String::from_str(address), name }
    }

    /// The name, connection, pairing and trust state of the device, as far as
    /// the proxy knows them: the name, and `false` for each flag.
    pub fn info(self) -> (r: (String, bool, bool, bool))
        ensures
            r.0@ == self.name@,
            !r.1 && !r.2 && !r.3,
    {
        (self.name, false, false, false)
    }
}

/// The device path of an address is the adapter's path, `/dev_`, and the
/// upper-case form of the address in which every `':'` has become `'_'` and
/// every other character is kept.
pub proof fn law_device_path_shape(a: Seq<char>)
    ensures
        device_path_spec(a) == "/org/bluez/hci0/dev_"@ + uppercase_of(colons_to_underscores(a)),
        colons_to_underscores(a).len() == a.len(),
        forall|i: int|
            0 <= i < a.len() ==> #[trigger] colons_to_underscores(a)[i] == (if a[i] == ':' {
                '_'
            } else {
                a[i]
            }),
        !colons_to_underscores(a).contains(':'),
{
    let u = colons_to_underscores(a);
    if u.contains(':') {
        let i = choose|i: int| 0 <= i < u.len() && u[i] == ':';
        assert(u[i] == (if a[i] == ':' { '_' } else { a[i] }));
    }
}

} // verus!
