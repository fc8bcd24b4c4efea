//! The application state, and how key presses and Bluetooth events change it.
use crate::events::{
    modifiers_hold_shift, shift_held, AppEvent, BluetoothEvent, EventView, KeyCodeInput, KeyInput,
};
use crate::ui::theme::{is_fallback_theme, ThemeColors};
use vstd::prelude::*;
use vstd::string::*;

verus! {

/// A Bluetooth device as the application lists it.
#[derive(Debug, Clone)]
pub struct BluetoothDevice {
    pub address: String,
    pub name: String,
    pub connected: bool,
    pub paired: bool,
    pub trusted: bool,
    pub battery: Option<u8>,
}

/// A device with its texts taken as character sequences.
pub struct DeviceView {
    pub address: Seq<char>,
    pub name: Seq<char>,
    pub connected: bool,
    pub paired: bool,
    pub trusted: bool,
    pub battery: Option<u8>,
}

impl View for BluetoothDevice {
    type V = DeviceView;

    open spec fn view(&self) -> DeviceView {
        DeviceView {
            address: self.address@,
            name: self.name@,
            connected: self.connected,
            paired: self.paired,
            trusted: self.trusted,
            battery: self.battery,
        }
    }
}

/// What the interface is doing.
#[derive(Debug, Clone, Copy, PartialEq, Eq, Structural)]
pub enum AppMode {
    DeviceList,
    Scanning,
    ConfirmPair,
    ConfirmTrust,
    Error,
}

/// An operation waiting for the user's confirmation.
#[derive(Debug, Clone)]
pub enum ConfirmAction {
    Pair { address: String, name: String },
    Trust { address: String, name: String },
}

/// The whole state of the application.
#[derive(Debug)]
pub struct AppState {
    pub mode: AppMode,
    pub devices: Vec<BluetoothDevice>,
    pub selected: usize,
    pub adapter_powered: bool,
    pub scanning: bool,
    pub theme: ThemeColors,
    pub status_msg: Option<String>,
    pub error_msg: Option<String>,
    pub quit: bool,
    pub confirm_action: Option<ConfirmAction>,
}

/// An operation that a key press asks of the Bluetooth side.
#[derive(Debug, Clone)]
pub enum BluetoothAction {
    Connect(String),
    Disconnect(String),
    Pair,
    SetTrusted(String),
    StartScan,
    StopScan,
    TogglePower,
}

/// An operation with its device address taken as a character sequence.
pub enum ActionView {
    Connect(Seq<char>),
    Disconnect(Seq<char>),
    Pair,
    SetTrusted(Seq<char>),
    StartScan,
    StopScan,
    TogglePower,
}

impl View for BluetoothAction {
    type V = ActionView;

    open spec fn view(&self) -> ActionView {
        match self {
            BluetoothAction::Connect(a) => ActionView::Connect(a@),
            BluetoothAction::Disconnect(a) => ActionView::Disconnect(a@),
            BluetoothAction::Pair => ActionView::Pair,
            BluetoothAction::SetTrusted(a) => ActionView::SetTrusted(a@),
            BluetoothAction::StartScan => ActionView::StartScan,
            BluetoothAction::StopScan => ActionView::StopScan,
            BluetoothAction::TogglePower => ActionView::TogglePower,
        }
    }
}

/// An optional operation taken by its view.
pub open spec fn action_view(a: Option<BluetoothAction>) -> Option<ActionView> {
    match a {
        Some(a) => Some(a@),
        None => None,
    }
}

/// An optional text taken as a character sequence.
pub open spec fn text_view(s: Option<String>) -> Option<Seq<char>> {
    match s {
        Some(s) => Some(s@),
        None => None,
    }
}

/// The devices of a list, each taken by its view.
pub open spec fn devices_view(devices: Seq<BluetoothDevice>) -> Seq<DeviceView> {
    devices.map_values(|d: BluetoothDevice| d@)
}

/// The part of the application state that key presses and Bluetooth events act on.
pub struct AppModel {
    pub mode: AppMode,
    pub devices: Seq<DeviceView>,
    pub selected: int,
    pub adapter_powered: bool,
    pub scanning: bool,
    pub status_msg: Option<Seq<char>>,
    pub error_msg: Option<Seq<char>>,
    pub quit: bool,
}

/// Whether some device in `devices` has the address `a`.
pub open spec fn has_address(devices: Seq<DeviceView>, a: Seq<char>) -> bool {
    exists|i: int| 0 <= i < devices.len() && #[trigger] devices[i].address == a
}

/// Whether `i` is the first position in `devices` that holds the address `a`.
pub open spec fn is_first_index(devices: Seq<DeviceView>, a: Seq<char>, i: int) -> bool {
    &&& 0 <= i < devices.len()
    &&& devices[i].address == a
    &&& forall|k: int| 0 <= k < i ==> #[trigger] devices[k].address != a
}

/// The first position in `devices` that holds the address `a`.
pub open spec fn first_index_of(devices: Seq<DeviceView>, a: Seq<char>) -> int {
    choose|i: int| is_first_index(devices, a, i)
}

/// No two devices share an address.
pub open spec fn addresses_unique(devices: Seq<DeviceView>) -> bool {
    forall|i: int, j: int|
        0 <= i < j < devices.len() ==> #[trigger] devices[i].address != #[trigger] devices[j].address
}

/// `devices` without those that have the address `a`, the others in their order.
pub open spec fn without_address(devices: Seq<DeviceView>, a: Seq<char>) -> Seq<DeviceView>
    decreases devices.len(),
{
    if devices.len() == 0 {
        devices
    } else {
        let rest = without_address(devices.drop_last(), a);
        if devices.last().address == a {
            rest
        } else {
            rest.push(devices.last())
        }
    }
}

/// The device that a discovery report adds.
pub open spec fn discovered_device(a: Seq<char>, n: Seq<char>) -> DeviceView {
    DeviceView { address: a, name: n, connected: false, paired: false, trusted: false, battery: None }
}

/// The selection after moving down: the next device, wrapping round to the first.
pub open spec fn select_next(selected: int, len: int) -> int {
    if len > 0 {
        (selected + 1) % len
    } else {
        selected
    }
}

/// The selection after moving up: the previous device, wrapping round to the last.
pub open spec fn select_prev(selected: int, len: int) -> int {
    if len > 0 {
        if selected == 0 {
            len - 1
        } else {
            selected - 1
        }
    } else {
        selected
    }
}

impl AppModel {
    /// The invariant that every operation keeps: addresses are unique, and the
    /// selection points at a device (or is 0 where there is none).
    pub open spec fn wf(self) -> bool {
        &&& addresses_unique(self.devices)
        &&& if self.devices.len() == 0 {
            self.selected == 0
        } else {
            0 <= self.selected < self.devices.len()
        }
    }
}

/// Whether moving the selection down by `key` keeps the index within `usize`:
/// only a `Down`/`j` press on a non-empty list adds one to the selection.
pub open spec fn key_fits(selected: usize, len: nat, key: KeyInput) -> bool {
    (key.code == KeyCodeInput::Down || key.code == KeyCodeInput::Char('j')) && len > 0
        ==> selected < usize::MAX
}

/// The state right after start-up.
pub open spec fn initial_model() -> AppModel {
    AppModel {
        mode: AppMode::DeviceList,
        devices: Seq::empty(),
        selected: 0,
        adapter_powered: false,
        scanning: false,
        status_msg: Some("Loading Bluetooth devices..."@),
        error_msg: None,
        quit: false,
    }
}

/// Whether `key` is Shift+T, which marks the selected device as trusted: the
/// terminal reports it as `'T'`, or as `'t'` with the Shift bit.
pub open spec fn is_trust_key(key: KeyInput) -> bool {
    key.code == KeyCodeInput::Char('T') || (key.code == KeyCodeInput::Char('t') && shift_held(
        key.modifiers,
    ))
}

/// Whether `key` is one of the keys that quit (`q` and `Esc`).
pub open spec fn is_quit_key(key: KeyInput) -> bool {
    key.code == KeyCodeInput::Char('q') || key.code == KeyCodeInput::Esc
}

/// The effect of a key press: the new state and the operation it asks for.
pub open spec fn key_step(m: AppModel, key: KeyInput) -> (AppModel, Option<ActionView>) {
    let len = m.devices.len() as int;
    let on_device = 0 <= m.selected < len;
    let device = m.devices[m.selected];
    if key.code == KeyCodeInput::Char('q') || key.code == KeyCodeInput::Esc {
        (AppModel { quit: true, ..m }, None)
    } else if key.code == KeyCodeInput::Char('j') || key.code == KeyCodeInput::Down {
        (AppModel { selected: select_next(m.selected, len), ..m }, None)
    } else if key.code == KeyCodeInput::Char('k') || key.code == KeyCodeInput::Up {
        (AppModel { selected: select_prev(m.selected, len), ..m }, None)
    } else if key.code == KeyCodeInput::Enter {
        (
            m,
            if !on_device {
                None
            } else if device.connected {
                Some(ActionView::Disconnect(device.address))
            } else {
                Some(ActionView::Connect(device.address))
            },
        )
    } else if key.code == KeyCodeInput::Char('d') {
        (m, if on_device { Some(ActionView::Disconnect(device.address)) } else { None })
    } else if key.code == KeyCodeInput::Char('s') {
        (m, Some(if m.scanning { ActionView::StopScan } else { ActionView::StartScan }))
    } else if is_trust_key(key) {
        (m, if on_device { Some(ActionView::SetTrusted(device.address)) } else { None })
    } else if key.code == KeyCodeInput::Char('t') {
        (m, Some(ActionView::TogglePower))
    } else if key.code == KeyCodeInput::Char('p') {
        (m, Some(ActionView::Pair))
    } else {
        (m, None)
    }
}

/// The effect of a Bluetooth event: the new state, and the name of the device
/// that has just connected, which the user is notified of.
pub open spec fn event_step(m: AppModel, e: EventView) -> (AppModel, Option<Seq<char>>) {
    match e {
        EventView::AdapterPowered(p) => (
            AppModel {
                adapter_powered: p,
                status_msg: Some(if p { "Bluetooth: ON"@ } else { "Bluetooth: OFF"@ }),
                ..m
            },
            None,
        ),
        EventView::DeviceDiscovered { address, name } => {
            if has_address(m.devices, address) {
                (m, None)
            } else {
                (AppModel { devices: m.devices.push(discovered_device(address, name)), ..m }, None)
            }
        },
        EventView::DeviceConnected(a) => {
            if has_address(m.devices, a) {
                let i = first_index_of(m.devices, a);
                let d = m.devices[i];
                (
                    AppModel {
                        devices: m.devices.update(i, DeviceView { connected: true, ..d }),
                        status_msg: Some("Connected: "@ + d.name),
                        ..m
                    },
                    Some(d.name),
                )
            } else {
                (m, None)
            }
        },
        EventView::DeviceDisconnected(a) => {
            if has_address(m.devices, a) {
                let i = first_index_of(m.devices, a);
                let d = m.devices[i];
                (
                    AppModel {
                        devices: m.devices.update(i, DeviceView { connected: false, ..d }),
                        status_msg: Some("Disconnected: "@ + d.name),
                        ..m
                    },
                    None,
                )
            } else {
                (m, None)
            }
        },
        EventView::DeviceRemoved(a) => {
            let devices = without_address(m.devices, a);
            let selected = if m.selected >= devices.len() && m.selected > 0 {
                m.selected - 1
            } else {
                m.selected
            };
            (AppModel { devices, selected, ..m }, None)
        },
        EventView::ScanStarted => (
            AppModel {
                scanning: true,
                status_msg: Some("Scanning for Bluetooth devices..."@),
                ..m
            },
            None,
        ),
        EventView::ScanStopped => (
            AppModel { scanning: false, status_msg: Some("Scan stopped"@), ..m },
            None,
        ),
        EventView::Error(msg) => (AppModel { error_msg: Some(msg), ..m }, None),
    }
}

proof fn lemma_first_index(devices: Seq<DeviceView>, a: Seq<char>, i: int)
    requires
        is_first_index(devices, a, i),
    ensures
        has_address(devices, a),
        first_index_of(devices, a) == i,
{
    let j = first_index_of(devices, a);
    assert(is_first_index(devices, a, j));
    if j < i {
        assert(devices[j].address != a);
    }
    if i < j {
        assert(devices[i].address != a);
    }
}

/// Every device that `without_address` keeps comes from the original list and
/// has another address.
proof fn lemma_without_address_members(devices: Seq<DeviceView>, a: Seq<char>)
    ensures
        without_address(devices, a).len() <= devices.len(),
        forall|k: int|
            0 <= k < without_address(devices, a).len() ==> {
                &&& #[trigger] without_address(devices, a)[k].address != a
                &&& devices.contains(without_address(devices, a)[k])
            },
    decreases devices.len(),
{
    if devices.len() > 0 {
        let p = devices.drop_last();
        lemma_without_address_members(p, a);
        let w = without_address(devices, a);
        assert forall|k: int| 0 <= k < w.len() implies {
            &&& #[trigger] w[k].address != a
            &&& devices.contains(w[k])
        } by {
            if k < without_address(p, a).len() {
                assert(w[k] == without_address(p, a)[k]);
                assert(without_address(p, a)[k].address != a);
                let m = choose|m: int| 0 <= m < p.len() && p[m] == w[k];
                assert(devices[m] == w[k]);
            } else {
                assert(w[k] == devices.last());
                assert(devices[devices.len() - 1] == w[k]);
            }
        }
    }
}

/// On a list with unique addresses, `without_address` keeps them unique and
/// drops at most one device.
proof fn lemma_without_address_unique(devices: Seq<DeviceView>, a: Seq<char>)
    requires
        addresses_unique(devices),
    ensures
        addresses_unique(without_address(devices, a)),
        without_address(devices, a).len() + 1 >= devices.len(),
        !has_address(devices, a) ==> without_address(devices, a) == devices,
    decreases devices.len(),
{
    if devices.len() > 0 {
        let p = devices.drop_last();
        let l = devices.last();
        assert(addresses_unique(p)) by {
            assert forall|i: int, j: int| 0 <= i < j < p.len() implies #[trigger] p[i].address
                != #[trigger] p[j].address by {
                assert(p[i] == devices[i] && p[j] == devices[j]);
            }
        }
        lemma_without_address_unique(p, a);
        lemma_without_address_members(p, a);
        let wp = without_address(p, a);
        if l.address == a {
            assert(!has_address(p, a)) by {
                if has_address(p, a) {
                    let i = choose|i: int| 0 <= i < p.len() && #[trigger] p[i].address == a;
                    assert(devices[i].address == devices[devices.len() - 1].address);
                }
            }
            assert(has_address(devices, a)) by {
                assert(devices[devices.len() - 1].address == a);
            }
        } else {
            let w = wp.push(l);
            assert forall|i: int, j: int| 0 <= i < j < w.len() implies #[trigger] w[i].address
                != #[trigger] w[j].address by {
                if j == w.len() - 1 {
                    assert(wp[i].address != a);
                    assert(p.contains(wp[i]));
                    let m = choose|m: int| 0 <= m < p.len() && p[m] == wp[i];
                    assert(devices[m] == wp[i]);
                    assert(devices[m].address != devices[devices.len() - 1].address);
                } else {
                    assert(w[i] == wp[i] && w[j] == wp[j]);
                }
            }
            if !has_address(devices, a) {
                assert(!has_address(p, a)) by {
                    if has_address(p, a) {
                        let i = choose|i: int| 0 <= i < p.len() && #[trigger] p[i].address == a;
                        assert(devices[i].address == a);
                    }
                }
                assert(w =~= devices);
            }
        }
    }
}

/// The position of the first device with the address `address`, if any.
fn find_device(devices: &Vec<BluetoothDevice>, address: &String) -> (r: Option<usize>)
    ensures
        match r {
            Some(i) => is_first_index(devices_view(devices@), address@, i as int),
            None => !has_address(devices_view(devices@), address@),
        },
{
    let ghost dv = devices_view(devices@);
    let mut i: usize = 0;
    while i < devices.len()
        invariant
            i <= devices.len(),
            dv == devices_view(devices@),
            forall|k: int| 0 <= k < i ==> #[trigger] dv[k].address != address@,
        decreases devices.len() - i,
    {
        if devices[i].address == *address {
            return Some(i);
        }
        i = i + 1;
    }
    assert forall|k: int| 0 <= k < dv.len() implies #[trigger] dv[k].address != address@ by {}
    None
}

proof fn lemma_first_index_exists(devices: Seq<DeviceView>, a: Seq<char>, w: int)
    requires
        0 <= w < devices.len(),
        devices[w].address == a,
    ensures
        is_first_index(devices, a, first_index_of(devices, a)),
    decreases w,
{
    if exists|k: int| 0 <= k < w && #[trigger] devices[k].address == a {
        let k = choose|k: int| 0 <= k < w && #[trigger] devices[k].address == a;
        lemma_first_index_exists(devices, a, k);
    } else {
        assert(is_first_index(devices, a, w));
    }
}

proof fn lemma_has_first_index(devices: Seq<DeviceView>, a: Seq<char>)
    requires
        has_address(devices, a),
    ensures
        is_first_index(devices, a, first_index_of(devices, a)),
{
    let w = choose|i: int| 0 <= i < devices.len() && #[trigger] devices[i].address == a;
    lemma_first_index_exists(devices, a, w);
}

proof fn lemma_wrap_around(selected: int, len: int)
    requires
        0 <= selected < len,
    ensures
        select_prev(select_next(selected, len), len) == selected,
        select_next(select_prev(selected, len), len) == selected,
{
    if selected + 1 < len {
        assert((selected + 1) % len == selected + 1) by (nonlinear_arith)
            requires
                0 <= selected + 1 < len,
        ;
    } else {
        assert((selected + 1) % len == 0) by (nonlinear_arith)
            requires
                selected + 1 == len,
                len > 0,
        ;
    }
    if selected == 0 {
        assert((len - 1 + 1) % len == 0) by (nonlinear_arith)
            requires
                len > 0,
        ;
    } else {
        assert((selected - 1 + 1) % len == selected) by (nonlinear_arith)
            requires
                0 <= selected < len,
        ;
    }
}

/// Every key press keeps the state invariant: addresses stay unique and the
/// selection stays on a device.
pub proof fn law_key_step_keeps_invariant(m: AppModel, key: KeyInput)
    requires
        m.wf(),
    ensures
        key_step(m, key).0.wf(),
{
}

/// Every Bluetooth event keeps the state invariant: addresses stay unique and
/// the selection stays on a device.
pub proof fn law_event_step_keeps_invariant(m: AppModel, e: EventView)
    requires
        m.wf(),
    ensures
        event_step(m, e).0.wf(),
{
    let r = event_step(m, e).0;
    match e {
        EventView::DeviceDiscovered { address, name } => {
            if !has_address(m.devices, address) {
                assert forall|i: int, j: int| 0 <= i < j < r.devices.len() implies #[trigger] r.devices[i].address
                    != #[trigger] r.devices[j].address by {
                    if j == r.devices.len() - 1 {
                        assert(m.devices[i].address == r.devices[i].address);
                    } else {
                        assert(m.devices[i] == r.devices[i] && m.devices[j] == r.devices[j]);
                    }
                }
            }
        },
        EventView::DeviceConnected(a) => {
            if has_address(m.devices, a) {
                lemma_has_first_index(m.devices, a);
                assert forall|k: int| 0 <= k < r.devices.len() implies #[trigger] r.devices[k].address
                    == m.devices[k].address by {}
            }
        },
        EventView::DeviceDisconnected(a) => {
            if has_address(m.devices, a) {
                lemma_has_first_index(m.devices, a);
                assert forall|k: int| 0 <= k < r.devices.len() implies #[trigger] r.devices[k].address
                    == m.devices[k].address by {}
            }
        },
        EventView::DeviceRemoved(a) => {
            lemma_without_address_unique(m.devices, a);
            lemma_without_address_members(m.devices, a);
        },
        _ => {},
    }
}

/// Moving the selection down and then up comes back to the same device.
pub proof fn law_down_then_up_restores_selection(m: AppModel, down: KeyInput, up: KeyInput)
    requires
        m.wf(),
        down.code == KeyCodeInput::Down || down.code == KeyCodeInput::Char('j'),
        up.code == KeyCodeInput::Up || up.code == KeyCodeInput::Char('k'),
    ensures
        key_step(key_step(m, down).0, up).0 == m,
        key_step(m, down).1 is None,
{
    if m.devices.len() > 0 {
        lemma_wrap_around(m.selected, m.devices.len() as int);
    }
}

/// Moving the selection up and then down comes back to the same device.
pub proof fn law_up_then_down_restores_selection(m: AppModel, up: KeyInput, down: KeyInput)
    requires
        m.wf(),
        down.code == KeyCodeInput::Down || down.code == KeyCodeInput::Char('j'),
        up.code == KeyCodeInput::Up || up.code == KeyCodeInput::Char('k'),
    ensures
        key_step(key_step(m, up).0, down).0 == m,
{
    if m.devices.len() > 0 {
        lemma_wrap_around(m.selected, m.devices.len() as int);
    }
}

/// A device is listed once however often it is discovered: a second report of
/// the same address changes nothing, whatever name it carries.
pub proof fn law_discovery_is_idempotent(m: AppModel, a: Seq<char>, n: Seq<char>, n2: Seq<char>)
    ensures
        event_step(
            event_step(m, EventView::DeviceDiscovered { address: a, name: n }).0,
            EventView::DeviceDiscovered { address: a, name: n2 },
        ).0 == event_step(m, EventView::DeviceDiscovered { address: a, name: n }).0,
{
    let r = event_step(m, EventView::DeviceDiscovered { address: a, name: n }).0;
    if !has_address(m.devices, a) {
        assert(r.devices[r.devices.len() - 1].address == a);
    }
}

/// After a removal no device has the removed address, and every device with
/// another address is still listed.
pub proof fn law_removed_device_is_gone(m: AppModel, a: Seq<char>)
    ensures
        !has_address(event_step(m, EventView::DeviceRemoved(a)).0.devices, a),
        forall|i: int|
            0 <= i < m.devices.len() && m.devices[i].address != a ==> event_step(
                m,
                EventView::DeviceRemoved(a),
            ).0.devices.contains(#[trigger] m.devices[i]),
{
    lemma_without_address_members(m.devices, a);
    lemma_without_address_keeps(m.devices, a);
    let w = without_address(m.devices, a);
    if has_address(w, a) {
        let k = choose|k: int| 0 <= k < w.len() && #[trigger] w[k].address == a;
        assert(w[k].address != a);
    }
}

proof fn lemma_without_address_keeps(devices: Seq<DeviceView>, a: Seq<char>)
    ensures
        forall|i: int|
            0 <= i < devices.len() && devices[i].address != a ==> without_address(
                devices,
                a,
            ).contains(#[trigger] devices[i]),
    decreases devices.len(),
{
    if devices.len() > 0 {
        let p = devices.drop_last();
        lemma_without_address_keeps(p, a);
        let w = without_address(devices, a);
        assert forall|i: int|
            0 <= i < devices.len() && devices[i].address != a implies w.contains(
                #[trigger] devices[i],
            ) by {
            if i < devices.len() - 1 {
                assert(p[i] == devices[i]);
                let wp = without_address(p, a);
                assert(wp.contains(p[i]));
                let k = choose|k: int| 0 <= k < wp.len() && wp[k] == p[i];
                if devices.last().address != a {
                    assert(w[k] == wp[k]);
                }
            } else {
                assert(w[w.len() - 1] == devices[i]);
            }
        }
    }
}

/// A disconnection report undoes a connection report: the device list after
/// both is the list after the disconnection alone.
pub proof fn law_disconnect_undoes_connect(m: AppModel, a: Seq<char>)
    ensures
        event_step(
            event_step(m, EventView::DeviceConnected(a)).0,
            EventView::DeviceDisconnected(a),
        ).0.devices == event_step(m, EventView::DeviceDisconnected(a)).0.devices,
{
    if has_address(m.devices, a) {
        lemma_has_first_index(m.devices, a);
        let i = first_index_of(m.devices, a);
        let c = event_step(m, EventView::DeviceConnected(a)).0;
        assert(is_first_index(c.devices, a, i)) by {
            assert forall|k: int| 0 <= k < i implies #[trigger] c.devices[k].address != a by {
                assert(c.devices[k] == m.devices[k]);
            }
        }
        lemma_first_index(c.devices, a, i);
        assert(event_step(c, EventView::DeviceDisconnected(a)).0.devices =~= event_step(
            m,
            EventView::DeviceDisconnected(a),
        ).0.devices);
    }
}

/// A key press changes nothing but the quit flag and the selection: the quit
/// flag is set by `q` and `Esc` and never cleared, and only `Down`, `Up`, `j`
/// and `k` move the selection.
pub proof fn law_key_step_frame(m: AppModel, key: KeyInput)
    ensures
        key_step(m, key).0.quit == (m.quit || is_quit_key(key)),
        key_step(m, key).0.selected != m.selected ==> (key.code == KeyCodeInput::Down
            || key.code == KeyCodeInput::Up || key.code == KeyCodeInput::Char('j')
            || key.code == KeyCodeInput::Char('k')),
        key_step(m, key).0 == (AppModel {
            quit: key_step(m, key).0.quit,
            selected: key_step(m, key).0.selected,
            ..m
        }),
{
}

/// Over any sequence of key presses, Bluetooth reports and other events, the
/// application is marked for quitting exactly when it was so before or some
/// key of the sequence was `q` or `Esc`; in particular, from start-up, exactly
/// when some such key was pressed.
pub proof fn law_quit_is_sticky(m: AppModel, inputs: Seq<ModelInput>)
    ensures
        run_inputs(m, inputs).quit == (m.quit || exists|i: int|
            0 <= i < inputs.len() && #[trigger] is_quit_input(inputs, i)),
        run_inputs(initial_model(), inputs).quit == exists|i: int|
            0 <= i < inputs.len() && #[trigger] is_quit_input(inputs, i),
    decreases inputs.len(),
{
    if inputs.len() > 0 {
        let p = inputs.drop_last();
        law_quit_is_sticky(m, p);
        law_quit_is_sticky(initial_model(), p);
        let last = inputs.last();
        assert forall|i: int| 0 <= i < p.len() implies #[trigger] is_quit_input(p, i)
            == is_quit_input(inputs, i) by {
            assert(p[i] == inputs[i]);
        }
        if is_quit_input(inputs, inputs.len() - 1) {
            assert(is_quit_input(inputs, inputs.len() - 1));
        } else {
            if exists|i: int| 0 <= i < inputs.len() && #[trigger] is_quit_input(inputs, i) {
                let i = choose|i: int| 0 <= i < inputs.len() && #[trigger] is_quit_input(inputs, i);
                assert(is_quit_input(p, i));
            }
        }
        match last {
            ModelInput::Key(k) => {
                law_key_step_frame(run_inputs(m, p), k);
                law_key_step_frame(run_inputs(initial_model(), p), k);
            },
            _ => {},
        }
    }
}

/// `q` and `Esc` mark the state for quitting and ask nothing of the Bluetooth side.
pub proof fn law_quit_keys(m: AppModel, key: KeyInput)
    requires
        key.code == KeyCodeInput::Char('q') || key.code == KeyCodeInput::Esc,
    ensures
        key_step(m, key).0.quit,
        key_step(m, key).1 is None,
        key_step(m, key).0.devices == m.devices,
{
}

/// Enter on a selected device asks to disconnect it where it is connected and
/// to connect it otherwise, and changes nothing in the state.
pub proof fn law_enter_acts_on_selected_device(m: AppModel, key: KeyInput)
    requires
        key.code == KeyCodeInput::Enter,
        0 <= m.selected < m.devices.len(),
    ensures
        key_step(m, key).0 == m,
        m.devices[m.selected].connected ==> key_step(m, key).1 == Some(
            ActionView::Disconnect(m.devices[m.selected].address),
        ),
        !m.devices[m.selected].connected ==> key_step(m, key).1 == Some(
            ActionView::Connect(m.devices[m.selected].address),
        ),
{
}

/// `d` asks to disconnect the selected device, and Shift+T (`T`, or `t` with
/// Shift) asks to trust it; neither changes the state.
pub proof fn law_device_keys_act_on_selected_device(m: AppModel, key: KeyInput)
    requires
        0 <= m.selected < m.devices.len(),
    ensures
        key.code == KeyCodeInput::Char('d') ==> key_step(m, key) == (
            m,
            Some(ActionView::Disconnect(m.devices[m.selected].address)),
        ),
        key.code == KeyCodeInput::Char('T') ==> key_step(m, key) == (
            m,
            Some(ActionView::SetTrusted(m.devices[m.selected].address)),
        ),
        key.code == KeyCodeInput::Char('t') && key.modifiers & 1u8 == 1u8 ==> key_step(m, key) == (
            m,
            Some(ActionView::SetTrusted(m.devices[m.selected].address)),
        ),
{
}

/// Enter, `d` and Shift+T ask nothing and change nothing where no device is selected.
pub proof fn law_device_keys_need_a_selection(m: AppModel, key: KeyInput)
    requires
        !(0 <= m.selected < m.devices.len()),
        key.code == KeyCodeInput::Enter || key.code == KeyCodeInput::Char('d') || key.code
            == KeyCodeInput::Char('T') || (key.code == KeyCodeInput::Char('t') && key.modifiers
            & 1u8 == 1u8),
    ensures
        key_step(m, key) == (m, None::<ActionView>),
{
}

/// The adapter and scan keys: `s` stops a running scan and starts one
/// otherwise, `t` without Shift toggles the adapter's power, `p` asks to pair;
/// none of them changes the state.
pub proof fn law_adapter_keys(m: AppModel, key: KeyInput)
    ensures
        key.code == KeyCodeInput::Char('s') && m.scanning ==> key_step(m, key) == (
            m,
            Some(ActionView::StopScan),
        ),
        key.code == KeyCodeInput::Char('s') && !m.scanning ==> key_step(m, key) == (
            m,
            Some(ActionView::StartScan),
        ),
        key.code == KeyCodeInput::Char('t') && key.modifiers & 1u8 == 0u8 ==> key_step(m, key) == (
            m,
            Some(ActionView::TogglePower),
        ),
        key.code == KeyCodeInput::Char('p') ==> key_step(m, key) == (m, Some(ActionView::Pair)),
{
}

/// Down (or `j`) selects the next device, and the first one after the last;
/// Up (or `k`) selects the previous device, and the last one before the first.
pub proof fn law_navigation_wraps(m: AppModel, key: KeyInput)
    requires
        0 <= m.selected < m.devices.len(),
    ensures
        key.code == KeyCodeInput::Down || key.code == KeyCodeInput::Char('j') ==> key_step(
            m,
            key,
        ).0.selected == if m.selected + 1 < m.devices.len() {
            m.selected + 1
        } else {
            0
        },
        key.code == KeyCodeInput::Up || key.code == KeyCodeInput::Char('k') ==> key_step(
            m,
            key,
        ).0.selected == if m.selected > 0 {
            m.selected - 1
        } else {
            m.devices.len() - 1
        },
        key.code == KeyCodeInput::Down || key.code == KeyCodeInput::Char('j') || key.code
            == KeyCodeInput::Up || key.code == KeyCodeInput::Char('k') ==> key_step(m, key).1 is None,
{
    let len = m.devices.len() as int;
    if m.selected + 1 < len {
        assert((m.selected + 1) % len == m.selected + 1) by (nonlinear_arith)
            requires
                0 <= m.selected + 1 < len,
        ;
    } else {
        assert((m.selected + 1) % len == 0) by (nonlinear_arith)
            requires
                m.selected + 1 == len,
                len > 0,
        ;
    }
}

/// A power report records the reported power, whatever it was before, and
/// says it in the status line; nothing else changes.
pub proof fn law_adapter_power_report(m: AppModel, p: bool)
    ensures
        event_step(m, EventView::AdapterPowered(p)).0.adapter_powered == p,
        event_step(m, EventView::AdapterPowered(p)).0.status_msg == Some(
            if p {
                "Bluetooth: ON"@
            } else {
                "Bluetooth: OFF"@
            },
        ),
        event_step(m, EventView::AdapterPowered(p)).0 == (AppModel {
            adapter_powered: p,
            status_msg: event_step(m, EventView::AdapterPowered(p)).0.status_msg,
            ..m
        }),
        event_step(m, EventView::AdapterPowered(p)).1 is None,
{
}

/// Scan reports record whether a scan runs and say so in the status line;
/// an error report records its message; nothing else changes.
pub proof fn law_scan_and_error_reports(m: AppModel, msg: Seq<char>)
    ensures
        event_step(m, EventView::ScanStarted).0 == (AppModel {
            scanning: true,
            status_msg: Some("Scanning for Bluetooth devices..."@),
            ..m
        }),
        event_step(m, EventView::ScanStopped).0 == (AppModel {
            scanning: false,
            status_msg: Some("Scan stopped"@),
            ..m
        }),
        event_step(m, EventView::Error(msg)).0 == (AppModel { error_msg: Some(msg), ..m }),
        event_step(m, EventView::ScanStarted).1 is None,
        event_step(m, EventView::ScanStopped).1 is None,
        event_step(m, EventView::Error(msg)).1 is None,
{
}

/// A connection report marks the first device with the reported address as
/// connected, names it in the status line and in the notice, and leaves every
/// other device, and the device's other fields, as they were.
pub proof fn law_connect_report(m: AppModel, a: Seq<char>, i: int)
    requires
        0 <= i < m.devices.len(),
        m.devices[i].address == a,
        forall|k: int| 0 <= k < i ==> #[trigger] m.devices[k].address != a,
    ensures
        ({
            let (r, notice) = event_step(m, EventView::DeviceConnected(a));
            &&& r.devices.len() == m.devices.len()
            &&& r.devices[i].connected
            &&& r.devices[i].address == a
            &&& r.devices[i].name == m.devices[i].name
            &&& r.devices[i].paired == m.devices[i].paired
            &&& r.devices[i].trusted == m.devices[i].trusted
            &&& r.devices[i].battery == m.devices[i].battery
            &&& forall|k: int| 0 <= k < m.devices.len() && k != i ==> #[trigger] r.devices[k]
                == m.devices[k]
            &&& notice == Some(m.devices[i].name)
            &&& r.status_msg == Some("Connected: "@ + m.devices[i].name)
            &&& r.selected == m.selected && r.adapter_powered == m.adapter_powered
            &&& r.scanning == m.scanning && r.quit == m.quit && r.error_msg == m.error_msg
        }),
{
    lemma_first_index(m.devices, a, i);
}

/// A disconnection report marks the first device with the reported address as
/// not connected, names it in the status line, and leaves every other device,
/// and the device's other fields, as they were.
pub proof fn law_disconnect_report(m: AppModel, a: Seq<char>, i: int)
    requires
        0 <= i < m.devices.len(),
        m.devices[i].address == a,
        forall|k: int| 0 <= k < i ==> #[trigger] m.devices[k].address != a,
    ensures
        ({
            let (r, notice) = event_step(m, EventView::DeviceDisconnected(a));
            &&& r.devices.len() == m.devices.len()
            &&& !r.devices[i].connected
            &&& r.devices[i].address == a
            &&& r.devices[i].name == m.devices[i].name
            &&& r.devices[i].paired == m.devices[i].paired
            &&& r.devices[i].trusted == m.devices[i].trusted
            &&& r.devices[i].battery == m.devices[i].battery
            &&& forall|k: int| 0 <= k < m.devices.len() && k != i ==> #[trigger] r.devices[k]
                == m.devices[k]
            &&& notice is None
            &&& r.status_msg == Some("Disconnected: "@ + m.devices[i].name)
            &&& r.selected == m.selected && r.adapter_powered == m.adapter_powered
            &&& r.scanning == m.scanning && r.quit == m.quit && r.error_msg == m.error_msg
        }),
{
    lemma_first_index(m.devices, a, i);
}

/// Reports about an address that no listed device has change nothing.
pub proof fn law_reports_about_unknown_devices(m: AppModel, a: Seq<char>)
    requires
        forall|k: int| 0 <= k < m.devices.len() ==> #[trigger] m.devices[k].address != a,
    ensures
        event_step(m, EventView::DeviceConnected(a)) == (m, None::<Seq<char>>),
        event_step(m, EventView::DeviceDisconnected(a)) == (m, None::<Seq<char>>),
        event_step(m, EventView::DeviceRemoved(a)).0.devices == m.devices,
{
    assert(!has_address(m.devices, a));
    if m.devices.len() > 0 {
        lemma_without_address_all_kept(m.devices, a);
    } else {
        assert(without_address(m.devices, a) == m.devices);
    }
}

proof fn lemma_without_address_all_kept(devices: Seq<DeviceView>, a: Seq<char>)
    requires
        forall|k: int| 0 <= k < devices.len() ==> #[trigger] devices[k].address != a,
    ensures
        without_address(devices, a) == devices,
    decreases devices.len(),
{
    if devices.len() > 0 {
        let p = devices.drop_last();
        assert forall|k: int| 0 <= k < p.len() implies #[trigger] p[k].address != a by {
            assert(p[k] == devices[k]);
        }
        lemma_without_address_all_kept(p, a);
        assert(devices[devices.len() - 1].address != a);
        assert(p.push(devices.last()) =~= devices);
    }
}

/// A discovery report of a new address appends that device, not connected,
/// not paired, not trusted and with no battery level, after the listed ones,
/// which stay as they were.
pub proof fn law_discovery_appends_new_device(m: AppModel, a: Seq<char>, n: Seq<char>)
    requires
        forall|k: int| 0 <= k < m.devices.len() ==> #[trigger] m.devices[k].address != a,
    ensures
        ({
            let r = event_step(m, EventView::DeviceDiscovered { address: a, name: n }).0;
            &&& r.devices.len() == m.devices.len() + 1
            &&& r.devices.take(m.devices.len() as int) == m.devices
            &&& r.devices[m.devices.len() as int].address == a
            &&& r.devices[m.devices.len() as int].name == n
            &&& !r.devices[m.devices.len() as int].connected
            &&& !r.devices[m.devices.len() as int].paired
            &&& !r.devices[m.devices.len() as int].trusted
            &&& r.devices[m.devices.len() as int].battery is None
            &&& r.selected == m.selected && r.status_msg == m.status_msg
        }),
{
    assert(!has_address(m.devices, a));
    let r = event_step(m, EventView::DeviceDiscovered { address: a, name: n }).0;
    assert(r.devices.take(m.devices.len() as int) =~= m.devices);
}

/// On a list with unique addresses, a removal report drops exactly one device
/// where one has the address and none otherwise, and the selection then stays
/// where it was unless it was past the end, when it moves to the last device.
pub proof fn law_removal_shrinks_by_one(m: AppModel, a: Seq<char>)
    requires
        m.wf(),
    ensures
        ({
            let r = event_step(m, EventView::DeviceRemoved(a)).0;
            &&& has_address(m.devices, a) ==> r.devices.len() == m.devices.len() - 1
            &&& !has_address(m.devices, a) ==> r.devices == m.devices && r.selected == m.selected
            &&& m.selected < r.devices.len() ==> r.selected == m.selected
            &&& r.devices.len() > 0 && m.selected >= r.devices.len() ==> r.selected == r.devices.len() - 1
        }),
{
    lemma_without_address_unique(m.devices, a);
    lemma_without_address_members(m.devices, a);
    let w = without_address(m.devices, a);
    if has_address(m.devices, a) {
        let i = choose|i: int| 0 <= i < m.devices.len() && #[trigger] m.devices[i].address == a;
        if w.len() == m.devices.len() {
            lemma_without_address_keeps(m.devices, a);
            // every kept device is a listed one with another address; a list of
            // the same length would have to keep the device at `i` as well
            lemma_without_address_len_drops(m.devices, a, i);
        }
    }
}

proof fn lemma_without_address_len_drops(devices: Seq<DeviceView>, a: Seq<char>, i: int)
    requires
        0 <= i < devices.len(),
        devices[i].address == a,
    ensures
        without_address(devices, a).len() < devices.len(),
    decreases devices.len(),
{
    let p = devices.drop_last();
    lemma_without_address_members(p, a);
    if i < devices.len() - 1 {
        assert(p[i] == devices[i]);
        lemma_without_address_len_drops(p, a, i);
    }
}

/// What one turn of the main loop does to the model: a key press, a report of
/// the Bluetooth side, or an event that leaves the model alone (a theme
/// change, a tick or a quit request).
pub enum ModelInput {
    Key(KeyInput),
    Bluetooth(EventView),
    Other,
}

/// The model input that an event of the main loop amounts to.
pub open spec fn model_input(e: AppEvent) -> ModelInput {
    match e {
        AppEvent::Key(k) => ModelInput::Key(k),
        AppEvent::BluetoothEvent(b) => ModelInput::Bluetooth(b@),
        _ => ModelInput::Other,
    }
}

/// The model after one input.
pub open spec fn input_step(m: AppModel, input: ModelInput) -> AppModel {
    match input {
        ModelInput::Key(k) => key_step(m, k).0,
        ModelInput::Bluetooth(e) => event_step(m, e).0,
        ModelInput::Other => m,
    }
}

/// The model after a sequence of inputs, in order.
pub open spec fn run_inputs(m: AppModel, inputs: Seq<ModelInput>) -> AppModel
    decreases inputs.len(),
{
    if inputs.len() == 0 {
        m
    } else {
        input_step(run_inputs(m, inputs.drop_last()), inputs.last())
    }
}

/// Whether input `i` of `inputs` is a quit key.
pub open spec fn is_quit_input(inputs: Seq<ModelInput>, i: int) -> bool {
    inputs[i] matches ModelInput::Key(k) && is_quit_key(k)
}

/// How the main loop is to go on after one event.
pub struct Reaction {
    /// The operation to hand to the Bluetooth side.
    pub action: Option<BluetoothAction>,
    /// The name of a device that has just connected, for a desktop notification.
    pub connected_notice: Option<String>,
    /// Whether the main loop is to end.
    pub stop: bool,
}

impl AppState {
    /// The part of the state that key presses and Bluetooth events act on.
    pub open spec fn model(&self) -> AppModel {
        AppModel {
            mode: self.mode,
            devices: devices_view(self.devices@),
            selected: self.selected as int,
            adapter_powered: self.adapter_powered,
            scanning: self.scanning,
            status_msg: text_view(self.status_msg),
            error_msg: text_view(self.error_msg),
            quit: self.quit,
        }
    }

    /// The start-up state, with the theme that was loaded, or the built-in
    /// theme where none could be loaded.
    pub fn new(loaded: Option<ThemeColors>) -> (s: Self)
        ensures
            s.model() == initial_model(),
            s.model().wf(),
            s.confirm_action is None,
            match loaded {
                Some(t) => s.theme == t,
                None => is_fallback_theme(s.theme),
            },
    {
        let theme = match loaded {
            Some(t) => t,
            None => ThemeColors::fallback(),
        };
        let s = AppState {
            mode: AppMode::DeviceList,
            devices: Vec::new(),
            selected: 0,
            adapter_powered: false,
            scanning: false,
            theme,
            status_msg: Some(String::from_str("Loading Bluetooth devices...")),
            error_msg: None,
            quit: false,
            confirm_action: None,
        };
        assert(s.model().devices =~= Seq::<DeviceView>::empty());
        s
    }

    /// Reacts to a key press: moves the selection, marks the state for quitting,
    /// or returns the Bluetooth operation that the key asks for.
    pub fn handle_key(&mut self, key: KeyInput) -> (action: Option<BluetoothAction>)
        requires
            key_fits(old(self).selected, old(self).devices.len() as nat, key),
        ensures
            (final(self).model(), action_view(action)) == key_step(old(self).model(), key),
            final(self).theme == old(self).theme,
            final(self).confirm_action == old(self).confirm_action,
            old(self).model().wf() ==> final(self).model().wf(),
    {
        let ghost m = self.model();
        let len = self.devices.len();
        let on_device = self.selected < len;
        let action = match key.code {
            KeyCodeInput::Char('q') | KeyCodeInput::Esc => {
                self.quit = true;
                None
            },
            KeyCodeInput::Char('j') | KeyCodeInput::Down => {
                if len > 0 {
                    self.selected = (self.selected + 1) % len;
                }
                None
            },
            KeyCodeInput::Char('k') | KeyCodeInput::Up => {
                if len > 0 {
                    self.selected = if self.selected == 0 {
                        len - 1
                    } else {
                        self.selected - 1
                    };
                }
                None
            },
            KeyCodeInput::Enter => {
                if on_device {
                    let device = &self.devices[self.selected];
                    if device.connected {
                        Some(BluetoothAction::Disconnect(device.address.clone()))
                    } else {
                        Some(BluetoothAction::Connect(device.address.clone()))
                    }
                } else {
                    None
                }
            },
            KeyCodeInput::Char('d') => {
                if on_device {
                    Some(BluetoothAction::Disconnect(self.devices[self.selected].address.clone()))
                } else {
                    None
                }
            },
            KeyCodeInput::Char('s') => {
                if self.scanning {
                    Some(BluetoothAction::StopScan)
                } else {
                    Some(BluetoothAction::StartScan)
                }
            },
            KeyCodeInput::Char('T') => {
                if on_device {
                    Some(BluetoothAction::SetTrusted(self.devices[self.selected].address.clone()))
                } else {
                    None
                }
            },
            KeyCodeInput::Char('t') => {
                if modifiers_hold_shift(key.modifiers) {
                    if on_device {
                        Some(BluetoothAction::SetTrusted(self.devices[self.selected].address.clone()))
                    } else {
                        None
                    }
                } else {
                    Some(BluetoothAction::TogglePower)
                }
            },
            KeyCodeInput::Char('p') => Some(BluetoothAction::Pair),
            _ => None,
        };
        assert(self.model().devices =~= m.devices);
        action
    }

    /// Takes in a report of the Bluetooth side. Returns the name of the device
    /// that has just connected, which the caller notifies the user of.
    pub fn apply_bluetooth_event(&mut self, event: BluetoothEvent) -> (notice: Option<String>)
        ensures
            (final(self).model(), text_view(notice)) == event_step(old(self).model(), event@),
            final(self).theme == old(self).theme,
            final(self).confirm_action == old(self).confirm_action,
            old(self).model().wf() ==> final(self).model().wf(),
    {
        match event {
            BluetoothEvent::AdapterPowered(powered) => {
                let msg = if powered {
                    String::from_str("Bluetooth: ON")
                } else {
                    String::from_str("Bluetooth: OFF")
                };
                self.adapter_powered = powered;
                self.status_msg = Some(msg);
                None
            },
            BluetoothEvent::DeviceDiscovered { address, name } => {
                self.add_discovered(address, name);
                None
            },
            BluetoothEvent::DeviceConnected(address) => self.mark_connection(&address, true),
            BluetoothEvent::DeviceDisconnected(address) => {
                self.mark_connection(&address, false);
                None
            },
            BluetoothEvent::DeviceRemoved(address) => {
                self.remove_device(&address);
                None
            },
            BluetoothEvent::ScanStarted => {
                self.scanning = true;
                self.status_msg = Some(String::from_str("Scanning for Bluetooth devices..."));
                None
            },
            BluetoothEvent::ScanStopped => {
                self.scanning = false;
                self.status_msg = Some(String::from_str("Scan stopped"));
                None
            },
            BluetoothEvent::Error(msg) => {
                self.error_msg = Some(msg);
                None
            },
        }
    }

    fn add_discovered(&mut self, address: String, name: String)
        ensures
            final(self).model() == event_step(
                old(self).model(),
                EventView::DeviceDiscovered { address: address@, name: name@ },
            ).0,
            final(self).theme == old(self).theme,
            final(self).confirm_action == old(self).confirm_action,
            old(self).model().wf() ==> final(self).model().wf(),
    {
        let ghost m = self.model();
        let ghost a = address@;
        let ghost n = name@;
        if find_device(&self.devices, &address).is_none() {
            self.devices.push(
                BluetoothDevice {
                    address,
                    name,
                    connected: false,
                    paired: false,
                    trusted: false,
                    battery: None,
                },
            );
            assert(self.model().devices =~= m.devices.push(discovered_device(a, n)));
            proof {
                let d = self.model().devices;
                if m.wf() {
                    assert forall|i: int, j: int| 0 <= i < j < d.len() implies #[trigger] d[i].address
                        != #[trigger] d[j].address by {
                        if j == d.len() - 1 {
                            assert(m.devices[i].address == d[i].address);
                        } else {
                            assert(m.devices[i] == d[i] && m.devices[j] == d[j]);
                        }
                    }
                }
            }
        }
    }

    /// Marks the first device with the address `address` as connected or not.
    fn mark_connection(&mut self, address: &String, connected: bool) -> (notice: Option<String>)
        ensures
            (final(self).model(), text_view(notice)) == event_step(
                old(self).model(),
                if connected {
                    EventView::DeviceConnected(address@)
                } else {
                    EventView::DeviceDisconnected(address@)
                },
            ),
            final(self).theme == old(self).theme,
            final(self).confirm_action == old(self).confirm_action,
            old(self).model().wf() ==> final(self).model().wf(),
    {
        let ghost m = self.model();
        match find_device(&self.devices, address) {
            Some(i) => {
                proof {
                    lemma_first_index(m.devices, address@, i as int);
                }
                let mut device = self.devices.remove(i);
                device.connected = connected;
                let name = device.name.clone();
                let mut msg = if connected {
                    String::from_str("Connected: ")
                } else {
                    String::from_str("Disconnected: ")
                };
                msg.append(name.as_str());
                self.devices.insert(i, device);
                self.status_msg = Some(msg);
                assert(self.model().devices =~= m.devices.update(
                    i as int,
                    DeviceView { connected: connected, ..m.devices[i as int] },
                ));
                proof {
                    let d = self.model().devices;
                    if m.wf() {
                        assert forall|k: int| 0 <= k < d.len() implies #[trigger] d[k].address
                            == m.devices[k].address by {}
                    }
                }
                if connected {
                    Some(name)
                } else {
                    None
                }
            },
            None => None,
        }
    }

    /// Drops the devices with the address `address` and keeps the selection
    /// within the list.
    fn remove_device(&mut self, address: &String)
        ensures
            final(self).model() == event_step(old(self).model(), EventView::DeviceRemoved(address@)).0,
            final(self).theme == old(self).theme,
            final(self).confirm_action == old(self).confirm_action,
            old(self).model().wf() ==> final(self).model().wf(),
    {
        let ghost m = self.model();
        self.remove_devices_with(address);
        if self.selected >= self.devices.len() && self.selected > 0 {
            self.selected = self.selected - 1;
        }
        proof {
            if m.wf() {
                lemma_without_address_unique(m.devices, address@);
                lemma_without_address_members(m.devices, address@);
            }
        }
    }

    /// Drops every device with the address `address`, keeping the others in order.
    fn remove_devices_with(&mut self, address: &String)
        ensures
            final(self).model() == (AppModel {
                devices: without_address(old(self).model().devices, address@),
                ..old(self).model()
            }),
            final(self).theme == old(self).theme,
            final(self).confirm_action == old(self).confirm_action,
    {
        let ghost old_devices = self.model().devices;
        let ghost m = self.model();
        let mut i: usize = 0;
        let ghost mut j: int = 0;
        assert(old_devices.take(0) =~= Seq::<DeviceView>::empty());
        assert(old_devices.skip(0) =~= old_devices);
        assert(self.model().devices =~= without_address(old_devices.take(0), address@)
            + old_devices.skip(0));
        while i < self.devices.len()
            invariant
                0 <= j <= old_devices.len(),
                i <= self.devices.len(),
                self.model().devices == without_address(old_devices.take(j), address@)
                    + old_devices.skip(j),
                i == without_address(old_devices.take(j), address@).len(),
                self.model() == (AppModel { devices: self.model().devices, ..m }),
                self.theme == old(self).theme,
                self.confirm_action == old(self).confirm_action,
                m == old(self).model(),
                old_devices == m.devices,
            decreases self.devices.len() - i,
        {
            let ghost before = self.model().devices;
            let ghost w = without_address(old_devices.take(j), address@);
            assert(before[i as int] == old_devices[j]);
            assert(old_devices.take(j + 1).drop_last() =~= old_devices.take(j));
            assert(old_devices.take(j + 1).last() == old_devices[j]);
            if self.devices[i].address == *address {
                let ghost vec_before = self.devices@;
                self.devices.remove(i);
                assert(self.devices@ =~= vec_before.remove(i as int));
                assert(self.model().devices =~= before.remove(i as int));
                assert(old_devices.skip(j + 1) =~= old_devices.skip(j).drop_first());
                assert(before.remove(i as int) =~= w + old_devices.skip(j + 1));
                proof {
                    j = j + 1;
                }
            } else {
                i = i + 1;
                proof {
                    j = j + 1;
                }
                assert(self.model().devices =~= w.push(old_devices[j - 1]) + old_devices.skip(j));
            }
        }
        assert(old_devices.skip(j).len() == 0);
        assert(old_devices.take(j) =~= old_devices);
        assert(self.model().devices =~= without_address(old_devices, address@));
    }

    /// One turn of the main loop: applies an event to the state and says what
    /// the loop is to do next (hand an operation to the Bluetooth side, notify
    /// the user of a connection, or stop).
    pub fn handle_event(&mut self, event: AppEvent) -> (r: Reaction)
        requires
            event matches AppEvent::Key(key) ==> key_fits(
                old(self).selected,
                old(self).devices.len() as nat,
                key,
            ),
        ensures
            match event {
                AppEvent::Key(key) => {
                    &&& final(self).model() == key_step(old(self).model(), key).0
                    &&& action_view(r.action) == key_step(old(self).model(), key).1
                    &&& r.connected_notice is None
                    &&& r.stop == final(self).quit
                    &&& final(self).theme == old(self).theme
                },
                AppEvent::BluetoothEvent(e) => {
                    &&& (final(self).model(), text_view(r.connected_notice)) == event_step(
                        old(self).model(),
                        e@,
                    )
                    &&& r.action is None
                    &&& !r.stop
                    &&& final(self).theme == old(self).theme
                },
                AppEvent::ThemeChanged(t) => {
                    &&& final(self).theme == t
                    &&& final(self).model() == old(self).model()
                    &&& r.action is None && r.connected_notice is None && !r.stop
                },
                AppEvent::Tick => {
                    &&& final(self).theme == old(self).theme
                    &&& final(self).model() == old(self).model()
                    &&& r.action is None && r.connected_notice is None && !r.stop
                },
                AppEvent::Quit => {
                    &&& final(self).theme == old(self).theme
                    &&& final(self).model() == old(self).model()
                    &&& r.action is None && r.connected_notice is None && r.stop
                },
            },
            final(self).model() == input_step(old(self).model(), model_input(event)),
            final(self).confirm_action == old(self).confirm_action,
            old(self).model().wf() ==> final(self).model().wf(),
    {
        match event {
            AppEvent::Key(key) => {
                let action = self.handle_key(key);
                Reaction { action, connected_notice: None, stop: self.should_quit() }
            },
            AppEvent::BluetoothEvent(e) => {
                let notice = self.apply_bluetooth_event(e);
                Reaction { action: None, connected_notice: notice, stop: false }
            },
            AppEvent::ThemeChanged(t) => {
                self.set_theme(t);
                Reaction { action: None, connected_notice: None, stop: false }
            },
            AppEvent::Tick => Reaction { action: None, connected_notice: None, stop: false },
            AppEvent::Quit => Reaction { action: None, connected_notice: None, stop: true },
        }
    }

    /// Replaces the theme.
    pub fn set_theme(&mut self, theme: ThemeColors)
        ensures
            final(self).theme == theme,
            final(self).model() == old(self).model(),
            final(self).confirm_action == old(self).confirm_action,
    {
        self.theme = theme;
    }

    /// Whether the user has asked to quit.
    pub fn should_quit(&self) -> (q: bool)
        ensures
            q == self.quit,
    {
        self.quit
    }
}

} // verus!
