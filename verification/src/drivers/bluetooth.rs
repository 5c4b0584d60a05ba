//! Bluetooth 5.3 on the RTL8852BE: the driver's state machine. It shares the chip with
//! the Wi-Fi driver, which must be set up first; pairing, connecting and data transfer
//! need firmware that is not loaded, so they report that.

use vstd::prelude::*;
use crate::drivers::wifi::Wifi;

verus! {

/// Driver state.
#[derive(Debug, Clone, Copy, PartialEq, Eq, Structural)]
pub enum BluetoothState {
    Uninitialized,
    Initialized,
    Scanning,
    Connecting,
    Connected,
    Disconnected,
}

/// A device seen by a scan.
#[derive(Debug, Clone, Copy)]
pub struct BluetoothDevice {
    pub address: [u8; 6],
    pub name: [u8; 32],
    pub name_len: usize,
    pub device_class: u32,
    pub rssi: i8,
    pub paired: bool,
}

/// Bluetooth version.
#[derive(Debug, Clone, Copy, PartialEq, Eq, Structural)]
pub enum BluetoothVersion {
    V4_2,
    V5_0,
    V5_1,
    V5_2,
    V5_3,
}

/// What the driver tells of the adapter.
pub struct BluetoothInfo {
    pub version: BluetoothVersion,
    pub address: [u8; 6],
    pub state: BluetoothState,
    pub firmware_version: u32,
}

/// The driver: set up or not, and the connection state.
pub struct Bluetooth {
    pub initialized: bool,
    pub state: BluetoothState,
}

impl Bluetooth {
    /// A driver that is not set up.
    pub fn new() -> (b: Bluetooth)
        ensures
            !b.initialized,
            b.state == BluetoothState::Uninitialized,
    {
        Bluetooth { initialized: false, state: BluetoothState::Uninitialized }
    }
}

/// Set the driver up; the Wi-Fi driver must be set up first.
pub fn init(bt: &mut Bluetooth, wifi: &Wifi) -> (r: Result<(), &'static str>)
    ensures
        old(bt).initialized ==> (r matches Err(e) && e@ == "Bluetooth driver already initialized"@)
            && *final(bt) == *old(bt),
        !old(bt).initialized && !wifi.initialized ==> (r matches Err(e)
            && e@ == "Wi-Fi driver must be initialized first (shared hardware)"@) && *final(bt) == *old(bt),
        !old(bt).initialized && wifi.initialized ==> r is Ok && final(bt).initialized
            && final(bt).state == BluetoothState::Initialized,
{
    if bt.initialized {
        return Err("Bluetooth driver already initialized");
    }
    if !crate::drivers::wifi::is_initialized(wifi) {
        return Err("Wi-Fi driver must be initialized first (shared hardware)");
    }
    bt.state = BluetoothState::Initialized;
    bt.initialized = true;
    Ok(())
}

/// Whether the driver is set up.
pub fn is_initialized(bt: &Bluetooth) -> (b: bool)
    ensures
        b == bt.initialized,
{
    bt.initialized
}

/// The connection state.
pub fn get_state(bt: &Bluetooth) -> (s: BluetoothState)
    ensures
        s == bt.state,
{
    bt.state
}

/// The adapter's description, when set up: version 5.3; its address is not read yet
/// and shows as zero.
pub fn get_info(bt: &Bluetooth) -> (r: Option<BluetoothInfo>)
    ensures
        !bt.initialized ==> r is None,
        bt.initialized ==> (r matches Some(info) && info.version == BluetoothVersion::V5_3
            && info.address@ == seq![0u8, 0, 0, 0, 0, 0] && info.state == bt.state && info.firmware_version == 0),
{
    if !is_initialized(bt) {
        return None;
    }
    let info = BluetoothInfo {
        version: BluetoothVersion::V5_3,
        address: [0, 0, 0, 0, 0, 0],
        state: bt.state,
        firmware_version: 0,
    };
    assert(info.address@ =~= seq![0u8, 0, 0, 0, 0, 0]);
    Some(info)
}

/// Scan for devices: up to 32 slots. The scan passes through `Scanning` and ends
/// `Disconnected`; no device is reported yet.
pub fn scan_devices(bt: &mut Bluetooth, duration_ms: u32) -> (r: Result<Vec<Option<BluetoothDevice>>, &'static str>)
    ensures
        !old(bt).initialized ==> (r matches Err(e) && e@ == "Bluetooth driver not initialized"@)
            && *final(bt) == *old(bt),
        old(bt).initialized ==> (r matches Ok(v) && v@.len() == 32
            && forall|i: int| 0 <= i < 32 ==> #[trigger] v@[i] is None)
            && final(bt).state == BluetoothState::Disconnected && final(bt).initialized,
{
    if !is_initialized(bt) {
        return Err("Bluetooth driver not initialized");
    }
    bt.state = BluetoothState::Scanning;
    bt.state = BluetoothState::Disconnected;
    let mut v: Vec<Option<BluetoothDevice>> = Vec::new();
    let mut i: usize = 0;
    while i < 32
        invariant
            i <= 32,
            v@.len() == i,
            forall|k: int| 0 <= k < i ==> #[trigger] v@[k] is None,
        decreases 32 - i,
    {
        v.push(None);
        i = i + 1;
    }
    Ok(v)
}

/// Pair with a device: refused, with why.
pub fn pair(bt: &Bluetooth, address: [u8; 6], pin: Option<&str>) -> (r: Result<(), &'static str>)
    ensures
        !bt.initialized ==> (r matches Err(e) && e@ == "Bluetooth driver not initialized"@),
        bt.initialized ==> (r matches Err(e)
            && e@ == "Bluetooth pairing not yet implemented - requires HCI and firmware"@),
{
    if !is_initialized(bt) {
        return Err("Bluetooth driver not initialized");
    }
    Err("Bluetooth pairing not yet implemented - requires HCI and firmware")
}

/// Connect to a device: the state becomes `Connecting`, but it is refused.
pub fn connect(bt: &mut Bluetooth, address: [u8; 6]) -> (r: Result<(), &'static str>)
    ensures
        !old(bt).initialized ==> (r matches Err(e) && e@ == "Bluetooth driver not initialized"@)
            && *final(bt) == *old(bt),
        old(bt).initialized ==> (r matches Err(e) && e@ == "Bluetooth connection not yet implemented"@)
            && final(bt).state == BluetoothState::Connecting && final(bt).initialized,
{
    if !is_initialized(bt) {
        return Err("Bluetooth driver not initialized");
    }
    bt.state = BluetoothState::Connecting;
    Err("Bluetooth connection not yet implemented")
}

/// Disconnect.
pub fn disconnect(bt: &mut Bluetooth) -> (r: Result<(), &'static str>)
    ensures
        !old(bt).initialized ==> (r matches Err(e) && e@ == "Bluetooth driver not initialized"@)
            && *final(bt) == *old(bt),
        old(bt).initialized ==> r is Ok && final(bt).state == BluetoothState::Disconnected && final(bt).initialized,
{
    if !is_initialized(bt) {
        return Err("Bluetooth driver not initialized");
    }
    bt.state = BluetoothState::Disconnected;
    Ok(())
}

/// Whether connected.
pub fn is_connected(bt: &Bluetooth) -> (b: bool)
    ensures
        b == (bt.state == BluetoothState::Connected),
{
    bt.state == BluetoothState::Connected
}

/// The profiles the adapter supports.
pub fn get_supported_profiles() -> (s: &'static str)
    ensures
        s@ == "A2DP, HFP, HSP, HID, GATT, GAP"@,
{
    "A2DP, HFP, HSP, HID, GATT, GAP"
}

/// The Bluetooth version as text.
pub fn get_version_string() -> (s: &'static str)
    ensures
        s@ == "Bluetooth 5.3"@,
{
    "Bluetooth 5.3"
}

/// The adapter's features.
pub fn get_features() -> (s: &'static str)
    ensures
        s@ == "BLE, Classic Bluetooth, Dual Mode, Enhanced Data Rate"@,
{
    "BLE, Classic Bluetooth, Dual Mode, Enhanced Data Rate"
}

/// Send data: refused, with why.
pub fn send_data(bt: &Bluetooth, data: &[u8]) -> (r: Result<(), &'static str>)
    ensures
        !bt.initialized ==> (r matches Err(e) && e@ == "Bluetooth driver not initialized"@),
        bt.initialized && bt.state != BluetoothState::Connected ==> (r matches Err(e) && e@ == "Not connected to a device"@),
        bt.initialized && bt.state == BluetoothState::Connected ==> (r matches Err(e)
            && e@ == "Bluetooth data transmission not yet implemented"@),
{
    if !is_initialized(bt) {
        return Err("Bluetooth driver not initialized");
    }
    if !is_connected(bt) {
        return Err("Not connected to a device");
    }
    Err("Bluetooth data transmission not yet implemented")
}

/// Receive data: there is none.
pub fn receive_data(bt: &Bluetooth) -> (r: Option<Vec<u8>>)
    ensures
        r is None,
{
    if !is_initialized(bt) || !is_connected(bt) {
        return None;
    }
    None
}

/// Set the adapter's name.
pub fn set_device_name(bt: &Bluetooth, name: &str) -> (r: Result<(), &'static str>)
    ensures
        !bt.initialized ==> (r matches Err(e) && e@ == "Bluetooth driver not initialized"@),
        bt.initialized ==> r is Ok,
{
    if !is_initialized(bt) {
        return Err("Bluetooth driver not initialized");
    }
    Ok(())
}

/// The adapter's name.
pub fn get_device_name() -> (s: &'static str)
    ensures
        s@ == "m5rOS-BT"@,
{
    "m5rOS-BT"
}

/// Make the adapter discoverable or not.
pub fn set_discoverable(bt: &Bluetooth, discoverable: bool) -> (r: Result<(), &'static str>)
    ensures
        !bt.initialized ==> (r matches Err(e) && e@ == "Bluetooth driver not initialized"@),
        bt.initialized ==> r is Ok,
{
    if !is_initialized(bt) {
        return Err("Bluetooth driver not initialized");
    }
    Ok(())
}

/// Received signal strength in dBm: -100 when not connected, else -50.
pub fn get_rssi(bt: &Bluetooth) -> (s: i8)
    ensures
        s == if bt.state == BluetoothState::Connected { -50i8 } else { -100i8 },
{
    if !is_connected(bt) {
        return -100;
    }
    -50
}

} // verus!
