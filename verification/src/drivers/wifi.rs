//! Realtek RTL8852BE Wi-Fi: the driver's state machine. Scanning, connecting and the
//! data path need firmware that is not loaded, so they report that.

use vstd::prelude::*;
use crate::arch::pci::{enable_writes, enabled_words, first_match, found, PciConfig, PciDevice, DEVICE_RTL8852BE, PCI_COMMAND, VENDOR_REALTEK};

verus! {

/// Driver state.
#[derive(Debug, Clone, Copy, PartialEq, Eq, Structural)]
pub enum WifiState {
    Uninitialized,
    Initialized,
    Scanning,
    Connecting,
    Connected,
    Disconnected,
}

/// Network security.
#[derive(Debug, Clone, Copy, PartialEq, Eq, Structural)]
pub enum WifiSecurity {
    Open,
    WEP,
    WPA,
    WPA2,
    WPA3,
}

/// A network seen by a scan.
#[derive(Debug, Clone, Copy)]
pub struct WifiNetwork {
    pub ssid: [u8; 32],
    pub ssid_len: usize,
    pub channel: u8,
    pub signal_strength: i8,
    pub security: WifiSecurity,
}

/// What the driver tells of the adapter.
pub struct WifiInfo {
    pub device_id: u16,
    pub mac_address: [u8; 6],
    pub state: WifiState,
    pub current_channel: u8,
    pub firmware_version: u32,
}

/// The driver: set up or not, the device, and the connection state.
pub struct Wifi {
    pub initialized: bool,
    pub device: Option<PciDevice>,
    pub state: WifiState,
}

impl Wifi {
    /// A driver that is not set up.
    pub fn new() -> (w: Wifi)
        ensures
            !w.initialized,
            w.device is None,
            w.state == WifiState::Uninitialized,
    {
        Wifi { initialized: false, device: None, state: WifiState::Uninitialized }
    }
}

/// Set the driver up on the first RTL8852BE of bus 0, enabling its memory space and bus
/// mastering (the command register writes are returned, and kept in `config`).
pub fn init(wifi: &mut Wifi, config: &mut PciConfig) -> (r: Result<Vec<(u32, u32)>, &'static str>)
    requires
        old(config).wf(),
    ensures
        final(config).wf(),
        old(wifi).initialized ==> (r matches Err(e) && e@ == "Wi-Fi driver already initialized"@)
            && *final(wifi) == *old(wifi),
        old(wifi).initialized ==> *final(config) == *old(config),
        !old(wifi).initialized && first_match(found(*old(config), 32), VENDOR_REALTEK, DEVICE_RTL8852BE) is None
            ==> (r matches Err(e) && e@ == "Realtek RTL8852BE not found"@) && *final(wifi) == *old(wifi)
                && *final(config) == *old(config),
        !old(wifi).initialized ==> (first_match(found(*old(config), 32), VENDOR_REALTEK, DEVICE_RTL8852BE) matches Some(d)
            ==> (r matches Ok(w) && w@ == enable_writes(*old(config), d))
                && final(config).words@ == enabled_words(*old(config), d)
                && final(wifi).initialized && final(wifi).device == Some(d)
                && final(wifi).state == WifiState::Initialized),
{
    if wifi.initialized {
        return Err("Wi-Fi driver already initialized");
    }
    match crate::arch::pci::find_device(config, VENDOR_REALTEK, DEVICE_RTL8852BE) {
        Some(device) => {
            proof {
                crate::arch::pci::lemma_first_match_on_bus0(*config, VENDOR_REALTEK, DEVICE_RTL8852BE);
            }
            wifi.device = Some(device);
            let (a1, v1) = device.enable_memory_space(config);
            config.store(device.slot, device.function, PCI_COMMAND, v1);
            let (a2, v2) = device.enable_bus_mastering(config);
            config.store(device.slot, device.function, PCI_COMMAND, v2);
            wifi.state = WifiState::Initialized;
            wifi.initialized = true;
            let mut writes: Vec<(u32, u32)> = Vec::new();
            writes.push((a1, v1));
            writes.push((a2, v2));
            Ok(writes)
        },
        None => Err("Realtek RTL8852BE not found"),
    }
}

/// Whether the driver is set up.
pub fn is_initialized(wifi: &Wifi) -> (b: bool)
    ensures
        b == wifi.initialized,
{
    wifi.initialized
}

/// The connection state.
pub fn get_state(wifi: &Wifi) -> (s: WifiState)
    ensures
        s == wifi.state,
{
    wifi.state
}

/// The adapter's description, when set up; its MAC address and channel are not read
/// from the hardware yet and show as zero.
pub fn get_info(wifi: &Wifi) -> (r: Option<WifiInfo>)
    ensures
        !wifi.initialized || wifi.device is None ==> r is None,
        wifi.initialized ==> (wifi.device matches Some(d) ==> (r matches Some(info)
            && info.device_id == d.device_id && info.mac_address@ == seq![0u8, 0, 0, 0, 0, 0]
            && info.state == wifi.state && info.current_channel == 0 && info.firmware_version == 0)),
{
    if !is_initialized(wifi) {
        return None;
    }
    match wifi.device {
        Some(device) => {
            let info = WifiInfo {
                device_id: device.device_id,
                mac_address: [0, 0, 0, 0, 0, 0],
                state: wifi.state,
                current_channel: 0,
                firmware_version: 0,
            };
            assert(info.mac_address@ =~= seq![0u8, 0, 0, 0, 0, 0]);
            Some(info)
        },
        None => None,
    }
}

/// Scan for networks: up to 32 slots. The scan passes through `Scanning` and ends
/// `Disconnected`; no network is reported yet.
pub fn scan_networks(wifi: &mut Wifi) -> (r: Result<Vec<Option<WifiNetwork>>, &'static str>)
    ensures
        !old(wifi).initialized ==> (r matches Err(e) && e@ == "Wi-Fi driver not initialized"@)
            && *final(wifi) == *old(wifi),
        old(wifi).initialized ==> (r matches Ok(v) && v@.len() == 32
            && forall|i: int| 0 <= i < 32 ==> #[trigger] v@[i] is None)
            && final(wifi).state == WifiState::Disconnected
            && final(wifi).initialized == old(wifi).initialized && final(wifi).device == old(wifi).device,
{
    if !is_initialized(wifi) {
        return Err("Wi-Fi driver not initialized");
    }
    wifi.state = WifiState::Scanning;
    wifi.state = WifiState::Disconnected;
    let mut v: Vec<Option<WifiNetwork>> = Vec::new();
    let mut i: usize = 0;
    while i < 32
        invariant
            i <= 32,
            v@.len() == i,
            forall|k: int| 0 <= k < i ==> #[trigger] v@[k] is None,
        decreases 32 - i,
    {
        v.push(None);
        i = i + 1;
    }
    Ok(v)
}

/// Connect to a network: the state becomes `Connecting`, but the handshake needs
/// firmware, so it is refused.
pub fn connect(wifi: &mut Wifi, ssid: &str, password: &str) -> (r: Result<(), &'static str>)
    ensures
        !old(wifi).initialized ==> (r matches Err(e) && e@ == "Wi-Fi driver not initialized"@)
            && *final(wifi) == *old(wifi),
        old(wifi).initialized ==> (r matches Err(e)
            && e@ == "Wi-Fi connection not yet implemented - requires firmware and hardware initialization"@)
            && final(wifi).state == WifiState::Connecting
            && final(wifi).initialized == old(wifi).initialized && final(wifi).device == old(wifi).device,
{
    if !is_initialized(wifi) {
        return Err("Wi-Fi driver not initialized");
    }
    wifi.state = WifiState::Connecting;
    Err("Wi-Fi connection not yet implemented - requires firmware and hardware initialization")
}

/// Disconnect.
pub fn disconnect(wifi: &mut Wifi) -> (r: Result<(), &'static str>)
    ensures
        !old(wifi).initialized ==> (r matches Err(e) && e@ == "Wi-Fi driver not initialized"@)
            && *final(wifi) == *old(wifi),
        old(wifi).initialized ==> r is Ok && final(wifi).state == WifiState::Disconnected
            && final(wifi).initialized == old(wifi).initialized && final(wifi).device == old(wifi).device,
{
    if !is_initialized(wifi) {
        return Err("Wi-Fi driver not initialized");
    }
    wifi.state = WifiState::Disconnected;
    Ok(())
}

/// Whether connected.
pub fn is_connected(wifi: &Wifi) -> (b: bool)
    ensures
        b == (wifi.state == WifiState::Connected),
{
    wifi.state == WifiState::Connected
}

/// The Wi-Fi standards of the adapter.
pub fn get_supported_standards() -> (s: &'static str)
    ensures
        s@ == "802.11a/b/g/n/ac/ax (Wi-Fi 6)"@,
{
    "802.11a/b/g/n/ac/ax (Wi-Fi 6)"
}

/// The adapter's top theoretical throughput.
pub fn get_max_throughput() -> (s: &'static str)
    ensures
        s@ == "1201 Mbps (2x2 Wi-Fi 6)"@,
{
    "1201 Mbps (2x2 Wi-Fi 6)"
}

/// Send a packet: refused, with why.
pub fn send_packet(wifi: &Wifi, data: &[u8]) -> (r: Result<(), &'static str>)
    ensures
        !wifi.initialized ==> (r matches Err(e) && e@ == "Wi-Fi driver not initialized"@),
        wifi.initialized && wifi.state != WifiState::Connected ==> (r matches Err(e) && e@ == "Not connected to a network"@),
        wifi.initialized && wifi.state == WifiState::Connected ==> (r matches Err(e) && e@ == "Packet transmission not yet implemented"@),
{
    if !is_initialized(wifi) {
        return Err("Wi-Fi driver not initialized");
    }
    if !is_connected(wifi) {
        return Err("Not connected to a network");
    }
    Err("Packet transmission not yet implemented")
}

/// Receive a packet: there is none.
pub fn receive_packet(wifi: &Wifi) -> (r: Option<Vec<u8>>)
    ensures
        r is None,
{
    if !is_initialized(wifi) || !is_connected(wifi) {
        return None;
    }
    None
}

/// The device driven.
pub fn get_device(wifi: &Wifi) -> (d: Option<PciDevice>)
    ensures
        d == wifi.device,
{
    wifi.device
}

/// Signal strength in dBm: -100 when not connected, else -50.
pub fn get_signal_strength(wifi: &Wifi) -> (s: i8)
    ensures
        s == if wifi.state == WifiState::Connected { -50i8 } else { -100i8 },
{
    if !is_connected(wifi) {
        return -100;
    }
    -50
}

/// Set the transmit power.
pub fn set_tx_power(wifi: &Wifi, power_dbm: u8) -> (r: Result<(), &'static str>)
    ensures
        !wifi.initialized ==> (r matches Err(e) && e@ == "Wi-Fi driver not initialized"@),
        wifi.initialized ==> r is Ok,
{
    if !is_initialized(wifi) {
        return Err("Wi-Fi driver not initialized");
    }
    Ok(())
}

} // verus!
