use m5ros::arch::pci::PciConfig;
use m5ros::drivers::ata::{
    check_buffer, drq_status, identify_check, identify_drive, ready_status, sector_command, sector_writes,
    wait_for_drq, wait_for_ready, AtaDriveInfo, DrqStatus,
};
use m5ros::drivers::bluetooth::{self, Bluetooth, BluetoothState};
use m5ros::drivers::e1000::{self, E1000, REG_RDT, REG_TDT};
use m5ros::drivers::framebuffer::{
    self, draw_char, draw_pixel, draw_rect, draw_string, fill_rect, pixel_bytes, pixel_offset, Color as Rgb,
    Framebuffer, FramebufferInfo, PixelFormat,
};
use m5ros::drivers::igpu::{self, Igpu, IgpuVendor};
use m5ros::drivers::keyboard::{handle_scancode, KeyboardState};
use m5ros::drivers::rtc::{bcd_to_binary, day_of_week_name, decode_rtc, month_name, DateTime};
use m5ros::drivers::serial::SerialPort;
use m5ros::drivers::vga::{self, Color, ScreenChar, Writer};
use m5ros::drivers::wifi::{self, Wifi, WifiState};

fn blank_screen() -> Option<Writer> {
    Some(Writer::new(vec![ScreenChar { ascii_character: b' ', color_code: 0x0F }; 2000]))
}

#[test]
fn test_vga_write() {
    let mut w = blank_screen();
    vga::write_str(&mut w, "Hi\nA");
    let wr = w.as_ref().unwrap();
    assert_eq!(wr.cell(23, 0).ascii_character, b'H');
    assert_eq!(wr.cell(23, 1).ascii_character, b'i');
    assert_eq!(wr.cell(24, 0).ascii_character, b'A');
    assert_eq!(wr.column_position, 1);
    vga::set_color(&mut w, Color::LightGreen, Color::Blue);
    vga::write_str(&mut w, "\u{e9}");
    let wr = w.as_ref().unwrap();
    assert_eq!(wr.cell(24, 1).ascii_character, 0xfe);
    assert_eq!(wr.cell(24, 1).color_code, 0x1A);
    vga::clear_screen(&mut w);
    assert_eq!(w.as_ref().unwrap().cell(23, 0).ascii_character, b' ');
    let mut none: Option<Writer> = None;
    vga::write_str(&mut none, "x");
    assert!(none.is_none());
}

#[test]
fn keyboard_shift_and_caps() {
    let mut st = KeyboardState::new();
    let mut w = blank_screen();
    handle_scancode(&mut st, &mut w, 0x1E);
    handle_scancode(&mut st, &mut w, 0x2A);
    handle_scancode(&mut st, &mut w, 0x1E);
    handle_scancode(&mut st, &mut w, 0xAA);
    handle_scancode(&mut st, &mut w, 0x3A);
    handle_scancode(&mut st, &mut w, 0x30);
    let wr = w.as_ref().unwrap();
    assert_eq!(wr.cell(24, 0).ascii_character, b'a');
    assert_eq!(wr.cell(24, 1).ascii_character, b'A');
    assert_eq!(wr.cell(24, 2).ascii_character, b'B');
    assert!(st.caps_lock && !st.shift_pressed);
}

#[test]
fn rtc_decoding_and_names() {
    assert_eq!(bcd_to_binary(0x59), 59);
    let d = decode_rtc(0x30, 0x45, 0x81, 0x07, 0x12, 0x24, 0x00);
    assert_eq!((d.second, d.minute, d.hour, d.day, d.month, d.year), (30, 45, 81, 7, 12, 2024));
    let pm = decode_rtc(30, 45, 0x81, 7, 12, 24, 0x04);
    assert_eq!(pm.hour, 13);
    let b = decode_rtc(30, 45, 23, 7, 12, 24, 0x06);
    assert_eq!((b.hour, b.year), (23, 2024));
    let dt = DateTime { second: 5, minute: 4, hour: 3, day: 9, month: 2, year: 2025 };
    assert_eq!(&dt.format_date(), b"2025-02-09");
    assert_eq!(&dt.format_time(), b"03:04:05");
    assert_eq!(day_of_week_name(2024, 1, 1), "Monday");
    assert_eq!(day_of_week_name(2023, 12, 25), "Monday");
    assert_eq!(day_of_week_name(2000, 2, 29), "Tuesday");
    assert_eq!(day_of_week_name(2000, 3, 19), "Sunday");
    assert_eq!(day_of_week_name(1970, 1, 1), "Thursday");
    assert_eq!(day_of_week_name(2000, 1, 1), "Saturday");
    assert_eq!(day_of_week_name(0, 1, 1), "Saturday");
    assert_eq!(day_of_week_name(2100, 3, 1), "Monday");
    assert_eq!(month_name(3), "March");
    assert_eq!(month_name(13), "Unknown");
}

#[test]
fn ata_decisions() {
    assert!(ready_status(0x40));
    assert!(!ready_status(0xC0));
    assert_eq!(drq_status(0x08), DrqStatus::Ready);
    assert_eq!(drq_status(0x01), DrqStatus::Failed);
    assert_eq!(drq_status(0x88), DrqStatus::Waiting);
    assert_eq!(wait_for_ready(&vec![0x80, 0x80, 0x50]), Ok(()));
    assert_eq!(wait_for_ready(&vec![0x80]), Err("ATA timeout waiting for ready"));
    assert_eq!(wait_for_drq(&vec![0x80, 0x01]), Err("ATA error during data transfer"));
    assert_eq!(wait_for_drq(&vec![0x80, 0x58]), Ok(()));
    assert_eq!(identify_check(0, 0, 0), Err("No ATA drive present"));
    assert_eq!(identify_check(0x50, 0x14, 0xEB), Err("Not an ATA device"));
    assert_eq!(identify_check(0x50, 0, 0), Ok(()));
    let mut data = vec![0u16; 256];
    data[27] = 0x5145;
    data[28] = 0x4D55;
    data[60] = 0x0000;
    data[61] = 0x0002;
    let info = identify_drive(&data);
    assert!(info.exists);
    assert_eq!(info.sectors, 0x20000);
    assert_eq!(&info.model[0..4], b"QEMU");
    assert!(!AtaDriveInfo::new().exists);
    assert_eq!(check_buffer(255, 1), Err("Buffer too small"));
    assert_eq!(check_buffer(512, 2), Ok(()));
    let cmd = sector_command(0x0123_4567, 2, 0x20);
    assert_eq!(cmd[0], (0x1F6, 0xE1));
    assert_eq!(cmd[2], (0x1F3, 0x67));
    assert_eq!(cmd[4], (0x1F5, 0x23));
    let words = vec![0xBEEFu16; 512];
    let w = sector_writes(&words, 1);
    assert_eq!(w.len(), 512);
    assert_eq!(w[0], (0x1F0, 0xEF));
    assert_eq!(w[1], (0x1F0, 0xBE));
}

#[test]
fn serial_writes() {
    let (mut port, setup) = SerialPort::init(0x3F8);
    assert_eq!(setup[1], (0x3FB, 0x80));
    assert_eq!(setup.len(), 7);
    assert!(port.is_transmit_empty(0x20));
    assert!(!port.is_transmit_empty(0x00));
    assert_eq!(port.write_str("ok"), vec![(0x3F8, b'o'), (0x3F8, b'k')]);
}

fn fb(w: usize, h: usize) -> Option<Framebuffer> {
    let info = FramebufferInfo { addr: 0, width: w, height: h, bytes_per_pixel: 4, stride: w * 4, format: PixelFormat::BGR };
    Some(Framebuffer { info, pixels: vec![Rgb::new(0, 0, 0); w * h] })
}

#[test]
fn framebuffer_drawing() {
    let red = Rgb::new(255, 0, 0);
    let mut f = fb(20, 10);
    draw_pixel(&mut f, 3, 2, red);
    draw_pixel(&mut f, 25, 2, red);
    assert_eq!(f.as_ref().unwrap().pixels[2 * 20 + 3], red);
    fill_rect(&mut f, 18, 8, 5, 5, red);
    assert_eq!(f.as_ref().unwrap().pixels[9 * 20 + 19], red);
    assert_eq!(f.as_ref().unwrap().pixels[7 * 20 + 19], Rgb::new(0, 0, 0));
    draw_rect(&mut f, 0, 0, 4, 3, red);
    assert_eq!(f.as_ref().unwrap().pixels[1 * 20 + 1], Rgb::new(0, 0, 0));
    assert_eq!(f.as_ref().unwrap().pixels[2 * 20 + 1], red);
    let mut font = vec![[0u8; 8]; 128];
    font[b'A' as usize] = [0x80, 0, 0, 0, 0, 0, 0, 0x01];
    let mut g = fb(20, 10);
    let white = Rgb::new(255, 255, 255);
    let blue = Rgb::new(0, 0, 255);
    draw_char(&mut g, 1, 1, 'A', white, blue, &font);
    assert_eq!(g.as_ref().unwrap().pixels[1 * 20 + 1], white);
    assert_eq!(g.as_ref().unwrap().pixels[1 * 20 + 2], blue);
    assert_eq!(g.as_ref().unwrap().pixels[8 * 20 + 8], white);
    draw_string(&mut g, 0, 0, "\nAA", white, blue, &font);
    assert_eq!(g.as_ref().unwrap().pixels[8], white);
    assert_eq!(pixel_bytes(PixelFormat::BGR, Rgb::new(1, 2, 3)), [3, 2, 1]);
    assert_eq!(pixel_offset(&f.as_ref().unwrap().info, 3, 2), 2 * 80 + 12);
    assert!(framebuffer::is_available(&f));
}

fn bus_with(slot: usize, vendor: u16, device: u16, class: u8, sub: u8) -> PciConfig {
    let mut c = PciConfig { words: vec![0xFFFF_FFFF; 16384] };
    let base = slot * 8 * 64;
    c.words[base] = (vendor as u32) | ((device as u32) << 16);
    c.words[base + 1] = 0;
    c.words[base + 2] = ((class as u32) << 24) | ((sub as u32) << 16);
    c.words[base + 3] = 0;
    c.words[base + 4] = 0xE000_0000;
    c
}

#[test]
fn igpu_lifecycle() {
    let mut gpu = Igpu::new();
    assert_eq!(igpu::get_description(&gpu), "No integrated graphics");
    assert_eq!(igpu::get_vendor_name(&gpu), "Not initialized");
    let mut empty = PciConfig { words: vec![0xFFFF_FFFF; 16384] };
    assert_eq!(igpu::init(&mut gpu, &mut empty).unwrap_err(), "No integrated graphics device found");
    let mut c = bus_with(2, 0x8086, 0x0162, 0x03, 0x00);
    let writes = igpu::init(&mut gpu, &mut c).unwrap();
    assert_eq!(writes.len(), 2);
    assert_eq!(writes[0].1, 0x2);
    assert_eq!(writes[1].1, 0x6);
    assert_eq!(writes[0].0, 0x8000_1004);
    assert_eq!(c.words[2 * 8 * 64 + 1], 0x6);
    assert_eq!(igpu::get_description(&gpu), "Intel HD Graphics 4000");
    assert_eq!(igpu::get_vendor(&gpu), Some(IgpuVendor::Intel));
    let info = igpu::get_info(&gpu, &c, 0xF000_0000).unwrap();
    assert_eq!(info.framebuffer_addr, 0xE000_0000);
    assert_eq!(igpu::init(&mut gpu, &mut c).unwrap_err(), "Integrated graphics already initialized");
    assert_eq!(igpu::set_mode(&gpu, 800, 600, 32), Err("Display mode setting not yet implemented"));
}

#[test]
fn wifi_and_bluetooth_states() {
    let mut w = Wifi::new();
    let mut bt = Bluetooth::new();
    assert_eq!(bluetooth::init(&mut bt, &w), Err("Wi-Fi driver must be initialized first (shared hardware)"));
    assert_eq!(wifi::scan_networks(&mut w).unwrap_err(), "Wi-Fi driver not initialized");
    let mut c = bus_with(4, 0x10EC, 0xB852, 0x02, 0x80);
    let writes = wifi::init(&mut w, &mut c).unwrap();
    assert_eq!(writes, vec![(0x8000_2004, 0x2), (0x8000_2004, 0x6)]);
    assert_eq!(c.words[4 * 8 * 64 + 1], 0x6);
    assert_eq!(wifi::get_state(&w), WifiState::Initialized);
    let nets = wifi::scan_networks(&mut w).unwrap();
    assert_eq!(nets.len(), 32);
    assert_eq!(wifi::get_state(&w), WifiState::Disconnected);
    assert!(wifi::connect(&mut w, "net", "pw").is_err());
    assert_eq!(wifi::get_state(&w), WifiState::Connecting);
    assert_eq!(wifi::get_signal_strength(&w), -100);
    assert_eq!(wifi::send_packet(&w, &[1, 2]), Err("Not connected to a network"));
    assert!(bluetooth::init(&mut bt, &w).is_ok());
    assert_eq!(bluetooth::get_state(&bt), BluetoothState::Initialized);
    assert!(bluetooth::connect(&mut bt, [0; 6]).is_err());
    assert_eq!(bluetooth::disconnect(&mut bt), Ok(()));
    assert_eq!(bluetooth::get_state(&bt), BluetoothState::Disconnected);
    assert_eq!(bluetooth::get_rssi(&bt), -100);
    assert_eq!(bluetooth::get_version_string(), "Bluetooth 5.3");
}

#[test]
fn e1000_rings() {
    let mut dev = E1000::new();
    let mut log: Vec<u8> = Vec::new();
    assert_eq!(e1000::send_packet(&mut dev, &[1], 0), Err("E1000 not initialized"));
    let rx: Vec<u64> = (0..32).map(|i| 0x1000 * i as u64).collect();
    let tx: Vec<u64> = (0..16).map(|i| 0x9000 * i as u64).collect();
    let writes = e1000::init(&mut dev, 0xC000, [0x5452, 0x1200, 0x5634], 0x1_0000_2000, 0x3000, &rx, &tx, &mut log).unwrap();
    assert_eq!(writes.len(), 128 + 12);
    assert_eq!(writes[129], (0x2804, 1));
    assert_eq!(e1000::get_mac_address(&dev), [0x52, 0x54, 0x00, 0x12, 0x34, 0x56]);
    assert_eq!(
        String::from_utf8(log).unwrap(),
        "E1000: Initializing at I/O base 0xC000\nE1000: MAC address: 52:54:00:12:34:56\nE1000: Initialized successfully\n"
    );
    assert_eq!(e1000::receive_packet(&mut dev, 0).0, None);
    dev.rx_descs[0].status = 1;
    dev.rx_descs[0].length = 3;
    dev.rx_buffers[0][0..3].copy_from_slice(&[7, 8, 9]);
    let (pkt, write) = e1000::receive_packet(&mut dev, 5);
    assert_eq!(pkt, Some(vec![7, 8, 9]));
    assert_eq!(write, Some((REG_RDT, 0)));
    assert_eq!(dev.rx_tail, 0);
    assert_eq!(e1000::send_packet(&mut dev, &[], 5), Err("Invalid packet size"));
    assert_eq!(e1000::send_packet(&mut dev, &[1, 2], 1), Err("Transmit queue full"));
    assert_eq!(e1000::send_packet(&mut dev, &[1, 2], 5), Ok((REG_TDT, 1)));
    assert_eq!(&dev.tx_buffers[0][0..2], &[1, 2]);
    assert_eq!(dev.tx_descs[0].cmd, 9);
    assert!(e1000::is_link_up(&dev, 2));
    assert_eq!(e1000::read_eeprom(&vec![0, 0xABCD_0010]), 0xABCD);
    assert_eq!(e1000::read_eeprom(&vec![0]), 0xFFFF);
}
