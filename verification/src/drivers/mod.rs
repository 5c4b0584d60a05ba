pub mod keyboard;
pub mod vga;
pub mod rtc;
pub mod ata;
pub mod serial;
pub mod framebuffer;
pub mod igpu;
pub mod wifi;
pub mod bluetooth;
pub mod e1000;
