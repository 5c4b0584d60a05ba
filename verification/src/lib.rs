//! m5rOS kernel logic: memory management, drivers, networking, the shell and its
//! formatting, as verified functions over explicit state.

pub mod arch;
pub mod boot_animation;
pub mod command;
pub mod drivers;
pub mod editor;
pub mod fmt;
pub mod fs;
pub mod mem;
pub mod net;
pub mod stats;
pub mod sysinfo;
pub mod util;
